//! Assembly of the `CREATE … AS (SELECT …)` view query: clause builders
//! for the four orientations of `group_by` × `split_by`, and their spec
//! functions.

use vstd::prelude::*;

verus! {

use vstd::string::StringExecFns;

use crate::config::Aggregate;
use crate::config::AggregateV;
use crate::config::Sort;
use crate::config::SortDir;
use crate::config::ViewConfig;
use crate::config::ViewConfigV;
use crate::config::aggregate_to_string;
use crate::config::assoc_first;
use crate::config::is_col_sort;
use crate::config::is_row_sort;
use crate::config::sort_dir_to_string;
use crate::config::spec_aggregate_name;
use crate::config::spec_is_row_sort;
use crate::config::spec_sort_dir_str;
use crate::model::GenericSQLVirtualServerModel;
use crate::model::spec_filter_term_sql;
use crate::model::spec_grouping_fn;
use crate::text::alias_escape;
use crate::text::append_alias_escaped;
use crate::text::dec_str;
use crate::text::join_strings;
use crate::text::join_with;
use crate::text::extend_strings;
use crate::text::join_prefix;
use crate::text::str_eq;
use crate::text::usize_to_string;

/// The four query shapes, selected from the emptiness of `group_by` and
/// `split_by`.
pub enum QueryOrientation {
    Flat,
    Grouped,
    Pivoted,
    GroupedAndPivoted,
}

/// The orientation a configuration selects.
pub open spec fn spec_orientation(cfg: ViewConfigV) -> QueryOrientation {
    if cfg.group_by.len() == 0 && cfg.split_by.len() == 0 {
        QueryOrientation::Flat
    } else if cfg.group_by.len() > 0 && cfg.split_by.len() == 0 {
        QueryOrientation::Grouped
    } else if cfg.group_by.len() == 0 {
        QueryOrientation::Pivoted
    } else {
        QueryOrientation::GroupedAndPivoted
    }
}

/// The SQL fragment a column resolves to: its expression override
/// verbatim when one exists, else the double-quoted name.
pub open spec fn spec_col_name(cfg: ViewConfigV, col: Seq<char>) -> Seq<char> {
    match assoc_first(cfg.expressions, col) {
        Option::Some(e) => e,
        Option::None => "\""@ + col + "\""@,
    }
}

/// The aggregate name used for a column: its configured aggregate, or
/// `any_value` when none is configured.
pub open spec fn spec_get_aggregate(cfg: ViewConfigV, col: Seq<char>) -> Seq<char> {
    match assoc_first(cfg.aggregates, col) {
        Option::Some(a) => spec_aggregate_name(a),
        Option::None => "any_value"@,
    }
}

/// The present entries of the column list, in order.
pub open spec fn spec_present_columns(cols: Seq<Option<Seq<char>>>) -> Seq<Seq<char>>
    decreases cols.len(),
{
    if cols.len() == 0 {
        Seq::empty()
    } else {
        spec_present_columns(cols.drop_last()) + (match cols.last() {
            Option::Some(c) => seq![c],
            Option::None => Seq::empty(),
        })
    }
}

/// One SELECT-list entry for a column: aggregated when grouping, plain
/// otherwise, aliased to the escaped column name.
pub open spec fn spec_select_clause(cfg: ViewConfigV, col: Seq<char>) -> Seq<char> {
    if cfg.group_by.len() > 0 {
        spec_get_aggregate(cfg, col) + "("@ + spec_col_name(cfg, col) + ") as \""@ + alias_escape(
            col,
        ) + "\""@
    } else {
        spec_col_name(cfg, col) + " as \""@ + alias_escape(col) + "\""@
    }
}

/// The SELECT list of the query.
pub open spec fn spec_select_clauses(cfg: ViewConfigV) -> Seq<Seq<char>> {
    spec_present_columns(cfg.columns).map_values(|c: Seq<char>| spec_select_clause(cfg, c))
}

/// The rendered WHERE clauses, one per filter whose operand renders.
pub open spec fn spec_where_clauses(cfg: ViewConfigV, fs: Seq<crate::config::FilterV>) -> Seq<
    Seq<char>,
>
    decreases fs.len(),
{
    if fs.len() == 0 {
        Seq::empty()
    } else {
        spec_where_clauses(cfg, fs.drop_last()) + (match spec_filter_term_sql(fs.last().term) {
            Option::Some(lit) => seq![
                (spec_col_name(cfg, fs.last().column) + " "@ + fs.last().op + " "@ + lit),
            ],
            Option::None => Seq::empty(),
        })
    }
}

/// The WHERE fragment, empty when no filter renders, else with a
/// leading space.
pub open spec fn spec_where_sql(cfg: ViewConfigV) -> Seq<char> {
    let cl = spec_where_clauses(cfg, cfg.filter);
    if cl.len() == 0 {
        Seq::empty()
    } else {
        " WHERE "@ + join_with(cl, " AND "@)
    }
}

/// The resolved SQL fragments of the group-by columns, in order.
pub open spec fn spec_group_col_names(cfg: ViewConfigV) -> Seq<Seq<char>> {
    cfg.group_by.map_values(|c: Seq<char>| spec_col_name(cfg, c))
}

/// The group-by fragments joined with `, `.
pub open spec fn spec_groups_joined(cfg: ViewConfigV) -> Seq<char> {
    join_with(spec_group_col_names(cfg), ", "@)
}

/// The row-path alias for level `i`.
pub open spec fn spec_row_path_alias(i: int) -> Seq<char> {
    "__ROW_PATH_"@ + dec_str(i as nat) + "__"@
}

/// The row-path aliases for `k` levels.
pub open spec fn spec_row_path_aliases(k: nat) -> Seq<Seq<char>> {
    Seq::new(k, |i: int| spec_row_path_alias(i))
}

/// The grouping-bit SELECT entry.
pub open spec fn spec_grouping_id_clause(cfg: ViewConfigV, gfn: Seq<char>) -> Seq<char> {
    gfn + "("@ + spec_groups_joined(cfg) + ") AS "@ + "__GROUPING_ID__"@
}

/// The row-path SELECT entries, one per group-by column.
pub open spec fn spec_row_path_select_clauses(cfg: ViewConfigV) -> Seq<Seq<char>> {
    Seq::new(
        cfg.group_by.len(),
        |i: int| spec_col_name(cfg, cfg.group_by[i]) + " as "@ + spec_row_path_alias(i),
    )
}

/// The PIVOT `ON` expression: the split-by columns, quoted and joined.
pub open spec fn spec_pivot_on(cfg: ViewConfigV) -> Seq<char> {
    join_with(cfg.split_by.map_values(|c: Seq<char>| "\""@ + c + "\""@), ", "@)
}

/// The synthetic sort-key alias for sort entry `i`.
pub open spec fn spec_sort_key(i: int) -> Seq<char> {
    "__SORT_"@ + dec_str(i as nat) + "__"@
}

/// The sort-projection SELECT entry for row-sort entry `i` in the
/// grouped-and-pivoted shape: the aggregated sort column summed over a
/// rollup-constant window.
pub open spec fn spec_sort_proj_clause(
    cfg: ViewConfigV,
    gfn: Seq<char>,
    col: Seq<char>,
    i: int,
) -> Seq<char> {
    "sum("@ + spec_get_aggregate(cfg, col) + "("@ + spec_col_name(cfg, col)
        + ")) OVER (PARTITION BY "@ + gfn + "("@ + spec_groups_joined(cfg) + "), "@
        + spec_groups_joined(cfg) + ") AS "@ + spec_sort_key(i)
}

/// The sort-projection entries for all row-sort entries, in order.
pub open spec fn spec_sort_proj_clauses(
    cfg: ViewConfigV,
    gfn: Seq<char>,
    sort: Seq<(Seq<char>, SortDir)>,
) -> Seq<Seq<char>>
    decreases sort.len(),
{
    if sort.len() == 0 {
        Seq::empty()
    } else {
        spec_sort_proj_clauses(cfg, gfn, sort.drop_last()) + (if spec_is_row_sort(
            sort.last().1,
        ) {
            seq![spec_sort_proj_clause(cfg, gfn, sort.last().0, sort.len() - 1)]
        } else {
            Seq::empty()
        })
    }
}

/// The sort-key aliases of the row-sort entries, in order.
pub open spec fn spec_sort_keys(sort: Seq<(Seq<char>, SortDir)>) -> Seq<Seq<char>>
    decreases sort.len(),
{
    if sort.len() == 0 {
        Seq::empty()
    } else {
        spec_sort_keys(sort.drop_last()) + (if spec_is_row_sort(sort.last().1) {
            seq![spec_sort_key(sort.len() - 1)]
        } else {
            Seq::empty()
        })
    }
}

/// The outer PIVOT `GROUP BY` list: row paths, grouping id, sort keys.
pub open spec fn spec_row_id_cols(cfg: ViewConfigV) -> Seq<Seq<char>> {
    spec_row_path_aliases(cfg.group_by.len()) + seq!["__GROUPING_ID__"@] + spec_sort_keys(cfg.sort)
}

/// The rollup-level discriminator of ORDER BY level `g`.
pub open spec fn spec_level_disc(cfg: ViewConfigV, gfn: Seq<char>, g: int) -> Seq<char> {
    if cfg.split_by.len() > 0 {
        let shift = cfg.group_by.len() - 1 - g;
        if shift > 0 {
            "("@ + "__GROUPING_ID__"@ + " >> "@ + dec_str(shift as nat) + ") DESC"@
        } else {
            "__GROUPING_ID__"@ + " DESC"@
        }
    } else {
        gfn + "("@ + join_with(spec_group_col_names(cfg).take(g + 1), ", "@) + ") DESC"@
    }
}

/// The ORDER BY entry of row-sort entry `i` at level `g`.
pub open spec fn spec_level_sort_entry(
    cfg: ViewConfigV,
    gfn: Seq<char>,
    g: int,
    i: int,
    col: Seq<char>,
    d: SortDir,
) -> Seq<char> {
    let leaf = g == cfg.group_by.len() - 1;
    let dir = spec_sort_dir_str(d);
    if cfg.split_by.len() > 0 {
        if leaf {
            spec_sort_key(i) + " "@ + dir
        } else {
            "first("@ + spec_sort_key(i) + ") OVER "@ + "__WINDOW_"@ + dec_str(g as nat) + "__"@
                + " "@ + dir
        }
    } else {
        if leaf {
            spec_get_aggregate(cfg, col) + "("@ + spec_col_name(cfg, col) + ") "@ + dir
        } else {
            "first("@ + spec_get_aggregate(cfg, col) + "("@ + spec_col_name(cfg, col)
                + ")) OVER "@ + "__WINDOW_"@ + dec_str(g as nat) + "__"@ + " "@ + dir
        }
    }
}

/// The ORDER BY entries of the row-sort entries at level `g`, in order.
pub open spec fn spec_level_sort_entries(
    cfg: ViewConfigV,
    gfn: Seq<char>,
    g: int,
    sort: Seq<(Seq<char>, SortDir)>,
) -> Seq<Seq<char>>
    decreases sort.len(),
{
    if sort.len() == 0 {
        Seq::empty()
    } else {
        spec_level_sort_entries(cfg, gfn, g, sort.drop_last()) + (if spec_is_row_sort(
            sort.last().1,
        ) {
            seq![spec_level_sort_entry(cfg, gfn, g, sort.len() - 1, sort.last().0, sort.last().1)]
        } else {
            Seq::empty()
        })
    }
}

/// All ORDER BY entries of level `g`: discriminator, sort entries, and
/// the row-path tie-breaker.
pub open spec fn spec_level_clauses(cfg: ViewConfigV, gfn: Seq<char>, g: int) -> Seq<Seq<char>> {
    seq![spec_level_disc(cfg, gfn, g)] + spec_level_sort_entries(cfg, gfn, g, cfg.sort) + seq![
        (spec_row_path_alias(g) + " ASC"@),
    ]
}

/// The ORDER BY entries of the levels below `upto`, concatenated.
pub open spec fn spec_order_levels(cfg: ViewConfigV, gfn: Seq<char>, upto: int) -> Seq<Seq<char>>
    decreases upto,
{
    if upto <= 0 {
        Seq::empty()
    } else {
        spec_order_levels(cfg, gfn, upto - 1) + spec_level_clauses(cfg, gfn, upto - 1)
    }
}

/// The flat-shape ORDER BY entries: one per row-sort entry.
pub open spec fn spec_flat_order(cfg: ViewConfigV, sort: Seq<(Seq<char>, SortDir)>) -> Seq<
    Seq<char>,
>
    decreases sort.len(),
{
    if sort.len() == 0 {
        Seq::empty()
    } else {
        spec_flat_order(cfg, sort.drop_last()) + (if spec_is_row_sort(sort.last().1) {
            seq![(spec_col_name(cfg, sort.last().0) + " "@ + spec_sort_dir_str(sort.last().1))]
        } else {
            Seq::empty()
        })
    }
}

/// All ORDER BY entries of the query.
pub open spec fn spec_order_by_clauses(cfg: ViewConfigV, gfn: Seq<char>) -> Seq<Seq<char>> {
    if cfg.group_by.len() > 0 {
        spec_order_levels(cfg, gfn, cfg.group_by.len() as int)
    } else {
        spec_flat_order(cfg, cfg.sort)
    }
}

/// The named-window definition for level `g`.
pub open spec fn spec_window_clause(cfg: ViewConfigV, gfn: Seq<char>, g: int) -> Seq<char> {
    let partition = join_with(spec_row_path_aliases(cfg.group_by.len()).take(g + 1), ", "@);
    if cfg.split_by.len() > 0 {
        let shift = cfg.group_by.len() - 1 - g;
        let grouping_expr = if shift > 0 {
            "("@ + "__GROUPING_ID__"@ + " >> "@ + dec_str(shift as nat) + ")"@
        } else {
            "__GROUPING_ID__"@
        };
        "__WINDOW_"@ + dec_str(g as nat) + "__ AS (PARTITION BY "@ + grouping_expr + ", "@
            + partition + " ORDER BY "@ + join_with(
            spec_row_path_aliases(cfg.group_by.len()),
            ", "@,
        ) + ")"@
    } else {
        "__WINDOW_"@ + dec_str(g as nat) + "__ AS (PARTITION BY "@ + gfn + "("@ + join_with(
            spec_group_col_names(cfg).take(g + 1),
            ", "@,
        ) + "), "@ + partition + " ORDER BY "@ + spec_groups_joined(cfg) + ")"@
    }
}

/// The named-window definitions: present only with a sort and at least
/// two group-by levels, one window per non-leaf level.
pub open spec fn spec_window_clauses(cfg: ViewConfigV, gfn: Seq<char>) -> Seq<Seq<char>> {
    if cfg.sort.len() == 0 || cfg.group_by.len() <= 1 {
        Seq::empty()
    } else {
        Seq::new((cfg.group_by.len() - 1) as nat, |g: int| spec_window_clause(cfg, gfn, g))
    }
}

/// The PIVOT `USING` entries of the pivoted-only shape.
pub open spec fn spec_pivot_using(cols: Seq<Option<Seq<char>>>) -> Seq<Seq<char>> {
    spec_present_columns(cols).map_values(
        |c: Seq<char>| "first(\""@ + alias_escape(c) + "\") as \""@ + alias_escape(c) + "\""@,
    )
}

/// The flat-shape query body.
pub open spec fn spec_flat_query(cfg: ViewConfigV, table: Seq<char>) -> Seq<char> {
    "SELECT "@ + join_with(spec_select_clauses(cfg), ", "@) + " FROM "@ + table + spec_where_sql(
        cfg,
    )
}

/// The grouped-shape query body.
pub open spec fn spec_grouped_query(cfg: ViewConfigV, gfn: Seq<char>, table: Seq<char>) -> Seq<
    char,
> {
    "SELECT "@ + join_with(
        spec_select_clauses(cfg) + spec_row_path_select_clauses(cfg) + seq![
            spec_grouping_id_clause(cfg, gfn),
        ],
        ", "@,
    ) + " FROM "@ + table + spec_where_sql(cfg) + " "@ + "GROUP BY ROLLUP"@ + "("@
        + spec_groups_joined(cfg) + ")"@
}

/// The pivoted-shape query body.
pub open spec fn spec_pivoted_query(cfg: ViewConfigV, table: Seq<char>) -> Seq<char> {
    "SELECT * EXCLUDE (__ROW_NUM__) FROM ("@ + "PIVOT"@ + " (SELECT "@ + join_with(
        spec_select_clauses(cfg),
        ", "@,
    ) + ", "@ + spec_pivot_on(cfg) + ", ROW_NUMBER() OVER () as __ROW_NUM__ FROM "@ + table
        + spec_where_sql(cfg) + ") ON "@ + spec_pivot_on(cfg) + " USING "@ + join_with(
        spec_pivot_using(cfg.columns),
        ", "@,
    ) + " GROUP BY __ROW_NUM__)"@
}

/// The inner SELECT of the grouped-and-pivoted shape.
pub open spec fn spec_gp_inner_clauses(cfg: ViewConfigV, gfn: Seq<char>) -> Seq<Seq<char>> {
    spec_select_clauses(cfg) + spec_row_path_select_clauses(cfg) + seq![
        spec_grouping_id_clause(cfg, gfn),
    ] + cfg.split_by.map_values(|sb: Seq<char>| spec_col_name(cfg, sb)) + spec_sort_proj_clauses(
        cfg,
        gfn,
        cfg.sort,
    )
}

/// The grouped-and-pivoted query body.
pub open spec fn spec_gp_query(cfg: ViewConfigV, gfn: Seq<char>, table: Seq<char>) -> Seq<char> {
    let inner = "SELECT "@ + join_with(spec_gp_inner_clauses(cfg, gfn), ", "@) + " FROM "@ + table
        + spec_where_sql(cfg) + " "@ + "GROUP BY ROLLUP"@ + "("@ + spec_groups_joined(cfg) + "), "@
        + spec_pivot_on(cfg);
    "SELECT * FROM ("@ + "PIVOT"@ + " ("@ + inner + ") ON "@ + spec_pivot_on(cfg) + " USING "@
        + join_with(spec_select_clauses(cfg), ", "@) + " GROUP BY "@ + join_with(
        spec_row_id_cols(cfg),
        ", "@,
    ) + ")"@
}

/// The inner query of `table_make_view`, with WINDOW and ORDER BY
/// appended when non-empty.
pub open spec fn spec_build_query(cfg: ViewConfigV, gfn: Seq<char>, table: Seq<char>) -> Seq<char> {
    let base = match spec_orientation(cfg) {
        QueryOrientation::Flat => spec_flat_query(cfg, table),
        QueryOrientation::Grouped => spec_grouped_query(cfg, gfn, table),
        QueryOrientation::Pivoted => spec_pivoted_query(cfg, table),
        QueryOrientation::GroupedAndPivoted => spec_gp_query(cfg, gfn, table),
    };
    let windows = spec_window_clauses(cfg, gfn);
    let order = spec_order_by_clauses(cfg, gfn);
    let with_windows = if windows.len() > 0 {
        base + " WINDOW "@ + join_with(windows, ", "@)
    } else {
        base
    };
    if order.len() > 0 {
        with_windows + " ORDER BY "@ + join_with(order, ", "@)
    } else {
        with_windows
    }
}

/// Resolves a column to its expression override or quoted name.
fn col_name_of(config: &ViewConfig, col: &str) -> (r: String)
    ensures
        r@ == spec_col_name(config@, col@),
{
    let ghost ev = config@.expressions;
    let mut i: usize = 0;
    proof {
        assert(ev.skip(0) =~= ev);
    }
    while i < config.expressions.len()
        invariant
            i <= config.expressions.len(),
            ev == config@.expressions,
            assoc_first(ev, col@) == assoc_first(ev.skip(i as int), col@),
        decreases config.expressions.len() - i,
    {
        proof {
            assert(ev[i as int] == (config.expressions@[i as int].0@,
            config.expressions@[i as int].1@));
            assert(ev.skip(i as int)[0] == ev[i as int]);
            assert(ev.skip(i as int).drop_first() =~= ev.skip(i + 1));
        }
        if str_eq(config.expressions[i].0.as_str(), col) {
            return config.expressions[i].1.clone();
        }
        i = i + 1;
    }
    proof {
        assert(ev.skip(config.expressions.len() as int).len() == 0);
    }
    let mut q = "\"".to_owned();
    q.append(col);
    q.append("\"");
    q
}

/// Resolves the aggregate name used for a column.
fn aggregate_of(config: &ViewConfig, col: &str) -> (r: String)
    ensures
        r@ == spec_get_aggregate(config@, col@),
{
    let ghost av = config@.aggregates;
    let mut i: usize = 0;
    proof {
        assert(av.skip(0) =~= av);
    }
    while i < config.aggregates.len()
        invariant
            i <= config.aggregates.len(),
            av == config@.aggregates,
            assoc_first(av, col@) == assoc_first(av.skip(i as int), col@),
        decreases config.aggregates.len() - i,
    {
        proof {
            assert(av[i as int] == (config.aggregates@[i as int].0@,
            config.aggregates@[i as int].1@));
            assert(av.skip(i as int)[0] == av[i as int]);
            assert(av.skip(i as int).drop_first() =~= av.skip(i + 1));
        }
        if str_eq(config.aggregates[i].0.as_str(), col) {
            return aggregate_to_string(&config.aggregates[i].1);
        }
        i = i + 1;
    }
    proof {
        assert(av.skip(config.aggregates.len() as int).len() == 0);
    }
    "any_value".to_owned()
}

/// Precomputed context for building a SQL view query from a
/// [`ViewConfig`].
///
/// Holds the resolved column names, grouping function, and row-path
/// aliases needed to emit the correct `SELECT`, `GROUP BY`, `PIVOT`,
/// `ORDER BY`, and `WINDOW` clauses for every combination of `group_by`
/// and `split_by`.
pub(crate) struct ViewQueryContext<'a> {
    pub(crate) table: &'a str,
    pub(crate) config: &'a ViewConfig,
    pub(crate) group_col_names: Vec<String>,
    pub(crate) grouping_fn: String,
    pub(crate) row_path_aliases: Vec<String>,
}

impl<'a> ViewQueryContext<'a> {
    /// The cached fragments agree with the configuration.
    pub(crate) open spec fn wf(self) -> bool {
        &&& self.group_col_names.deep_view() == spec_group_col_names(self.config@)
        &&& self.row_path_aliases.deep_view() == spec_row_path_aliases(self.config@.group_by.len())
    }

    /// Creates a new query context by resolving expressions, the
    /// grouping function, and row-path aliases from the given model and
    /// config.
    pub(crate) fn new(
        model: &GenericSQLVirtualServerModel,
        table: &'a str,
        config: &'a ViewConfig,
    ) -> (r: Self)
        ensures
            r.wf(),
            r.table == table,
            r.config == config,
            r.grouping_fn@ == spec_grouping_fn(model@),
    {
        let grouping_fn = match &model.0.grouping_fn {
            Option::Some(s) => s.clone(),
            Option::None => "GROUPING_ID".to_owned(),
        };
        let ghost gbv = config@.group_by;
        let mut group_col_names: Vec<String> = Vec::new();
        let mut i: usize = 0;
        proof {
            assert(group_col_names.deep_view() =~= gbv.take(0).map_values(
                |c: Seq<char>| spec_col_name(config@, c),
            ));
        }
        while i < config.group_by.len()
            invariant
                i <= config.group_by.len(),
                gbv == config@.group_by,
                group_col_names.deep_view() == gbv.take(i as int).map_values(
                    |c: Seq<char>| spec_col_name(config@, c),
                ),
            decreases config.group_by.len() - i,
        {
            let name = col_name_of(config, config.group_by[i].as_str());
            let ghost old_names = group_col_names.deep_view();
            group_col_names.push(name);
            proof {
                assert(gbv[i as int] == config.group_by@[i as int]@);
                assert(group_col_names.deep_view() =~= old_names.push(
                    spec_col_name(config@, gbv[i as int]),
                ));
                assert(gbv.take(i + 1) =~= gbv.take(i as int).push(gbv[i as int]));
                assert(gbv.take(i + 1).map_values(|c: Seq<char>| spec_col_name(config@, c))
                    =~= gbv.take(i as int).map_values(
                    |c: Seq<char>| spec_col_name(config@, c),
                ).push(spec_col_name(config@, gbv[i as int])));
            }
            i = i + 1;
        }
        proof {
            assert(gbv.take(config.group_by.len() as int) =~= gbv);
            assert(group_col_names.deep_view() =~= spec_group_col_names(config@));
        }
        let k = config.group_by.len();
        let mut row_path_aliases: Vec<String> = Vec::new();
        let mut j: usize = 0;
        proof {
            assert(row_path_aliases.deep_view() =~= spec_row_path_aliases(0));
        }
        while j < k
            invariant
                j <= k,
                k == config@.group_by.len(),
                row_path_aliases.deep_view() == spec_row_path_aliases(j as nat),
            decreases k - j,
        {
            let mut alias = "__ROW_PATH_".to_owned();
            let num = usize_to_string(j);
            alias.append(num.as_str());
            alias.append("__");
            proof {
                assert(alias@ =~= spec_row_path_alias(j as int));
            }
            let ghost old_aliases = row_path_aliases.deep_view();
            row_path_aliases.push(alias);
            proof {
                assert(row_path_aliases.deep_view() =~= old_aliases.push(
                    spec_row_path_alias(j as int),
                ));
                assert(spec_row_path_aliases((j + 1) as nat) =~= spec_row_path_aliases(
                    j as nat,
                ).push(spec_row_path_alias(j as int)));
            }
            j = j + 1;
        }
        ViewQueryContext { table, config, group_col_names, grouping_fn, row_path_aliases }
    }

    /// The query shape selected by the configuration.
    fn query_orientation(&self) -> (r: QueryOrientation)
        ensures
            r == spec_orientation(self.config@),
    {
        match (self.config.group_by.len() == 0, self.config.split_by.len() == 0) {
            (true, true) => QueryOrientation::Flat,
            (false, true) => QueryOrientation::Grouped,
            (true, false) => QueryOrientation::Pivoted,
            (false, false) => QueryOrientation::GroupedAndPivoted,
        }
    }

    /// Resolves a column through the expression overrides.
    fn col_name(&self, col: &str) -> (r: String)
        ensures
            r@ == spec_col_name(self.config@, col@),
    {
        col_name_of(self.config, col)
    }

    /// Resolves the aggregate used for a column.
    fn get_aggregate(&self, col: &str) -> (r: String)
        ensures
            r@ == spec_get_aggregate(self.config@, col@),
    {
        aggregate_of(self.config, col)
    }

    /// The SELECT list of the query.
    fn select_clauses(&self) -> (r: Vec<String>)
        ensures
            r.deep_view() == spec_select_clauses(self.config@),
    {
        let ghost colsv = self.config@.columns;
        let mut clauses: Vec<String> = Vec::new();
        let mut i: usize = 0;
        proof {
            assert(colsv.take(0) =~= Seq::<Option<Seq<char>>>::empty());
            assert(clauses.deep_view() =~= spec_present_columns(colsv.take(0)).map_values(
                |c: Seq<char>| spec_select_clause(self.config@, c),
            ));
        }
        while i < self.config.columns.len()
            invariant
                i <= self.config.columns.len(),
                colsv == self.config@.columns,
                clauses.deep_view() == spec_present_columns(colsv.take(i as int)).map_values(
                    |c: Seq<char>| spec_select_clause(self.config@, c),
                ),
            decreases self.config.columns.len() - i,
        {
            proof {
                assert(colsv[i as int] == self.config.columns@[i as int].deep_view());
                assert(colsv.take(i + 1).drop_last() =~= colsv.take(i as int));
                assert(colsv.take(i + 1).last() == colsv[i as int]);
            }
            match &self.config.columns[i] {
                Option::Some(col) => {
                    let ghost cv = col@;
                    let clause = if self.config.group_by.len() > 0 {
                        let mut s = self.get_aggregate(col.as_str());
                        s.append("(");
                        let cn = self.col_name(col.as_str());
                        s.append(cn.as_str());
                        s.append(") as \"");
                        append_alias_escaped(&mut s, col.as_str());
                        s.append("\"");
                        s
                    } else {
                        let mut s = self.col_name(col.as_str());
                        s.append(" as \"");
                        append_alias_escaped(&mut s, col.as_str());
                        s.append("\"");
                        s
                    };
                    proof {
                        assert(clause@ =~= spec_select_clause(self.config@, cv));
                    }
                    let ghost old_clauses = clauses.deep_view();
                    clauses.push(clause);
                    proof {
                        assert(clauses.deep_view() =~= old_clauses.push(
                            spec_select_clause(self.config@, cv),
                        ));
                        assert(spec_present_columns(colsv.take(i + 1)) =~= spec_present_columns(
                            colsv.take(i as int),
                        ).push(cv));
                        assert(spec_present_columns(colsv.take(i + 1)).map_values(
                            |c: Seq<char>| spec_select_clause(self.config@, c),
                        ) =~= spec_present_columns(colsv.take(i as int)).map_values(
                            |c: Seq<char>| spec_select_clause(self.config@, c),
                        ).push(spec_select_clause(self.config@, cv)));
                    }
                },
                Option::None => {
                    proof {
                        assert(spec_present_columns(colsv.take(i + 1)) =~= spec_present_columns(
                            colsv.take(i as int),
                        ));
                    }
                },
            }
            i = i + 1;
        }
        proof {
            assert(colsv.take(self.config.columns.len() as int) =~= colsv);
        }
        clauses
    }

    /// The WHERE fragment of the query.
    fn where_sql(&self) -> (r: String)
        ensures
            r@ == spec_where_sql(self.config@),
    {
        let ghost fv = self.config@.filter;
        let mut clauses: Vec<String> = Vec::new();
        let mut i: usize = 0;
        proof {
            assert(fv.take(0) =~= Seq::<crate::config::FilterV>::empty());
            assert(clauses.deep_view() =~= spec_where_clauses(self.config@, fv.take(0)));
        }
        while i < self.config.filter.len()
            invariant
                i <= self.config.filter.len(),
                fv == self.config@.filter,
                clauses.deep_view() == spec_where_clauses(self.config@, fv.take(i as int)),
            decreases self.config.filter.len() - i,
        {
            proof {
                assert(fv[i as int] == self.config.filter@[i as int]@);
                assert(fv.take(i + 1).drop_last() =~= fv.take(i as int));
                assert(fv.take(i + 1).last() == fv[i as int]);
            }
            let flt = &self.config.filter[i];
            let rendered = GenericSQLVirtualServerModel::filter_term_to_sql(&flt.term);
            match rendered {
                Option::Some(lit) => {
                    let mut s = self.col_name(flt.column.as_str());
                    s.append(" ");
                    s.append(flt.op.as_str());
                    s.append(" ");
                    s.append(lit.as_str());
                    let ghost old_clauses = clauses.deep_view();
                    clauses.push(s);
                    proof {
                        assert(clauses.deep_view() =~= old_clauses.push(
                            spec_col_name(self.config@, fv[i as int].column) + " "@
                                + fv[i as int].op + " "@
                                + spec_filter_term_sql(fv[i as int].term)->0,
                        ));
                        assert(clauses.deep_view() =~= spec_where_clauses(
                            self.config@,
                            fv.take(i + 1),
                        ));
                    }
                },
                Option::None => {
                    proof {
                        assert(clauses.deep_view() =~= spec_where_clauses(
                            self.config@,
                            fv.take(i + 1),
                        ));
                    }
                },
            }
            i = i + 1;
        }
        proof {
            assert(fv.take(self.config.filter.len() as int) =~= fv);
        }
        if clauses.len() == 0 {
            String::new()
        } else {
            let mut s = " WHERE ".to_owned();
            let joined = join_strings(&clauses, " AND ");
            s.append(joined.as_str());
            s
        }
    }

    /// The PIVOT `ON` expression.
    fn pivot_on_expr(&self) -> (r: String)
        ensures
            r@ == spec_pivot_on(self.config@),
    {
        let ghost sbv = self.config@.split_by;
        let mut parts: Vec<String> = Vec::new();
        let mut i: usize = 0;
        proof {
            assert(parts.deep_view() =~= sbv.take(0).map_values(
                |c: Seq<char>| "\""@ + c + "\""@,
            ));
        }
        while i < self.config.split_by.len()
            invariant
                i <= self.config.split_by.len(),
                sbv == self.config@.split_by,
                parts.deep_view() == sbv.take(i as int).map_values(
                    |c: Seq<char>| "\""@ + c + "\""@,
                ),
            decreases self.config.split_by.len() - i,
        {
            let mut q = "\"".to_owned();
            q.append(self.config.split_by[i].as_str());
            q.append("\"");
            let ghost old_parts = parts.deep_view();
            parts.push(q);
            proof {
                assert(sbv[i as int] == self.config.split_by@[i as int]@);
                assert(parts.deep_view() =~= old_parts.push("\""@ + sbv[i as int] + "\""@));
                assert(sbv.take(i + 1) =~= sbv.take(i as int).push(sbv[i as int]));
                assert(sbv.take(i + 1).map_values(|c: Seq<char>| "\""@ + c + "\""@) =~= sbv.take(
                    i as int,
                ).map_values(|c: Seq<char>| "\""@ + c + "\""@).push("\""@ + sbv[i as int] + "\""@));
            }
            i = i + 1;
        }
        proof {
            assert(sbv.take(self.config.split_by.len() as int) =~= sbv);
        }
        join_strings(&parts, ", ")
    }

    /// The grouping-bit SELECT entry.
    fn grouping_id_clause(&self) -> (r: String)
        requires
            self.wf(),
        ensures
            r@ == spec_grouping_id_clause(self.config@, self.grouping_fn@),
    {
        let mut s = self.grouping_fn.clone();
        s.append("(");
        let joined = join_strings(&self.group_col_names, ", ");
        s.append(joined.as_str());
        s.append(") AS ");
        s.append("__GROUPING_ID__");
        s
    }

    /// The row-path SELECT entries.
    fn row_path_select_clauses(&self) -> (r: Vec<String>)
        ensures
            r.deep_view() == spec_row_path_select_clauses(self.config@),
    {
        let ghost gbv = self.config@.group_by;
        let mut clauses: Vec<String> = Vec::new();
        let mut i: usize = 0;
        proof {
            assert(clauses.deep_view() =~= Seq::new(
                0,
                |n: int| spec_col_name(self.config@, gbv[n]) + " as "@ + spec_row_path_alias(n),
            ));
        }
        while i < self.config.group_by.len()
            invariant
                i <= self.config.group_by.len(),
                gbv == self.config@.group_by,
                clauses.deep_view() == Seq::new(
                    i as nat,
                    |n: int| spec_col_name(self.config@, gbv[n]) + " as "@ + spec_row_path_alias(n),
                ),
            decreases self.config.group_by.len() - i,
        {
            let mut s = self.col_name(self.config.group_by[i].as_str());
            s.append(" as ");
            s.append("__ROW_PATH_");
            let num = usize_to_string(i);
            s.append(num.as_str());
            s.append("__");
            proof {
                assert(gbv[i as int] == self.config.group_by@[i as int]@);
                assert(s@ =~= spec_col_name(self.config@, gbv[i as int]) + " as "@
                    + spec_row_path_alias(i as int));
            }
            let ghost old_clauses = clauses.deep_view();
            clauses.push(s);
            proof {
                let f = |n: int| spec_col_name(self.config@, gbv[n]) + " as "@
                    + spec_row_path_alias(n);
                assert(clauses.deep_view() =~= old_clauses.push(f(i as int)));
                assert(Seq::new((i + 1) as nat, f) =~= Seq::new(i as nat, f).push(f(i as int)));
            }
            i = i + 1;
        }
        proof {
            assert(clauses.deep_view() =~= spec_row_path_select_clauses(self.config@));
        }
        clauses
    }

    /// The sort-projection SELECT entries of the row-sort entries.
    fn sort_proj_clauses(&self) -> (r: Vec<String>)
        requires
            self.wf(),
        ensures
            r.deep_view() == spec_sort_proj_clauses(
                self.config@,
                self.grouping_fn@,
                self.config@.sort,
            ),
    {
        let ghost cfg = self.config@;
        let ghost gfn = self.grouping_fn@;
        let ghost sv = self.config@.sort;
        let groups_joined = join_strings(&self.group_col_names, ", ");
        let mut clauses: Vec<String> = Vec::new();
        let mut i: usize = 0;
        proof {
            assert(sv.take(0) =~= Seq::<(Seq<char>, SortDir)>::empty());
            assert(clauses.deep_view() =~= spec_sort_proj_clauses(cfg, gfn, sv.take(0)));
        }
        while i < self.config.sort.len()
            invariant
                i <= self.config.sort.len(),
                cfg == self.config@,
                gfn == self.grouping_fn@,
                sv == self.config@.sort,
                groups_joined@ == spec_groups_joined(cfg),
                self.wf(),
                clauses.deep_view() == spec_sort_proj_clauses(cfg, gfn, sv.take(i as int)),
            decreases self.config.sort.len() - i,
        {
            proof {
                assert(sv[i as int] == self.config.sort@[i as int]@);
                assert(sv.take(i + 1).drop_last() =~= sv.take(i as int));
                assert(sv.take(i + 1).last() == sv[i as int]);
            }
            let srt = &self.config.sort[i];
            if is_row_sort(&srt.1) {
                let mut s = "sum(".to_owned();
                let agg = self.get_aggregate(srt.0.as_str());
                s.append(agg.as_str());
                s.append("(");
                let cn = self.col_name(srt.0.as_str());
                s.append(cn.as_str());
                s.append(")) OVER (PARTITION BY ");
                s.append(self.grouping_fn.as_str());
                s.append("(");
                s.append(groups_joined.as_str());
                s.append("), ");
                s.append(groups_joined.as_str());
                s.append(") AS ");
                s.append("__SORT_");
                let num = usize_to_string(i);
                s.append(num.as_str());
                s.append("__");
                proof {
                    assert(s@ =~= spec_sort_proj_clause(cfg, gfn, sv[i as int].0, i as int));
                }
                let ghost old_clauses = clauses.deep_view();
                clauses.push(s);
                proof {
                    assert(clauses.deep_view() =~= old_clauses.push(
                        spec_sort_proj_clause(cfg, gfn, sv[i as int].0, i as int),
                    ));
                    assert(clauses.deep_view() =~= spec_sort_proj_clauses(cfg, gfn, sv.take(i + 1)));
                }
            } else {
                proof {
                    assert(clauses.deep_view() =~= spec_sort_proj_clauses(cfg, gfn, sv.take(i + 1)));
                }
            }
            i = i + 1;
        }
        proof {
            assert(sv.take(self.config.sort.len() as int) =~= sv);
        }
        clauses
    }

    /// The sort-key aliases of the row-sort entries.
    fn sort_key_aliases(&self) -> (r: Vec<String>)
        ensures
            r.deep_view() == spec_sort_keys(self.config@.sort),
    {
        let ghost sv = self.config@.sort;
        let mut keys: Vec<String> = Vec::new();
        let mut i: usize = 0;
        proof {
            assert(sv.take(0) =~= Seq::<(Seq<char>, SortDir)>::empty());
            assert(keys.deep_view() =~= spec_sort_keys(sv.take(0)));
        }
        while i < self.config.sort.len()
            invariant
                i <= self.config.sort.len(),
                sv == self.config@.sort,
                keys.deep_view() == spec_sort_keys(sv.take(i as int)),
            decreases self.config.sort.len() - i,
        {
            proof {
                assert(sv[i as int] == self.config.sort@[i as int]@);
                assert(sv.take(i + 1).drop_last() =~= sv.take(i as int));
                assert(sv.take(i + 1).last() == sv[i as int]);
            }
            if is_row_sort(&self.config.sort[i].1) {
                let mut s = "__SORT_".to_owned();
                let num = usize_to_string(i);
                s.append(num.as_str());
                s.append("__");
                proof {
                    assert(s@ =~= spec_sort_key(i as int));
                }
                let ghost old_keys = keys.deep_view();
                keys.push(s);
                proof {
                    assert(keys.deep_view() =~= old_keys.push(spec_sort_key(i as int)));
                    assert(keys.deep_view() =~= spec_sort_keys(sv.take(i + 1)));
                }
            } else {
                proof {
                    assert(keys.deep_view() =~= spec_sort_keys(sv.take(i + 1)));
                }
            }
            i = i + 1;
        }
        proof {
            assert(sv.take(self.config.sort.len() as int) =~= sv);
        }
        keys
    }

    /// All ORDER BY entries of the query.
    fn order_by_clauses(&self) -> (r: Vec<String>)
        requires
            self.wf(),
        ensures
            r.deep_view() == spec_order_by_clauses(self.config@, self.grouping_fn@),
    {
        let ghost cfg = self.config@;
        let ghost gfn = self.grouping_fn@;
        let ghost sv = self.config@.sort;
        let mut clauses: Vec<String> = Vec::new();
        if self.config.group_by.len() > 0 {
            let k = self.config.group_by.len();
            let mut g: usize = 0;
            proof {
                assert(clauses.deep_view() =~= spec_order_levels(cfg, gfn, 0));
            }
            while g < k
                invariant
                    g <= k,
                    k == cfg.group_by.len(),
                    cfg == self.config@,
                    gfn == self.grouping_fn@,
                    sv == self.config@.sort,
                    self.wf(),
                    clauses.deep_view() == spec_order_levels(cfg, gfn, g as int),
                decreases k - g,
            {
                proof {
                    assert(self.group_col_names.deep_view().len()
                        == self.group_col_names@.len());
                    assert(self.group_col_names.deep_view().len() == cfg.group_by.len());
                    assert(self.row_path_aliases.deep_view().len()
                        == self.row_path_aliases@.len());
                    assert(self.row_path_aliases.deep_view().len() == cfg.group_by.len());
                }
                let ghost level_start = clauses.deep_view();
                let disc: String = if self.config.split_by.len() > 0 {
                    let shift = k - 1 - g;
                    if shift > 0 {
                        let mut s = "(".to_owned();
                        s.append("__GROUPING_ID__");
                        s.append(" >> ");
                        let num = usize_to_string(shift);
                        s.append(num.as_str());
                        s.append(") DESC");
                        s
                    } else {
                        let mut s = "__GROUPING_ID__".to_owned();
                        s.append(" DESC");
                        s
                    }
                } else {
                    let mut s = self.grouping_fn.clone();
                    s.append("(");
                    let prefix = join_prefix(&self.group_col_names, g + 1, ", ");
                    s.append(prefix.as_str());
                    s.append(") DESC");
                    s
                };
                proof {
                    assert(disc@ =~= spec_level_disc(cfg, gfn, g as int));
                }
                clauses.push(disc);
                proof {
                    assert(sv.take(0) =~= Seq::<(Seq<char>, SortDir)>::empty());
                    assert(clauses.deep_view() =~= level_start + seq![
                        spec_level_disc(cfg, gfn, g as int),
                    ] + spec_level_sort_entries(cfg, gfn, g as int, sv.take(0)));
                }
                let is_leaf = g >= k - 1;
                let mut si: usize = 0;
                while si < self.config.sort.len()
                    invariant
                        si <= self.config.sort.len(),
                        g < k,
                        k == cfg.group_by.len(),
                        cfg == self.config@,
                        gfn == self.grouping_fn@,
                        sv == self.config@.sort,
                        self.wf(),
                        is_leaf == (g >= k - 1),
                        level_start == spec_order_levels(cfg, gfn, g as int),
                        clauses.deep_view() == level_start + seq![
                            spec_level_disc(cfg, gfn, g as int),
                        ] + spec_level_sort_entries(cfg, gfn, g as int, sv.take(si as int)),
                    decreases self.config.sort.len() - si,
                {
                    proof {
                        assert(sv[si as int] == self.config.sort@[si as int]@);
                        assert(sv.take(si + 1).drop_last() =~= sv.take(si as int));
                        assert(sv.take(si + 1).last() == sv[si as int]);
                    }
                    let srt = &self.config.sort[si];
                    if is_row_sort(&srt.1) {
                        let dir = sort_dir_to_string(&srt.1);
                        let entry: String = if self.config.split_by.len() > 0 {
                            if is_leaf {
                                let mut s = "__SORT_".to_owned();
                                let num = usize_to_string(si);
                                s.append(num.as_str());
                                s.append("__");
                                s.append(" ");
                                s.append(dir);
                                s
                            } else {
                                let mut s = "first(".to_owned();
                                s.append("__SORT_");
                                let num = usize_to_string(si);
                                s.append(num.as_str());
                                s.append("__");
                                s.append(") OVER ");
                                s.append("__WINDOW_");
                                let gnum = usize_to_string(g);
                                s.append(gnum.as_str());
                                s.append("__");
                                s.append(" ");
                                s.append(dir);
                                s
                            }
                        } else {
                            if is_leaf {
                                let mut s = self.get_aggregate(srt.0.as_str());
                                s.append("(");
                                let cn = self.col_name(srt.0.as_str());
                                s.append(cn.as_str());
                                s.append(") ");
                                s.append(dir);
                                s
                            } else {
                                let mut s = "first(".to_owned();
                                let agg = self.get_aggregate(srt.0.as_str());
                                s.append(agg.as_str());
                                s.append("(");
                                let cn = self.col_name(srt.0.as_str());
                                s.append(cn.as_str());
                                s.append(")) OVER ");
                                s.append("__WINDOW_");
                                let gnum = usize_to_string(g);
                                s.append(gnum.as_str());
                                s.append("__");
                                s.append(" ");
                                s.append(dir);
                                s
                            }
                        };
                        proof {
                            assert(entry@ =~= spec_level_sort_entry(
                                cfg,
                                gfn,
                                g as int,
                                si as int,
                                sv[si as int].0,
                                sv[si as int].1,
                            ));
                        }
                        let ghost old_clauses = clauses.deep_view();
                        clauses.push(entry);
                        proof {
                            assert(clauses.deep_view() =~= old_clauses.push(
                                spec_level_sort_entry(
                                    cfg,
                                    gfn,
                                    g as int,
                                    si as int,
                                    sv[si as int].0,
                                    sv[si as int].1,
                                ),
                            ));
                            assert(clauses.deep_view() =~= level_start + seq![
                                spec_level_disc(cfg, gfn, g as int),
                            ] + spec_level_sort_entries(cfg, gfn, g as int, sv.take(si + 1)));
                        }
                    } else {
                        proof {
                            assert(spec_level_sort_entries(cfg, gfn, g as int, sv.take(si + 1))
                                =~= spec_level_sort_entries(cfg, gfn, g as int, sv.take(si as int)));
                        }
                    }
                    si = si + 1;
                }
                proof {
                    assert(sv.take(self.config.sort.len() as int) =~= sv);
                }
                let mut tb = self.row_path_aliases[g].clone();
                tb.append(" ASC");
                proof {
                    assert(self.row_path_aliases@[g as int]@ == self.row_path_aliases.deep_view()[g as int]);
                    assert(tb@ =~= spec_row_path_alias(g as int) + " ASC"@);
                }
                let ghost before_tb = clauses.deep_view();
                clauses.push(tb);
                proof {
                    assert(clauses.deep_view() =~= before_tb.push(
                        spec_row_path_alias(g as int) + " ASC"@,
                    ));
                    assert(clauses.deep_view() =~= level_start + spec_level_clauses(
                        cfg,
                        gfn,
                        g as int,
                    ));
                    assert(clauses.deep_view() =~= spec_order_levels(cfg, gfn, g + 1));
                }
                g = g + 1;
            }
        } else {
            let mut si: usize = 0;
            proof {
                assert(sv.take(0) =~= Seq::<(Seq<char>, SortDir)>::empty());
                assert(clauses.deep_view() =~= spec_flat_order(cfg, sv.take(0)));
            }
            while si < self.config.sort.len()
                invariant
                    si <= self.config.sort.len(),
                    cfg == self.config@,
                    sv == self.config@.sort,
                    clauses.deep_view() == spec_flat_order(cfg, sv.take(si as int)),
                decreases self.config.sort.len() - si,
            {
                proof {
                    assert(sv[si as int] == self.config.sort@[si as int]@);
                    assert(sv.take(si + 1).drop_last() =~= sv.take(si as int));
                    assert(sv.take(si + 1).last() == sv[si as int]);
                }
                let srt = &self.config.sort[si];
                if is_row_sort(&srt.1) {
                    let dir = sort_dir_to_string(&srt.1);
                    let mut s = self.col_name(srt.0.as_str());
                    s.append(" ");
                    s.append(dir);
                    proof {
                        assert(s@ =~= spec_col_name(cfg, sv[si as int].0) + " "@
                            + spec_sort_dir_str(sv[si as int].1));
                    }
                    let ghost old_clauses = clauses.deep_view();
                    clauses.push(s);
                    proof {
                        assert(clauses.deep_view() =~= old_clauses.push(
                            spec_col_name(cfg, sv[si as int].0) + " "@ + spec_sort_dir_str(
                                sv[si as int].1,
                            ),
                        ));
                        assert(clauses.deep_view() =~= spec_flat_order(cfg, sv.take(si + 1)));
                    }
                } else {
                    proof {
                        assert(clauses.deep_view() =~= spec_flat_order(cfg, sv.take(si + 1)));
                    }
                }
                si = si + 1;
            }
            proof {
                assert(sv.take(self.config.sort.len() as int) =~= sv);
            }
        }
        clauses
    }

    /// The named-window definitions of the query.
    fn window_clauses(&self) -> (r: Vec<String>)
        requires
            self.wf(),
        ensures
            r.deep_view() == spec_window_clauses(self.config@, self.grouping_fn@),
    {
        let ghost cfg = self.config@;
        let ghost gfn = self.grouping_fn@;
        let mut clauses: Vec<String> = Vec::new();
        if self.config.sort.len() == 0 || self.config.group_by.len() <= 1 {
            proof {
                assert(clauses.deep_view() =~= spec_window_clauses(cfg, gfn));
            }
            return clauses;
        }
        let k = self.config.group_by.len();
        let mut g: usize = 0;
        proof {
            assert(clauses.deep_view() =~= Seq::new(0, |x: int| spec_window_clause(cfg, gfn, x)));
        }
        while g < k - 1
            invariant
                g <= k - 1,
                2 <= k == cfg.group_by.len(),
                cfg.sort.len() > 0,
                cfg == self.config@,
                gfn == self.grouping_fn@,
                self.wf(),
                clauses.deep_view() == Seq::new(
                    g as nat,
                    |x: int| spec_window_clause(cfg, gfn, x),
                ),
            decreases k - 1 - g,
        {
            proof {
                assert(self.group_col_names.deep_view().len() == self.group_col_names@.len());
                assert(self.group_col_names.deep_view().len() == cfg.group_by.len());
                assert(self.row_path_aliases.deep_view().len() == self.row_path_aliases@.len());
                assert(self.row_path_aliases.deep_view().len() == cfg.group_by.len());
            }
            let partition = join_prefix(&self.row_path_aliases, g + 1, ", ");
            let w: String = if self.config.split_by.len() > 0 {
                let shift = k - 1 - g;
                let mut s = "__WINDOW_".to_owned();
                let gnum = usize_to_string(g);
                s.append(gnum.as_str());
                s.append("__ AS (PARTITION BY ");
                if shift > 0 {
                    s.append("(");
                    s.append("__GROUPING_ID__");
                    s.append(" >> ");
                    let snum = usize_to_string(shift);
                    s.append(snum.as_str());
                    s.append(")");
                } else {
                    s.append("__GROUPING_ID__");
                }
                s.append(", ");
                s.append(partition.as_str());
                s.append(" ORDER BY ");
                let order = join_strings(&self.row_path_aliases, ", ");
                s.append(order.as_str());
                s.append(")");
                s
            } else {
                let mut s = "__WINDOW_".to_owned();
                let gnum = usize_to_string(g);
                s.append(gnum.as_str());
                s.append("__ AS (PARTITION BY ");
                s.append(self.grouping_fn.as_str());
                s.append("(");
                let sub = join_prefix(&self.group_col_names, g + 1, ", ");
                s.append(sub.as_str());
                s.append("), ");
                s.append(partition.as_str());
                s.append(" ORDER BY ");
                let order = join_strings(&self.group_col_names, ", ");
                s.append(order.as_str());
                s.append(")");
                s
            };
            proof {
                assert(w@ =~= spec_window_clause(cfg, gfn, g as int));
            }
            let ghost old_clauses = clauses.deep_view();
            clauses.push(w);
            proof {
                let f = |x: int| spec_window_clause(cfg, gfn, x);
                assert(clauses.deep_view() =~= old_clauses.push(f(g as int)));
                assert(Seq::new((g + 1) as nat, f) =~= Seq::new(g as nat, f).push(f(g as int)));
            }
            g = g + 1;
        }
        proof {
            assert(clauses.deep_view() =~= spec_window_clauses(cfg, gfn));
        }
        clauses
    }

    /// Builds the inner `SELECT` query (without the outer `CREATE`
    /// wrapper) for the four `group_by` x `split_by` combinations,
    /// appending `WINDOW` and `ORDER BY` clauses as needed.
    pub(crate) fn build_query(&self) -> (r: String)
        requires
            self.wf(),
        ensures
            r@ == spec_build_query(self.config@, self.grouping_fn@, self.table@),
    {
        let ghost cfg = self.config@;
        let ghost gfn = self.grouping_fn@;
        let where_sql = self.where_sql();
        let order_by = self.order_by_clauses();
        let windows = self.window_clauses();
        let orientation = self.query_orientation();
        let mut query: String = match orientation {
            QueryOrientation::Flat => {
                let select = self.select_clauses();
                let mut q = "SELECT ".to_owned();
                let sel_joined = join_strings(&select, ", ");
                q.append(sel_joined.as_str());
                q.append(" FROM ");
                q.append(self.table);
                q.append(where_sql.as_str());
                proof {
                    assert(q@ =~= spec_flat_query(cfg, self.table@));
                }
                q
            },
            QueryOrientation::Grouped => {
                let mut cl = self.select_clauses();
                let rp = self.row_path_select_clauses();
                extend_strings(&mut cl, &rp);
                let gid = self.grouping_id_clause();
                let ghost before_gid = cl.deep_view();
                cl.push(gid);
                proof {
                    assert(cl.deep_view() =~= before_gid.push(spec_grouping_id_clause(cfg, gfn)));
                    assert(cl.deep_view() =~= spec_select_clauses(cfg)
                        + spec_row_path_select_clauses(cfg) + seq![
                        spec_grouping_id_clause(cfg, gfn),
                    ]);
                }
                let mut q = "SELECT ".to_owned();
                let cl_joined = join_strings(&cl, ", ");
                q.append(cl_joined.as_str());
                q.append(" FROM ");
                q.append(self.table);
                q.append(where_sql.as_str());
                q.append(" ");
                q.append("GROUP BY ROLLUP");
                q.append("(");
                let groups_joined = join_strings(&self.group_col_names, ", ");
                q.append(groups_joined.as_str());
                q.append(")");
                proof {
                    assert(q@ =~= spec_grouped_query(cfg, gfn, self.table@));
                }
                q
            },
            QueryOrientation::Pivoted => {
                let select = self.select_clauses();
                let ghost colsv = self.config@.columns;
                let mut pivot_using: Vec<String> = Vec::new();
                let mut i: usize = 0;
                proof {
                    assert(colsv.take(0) =~= Seq::<Option<Seq<char>>>::empty());
                    assert(pivot_using.deep_view() =~= spec_pivot_using(colsv.take(0)));
                }
                while i < self.config.columns.len()
                    invariant
                        i <= self.config.columns.len(),
                        colsv == self.config@.columns,
                        pivot_using.deep_view() == spec_pivot_using(colsv.take(i as int)),
                    decreases self.config.columns.len() - i,
                {
                    proof {
                        assert(colsv[i as int] == self.config.columns@[i as int].deep_view());
                        assert(colsv.take(i + 1).drop_last() =~= colsv.take(i as int));
                        assert(colsv.take(i + 1).last() == colsv[i as int]);
                    }
                    match &self.config.columns[i] {
                        Option::Some(col) => {
                            let ghost cv = col@;
                            let mut s = "first(\"".to_owned();
                            append_alias_escaped(&mut s, col.as_str());
                            s.append("\") as \"");
                            append_alias_escaped(&mut s, col.as_str());
                            s.append("\"");
                            proof {
                                assert(s@ =~= "first(\""@ + alias_escape(cv) + "\") as \""@
                                    + alias_escape(cv) + "\""@);
                            }
                            let ghost old_pu = pivot_using.deep_view();
                            pivot_using.push(s);
                            proof {
                                let f = |c: Seq<char>| "first(\""@ + alias_escape(c) + "\") as \""@
                                    + alias_escape(c) + "\""@;
                                assert(pivot_using.deep_view() =~= old_pu.push(f(cv)));
                                assert(spec_present_columns(colsv.take(i + 1))
                                    =~= spec_present_columns(colsv.take(i as int)).push(cv));
                                assert(spec_pivot_using(colsv.take(i + 1)) =~= spec_pivot_using(
                                    colsv.take(i as int),
                                ).push(f(cv)));
                            }
                        },
                        Option::None => {
                            proof {
                                assert(spec_present_columns(colsv.take(i + 1))
                                    =~= spec_present_columns(colsv.take(i as int)));
                                assert(spec_pivot_using(colsv.take(i + 1)) =~= spec_pivot_using(
                                    colsv.take(i as int),
                                ));
                            }
                        },
                    }
                    i = i + 1;
                }
                proof {
                    assert(colsv.take(self.config.columns.len() as int) =~= colsv);
                }
                let split_cols = self.pivot_on_expr();
                let mut q = "SELECT * EXCLUDE (__ROW_NUM__) FROM (".to_owned();
                q.append("PIVOT");
                q.append(" (SELECT ");
                let sel_joined = join_strings(&select, ", ");
                q.append(sel_joined.as_str());
                q.append(", ");
                q.append(split_cols.as_str());
                q.append(", ROW_NUMBER() OVER () as __ROW_NUM__ FROM ");
                q.append(self.table);
                q.append(where_sql.as_str());
                q.append(") ON ");
                let pivot_on = self.pivot_on_expr();
                q.append(pivot_on.as_str());
                q.append(" USING ");
                let pu_joined = join_strings(&pivot_using, ", ");
                q.append(pu_joined.as_str());
                q.append(" GROUP BY __ROW_NUM__)");
                proof {
                    assert(q@ =~= spec_pivoted_query(cfg, self.table@));
                }
                q
            },
            QueryOrientation::GroupedAndPivoted => {
                let mut inner_clauses = self.select_clauses();
                let rp = self.row_path_select_clauses();
                extend_strings(&mut inner_clauses, &rp);
                let gid = self.grouping_id_clause();
                let ghost before_gid = inner_clauses.deep_view();
                inner_clauses.push(gid);
                proof {
                    assert(inner_clauses.deep_view() =~= before_gid.push(
                        spec_grouping_id_clause(cfg, gfn),
                    ));
                }
                let ghost sbv = self.config@.split_by;
                let ghost base3 = inner_clauses.deep_view();
                let mut sbi: usize = 0;
                proof {
                    assert(inner_clauses.deep_view() =~= base3 + sbv.take(0).map_values(
                        |sb: Seq<char>| spec_col_name(cfg, sb),
                    ));
                }
                while sbi < self.config.split_by.len()
                    invariant
                        sbi <= self.config.split_by.len(),
                        cfg == self.config@,
                        sbv == self.config@.split_by,
                        inner_clauses.deep_view() == base3 + sbv.take(sbi as int).map_values(
                            |sb: Seq<char>| spec_col_name(cfg, sb),
                        ),
                    decreases self.config.split_by.len() - sbi,
                {
                    let cn = self.col_name(self.config.split_by[sbi].as_str());
                    let ghost old_ic = inner_clauses.deep_view();
                    inner_clauses.push(cn);
                    proof {
                        let f = |sb: Seq<char>| spec_col_name(cfg, sb);
                        assert(sbv[sbi as int] == self.config.split_by@[sbi as int]@);
                        assert(inner_clauses.deep_view() =~= old_ic.push(f(sbv[sbi as int])));
                        assert(sbv.take(sbi + 1) =~= sbv.take(sbi as int).push(sbv[sbi as int]));
                        assert(sbv.take(sbi + 1).map_values(f) =~= sbv.take(sbi as int).map_values(
                            f,
                        ).push(f(sbv[sbi as int])));
                    }
                    sbi = sbi + 1;
                }
                proof {
                    assert(sbv.take(self.config.split_by.len() as int) =~= sbv);
                }
                let proj = self.sort_proj_clauses();
                extend_strings(&mut inner_clauses, &proj);
                proof {
                    assert(inner_clauses.deep_view() =~= spec_gp_inner_clauses(cfg, gfn));
                }
                let mut inner = "SELECT ".to_owned();
                let ic_joined = join_strings(&inner_clauses, ", ");
                inner.append(ic_joined.as_str());
                inner.append(" FROM ");
                inner.append(self.table);
                inner.append(where_sql.as_str());
                inner.append(" ");
                inner.append("GROUP BY ROLLUP");
                inner.append("(");
                let groups_joined = join_strings(&self.group_col_names, ", ");
                inner.append(groups_joined.as_str());
                inner.append("), ");
                let pivot_on = self.pivot_on_expr();
                inner.append(pivot_on.as_str());
                let mut row_id_cols: Vec<String> = Vec::new();
                extend_strings(&mut row_id_cols, &self.row_path_aliases);
                let ghost before_gid2 = row_id_cols.deep_view();
                row_id_cols.push("__GROUPING_ID__".to_owned());
                proof {
                    assert(row_id_cols.deep_view() =~= before_gid2.push("__GROUPING_ID__"@));
                }
                let keys = self.sort_key_aliases();
                extend_strings(&mut row_id_cols, &keys);
                proof {
                    assert(row_id_cols.deep_view() =~= spec_row_id_cols(cfg));
                }
                let mut q = "SELECT * FROM (".to_owned();
                q.append("PIVOT");
                q.append(" (");
                q.append(inner.as_str());
                q.append(") ON ");
                q.append(pivot_on.as_str());
                q.append(" USING ");
                let select = self.select_clauses();
                let sel_joined = join_strings(&select, ", ");
                q.append(sel_joined.as_str());
                q.append(" GROUP BY ");
                let ric_joined = join_strings(&row_id_cols, ", ");
                q.append(ric_joined.as_str());
                q.append(")");
                proof {
                    assert(q@ =~= spec_gp_query(cfg, gfn, self.table@));
                }
                q
            },
        };
        if windows.len() > 0 {
            query.append(" WINDOW ");
            let w_joined = join_strings(&windows, ", ");
            query.append(w_joined.as_str());
        }
        if order_by.len() > 0 {
            query.append(" ORDER BY ");
            let o_joined = join_strings(&order_by, ", ");
            query.append(o_joined.as_str());
        }
        proof {
            assert(query@ =~= spec_build_query(cfg, gfn, self.table@));
        }
        query
    }
}

} // verus!
