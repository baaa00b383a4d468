//! Proved properties of the emitted SQL text: the shape of the
//! `CREATE … AS (…)` wrapper, the markers that grouping and splitting
//! leave in the query, the sort-key columns, and the behaviour of the
//! viewport projection.

use vstd::prelude::*;

verus! {

use crate::config::SortDir;
use crate::config::ViewConfigV;
use crate::config::ViewPort;
use crate::config::spec_is_row_sort;
use crate::model::ModelArgsV;
use crate::model::spec_create_entity;
use crate::model::spec_grouping_fn;
use crate::model::spec_table_make_view;
use crate::table_make_view::QueryOrientation;
use crate::table_make_view::spec_build_query;
use crate::table_make_view::spec_gp_inner_clauses;
use crate::table_make_view::spec_gp_query;
use crate::table_make_view::spec_grouped_query;
use crate::table_make_view::spec_grouping_id_clause;
use crate::table_make_view::spec_groups_joined;
use crate::table_make_view::spec_orientation;
use crate::table_make_view::spec_pivot_on;
use crate::table_make_view::spec_pivoted_query;
use crate::table_make_view::spec_row_id_cols;
use crate::table_make_view::spec_row_path_alias;
use crate::table_make_view::spec_row_path_aliases;
use crate::table_make_view::spec_row_path_select_clauses;
use crate::table_make_view::spec_select_clauses;
use crate::table_make_view::spec_sort_key;
use crate::table_make_view::spec_sort_keys;
use crate::table_make_view::spec_sort_proj_clause;
use crate::table_make_view::spec_sort_proj_clauses;
use crate::table_make_view::spec_where_sql;
use crate::text::contains_sub;
use crate::text::dec_str;
use crate::text::is_prefix_of;
use crate::text::join_with;
use crate::text::lemma_contains_concat_l;
use crate::text::lemma_contains_concat_r;
use crate::text::lemma_contains_join;
use crate::text::lemma_contains_self;
use crate::text::lemma_prefix_of_concat;
use crate::text::alias_escape;
use crate::text::in_seq;
use crate::text::lemma_append_free;
use crate::text::lemma_contains_chars;
use crate::text::lemma_join_free;
use crate::text::lemma_missing_char_free;
use crate::table_make_view::spec_col_name;
use crate::table_make_view::spec_present_columns;
use crate::text::lex_geq_fn;
use crate::text::lex_leq_fn;
use crate::text::lemma_lex_total_ordering;
use crate::text::starts_internal;
use crate::model::spec_col_slice;
use crate::model::spec_col_sort_dir;
use crate::model::spec_data_columns;
use crate::model::spec_quoted;
use crate::model::spec_quoted_row_path;
use crate::model::spec_sorted_columns;
use crate::model::spec_vgd_columns;
use crate::model::spec_view_get_data;

/// A substring of `piece` occurs in `prefix + piece + suffix`.
proof fn lemma_contains_piece(prefix: Seq<char>, piece: Seq<char>, suffix: Seq<char>, n: Seq<char>)
    requires
        contains_sub(piece, n),
    ensures
        contains_sub(prefix + piece + suffix, n),
{
    lemma_contains_concat_r(prefix, piece, n);
    lemma_contains_concat_l(prefix + piece, suffix, n);
}

/// A substring of the query body survives the WINDOW and ORDER BY
/// suffixes.
proof fn lemma_contains_through_suffixes(
    cfg: ViewConfigV,
    gfn: Seq<char>,
    table: Seq<char>,
    n: Seq<char>,
)
    requires
        contains_sub(
            match spec_orientation(cfg) {
                QueryOrientation::Flat => crate::table_make_view::spec_flat_query(cfg, table),
                QueryOrientation::Grouped => spec_grouped_query(cfg, gfn, table),
                QueryOrientation::Pivoted => spec_pivoted_query(cfg, table),
                QueryOrientation::GroupedAndPivoted => spec_gp_query(cfg, gfn, table),
            },
            n,
        ),
    ensures
        contains_sub(spec_build_query(cfg, gfn, table), n),
{
    let base = match spec_orientation(cfg) {
        QueryOrientation::Flat => crate::table_make_view::spec_flat_query(cfg, table),
        QueryOrientation::Grouped => spec_grouped_query(cfg, gfn, table),
        QueryOrientation::Pivoted => spec_pivoted_query(cfg, table),
        QueryOrientation::GroupedAndPivoted => spec_gp_query(cfg, gfn, table),
    };
    let windows = crate::table_make_view::spec_window_clauses(cfg, gfn);
    let order = crate::table_make_view::spec_order_by_clauses(cfg, gfn);
    let with_windows = if windows.len() > 0 {
        base + " WINDOW "@ + join_with(windows, ", "@)
    } else {
        base
    };
    if windows.len() > 0 {
        lemma_contains_concat_l(base, " WINDOW "@, n);
        lemma_contains_concat_l(base + " WINDOW "@, join_with(windows, ", "@), n);
    }
    if order.len() > 0 {
        lemma_contains_concat_l(with_windows, " ORDER BY "@, n);
        lemma_contains_concat_l(with_windows + " ORDER BY "@, join_with(order, ", "@), n);
    }
}

/// A substring of the query body occurs in the full `CREATE` statement.
proof fn lemma_contains_through_wrapper(
    args: ModelArgsV,
    table: Seq<char>,
    view: Seq<char>,
    cfg: ViewConfigV,
    n: Seq<char>,
)
    requires
        contains_sub(spec_build_query(cfg, spec_grouping_fn(args), table), n),
    ensures
        contains_sub(spec_table_make_view(args, table, view, cfg), n),
{
    let q = spec_build_query(cfg, spec_grouping_fn(args), table);
    let pre = "CREATE "@ + spec_create_entity(args) + " "@ + view + " AS ("@;
    assert(spec_table_make_view(args, table, view, cfg) =~= pre + q + ")"@);
    lemma_contains_piece(pre, q, ")"@, n);
}

/// For any configuration, `table_make_view` begins with
/// `CREATE <create-entity> <view> AS (` and ends with `)`.
pub proof fn lemma_make_view_shape(
    args: ModelArgsV,
    table: Seq<char>,
    view: Seq<char>,
    cfg: ViewConfigV,
)
    ensures
        is_prefix_of(
            "CREATE "@ + spec_create_entity(args) + " "@ + view + " AS ("@,
            spec_table_make_view(args, table, view, cfg),
        ),
        spec_table_make_view(args, table, view, cfg).len() > 0,
        spec_table_make_view(args, table, view, cfg).last() == ')',
{
    let q = spec_build_query(cfg, spec_grouping_fn(args), table);
    let pre = "CREATE "@ + spec_create_entity(args) + " "@ + view + " AS ("@;
    let r = spec_table_make_view(args, table, view, cfg);
    assert(r =~= pre + (q + ")"@));
    lemma_prefix_of_concat(pre, q + ")"@);
    reveal_strlit(")");
    assert(")"@.len() == 1);
    assert(r.last() == ")"@[0]);
}

/// For any configuration with a non-empty `split_by`, the emitted query
/// contains `PIVOT`.
#[verifier::rlimit(100)]
pub proof fn lemma_split_by_marker(
    args: ModelArgsV,
    table: Seq<char>,
    view: Seq<char>,
    cfg: ViewConfigV,
)
    requires
        cfg.split_by.len() > 0,
    ensures
        contains_sub(spec_table_make_view(args, table, view, cfg), "PIVOT"@),
{
    let gfn = spec_grouping_fn(args);
    let n = "PIVOT"@;
    lemma_contains_self(n);
    if cfg.group_by.len() == 0 {
        let base = spec_pivoted_query(cfg, table);
        let pre = "SELECT * EXCLUDE (__ROW_NUM__) FROM ("@;
        let post = " (SELECT "@ + join_with(spec_select_clauses(cfg), ", "@) + ", "@
            + spec_pivot_on(cfg) + ", ROW_NUMBER() OVER () as __ROW_NUM__ FROM "@ + table
            + spec_where_sql(cfg) + ") ON "@ + spec_pivot_on(cfg) + " USING "@ + join_with(
            crate::table_make_view::spec_pivot_using(cfg.columns),
            ", "@,
        ) + " GROUP BY __ROW_NUM__)"@;
        assert(base =~= pre + n + post);
        lemma_contains_piece(pre, n, post, n);
    } else {
        let base = spec_gp_query(cfg, gfn, table);
        let inner = "SELECT "@ + join_with(spec_gp_inner_clauses(cfg, gfn), ", "@) + " FROM "@
            + table + spec_where_sql(cfg) + " "@ + "GROUP BY ROLLUP"@ + "("@ + spec_groups_joined(
            cfg,
        ) + "), "@ + spec_pivot_on(cfg);
        let pre = "SELECT * FROM ("@;
        let post = " ("@ + inner + ") ON "@ + spec_pivot_on(cfg) + " USING "@ + join_with(
            spec_select_clauses(cfg),
            ", "@,
        ) + " GROUP BY "@ + join_with(spec_row_id_cols(cfg), ", "@) + ")"@;
        assert(base =~= pre + n + post);
        lemma_contains_piece(pre, n, post, n);
    }
    lemma_contains_through_suffixes(cfg, gfn, table, n);
    lemma_contains_through_wrapper(args, table, view, cfg, n);
}

/// For any configuration with a non-empty `group_by`, the emitted query
/// contains `GROUP BY ROLLUP`, `__GROUPING_ID__` and `__ROW_PATH_0__`.
#[verifier::rlimit(100)]
pub proof fn lemma_group_by_markers(
    args: ModelArgsV,
    table: Seq<char>,
    view: Seq<char>,
    cfg: ViewConfigV,
)
    requires
        cfg.group_by.len() > 0,
    ensures
        contains_sub(spec_table_make_view(args, table, view, cfg), "GROUP BY ROLLUP"@),
        contains_sub(spec_table_make_view(args, table, view, cfg), "__GROUPING_ID__"@),
        contains_sub(spec_table_make_view(args, table, view, cfg), "__ROW_PATH_0__"@),
{
    let gfn = spec_grouping_fn(args);
    let rollup = "GROUP BY ROLLUP"@;
    let gid_n = "__GROUPING_ID__"@;
    let rp0 = "__ROW_PATH_0__"@;
    lemma_contains_self(rollup);
    lemma_contains_self(gid_n);
    // the needle `__ROW_PATH_0__` is exactly the level-0 alias
    reveal_strlit("__ROW_PATH_0__");
    reveal_strlit("__ROW_PATH_");
    reveal_strlit("0");
    reveal_strlit("__");
    assert(dec_str(0) == "0"@);
    assert(rp0 =~= "__ROW_PATH_"@ + "0"@ + "__"@);
    assert(rp0 == spec_row_path_alias(0));
    lemma_contains_self(rp0);
    // the grouping-id clause ends with the `__GROUPING_ID__` marker
    let gid = spec_grouping_id_clause(cfg, gfn);
    assert(gid =~= (gfn + "("@ + spec_groups_joined(cfg) + ") AS "@) + gid_n);
    lemma_contains_concat_r(gfn + "("@ + spec_groups_joined(cfg) + ") AS "@, gid_n, gid_n);
    // the first row-path SELECT entry ends with the level-0 alias
    let rps = spec_row_path_select_clauses(cfg);
    let cn0 = crate::table_make_view::spec_col_name(cfg, cfg.group_by[0]);
    assert(rps[0] == cn0 + " as "@ + spec_row_path_alias(0));
    assert(rps[0] =~= (cn0 + " as "@) + rp0);
    lemma_contains_concat_r(cn0 + " as "@, rp0, rp0);
    let sel = spec_select_clauses(cfg);
    if cfg.split_by.len() == 0 {
        let clauses = sel + rps + seq![gid];
        assert(clauses[sel.len() as int] == rps[0]);
        assert(clauses[clauses.len() - 1] == gid);
        lemma_contains_join(clauses, ", "@, sel.len() as int, rp0);
        lemma_contains_join(clauses, ", "@, clauses.len() - 1, gid_n);
        let base = spec_grouped_query(cfg, gfn, table);
        let joined = join_with(clauses, ", "@);
        let pre = "SELECT "@;
        let post = " FROM "@ + table + spec_where_sql(cfg) + " "@ + "GROUP BY ROLLUP"@ + "("@
            + spec_groups_joined(cfg) + ")"@;
        assert(base =~= pre + joined + post);
        lemma_contains_piece(pre, joined, post, rp0);
        lemma_contains_piece(pre, joined, post, gid_n);
        let pre2 = "SELECT "@ + joined + " FROM "@ + table + spec_where_sql(cfg) + " "@;
        let post2 = "("@ + spec_groups_joined(cfg) + ")"@;
        assert(base =~= pre2 + rollup + post2);
        lemma_contains_piece(pre2, rollup, post2, rollup);
    } else {
        let clauses = spec_gp_inner_clauses(cfg, gfn);
        assert(clauses[sel.len() as int] == rps[0]);
        assert(clauses[(sel.len() + rps.len()) as int] == gid);
        lemma_contains_join(clauses, ", "@, sel.len() as int, rp0);
        lemma_contains_join(clauses, ", "@, (sel.len() + rps.len()) as int, gid_n);
        let joined = join_with(clauses, ", "@);
        let inner = "SELECT "@ + joined + " FROM "@ + table + spec_where_sql(cfg) + " "@
            + "GROUP BY ROLLUP"@ + "("@ + spec_groups_joined(cfg) + "), "@ + spec_pivot_on(cfg);
        let preI = "SELECT "@;
        let postI = " FROM "@ + table + spec_where_sql(cfg) + " "@ + "GROUP BY ROLLUP"@ + "("@
            + spec_groups_joined(cfg) + "), "@ + spec_pivot_on(cfg);
        assert(inner =~= preI + joined + postI);
        lemma_contains_piece(preI, joined, postI, rp0);
        lemma_contains_piece(preI, joined, postI, gid_n);
        let preR = "SELECT "@ + joined + " FROM "@ + table + spec_where_sql(cfg) + " "@;
        let postR = "("@ + spec_groups_joined(cfg) + "), "@ + spec_pivot_on(cfg);
        assert(inner =~= preR + rollup + postR);
        lemma_contains_piece(preR, rollup, postR, rollup);
        let base = spec_gp_query(cfg, gfn, table);
        let pre = "SELECT * FROM ("@ + "PIVOT"@ + " ("@;
        let post = ") ON "@ + spec_pivot_on(cfg) + " USING "@ + join_with(sel, ", "@)
            + " GROUP BY "@ + join_with(spec_row_id_cols(cfg), ", "@) + ")"@;
        assert(base =~= pre + inner + post);
        lemma_contains_piece(pre, inner, post, rp0);
        lemma_contains_piece(pre, inner, post, gid_n);
        lemma_contains_piece(pre, inner, post, rollup);
    }
    lemma_contains_through_suffixes(cfg, gfn, table, rp0);
    lemma_contains_through_suffixes(cfg, gfn, table, gid_n);
    lemma_contains_through_suffixes(cfg, gfn, table, rollup);
    lemma_contains_through_wrapper(args, table, view, cfg, rp0);
    lemma_contains_through_wrapper(args, table, view, cfg, gid_n);
    lemma_contains_through_wrapper(args, table, view, cfg, rollup);
}

/// Compiling the same inputs twice yields byte-identical output: the
/// emitted text is a function of the options, identifiers and
/// configuration alone, which is what the exact `ensures` of
/// `table_make_view` pins each call to.
pub proof fn lemma_make_view_deterministic(
    args: ModelArgsV,
    table: Seq<char>,
    view: Seq<char>,
    cfg: ViewConfigV,
    r1: Seq<char>,
    r2: Seq<char>,
)
    requires
        r1 == spec_table_make_view(args, table, view, cfg),
        r2 == spec_table_make_view(args, table, view, cfg),
    ensures
        r1 == r2,
{
}

/// The sort-key alias of a row-sort entry is among the generated keys.
proof fn lemma_sort_keys_membership(sort: Seq<(Seq<char>, SortDir)>, i: int)
    requires
        0 <= i < sort.len(),
        spec_is_row_sort(sort[i].1),
    ensures
        spec_sort_keys(sort).contains(spec_sort_key(i)),
    decreases sort.len(),
{
    if i == sort.len() - 1 {
        let rec = spec_sort_keys(sort.drop_last());
        assert(spec_sort_keys(sort) == rec + seq![spec_sort_key(i)]);
        assert(spec_sort_keys(sort)[rec.len() as int] == spec_sort_key(i));
    } else {
        assert(sort.drop_last()[i] == sort[i]);
        lemma_sort_keys_membership(sort.drop_last(), i);
        let rec = spec_sort_keys(sort.drop_last());
        let j = choose|j: int| 0 <= j < rec.len() && rec[j] == spec_sort_key(i);
        assert(spec_sort_keys(sort)[j] == spec_sort_key(i));
    }
}

/// The sort-projection clause of a row-sort entry is among the
/// generated projections.
proof fn lemma_sort_proj_membership(
    cfg: ViewConfigV,
    gfn: Seq<char>,
    sort: Seq<(Seq<char>, SortDir)>,
    i: int,
)
    requires
        0 <= i < sort.len(),
        spec_is_row_sort(sort[i].1),
    ensures
        spec_sort_proj_clauses(cfg, gfn, sort).contains(
            spec_sort_proj_clause(cfg, gfn, sort[i].0, i),
        ),
    decreases sort.len(),
{
    let target = spec_sort_proj_clause(cfg, gfn, sort[i].0, i);
    if i == sort.len() - 1 {
        let rec = spec_sort_proj_clauses(cfg, gfn, sort.drop_last());
        assert(spec_sort_proj_clauses(cfg, gfn, sort) == rec + seq![target]);
        assert(spec_sort_proj_clauses(cfg, gfn, sort)[rec.len() as int] == target);
    } else {
        assert(sort.drop_last()[i] == sort[i]);
        lemma_sort_proj_membership(cfg, gfn, sort.drop_last(), i);
        let rec = spec_sort_proj_clauses(cfg, gfn, sort.drop_last());
        let j = choose|j: int| 0 <= j < rec.len() && rec[j] == target;
        assert(spec_sort_proj_clauses(cfg, gfn, sort)[j] == target);
    }
}

/// For every row-sort entry, when both `group_by` and `split_by` are
/// non-empty, a `__SORT_<i>__` projection appears in the inner SELECT
/// list, its alias appears in the outer PIVOT `GROUP BY` list, and the
/// alias occurs in the emitted query.
#[verifier::rlimit(100)]
pub proof fn lemma_row_sort_key_emitted(
    args: ModelArgsV,
    table: Seq<char>,
    view: Seq<char>,
    cfg: ViewConfigV,
    i: int,
)
    requires
        cfg.group_by.len() > 0,
        cfg.split_by.len() > 0,
        0 <= i < cfg.sort.len(),
        spec_is_row_sort(cfg.sort[i].1),
    ensures
        spec_gp_inner_clauses(cfg, spec_grouping_fn(args)).contains(
            spec_sort_proj_clause(cfg, spec_grouping_fn(args), cfg.sort[i].0, i),
        ),
        spec_row_id_cols(cfg).contains(spec_sort_key(i)),
        contains_sub(spec_table_make_view(args, table, view, cfg), spec_sort_key(i)),
{
    let gfn = spec_grouping_fn(args);
    let key = spec_sort_key(i);
    let target = spec_sort_proj_clause(cfg, gfn, cfg.sort[i].0, i);
    lemma_sort_proj_membership(cfg, gfn, cfg.sort, i);
    let projs = spec_sort_proj_clauses(cfg, gfn, cfg.sort);
    let jp = choose|j: int| 0 <= j < projs.len() && projs[j] == target;
    let front = spec_select_clauses(cfg) + spec_row_path_select_clauses(cfg) + seq![
        spec_grouping_id_clause(cfg, gfn),
    ] + cfg.split_by.map_values(
        |sb: Seq<char>| crate::table_make_view::spec_col_name(cfg, sb),
    );
    assert(spec_gp_inner_clauses(cfg, gfn) == front + projs);
    assert(spec_gp_inner_clauses(cfg, gfn)[front.len() + jp] == target);
    lemma_sort_keys_membership(cfg.sort, i);
    let keys = spec_sort_keys(cfg.sort);
    let jk = choose|j: int| 0 <= j < keys.len() && keys[j] == key;
    let ric = spec_row_id_cols(cfg);
    let ric_front = spec_row_path_aliases(cfg.group_by.len()) + seq!["__GROUPING_ID__"@];
    assert(ric == ric_front + keys);
    assert(ric[ric_front.len() + jk] == key);
    // the alias occurs in the joined outer GROUP BY list
    lemma_contains_self(key);
    lemma_contains_join(ric, ", "@, ric_front.len() + jk, key);
    let inner = "SELECT "@ + join_with(spec_gp_inner_clauses(cfg, gfn), ", "@) + " FROM "@ + table
        + spec_where_sql(cfg) + " "@ + "GROUP BY ROLLUP"@ + "("@ + spec_groups_joined(cfg) + "), "@
        + spec_pivot_on(cfg);
    let base = spec_gp_query(cfg, gfn, table);
    let pre = "SELECT * FROM ("@ + "PIVOT"@ + " ("@ + inner + ") ON "@ + spec_pivot_on(cfg)
        + " USING "@ + join_with(spec_select_clauses(cfg), ", "@) + " GROUP BY "@;
    assert(base =~= pre + join_with(ric, ", "@) + ")"@);
    lemma_contains_piece(pre, join_with(ric, ", "@), ")"@, key);
    lemma_contains_through_suffixes(cfg, gfn, table, key);
    lemma_contains_through_wrapper(args, table, view, cfg, key);
}

/// Every data column of a schema key list is free of the internal
/// `__` prefix.
proof fn lemma_data_columns_not_internal(keys: Seq<Seq<char>>)
    ensures
        forall|j: int|
            0 <= j < spec_data_columns(keys).len() ==> !starts_internal(
                #[trigger] spec_data_columns(keys)[j],
            ),
    decreases keys.len(),
{
    if keys.len() > 0 {
        lemma_data_columns_not_internal(keys.drop_last());
        let rec = spec_data_columns(keys.drop_last());
        let d = spec_data_columns(keys);
        assert forall|j: int| 0 <= j < d.len() implies !starts_internal(#[trigger] d[j]) by {
            if j < rec.len() {
                assert(d[j] == rec[j]);
            } else {
                assert(!starts_internal(keys.last()));
                assert(d[j] == keys.last());
            }
        }
    }
}

/// The sorted data columns hold exactly the data columns, and no
/// internal name among them.
proof fn lemma_sorted_columns_elements(keys: Seq<Seq<char>>, sort: Seq<(Seq<char>, SortDir)>)
    ensures
        spec_sorted_columns(keys, sort).to_multiset() == spec_data_columns(keys).to_multiset(),
        forall|j: int|
            0 <= j < spec_sorted_columns(keys, sort).len() ==> !starts_internal(
                #[trigger] spec_sorted_columns(keys, sort)[j],
            ),
        spec_sorted_columns(keys, sort).len() == spec_data_columns(keys).len(),
{
    broadcast use vstd::seq_lib::group_to_multiset_ensures;

    let d0 = spec_data_columns(keys);
    let d1 = spec_sorted_columns(keys, sort);
    lemma_data_columns_not_internal(keys);
    lemma_lex_total_ordering();
    match spec_col_sort_dir(sort) {
        Option::None => {
            assert(d1 == d0);
        },
        Option::Some(asc) => {
            let leq = if asc {
                lex_leq_fn()
            } else {
                lex_geq_fn()
            };
            d0.lemma_sort_by_ensures(leq);
            assert(d1 == d0.sort_by(leq));
            assert(d1.to_multiset() =~= d0.to_multiset());
            assert(d1.to_multiset().len() == d1.len());
            assert(d0.to_multiset().len() == d0.len());
            assert forall|j: int| 0 <= j < d1.len() implies !starts_internal(#[trigger] d1[j]) by {
                assert(d1.contains(d1[j]));
                assert(d0.contains(d1[j]));
                let w = choose|w: int| 0 <= w < d0.len() && d0[w] == d1[j];
                assert(!starts_internal(d0[w]));
            }
        },
    }
}

/// The viewport projection hides every internal column: the grouping-id
/// and row-path columns come first exactly when `group_by` is non-empty,
/// and every later column is a double-quoted name that does not begin
/// with `__`.
pub proof fn lemma_viewport_internal_columns(cfg: ViewConfigV, vp: ViewPort, keys: Seq<Seq<char>>)
    requires
        crate::model::spec_viewport_wf(vp),
    ensures
        ({
            let cols = spec_vgd_columns(cfg, vp, keys);
            let pre: int = if cfg.group_by.len() > 0 {
                1 + cfg.group_by.len() as int
            } else {
                0
            };
            &&& cols.len() >= pre
            &&& (cfg.group_by.len() > 0 ==> cols[0] == "\""@ + "__GROUPING_ID__"@ + "\""@)
            &&& (cfg.group_by.len() > 0 ==> forall|i: int|
                0 <= i < cfg.group_by.len() ==> cols[1 + i] == spec_quoted_row_path(i))
            &&& forall|j: int|
                pre <= j < cols.len() ==> exists|name: Seq<char>|
                    #[trigger] cols[j] == spec_quoted(name) && !starts_internal(name)
        }),
{
    let cols = spec_vgd_columns(cfg, vp, keys);
    let pre: int = if cfg.group_by.len() > 0 {
        1 + cfg.group_by.len() as int
    } else {
        0
    };
    lemma_sorted_columns_elements(keys, cfg.sort);
    let start_col = (match vp.start_col {
        Option::Some(s) => s,
        Option::None => 0,
    }) as nat;
    let sorted = spec_sorted_columns(keys, cfg.sort);
    let data = spec_col_slice(sorted, start_col, vp.end_col);
    let lo = if start_col <= sorted.len() {
        start_col as int
    } else {
        sorted.len() as int
    };
    let hi = match vp.end_col {
        Option::None => sorted.len() as int,
        Option::Some(e) => {
            if lo + (e - start_col) <= sorted.len() {
                lo + (e - start_col)
            } else {
                sorted.len() as int
            }
        },
    };
    assert(lo <= hi <= sorted.len());
    assert(data =~= sorted.subrange(lo, hi));
    assert forall|j: int| 0 <= j < data.len() implies !starts_internal(#[trigger] data[j]) by {
        assert(data[j] == sorted[lo + j]);
    }
    let quoted = data.map_values(|c: Seq<char>| spec_quoted(c));
    let gpart: Seq<Seq<char>> = if cfg.group_by.len() > 0 {
        seq![("\""@ + "__GROUPING_ID__"@ + "\""@)] + Seq::new(
            cfg.group_by.len(),
            |i: int| spec_quoted_row_path(i),
        )
    } else {
        Seq::empty()
    };
    assert(cols == gpart + quoted);
    assert(gpart.len() == pre);
    assert forall|j: int| pre <= j < cols.len() implies exists|name: Seq<char>|
        #[trigger] cols[j] == spec_quoted(name) && !starts_internal(name) by {
        let name = data[j - pre];
        assert(cols[j] == quoted[j - pre]);
        assert(quoted[j - pre] == spec_quoted(name));
        assert(!starts_internal(name));
    }
}

/// The column sort of the viewport projection is a total lexicographic
/// order: ascending sorts ascend, descending sorts descend, the sorted
/// columns are a permutation of the data columns, and distinct inputs
/// stay strictly ordered.
pub proof fn lemma_col_sort_ordering(keys: Seq<Seq<char>>, sort: Seq<(Seq<char>, SortDir)>)
    ensures
        spec_sorted_columns(keys, sort).to_multiset() == spec_data_columns(keys).to_multiset(),
        spec_col_sort_dir(sort) == Option::Some(true) ==> vstd::relations::sorted_by(
            spec_sorted_columns(keys, sort),
            lex_leq_fn(),
        ),
        spec_col_sort_dir(sort) == Option::Some(false) ==> vstd::relations::sorted_by(
            spec_sorted_columns(keys, sort),
            lex_geq_fn(),
        ),
        spec_data_columns(keys).no_duplicates() ==> spec_sorted_columns(
            keys,
            sort,
        ).no_duplicates(),
{
    let d0 = spec_data_columns(keys);
    let d1 = spec_sorted_columns(keys, sort);
    lemma_lex_total_ordering();
    lemma_sorted_columns_elements(keys, sort);
    match spec_col_sort_dir(sort) {
        Option::None => {
            assert(d1 == d0);
        },
        Option::Some(asc) => {
            let leq = if asc {
                lex_leq_fn()
            } else {
                lex_geq_fn()
            };
            d0.lemma_sort_by_ensures(leq);
            assert(d1 == d0.sort_by(leq));
        },
    }
    if d0.no_duplicates() {
        d0.lemma_multiset_has_no_duplicates();
        d1.lemma_multiset_has_no_duplicates_conv();
    }
}

/// The viewport paging clause: with `end_row` present the query ends in
/// ` LIMIT <end - start> OFFSET <start>`; without it nothing is
/// appended, so the query ends with the view identifier.
pub proof fn lemma_viewport_paging(
    view: Seq<char>,
    cfg: ViewConfigV,
    vp: ViewPort,
    keys: Seq<Seq<char>>,
)
    ensures
        ({
            let base = "SELECT "@ + join_with(spec_vgd_columns(cfg, vp, keys), ", "@) + " FROM "@
                + view;
            let start = match vp.start_row {
                Option::Some(s) => s,
                Option::None => 0,
            };
            &&& (vp.end_row matches Option::Some(e) ==> spec_view_get_data(view, cfg, vp, keys)
                == base + " "@ + "LIMIT "@ + dec_str((e - start) as nat) + " OFFSET "@ + dec_str(
                start as nat,
            ))
            &&& (vp.end_row is None ==> spec_view_get_data(view, cfg, vp, keys) == base)
            &&& (vp.end_row is None && view.len() > 0 ==> spec_view_get_data(view, cfg, vp, keys).last()
                == view.last())
        }),
{
    let base = "SELECT "@ + join_with(spec_vgd_columns(cfg, vp, keys), ", "@) + " FROM "@ + view;
    if vp.end_row is None && view.len() > 0 {
        assert(base.last() == view.last());
    }
}

/// Distinct sort indices have distinct sort-key aliases.
proof fn lemma_sort_key_injective(i: int, j: int)
    requires
        0 <= i,
        0 <= j,
        spec_sort_key(i) == spec_sort_key(j),
    ensures
        i == j,
{
    reveal_strlit("__SORT_");
    reveal_strlit("__");
    let a = dec_str(i as nat);
    let b = dec_str(j as nat);
    let ka = spec_sort_key(i);
    let kb = spec_sort_key(j);
    assert(ka.len() == 7 + a.len() + 2);
    assert(kb.len() == 7 + b.len() + 2);
    assert(a.len() == b.len());
    assert forall|x: int| 0 <= x < a.len() implies a[x] == b[x] by {
        assert(ka[7 + x] == a[x]);
        assert(kb[7 + x] == b[x]);
    }
    assert(a =~= b);
    crate::text::lemma_dec_str_injective(i as nat, j as nat);
}

/// Every generated sort-key alias belongs to a row-sort entry.
proof fn lemma_sort_keys_only_row(sort: Seq<(Seq<char>, SortDir)>, i: int)
    requires
        0 <= i,
        i < sort.len() ==> !spec_is_row_sort(sort[i].1),
    ensures
        !spec_sort_keys(sort).contains(spec_sort_key(i)),
    decreases sort.len(),
{
    let key = spec_sort_key(i);
    if sort.len() == 0 {
        assert(spec_sort_keys(sort).len() == 0);
    } else {
        lemma_sort_keys_only_row(sort.drop_last(), i);
        let rec = spec_sort_keys(sort.drop_last());
        if spec_is_row_sort(sort.last().1) {
            assert(spec_sort_keys(sort) == rec + seq![spec_sort_key(sort.len() - 1)]);
            if spec_sort_keys(sort).contains(key) {
                let w = choose|w: int|
                    0 <= w < spec_sort_keys(sort).len() && spec_sort_keys(sort)[w] == key;
                if w < rec.len() {
                    assert(rec[w] == key);
                    assert(rec.contains(key));
                    assert(false);
                } else {
                    assert(spec_sort_key(sort.len() - 1) == key);
                    lemma_sort_key_injective(sort.len() - 1, i);
                    assert(false);
                }
            }
        } else {
            assert(spec_sort_keys(sort) =~= rec);
            if spec_sort_keys(sort).contains(key) {
                let w = choose|w: int|
                    0 <= w < spec_sort_keys(sort).len() && spec_sort_keys(sort)[w] == key;
                assert(rec[w] == key);
                assert(rec.contains(key));
                assert(false);
            }
        }
    }
}

/// Every sort-projection clause belongs to a row-sort entry.
proof fn lemma_sort_proj_only_row(cfg: ViewConfigV, gfn: Seq<char>, sort: Seq<(Seq<char>, SortDir)>)
    ensures
        forall|x: Seq<char>|
            #[trigger] spec_sort_proj_clauses(cfg, gfn, sort).contains(x) ==> exists|j: int|
                0 <= j < sort.len() && spec_is_row_sort(sort[j].1) && x == spec_sort_proj_clause(
                    cfg,
                    gfn,
                    sort[j].0,
                    j,
                ),
    decreases sort.len(),
{
    if sort.len() > 0 {
        lemma_sort_proj_only_row(cfg, gfn, sort.drop_last());
        let rec = spec_sort_proj_clauses(cfg, gfn, sort.drop_last());
        let whole = spec_sort_proj_clauses(cfg, gfn, sort);
        assert forall|x: Seq<char>| #[trigger] whole.contains(x) implies exists|j: int|
            0 <= j < sort.len() && spec_is_row_sort(sort[j].1) && x == spec_sort_proj_clause(
                cfg,
                gfn,
                sort[j].0,
                j,
            ) by {
            let w = choose|w: int| 0 <= w < whole.len() && whole[w] == x;
            if w < rec.len() {
                assert(rec[w] == x);
                assert(rec.contains(x));
                let j = choose|j: int|
                    0 <= j < sort.drop_last().len() && spec_is_row_sort(sort.drop_last()[j].1) && x
                        == spec_sort_proj_clause(cfg, gfn, sort.drop_last()[j].0, j);
                assert(sort.drop_last()[j] == sort[j]);
            } else {
                assert(spec_is_row_sort(sort.last().1));
                assert(x == spec_sort_proj_clause(cfg, gfn, sort[sort.len() - 1].0, sort.len() - 1));
            }
        }
    }
}

/// Every per-level ORDER BY sort entry belongs to a row-sort entry.
proof fn lemma_level_entries_only_row(
    cfg: ViewConfigV,
    gfn: Seq<char>,
    g: int,
    sort: Seq<(Seq<char>, SortDir)>,
)
    ensures
        forall|x: Seq<char>|
            #[trigger] crate::table_make_view::spec_level_sort_entries(
                cfg,
                gfn,
                g,
                sort,
            ).contains(x) ==> exists|j: int|
                0 <= j < sort.len() && spec_is_row_sort(sort[j].1)
                    && x == crate::table_make_view::spec_level_sort_entry(
                    cfg,
                    gfn,
                    g,
                    j,
                    sort[j].0,
                    sort[j].1,
                ),
    decreases sort.len(),
{
    if sort.len() > 0 {
        lemma_level_entries_only_row(cfg, gfn, g, sort.drop_last());
        let rec = crate::table_make_view::spec_level_sort_entries(cfg, gfn, g, sort.drop_last());
        let whole = crate::table_make_view::spec_level_sort_entries(cfg, gfn, g, sort);
        assert forall|x: Seq<char>| #[trigger] whole.contains(x) implies exists|j: int|
            0 <= j < sort.len() && spec_is_row_sort(sort[j].1)
                && x == crate::table_make_view::spec_level_sort_entry(
                cfg,
                gfn,
                g,
                j,
                sort[j].0,
                sort[j].1,
            ) by {
            let w = choose|w: int| 0 <= w < whole.len() && whole[w] == x;
            if w < rec.len() {
                assert(rec[w] == x);
                assert(rec.contains(x));
                let j = choose|j: int|
                    0 <= j < sort.drop_last().len() && spec_is_row_sort(sort.drop_last()[j].1) && x
                        == crate::table_make_view::spec_level_sort_entry(
                        cfg,
                        gfn,
                        g,
                        j,
                        sort.drop_last()[j].0,
                        sort.drop_last()[j].1,
                    );
                assert(sort.drop_last()[j] == sort[j]);
            } else {
                assert(spec_is_row_sort(sort.last().1));
                assert(x == crate::table_make_view::spec_level_sort_entry(
                    cfg,
                    gfn,
                    g,
                    sort.len() - 1,
                    sort[sort.len() - 1].0,
                    sort[sort.len() - 1].1,
                ));
            }
        }
    }
}

/// Every flat ORDER BY entry belongs to a row-sort entry.
proof fn lemma_flat_order_only_row(cfg: ViewConfigV, sort: Seq<(Seq<char>, SortDir)>)
    ensures
        forall|x: Seq<char>|
            #[trigger] crate::table_make_view::spec_flat_order(cfg, sort).contains(x)
                ==> exists|j: int|
                0 <= j < sort.len() && spec_is_row_sort(sort[j].1)
                    && x == crate::table_make_view::spec_col_name(cfg, sort[j].0) + " "@
                    + crate::config::spec_sort_dir_str(sort[j].1),
    decreases sort.len(),
{
    if sort.len() > 0 {
        lemma_flat_order_only_row(cfg, sort.drop_last());
        let rec = crate::table_make_view::spec_flat_order(cfg, sort.drop_last());
        let whole = crate::table_make_view::spec_flat_order(cfg, sort);
        assert forall|x: Seq<char>| #[trigger] whole.contains(x) implies exists|j: int|
            0 <= j < sort.len() && spec_is_row_sort(sort[j].1)
                && x == crate::table_make_view::spec_col_name(cfg, sort[j].0) + " "@
                + crate::config::spec_sort_dir_str(sort[j].1) by {
            let w = choose|w: int| 0 <= w < whole.len() && whole[w] == x;
            if w < rec.len() {
                assert(rec[w] == x);
                assert(rec.contains(x));
                let j = choose|j: int|
                    0 <= j < sort.drop_last().len() && spec_is_row_sort(sort.drop_last()[j].1) && x
                        == crate::table_make_view::spec_col_name(cfg, sort.drop_last()[j].0) + " "@
                        + crate::config::spec_sort_dir_str(sort.drop_last()[j].1);
                assert(sort.drop_last()[j] == sort[j]);
            } else {
                assert(spec_is_row_sort(sort.last().1));
            }
        }
    }
}

/// A column-sort entry leaves no trace among the synthetic sort
/// columns: its `__SORT_<i>__` alias is generated neither as a
/// projection nor in the outer PIVOT `GROUP BY` list, and every ORDER BY
/// sort entry and sort projection stems from a row-sort entry.
pub proof fn lemma_col_sort_no_row_artifacts(cfg: ViewConfigV, gfn: Seq<char>, i: int)
    requires
        0 <= i < cfg.sort.len(),
        crate::config::spec_is_col_sort(cfg.sort[i].1),
    ensures
        !spec_sort_keys(cfg.sort).contains(spec_sort_key(i)),
        !spec_row_id_cols(cfg).contains(spec_sort_key(i)),
        forall|x: Seq<char>|
            #[trigger] spec_sort_proj_clauses(cfg, gfn, cfg.sort).contains(x) ==> exists|j: int|
                0 <= j < cfg.sort.len() && spec_is_row_sort(cfg.sort[j].1)
                    && x == spec_sort_proj_clause(cfg, gfn, cfg.sort[j].0, j),
        forall|g: int, x: Seq<char>|
            #[trigger] crate::table_make_view::spec_level_sort_entries(
                cfg,
                gfn,
                g,
                cfg.sort,
            ).contains(x) ==> exists|j: int|
                0 <= j < cfg.sort.len() && spec_is_row_sort(cfg.sort[j].1)
                    && x == crate::table_make_view::spec_level_sort_entry(
                    cfg,
                    gfn,
                    g,
                    j,
                    cfg.sort[j].0,
                    cfg.sort[j].1,
                ),
        forall|x: Seq<char>|
            #[trigger] crate::table_make_view::spec_flat_order(cfg, cfg.sort).contains(x)
                ==> exists|j: int|
                0 <= j < cfg.sort.len() && spec_is_row_sort(cfg.sort[j].1)
                    && x == crate::table_make_view::spec_col_name(cfg, cfg.sort[j].0) + " "@
                    + crate::config::spec_sort_dir_str(cfg.sort[j].1),
{
    let key = spec_sort_key(i);
    lemma_sort_keys_only_row(cfg.sort, i);
    lemma_sort_proj_only_row(cfg, gfn, cfg.sort);
    assert forall|g: int, x: Seq<char>|
        #[trigger] crate::table_make_view::spec_level_sort_entries(
            cfg,
            gfn,
            g,
            cfg.sort,
        ).contains(x) implies exists|j: int|
        0 <= j < cfg.sort.len() && spec_is_row_sort(cfg.sort[j].1)
            && x == crate::table_make_view::spec_level_sort_entry(
            cfg,
            gfn,
            g,
            j,
            cfg.sort[j].0,
            cfg.sort[j].1,
        ) by {
        lemma_level_entries_only_row(cfg, gfn, g, cfg.sort);
    }
    lemma_flat_order_only_row(cfg, cfg.sort);
    // the outer GROUP BY list: row paths, the grouping id, then keys
    reveal_strlit("__SORT_");
    reveal_strlit("__ROW_PATH_");
    reveal_strlit("__GROUPING_ID__");
    let ric = spec_row_id_cols(cfg);
    let rpa = spec_row_path_aliases(cfg.group_by.len());
    let keys = spec_sort_keys(cfg.sort);
    if ric.contains(key) {
        let w = choose|w: int| 0 <= w < ric.len() && ric[w] == key;
        if w < rpa.len() {
            let alias = spec_row_path_alias(w);
            assert(ric[w] == alias);
            assert(alias[2] == 'R');
            assert(key[2] == 'S');
            assert(false);
        } else if w == rpa.len() {
            assert(ric[w] == "__GROUPING_ID__"@);
            assert("__GROUPING_ID__"@[2] == 'G');
            assert(key[2] == 'S');
            assert(false);
        } else {
            assert(ric[w] == keys[w - rpa.len() - 1]);
            assert(keys.contains(key));
            assert(false);
        }
    }
}

/// None of the caller-supplied fragments of a query carries `n`: not
/// the identifiers, not the resolved column fragments or escaped
/// aliases, not the filter operators or rendered operands.
pub open spec fn spec_fragments_free(
    args: ModelArgsV,
    table: Seq<char>,
    view: Seq<char>,
    cfg: ViewConfigV,
    n: Seq<char>,
) -> bool {
    &&& !contains_sub(table, n)
    &&& !contains_sub(view, n)
    &&& !contains_sub(spec_create_entity(args), n)
    &&& forall|j: int|
        0 <= j < spec_present_columns(cfg.columns).len() ==> !contains_sub(
            spec_col_name(cfg, #[trigger] spec_present_columns(cfg.columns)[j]),
            n,
        ) && !contains_sub(alias_escape(spec_present_columns(cfg.columns)[j]), n)
    &&& forall|j: int|
        0 <= j < cfg.filter.len() ==> !contains_sub(
            spec_col_name(cfg, (#[trigger] cfg.filter[j]).column),
            n,
        ) && !contains_sub(cfg.filter[j].op, n) && (crate::model::spec_filter_term_sql(
            cfg.filter[j].term,
        ) matches Option::Some(lit) ==> !contains_sub(lit, n))
    &&& forall|j: int|
        0 <= j < cfg.sort.len() ==> !contains_sub(
            spec_col_name(cfg, (#[trigger] cfg.sort[j]).0),
            n,
        )
}

/// A needle-free piece, shown from its characters alone.
proof fn lemma_piece_free_by_chars(piece: Seq<char>, n: Seq<char>)
    requires
        n.len() > 0,
        forall|k: int| 0 <= k < piece.len() ==> !in_seq(#[trigger] piece[k], n),
    ensures
        !contains_sub(piece, n),
{
    if contains_sub(piece, n) {
        lemma_contains_chars(piece, n);
        assert(in_seq(n[0], piece));
        let k = choose|k: int| 0 <= k < piece.len() && piece[k] == n[0];
        assert(in_seq(piece[k], n));
    }
}

/// The WHERE clauses of a needle-free configuration are needle-free.
proof fn lemma_where_clauses_free(
    cfg: ViewConfigV,
    fs: Seq<crate::config::FilterV>,
    n: Seq<char>,
)
    requires
        n.len() > 0,
        !in_seq(' ', n),
        forall|j: int|
            0 <= j < fs.len() ==> !contains_sub(spec_col_name(cfg, (#[trigger] fs[j]).column), n)
                && !contains_sub(fs[j].op, n) && (crate::model::spec_filter_term_sql(
                fs[j].term,
            ) matches Option::Some(lit) ==> !contains_sub(lit, n)),
    ensures
        forall|w: int|
            0 <= w < crate::table_make_view::spec_where_clauses(cfg, fs).len() ==> !contains_sub(
                #[trigger] crate::table_make_view::spec_where_clauses(cfg, fs)[w],
                n,
            ),
    decreases fs.len(),
{
    reveal_strlit(" ");
    if fs.len() > 0 {
        assert forall|j: int| 0 <= j < fs.drop_last().len() implies !contains_sub(
            spec_col_name(cfg, (#[trigger] fs.drop_last()[j]).column),
            n,
        ) && !contains_sub(fs.drop_last()[j].op, n) && (crate::model::spec_filter_term_sql(
            fs.drop_last()[j].term,
        ) matches Option::Some(lit) ==> !contains_sub(lit, n)) by {
            assert(fs.drop_last()[j] == fs[j]);
        }
        lemma_where_clauses_free(cfg, fs.drop_last(), n);
        let rec = crate::table_make_view::spec_where_clauses(cfg, fs.drop_last());
        let whole = crate::table_make_view::spec_where_clauses(cfg, fs);
        match crate::model::spec_filter_term_sql(fs.last().term) {
            Option::Some(lit) => {
                let cn = spec_col_name(cfg, fs.last().column);
                let op = fs.last().op;
                assert(!in_seq(' ', n));
                lemma_piece_free_by_chars(" "@, n);
                lemma_append_free(cn, " "@, n);
                assert((cn + " "@).last() == ' ');
                lemma_append_free(cn + " "@, op, n);
                lemma_append_free(cn + " "@ + op, " "@, n);
                assert((cn + " "@ + op + " "@).last() == ' ');
                lemma_append_free(cn + " "@ + op + " "@, lit, n);
                assert forall|w: int| 0 <= w < whole.len() implies !contains_sub(
                    #[trigger] whole[w],
                    n,
                ) by {
                    if w < rec.len() {
                        assert(whole[w] == rec[w]);
                    } else {
                        assert(whole[w] == cn + " "@ + op + " "@ + lit);
                    }
                }
            },
            Option::None => {
                assert(whole =~= rec);
            },
        }
    }
}

/// The flat ORDER BY entries of a needle-free configuration are
/// needle-free.
proof fn lemma_flat_order_free(cfg: ViewConfigV, sort: Seq<(Seq<char>, SortDir)>, n: Seq<char>)
    requires
        n.len() > 0,
        !in_seq(' ', n),
        !contains_sub("ASC"@, n),
        !contains_sub("DESC"@, n),
        forall|j: int|
            0 <= j < sort.len() ==> !contains_sub(spec_col_name(cfg, (#[trigger] sort[j]).0), n),
    ensures
        forall|w: int|
            0 <= w < crate::table_make_view::spec_flat_order(cfg, sort).len() ==> !contains_sub(
                #[trigger] crate::table_make_view::spec_flat_order(cfg, sort)[w],
                n,
            ),
    decreases sort.len(),
{
    reveal_strlit(" ");
    if sort.len() > 0 {
        assert forall|j: int| 0 <= j < sort.drop_last().len() implies !contains_sub(
            spec_col_name(cfg, (#[trigger] sort.drop_last()[j]).0),
            n,
        ) by {
            assert(sort.drop_last()[j] == sort[j]);
        }
        lemma_flat_order_free(cfg, sort.drop_last(), n);
        let rec = crate::table_make_view::spec_flat_order(cfg, sort.drop_last());
        let whole = crate::table_make_view::spec_flat_order(cfg, sort);
        if spec_is_row_sort(sort.last().1) {
            let cn = spec_col_name(cfg, sort.last().0);
            let dir = crate::config::spec_sort_dir_str(sort.last().1);
            assert(!contains_sub(dir, n));
            lemma_piece_free_by_chars(" "@, n);
            lemma_append_free(cn, " "@, n);
            assert((cn + " "@).last() == ' ');
            lemma_append_free(cn + " "@, dir, n);
            assert forall|w: int| 0 <= w < whole.len() implies !contains_sub(
                #[trigger] whole[w],
                n,
            ) by {
                if w < rec.len() {
                    assert(whole[w] == rec[w]);
                } else {
                    assert(whole[w] == cn + " "@ + dir);
                }
            }
        } else {
            assert(whole =~= rec);
        }
    }
}

/// With empty `group_by` and `split_by` the emitted statement holds
/// nothing of a needle that avoids the query's punctuation and its
/// fixed keywords, and that no caller-supplied fragment carries.
#[verifier::rlimit(100)]
proof fn lemma_flat_output_free(
    args: ModelArgsV,
    table: Seq<char>,
    view: Seq<char>,
    cfg: ViewConfigV,
    n: Seq<char>,
)
    requires
        cfg.group_by.len() == 0,
        cfg.split_by.len() == 0,
        n.len() > 0,
        !in_seq(' ', n),
        !in_seq('"', n),
        !in_seq(',', n),
        !in_seq('(', n),
        !in_seq(')', n),
        !contains_sub("SELECT "@, n),
        !contains_sub(" FROM "@, n),
        !contains_sub(" WHERE "@, n),
        !contains_sub(" AND "@, n),
        !contains_sub(" ORDER BY "@, n),
        !contains_sub(" as \""@, n),
        !contains_sub("ASC"@, n),
        !contains_sub("DESC"@, n),
        !contains_sub("CREATE "@, n),
        !contains_sub(" AS ("@, n),
        spec_fragments_free(args, table, view, cfg, n),
    ensures
        !contains_sub(spec_table_make_view(args, table, view, cfg), n),
{
    reveal_strlit(" ");
    reveal_strlit("\"");
    reveal_strlit(", ");
    reveal_strlit(" AND ");
    reveal_strlit(" WHERE ");
    reveal_strlit(" as \"");
    reveal_strlit("SELECT ");
    reveal_strlit(" FROM ");
    reveal_strlit(" ORDER BY ");
    reveal_strlit("CREATE ");
    reveal_strlit(" AS (");
    reveal_strlit(")");
    let gfn = spec_grouping_fn(args);
    lemma_piece_free_by_chars(" "@, n);
    lemma_piece_free_by_chars("\""@, n);
    lemma_piece_free_by_chars(", "@, n);
    lemma_piece_free_by_chars(")"@, n);
    // the SELECT list
    let present = spec_present_columns(cfg.columns);
    let sel = spec_select_clauses(cfg);
    assert forall|j: int| 0 <= j < sel.len() implies !contains_sub(#[trigger] sel[j], n) by {
        let c = present[j];
        let cn = spec_col_name(cfg, c);
        let esc = alias_escape(c);
        assert(sel[j] == cn + " as \""@ + esc + "\""@);
        lemma_append_free(cn, " as \""@, n);
        assert((cn + " as \""@).last() == '"');
        lemma_append_free(cn + " as \""@, esc, n);
        lemma_append_free(cn + " as \""@ + esc, "\""@, n);
    }
    lemma_join_free(sel, ", "@, n);
    let joined = join_with(sel, ", "@);
    // the WHERE fragment
    lemma_where_clauses_free(cfg, cfg.filter, n);
    let wcl = crate::table_make_view::spec_where_clauses(cfg, cfg.filter);
    let wh = spec_where_sql(cfg);
    if wcl.len() > 0 {
        lemma_join_free(wcl, " AND "@, n);
        lemma_append_free(" WHERE "@, join_with(wcl, " AND "@), n);
        assert(wh[0] == ' ');
    }
    assert(!contains_sub(wh, n));
    // the flat body
    let base = crate::table_make_view::spec_flat_query(cfg, table);
    lemma_append_free("SELECT "@, joined, n);
    lemma_append_free("SELECT "@ + joined, " FROM "@, n);
    assert(("SELECT "@ + joined + " FROM "@).last() == ' ');
    lemma_append_free("SELECT "@ + joined + " FROM "@, table, n);
    if wh.len() > 0 {
        assert(wh.first() == ' ');
    }
    lemma_append_free("SELECT "@ + joined + " FROM "@ + table, wh, n);
    assert(!contains_sub(base, n));
    // WINDOW is empty in the flat shape; ORDER BY may follow
    let q = spec_build_query(cfg, gfn, table);
    let order = crate::table_make_view::spec_order_by_clauses(cfg, gfn);
    assert(crate::table_make_view::spec_window_clauses(cfg, gfn).len() == 0);
    if order.len() > 0 {
        lemma_flat_order_free(cfg, cfg.sort, n);
        lemma_join_free(order, ", "@, n);
        lemma_append_free(base, " ORDER BY "@, n);
        assert((base + " ORDER BY "@).last() == ' ');
        lemma_append_free(base + " ORDER BY "@, join_with(order, ", "@), n);
        assert(q == base + " ORDER BY "@ + join_with(order, ", "@));
    } else {
        assert(q == base);
    }
    assert(!contains_sub(q, n));
    // the CREATE wrapper
    let ce = spec_create_entity(args);
    lemma_append_free("CREATE "@, ce, n);
    lemma_append_free("CREATE "@ + ce, " "@, n);
    assert(("CREATE "@ + ce + " "@).last() == ' ');
    lemma_append_free("CREATE "@ + ce + " "@, view, n);
    lemma_append_free("CREATE "@ + ce + " "@ + view, " AS ("@, n);
    assert(("CREATE "@ + ce + " "@ + view + " AS ("@).last() == '(');
    lemma_append_free("CREATE "@ + ce + " "@ + view + " AS ("@, q, n);
    lemma_append_free("CREATE "@ + ce + " "@ + view + " AS ("@ + q, ")"@, n);
}

/// With empty `group_by` and `split_by` the emitted statement contains
/// neither `ROLLUP` nor `PIVOT` nor `__ROW_PATH_`, as long as no
/// caller-supplied fragment carries one of those markers itself.
#[verifier::rlimit(100)]
pub proof fn lemma_flat_no_grouping_artifacts(
    args: ModelArgsV,
    table: Seq<char>,
    view: Seq<char>,
    cfg: ViewConfigV,
)
    requires
        cfg.group_by.len() == 0,
        cfg.split_by.len() == 0,
        spec_fragments_free(args, table, view, cfg, "ROLLUP"@),
        spec_fragments_free(args, table, view, cfg, "PIVOT"@),
        spec_fragments_free(args, table, view, cfg, "__ROW_PATH_"@),
    ensures
        !contains_sub(spec_table_make_view(args, table, view, cfg), "ROLLUP"@),
        !contains_sub(spec_table_make_view(args, table, view, cfg), "PIVOT"@),
        !contains_sub(spec_table_make_view(args, table, view, cfg), "__ROW_PATH_"@),
{
    reveal_strlit("ROLLUP");
    reveal_strlit("PIVOT");
    reveal_strlit("__ROW_PATH_");
    reveal_strlit("SELECT ");
    reveal_strlit(" FROM ");
    reveal_strlit(" WHERE ");
    reveal_strlit(" AND ");
    reveal_strlit(" ORDER BY ");
    reveal_strlit(" as \"");
    reveal_strlit("ASC");
    reveal_strlit("DESC");
    reveal_strlit("CREATE ");
    reveal_strlit(" AS (");
    let rollup = "ROLLUP"@;
    let pivot = "PIVOT"@;
    let path = "__ROW_PATH_"@;
    lemma_missing_char_free("SELECT "@, rollup, 0);
    lemma_missing_char_free(" FROM "@, rollup, 2);
    lemma_missing_char_free(" WHERE "@, rollup, 1);
    lemma_missing_char_free(" AND "@, rollup, 0);
    lemma_missing_char_free(" ORDER BY "@, rollup, 2);
    lemma_missing_char_free(" as \""@, rollup, 0);
    lemma_missing_char_free("ASC"@, rollup, 0);
    lemma_missing_char_free("DESC"@, rollup, 0);
    lemma_missing_char_free("CREATE "@, rollup, 1);
    lemma_missing_char_free(" AS ("@, rollup, 0);
    lemma_flat_output_free(args, table, view, cfg, rollup);
    lemma_missing_char_free("SELECT "@, pivot, 0);
    lemma_missing_char_free(" FROM "@, pivot, 1);
    lemma_missing_char_free(" WHERE "@, pivot, 1);
    lemma_missing_char_free(" AND "@, pivot, 0);
    lemma_missing_char_free(" ORDER BY "@, pivot, 0);
    lemma_missing_char_free(" as \""@, pivot, 0);
    lemma_missing_char_free("ASC"@, pivot, 0);
    lemma_missing_char_free("DESC"@, pivot, 0);
    lemma_missing_char_free("CREATE "@, pivot, 0);
    lemma_missing_char_free(" AS ("@, pivot, 0);
    lemma_flat_output_free(args, table, view, cfg, pivot);
    lemma_missing_char_free("SELECT "@, path, 0);
    lemma_missing_char_free(" FROM "@, path, 0);
    lemma_missing_char_free(" WHERE "@, path, 0);
    lemma_missing_char_free(" AND "@, path, 0);
    lemma_missing_char_free(" ORDER BY "@, path, 0);
    lemma_missing_char_free(" as \""@, path, 0);
    lemma_missing_char_free("ASC"@, path, 0);
    lemma_missing_char_free("DESC"@, path, 0);
    lemma_missing_char_free("CREATE "@, path, 0);
    lemma_missing_char_free(" AS ("@, path, 0);
    lemma_flat_output_free(args, table, view, cfg, path);
}

} // verus!
