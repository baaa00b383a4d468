//! The stateless SQL query builder: construction, the one-line query
//! generators, and literal rendering for filters.

use vstd::prelude::*;

verus! {

use vstd::string::StringExecFns;

use indexmap::IndexMap;

use crate::config::ColumnType;
use crate::config::FilterTerm;
use crate::config::FilterTermV;
use crate::config::Scalar;
use crate::config::ScalarV;
use crate::config::Sort;
use crate::config::SortDir;
use crate::config::ViewConfig;
use crate::config::ViewConfigV;
use crate::config::ViewPort;
use crate::schema_map::schema_key_list;
use crate::table_make_view::ViewQueryContext;
use crate::table_make_view::spec_build_query;
use crate::schema_map::schema_keys;
use crate::text::append_squote_escaped;
use crate::text::dec_str;
use crate::text::is_internal_name;
use crate::text::join_strings;
use crate::text::join_with;
use crate::text::lex_geq_fn;
use crate::text::lex_leq_fn;
use crate::text::sort_strings;
use crate::text::squote_escape;
use crate::text::starts_internal;
use crate::text::usize_to_string;

/// Error type for SQL generation operations.  In the current design every
/// operation succeeds; the variants keep the signatures stable for future
/// validation.
#[derive(Clone, Debug)]
pub enum GenericSQLError {
    /// A required column was not found in the schema.
    ColumnNotFound(String),
    /// An invalid configuration was provided.
    InvalidConfig(String),
    /// An unsupported operation was requested.
    UnsupportedOperation(String),
}

/// Spec-level mirror of [`GenericSQLError`].
pub enum GenericSQLErrorV {
    ColumnNotFound(Seq<char>),
    InvalidConfig(Seq<char>),
    UnsupportedOperation(Seq<char>),
}

impl View for GenericSQLError {
    type V = GenericSQLErrorV;

    open spec fn view(&self) -> GenericSQLErrorV {
        match self {
            GenericSQLError::ColumnNotFound(col) => GenericSQLErrorV::ColumnNotFound(col@),
            GenericSQLError::InvalidConfig(msg) => GenericSQLErrorV::InvalidConfig(msg@),
            GenericSQLError::UnsupportedOperation(msg) => GenericSQLErrorV::UnsupportedOperation(
                msg@,
            ),
        }
    }
}

/// The message text for an error value.
pub open spec fn spec_error_message(e: GenericSQLErrorV) -> Seq<char> {
    match e {
        GenericSQLErrorV::ColumnNotFound(col) => "Column not found: "@ + col,
        GenericSQLErrorV::InvalidConfig(msg) => "Invalid configuration: "@ + msg,
        GenericSQLErrorV::UnsupportedOperation(msg) => "Unsupported operation: "@ + msg,
    }
}

impl GenericSQLError {
    /// The human-readable description of this error.
    pub fn message(&self) -> (r: String)
        ensures
            r@ == spec_error_message(self@),
    {
        match self {
            GenericSQLError::ColumnNotFound(col) => {
                let mut s = "Column not found: ".to_owned();
                s.append(col.as_str());
                s
            },
            GenericSQLError::InvalidConfig(msg) => {
                let mut s = "Invalid configuration: ".to_owned();
                s.append(msg.as_str());
                s
            },
            GenericSQLError::UnsupportedOperation(msg) => {
                let mut s = "Unsupported operation: ".to_owned();
                s.append(msg.as_str());
                s
            },
        }
    }
}

/// Result type alias for SQL operations.
pub type GenericSQLResult<T> = Result<T, GenericSQLError>;

/// Construction-time options of the query builder.
#[derive(Clone, Debug)]
pub struct GenericSQLVirtualServerModelArgs {
    /// The keyword following `CREATE`; `TABLE` when absent.
    pub create_entity: Option<String>,
    /// The grouping-bit function name; `GROUPING_ID` when absent.
    pub grouping_fn: Option<String>,
}

/// Spec-level mirror of [`GenericSQLVirtualServerModelArgs`].
pub struct ModelArgsV {
    pub create_entity: Option<Seq<char>>,
    pub grouping_fn: Option<Seq<char>>,
}

impl View for GenericSQLVirtualServerModelArgs {
    type V = ModelArgsV;

    open spec fn view(&self) -> ModelArgsV {
        ModelArgsV {
            create_entity: self.create_entity.deep_view(),
            grouping_fn: self.grouping_fn.deep_view(),
        }
    }
}

impl Default for GenericSQLVirtualServerModelArgs {
    /// Both options absent: `TABLE` and `GROUPING_ID` are used.
    fn default() -> (r: Self)
        ensures
            r@.create_entity is None,
            r@.grouping_fn is None,
    {
        GenericSQLVirtualServerModelArgs { create_entity: Option::None, grouping_fn: Option::None }
    }
}

/// The `CREATE` keyword selected by the options.
pub open spec fn spec_create_entity(args: ModelArgsV) -> Seq<char> {
    match args.create_entity {
        Option::Some(s) => s,
        Option::None => "TABLE"@,
    }
}

/// The grouping-bit function name selected by the options.
pub open spec fn spec_grouping_fn(args: ModelArgsV) -> Seq<char> {
    match args.grouping_fn {
        Option::Some(s) => s,
        Option::None => "GROUPING_ID"@,
    }
}

/// A stateless SQL query builder for virtual server operations.
///
/// This struct generates SQL query strings without executing them, allowing
/// the caller to execute the queries against a SQL connection.
#[derive(Clone, Debug)]
pub struct GenericSQLVirtualServerModel(pub GenericSQLVirtualServerModelArgs);

impl View for GenericSQLVirtualServerModel {
    type V = ModelArgsV;

    open spec fn view(&self) -> ModelArgsV {
        self.0@
    }
}

impl Default for GenericSQLVirtualServerModel {
    /// A builder with default options.
    fn default() -> (r: Self)
        ensures
            r@.create_entity is None,
            r@.grouping_fn is None,
    {
        GenericSQLVirtualServerModel(GenericSQLVirtualServerModelArgs::default())
    }
}

/// The SQL literal for a scalar, absent for `Null`.
pub open spec fn spec_scalar_sql(s: ScalarV) -> Option<Seq<char>> {
    match s {
        ScalarV::Null => Option::None,
        ScalarV::Bool(b) => Option::Some(
            if b {
                "TRUE"@
            } else {
                "FALSE"@
            },
        ),
        ScalarV::Float(t) => Option::Some(t),
        ScalarV::String(s) => Option::Some("'"@ + squote_escape(s) + "'"@),
    }
}

/// The scalars of an array that render to a literal, in order.
pub open spec fn spec_rendered_scalars(xs: Seq<ScalarV>) -> Seq<Seq<char>>
    decreases xs.len(),
{
    if xs.len() == 0 {
        Seq::empty()
    } else {
        spec_rendered_scalars(xs.drop_last()) + (match spec_scalar_sql(xs.last()) {
            Option::Some(t) => seq![t],
            Option::None => Seq::empty(),
        })
    }
}

/// The SQL literal for a filter operand: the scalar's literal, or a
/// parenthesised comma list of the array's renderable scalars; absent
/// when nothing renders.
pub open spec fn spec_filter_term_sql(t: FilterTermV) -> Option<Seq<char>> {
    match t {
        FilterTermV::Scalar(s) => spec_scalar_sql(s),
        FilterTermV::Array(xs) => {
            let vals = spec_rendered_scalars(xs);
            if vals.len() == 0 {
                Option::None
            } else {
                Option::Some("("@ + join_with(vals, ", "@) + ")"@)
            }
        },
    }
}

/// The full text of `table_make_view`: the create keyword, the view
/// name, and the assembled inner query.
pub open spec fn spec_table_make_view(
    args: ModelArgsV,
    table: Seq<char>,
    view: Seq<char>,
    cfg: ViewConfigV,
) -> Seq<char> {
    "CREATE "@ + spec_create_entity(args) + " "@ + view + " AS ("@ + spec_build_query(
        cfg,
        spec_grouping_fn(args),
        table,
    ) + ")"@
}

/// The schema keys that the viewport may show: those that do not begin
/// with the internal `__` prefix, in schema order.
pub open spec fn spec_data_columns(keys: Seq<Seq<char>>) -> Seq<Seq<char>>
    decreases keys.len(),
{
    if keys.len() == 0 {
        Seq::empty()
    } else {
        spec_data_columns(keys.drop_last()) + (if starts_internal(keys.last()) {
            Seq::empty()
        } else {
            seq![keys.last()]
        })
    }
}

/// The direction of the first column-sort entry, if any: `true` for
/// ascending, `false` for descending.
pub open spec fn spec_col_sort_dir(sort: Seq<(Seq<char>, SortDir)>) -> Option<bool>
    decreases sort.len(),
{
    if sort.len() == 0 {
        Option::None
    } else {
        match sort[0].1 {
            SortDir::ColAsc | SortDir::ColAscAbs => Option::Some(true),
            SortDir::ColDesc | SortDir::ColDescAbs => Option::Some(false),
            _ => spec_col_sort_dir(sort.drop_first()),
        }
    }
}

/// The data columns after the optional column sort.
pub open spec fn spec_sorted_columns(keys: Seq<Seq<char>>, sort: Seq<(Seq<char>, SortDir)>) -> Seq<
    Seq<char>,
> {
    match spec_col_sort_dir(sort) {
        Option::None => spec_data_columns(keys),
        Option::Some(true) => spec_data_columns(keys).sort_by(lex_leq_fn()),
        Option::Some(false) => spec_data_columns(keys).sort_by(lex_geq_fn()),
    }
}

/// The viewport's column slice: drop the first `start` columns, then
/// keep `end - start` when `end` is present.
pub open spec fn spec_col_slice(cols: Seq<Seq<char>>, start: nat, end: Option<u32>) -> Seq<
    Seq<char>,
> {
    let lo = if start <= cols.len() {
        start as int
    } else {
        cols.len() as int
    };
    match end {
        Option::None => cols.skip(lo),
        Option::Some(e) => {
            let hi = if lo + (e - start) <= cols.len() {
                lo + (e - start)
            } else {
                cols.len() as int
            };
            cols.subrange(lo, hi)
        },
    }
}

/// A name wrapped in double quotes.
pub open spec fn spec_quoted(name: Seq<char>) -> Seq<char> {
    "\""@ + name + "\""@
}

/// The quoted row-path alias column for level `i`.
pub open spec fn spec_quoted_row_path(i: int) -> Seq<char> {
    "\""@ + "__ROW_PATH_"@ + dec_str(i as nat) + "__"@ + "\""@
}

/// The full emitted column list of the viewport projection: the quoted
/// grouping-id and row-path aliases first when grouping, then the sorted,
/// sliced data columns, each double-quoted.
pub open spec fn spec_vgd_columns(cfg: ViewConfigV, vp: ViewPort, keys: Seq<Seq<char>>) -> Seq<
    Seq<char>,
> {
    let start_col = (match vp.start_col {
        Option::Some(s) => s,
        Option::None => 0,
    }) as nat;
    let data = spec_col_slice(spec_sorted_columns(keys, cfg.sort), start_col, vp.end_col);
    let quoted = data.map_values(|c: Seq<char>| spec_quoted(c));
    if cfg.group_by.len() > 0 {
        seq![("\""@ + "__GROUPING_ID__"@ + "\""@)] + Seq::new(
            cfg.group_by.len(),
            |i: int| spec_quoted_row_path(i),
        ) + quoted
    } else {
        quoted
    }
}

/// The viewport bounds are well formed: each present `end` is at least
/// the matching `start` (with absent `start` meaning 0).
pub open spec fn spec_viewport_wf(vp: ViewPort) -> bool {
    &&& (match (vp.start_row, vp.end_row) {
        (Option::Some(s), Option::Some(e)) => s <= e,
        _ => true,
    })
    &&& (match (vp.start_col, vp.end_col) {
        (Option::Some(s), Option::Some(e)) => s <= e,
        _ => true,
    })
}

/// The text of the viewport projection query.
pub open spec fn spec_view_get_data(
    view: Seq<char>,
    cfg: ViewConfigV,
    vp: ViewPort,
    keys: Seq<Seq<char>>,
) -> Seq<char> {
    let base = "SELECT "@ + join_with(spec_vgd_columns(cfg, vp, keys), ", "@) + " FROM "@ + view;
    let start_row = match vp.start_row {
        Option::Some(s) => s,
        Option::None => 0,
    };
    match vp.end_row {
        Option::None => base,
        Option::Some(e) => base + " "@ + "LIMIT "@ + dec_str((e - start_row) as nat) + " OFFSET "@
            + dec_str(start_row as nat),
    }
}

/// The first column-sort direction of a sort list.
fn col_sort_dir(sort: &Vec<Sort>) -> (r: Option<bool>)
    ensures
        r == spec_col_sort_dir(sort@.map_values(|s: Sort| s@)),
{
    let ghost sv = sort@.map_values(|s: Sort| s@);
    let mut i: usize = 0;
    proof {
        assert(sv.skip(0) =~= sv);
    }
    while i < sort.len()
        invariant
            i <= sort.len(),
            sv == sort@.map_values(|s: Sort| s@),
            spec_col_sort_dir(sv) == spec_col_sort_dir(sv.skip(i as int)),
        decreases sort.len() - i,
    {
        proof {
            assert(sv.skip(i as int)[0] == sv[i as int]);
            assert(sv.skip(i as int).drop_first() =~= sv.skip(i + 1));
        }
        match sort[i].1 {
            SortDir::ColAsc | SortDir::ColAscAbs => {
                return Option::Some(true);
            },
            SortDir::ColDesc | SortDir::ColDescAbs => {
                return Option::Some(false);
            },
            _ => {},
        }
        i = i + 1;
    }
    proof {
        assert(sv.skip(sort.len() as int).len() == 0);
    }
    Option::None
}

impl GenericSQLVirtualServerModel {
    /// Creates a new `GenericSQLVirtualServerModel` instance.
    pub fn new(args: GenericSQLVirtualServerModelArgs) -> (r: Self)
        ensures
            r@ == args@,
    {
        GenericSQLVirtualServerModel(args)
    }

    /// Returns the SQL query to list all hosted tables.
    ///
    /// # Returns
    /// SQL: `SHOW ALL TABLES`
    pub fn get_hosted_tables(&self) -> (r: GenericSQLResult<String>)
        ensures
            r matches Ok(s) && s@ == "SHOW ALL TABLES"@,
    {
        Ok("SHOW ALL TABLES".to_owned())
    }

    /// Returns the SQL query to describe a table's schema.
    ///
    /// # Returns
    /// SQL: `DESCRIBE {table_id}`
    pub fn table_schema(&self, table_id: &str) -> (r: GenericSQLResult<String>)
        ensures
            r matches Ok(s) && s@ == "DESCRIBE "@ + table_id@,
    {
        let mut s = "DESCRIBE ".to_owned();
        s.append(table_id);
        Ok(s)
    }

    /// Returns the SQL query to get the row count of a table.
    ///
    /// # Returns
    /// SQL: `SELECT COUNT(*) FROM {table_id}`
    pub fn table_size(&self, table_id: &str) -> (r: GenericSQLResult<String>)
        ensures
            r matches Ok(s) && s@ == "SELECT COUNT(*) FROM "@ + table_id@,
    {
        let mut s = "SELECT COUNT(*) FROM ".to_owned();
        s.append(table_id);
        Ok(s)
    }

    /// Returns the SQL query to get the column count of a view.
    ///
    /// # Returns
    /// SQL: `SELECT COUNT(*) FROM (DESCRIBE {view_id})`
    pub fn view_column_size(&self, view_id: &str) -> (r: GenericSQLResult<String>)
        ensures
            r matches Ok(s) && s@ == "SELECT COUNT(*) FROM (DESCRIBE "@ + view_id@ + ")"@,
    {
        let mut s = "SELECT COUNT(*) FROM (DESCRIBE ".to_owned();
        s.append(view_id);
        s.append(")");
        Ok(s)
    }

    /// Returns the SQL query to validate an expression against a table.
    ///
    /// # Returns
    /// SQL: `DESCRIBE (SELECT {expression} FROM {table_id})`
    pub fn table_validate_expression(&self, table_id: &str, expression: &str) -> (r:
        GenericSQLResult<String>)
        ensures
            r matches Ok(s) && s@ == "DESCRIBE (SELECT "@ + expression@ + " FROM "@ + table_id@
                + ")"@,
    {
        let mut s = "DESCRIBE (SELECT ".to_owned();
        s.append(expression);
        s.append(" FROM ");
        s.append(table_id);
        s.append(")");
        Ok(s)
    }

    /// Returns the SQL query to delete a view.
    ///
    /// # Returns
    /// SQL: `DROP TABLE IF EXISTS {view_id}`
    pub fn view_delete(&self, view_id: &str) -> (r: GenericSQLResult<String>)
        ensures
            r matches Ok(s) && s@ == "DROP TABLE IF EXISTS "@ + view_id@,
    {
        let mut s = "DROP TABLE IF EXISTS ".to_owned();
        s.append(view_id);
        Ok(s)
    }

    /// Returns the SQL query to describe a view's schema.
    ///
    /// # Returns
    /// SQL: `DESCRIBE {view_id}`
    pub fn view_schema(&self, view_id: &str) -> (r: GenericSQLResult<String>)
        ensures
            r matches Ok(s) && s@ == "DESCRIBE "@ + view_id@,
    {
        let mut s = "DESCRIBE ".to_owned();
        s.append(view_id);
        Ok(s)
    }

    /// Returns the SQL query to get the row count of a view.
    ///
    /// # Returns
    /// SQL: `SELECT COUNT(*) FROM {view_id}`
    pub fn view_size(&self, view_id: &str) -> (r: GenericSQLResult<String>)
        ensures
            r matches Ok(s) && s@ == "SELECT COUNT(*) FROM "@ + view_id@,
    {
        let mut s = "SELECT COUNT(*) FROM ".to_owned();
        s.append(view_id);
        Ok(s)
    }

    /// Returns the SQL query to create a view from a table with the
    /// given configuration.
    ///
    /// # Returns
    /// SQL: `CREATE TABLE {view_id} AS (...)`
    pub fn table_make_view(&self, table_id: &str, view_id: &str, config: &ViewConfig) -> (r:
        GenericSQLResult<String>)
        ensures
            r matches Ok(s) && s@ == spec_table_make_view(self@, table_id@, view_id@, config@),
    {
        let ctx = ViewQueryContext::new(self, table_id, config);
        let query = ctx.build_query();
        let mut s = "CREATE ".to_owned();
        match &self.0.create_entity {
            Option::Some(e) => s.append(e.as_str()),
            Option::None => s.append("TABLE"),
        }
        s.append(" ");
        s.append(view_id);
        s.append(" AS (");
        s.append(query.as_str());
        s.append(")");
        proof {
            assert(s@ =~= spec_table_make_view(self@, table_id@, view_id@, config@));
        }
        Ok(s)
    }

    /// The viewport projection over an explicit list of schema columns:
    /// filters out internal `__…__` columns, applies the column sort,
    /// slices by the column range, prepends the grouping columns when
    /// grouping, and pages by the row range.
    pub fn view_get_data_for_columns(
        view_id: &str,
        config: &ViewConfig,
        viewport: &ViewPort,
        columns: Vec<String>,
    ) -> (r: String)
        requires
            spec_viewport_wf(*viewport),
        ensures
            r@ == spec_view_get_data(view_id@, config@, *viewport, columns.deep_view()),
    {
        let ghost keysv = columns.deep_view();
        let mut data: Vec<String> = Vec::new();
        let mut i: usize = 0;
        proof {
            assert(keysv.take(0) =~= Seq::<Seq<char>>::empty());
            assert(data.deep_view() =~= Seq::<Seq<char>>::empty());
        }
        while i < columns.len()
            invariant
                i <= columns.len(),
                keysv == columns.deep_view(),
                data.deep_view() == spec_data_columns(keysv.take(i as int)),
            decreases columns.len() - i,
        {
            proof {
                assert(keysv.take(i + 1).drop_last() =~= keysv.take(i as int));
                assert(keysv.take(i + 1).last() == keysv[i as int]);
                assert(keysv[i as int] == columns@[i as int]@);
            }
            if !is_internal_name(columns[i].as_str()) {
                data.push(columns[i].clone());
            }
            proof {
                assert(data.deep_view() =~= spec_data_columns(keysv.take(i + 1)));
            }
            i = i + 1;
        }
        proof {
            assert(keysv.take(columns.len() as int) =~= keysv);
        }
        let dir = col_sort_dir(&config.sort);
        let data = match dir {
            Option::Some(asc) => sort_strings(data, asc),
            Option::None => data,
        };
        let ghost sortedv = spec_sorted_columns(keysv, config@.sort);
        proof {
            assert(data.deep_view() == sortedv);
        }
        let start_col_u: u32 = match viewport.start_col {
            Option::Some(s) => s,
            Option::None => 0,
        };
        let start_col = start_col_u as usize;
        let lo = if start_col <= data.len() {
            start_col
        } else {
            data.len()
        };
        let hi = match viewport.end_col {
            Option::Some(e) => {
                let cnt = (e - start_col_u) as usize;
                if cnt <= data.len() - lo {
                    lo + cnt
                } else {
                    data.len()
                }
            },
            Option::None => data.len(),
        };
        let ghost slicev = spec_col_slice(sortedv, start_col_u as nat, viewport.end_col);
        proof {
            assert(sortedv.skip(lo as int) =~= sortedv.subrange(lo as int, sortedv.len() as int));
            assert(slicev =~= sortedv.subrange(lo as int, hi as int));
        }
        let mut sliced: Vec<String> = Vec::new();
        let mut j: usize = lo;
        proof {
            assert(sliced.deep_view() =~= sortedv.subrange(lo as int, lo as int));
        }
        while j < hi
            invariant
                lo <= j <= hi <= data.len(),
                sortedv == data.deep_view(),
                sliced.deep_view() == sortedv.subrange(lo as int, j as int),
            decreases hi - j,
        {
            let ghost old_sliced = sliced.deep_view();
            sliced.push(data[j].clone());
            proof {
                assert(sliced.deep_view() =~= old_sliced.push(sortedv[j as int]));
                assert(sortedv.subrange(lo as int, j + 1) =~= sortedv.subrange(
                    lo as int,
                    j as int,
                ).push(sortedv[j as int]));
                assert(sliced.deep_view() =~= sortedv.subrange(lo as int, j + 1));
            }
            j = j + 1;
        }
        let ghost gpart = (if config@.group_by.len() > 0 {
            seq![("\""@ + "__GROUPING_ID__"@ + "\""@)] + Seq::new(
                config@.group_by.len(),
                |n: int| spec_quoted_row_path(n),
            )
        } else {
            Seq::<Seq<char>>::empty()
        });
        let mut cols: Vec<String> = Vec::new();
        if config.group_by.len() > 0 {
            let mut gid = "\"".to_owned();
            gid.append("__GROUPING_ID__");
            gid.append("\"");
            cols.push(gid);
            let k = config.group_by.len();
            let mut idx: usize = 0;
            proof {
                assert(cols.deep_view() =~= seq![("\""@ + "__GROUPING_ID__"@ + "\""@)] + Seq::new(
                    0,
                    |n: int| spec_quoted_row_path(n),
                ));
            }
            while idx < k
                invariant
                    idx <= k,
                    k == config@.group_by.len(),
                    cols.deep_view() == seq![("\""@ + "__GROUPING_ID__"@ + "\""@)] + Seq::new(
                        idx as nat,
                        |n: int| spec_quoted_row_path(n),
                    ),
                decreases k - idx,
            {
                let mut rp = "\"".to_owned();
                rp.append("__ROW_PATH_");
                let num = usize_to_string(idx);
                rp.append(num.as_str());
                rp.append("__");
                rp.append("\"");
                proof {
                    assert(rp@ =~= spec_quoted_row_path(idx as int));
                }
                let ghost old_cols = cols.deep_view();
                cols.push(rp);
                proof {
                    assert(cols.deep_view() =~= old_cols.push(spec_quoted_row_path(idx as int)));
                    assert(Seq::new((idx + 1) as nat, |n: int| spec_quoted_row_path(n)) =~= Seq::new(
                        idx as nat,
                        |n: int| spec_quoted_row_path(n),
                    ).push(spec_quoted_row_path(idx as int)));
                    assert(cols.deep_view() =~= seq![("\""@ + "__GROUPING_ID__"@ + "\""@)]
                        + Seq::new((idx + 1) as nat, |n: int| spec_quoted_row_path(n)));
                }
                idx = idx + 1;
            }
        }
        proof {
            assert(cols.deep_view() =~= gpart);
        }
        let mut m: usize = 0;
        proof {
            assert(slicev.take(0).map_values(|c: Seq<char>| spec_quoted(c)) =~= Seq::<
                Seq<char>,
            >::empty());
            assert(cols.deep_view() =~= gpart + slicev.take(0).map_values(
                |c: Seq<char>| spec_quoted(c),
            ));
        }
        while m < sliced.len()
            invariant
                m <= sliced.len(),
                slicev == sliced.deep_view(),
                gpart == (if config@.group_by.len() > 0 {
                    seq![("\""@ + "__GROUPING_ID__"@ + "\""@)] + Seq::new(
                        config@.group_by.len(),
                        |n: int| spec_quoted_row_path(n),
                    )
                } else {
                    Seq::<Seq<char>>::empty()
                }),
                cols.deep_view() == gpart + slicev.take(m as int).map_values(
                    |c: Seq<char>| spec_quoted(c),
                ),
            decreases sliced.len() - m,
        {
            let mut qc = "\"".to_owned();
            qc.append(sliced[m].as_str());
            qc.append("\"");
            proof {
                assert(qc@ =~= spec_quoted(slicev[m as int]));
            }
            let ghost old_cols = cols.deep_view();
            cols.push(qc);
            proof {
                assert(cols.deep_view() =~= old_cols.push(spec_quoted(slicev[m as int])));
                assert(slicev.take(m + 1) =~= slicev.take(m as int).push(slicev[m as int]));
                assert(slicev.take(m + 1).map_values(|c: Seq<char>| spec_quoted(c)) =~= slicev.take(
                    m as int,
                ).map_values(|c: Seq<char>| spec_quoted(c)).push(spec_quoted(slicev[m as int])));
                assert(cols.deep_view() =~= gpart + slicev.take(m + 1).map_values(
                    |c: Seq<char>| spec_quoted(c),
                ));
            }
            m = m + 1;
        }
        proof {
            assert(slicev.take(sliced.len() as int) =~= slicev);
            assert(cols.deep_view() =~= spec_vgd_columns(config@, *viewport, keysv));
        }
        let mut q = "SELECT ".to_owned();
        let joined = join_strings(&cols, ", ");
        q.append(joined.as_str());
        q.append(" FROM ");
        q.append(view_id);
        let start_row: u32 = match viewport.start_row {
            Option::Some(s) => s,
            Option::None => 0,
        };
        match viewport.end_row {
            Option::Some(e) => {
                q.append(" ");
                q.append("LIMIT ");
                let diff = usize_to_string((e - start_row) as usize);
                q.append(diff.as_str());
                q.append(" OFFSET ");
                let off = usize_to_string(start_row as usize);
                q.append(off.as_str());
            },
            Option::None => {},
        }
        proof {
            assert(q@ =~= spec_view_get_data(view_id@, config@, *viewport, keysv));
        }
        q
    }

    /// Returns the SQL query to fetch data from a view with the given
    /// viewport.
    ///
    /// # Returns
    /// SQL: `SELECT ... FROM {view_id} LIMIT ... OFFSET ...`
    pub fn view_get_data(
        &self,
        view_id: &str,
        config: &ViewConfig,
        viewport: &ViewPort,
        schema: &IndexMap<String, ColumnType>,
    ) -> (r: GenericSQLResult<String>)
        requires
            spec_viewport_wf(*viewport),
        ensures
            r matches Ok(s) && s@ == spec_view_get_data(
                view_id@,
                config@,
                *viewport,
                schema_keys(*schema),
            ),
    {
        let keys = schema_key_list(schema);
        Ok(Self::view_get_data_for_columns(view_id, config, viewport, keys))
    }

    /// Renders a scalar to its SQL literal; `Null` renders to nothing.
    pub fn scalar_to_sql(scalar: &Scalar) -> (r: Option<String>)
        ensures
            (r is Some) == (spec_scalar_sql(scalar@) is Some),
            r matches Some(s) ==> spec_scalar_sql(scalar@) matches Some(t) && s@ == t,
    {
        match scalar {
            Scalar::Null => Option::None,
            Scalar::Bool(b) => Option::Some(
                if *b {
                    "TRUE".to_owned()
                } else {
                    "FALSE".to_owned()
                },
            ),
            Scalar::Float(t) => Option::Some(t.clone()),
            Scalar::String(s) => {
                let mut lit = "'".to_owned();
                append_squote_escaped(&mut lit, s.as_str());
                lit.append("'");
                Option::Some(lit)
            },
        }
    }

    /// Renders a filter operand to its SQL literal, if it has one.
    pub fn filter_term_to_sql(term: &FilterTerm) -> (r: Option<String>)
        ensures
            (r is Some) == (spec_filter_term_sql(term@) is Some),
            r matches Some(s) ==> spec_filter_term_sql(term@) matches Some(t) && s@ == t,
    {
        match term {
            FilterTerm::Scalar(scalar) => Self::scalar_to_sql(scalar),
            FilterTerm::Array(scalars) => {
                let ghost xsv = scalars@.map_values(|s: Scalar| s@);
                let mut values: Vec<String> = Vec::new();
                let mut i: usize = 0;
                while i < scalars.len()
                    invariant
                        i <= scalars.len(),
                        xsv == scalars@.map_values(|s: Scalar| s@),
                        values.deep_view() == spec_rendered_scalars(xsv.take(i as int)),
                    decreases scalars.len() - i,
                {
                    let rendered = Self::scalar_to_sql(&scalars[i]);
                    proof {
                        assert(xsv.take(i + 1).drop_last() =~= xsv.take(i as int));
                        assert(xsv.take(i + 1).last() == xsv[i as int]);
                        assert(xsv[i as int] == scalars@[i as int]@);
                    }
                    match rendered {
                        Option::Some(v) => {
                            values.push(v);
                            proof {
                                assert(values.deep_view() =~= spec_rendered_scalars(
                                    xsv.take(i + 1),
                                ));
                            }
                        },
                        Option::None => {
                            proof {
                                assert(values.deep_view() =~= spec_rendered_scalars(
                                    xsv.take(i + 1),
                                ));
                            }
                        },
                    }
                    i = i + 1;
                }
                proof {
                    assert(xsv.take(scalars.len() as int) =~= xsv);
                }
                if values.len() == 0 {
                    Option::None
                } else {
                    let mut lit = "(".to_owned();
                    let joined = join_strings(&values, ", ");
                    lit.append(joined.as_str());
                    lit.append(")");
                    Option::Some(lit)
                }
            },
        }
    }
}

} // verus!
