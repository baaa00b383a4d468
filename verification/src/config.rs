//! The view-configuration data model: columns, groupings, splits, sorts,
//! aggregates, filters and the viewport, together with the spec-level
//! mirrors that the contracts are stated over.

use vstd::prelude::*;

verus! {

/// Sort direction of one sort entry.  The `Col*` variants sort columns
/// (they affect only the viewport projection) and the `*Abs` variants
/// collapse to plain `ASC` / `DESC` in emitted SQL.
#[derive(Clone, Copy, Debug, PartialEq, Eq, Structural)]
pub enum SortDir {
    NoSort,
    Asc,
    Desc,
    AscAbs,
    DescAbs,
    ColAsc,
    ColDesc,
    ColAscAbs,
    ColDescAbs,
}

/// One sort entry: a column name and a direction.
#[derive(Clone, Debug)]
pub struct Sort(pub String, pub SortDir);

impl View for Sort {
    type V = (Seq<char>, SortDir);

    open spec fn view(&self) -> (Seq<char>, SortDir) {
        (self.0@, self.1)
    }
}

/// A per-column aggregate.  Only the name is used in emitted SQL.
#[derive(Clone, Debug)]
pub enum Aggregate {
    SingleAggregate(String),
    MultiAggregate(String, Vec<String>),
}

/// Spec-level mirror of [`Aggregate`].
pub enum AggregateV {
    SingleAggregate(Seq<char>),
    MultiAggregate(Seq<char>, Seq<Seq<char>>),
}

impl View for Aggregate {
    type V = AggregateV;

    open spec fn view(&self) -> AggregateV {
        match self {
            Aggregate::SingleAggregate(name) => AggregateV::SingleAggregate(name@),
            Aggregate::MultiAggregate(name, args) => AggregateV::MultiAggregate(
                name@,
                args.deep_view(),
            ),
        }
    }
}

/// A literal filter operand.  `Float` carries the decimal text of the
/// number, rendered upstream, so that the compiler emits it verbatim.
#[derive(Clone, Debug)]
pub enum Scalar {
    Null,
    Bool(bool),
    Float(String),
    String(String),
}

/// Spec-level mirror of [`Scalar`].
pub enum ScalarV {
    Null,
    Bool(bool),
    Float(Seq<char>),
    String(Seq<char>),
}

impl View for Scalar {
    type V = ScalarV;

    open spec fn view(&self) -> ScalarV {
        match self {
            Scalar::Null => ScalarV::Null,
            Scalar::Bool(b) => ScalarV::Bool(*b),
            Scalar::Float(t) => ScalarV::Float(t@),
            Scalar::String(s) => ScalarV::String(s@),
        }
    }
}

/// The right-hand side of a filter clause.
#[derive(Clone, Debug)]
pub enum FilterTerm {
    Scalar(Scalar),
    Array(Vec<Scalar>),
}

/// Spec-level mirror of [`FilterTerm`].
pub enum FilterTermV {
    Scalar(ScalarV),
    Array(Seq<ScalarV>),
}

impl View for FilterTerm {
    type V = FilterTermV;

    open spec fn view(&self) -> FilterTermV {
        match self {
            FilterTerm::Scalar(s) => FilterTermV::Scalar(s@),
            FilterTerm::Array(xs) => FilterTermV::Array(xs@.map_values(|s: Scalar| s@)),
        }
    }
}

/// One filter clause: column, operator (emitted verbatim) and operand.
#[derive(Clone, Debug)]
pub struct Filter {
    pub column: String,
    pub op: String,
    pub term: FilterTerm,
}

/// Spec-level mirror of [`Filter`].
pub struct FilterV {
    pub column: Seq<char>,
    pub op: Seq<char>,
    pub term: FilterTermV,
}

impl View for Filter {
    type V = FilterV;

    open spec fn view(&self) -> FilterV {
        FilterV { column: self.column@, op: self.op@, term: self.term@ }
    }
}

/// The declarative description of a view over a source table.
#[derive(Clone, Debug)]
pub struct ViewConfig {
    /// Data columns, in order; absent entries are skipped.
    pub columns: Vec<Option<String>>,
    /// Row-pivoting dimensions, outermost first.
    pub group_by: Vec<String>,
    /// Column-pivoting dimensions.
    pub split_by: Vec<String>,
    /// Sort entries, in priority order.
    pub sort: Vec<Sort>,
    /// Per-column aggregates; the first entry for a column wins.
    pub aggregates: Vec<(String, Aggregate)>,
    /// Filter clauses, all conjoined.
    pub filter: Vec<Filter>,
    /// Pre-quoted expression overrides; the first entry for an alias wins.
    pub expressions: Vec<(String, String)>,
}

/// Spec-level mirror of [`ViewConfig`].
pub struct ViewConfigV {
    pub columns: Seq<Option<Seq<char>>>,
    pub group_by: Seq<Seq<char>>,
    pub split_by: Seq<Seq<char>>,
    pub sort: Seq<(Seq<char>, SortDir)>,
    pub aggregates: Seq<(Seq<char>, AggregateV)>,
    pub filter: Seq<FilterV>,
    pub expressions: Seq<(Seq<char>, Seq<char>)>,
}

impl View for ViewConfig {
    type V = ViewConfigV;

    open spec fn view(&self) -> ViewConfigV {
        ViewConfigV {
            columns: self.columns.deep_view(),
            group_by: self.group_by.deep_view(),
            split_by: self.split_by.deep_view(),
            sort: self.sort@.map_values(|s: Sort| s@),
            aggregates: self.aggregates@.map_values(|p: (String, Aggregate)| (p.0@, p.1@)),
            filter: self.filter@.map_values(|f: Filter| f@),
            expressions: self.expressions.deep_view(),
        }
    }
}

impl Default for ViewConfig {
    /// An empty configuration: no columns, groupings, splits, sorts,
    /// aggregates, filters or expressions.
    fn default() -> (r: Self)
        ensures
            r@.columns == Seq::<Option<Seq<char>>>::empty(),
            r@.group_by == Seq::<Seq<char>>::empty(),
            r@.split_by == Seq::<Seq<char>>::empty(),
            r@.sort == Seq::<(Seq<char>, SortDir)>::empty(),
            r@.aggregates == Seq::<(Seq<char>, AggregateV)>::empty(),
            r@.filter == Seq::<FilterV>::empty(),
            r@.expressions == Seq::<(Seq<char>, Seq<char>)>::empty(),
    {
        let r = ViewConfig {
            columns: Vec::new(),
            group_by: Vec::new(),
            split_by: Vec::new(),
            sort: Vec::new(),
            aggregates: Vec::new(),
            filter: Vec::new(),
            expressions: Vec::new(),
        };
        proof {
            assert(r@.columns =~= Seq::<Option<Seq<char>>>::empty());
            assert(r@.group_by =~= Seq::<Seq<char>>::empty());
            assert(r@.split_by =~= Seq::<Seq<char>>::empty());
            assert(r@.sort =~= Seq::<(Seq<char>, SortDir)>::empty());
            assert(r@.aggregates =~= Seq::<(Seq<char>, AggregateV)>::empty());
            assert(r@.filter =~= Seq::<FilterV>::empty());
            assert(r@.expressions =~= Seq::<(Seq<char>, Seq<char>)>::empty());
        }
        r
    }
}

/// The requested window of rows and columns.  `start_*` default to 0 and
/// a missing `end_*` means unbounded.
#[derive(Clone, Copy, Debug)]
pub struct ViewPort {
    pub start_row: Option<u32>,
    pub end_row: Option<u32>,
    pub start_col: Option<u32>,
    pub end_col: Option<u32>,
}

/// The type of a schema column.  The compiler never inspects it; it is
/// carried so that schemas can be written down.
#[derive(Clone, Copy, Debug, PartialEq, Eq, Structural)]
pub enum ColumnType {
    Boolean,
    Date,
    Datetime,
    Float,
    Integer,
    String,
}

/// The aggregate name that an [`AggregateV`] renders to.
pub open spec fn spec_aggregate_name(a: AggregateV) -> Seq<char> {
    match a {
        AggregateV::SingleAggregate(name) => name,
        AggregateV::MultiAggregate(name, _args) => name,
    }
}

/// The SQL direction keyword for a sort direction.
pub open spec fn spec_sort_dir_str(d: SortDir) -> Seq<char> {
    match d {
        SortDir::NoSort => ""@,
        SortDir::Asc | SortDir::ColAsc | SortDir::AscAbs | SortDir::ColAscAbs => "ASC"@,
        SortDir::Desc | SortDir::ColDesc | SortDir::DescAbs | SortDir::ColDescAbs => "DESC"@,
    }
}

/// Whether a direction is one of the column-sorting variants.
pub open spec fn spec_is_col_sort(d: SortDir) -> bool {
    match d {
        SortDir::ColAsc | SortDir::ColDesc | SortDir::ColAscAbs | SortDir::ColDescAbs => true,
        _ => false,
    }
}

/// Whether a direction produces row `ORDER BY` entries.
pub open spec fn spec_is_row_sort(d: SortDir) -> bool {
    d != SortDir::NoSort && !spec_is_col_sort(d)
}

/// First-match lookup in an association list.
pub open spec fn assoc_first<T>(pairs: Seq<(Seq<char>, T)>, key: Seq<char>) -> Option<T>
    decreases pairs.len(),
{
    if pairs.len() == 0 {
        Option::None
    } else if pairs[0].0 == key {
        Option::Some(pairs[0].1)
    } else {
        assoc_first(pairs.drop_first(), key)
    }
}

/// Renders an aggregate to the name emitted in SQL.
pub fn aggregate_to_string(agg: &Aggregate) -> (r: String)
    ensures
        r@ == spec_aggregate_name(agg@),
{
    match agg {
        Aggregate::SingleAggregate(name) => name.clone(),
        Aggregate::MultiAggregate(name, _args) => name.clone(),
    }
}

/// Renders a sort direction to its SQL keyword.
pub fn sort_dir_to_string(dir: &SortDir) -> (r: &'static str)
    ensures
        r@ == spec_sort_dir_str(*dir),
{
    match dir {
        SortDir::NoSort => "",
        SortDir::Asc | SortDir::ColAsc | SortDir::AscAbs | SortDir::ColAscAbs => "ASC",
        SortDir::Desc | SortDir::ColDesc | SortDir::DescAbs | SortDir::ColDescAbs => "DESC",
    }
}

/// Whether a direction is one of the column-sorting variants.
pub fn is_col_sort(dir: &SortDir) -> (r: bool)
    ensures
        r == spec_is_col_sort(*dir),
{
    match dir {
        SortDir::ColAsc | SortDir::ColDesc | SortDir::ColAscAbs | SortDir::ColDescAbs => true,
        _ => false,
    }
}

/// Whether a direction produces row `ORDER BY` entries.
pub fn is_row_sort(dir: &SortDir) -> (r: bool)
    ensures
        r == spec_is_row_sort(*dir),
{
    match dir {
        SortDir::NoSort => false,
        _ => !is_col_sort(dir),
    }
}

} // verus!
