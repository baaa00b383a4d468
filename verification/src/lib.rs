//! A stateless compiler from pivot-table view specifications to SQL text.
//!
//! The library turns a declarative description of a view over a named
//! source table (row groupings, column splits, per-column aggregates,
//! filters and sorts) into a single SQL string for an engine that
//! supports `ROLLUP`, grouping-bit functions, lateral `PIVOT` and named
//! `WINDOW` clauses.  Every emitted string is pinned down exactly by the
//! specification functions that the contracts refer to, and the general
//! properties of the emitted text are proved in `laws`.

mod config;
mod laws;
mod model;
mod schema_map;
mod table_make_view;
mod text;

pub use config::Aggregate;
pub use config::ColumnType;
pub use config::Filter;
pub use config::FilterTerm;
pub use config::Scalar;
pub use config::Sort;
pub use config::SortDir;
pub use config::ViewConfig;
pub use config::ViewPort;
pub use config::aggregate_to_string;
pub use config::is_col_sort;
pub use config::is_row_sort;
pub use config::sort_dir_to_string;
pub use model::GenericSQLError;
pub use model::GenericSQLResult;
pub use model::GenericSQLVirtualServerModel;
pub use model::GenericSQLVirtualServerModelArgs;
