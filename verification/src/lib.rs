//! A typed expression layer for PostgreSQL's `ltree` extension.
//!
//! The library models dot-separated label paths (`ltree`), path pattern
//! queries (`lquery`) and full-text path queries (`ltxtquery`) as statically
//! typed SQL expression fragments.  Expressions of each shape expose exactly
//! the operators and functions that the backend defines for that shape, and
//! compiling an expression yields the SQL text together with its ordered bind
//! parameters, with every bind rendered as `$N` and path values bound as text
//! followed by an explicit cast to `ltree`.

pub mod dsl;
pub mod expr;
pub mod functions;
pub mod sql;
pub mod types;

pub use dsl::LqueryArrayExtensions;
pub use dsl::LqueryExtensions;
pub use dsl::LtreeArrayExtensions;
pub use dsl::LtreeExtensions;
pub use dsl::LtxtqueryExtensions;
pub use expr::Expr;
pub use functions::array;
pub use functions::index;
pub use functions::lca;
pub use functions::lquery;
pub use functions::ltree2text;
pub use functions::ltxtquery;
pub use functions::nlevel;
pub use functions::subltree;
pub use functions::subpath;
pub use functions::text2ltree;
pub use sql::BindParam;
pub use types::Array;
pub use types::Bool;
pub use types::DeserializationError;
pub use types::Int4;
pub use types::Lquery;
pub use types::Ltree;
pub use types::Ltxtquery;
pub use types::Text;
