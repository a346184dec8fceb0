//! A read-only query layer over a key-value store of linked character records.
//!
//! The crate performs no I/O. Every operation that needs the store is a small
//! state machine: it names the request to perform, takes the store's reply and
//! either names the next request or ends with a result. The caller owns the
//! connection and runs the loop.
//!
//! - One character: `QueryRoot::hero`, `QueryRoot::human` and
//!   `QueryRoot::droid` begin a `Lookup`. The record it ends with is shown by
//!   `Character::from_record`, or by `Human::new` or `Droid::new`, which show
//!   nothing of a record of the other kind.
//! - The friends of a character: `Human::friends` and `Droid::friends` begin
//!   a `Fanout`, which hands out one `Lookup` for each distinct friend and
//!   gives the friends in the order in which they are named.
//! - All characters of one kind: a `Scan` gives the records, `order_by_id`
//!   puts them in a fixed order, and `QueryRoot::humans` and
//!   `QueryRoot::droids` cut the page that the pagination arguments select.

pub mod connection;
pub mod decimal;
pub mod error;
pub mod fanout;
pub mod lookup;
pub mod models;
pub mod order;
pub mod query;
pub mod scan;
pub mod store;

pub use connection::{paginate, query_characters, Connection, Edge, PageArguments};
pub use error::QueryError;
pub use fanout::{Fanout, Task, Turn, MAX_IN_FLIGHT};
pub use lookup::{Lookup, Progress};
pub use models::{Character, Droid, Episode, Human, StarWarsChar};
pub use order::order_by_id;
pub use query::QueryRoot;
pub use scan::{collect, Scan, ScanProgress, ScanReport};
pub use store::{Fetched, Reply, Request};
