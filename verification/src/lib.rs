//! Credentialed statistics sync: the decisions of a client that keeps a
//! renewable credential, plans requests against a document store and two
//! video platforms, and folds the replies into per-channel aggregates.
//!
//! Apart from reading the clock, nothing here performs I/O. Callers send the
//! requests this crate plans and hand back what came of them as plain values.
//!
//! - [`credential`]: the credential, its refresh margin, sign-in and refresh,
//!   and its stored record.
//! - [`fanout`]: the bounded window over a batch of legs, and the
//!   all-or-nothing and the tolerant reading of their outcomes.
//! - [`aggregate`]: timestamp index, mean and peak, and the pair of figures.
//! - [`store`] and [`platform`]: the requests for each endpoint and what
//!   their replies amount to.
//! - [`request`], [`time`], [`decimal`], [`error`]: requests and URLs,
//!   instants and their text, decimal numerals, and failures.

pub mod aggregate;
pub mod credential;
pub mod decimal;
pub mod error;
pub mod fanout;
pub mod platform;
pub mod request;
pub mod store;
pub mod time;
