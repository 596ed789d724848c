//! Round-robin selection over a fixed pool of backend hosts.
//!
//! The pool is an ordered, non-empty list of host identifiers. A shared cursor
//! walks it: every selection hands out the host under the cursor and moves the
//! cursor one step on, back to the first host after the last.
//!
//! - [`cursor`] holds the index arithmetic and what it guarantees of a run of
//!   selections: the cursor stays in the pool, the hosts come in the pool's
//!   order, and every host gets its fair share.
//! - [`selector`] holds the pool and its cursor, [`probe`] the judgement of
//!   the health probe that admits a host to the pool.
//! - [`report`] holds the answers of the health endpoint, [`error`] the
//!   failures and their wording.
//!
//! The cursor is an atomic integer, so that any number of threads may select
//! at once. The update itself is the standard library's and is taken on
//! trust; what the cursor is updated to, and what is made of the value it
//! held, is proved.

pub mod cursor;
pub mod error;
pub mod http_status;
pub mod probe;
pub mod report;
pub mod selector;
pub mod text;
