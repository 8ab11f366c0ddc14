//! Web archives: packing a directory tree of web assets into one sorted,
//! content-addressed archive and serving it over HTTP.
//!
//! The crate holds the archive's data model and every decision taken while
//! creating an archive or answering a request. Reading and writing the
//! container on disk, walking the filesystem and talking to sockets are left
//! to the program built around it.

pub mod create;
pub mod entry;
pub mod error;
pub mod properties;
pub mod range;
pub mod response;
pub mod serve;
pub mod text;
pub mod url;
pub mod waj;
pub mod walk;

pub use crate::entry::{CommonEntry, CommonPart, Content, Entry, EntryType, Redirect};
pub use crate::properties::{AllProperties, Property};
pub use crate::serve::handler::WajServer;
pub use crate::serve::router::{HostRouter, Router, Server, SubPathRouter};
pub use crate::waj::{Comparator, EntryCompare, Waj};

use vstd::prelude::*;

verus! {

/// The identifier under which this crate signs the packs it writes.
pub const VENDOR_ID: u32 = 0x6a_69_6d_00;

} // verus!
