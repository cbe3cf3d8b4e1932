//! A type-erased object model for the elements of a document tree.
//!
//! Every element kind is described by one [`vtable::ContentVtable`]: plain
//! metadata, one [`vtable::FieldVtable`] per field, and the data that drives
//! the element-wide operations. Records of all kinds share one representation,
//! [`raw::RawContent`], and are only ever operated on through a
//! [`handle::Handle`], which pairs a record with the table of its own kind.

pub mod text;
pub mod value;
pub mod raw;
pub mod styles;
pub mod hooks;
pub mod vtable;
pub mod handle;
pub mod registry;
