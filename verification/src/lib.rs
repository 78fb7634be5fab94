//! In-memory model of a disk-partition-table ("disklabel") session.
//!
//! The crate mirrors the session model of a partitioning library: a
//! [`Context`] owns a device snapshot, geometry and alignment data, and at
//! most one active label; a [`Partition`] is a detached, label-independent
//! descriptor whose numeric fields are explicitly optional; a [`Table`] is an
//! ordered collection of partitions with an [`Iter`] cursor over it.  All
//! state transitions are specified by contracts and verified; the raw device
//! access that feeds a [`context::DeviceProbe`] is left to the embedding
//! program.

pub mod context;
pub mod errors;
pub mod iter;
pub mod label;
pub mod partition;
pub mod table;

pub use self::context::Context;
pub use self::errors::FdiskError;
pub use self::iter::Iter;
pub use self::label::Label;
pub use self::partition::Partition;
pub use self::table::Table;
