//! Ring positions for partition keys: the strategies by which a cluster
//! places a row on its token ring, their tokens, and the registry that finds
//! a strategy by the class name that the cluster reports.

pub mod decimal;
pub mod error;
pub mod murmur3;
pub mod partitioner;
pub mod random;
pub mod registry;

pub use crate::error::{ParseError, UnknownPartitioner};
pub use crate::murmur3::{Murmur3Partitioner, Murmur3Token};
pub use crate::partitioner::{Partitioner, Token};
pub use crate::random::{RandomPartitioner, RandomToken};
pub use crate::registry::{resolve, RingToken, Strategy};
