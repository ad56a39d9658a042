//! Core primitives of a small message-broker pipeline.
//!
//! The heart of the crate is [`ring_buffer`], a bounded single-producer /
//! single-consumer FIFO queue over a power-of-two slot array, whose push/pop
//! protocol is verified against a sequence model. [`topic_registry`] is the
//! accompanying directory service that maps topic names to partitions and
//! assigns keys to partitions by hashing.

pub mod ring_buffer;
pub mod topic_registry;
