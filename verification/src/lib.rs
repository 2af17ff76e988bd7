//! A growable, ordered, owned sequence container with an explicit
//! capacity-growth policy.
//!
//! The heart of the crate is [`sequence::GrowableSequence`], a contiguous
//! sequence of elements that tracks a logical capacity alongside its length.
//! Appending to a full container grows the capacity by a fixed, documented
//! policy (see [`growth`]), capacity never shrinks except through an explicit
//! compaction request, and every operation carries a contract that pins down
//! the resulting elements and capacity.

pub mod coffee;
pub mod growth;
pub mod laws;
pub mod sequence;
