//! Suspended stateful computations that are built by sequencing steps and
//! then driven once.
//!
//! Four shapes share one design: a computation is a boxed single-use
//! [`step::Step`] whose contract relates an input to the outputs that running
//! it may give, and `and_then` builds a new step out of a computation and a
//! step constructor. Each shape describes its computations by a relation over
//! mathematical values and proves its sequencing laws over those relations.
pub mod step;
pub mod state;
pub mod stateeither;
pub mod stateresult;
pub mod nomparser;
