//! A capacity-bounded membership registry.
//!
//! The registry owns an ordered collection of member identifiers, hard-capped
//! at two concurrent members, and mutated through three operations: a
//! privileged authority may add or remove any member, and a signed caller may
//! remove itself. Every operation either fully commits or leaves the set
//! unchanged, reporting which precondition failed.
//!
//! The member set is kept strictly sorted: `add_member` inserts at the sorted
//! position, so the ordered search that the removal operations use always
//! finds a present member. Strictness also keeps the identifiers distinct.

pub mod model;
pub mod registry;
pub mod laws;

pub use model::MemberId;
pub use registry::Error;
pub use registry::Event;
pub use registry::Origin;
pub use registry::Registry;
