//! Display-layout daemon core: reconstructs output snapshots from streamed
//! protocol events, selects the best-matching profile for the attached
//! hardware, and resolves profile-relative placement rules into absolute
//! pixel geometry.

pub mod applier;
pub mod catalog;
pub mod daemon;
pub mod geometry;
pub mod input;
pub mod layout;
pub mod output;
pub mod ordering;
pub mod position_tree;
pub mod profile;
pub mod sync;
