//! Keeps i3 workspaces on the monitor they belong to across monitor hotplugs.
//!
//! The library holds the verified core: the output probe over an enumerated
//! output list, the workspace store and its reconciliation rule, the replay
//! plan that restores placement and focus, the display layout arguments and
//! the positional directive parser.
use vstd::prelude::*;

pub mod config;
pub mod hotplug;
pub mod monitor;
pub mod store;
pub mod layout;
pub mod lemmas;
pub mod replay;

verus! {

} // verus!
