//! buckets: throwaway runtime environments for AI agents, as a verified
//! library. See the README for the layout.
use vstd::prelude::*;

pub mod bucketfile;
pub mod cellar;
pub mod config;
pub mod env;
pub mod gui;
pub mod herd;
pub mod inventory;
pub mod keyed;
pub mod launch;
pub mod net;
pub mod paths;
pub mod project;
pub mod sandbox;
pub mod session;
pub mod site;
pub mod text;
pub mod types;
pub mod version;
pub mod worktree;

verus! {

} // verus!
