//! The decisions of a tool that inspects the disks of a Windows machine and
//! prepares one of them to be overwritten: which disk may be a target, whether
//! Windows is using it, what an overwrite would do, and whether an operator has
//! confirmed it.
//!
//! Nothing here touches a disk, a process or a file. What needs the outside is
//! either taken as a value, or is a machine that says what to do next and is
//! told how that went.
use vstd::prelude::*;

pub mod args;
pub mod eligibility;
pub mod inventory;
pub mod paths;
pub mod plan;
pub mod powershell;
pub mod preflight;
pub mod protection;
pub mod raw_write;
pub mod report;
pub mod session;
pub mod text;
pub mod usage;
pub mod volume_lock;

verus! {

}
