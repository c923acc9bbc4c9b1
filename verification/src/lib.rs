//! Configuration, policy and rendering logic of the NASty storage engine.
use vstd::prelude::*;

pub mod alerts;
pub mod backup;
pub mod dependents;
pub mod ids;
pub mod passthrough;
pub mod protocol;
pub mod rclone;
pub mod rpc_policy;
pub mod scan;
pub mod smb;
pub mod smb_accounts;
pub mod sorting;
pub mod text;
pub mod update;
pub mod usage;

verus! {
}
