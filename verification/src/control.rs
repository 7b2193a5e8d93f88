//! Container lifecycle control decisions.
//!
//! Starting, stopping or restarting a container is a one-shot command
//! invocation; here live the decisions which subcommand runs and how
//! long it may take, while the application owns the process call.

use vstd::prelude::*;
use crate::models::{ContainerAction, LogsParams};

verus! {

/// Deadline in seconds for one container action: stopping waits for
/// the container to shut down, restarting for a stop plus a start.
pub open spec fn spec_action_timeout_secs(a: ContainerAction) -> u64 {
    match a {
        ContainerAction::Stop => 30,
        ContainerAction::Restart => 45,
        _ => 10,
    }
}

/// The subcommand one container action runs.
pub fn container_action_command(a: &ContainerAction) -> (r: &'static str)
    ensures
        match a {
            ContainerAction::Start => r@ == "start"@,
            ContainerAction::Stop => r@ == "stop"@,
            ContainerAction::Restart => r@ == "restart"@,
            ContainerAction::Pause => r@ == "pause"@,
            ContainerAction::Unpause => r@ == "unpause"@,
        },
{
    match a {
        ContainerAction::Start => "start",
        ContainerAction::Stop => "stop",
        ContainerAction::Restart => "restart",
        ContainerAction::Pause => "pause",
        ContainerAction::Unpause => "unpause",
    }
}

pub fn container_action_timeout_secs(a: &ContainerAction) -> (r: u64)
    ensures
        r == spec_action_timeout_secs(*a),
{
    match a {
        ContainerAction::Stop => 30,
        ContainerAction::Restart => 45,
        _ => 10,
    }
}

/// How many log lines a query asks for when it does not say.
pub fn logs_tail_or_default(p: &LogsParams) -> (r: usize)
    ensures
        r == (match p.tail {
            Some(t) => t,
            None => 100usize,
        }),
{
    match p.tail {
        Some(t) => t,
        None => 100,
    }
}

} // verus!
