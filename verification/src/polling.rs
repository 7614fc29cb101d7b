use vstd::prelude::*;

verus! {

/// Peek-request timeout: a request with no answer for this long may be
/// reissued.
pub const PEEK_REQUEST_TIMEOUT_MILLIS: u64 = 5000;

/// Peek-failure backoff: after a failed peek, wait this long.
pub const PEEK_FAILURE_BACKOFF_MILLIS: u64 = 5000;

/// How peeking the SFU is deduplicated: at most one request in flight, and
/// fresh data is not re-requested. Times are unix milliseconds.
#[derive(Clone, Copy, Debug, PartialEq, Eq, Structural)]
pub enum RemoteDevicesRequestState {
    /// Peeks are blocked until a membership proof arrives.
    WaitingForMembershipProof,
    NeverRequested,
    Requested {
        /// While waiting, something happened that makes us think we should
        /// ask again as soon as this request completes.
        should_request_again: bool,
        at: u64,
    },
    Updated { at: u64 },
    Failed { at: u64 },
}

/// When a new peek is issued: immediately when never requested; after the
/// timeout when one is in flight; when the data is older than `max_age`;
/// after the backoff when the last peek failed; never while waiting for a
/// membership proof.
pub open spec fn spec_should_request_now(
    state: RemoteDevicesRequestState,
    now: u64,
    max_age: u64,
) -> bool {
    match state {
        RemoteDevicesRequestState::WaitingForMembershipProof => false,
        RemoteDevicesRequestState::NeverRequested => true,
        RemoteDevicesRequestState::Requested { at, .. } => now > at + 5000,
        RemoteDevicesRequestState::Updated { at } => now >= at + max_age,
        RemoteDevicesRequestState::Failed { at } => now > at + 5000,
    }
}

/// The request state after one dedup decision: a fresh request when one is
/// due; otherwise, for an as-soon-as-possible ask while one is in flight,
/// the in-flight request is marked to be repeated.
pub open spec fn spec_request_state_after(
    s: RemoteDevicesRequestState,
    now: u64,
    max_age: u64,
    rerequest_if_pending: bool,
) -> RemoteDevicesRequestState {
    if spec_should_request_now(s, now, max_age) {
        RemoteDevicesRequestState::Requested { should_request_again: false, at: now }
    } else if rerequest_if_pending {
        match s {
            RemoteDevicesRequestState::Requested { at, .. } => RemoteDevicesRequestState::Requested {
                should_request_again: true,
                at,
            },
            _ => s,
        }
    } else {
        s
    }
}

pub fn should_request_now(state: &RemoteDevicesRequestState, now: u64, max_age: u64) -> (r: bool)
    ensures
        r == spec_should_request_now(*state, now, max_age),
{
    match state {
        RemoteDevicesRequestState::WaitingForMembershipProof => false,
        RemoteDevicesRequestState::NeverRequested => true,
        RemoteDevicesRequestState::Requested { at, .. } => {
            if now > PEEK_REQUEST_TIMEOUT_MILLIS {
                now - PEEK_REQUEST_TIMEOUT_MILLIS > *at
            } else {
                false
            }
        },
        RemoteDevicesRequestState::Updated { at } => {
            if now >= max_age {
                now - max_age >= *at
            } else {
                false
            }
        },
        RemoteDevicesRequestState::Failed { at } => {
            if now > PEEK_FAILURE_BACKOFF_MILLIS {
                now - PEEK_FAILURE_BACKOFF_MILLIS > *at
            } else {
                false
            }
        },
    }
}

} // verus!
