//! Rules of waiting for objects in void storage, and of reading propagations.

use vstd::prelude::*;
use vstd::string::*;

use crate::error::AtomError;
use crate::ids::Uuid;
use crate::message::{EmissionId, Transmission};

verus! {

/// How long one look for a message may wait, in milliseconds.
pub const LONG_POLL_TIMEOUT_MS: u64 = 30_000;

/// The longest pause between two looks, in nanoseconds.
pub const POLL_PAUSE_NS: u128 = 1_000_000_000;

/// Whether a wait of `timeout_ms` looks at all.
pub fn may_wait(timeout_ms: u64) -> (may: bool)
    ensures
        may == (timeout_ms != 0),
{
    timeout_ms != 0
}

/// How long to pause after a look that found nothing at `now`, or nothing once
/// the deadline has come. Both are nanoseconds on one clock.
pub fn pause_before_retry(now: u128, deadline: u128) -> (pause: Option<u128>)
    ensures
        pause is None <==> now >= deadline,
        pause matches Some(pause) ==> pause == if deadline - now < POLL_PAUSE_NS {
            deadline - now
        } else {
            POLL_PAUSE_NS as int
        },
        pause matches Some(pause) ==> 0 < pause && now + pause <= deadline,
{
    if now >= deadline {
        None
    } else if deadline - now < POLL_PAUSE_NS {
        Some(deadline - now)
    } else {
        Some(POLL_PAUSE_NS)
    }
}

/// What a long wait makes of one look: the bytes that came, or `None` to look
/// again, whether the look timed out or failed.
pub fn arrived(look: Result<Option<Vec<u8>>, String>) -> (bytes: Option<Vec<u8>>)
    ensures
        bytes == match look {
            Ok(found) => found,
            Err(_) => None,
        },
{
    match look {
        Ok(found) => found,
        Err(_) => None,
    }
}

/// The propagation of an emission that has no mailboxes yet.
pub fn propagation_of(emission_id: EmissionId) -> (transmission: Transmission)
    ensures
        transmission == (Transmission::Propagation {
            emission_id,
            recv: Uuid::spec_nil(),
            send: Uuid::spec_nil(),
        }),
{
    Transmission::Propagation { emission_id, recv: Uuid::nil(), send: Uuid::nil() }
}

impl Transmission {
    /// The emission of a propagation.
    pub fn propagation_emission_id(&self) -> (result: Result<EmissionId, AtomError>)
        ensures
            match *self {
                Transmission::Propagation { emission_id, .. } => result == Ok::<
                    EmissionId,
                    AtomError,
                >(emission_id),
                Transmission::Potentiation { .. } => result is Err && result->Err_0 is Transmission
                    && result->Err_0.cause() == "expected propagation transmission"@,
            },
    {
        match self {
            Transmission::Propagation { emission_id, .. } => Ok(*emission_id),
            Transmission::Potentiation { .. } => Err(
                AtomError::Transmission("expected propagation transmission".to_owned()),
            ),
        }
    }
}

/// A wait ends: the pauses before a deadline leave less and less of it.
pub proof fn law_waits_end(now: u128, deadline: u128, pause: u128, later: u128)
    requires
        now < deadline,
        pause == if deadline - now < POLL_PAUSE_NS {
            deadline - now
        } else {
            POLL_PAUSE_NS as int
        },
        later >= now + pause,
    ensures
        deadline - later < deadline - now,
        later >= deadline || deadline - later <= deadline - now - POLL_PAUSE_NS,
{
}

/// A look that found nothing is followed by another after a pause of at most a
/// second, which does not pass the deadline; at the deadline the wait ends. What
/// a look found is what came, and a failed look is repeated.
pub proof fn law_waits_look_again_until_the_deadline(
    now: u128,
    deadline: u128,
    pause: Option<u128>,
    bytes: Vec<u8>,
    cause: String,
    came: Option<Vec<u8>>,
    nothing: Option<Vec<u8>>,
    failed: Option<Vec<u8>>,
)
    requires
        call_ensures(pause_before_retry, (now, deadline), pause),
        call_ensures(arrived, (Ok::<Option<Vec<u8>>, String>(Some(bytes)),), came),
        call_ensures(arrived, (Ok::<Option<Vec<u8>>, String>(None),), nothing),
        call_ensures(arrived, (Err::<Option<Vec<u8>>, String>(cause),), failed),
    ensures
        now >= deadline <==> pause is None,
        pause matches Some(pause) ==> 0 < pause <= 1_000_000_000 && now + pause <= deadline,
        now + 1_000_000_000 <= deadline ==> pause == Some(1_000_000_000u128),
        came == Some(bytes),
        nothing is None,
        failed is None,
{
}

} // verus!
