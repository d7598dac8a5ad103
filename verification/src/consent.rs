//! The consent gate.
//!
//! The presence-gated gate decides, per authorization attempt, whether the
//! resource owner has authorized it: the owner must be on file and
//! provisioned, a presence signal must be on file and ready, and the
//! request's explicit allow flag must be set.  The presence signal is
//! consumed by one atomic read-and-delete whatever the outcome past that
//! point, so the decision applies to exactly the request that triggered it.

use vstd::prelude::*;

use crate::error::AuthError;
use crate::presence::OwnerDirectory;
use crate::presence::OwnerRecord;
use crate::presence::PresenceStore;
use crate::presence::lemma_find_key_in_range;
use crate::presence::lemma_find_owner_in_range;
use crate::presence::lemma_no_key_no_find;
use crate::presence::spec_find_key;
use crate::presence::spec_find_owner;

verus! {

/// What the presence-gated consent decision yields on the given owner
/// directory and presence entries, and the presence entries it leaves
/// behind.  The signal is consumed exactly when the owner is known and
/// provisioned and a signal is present, whatever the flag or the allow
/// parameter then say.
pub open spec fn spec_decide(
    owners: Seq<OwnerRecord>,
    entries: Seq<(i32, bool)>,
    owner_id: int,
    allow: bool,
) -> (Result<int, AuthError>, Seq<(i32, bool)>) {
    match spec_find_owner(owners, owner_id) {
        None => (Err(AuthError::OwnerNotFound), entries),
        Some(oi) => if !owners[oi].activated {
            (Err(AuthError::OwnerNotActivated), entries)
        } else {
            match spec_find_key(entries, owner_id) {
                None => (Err(AuthError::PresenceNotRecorded), entries),
                Some(pi) => {
                    let rest = entries.remove(pi);
                    if !entries[pi].1 {
                        (Err(AuthError::PresenceNotReady), rest)
                    } else if !allow {
                        (Err(AuthError::ConsentDenied), rest)
                    } else {
                        (Ok(owner_id), rest)
                    }
                },
            }
        },
    }
}

/// The presence-gated consent decision.  Resolves the owner, consumes the
/// owner's presence signal by one atomic read-and-delete, and authorizes
/// exactly when the owner is provisioned, the signal was ready, and the
/// request allows.
pub fn decide(
    owners: &OwnerDirectory,
    presence: &mut PresenceStore,
    owner_id: i32,
    allow: bool,
) -> (r: Result<i32, AuthError>)
    requires
        old(presence).wf(),
    ensures
        final(presence).wf(),
        ({
            let (sr, sentries) = spec_decide(
                owners.owners@,
                old(presence).entries@,
                owner_id as int,
                allow,
            );
            &&& final(presence).entries@ == sentries
            &&& match r {
                Ok(o) => sr == Ok::<int, AuthError>(o as int),
                Err(e) => sr == Err::<int, AuthError>(e),
            }
        }),
{
    let owner = match owners.find(owner_id) {
        Some(o) => o,
        None => {
            return Err(AuthError::OwnerNotFound);
        },
    };
    proof {
        lemma_find_owner_in_range(owners.owners@, owner_id as int, 0);
    }
    if !owner.activated {
        return Err(AuthError::OwnerNotActivated);
    }
    proof {
        lemma_find_key_in_range(presence.entries@, owner_id as int, 0);
    }
    let ready = match presence.getdel(owner_id) {
        Some(flag) => flag,
        None => {
            return Err(AuthError::PresenceNotRecorded);
        },
    };
    if !ready {
        return Err(AuthError::PresenceNotReady);
    }
    if !allow {
        return Err(AuthError::ConsentDenied);
    }
    Ok(owner_id)
}

/// An unprovisioned owner is turned away with `OwnerNotActivated` before
/// the presence store is consulted, whatever signals it holds; every
/// entry, ready or not, stays untouched.
pub proof fn lemma_unactivated_owner_turned_away(
    owners: Seq<OwnerRecord>,
    entries: Seq<(i32, bool)>,
    owner_id: int,
    allow: bool,
)
    requires
        spec_find_owner(owners, owner_id) matches Some(oi) && !owners[oi].activated,
    ensures
        spec_decide(owners, entries, owner_id, allow).0 == Err::<int, AuthError>(
            AuthError::OwnerNotActivated,
        ),
        spec_decide(owners, entries, owner_id, allow).1 == entries,
{
}

/// Presence consumption is exactly-once: whenever one gate evaluation
/// consumed the signal (it got past the owner checks and found a signal
/// present), a second evaluation for the same owner finds no signal and
/// yields `PresenceNotRecorded`, whatever its allow parameter.
pub proof fn lemma_presence_exactly_once(
    owners: Seq<OwnerRecord>,
    entries: Seq<(i32, bool)>,
    owner_id: int,
    allow1: bool,
    allow2: bool,
)
    requires
        forall|i: int, j: int|
            0 <= i < j < entries.len() ==> (#[trigger] entries[i].0) != (#[trigger] entries[j].0),
        spec_find_owner(owners, owner_id) matches Some(oi) && owners[oi].activated,
        spec_find_key(entries, owner_id) is Some,
    ensures
        spec_decide(
            owners,
            spec_decide(owners, entries, owner_id, allow1).1,
            owner_id,
            allow2,
        ).0 == Err::<int, AuthError>(AuthError::PresenceNotRecorded),
        spec_decide(
            owners,
            spec_decide(owners, entries, owner_id, allow1).1,
            owner_id,
            allow2,
        ).1 == spec_decide(owners, entries, owner_id, allow1).1,
{
    let pi = spec_find_key(entries, owner_id).unwrap();
    lemma_find_key_in_range(entries, owner_id, 0);
    let rest = entries.remove(pi);
    entries.remove_ensures(pi);
    assert forall|k: int| 0 <= k < rest.len() implies (#[trigger] rest[k].0) != owner_id by {
        if k < pi {
            assert(rest[k] == entries[k]);
            assert(entries[k].0 != entries[pi].0);
        } else {
            assert(rest[k] == entries[k + 1]);
            assert(entries[pi].0 != entries[k + 1].0);
        }
    }
    lemma_no_key_no_find(rest, owner_id, 0);
    assert(spec_decide(owners, entries, owner_id, allow1).1 == rest);
}

} // verus!
