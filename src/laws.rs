//! What holds of every history of requests made to the module.

use crate::locker::{MAX_UNLOCKS, VestingError, VestingState, YEAR_IN_SECONDS};
use vstd::prelude::*;

verus! {

/// One request to the module, with what the host supplies with it.
pub enum Request {
    Lock { caller: Seq<u8>, token: Seq<u8>, amount: nat, now: nat },
    Unlock { caller: Seq<u8>, now: nat },
}

/// The record after `req`, and the answer: on success, the amount sent out
/// (none for a lock).
pub open spec fn apply(s: VestingState, req: Request) -> (VestingState, Result<nat, VestingError>) {
    match req {
        Request::Lock { caller, token, amount, now } => {
            let (t, r) = s.lock_step(caller, token, amount, now);
            (t, if r is Ok { Ok(0) } else { Err(r->Err_0) })
        },
        Request::Unlock { caller, now } => s.unlock_step(caller, now),
    }
}

/// The record after every request of `reqs`, in order.
pub open spec fn run(s: VestingState, reqs: Seq<Request>) -> VestingState
    decreases reqs.len(),
{
    if reqs.len() == 0 {
        s
    } else {
        apply(run(s, reqs.drop_last()), reqs.last()).0
    }
}

/// The total amount sent out over the requests of `reqs`.
pub open spec fn released(s: VestingState, reqs: Seq<Request>) -> nat
    decreases reqs.len(),
{
    if reqs.len() == 0 {
        0
    } else {
        let sent = match apply(run(s, reqs.drop_last()), reqs.last()).1 {
            Ok(n) => n,
            Err(_) => 0,
        };
        released(s, reqs.drop_last()) + sent
    }
}

/// How many lock requests of `reqs` succeeded.
pub open spec fn successful_locks(s: VestingState, reqs: Seq<Request>) -> nat
    decreases reqs.len(),
{
    if reqs.len() == 0 {
        0
    } else {
        let last = reqs.last();
        let ok = last is Lock && apply(run(s, reqs.drop_last()), last).1 is Ok;
        successful_locks(s, reqs.drop_last()) + if ok { 1nat } else { 0nat }
    }
}

/// Whether every lock request of `reqs` comes at a positive time.
pub open spec fn locks_at_positive_times(reqs: Seq<Request>) -> bool {
    forall|i: int| 0 <= i < reqs.len() ==> (#[trigger] reqs[i] matches Request::Lock { now, .. } ==> now > 0)
}

/// A request never breaks the well-formedness of the record, never lowers the
/// count of releases, and keeps it at most five.
pub proof fn lemma_schedule_monotonic(s: VestingState, req: Request)
    requires
        s.valid(),
    ensures
        apply(s, req).0.valid(),
        s.times_unlocked <= apply(s, req).0.times_unlocked <= MAX_UNLOCKS,
{
}

/// Once five tranches went out, no unlock succeeds, and one that passes the
/// owner, lock and time checks fails with `ScheduleExhausted`.
pub proof fn lemma_schedule_exhausted(s: VestingState, caller: Seq<u8>, now: nat)
    requires
        s.valid(),
        s.times_unlocked == MAX_UNLOCKS,
    ensures
        s.unlock_step(caller, now).1 is Err,
        s.unlock_step(caller, now).0 == s,
        caller == s.owner && s.is_locked() && s.year_elapsed(now) ==> s.unlock_step(caller, now).1
            == Err::<nat, VestingError>(VestingError::ScheduleExhausted),
{
}

/// Every record reached from a fresh module is well-formed.
pub proof fn lemma_run_valid(owner: Seq<u8>, reqs: Seq<Request>)
    ensures
        run(VestingState::initial(owner), reqs).valid(),
    decreases reqs.len(),
{
    if reqs.len() > 0 {
        lemma_run_valid(owner, reqs.drop_last());
        lemma_schedule_monotonic(run(VestingState::initial(owner), reqs.drop_last()), reqs.last());
    }
}

/// An unlock exactly one year after the last lock or release is too early;
/// one second later it succeeds, when the other checks pass.
pub proof fn lemma_time_gate_exact(s: VestingState, caller: Seq<u8>)
    requires
        caller == s.owner,
        s.is_locked(),
        s.times_unlocked < MAX_UNLOCKS,
    ensures
        s.unlock_step(caller, (s.last_unlock + YEAR_IN_SECONDS) as nat).1 == Err::<nat, VestingError>(
            VestingError::TooEarly,
        ),
        s.unlock_step(caller, (s.last_unlock + YEAR_IN_SECONDS + 1) as nat).1 == Ok::<nat, VestingError>(
            s.tranche(),
        ),
{
}

/// A rejected request leaves the record as it was, so repeating it is
/// rejected again with the same error and still changes nothing.
pub proof fn lemma_rejection_idempotent(s: VestingState, req: Request)
    requires
        apply(s, req).1 is Err,
    ensures
        apply(s, req).0 == s,
        apply(apply(s, req).0, req) == apply(s, req),
{
}

/// Over every history of a fresh module, the total sent out equals one
/// tranche per release so far, and never exceeds the locked amount.
pub proof fn lemma_conservation(owner: Seq<u8>, reqs: Seq<Request>)
    ensures
        released(VestingState::initial(owner), reqs) == run(VestingState::initial(owner), reqs).tranche()
            * run(VestingState::initial(owner), reqs).times_unlocked,
        released(VestingState::initial(owner), reqs) <= run(VestingState::initial(owner), reqs).lock_amount,
    decreases reqs.len(),
{
    let s0 = VestingState::initial(owner);
    lemma_run_valid(owner, reqs);
    if reqs.len() > 0 {
        let prefix = reqs.drop_last();
        lemma_conservation(owner, prefix);
        lemma_run_valid(owner, prefix);
        let s = run(s0, prefix);
        let (t, r) = apply(s, reqs.last());
        if r is Ok && reqs.last() is Unlock {
            assert(s.tranche() * s.times_unlocked + s.tranche() == t.tranche() * t.times_unlocked)
                by (nonlinear_arith)
                requires
                    t.tranche() == s.tranche(),
                    t.times_unlocked == s.times_unlocked + 1,
            ;
        } else if r is Ok {
            assert(s.times_unlocked == 0);
            assert(t.times_unlocked == 0);
            assert(s.tranche() * 0 == 0) by (nonlinear_arith);
            assert(t.tranche() * 0 == 0) by (nonlinear_arith);
        }
    }
    let t = run(s0, reqs);
    assert(t.tranche() * t.times_unlocked <= t.lock_amount) by (nonlinear_arith)
        requires
            t.times_unlocked <= 5,
            t.tranche() == t.lock_amount / 5,
    ;
}

/// From a fresh module, whenever every lock request comes at a positive time,
/// at most one lock ever succeeds, and after it every lock by the owner fails
/// with `AlreadyLocked`.
pub proof fn lemma_single_lock(
    owner: Seq<u8>,
    reqs: Seq<Request>,
    token: Seq<u8>,
    amount: nat,
    now: nat,
)
    requires
        locks_at_positive_times(reqs),
    ensures
        successful_locks(VestingState::initial(owner), reqs) <= 1,
        successful_locks(VestingState::initial(owner), reqs) == 1 ==> run(
            VestingState::initial(owner),
            reqs,
        ).lock_step(owner, token, amount, now).1 == Err::<(), VestingError>(
            VestingError::AlreadyLocked,
        ),
{
    lemma_locks_match_locked_state(owner, reqs);
}

/// The count of successful locks is one exactly when the record is locked;
/// the owner never changes.
proof fn lemma_locks_match_locked_state(owner: Seq<u8>, reqs: Seq<Request>)
    requires
        locks_at_positive_times(reqs),
    ensures
        successful_locks(VestingState::initial(owner), reqs) == if run(
            VestingState::initial(owner),
            reqs,
        ).is_locked() {
            1nat
        } else {
            0nat
        },
        run(VestingState::initial(owner), reqs).owner == owner,
    decreases reqs.len(),
{
    if reqs.len() > 0 {
        let prefix = reqs.drop_last();
        assert forall|i: int| 0 <= i < prefix.len() implies (#[trigger] prefix[i] matches Request::Lock {
            now,
            ..
        } ==> now > 0) by {
            assert(prefix[i] == reqs[i]);
        }
        lemma_locks_match_locked_state(owner, prefix);
        assert(reqs[reqs.len() - 1] == reqs.last());
    }
}

} // verus!
