//! The vesting state machine: one lock, then up to five yearly releases.

use crate::amount::Amount;
use vstd::prelude::*;

verus! {

/// One year of 365 days, in seconds: a release needs more than this since the last one.
pub const YEAR_IN_SECONDS: u64 = 365 * 24 * 60 * 60;

/// How many tranches the locked amount is released in.
pub const MAX_UNLOCKS: u64 = 5;

/// Why a request was rejected. A rejected request changes nothing.
#[derive(Clone, Copy, Debug, PartialEq, Eq, Structural)]
pub enum VestingError {
    /// The caller is not the owner.
    Unauthorized,
    /// Tokens were locked already.
    AlreadyLocked,
    /// The deposit was empty.
    ZeroAmount,
    /// No tokens were locked yet.
    NotLocked,
    /// Less than a full year has passed since the last lock or release.
    TooEarly,
    /// All five tranches were released already.
    ScheduleExhausted,
}

impl VestingError {
    /// The message that the host shows to the caller.
    pub fn message(&self) -> (r: &'static str) {
        match self {
            VestingError::Unauthorized => "Endpoint can only be called by owner",
            VestingError::AlreadyLocked => "Tokens already locked",
            VestingError::ZeroAmount => "Cannot lock 0 tokens",
            VestingError::NotLocked => "Tokens not locked",
            VestingError::TooEarly => "Tokens can only be unlocked once a year",
            VestingError::ScheduleExhausted => "Tokens have already been unlocked 5 times",
        }
    }
}

/// The persisted record, as mathematical values.
pub struct VestingState {
    /// The account allowed to lock and unlock.
    pub owner: Seq<u8>,
    /// The locked token, set by the lock.
    pub token: Option<Seq<u8>>,
    /// The amount deposited by the lock.
    pub lock_amount: nat,
    /// How many tranches were released.
    pub times_unlocked: nat,
    /// When the tokens were locked or last released; 0 while nothing is locked.
    pub last_unlock: nat,
}

impl VestingState {
    /// The record of a module deployed for `owner`, before any lock.
    pub open spec fn initial(owner: Seq<u8>) -> VestingState {
        VestingState { owner, token: None, lock_amount: 0, times_unlocked: 0, last_unlock: 0 }
    }

    /// Whether tokens are locked.
    pub open spec fn is_locked(self) -> bool {
        self.last_unlock != 0
    }

    /// The well-formedness of a record: the schedule is bounded, nothing is
    /// released before a lock, and a lock has recorded its token.
    pub open spec fn valid(self) -> bool {
        &&& self.times_unlocked <= MAX_UNLOCKS
        &&& !self.is_locked() ==> self.times_unlocked == 0
        &&& self.is_locked() ==> self.token is Some
    }

    /// The amount that each release hands out.
    pub open spec fn tranche(self) -> nat {
        self.lock_amount / (MAX_UNLOCKS as nat)
    }

    /// Whether more than a year separates `now` from the last lock or release.
    pub open spec fn year_elapsed(self, now: nat) -> bool {
        now - self.last_unlock > YEAR_IN_SECONDS
    }

    /// The record after a lock request, and its answer.
    pub open spec fn lock_step(self, caller: Seq<u8>, token: Seq<u8>, amount: nat, now: nat) -> (
        VestingState,
        Result<(), VestingError>,
    ) {
        if caller != self.owner {
            (self, Err(VestingError::Unauthorized))
        } else if self.is_locked() {
            (self, Err(VestingError::AlreadyLocked))
        } else if amount == 0 {
            (self, Err(VestingError::ZeroAmount))
        } else {
            (VestingState { token: Some(token), lock_amount: amount, last_unlock: now, ..self }, Ok(()))
        }
    }

    /// The record after an unlock request, and its answer: on success, the
    /// amount sent to the owner.
    pub open spec fn unlock_step(self, caller: Seq<u8>, now: nat) -> (
        VestingState,
        Result<nat, VestingError>,
    ) {
        if caller != self.owner {
            (self, Err(VestingError::Unauthorized))
        } else if !self.is_locked() {
            (self, Err(VestingError::NotLocked))
        } else if !self.year_elapsed(now) {
            (self, Err(VestingError::TooEarly))
        } else if self.times_unlocked >= MAX_UNLOCKS {
            (self, Err(VestingError::ScheduleExhausted))
        } else {
            (
                VestingState { times_unlocked: self.times_unlocked + 1, last_unlock: now, ..self },
                Ok(self.tranche()),
            )
        }
    }
}

/// What the host is told to send after a successful unlock.
#[derive(Debug)]
pub struct Release {
    /// The receiving account.
    pub to: Vec<u8>,
    /// The token sent.
    pub token: Vec<u8>,
    /// The amount sent.
    pub amount: Amount,
}

/// The vesting module's persisted record.
#[derive(Debug)]
pub struct VestingRecord {
    owner: Vec<u8>,
    token: Option<Vec<u8>>,
    lock_amount: Amount,
    times_unlocked: u64,
    last_unlock: u64,
}

/// Whether two account addresses are the same.
fn same_account(a: &Vec<u8>, b: &Vec<u8>) -> (r: bool)
    ensures
        r == (a@ == b@),
{
    if a.len() != b.len() {
        return false;
    }
    let mut i: usize = 0;
    while i < a.len()
        invariant
            a.len() == b.len(),
            i <= a.len(),
            forall|j: int| 0 <= j < i ==> a@[j] == b@[j],
        decreases a.len() - i,
    {
        if a[i] != b[i] {
            return false;
        }
        i += 1;
    }
    assert(a@ =~= b@);
    true
}

/// A copy of a byte string.
fn copy_bytes(b: &Vec<u8>) -> (r: Vec<u8>)
    ensures
        r@ == b@,
{
    let mut r: Vec<u8> = Vec::new();
    let mut i: usize = 0;
    while i < b.len()
        invariant
            i <= b.len(),
            r@ == b@.take(i as int),
        decreases b.len() - i,
    {
        r.push(b[i]);
        i += 1;
        assert(r@ =~= b@.take(i as int));
    }
    assert(b@.take(i as int) =~= b@);
    r
}

impl VestingRecord {
    /// The record as mathematical values.
    pub closed spec fn view(&self) -> VestingState {
        VestingState {
            owner: self.owner@,
            token: match self.token {
                Some(t) => Some(t@),
                None => None,
            },
            lock_amount: self.lock_amount@,
            times_unlocked: self.times_unlocked as nat,
            last_unlock: self.last_unlock as nat,
        }
    }

    /// A module deployed by `owner`: nothing locked, nothing released.
    pub fn init(owner: Vec<u8>) -> (r: VestingRecord)
        ensures
            r@ == VestingState::initial(owner@),
    {
        let zero = Amount::from_be_bytes(Vec::new());
        VestingRecord { owner, token: None, lock_amount: zero, times_unlocked: 0, last_unlock: 0 }
    }

    /// A record read back from storage, when it is well-formed.
    pub fn restore(
        owner: Vec<u8>,
        token: Option<Vec<u8>>,
        lock_amount: Amount,
        times_unlocked: u64,
        last_unlock: u64,
    ) -> (r: Option<VestingRecord>)
        ensures
            ({
                let s = VestingState {
                    owner: owner@,
                    token: match token {
                        Some(t) => Some(t@),
                        None => None,
                    },
                    lock_amount: lock_amount@,
                    times_unlocked: times_unlocked as nat,
                    last_unlock: last_unlock as nat,
                };
                &&& r is Some <==> s.valid()
                &&& r matches Some(l) ==> l@ == s
            }),
    {
        if times_unlocked > MAX_UNLOCKS {
            return None;
        }
        if last_unlock == 0 && times_unlocked != 0 {
            return None;
        }
        if last_unlock != 0 && token.is_none() {
            return None;
        }
        Some(VestingRecord { owner, token, lock_amount, times_unlocked, last_unlock })
    }

    /// A copy of this record.
    pub fn duplicate(&self) -> (r: VestingRecord)
        ensures
            r@ == self@,
    {
        let token = match &self.token {
            Some(t) => Some(copy_bytes(t)),
            None => None,
        };
        VestingRecord {
            owner: copy_bytes(&self.owner),
            token,
            lock_amount: Amount::from_be_bytes(self.lock_amount.to_be_bytes()),
            times_unlocked: self.times_unlocked,
            last_unlock: self.last_unlock,
        }
    }

    /// The account allowed to lock and unlock.
    pub fn owner(&self) -> (r: &Vec<u8>)
        ensures
            r@ == self@.owner,
    {
        &self.owner
    }

    /// The locked token, once a lock has set it.
    pub fn token(&self) -> (r: &Option<Vec<u8>>)
        ensures
            match r {
                Some(t) => self@.token == Some(t@),
                None => self@.token is None,
            },
    {
        &self.token
    }

    /// The amount deposited by the lock.
    pub fn lock_amount(&self) -> (r: &Amount)
        ensures
            r@ == self@.lock_amount,
    {
        &self.lock_amount
    }

    /// How many tranches were released.
    pub fn times_unlocked(&self) -> (r: u64)
        ensures
            r == self@.times_unlocked,
    {
        self.times_unlocked
    }

    /// When the tokens were locked or last released; 0 while nothing is locked.
    pub fn last_unlock(&self) -> (r: u64)
        ensures
            r == self@.last_unlock,
    {
        self.last_unlock
    }

    /// Locks `amount` of `token`, deposited by `caller` at time `now`.
    ///
    /// Only the owner may lock, only once, and only a positive amount; the
    /// owner check comes first. A rejected request changes nothing.
    pub fn lock(&mut self, caller: &Vec<u8>, token: Vec<u8>, amount: Amount, now: u64) -> (r:
        Result<(), VestingError>)
        requires
            old(self)@.valid(),
        ensures
            (final(self)@, r) == old(self)@.lock_step(caller@, token@, amount@, now as nat),
            final(self)@.valid(),
    {
        if !same_account(caller, &self.owner) {
            return Err(VestingError::Unauthorized);
        }
        if self.last_unlock != 0 {
            return Err(VestingError::AlreadyLocked);
        }
        if amount.is_zero() {
            return Err(VestingError::ZeroAmount);
        }
        self.token = Some(token);
        self.last_unlock = now;
        self.lock_amount = amount;
        Ok(())
    }

    /// Releases one tranche to the owner at time `now`.
    ///
    /// Checked in order: the caller is the owner, tokens are locked, more
    /// than a year has passed since the lock or the last release, and fewer
    /// than five tranches went out. On success the tranche is a fifth of the
    /// locked amount, rounded down, and the returned release tells the host
    /// what to send. A rejected request changes nothing.
    pub fn unlock(&mut self, caller: &Vec<u8>, now: u64) -> (r: Result<Release, VestingError>)
        requires
            old(self)@.valid(),
        ensures
            final(self)@ == old(self)@.unlock_step(caller@, now as nat).0,
            final(self)@.valid(),
            r is Ok <==> old(self)@.unlock_step(caller@, now as nat).1 is Ok,
            r is Err ==> r->Err_0 == old(self)@.unlock_step(caller@, now as nat).1->Err_0,
            r is Ok ==> {
                &&& r->Ok_0.amount@ == old(self)@.unlock_step(caller@, now as nat).1->Ok_0
                &&& r->Ok_0.amount@ == old(self)@.tranche()
                &&& r->Ok_0.to@ == old(self)@.owner
                &&& Some(r->Ok_0.token@) == old(self)@.token
            },
    {
        if !same_account(caller, &self.owner) {
            return Err(VestingError::Unauthorized);
        }
        if self.last_unlock == 0 {
            return Err(VestingError::NotLocked);
        }
        if now <= self.last_unlock || now - self.last_unlock <= YEAR_IN_SECONDS {
            return Err(VestingError::TooEarly);
        }
        if self.times_unlocked >= MAX_UNLOCKS {
            return Err(VestingError::ScheduleExhausted);
        }
        let unlock_amount = self.lock_amount.div_small(MAX_UNLOCKS as u8);
        let token = match &self.token {
            Some(t) => copy_bytes(t),
            None => {
                proof {
                    assert(false);
                }
                Vec::new()
            },
        };
        self.last_unlock = now;
        self.times_unlocked = self.times_unlocked + 1;
        Ok(Release { to: copy_bytes(&self.owner), token, amount: unlock_amount })
    }
}

/// The module's two endpoints, over a host that stores its record.
///
/// The host supplies `load` and `store`; a rejected request stores nothing.
pub trait VestingLocker {
    /// The record in the host's storage.
    spec fn stored(&self) -> VestingState;

    /// Reads the record from storage.
    fn load(&self) -> (r: VestingRecord)
        ensures
            r@ == self.stored(),
    ;

    /// Writes `record` to storage.
    fn store(&mut self, record: VestingRecord)
        ensures
            final(self).stored() == record@,
    ;

    /// Locks `amount` of `token`, deposited by `caller` at time `now`.
    fn lock_tokens(&mut self, caller: &Vec<u8>, token: Vec<u8>, amount: Amount, now: u64) -> (r:
        Result<(), VestingError>)
        requires
            old(self).stored().valid(),
        ensures
            (final(self).stored(), r) == old(self).stored().lock_step(
                caller@,
                token@,
                amount@,
                now as nat,
            ),
            final(self).stored().valid(),
    {
        let mut record = self.load();
        let r = record.lock(caller, token, amount, now);
        if r.is_ok() {
            self.store(record);
        }
        r
    }

    /// Releases one tranche to the owner at time `now`; the returned release
    /// tells the host what to send.
    fn unlock_tokens(&mut self, caller: &Vec<u8>, now: u64) -> (r: Result<Release, VestingError>)
        requires
            old(self).stored().valid(),
        ensures
            final(self).stored() == old(self).stored().unlock_step(caller@, now as nat).0,
            final(self).stored().valid(),
            r is Ok <==> old(self).stored().unlock_step(caller@, now as nat).1 is Ok,
            r is Err ==> r->Err_0 == old(self).stored().unlock_step(caller@, now as nat).1->Err_0,
            r is Ok ==> {
                &&& r->Ok_0.amount@ == old(self).stored().unlock_step(caller@, now as nat).1->Ok_0
                &&& r->Ok_0.amount@ == old(self).stored().tranche()
                &&& r->Ok_0.to@ == old(self).stored().owner
                &&& Some(r->Ok_0.token@) == old(self).stored().token
            },
    {
        let mut record = self.load();
        let r = record.unlock(caller, now);
        if r.is_ok() {
            self.store(record);
        }
        r
    }
}

/// A record held in memory is its own storage.
impl VestingLocker for VestingRecord {
    open spec fn stored(&self) -> VestingState {
        self@
    }

    fn load(&self) -> (r: VestingRecord) {
        self.duplicate()
    }

    fn store(&mut self, record: VestingRecord) {
        *self = record;
    }
}

} // verus!
