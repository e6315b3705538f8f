//! Balance tracking from REST snapshots and stream updates.
//!
//! As for orders, saving a balance is outside work: the operations that save
//! take the outcome of saving as an argument.
use crate::balance::Balance;
use crate::decimal::Decimal;
use crate::event::BalanceUpdateEvent;
use crate::oms::{outcome_fits, saved_prefix, SaveOutcome};
use crate::text::{join2, owned};
use crate::time::{now, Timestamp};
use vstd::prelude::*;

verus! {

#[derive(Debug, Clone, PartialEq, Eq)]
pub enum BalanceError {
    NotFound(String),
    StorageError(String),
}

/// The text of a balance error.
pub open spec fn balance_error_text(e: BalanceError) -> Seq<char> {
    match e {
        BalanceError::NotFound(m) => "Balance not found for asset: "@ + m@,
        BalanceError::StorageError(m) => "Storage error: "@ + m@,
    }
}

impl BalanceError {
    /// The text of the error.
    pub fn text(&self) -> (t: String)
        ensures
            t@ == balance_error_text(*self),
    {
        match self {
            BalanceError::NotFound(m) => join2("Balance not found for asset: ", m.as_str()),
            BalanceError::StorageError(m) => join2("Storage error: ", m.as_str()),
        }
    }
}

/// `m` with each balance of `s` stored under its asset, in sequence.
pub open spec fn store_all(m: Map<Seq<char>, Balance>, s: Seq<Balance>) -> Map<Seq<char>, Balance>
    decreases s.len(),
{
    if s.len() == 0 {
        m
    } else {
        store_all(m, s.drop_last()).insert(s.last().asset@, s.last())
    }
}

/// The balances of `s` are stored under distinct assets, each as the entry of
/// `m` for its asset, and `m` holds no other key.
pub open spec fn enumerates_balances(s: Seq<Balance>, m: Map<Seq<char>, Balance>) -> bool {
    &&& forall|i: int, j: int|
        0 <= i < j < s.len() ==> (#[trigger] s[i]).asset@ != (#[trigger] s[j]).asset@
    &&& forall|i: int|
        0 <= i < s.len() ==> m.contains_key((#[trigger] s[i]).asset@) && m[s[i].asset@] == s[i]
    &&& forall|h: Seq<char>| #[trigger] m.contains_key(h) ==> exists|i: int|
        0 <= i < s.len() && #[trigger] s[i].asset@ == h
}

/// Balance manager.
pub struct BalanceManager {
    balances: Vec<Balance>,
    last_rest_sync: Option<Timestamp>,
    last_ws_update: Option<Timestamp>,
    model: Ghost<Map<Seq<char>, Balance>>,
}

impl View for BalanceManager {
    type V = Map<Seq<char>, Balance>;

    /// The balances kept, by asset.
    closed spec fn view(&self) -> Map<Seq<char>, Balance> {
        self.model@
    }
}

impl BalanceManager {
    /// The state is consistent.
    pub closed spec fn wf(&self) -> bool {
        enumerates_balances(self.balances@, self.model@)
    }

    /// The balances kept, without repetition.
    pub closed spec fn entries(&self) -> Seq<Balance> {
        self.balances@
    }

    /// Time of the last REST synchronization.
    pub closed spec fn spec_last_rest_sync(&self) -> Option<Timestamp> {
        self.last_rest_sync
    }

    /// Time of the last stream update.
    pub closed spec fn spec_last_ws_update(&self) -> Option<Timestamp> {
        self.last_ws_update
    }

    pub fn new() -> (m: Self)
        ensures
            m.wf(),
            m@ == Map::<Seq<char>, Balance>::empty(),
            m.spec_last_rest_sync() is None,
            m.spec_last_ws_update() is None,
    {
        BalanceManager {
            balances: Vec::new(),
            last_rest_sync: None,
            last_ws_update: None,
            model: Ghost(Map::empty()),
        }
    }

    fn find(&self, asset: &String) -> (r: Option<usize>)
        requires
            self.wf(),
        ensures
            match r {
                Some(i) => i < self.balances@.len() && self.balances@[i as int].asset@ == asset@,
                None => !self@.contains_key(asset@),
            },
    {
        let mut i: usize = 0;
        while i < self.balances.len()
            invariant
                i <= self.balances@.len(),
                self.wf(),
                forall|j: int| 0 <= j < i ==> (#[trigger] self.balances@[j]).asset@ != asset@,
            decreases self.balances.len() - i,
        {
            if self.balances[i].asset == *asset {
                return Some(i);
            }
            i = i + 1;
        }
        None
    }

    fn store(&mut self, balance: Balance)
        requires
            old(self).wf(),
        ensures
            final(self).wf(),
            final(self)@ == old(self)@.insert(balance.asset@, balance),
            final(self).last_rest_sync == old(self).last_rest_sync,
            final(self).last_ws_update == old(self).last_ws_update,
    {
        let ghost h = balance.asset@;
        match self.find(&balance.asset) {
            Some(i) => {
                self.balances.set(i, balance);
                proof {
                    self.model@ = self.model@.insert(h, balance);
                    assert forall|k: Seq<char>| #[trigger] self.model@.contains_key(k) implies exists|j: int|
                        0 <= j < self.balances@.len() && #[trigger] self.balances@[j].asset@ == k by {
                        if k != h {
                            let j = choose|j: int|
                                0 <= j < old(self).balances@.len() && #[trigger] old(self).balances@[j].asset@ == k;
                            assert(self.balances@[j].asset@ == k);
                        } else {
                            assert(self.balances@[i as int].asset@ == k);
                        }
                    }
                }
            },
            None => {
                self.balances.push(balance);
                proof {
                    self.model@ = self.model@.insert(h, balance);
                    let n = self.balances@.len() - 1;
                    assert forall|k: Seq<char>| #[trigger] self.model@.contains_key(k) implies exists|j: int|
                        0 <= j < self.balances@.len() && #[trigger] self.balances@[j].asset@ == k by {
                        if k != h {
                            let j = choose|j: int|
                                0 <= j < old(self).balances@.len() && #[trigger] old(self).balances@[j].asset@ == k;
                            assert(self.balances@[j].asset@ == k);
                        } else {
                            assert(self.balances@[n].asset@ == k);
                        }
                    }
                    assert forall|a: int, b: int|
                        0 <= a < b < self.balances@.len() implies (#[trigger] self.balances@[a]).asset@
                        != (#[trigger] self.balances@[b]).asset@ by {
                        if b == n {
                            assert(old(self)@.contains_key(old(self).balances@[a].asset@));
                        }
                    }
                }
            },
        }
    }

    /// Initializes the balances from a REST snapshot: clears them, then stores
    /// the balances that were saved (`saved` is the outcome of saving
    /// `balances` in sequence).  When all were saved the synchronization time
    /// is set; otherwise the storage error is returned.
    pub fn init_from_rest(&mut self, balances: Vec<Balance>, saved: SaveOutcome) -> (r: Result<
        (),
        BalanceError,
    >)
        requires
            old(self).wf(),
            outcome_fits(saved, balances@.len() as int),
        ensures
            final(self).wf(),
            final(self)@ == store_all(
                Map::empty(),
                balances@.take(saved_prefix(saved, balances@.len() as int)),
            ),
            final(self).spec_last_ws_update() == old(self).spec_last_ws_update(),
            saved is AllSaved ==> r is Ok && final(self).spec_last_rest_sync() is Some,
            saved matches SaveOutcome::FailedAt { message, .. } ==> r == Err::<(), BalanceError>(
                BalanceError::StorageError(message),
            ) && final(self).spec_last_rest_sync() == old(self).spec_last_rest_sync(),
    {
        self.balances = Vec::new();
        self.model = Ghost(Map::empty());
        let k = match &saved {
            SaveOutcome::AllSaved => balances.len(),
            SaveOutcome::FailedAt { index, .. } => *index,
        };
        let mut i: usize = 0;
        assert(balances@.take(0) =~= Seq::<Balance>::empty());
        while i < k
            invariant
                i <= k <= balances@.len(),
                self.wf(),
                self@ == store_all(Map::empty(), balances@.take(i as int)),
                self.last_ws_update == old(self).last_ws_update,
                self.last_rest_sync == old(self).last_rest_sync,
            decreases k - i,
        {
            proof {
                let t = balances@.take(i + 1);
                assert(t.drop_last() == balances@.take(i as int));
            }
            self.store(balances[i].clone());
            i = i + 1;
        }
        match saved {
            SaveOutcome::AllSaved => {
                self.last_rest_sync = Some(now());
                Ok(())
            },
            SaveOutcome::FailedAt { message, .. } => Err(BalanceError::StorageError(message)),
        }
    }

    /// Applies a balance update from the stream once saved (`saved` is the
    /// outcome of saving the event's balance): the balance replaces the one
    /// kept for its asset and the stream update time is set.  On a storage
    /// error nothing changes.
    pub fn apply_update(&mut self, event: BalanceUpdateEvent, saved: Result<(), String>) -> (r: Result<
        (),
        BalanceError,
    >)
        requires
            old(self).wf(),
        ensures
            final(self).wf(),
            final(self).spec_last_rest_sync() == old(self).spec_last_rest_sync(),
            saved is Err ==> r == Err::<(), BalanceError>(BalanceError::StorageError(saved->Err_0))
                && final(self)@ == old(self)@ && final(self).spec_last_ws_update() == old(
                self,
            ).spec_last_ws_update(),
            saved is Ok ==> r is Ok && final(self)@ == old(self)@.insert(
                event.balance.asset@,
                event.balance,
            ) && final(self).spec_last_ws_update() is Some,
    {
        match saved {
            Err(message) => return Err(BalanceError::StorageError(message)),
            Ok(()) => {},
        }
        self.store(event.balance);
        self.last_ws_update = Some(now());
        Ok(())
    }

    /// The balance kept for `asset`.
    pub fn get_balance(&self, asset: &str) -> (r: Option<Balance>)
        requires
            self.wf(),
        ensures
            self@.contains_key(asset@) ==> r == Some(self@[asset@]),
            !self@.contains_key(asset@) ==> r is None,
    {
        let key = owned(asset);
        match self.find(&key) {
            Some(i) => Some(self.balances[i].clone()),
            None => None,
        }
    }

    /// All balances kept.
    pub fn get_all_balances(&self) -> (r: Vec<Balance>)
        requires
            self.wf(),
        ensures
            r@ == self.entries(),
    {
        let mut out: Vec<Balance> = Vec::new();
        let mut i: usize = 0;
        while i < self.balances.len()
            invariant
                i <= self.balances@.len(),
                out@ == self.balances@.take(i as int),
            decreases self.balances.len() - i,
        {
            out.push(self.balances[i].clone());
            proof {
                assert(self.balances@.take(i + 1) == self.balances@.take(i as int).push(
                    self.balances@[i as int],
                ));
            }
            i = i + 1;
        }
        proof {
            assert(self.balances@.take(self.balances@.len() as int) == self.balances@);
        }
        out
    }

    /// The balance available for trading in `asset`.
    pub fn get_available(&self, asset: &str) -> (r: Option<Decimal>)
        requires
            self.wf(),
        ensures
            self@.contains_key(asset@) ==> r == Some(self@[asset@].available),
            !self@.contains_key(asset@) ==> r is None,
    {
        match self.get_balance(asset) {
            Some(b) => Some(b.available),
            None => None,
        }
    }

    /// The total balance of `asset`, locked part included.
    pub fn get_total(&self, asset: &str) -> (r: Option<Decimal>)
        requires
            self.wf(),
        ensures
            self@.contains_key(asset@) ==> r == Some(self@[asset@].total),
            !self@.contains_key(asset@) ==> r is None,
    {
        match self.get_balance(asset) {
            Some(b) => Some(b.total),
            None => None,
        }
    }

    /// At least `amount` of `asset` is available; false for an unknown asset.
    pub fn has_sufficient(&self, asset: &str, amount: Decimal) -> (b: bool)
        requires
            self.wf(),
        ensures
            b == (self@.contains_key(asset@) && amount.spec_le(self@[asset@].available)),
    {
        match self.get_available(asset) {
            Some(available) => amount.le(&available),
            None => false,
        }
    }

    /// The last REST synchronization and stream update times.
    pub fn get_sync_status(&self) -> (r: (Option<Timestamp>, Option<Timestamp>))
        ensures
            r == (self.spec_last_rest_sync(), self.spec_last_ws_update()),
    {
        (self.last_rest_sync, self.last_ws_update)
    }
}

/// A balance update, once applied, is what a read of its asset gives
/// back; balances of other assets are untouched.
pub proof fn lemma_read_after_update(m: Map<Seq<char>, Balance>, b: Balance, other: Seq<char>)
    ensures
        m.insert(b.asset@, b).contains_key(b.asset@),
        m.insert(b.asset@, b)[b.asset@] == b,
        other != b.asset@ ==> (m.insert(b.asset@, b).contains_key(other) == m.contains_key(other)),
        other != b.asset@ && m.contains_key(other) ==> m.insert(b.asset@, b)[other] == m[other],
{
}

/// The balances a consistent manager lists are exactly those it keeps, each
/// asset once, each as the entry for its asset.
pub proof fn lemma_entries_enumerate_balances(mgr: BalanceManager)
    requires
        mgr.wf(),
    ensures
        enumerates_balances(mgr.entries(), mgr@),
{
}

} // verus!
