//! The account store: a balance for every identity, the bet records at their
//! derived addresses, and the singleton configuration.

use vstd::prelude::*;
use crate::pubkey::{Pubkey, program_address, find_program_address};
use crate::state::{Bet, BetStatus, Config, ErrorCode};

verus! {

/// The seed label of bet records: `"bet"`.
pub open spec fn bet_label() -> Seq<u8> {
    seq![98u8, 101u8, 116u8]
}

/// The seed label of the configuration: `"config"`.
pub open spec fn config_label() -> Seq<u8> {
    seq![99u8, 111u8, 110u8, 102u8, 105u8, 103u8]
}

/// The derived address, with bump, of the bet that `user` opened under `bet_id`.
pub open spec fn bet_address(program_id: Seq<u8>, user: Seq<u8>, bet_id: Seq<u8>) -> Option<(Seq<u8>, u8)> {
    program_address(seq![bet_label(), user, bet_id], program_id)
}

/// The derived address, with bump, of the configuration.
pub open spec fn config_address(program_id: Seq<u8>) -> Option<(Seq<u8>, u8)> {
    program_address(seq![config_label()], program_id)
}

/// Moves the whole balance of `src` to `dest`: `src` is emptied first, then
/// `dest` is credited.
pub open spec fn transfer_all(b: Map<Seq<u8>, nat>, src: Seq<u8>, dest: Seq<u8>) -> Map<Seq<u8>, nat> {
    let cleared = b.insert(src, 0);
    cleared.insert(dest, cleared[dest] + b[src])
}

/// Whether `transfer_all` would credit `dest` beyond `u64::MAX`.
pub open spec fn transfer_overflows(b: Map<Seq<u8>, nat>, src: Seq<u8>, dest: Seq<u8>) -> bool {
    b.insert(src, 0)[dest] + b[src] > u64::MAX
}

/// Moves `amount` from `from` to `to`: `from` is debited first, then `to` is credited.
pub open spec fn pay(b: Map<Seq<u8>, nat>, from: Seq<u8>, to: Seq<u8>, amount: nat) -> Map<Seq<u8>, nat> {
    let debited = b.insert(from, (b[from] - amount) as nat);
    debited.insert(to, debited[to] + amount)
}

/// Whether `pay` would credit `to` beyond `u64::MAX` (given that `from` can pay).
pub open spec fn pay_overflows(b: Map<Seq<u8>, nat>, from: Seq<u8>, to: Seq<u8>, amount: nat) -> bool {
    b.insert(from, (b[from] - amount) as nat)[to] + amount > u64::MAX
}

/// Every identity has a balance (zero until credited).
pub broadcast proof fn lemma_balance_defined(l: Ledger, k: Seq<u8>)
    ensures
        #[trigger] l.balances().contains_key(k),
{
}

pub struct Ledger {
    program_id: Pubkey,
    config: Option<Config>,
    keys: Vec<Pubkey>,
    lamports: Vec<u64>,
    records: Vec<Option<Bet>>,
}

impl Ledger {
    spec fn has_key(self, k: Seq<u8>, i: int) -> bool {
        0 <= i < self.keys@.len() && self.keys@[i]@ == k
    }

    spec fn has_bet(self, k: Seq<u8>, i: int) -> bool {
        self.has_key(k, i) && self.records@[i] is Some
    }

    /// The balance of every identity; zero for one never credited.
    pub closed spec fn balances(self) -> Map<Seq<u8>, nat> {
        Map::new(
            |k: Seq<u8>| true,
            |k: Seq<u8>|
                if exists|i: int| self.has_key(k, i) {
                    self.lamports@[choose|i: int| self.has_key(k, i)] as nat
                } else {
                    0
                },
        )
    }

    /// The open bet records, by address.
    pub closed spec fn bets(self) -> Map<Seq<u8>, Bet> {
        Map::new(
            |k: Seq<u8>| exists|i: int| self.has_bet(k, i),
            |k: Seq<u8>| self.records@[choose|i: int| self.has_bet(k, i)]->0,
        )
    }

    pub closed spec fn config_state(self) -> Option<Config> {
        self.config
    }

    pub closed spec fn program_id(self) -> Seq<u8> {
        self.program_id@
    }

    spec fn unique_keys(self) -> bool {
        &&& self.lamports@.len() == self.keys@.len()
        &&& self.records@.len() == self.keys@.len()
        &&& forall|i: int, j: int|
            0 <= i < self.keys@.len() && 0 <= j < self.keys@.len() && #[trigger] self.keys@[i]@
                == #[trigger] self.keys@[j]@ ==> i == j
    }

    /// Well-formedness: every open bet sits at the address derived from its
    /// user and id, with the recorded bump, and is still active; the
    /// configuration records the bump of its own derived address.
    pub closed spec fn wf(self) -> bool {
        &&& self.unique_keys()
        &&& forall|a: Seq<u8>| #[trigger]
            self.bets().contains_key(a) ==> bet_address(
                self.program_id@,
                self.bets()[a].user@,
                self.bets()[a].bet_id@,
            ) == Some((a, self.bets()[a].bump)) && self.bets()[a].status == BetStatus::Active
        &&& self.config matches Some(c) ==> config_address(self.program_id@) matches Some(
            (_, b),
        ) && b == c.bump
    }


    /// What well-formedness gives: every open record is active and sits at the
    /// address derived from its user and id, with its recorded bump; the
    /// configuration records the bump of its own derived address.
    pub proof fn lemma_wf(self)
        requires
            self.wf(),
        ensures
            forall|a: Seq<u8>| #[trigger]
                self.bets().contains_key(a) ==> bet_address(
                    self.program_id(),
                    self.bets()[a].user@,
                    self.bets()[a].bet_id@,
                ) == Some((a, self.bets()[a].bump)) && self.bets()[a].status == BetStatus::Active,
            self.config_state() matches Some(c) ==> config_address(self.program_id()) matches Some(
                (_, b),
            ) && b == c.bump,
    {
    }

    proof fn lemma_index(self, i: int)
        requires
            self.unique_keys(),
            0 <= i < self.keys@.len(),
        ensures
            self.balances()[self.keys@[i]@] == self.lamports@[i] as nat,
            self.bets().contains_key(self.keys@[i]@) == self.records@[i] is Some,
            self.records@[i] is Some ==> self.bets()[self.keys@[i]@] == self.records@[i]->0,
    {
        let k = self.keys@[i]@;
        assert(self.has_key(k, i));
        let j = choose|j: int| self.has_key(k, j);
        assert(self.keys@[j]@ == self.keys@[i]@);
        if self.records@[i] is Some {
            assert(self.has_bet(k, i));
            let m = choose|m: int| self.has_bet(k, m);
            assert(self.keys@[m]@ == self.keys@[i]@);
        } else {
            assert forall|m: int| !self.has_bet(k, m) by {
                if self.has_key(k, m) {
                    assert(self.keys@[m]@ == self.keys@[i]@);
                }
            }
        }
    }


    proof fn lemma_same_keys(n: Ledger, o: Ledger)
        requires
            n.unique_keys(),
            o.unique_keys(),
            n.keys@ == o.keys@,
        ensures
            n.lamports@ == o.lamports@ ==> n.balances() == o.balances(),
            n.records@ == o.records@ ==> n.bets() == o.bets(),
    {
        assert forall|q: Seq<u8>, j: int| n.has_key(q, j) == o.has_key(q, j) by {}
        if n.lamports@ == o.lamports@ {
            assert forall|q: Seq<u8>| #[trigger] n.balances()[q] == o.balances()[q] by {
                if exists|j: int| o.has_key(q, j) {
                    let j = choose|j: int| o.has_key(q, j);
                    o.lemma_index(j);
                    n.lemma_index(j);
                }
            }
            assert(n.balances() =~= o.balances());
        }
        if n.records@ == o.records@ {
            assert forall|q: Seq<u8>| n.bets().contains_key(q) == o.bets().contains_key(q) by {
                if exists|j: int| o.has_key(q, j) {
                    let j = choose|j: int| o.has_key(q, j);
                    o.lemma_index(j);
                    n.lemma_index(j);
                }
            }
            assert forall|q: Seq<u8>| n.bets().contains_key(q) implies n.bets()[q] == o.bets()[q] by {
                let j = choose|j: int| n.has_bet(q, j);
                n.lemma_index(j);
                o.lemma_index(j);
            }
            assert(n.bets() =~= o.bets());
        }
    }

    proof fn lemma_absent(self, k: Seq<u8>)
        requires
            self.unique_keys(),
            forall|i: int| !self.has_key(k, i),
        ensures
            self.balances()[k] == 0,
            !self.bets().contains_key(k),
    {
    }

    /// An empty ledger for the program `program_id`.
    pub fn new(program_id: Pubkey) -> (r: Ledger)
        ensures
            r.wf(),
            r.program_id() == program_id@,
            r.config_state() is None,
            r.bets() == Map::<Seq<u8>, Bet>::empty(),
            forall|k: Seq<u8>| #[trigger] r.balances()[k] == 0,
    {
        let r = Ledger { program_id, config: None, keys: Vec::new(), lamports: Vec::new(), records: Vec::new() };
        assert(r.bets() =~= Map::<Seq<u8>, Bet>::empty());
        r
    }

    /// The index of `k` in the store, if it has an entry.
    fn find(&self, k: &Pubkey) -> (r: Option<usize>)
        requires
            self.unique_keys(),
        ensures
            match r {
                Some(i) => i < self.keys@.len() && self.keys@[i as int]@ == k@,
                None => forall|i: int| !self.has_key(k@, i),
            },
    {
        let mut i: usize = 0;
        while i < self.keys.len()
            invariant
                self.unique_keys(),
                0 <= i <= self.keys@.len(),
                forall|j: int| 0 <= j < i ==> !self.has_key(k@, j),
            decreases self.keys@.len() - i,
        {
            if self.keys[i].same(k) {
                return Some(i);
            }
            i = i + 1;
        }
        None
    }

    /// Sets the balance of `k` to `v`, adding an entry for `k` if it has none;
    /// returns the index of that entry.
    fn set_balance(&mut self, k: &Pubkey, v: u64) -> (r: usize)
        requires
            old(self).unique_keys(),
        ensures
            final(self).unique_keys(),
            final(self).balances() == old(self).balances().insert(k@, v as nat),
            final(self).bets() == old(self).bets(),
            final(self).has_key(k@, r as int),
            final(self).config == old(self).config,
            final(self).program_id == old(self).program_id,
    {
        let ghost o = *self;
        match self.find(k) {
            Some(i) => {
                self.lamports.set(i, v);
                let ghost n = *self;
                assert(n.keys@ == o.keys@ && n.records@ == o.records@);
                assert forall|q: Seq<u8>| #[trigger] n.balances()[q] == o.balances().insert(k@, v as nat)[q] by {
                    if q == k@ {
                        n.lemma_index(i as int);
                    } else if exists|j: int| o.has_key(q, j) {
                        let j = choose|j: int| o.has_key(q, j);
                        o.lemma_index(j);
                        n.lemma_index(j);
                    } else {
                        assert forall|j: int| !n.has_key(q, j) by {
                            if n.has_key(q, j) { assert(o.has_key(q, j)); }
                        }
                    }
                }
                assert(n.balances() =~= o.balances().insert(k@, v as nat));
                proof { Ledger::lemma_same_keys(n, o); }
                assert(n.has_key(k@, i as int));
                i
            },
            None => {
                self.keys.push(*k);
                self.lamports.push(v);
                self.records.push(None);
                let ghost n = *self;
                let ghost last = o.keys@.len() as int;
                assert(n.keys@ == o.keys@.push(*k));
                assert forall|a: int, b: int|
                    0 <= a < n.keys@.len() && 0 <= b < n.keys@.len() && #[trigger] n.keys@[a]@
                        == #[trigger] n.keys@[b]@ implies a == b by {
                    if a < last && b == last { assert(o.has_key(k@, a)); }
                    if b < last && a == last { assert(o.has_key(k@, b)); }
                }
                assert forall|q: Seq<u8>| #[trigger] n.balances()[q] == o.balances().insert(k@, v as nat)[q] by {
                    if q == k@ {
                        n.lemma_index(last);
                    } else if exists|j: int| o.has_key(q, j) {
                        let j = choose|j: int| o.has_key(q, j);
                        o.lemma_index(j);
                        n.lemma_index(j);
                    } else {
                        assert forall|j: int| !n.has_key(q, j) by {
                            if n.has_key(q, j) && j < last { assert(o.has_key(q, j)); }
                        }
                    }
                }
                assert forall|q: Seq<u8>| n.bets().contains_key(q) == o.bets().contains_key(q) by {
                    if q == k@ {
                        n.lemma_index(last);
                    } else if exists|j: int| o.has_key(q, j) {
                        let j = choose|j: int| o.has_key(q, j);
                        o.lemma_index(j);
                        n.lemma_index(j);
                    } else {
                        assert forall|j: int| !n.has_key(q, j) by {
                            if n.has_key(q, j) && j < last { assert(o.has_key(q, j)); }
                        }
                    }
                }
                assert forall|q: Seq<u8>| n.bets().contains_key(q) implies n.bets()[q] == o.bets()[q] by {
                    let j = choose|j: int| n.has_bet(q, j);
                    n.lemma_index(j);
                    o.lemma_index(j);
                }
                assert(n.balances() =~= o.balances().insert(k@, v as nat));
                assert(n.bets() =~= o.bets());
                assert(n.has_key(k@, last));
                self.keys.len() - 1
            },
        }
    }

    /// Replaces the record at entry `i`.
    fn set_record(&mut self, i: usize, r: Option<Bet>)
        requires
            old(self).unique_keys(),
            i < old(self).keys@.len(),
        ensures
            final(self).unique_keys(),
            final(self).balances() == old(self).balances(),
            final(self).bets() == match r {
                Some(b) => old(self).bets().insert(old(self).keys@[i as int]@, b),
                None => old(self).bets().remove(old(self).keys@[i as int]@),
            },
            final(self).config == old(self).config,
            final(self).program_id == old(self).program_id,
            final(self).keys == old(self).keys,
    {
        let ghost o = *self;
        let ghost k = o.keys@[i as int]@;
        let ghost want = if r is Some {
            o.bets().insert(k, r->0)
        } else {
            o.bets().remove(k)
        };
        self.records.set(i, r);
        let ghost n = *self;
        assert(n.keys@ == o.keys@ && n.lamports@ == o.lamports@);
        proof { Ledger::lemma_same_keys(n, o); }
        assert forall|q: Seq<u8>| n.bets().contains_key(q) == want.contains_key(q) by {
            if q == k {
                n.lemma_index(i as int);
            } else if exists|j: int| o.has_key(q, j) {
                let j = choose|j: int| o.has_key(q, j);
                o.lemma_index(j);
                n.lemma_index(j);
            } else {
                assert forall|j: int| !n.has_key(q, j) by {
                    if n.has_key(q, j) { assert(o.has_key(q, j)); }
                }
            }
        }
        assert forall|q: Seq<u8>| n.bets().contains_key(q) implies n.bets()[q] == want[q] by {
            let j = choose|j: int| n.has_bet(q, j);
            n.lemma_index(j);
            if q != k {
                o.lemma_index(j);
            }
        }
        assert(n.bets() =~= want);
    }

    /// The balance of `k`.
    pub fn balance(&self, k: &Pubkey) -> (r: u64)
        requires
            self.wf(),
        ensures
            r as nat == self.balances()[k@],
    {
        match self.find(k) {
            Some(i) => {
                proof { self.lemma_index(i as int); }
                self.lamports[i]
            },
            None => {
                proof { self.lemma_absent(k@); }
                0
            },
        }
    }

    /// The open bet record at `address`, if any.
    pub fn bet(&self, address: &Pubkey) -> (r: Option<&Bet>)
        requires
            self.wf(),
        ensures
            match r {
                Some(b) => self.bets().contains_key(address@) && *b == self.bets()[address@],
                None => !self.bets().contains_key(address@),
            },
    {
        match self.find(address) {
            Some(i) => {
                proof { self.lemma_index(i as int); }
                self.records[i].as_ref()
            },
            None => {
                proof { self.lemma_absent(address@); }
                None
            },
        }
    }

    /// The configuration, once initialized.
    pub fn config(&self) -> (r: Option<Config>)
        ensures
            r == self.config_state(),
    {
        self.config
    }

    /// The identity of the program that owns the derived addresses.
    pub fn program_key(&self) -> (r: Pubkey)
        ensures
            r@ == self.program_id(),
    {
        self.program_id
    }

    /// The derived address, with bump, of the bet that `user` opens under `bet_id`.
    pub fn find_bet_address(&self, user: &Pubkey, bet_id: &[u8; 32]) -> (r: Option<(Pubkey, u8)>)
        ensures
            match r {
                Some((k, bump)) => bet_address(self.program_id(), user@, bet_id@) == Some((k@, bump)),
                None => bet_address(self.program_id(), user@, bet_id@) is None,
            },
    {
        let seeds: Vec<Vec<u8>> = vec![
            vec![98u8, 101u8, 116u8],
            vstd::slice::slice_to_vec(user.bytes.as_slice()),
            vstd::slice::slice_to_vec(bet_id.as_slice()),
        ];
        assert(seeds@.map_values(|s: Vec<u8>| s@) =~= seq![bet_label(), user@, bet_id@]);
        find_program_address(&seeds, &self.program_id)
    }

    /// The derived address, with bump, of the configuration.
    pub fn find_config_address(&self) -> (r: Option<(Pubkey, u8)>)
        ensures
            match r {
                Some((k, bump)) => config_address(self.program_id()) == Some((k@, bump)),
                None => config_address(self.program_id()) is None,
            },
    {
        let seeds: Vec<Vec<u8>> = vec![vec![99u8, 111u8, 110u8, 102u8, 105u8, 103u8]];
        assert(seeds@.map_values(|s: Vec<u8>| s@) =~= seq![config_label()]);
        find_program_address(&seeds, &self.program_id)
    }

    /// Credits `amount` to `k` from outside the ledger (a deposit or an airdrop).
    pub fn deposit(&mut self, k: &Pubkey, amount: u64) -> (r: Result<(), ErrorCode>)
        requires
            old(self).wf(),
        ensures
            final(self).wf(),
            r == if old(self).balances()[k@] + amount > u64::MAX {
                Err(ErrorCode::Overflow)
            } else {
                Ok(())
            },
            r is Err ==> *final(self) == *old(self),
            r is Ok ==> final(self).balances() == old(self).balances().insert(
                k@,
                (old(self).balances()[k@] + amount) as nat,
            ),
            final(self).bets() == old(self).bets(),
            final(self).config_state() == old(self).config_state(),
            final(self).program_id() == old(self).program_id(),
    {
        let before = self.balance(k);
        match before.checked_add(amount) {
            None => Err(ErrorCode::Overflow),
            Some(after) => {
                self.set_balance(k, after);
                Ok(())
            },
        }
    }

    /// Stores the configuration.
    pub(crate) fn set_config(&mut self, c: Config)
        requires
            old(self).wf(),
            config_address(old(self).program_id()) matches Some((_, b)) && b == c.bump,
        ensures
            final(self).wf(),
            final(self).config_state() == Some(c),
            final(self).balances() == old(self).balances(),
            final(self).bets() == old(self).bets(),
            final(self).program_id() == old(self).program_id(),
    {
        let ghost o = *self;
        self.config = Some(c);
        proof { Ledger::lemma_same_keys(*self, o); }
    }

    /// Moves `amount` from `from` to the fresh record address `to` and opens
    /// `bet` there.
    pub(crate) fn open_bet(&mut self, from: &Pubkey, to: &Pubkey, amount: u64, bet: Bet) -> (r: Result<(), ErrorCode>)
        requires
            old(self).wf(),
            !old(self).bets().contains_key(to@),
            old(self).balances()[from@] >= amount,
            bet_address(old(self).program_id(), bet.user@, bet.bet_id@) == Some((to@, bet.bump)),
            bet.status == BetStatus::Active,
        ensures
            final(self).wf(),
            r == if pay_overflows(old(self).balances(), from@, to@, amount as nat) {
                Err(ErrorCode::Overflow)
            } else {
                Ok(())
            },
            r is Err ==> *final(self) == *old(self),
            r is Ok ==> final(self).balances() == pay(old(self).balances(), from@, to@, amount as nat)
                && final(self).bets() == old(self).bets().insert(to@, bet),
            final(self).config_state() == old(self).config_state(),
            final(self).program_id() == old(self).program_id(),
    {
        let ghost b0 = self.balances();
        let payer = self.balance(from);
        let debited: u64 = payer - amount;
        let current: u64 = if to.same(from) { debited } else { self.balance(to) };
        assert(current == b0.insert(from@, (b0[from@] - amount) as nat)[to@]);
        match current.checked_add(amount) {
            None => Err(ErrorCode::Overflow),
            Some(credited) => {
                self.set_balance(from, debited);
                let i = self.set_balance(to, credited);
                self.set_record(i, Some(bet));
                assert(self.bets() =~= old(self).bets().insert(to@, bet));
                assert(self.balances() =~= pay(b0, from@, to@, amount as nat));
                Ok(())
            },
        }
    }

    /// The fund transfer primitive: moves the whole balance of the record at
    /// `src` to `dest` and closes the record; on overflow nothing changes.
    pub(crate) fn close_into(&mut self, src: &Pubkey, dest: &Pubkey) -> (r: Result<(), ErrorCode>)
        requires
            old(self).wf(),
            old(self).bets().contains_key(src@),
        ensures
            final(self).wf(),
            r == if transfer_overflows(old(self).balances(), src@, dest@) {
                Err(ErrorCode::Overflow)
            } else {
                Ok(())
            },
            r is Err ==> *final(self) == *old(self),
            r is Ok ==> final(self).balances() == transfer_all(old(self).balances(), src@, dest@)
                && final(self).bets() == old(self).bets().remove(src@),
            final(self).config_state() == old(self).config_state(),
            final(self).program_id() == old(self).program_id(),
    {
        let ghost b0 = self.balances();
        let held = self.balance(src);
        let current: u64 = if dest.same(src) { 0 } else { self.balance(dest) };
        assert(current == b0.insert(src@, 0)[dest@]);
        match current.checked_add(held) {
            None => Err(ErrorCode::Overflow),
            Some(credited) => {
                self.set_balance(dest, credited);
                let i = self.set_balance(src, if dest.same(src) { credited } else { 0 });
                self.set_record(i, None);
                assert(self.bets() =~= old(self).bets().remove(src@));
                assert(self.balances() =~= transfer_all(b0, src@, dest@));
                Ok(())
            },
        }
    }
}

} // verus!
