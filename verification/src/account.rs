//! One client's account and the rule by which a transaction changes it.

use vstd::prelude::*;
use std::collections::HashMap;
use crate::amount::{Amount, Dec};
use crate::record::{Event, TransactionRecord, TransactionType};

verus! {

broadcast use vstd::std_specs::hash::group_hash_axioms;

/// A deposit as the account remembers it.
#[derive(Clone, Copy, Debug)]
pub struct DepositTx {
    pub amount: Amount,
    pub disputed: bool,
}

/// The model of a [`DepositTx`].
pub struct DepositState {
    pub amount: Dec,
    pub disputed: bool,
}

impl View for DepositTx {
    type V = DepositState;

    open spec fn view(&self) -> DepositState {
        DepositState { amount: self.amount@, disputed: self.disputed }
    }
}

/// The model of an [`Account`].
pub struct AccountState {
    pub available: Dec,
    pub held: Dec,
    pub locked: bool,
    pub deposits: Map<u32, DepositState>,
}

impl AccountState {
    /// The account of a client that has not been seen before.
    pub open spec fn new() -> AccountState {
        AccountState {
            available: Dec { mantissa: 0, scale: 4 },
            held: Dec { mantissa: 0, scale: 4 },
            locked: false,
            deposits: Map::empty(),
        }
    }

    /// Every amount in the account is well-formed.
    pub open spec fn wf(self) -> bool {
        &&& self.available.wf()
        &&& self.held.wf()
        &&& forall|tx: u32| #[trigger]
            self.deposits.contains_key(tx) ==> self.deposits[tx].amount.wf()
    }

    /// Available plus held, in units of `10^-28`.
    pub open spec fn total(self) -> int {
        self.available.units() + self.held.units()
    }

    /// `tx` is a deposit of this account that is not under dispute.
    pub open spec fn undisputed(self, tx: u32) -> bool {
        self.deposits.contains_key(tx) && !self.deposits[tx].disputed
    }

    /// `tx` is a deposit of this account that is under dispute.
    pub open spec fn disputed(self, tx: u32) -> bool {
        self.deposits.contains_key(tx) && self.deposits[tx].disputed
    }

    /// The account with the dispute flag of the deposit `tx` set to `flag`.
    pub open spec fn with_flag(self, tx: u32, flag: bool) -> AccountState {
        AccountState {
            deposits: self.deposits.insert(
                tx,
                DepositState { amount: self.deposits[tx].amount, disputed: flag },
            ),
            ..self
        }
    }
}

/// The account after one transaction.
///
/// A locked account ignores everything. A deposit adds to `available` and is
/// remembered under its `tx`; a withdrawal takes from `available` if that
/// much is there; a dispute moves the amount of an undisputed deposit from
/// `available` to `held`; a resolve moves the amount of a disputed deposit
/// back; a chargeback takes it out of `held` and locks the account. Whatever
/// does not meet its condition leaves the account as it was.
pub open spec fn step(s: AccountState, e: Event) -> AccountState {
    if s.locked {
        s
    } else {
        match e.kind {
            TransactionType::Deposit => match e.amount {
                Some(a) => AccountState {
                    available: s.available.plus(a),
                    deposits: s.deposits.insert(e.tx, DepositState { amount: a, disputed: false }),
                    ..s
                },
                None => s,
            },
            TransactionType::Withdrawal => match e.amount {
                Some(a) => if s.available.at_least(a) {
                    AccountState { available: s.available.minus(a), ..s }
                } else {
                    s
                },
                None => s,
            },
            TransactionType::Dispute => if s.undisputed(e.tx) {
                let a = s.deposits[e.tx].amount;
                AccountState {
                    available: s.available.minus(a),
                    held: s.held.plus(a),
                    ..s.with_flag(e.tx, true)
                }
            } else {
                s
            },
            TransactionType::Resolve => if s.disputed(e.tx) {
                let a = s.deposits[e.tx].amount;
                AccountState {
                    available: s.available.plus(a),
                    held: s.held.minus(a),
                    ..s.with_flag(e.tx, false)
                }
            } else {
                s
            },
            TransactionType::Chargeback => if s.disputed(e.tx) {
                let a = s.deposits[e.tx].amount;
                AccountState { held: s.held.minus(a), locked: true, ..s.with_flag(e.tx, false) }
            } else {
                s
            },
        }
    }
}

/// One client's account.
#[derive(Debug)]
pub struct Account {
    available: Amount,
    held: Amount,
    locked: bool,
    deposits: HashMap<u32, DepositTx>,
}

impl View for Account {
    type V = AccountState;

    closed spec fn view(&self) -> AccountState {
        AccountState {
            available: self.available@,
            held: self.held@,
            locked: self.locked,
            deposits: self.deposits@.map_values(|d: DepositTx| d@),
        }
    }
}

impl Account {
    /// Holds of every account: each amount in it is well-formed.
    #[verifier::type_invariant]
    pub closed spec fn wf(self) -> bool {
        &&& self.available@.wf()
        &&& self.held@.wf()
        &&& forall|tx: u32| #[trigger]
            self.deposits@.contains_key(tx) ==> self.deposits@[tx].amount@.wf()
    }

    /// The model of a well-formed account is well-formed.
    pub proof fn lemma_view_wf(self)
        requires
            self.wf(),
        ensures
            self@.wf(),
    {
        assert forall|tx: u32| #[trigger]
            self@.deposits.contains_key(tx) implies self@.deposits[tx].amount.wf() by {
            assert(self.deposits@.contains_key(tx));
        }
    }

    /// An account with nothing in it.
    pub fn new() -> (r: Account)
        ensures
            r@ == AccountState::new(),
    {
        let r = Account {
            available: Amount::zero(),
            held: Amount::zero(),
            locked: false,
            deposits: HashMap::new(),
        };
        assert(r@.deposits =~= Map::empty());
        r
    }

    /// The funds that the client may withdraw.
    pub fn available(&self) -> (r: Amount)
        ensures
            r@ == self@.available,
    {
        self.available
    }

    /// The funds frozen by open disputes.
    pub fn held(&self) -> (r: Amount)
        ensures
            r@ == self@.held,
    {
        self.held
    }

    /// Whether a chargeback has locked the account.
    pub fn locked(&self) -> (r: bool)
        ensures
            r == self@.locked,
    {
        self.locked
    }

    /// The deposit that the account remembers under `tx`, if there is one.
    pub fn deposit_record(&self, tx: u32) -> (r: Option<DepositTx>)
        ensures
            r is Some <==> self@.deposits.contains_key(tx),
            r matches Some(d) ==> d@ == self@.deposits[tx],
    {
        match self.deposits.get(&tx) {
            Some(deposit) => Some(*deposit),
            None => None,
        }
    }

    /// Stores `deposit` under `tx` in the deposit history.
    fn remember(&mut self, tx: u32, deposit: DepositTx)
        ensures
            final(self)@ == (AccountState {
                deposits: old(self)@.deposits.insert(tx, deposit@),
                ..old(self)@
            }),
    {
        proof {
            use_type_invariant(&*self);
            use_type_invariant(&deposit.amount);
        }
        let mut deposits: HashMap<u32, DepositTx> = HashMap::new();
        std::mem::swap(&mut deposits, &mut self.deposits);
        deposits.insert(tx, deposit);
        assert(deposits@.map_values(|d: DepositTx| d@) =~= old(self)@.deposits.insert(
            tx,
            deposit@,
        ));
        self.deposits = deposits;
    }

    /// Applies one transaction by the rule of [`step`], if every amount of
    /// the resulting account is in range, that is, can be held exactly; says
    /// whether it is. Otherwise the account is left as it was. A transaction
    /// that the rule ignores is in range.
    pub fn try_apply(&mut self, record: &TransactionRecord) -> (in_range: bool)
        ensures
            in_range == step(old(self)@, record@).wf(),
            final(self)@ == if in_range {
                step(old(self)@, record@)
            } else {
                old(self)@
            },
            final(self)@.wf(),
    {
        proof {
            use_type_invariant(&*self);
            self.lemma_view_wf();
        }
        if self.locked {
            return true;
        }
        match record.tx_type {
            TransactionType::Deposit => self.deposit(record),
            TransactionType::Withdrawal => self.withdraw(record),
            TransactionType::Dispute => self.dispute(record),
            TransactionType::Resolve => self.resolve(record),
            TransactionType::Chargeback => self.chargeback(record),
        }
    }

    /// The amount of the deposit `tx`, if there is such a deposit and its
    /// dispute flag is `disputed`.
    fn deposit_amount(&self, tx: u32, disputed: bool) -> (r: Option<Amount>)
        ensures
            r is Some <==> self@.deposits.contains_key(tx) && self@.deposits[tx].disputed
                == disputed,
            r matches Some(a) ==> a@ == self@.deposits[tx].amount,
    {
        match self.deposit_record(tx) {
            Some(deposit) => {
                if deposit.disputed == disputed {
                    Some(deposit.amount)
                } else {
                    None
                }
            },
            None => None,
        }
    }

    /// A deposit: adds the amount to the available funds and remembers it.
    fn deposit(&mut self, record: &TransactionRecord) -> (in_range: bool)
        requires
            record.tx_type is Deposit,
            !old(self)@.locked,
        ensures
            in_range == step(old(self)@, record@).wf(),
            final(self)@ == if in_range {
                step(old(self)@, record@)
            } else {
                old(self)@
            },
            final(self)@.wf(),
    {
        proof {
            use_type_invariant(&*self);
            self.lemma_view_wf();
        }
        let in_range = match record.amount {
            Some(amount) => {
                proof {
                    use_type_invariant(&amount);
                }
                match self.available.checked_add(amount) {
                    Some(sum) => {
                        self.available = sum;
                        self.remember(record.tx, DepositTx { amount, disputed: false });
                        true
                    },
                    None => false,
                }
            },
            None => true,
        };
        proof {
            use_type_invariant(&*self);
            self.lemma_view_wf();
        }
        in_range
    }

    /// A withdrawal: takes the amount from the available funds, if that much
    /// is there.
    fn withdraw(&mut self, record: &TransactionRecord) -> (in_range: bool)
        requires
            record.tx_type is Withdrawal,
            !old(self)@.locked,
        ensures
            in_range == step(old(self)@, record@).wf(),
            final(self)@ == if in_range {
                step(old(self)@, record@)
            } else {
                old(self)@
            },
            final(self)@.wf(),
    {
        proof {
            use_type_invariant(&*self);
            self.lemma_view_wf();
        }
        let in_range = match record.amount {
            Some(amount) => {
                if self.available.at_least(amount) {
                    match self.available.checked_sub(amount) {
                        Some(rest) => {
                            self.available = rest;
                            true
                        },
                        None => false,
                    }
                } else {
                    true
                }
            },
            None => true,
        };
        proof {
            use_type_invariant(&*self);
            self.lemma_view_wf();
        }
        in_range
    }

    /// A dispute: moves the amount of an undisputed deposit from available to
    /// held.
    fn dispute(&mut self, record: &TransactionRecord) -> (in_range: bool)
        requires
            record.tx_type is Dispute,
            !old(self)@.locked,
        ensures
            in_range == step(old(self)@, record@).wf(),
            final(self)@ == if in_range {
                step(old(self)@, record@)
            } else {
                old(self)@
            },
            final(self)@.wf(),
    {
        proof {
            use_type_invariant(&*self);
            self.lemma_view_wf();
        }
        let in_range = match self.deposit_amount(record.tx, false) {
            Some(amount) => {
                match (self.available.checked_sub(amount), self.held.checked_add(amount)) {
                    (Some(available), Some(held)) => {
                        self.available = available;
                        self.held = held;
                        self.remember(record.tx, DepositTx { amount, disputed: true });
                        true
                    },
                    _ => false,
                }
            },
            None => true,
        };
        proof {
            use_type_invariant(&*self);
            self.lemma_view_wf();
        }
        in_range
    }

    /// A resolve: moves the amount of a disputed deposit from held back to
    /// available.
    fn resolve(&mut self, record: &TransactionRecord) -> (in_range: bool)
        requires
            record.tx_type is Resolve,
            !old(self)@.locked,
        ensures
            in_range == step(old(self)@, record@).wf(),
            final(self)@ == if in_range {
                step(old(self)@, record@)
            } else {
                old(self)@
            },
            final(self)@.wf(),
    {
        proof {
            use_type_invariant(&*self);
            self.lemma_view_wf();
        }
        let in_range = match self.deposit_amount(record.tx, true) {
            Some(amount) => {
                match (self.held.checked_sub(amount), self.available.checked_add(amount)) {
                    (Some(held), Some(available)) => {
                        self.held = held;
                        self.available = available;
                        self.remember(record.tx, DepositTx { amount, disputed: false });
                        true
                    },
                    _ => false,
                }
            },
            None => true,
        };
        proof {
            use_type_invariant(&*self);
            self.lemma_view_wf();
        }
        in_range
    }

    /// A chargeback: takes the amount of a disputed deposit out of held and
    /// locks the account.
    fn chargeback(&mut self, record: &TransactionRecord) -> (in_range: bool)
        requires
            record.tx_type is Chargeback,
            !old(self)@.locked,
        ensures
            in_range == step(old(self)@, record@).wf(),
            final(self)@ == if in_range {
                step(old(self)@, record@)
            } else {
                old(self)@
            },
            final(self)@.wf(),
    {
        proof {
            use_type_invariant(&*self);
            self.lemma_view_wf();
        }
        let in_range = match self.deposit_amount(record.tx, true) {
            Some(amount) => {
                match self.held.checked_sub(amount) {
                    Some(held) => {
                        self.held = held;
                        self.locked = true;
                        self.remember(record.tx, DepositTx { amount, disputed: false });
                        true
                    },
                    None => false,
                }
            },
            None => true,
        };
        proof {
            use_type_invariant(&*self);
            self.lemma_view_wf();
        }
        in_range
    }

    /// Available plus held, where the sum can be held exactly.
    pub fn total(&self) -> (r: Option<Amount>)
        ensures
            r is Some <==> self@.available.plus_fits(self@.held),
            r matches Some(t) ==> t@ == self@.available.plus(self@.held),
    {
        self.available.checked_add(self.held)
    }
}

} // verus!
