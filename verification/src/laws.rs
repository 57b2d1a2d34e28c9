//! What holds of the transition rule and of a replay, whatever the events.

use vstd::prelude::*;
use crate::account::{step, AccountState};
use crate::amount::{lemma_minus_units, lemma_plus_units};
use crate::engine::{account_of, exact, ledger_step, replay};
use crate::record::Event;

verus! {

/// A locked account ignores every event.
pub proof fn lemma_locked_ignores(s: AccountState, e: Event)
    requires
        s.locked,
    ensures
        step(s, e) == s,
{
}

/// Resolving the same deposit twice in a row, or charging it back twice in a
/// row, does what doing it once does.
pub proof fn lemma_settle_twice(s: AccountState, e: Event)
    requires
        e.kind is Resolve || e.kind is Chargeback,
    ensures
        step(step(s, e), e) == step(s, e),
{
}

/// A dispute that takes effect moves the deposit's amount from available to
/// held, exactly, and leaves the total as it was.
pub proof fn lemma_dispute_conserves(s: AccountState, e: Event)
    requires
        s.wf(),
        !s.locked,
        e.kind is Dispute,
        s.undisputed(e.tx),
    ensures
        step(s, e).held.units() == s.held.units() + s.deposits[e.tx].amount.units(),
        step(s, e).available.units() == s.available.units() - s.deposits[e.tx].amount.units(),
        step(s, e).total() == s.total(),
        step(s, e).locked == s.locked,
        step(s, e).disputed(e.tx),
{
    let a = s.deposits[e.tx].amount;
    assert(s.deposits.contains_key(e.tx));
    lemma_minus_units(s.available, a);
    lemma_plus_units(s.held, a);
}

/// A resolve that takes effect moves the deposit's amount from held back to
/// available, exactly, and leaves the total as it was.
pub proof fn lemma_resolve_conserves(s: AccountState, e: Event)
    requires
        s.wf(),
        !s.locked,
        e.kind is Resolve,
        s.disputed(e.tx),
    ensures
        step(s, e).held.units() == s.held.units() - s.deposits[e.tx].amount.units(),
        step(s, e).available.units() == s.available.units() + s.deposits[e.tx].amount.units(),
        step(s, e).total() == s.total(),
        step(s, e).locked == s.locked,
        step(s, e).undisputed(e.tx),
{
    let a = s.deposits[e.tx].amount;
    assert(s.deposits.contains_key(e.tx));
    lemma_minus_units(s.held, a);
    lemma_plus_units(s.available, a);
}

/// A chargeback that takes effect lowers the total by exactly the deposit's
/// amount, leaves the available funds alone and locks the account; from
/// then on no event changes the account.
pub proof fn lemma_chargeback_shrinks_total(s: AccountState, e: Event)
    requires
        s.wf(),
        !s.locked,
        e.kind is Chargeback,
        s.disputed(e.tx),
    ensures
        step(s, e).total() == s.total() - s.deposits[e.tx].amount.units(),
        step(s, e).available == s.available,
        step(s, e).locked,
        forall|later: Event| step(step(s, e), later) == step(s, e),
{
    let a = s.deposits[e.tx].amount;
    assert(s.deposits.contains_key(e.tx));
    lemma_minus_units(s.held, a);
}

/// A withdrawal of more than is available changes nothing.
pub proof fn lemma_insufficient_withdrawal(s: AccountState, e: Event)
    requires
        e.kind is Withdrawal,
        e.amount matches Some(a) && a.units() > s.available.units(),
    ensures
        step(s, e) == s,
{
}

/// A dispute, resolve or chargeback that names no deposit of the account
/// changes nothing.
pub proof fn lemma_unknown_reference(s: AccountState, e: Event)
    requires
        e.kind is Dispute || e.kind is Resolve || e.kind is Chargeback,
        !s.deposits.contains_key(e.tx),
    ensures
        step(s, e) == s,
{
}

/// A deposit adds exactly its amount to the available funds, and a
/// withdrawal that is covered takes exactly its amount from them.
pub proof fn lemma_deposit_withdrawal_exact(s: AccountState, e: Event)
    requires
        s.wf(),
        e.wf(),
        !s.locked,
        e.amount is Some,
    ensures
        e.kind is Deposit ==> step(s, e).available.units() == s.available.units()
            + e.amount.unwrap().units(),
        e.kind is Withdrawal && s.available.at_least(e.amount.unwrap()) ==> step(
            s,
            e,
        ).available.units() == s.available.units() - e.amount.unwrap().units(),
        e.kind is Deposit || e.kind is Withdrawal ==> step(s, e).held == s.held && step(
            s,
            e,
        ).locked == s.locked,
{
    let a = e.amount.unwrap();
    lemma_plus_units(s.available, a);
    lemma_minus_units(s.available, a);
}

/// A withdrawal of an amount that is not negative never takes the available
/// funds below zero: either they stay at zero or above, or nothing changes.
pub proof fn lemma_withdrawal_never_overdraws(s: AccountState, e: Event)
    requires
        s.wf(),
        e.wf(),
        e.kind is Withdrawal,
        e.amount matches Some(a) && a.units() >= 0,
    ensures
        step(s, e) == s || step(s, e).available.units() >= 0,
{
    lemma_minus_units(s.available, e.amount.unwrap());
}

/// The last event of a replay is a step of its client's account, taken from
/// the account that the events before it have left; so what holds of every
/// step holds of every event of every replay.
pub proof fn lemma_replay_ends_with_step(events: Seq<Event>)
    requires
        events.len() > 0,
    ensures
        account_of(replay(events), events.last().client) == step(
            account_of(replay(events.drop_last()), events.last().client),
            events.last(),
        ),
        forall|client: u16|
            client != events.last().client ==> account_of(replay(events), client) == account_of(
                replay(events.drop_last()),
                client,
            ),
{
}

/// The accounts of a replay are those of the clients that appear in it.
pub proof fn lemma_replay_clients(events: Seq<Event>, client: u16)
    ensures
        replay(events).contains_key(client) <==> exists|i: int|
            0 <= i < events.len() && (#[trigger] events[i]).client == client,
    decreases events.len(),
{
    if events.len() > 0 {
        let shorter = events.drop_last();
        lemma_replay_clients(shorter, client);
        if replay(events).contains_key(client) {
            if events.last().client == client {
                assert(events[events.len() - 1].client == client);
            } else {
                let i = choose|i: int|
                    0 <= i < shorter.len() && (#[trigger] shorter[i]).client == client;
                assert(events[i].client == client);
            }
        } else {
            assert forall|i: int| 0 <= i < events.len() implies (#[trigger] events[i]).client
                != client by {
                if i < shorter.len() {
                    assert(shorter[i] == events[i]);
                }
            }
        }
    }
}

/// An event changes no account but that of its own client.
pub proof fn lemma_other_clients_untouched(ledger: Map<u16, AccountState>, e: Event, client: u16)
    requires
        client != e.client,
    ensures
        ledger_step(ledger, e).contains_key(client) == ledger.contains_key(client),
        account_of(ledger_step(ledger, e), client) == account_of(ledger, client),
{
}

/// Once an account is locked, no later event of the replay changes it.
pub proof fn lemma_lock_freezes(events: Seq<Event>, n: int, client: u16)
    requires
        0 <= n <= events.len(),
        account_of(replay(events.take(n)), client).locked,
    ensures
        account_of(replay(events), client) == account_of(replay(events.take(n)), client),
    decreases events.len(),
{
    if n == events.len() {
        assert(events.take(n) =~= events);
    } else {
        let shorter = events.drop_last();
        assert(shorter.take(n) =~= events.take(n));
        lemma_lock_freezes(shorter, n, client);
    }
}

/// In a replay that is exact, every account is well-formed.
pub proof fn lemma_exact_replay_wf(events: Seq<Event>, client: u16)
    requires
        exact(events),
    ensures
        account_of(replay(events), client).wf(),
    decreases events.len(),
{
    if events.len() > 0 {
        lemma_exact_replay_wf(events.drop_last(), client);
    }
}

} // verus!
