//! Replaying a stream of transactions against the accounts of all clients.

use vstd::prelude::*;
use std::collections::HashMap;
use crate::account::{step, Account, AccountState};
use crate::record::{Event, TransactionRecord};

verus! {

broadcast use vstd::std_specs::hash::group_hash_axioms;

/// The account of `client` in `ledger`; a client that has not been seen has
/// an empty account.
pub open spec fn account_of(ledger: Map<u16, AccountState>, client: u16) -> AccountState {
    if ledger.contains_key(client) {
        ledger[client]
    } else {
        AccountState::new()
    }
}

/// The ledger after one more event: the account of the event's client, made
/// if it was not there, takes the step; the others stay.
pub open spec fn ledger_step(ledger: Map<u16, AccountState>, e: Event) -> Map<u16, AccountState> {
    ledger.insert(e.client, step(account_of(ledger, e.client), e))
}

/// The ledger after the events, taken in order from no accounts at all.
pub open spec fn replay(events: Seq<Event>) -> Map<u16, AccountState>
    decreases events.len(),
{
    if events.len() == 0 {
        Map::empty()
    } else {
        ledger_step(replay(events.drop_last()), events.last())
    }
}

/// Every event of the replay leaves its account with amounts that can be
/// held exactly.
pub open spec fn exact(events: Seq<Event>) -> bool
    decreases events.len(),
{
    events.len() == 0 || {
        &&& exact(events.drop_last())
        &&& step(
            account_of(replay(events.drop_last()), events.last().client),
            events.last(),
        ).wf()
    }
}

/// The models of the records.
pub open spec fn events_of(records: Seq<TransactionRecord>) -> Seq<Event> {
    records.map_values(|r: TransactionRecord| r@)
}

/// The models of the accounts.
pub open spec fn ledger_of(accounts: Map<u16, Account>) -> Map<u16, AccountState> {
    accounts.map_values(|a: Account| a@)
}

/// A replay that is exact is exact up to each of its events.
pub proof fn lemma_exact_prefix(events: Seq<Event>, n: int)
    requires
        exact(events),
        0 <= n <= events.len(),
    ensures
        exact(events.take(n)),
    decreases events.len(),
{
    if n == events.len() {
        assert(events.take(n) =~= events);
    } else {
        lemma_exact_prefix(events.drop_last(), n);
        assert(events.drop_last().take(n) =~= events.take(n));
    }
}

/// Applies one record to the account of its client, which is made first if
/// the client has not been seen. Says whether every amount of the resulting
/// account is in range, that is, can be held exactly; if not, the account is
/// left as it was.
pub fn try_apply_record(accounts: &mut HashMap<u16, Account>, record: &TransactionRecord) -> (in_range:
    bool)
    ensures
        in_range == step(account_of(ledger_of(old(accounts)@), record.client), record@).wf(),
        ledger_of(final(accounts)@) == if in_range {
            ledger_step(ledger_of(old(accounts)@), record@)
        } else {
            ledger_of(old(accounts)@).insert(
                record.client,
                account_of(ledger_of(old(accounts)@), record.client),
            )
        },
{
    let ghost before = accounts@;
    let account = accounts.entry(record.client).or_insert(Account::new());
    let in_range = account.try_apply(record);
    proof {
        let account_before = account_of(ledger_of(before), record.client);
        assert(account_before == if before.contains_key(record.client) {
            before[record.client]@
        } else {
            AccountState::new()
        });
        if in_range {
            assert(ledger_of(accounts@) =~= ledger_step(ledger_of(before), record@));
        } else {
            assert(ledger_of(accounts@) =~= ledger_of(before).insert(
                record.client,
                account_before,
            ));
        }
    }
    in_range
}

/// Replays the records, in order, from no accounts at all. Gives the
/// resulting accounts if every amount on the way could be held exactly, and
/// nothing otherwise.
pub fn try_process_records(records: &[TransactionRecord]) -> (r: Option<HashMap<u16, Account>>)
    ensures
        r is Some <==> exact(events_of(records@)),
        r matches Some(accounts) ==> ledger_of(accounts@) == replay(events_of(records@)),
{
    let ghost events = events_of(records@);
    let mut accounts: HashMap<u16, Account> = HashMap::new();
    let mut i: usize = 0;
    assert(ledger_of(accounts@) =~= replay(events.take(0)));
    while i < records.len()
        invariant
            i <= records.len(),
            events == events_of(records@),
            exact(events.take(i as int)),
            ledger_of(accounts@) == replay(events.take(i as int)),
        decreases records.len() - i,
    {
        let in_range = try_apply_record(&mut accounts, &records[i]);
        proof {
            let next = events.take(i + 1);
            assert(next.drop_last() =~= events.take(i as int));
            assert(next.last() == records[i as int]@);
            if !in_range && exact(events) {
                lemma_exact_prefix(events, i + 1);
            }
        }
        if !in_range {
            return None;
        }
        i += 1;
    }
    proof {
        assert(events.take(i as int) =~= events);
    }
    Some(accounts)
}

/// Replays the records, in order, from no accounts at all, and gives the
/// resulting accounts. The replay has to be [`exact`]; where that is not
/// known beforehand, [`try_process_records`] finds it out on the way.
pub fn process_records(records: &[TransactionRecord]) -> (accounts: HashMap<u16, Account>)
    requires
        exact(events_of(records@)),
    ensures
        ledger_of(accounts@) == replay(events_of(records@)),
{
    try_process_records(records).unwrap()
}

} // verus!
