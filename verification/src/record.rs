//! Transaction records: what the engine is fed.

use vstd::prelude::*;
use crate::amount::{Amount, Dec};

verus! {

/// The five kinds of transaction.
#[derive(Clone, Copy, Debug, PartialEq, Eq)]
pub enum TransactionType {
    Deposit,
    Withdrawal,
    Dispute,
    Resolve,
    Chargeback,
}

/// ASCII whitespace: space, tab, line feed, form feed, carriage return.
pub open spec fn is_space(b: u8) -> bool {
    b == 32 || b == 9 || b == 10 || b == 12 || b == 13
}

/// An ASCII capital letter as its small letter; any other byte as it is.
pub open spec fn lower(b: u8) -> u8 {
    if 65 <= b <= 90 {
        (b + 32) as u8
    } else {
        b
    }
}

/// `text` without the whitespace at its start and at its end.
pub open spec fn trimmed(text: Seq<u8>) -> Seq<u8>
    decreases text.len(),
{
    if text.len() == 0 {
        text
    } else if is_space(text[0]) {
        trimmed(text.drop_first())
    } else if is_space(text.last()) {
        trimmed(text.drop_last())
    } else {
        text
    }
}

/// `text` with its capital letters made small.
pub open spec fn lowered(text: Seq<u8>) -> Seq<u8> {
    text.map_values(|b: u8| lower(b))
}

/// What is left of `text` between the whitespace at its start and the
/// whitespace at its end is `text[start..end]`.
proof fn lemma_trimmed(text: Seq<u8>, start: int, end: int)
    requires
        0 <= start <= end <= text.len(),
        forall|i: int| 0 <= i < start ==> is_space(#[trigger] text[i]),
        forall|i: int| end <= i < text.len() ==> is_space(#[trigger] text[i]),
        start < end ==> !is_space(text[start]) && !is_space(text[end - 1]),
        start == end ==> end == text.len(),
    ensures
        trimmed(text) == text.subrange(start, end),
    decreases text.len(),
{
    if text.len() == 0 {
        assert(text.subrange(start, end) =~= text);
    } else if is_space(text[0]) {
        let rest = text.drop_first();
        assert(start >= 1);
        assert forall|i: int| 0 <= i < start - 1 implies is_space(#[trigger] rest[i]) by {
            assert(rest[i] == text[i + 1]);
        }
        assert forall|i: int| end - 1 <= i < rest.len() implies is_space(#[trigger] rest[i]) by {
            assert(rest[i] == text[i + 1]);
        }
        lemma_trimmed(rest, start - 1, end - 1);
        assert(rest.subrange(start - 1, end - 1) =~= text.subrange(start, end));
    } else if is_space(text.last()) {
        let rest = text.drop_last();
        assert(start == 0);
        assert(end < text.len());
        lemma_trimmed(rest, start, end);
        assert(rest.subrange(start, end) =~= text.subrange(start, end));
    } else {
        assert(start == 0);
        assert(end == text.len());
        assert(text.subrange(start, end) =~= text);
    }
}

impl TransactionType {
    /// The name of the kind, in small ASCII letters.
    pub open spec fn name(self) -> Seq<u8> {
        match self {
            TransactionType::Deposit => seq![100u8, 101u8, 112u8, 111u8, 115u8, 105u8, 116u8],
            TransactionType::Withdrawal => seq![
                119u8,
                105u8,
                116u8,
                104u8,
                100u8,
                114u8,
                97u8,
                119u8,
                97u8,
                108u8,
            ],
            TransactionType::Dispute => seq![100u8, 105u8, 115u8, 112u8, 117u8, 116u8, 101u8],
            TransactionType::Resolve => seq![114u8, 101u8, 115u8, 111u8, 108u8, 118u8, 101u8],
            TransactionType::Chargeback => seq![
                99u8,
                104u8,
                97u8,
                114u8,
                103u8,
                101u8,
                98u8,
                97u8,
                99u8,
                107u8,
            ],
        }
    }

    /// `text` spells the name of the kind, in capital or small letters, with
    /// or without whitespace around it.
    pub open spec fn named_by(self, text: Seq<u8>) -> bool {
        lowered(trimmed(text)) == self.name()
    }

    /// The kind that `text` names, if it names one.
    pub open spec fn named(text: Seq<u8>) -> Option<TransactionType> {
        if TransactionType::Deposit.named_by(text) {
            Some(TransactionType::Deposit)
        } else if TransactionType::Withdrawal.named_by(text) {
            Some(TransactionType::Withdrawal)
        } else if TransactionType::Dispute.named_by(text) {
            Some(TransactionType::Dispute)
        } else if TransactionType::Resolve.named_by(text) {
            Some(TransactionType::Resolve)
        } else if TransactionType::Chargeback.named_by(text) {
            Some(TransactionType::Chargeback)
        } else {
            None
        }
    }

    /// The name of the kind, as `deposit`, `withdrawal`, `dispute`, `resolve`
    /// or `chargeback`.
    fn name_bytes(self) -> (r: Vec<u8>)
        ensures
            r@ == self.name(),
    {
        let r = match self {
            TransactionType::Deposit => vec![100u8, 101u8, 112u8, 111u8, 115u8, 105u8, 116u8],
            TransactionType::Withdrawal => vec![
                119u8,
                105u8,
                116u8,
                104u8,
                100u8,
                114u8,
                97u8,
                119u8,
                97u8,
                108u8,
            ],
            TransactionType::Dispute => vec![100u8, 105u8, 115u8, 112u8, 117u8, 116u8, 101u8],
            TransactionType::Resolve => vec![114u8, 101u8, 115u8, 111u8, 108u8, 118u8, 101u8],
            TransactionType::Chargeback => vec![
                99u8,
                104u8,
                97u8,
                114u8,
                103u8,
                101u8,
                98u8,
                97u8,
                99u8,
                107u8,
            ],
        };
        assert(r@ =~= self.name());
        r
    }

    /// Whether `text[start..end]` spells the name of the kind, in capital or
    /// small letters.
    fn spelled_in(self, text: &[u8], start: usize, end: usize) -> (r: bool)
        requires
            start <= end <= text.len(),
        ensures
            r == (lowered(text@.subrange(start as int, end as int)) == self.name()),
    {
        let name = self.name_bytes();
        let ghost word = lowered(text@.subrange(start as int, end as int));
        if end - start != name.len() {
            return false;
        }
        let mut i: usize = 0;
        while i < name.len()
            invariant
                i <= name.len(),
                start <= end <= text.len(),
                end - start == name.len(),
                name@ == self.name(),
                word == lowered(text@.subrange(start as int, end as int)),
                forall|j: int| 0 <= j < i ==> word[j] == name@[j],
            decreases name.len() - i,
        {
            if to_lower(text[start + i]) != name[i] {
                assert(word[i as int] != name@[i as int]);
                return false;
            }
            i += 1;
        }
        assert(word =~= name@);
        true
    }

    /// The kind that `text` names: one of `deposit`, `withdrawal`, `dispute`,
    /// `resolve`, `chargeback`, in capital or small letters, with or without
    /// whitespace around it.
    pub fn from_name(text: &[u8]) -> (r: Option<TransactionType>)
        ensures
            r == TransactionType::named(text@),
    {
        let mut start: usize = 0;
        while start < text.len() && is_space_byte(text[start])
            invariant
                start <= text.len(),
                forall|i: int| 0 <= i < start ==> is_space(#[trigger] text@[i]),
            decreases text.len() - start,
        {
            start += 1;
        }
        let mut end: usize = text.len();
        while end > start && is_space_byte(text[end - 1])
            invariant
                start <= end <= text.len(),
                forall|i: int| end <= i < text.len() ==> is_space(#[trigger] text@[i]),
            decreases end,
        {
            end -= 1;
        }
        proof {
            lemma_trimmed(text@, start as int, end as int);
        }
        if TransactionType::Deposit.spelled_in(text, start, end) {
            Some(TransactionType::Deposit)
        } else if TransactionType::Withdrawal.spelled_in(text, start, end) {
            Some(TransactionType::Withdrawal)
        } else if TransactionType::Dispute.spelled_in(text, start, end) {
            Some(TransactionType::Dispute)
        } else if TransactionType::Resolve.spelled_in(text, start, end) {
            Some(TransactionType::Resolve)
        } else if TransactionType::Chargeback.spelled_in(text, start, end) {
            Some(TransactionType::Chargeback)
        } else {
            None
        }
    }
}

fn is_space_byte(b: u8) -> (r: bool)
    ensures
        r == is_space(b),
{
    b == 32 || b == 9 || b == 10 || b == 12 || b == 13
}

fn to_lower(b: u8) -> (r: u8)
    ensures
        r == lower(b),
{
    if 65 <= b && b <= 90 {
        b + 32
    } else {
        b
    }
}

/// One transaction as it is read from the input. A deposit or a withdrawal
/// carries an amount; the other kinds refer to an earlier deposit by `tx`.
#[derive(Clone, Copy, Debug)]
pub struct TransactionRecord {
    pub tx_type: TransactionType,
    pub client: u16,
    pub tx: u32,
    pub amount: Option<Amount>,
}

/// The model of a [`TransactionRecord`].
pub struct Event {
    pub kind: TransactionType,
    pub client: u16,
    pub tx: u32,
    pub amount: Option<Dec>,
}

impl Event {
    /// The amount, if there is one, is well-formed.
    pub open spec fn wf(self) -> bool {
        self.amount matches Some(a) ==> a.wf()
    }
}

impl View for TransactionRecord {
    type V = Event;

    open spec fn view(&self) -> Event {
        Event {
            kind: self.tx_type,
            client: self.client,
            tx: self.tx,
            amount: match self.amount {
                Some(a) => Some(a@),
                None => None,
            },
        }
    }
}

} // verus!
