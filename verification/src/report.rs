//! The rows of the output table.

use vstd::prelude::*;
use rust_decimal::Decimal;
use crate::account::{Account, AccountState};
use crate::amount::{lemma_pow10_add, lemma_pow10_positive, pow10, Amount, Dec};

verus! {

/// The text that `rust_decimal` writes for the decimal `mantissa / 10^scale`
/// when it is asked for four fractional digits.
pub uninterp spec fn fixed_text(mantissa: int, scale: nat) -> Seq<char>;

/// `text` ends in a point and four digits, with at least one character
/// before the point.
pub open spec fn four_fraction_digits(text: Seq<char>) -> bool {
    &&& text.len() >= 6
    &&& text[text.len() - 5] == '.'
    &&& forall|i: int| text.len() - 4 <= i < text.len() ==> '0' <= #[trigger] text[i] <= '9'
}

/// The text of an amount with four fractional digits.
pub open spec fn text_of(d: Dec) -> Seq<char> {
    fixed_text(d.mantissa, d.scale)
}

/// One row of the output table: a client and the state of its account. The
/// total is available plus held.
#[derive(Debug)]
pub struct OutputRecord {
    pub client: u16,
    pub available: String,
    pub held: String,
    pub total: String,
    pub locked: bool,
}

/// `10^27`.
pub const TEN_TO_27: i128 = 1_000_000_000_000_000_000_000_000_000;

/// `10^28`.
pub const TEN_TO_28: i128 = 10_000_000_000_000_000_000_000_000_000;

/// The whole part of the number has at most 27 digits. With the point and
/// four fractional digits its text then has at most 32 characters, which is
/// all that `rust_decimal` has room for when it writes a decimal.
pub open spec fn printable(d: Dec) -> bool {
    -pow10(27 + d.scale) < d.mantissa < pow10(27 + d.scale)
}

/// Whether the amount is [`printable`].
fn is_printable(a: Amount) -> (r: bool)
    ensures
        r == printable(a@),
{
    let m = a.mantissa();
    let s = a.scale();
    proof {
        assert(pow10(27) == TEN_TO_27 && pow10(28) == TEN_TO_28) by {
            reveal_with_fuel(pow10, 29);
        }
        if s >= 2 {
            lemma_pow10_add(29, (s - 2) as nat);
            lemma_pow10_positive((s - 2) as nat);
            assert(pow10(29) == 10 * pow10(28)) by {
                reveal_with_fuel(pow10, 2);
            }
            assert(pow10(27 + s as nat) >= pow10(29)) by (nonlinear_arith)
                requires
                    pow10(27 + s as nat) == pow10(29) * pow10((s - 2) as nat),
                    pow10((s - 2) as nat) >= 1,
                    pow10(29) >= 0,
            ;
        }
    }
    if s == 0 {
        -TEN_TO_27 < m && m < TEN_TO_27
    } else if s == 1 {
        -TEN_TO_28 < m && m < TEN_TO_28
    } else {
        true
    }
}

/// The `Display` of `rust_decimal::Decimal` with precision 4, on a decimal
/// built by `Decimal::from_i128_with_scale`.
///
/// Not proved; taken from the crate's source. The crate writes into a
/// buffer of 32 characters and panics when the text is longer, which it is
/// exactly when the number is not [`printable`]. The text is a function of
/// the mantissa and the scale alone, and the contract gives it a name. Of
/// its shape the contract says only that the crate writes a point and then
/// exactly four digits, cutting or filling with zeros as needed.
#[verifier::external_body]
fn format_amount(a: Amount) -> (text: String)
    requires
        a@.wf(),
        printable(a@),
    ensures
        text@ == fixed_text(a@.mantissa, a@.scale),
        four_fraction_digits(text@),
{
    let d = Decimal::from_i128_with_scale(a.mantissa(), a.scale());
    format!("{:.4}", d)
}

/// What [`output_record`] needs of an account: the total can be held
/// exactly, and available, held and total can each be written.
pub open spec fn reportable(s: AccountState) -> bool {
    &&& s.available.plus_fits(s.held)
    &&& printable(s.available)
    &&& printable(s.held)
    &&& printable(s.available.plus(s.held))
}

/// The output row of `client`, whose account is `account`; nothing if the
/// account is not [`reportable`].
pub fn output_record(client: u16, account: &Account) -> (r: Option<OutputRecord>)
    ensures
        r is Some <==> reportable(account@),
        r matches Some(row) ==> {
            &&& row.client == client
            &&& row.available@ == text_of(account@.available)
            &&& row.held@ == text_of(account@.held)
            &&& row.total@ == text_of(account@.available.plus(account@.held))
            &&& row.locked == account@.locked
            &&& four_fraction_digits(row.available@)
            &&& four_fraction_digits(row.held@)
            &&& four_fraction_digits(row.total@)
        },
{
    let available = account.available();
    let held = account.held();
    proof {
        use_type_invariant(&available);
        use_type_invariant(&held);
    }
    match account.total() {
        Some(total) => {
            proof {
                use_type_invariant(&total);
            }
            if is_printable(available) && is_printable(held) && is_printable(total) {
                Some(
                    OutputRecord {
                        client,
                        available: format_amount(available),
                        held: format_amount(held),
                        total: format_amount(total),
                        locked: account.locked(),
                    },
                )
            } else {
                None
            }
        },
        None => None,
    }
}

} // verus!
