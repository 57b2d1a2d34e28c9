use ledger_engine::account::Account;
use ledger_engine::amount::{Amount, MAX_MANTISSA};
use ledger_engine::record::{TransactionRecord, TransactionType};
use ledger_engine::report::output_record;

fn apply(account: &mut Account, tx_type: TransactionType, tx: u32, amount: Option<(i128, u32)>) {
    let amount = amount.map(|(m, s)| Amount::new(m, s).unwrap());
    assert!(account.try_apply(&TransactionRecord { tx_type, client: 1, tx, amount }));
}

#[test]
fn output_record_of_a_new_account() {
    let row = output_record(3, &Account::new()).unwrap();
    assert_eq!(row.client, 3);
    assert_eq!(row.available, "0.0000");
    assert_eq!(row.held, "0.0000");
    assert_eq!(row.total, "0.0000");
    assert!(!row.locked);
}

#[test]
fn output_record_writes_four_fractional_digits() {
    let mut account = Account::new();
    apply(&mut account, TransactionType::Deposit, 1, Some((10, 1)));
    apply(&mut account, TransactionType::Deposit, 2, Some((225, 2)));
    apply(&mut account, TransactionType::Dispute, 2, None);
    let row = output_record(1, &account).unwrap();
    assert_eq!(row.client, 1);
    assert_eq!(row.available, "1.0000");
    assert_eq!(row.held, "2.2500");
    assert_eq!(row.total, "3.2500");
    assert!(!row.locked);
}

#[test]
fn output_record_of_a_locked_account_with_negative_available() {
    let mut account = Account::new();
    apply(&mut account, TransactionType::Deposit, 1, Some((20, 1)));
    apply(&mut account, TransactionType::Withdrawal, 2, Some((15, 1)));
    apply(&mut account, TransactionType::Dispute, 1, None);
    let row = output_record(9, &account).unwrap();
    assert_eq!(row.available, "-1.5000");
    assert_eq!(row.held, "2.0000");
    assert_eq!(row.total, "0.5000");
    apply(&mut account, TransactionType::Chargeback, 1, None);
    let row = output_record(9, &account).unwrap();
    assert_eq!(row.client, 9);
    assert_eq!(row.available, "-1.5000");
    assert_eq!(row.held, "0.0000");
    assert_eq!(row.total, "-1.5000");
    assert!(row.locked);
}

#[test]
fn output_record_cuts_digits_after_the_fourth() {
    let mut account = Account::new();
    apply(&mut account, TransactionType::Deposit, 1, Some((123456, 5)));
    apply(&mut account, TransactionType::Deposit, 2, Some((123456, 0)));
    apply(&mut account, TransactionType::Dispute, 2, None);
    let row = output_record(1, &account).unwrap();
    assert_eq!(row.available, "1.2345");
    assert_eq!(row.held, "123456.0000");
    assert_eq!(row.total, "123457.2345");
}

#[test]
fn output_record_is_nothing_when_the_total_overflows() {
    let mut account = Account::new();
    apply(&mut account, TransactionType::Deposit, 1, Some((MAX_MANTISSA, 4)));
    apply(&mut account, TransactionType::Dispute, 1, None);
    apply(&mut account, TransactionType::Deposit, 2, Some((1, 4)));
    assert!(account.total().is_none());
    assert!(output_record(1, &account).is_none());
    apply(&mut account, TransactionType::Withdrawal, 3, Some((1, 4)));
    let row = output_record(1, &account).unwrap();
    assert_eq!(row.available, "0.0000");
    assert_eq!(row.held, "7922816251426433759354395.0335");
    assert_eq!(row.total, "7922816251426433759354395.0335");
}

#[test]
fn output_record_writes_whole_parts_of_up_to_27_digits() {
    let most = 10i128.pow(27) - 1;
    let mut account = Account::new();
    apply(&mut account, TransactionType::Deposit, 1, Some((most, 0)));
    let row = output_record(1, &account).unwrap();
    assert_eq!(row.available, "999999999999999999999999999.0000");
    assert_eq!(row.total, "999999999999999999999999999.0000");

    let mut account = Account::new();
    apply(&mut account, TransactionType::Deposit, 1, Some((10 * most + 9, 1)));
    let row = output_record(1, &account).unwrap();
    assert_eq!(row.available, "999999999999999999999999999.9000");

    let mut account = Account::new();
    apply(&mut account, TransactionType::Deposit, 1, Some((MAX_MANTISSA, 2)));
    let row = output_record(1, &account).unwrap();
    assert_eq!(row.available, "792281625142643375935439503.3500");

    let mut account = Account::new();
    apply(&mut account, TransactionType::Deposit, 3, Some((most, 0)));
    apply(&mut account, TransactionType::Withdrawal, 4, Some((most, 0)));
    apply(&mut account, TransactionType::Dispute, 3, None);
    let row = output_record(1, &account).unwrap();
    assert_eq!(row.available, "-999999999999999999999999999.0000");
    assert_eq!(row.held, "999999999999999999999999999.0000");
    assert_eq!(row.total, "0.0000");
}

#[test]
fn output_record_is_nothing_when_a_whole_part_has_28_digits() {
    let least = 10i128.pow(27);
    let mut account = Account::new();
    apply(&mut account, TransactionType::Deposit, 1, Some((least, 0)));
    assert!(account.total().is_some());
    assert!(output_record(1, &account).is_none());

    let mut account = Account::new();
    apply(&mut account, TransactionType::Deposit, 1, Some((10 * least, 1)));
    assert!(output_record(1, &account).is_none());

    let mut account = Account::new();
    apply(&mut account, TransactionType::Deposit, 1, Some((MAX_MANTISSA, 0)));
    assert!(output_record(1, &account).is_none());

    // Available and held can be written, their sum cannot.
    let mut account = Account::new();
    apply(&mut account, TransactionType::Deposit, 1, Some((least - 1, 0)));
    apply(&mut account, TransactionType::Dispute, 1, None);
    apply(&mut account, TransactionType::Deposit, 2, Some((1, 0)));
    assert!(output_record(1, &account).is_none());

    // Held alone cannot be written.
    let mut account = Account::new();
    apply(&mut account, TransactionType::Deposit, 1, Some((least, 0)));
    apply(&mut account, TransactionType::Withdrawal, 2, Some((1, 0)));
    apply(&mut account, TransactionType::Dispute, 1, None);
    assert!(output_record(1, &account).is_none());
}

/// The text of `mantissa / 10^scale` with the digits after the fourth cut
/// off; computed with plain integers.
fn cut_to_four(mantissa: i128, scale: u32) -> String {
    let magnitude = mantissa.unsigned_abs();
    let (whole, fraction) = if scale <= 4 {
        let unit = 10u128.pow(scale);
        (magnitude / unit, (magnitude % unit) * 10u128.pow(4 - scale))
    } else {
        let unit = 10u128.pow(scale);
        (magnitude / unit, (magnitude % unit) / 10u128.pow(scale - 4))
    };
    let sign = if mantissa < 0 { "-" } else { "" };
    format!("{}{}.{:04}", sign, whole, fraction)
}

#[test]
fn output_record_agrees_with_integer_arithmetic() {
    let mut seed: u64 = 0x5eed_0005;
    let mut next = move || {
        seed = seed.wrapping_mul(6364136223846793005).wrapping_add(1442695040888963407);
        seed >> 11
    };
    for _ in 0..100_000 {
        let bits = (next() % 97) as u32;
        let raw = ((next() as u128) << 64 | (next() as u128) << 11 | next() as u128)
            & ((1u128 << 96) - 1);
        let magnitude = if bits == 0 { 0 } else { raw >> (96 - bits) } as i128;
        let nudge = (next() % 3) as i128 - 1;
        let mantissa = match next() % 8 {
            0 => MAX_MANTISSA - (magnitude % 3),
            1 => 10i128.pow(27) + nudge,
            2 => -(10i128.pow(27)) + nudge,
            3 => 10i128.pow(28) + nudge,
            4 => -magnitude,
            _ => magnitude,
        };
        let scale = match next() % 3 {
            0 => (next() % 3) as u32,
            _ => (next() % 29) as u32,
        };
        let mut account = Account::new();
        apply(&mut account, TransactionType::Deposit, 1, Some((mantissa, scale)));
        let whole_digits_fit = mantissa.unsigned_abs() / 10u128.pow(scale) < 10u128.pow(27);
        match output_record(1, &account) {
            Some(row) => {
                assert!(whole_digits_fit, "{} {}", mantissa, scale);
                if mantissa != 0 {
                    assert_eq!(row.available, cut_to_four(mantissa, scale));
                    assert_eq!(row.total, row.available);
                }
                let text: Vec<char> = row.available.chars().collect();
                assert!(text.len() >= 6);
                assert_eq!(text[text.len() - 5], '.');
                assert!(text[text.len() - 4..].iter().all(|c| c.is_ascii_digit()));
                assert_eq!(row.held, "0.0000");
            }
            None => assert!(!whole_digits_fit, "{} {}", mantissa, scale),
        }
    }
}
