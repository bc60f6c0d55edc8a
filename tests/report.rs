use tx_engine::model::ClientAccount;
use tx_engine::report::{decimal_digits, fmt_decimals, report_row};

fn text(b: Vec<u8>) -> String {
    String::from_utf8(b).unwrap()
}

#[test]
fn decimals_trim_trailing_zeros_and_point() {
    assert_eq!(text(fmt_decimals(1_005_000)), "100.5");
    assert_eq!(text(fmt_decimals(1_000_000)), "100");
    assert_eq!(text(fmt_decimals(0)), "0");
    assert_eq!(text(fmt_decimals(1)), "0.0001");
    assert_eq!(text(fmt_decimals(1_234_567)), "123.4567");
    assert_eq!(text(fmt_decimals(1_234_560)), "123.456");
    assert_eq!(text(fmt_decimals(1_234_500)), "123.45");
    assert_eq!(text(fmt_decimals(100_000)), "10");
    assert_eq!(text(fmt_decimals(-500_000)), "-50");
    assert_eq!(text(fmt_decimals(-1)), "-0.0001");
    assert_eq!(
        text(fmt_decimals(i128::MIN)),
        "-17014118346046923173168730371588410.5728"
    );
}

#[test]
fn decimal_digits_of_numbers() {
    assert_eq!(text(decimal_digits(0)), "0");
    assert_eq!(text(decimal_digits(7)), "7");
    assert_eq!(text(decimal_digits(65535)), "65535");
}

#[test]
fn report_rows() {
    let acct = ClientAccount {
        client_id: 1,
        available: 1_005_000,
        held: 0,
        total: 1_005_000,
        locked: false,
    };
    assert_eq!(text(report_row(&acct)), "1,100.5,0,100.5,false");
    let locked = ClientAccount { client_id: 2, available: -500_000, held: 1_000_000, total: 500_000, locked: true };
    assert_eq!(text(report_row(&locked)), "2,-50,100,50,true");
}
