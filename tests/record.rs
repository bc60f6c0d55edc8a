use tx_engine::model::{Transaction, TxType};
use tx_engine::record::{
    parse_amount, parse_client_id, parse_kind, parse_record, parse_tx_id, trim, RecordError,
};

fn fields(parts: &[&str]) -> Vec<Vec<u8>> {
    parts.iter().map(|p| p.as_bytes().to_vec()).collect()
}

#[test]
fn record_deposit_and_withdrawal() {
    assert_eq!(
        parse_record(&fields(&["deposit", "1", "1", "100.0"])),
        Ok(Transaction { tx_type: TxType::Deposit, client_id: 1, tx_id: 1, amount: Some(1_000_000) })
    );
    assert_eq!(
        parse_record(&fields(&["withdrawal", "1", "2", "250.0"])),
        Ok(Transaction {
            tx_type: TxType::Withdrawal,
            client_id: 1,
            tx_id: 2,
            amount: Some(2_500_000)
        })
    );
}

#[test]
fn record_without_amount() {
    for (name, kind) in [
        ("dispute", TxType::Dispute),
        ("resolve", TxType::Resolve),
        ("chargeback", TxType::Chargeback),
    ] {
        assert_eq!(
            parse_record(&fields(&[name, "1", "3", ""])),
            Ok(Transaction { tx_type: kind, client_id: 1, tx_id: 3, amount: None })
        );
    }
}

#[test]
fn record_largest_ids() {
    assert_eq!(
        parse_record(&fields(&["deposit", "65535", "4294967295", "100.0"])),
        Ok(Transaction {
            tx_type: TxType::Deposit,
            client_id: 65535,
            tx_id: 4294967295,
            amount: Some(1_000_000)
        })
    );
}

#[test]
fn record_too_few_fields() {
    assert_eq!(
        parse_record(&fields(&["deposit", "1"])),
        Err(RecordError::FieldCount { found: 2 })
    );
}

#[test]
fn record_bad_fields() {
    assert_eq!(parse_record(&fields(&["invalid_type", "1", "1", "100.0"])), Err(RecordError::Kind));
    assert_eq!(
        parse_record(&fields(&["deposit", "not_a_number", "1", "100.0"])),
        Err(RecordError::ClientId)
    );
    assert_eq!(
        parse_record(&fields(&["deposit", "1", "not_a_number", "100.0"])),
        Err(RecordError::TxId)
    );
    assert_eq!(
        parse_record(&fields(&["deposit", "1", "1", "not_a_number"])),
        Err(RecordError::Amount)
    );
}

#[test]
fn kind_names_ignore_case() {
    assert_eq!(parse_kind(b"deposit"), Some(TxType::Deposit));
    assert_eq!(parse_kind(b"Withdrawal"), Some(TxType::Withdrawal));
    assert_eq!(parse_kind(b"DISPUTE"), Some(TxType::Dispute));
    assert_eq!(parse_kind(b"resolve"), Some(TxType::Resolve));
    assert_eq!(parse_kind(b"chargeback"), Some(TxType::Chargeback));
    assert_eq!(parse_kind(b"deposits"), None);
    assert_eq!(parse_kind(b""), None);
}

#[test]
fn ids_in_range_only() {
    assert_eq!(parse_client_id(b"0"), Some(0));
    assert_eq!(parse_client_id(b"65535"), Some(65535));
    assert_eq!(parse_client_id(b"65536"), None);
    assert_eq!(parse_client_id(b""), None);
    assert_eq!(parse_client_id(b"-1"), None);
    assert_eq!(parse_tx_id(b"4294967295"), Some(4294967295));
    assert_eq!(parse_tx_id(b"4294967296"), None);
    assert_eq!(parse_tx_id(b"99999999999999999999999"), None);
    assert_eq!(parse_tx_id(b"12a"), None);
}

#[test]
fn amounts_to_four_places() {
    assert_eq!(parse_amount(b""), Ok(None));
    assert_eq!(parse_amount(b"100"), Ok(Some(1_000_000)));
    assert_eq!(parse_amount(b"100.5"), Ok(Some(1_005_000)));
    assert_eq!(parse_amount(b"123.4567"), Ok(Some(1_234_567)));
    assert_eq!(parse_amount(b"0.0001"), Ok(Some(1)));
    assert_eq!(parse_amount(b"999999.9999"), Ok(Some(9_999_999_999)));
    assert_eq!(parse_amount(b"-50.25"), Ok(Some(-502_500)));
}

#[test]
fn amounts_round_half_up_past_four_places() {
    assert_eq!(parse_amount(b"200.2344666"), Ok(Some(2_002_345)));
    assert_eq!(parse_amount(b"200.23444"), Ok(Some(2_002_344)));
    assert_eq!(parse_amount(b"0.00005"), Ok(Some(1)));
}

#[test]
fn amounts_malformed_or_too_large() {
    assert_eq!(parse_amount(b"."), Err(RecordError::Amount));
    assert_eq!(parse_amount(b"1."), Err(RecordError::Amount));
    assert_eq!(parse_amount(b".5"), Err(RecordError::Amount));
    assert_eq!(parse_amount(b"1.2.3"), Err(RecordError::Amount));
    assert_eq!(parse_amount(b"-"), Err(RecordError::Amount));
    assert_eq!(parse_amount(b"1e5"), Err(RecordError::Amount));
    assert_eq!(parse_amount(b"922337203685477.5807"), Ok(Some(i64::MAX)));
    assert_eq!(parse_amount(b"922337203685477.5808"), Err(RecordError::Amount));
    assert_eq!(parse_amount(b"99999999999999999999999"), Err(RecordError::Amount));
}

#[test]
fn record_fields_are_trimmed() {
    assert_eq!(
        parse_record(&fields(&["  deposit", "2", "2 ", "200.0"])),
        Ok(Transaction { tx_type: TxType::Deposit, client_id: 2, tx_id: 2, amount: Some(2_000_000) })
    );
    assert_eq!(
        parse_record(&fields(&["deposit", "1", "3", "  200.2344666"])),
        Ok(Transaction { tx_type: TxType::Deposit, client_id: 1, tx_id: 3, amount: Some(2_002_345) })
    );
    assert_eq!(
        parse_record(&fields(&["\tdispute ", " 1", "1", "   "])),
        Ok(Transaction { tx_type: TxType::Dispute, client_id: 1, tx_id: 1, amount: None })
    );
}

#[test]
fn trim_drops_surrounding_space_only() {
    assert_eq!(trim(b"  a b \t\r\n"), b"a b");
    assert_eq!(trim(b"   "), b"");
    assert_eq!(trim(b""), b"");
    assert_eq!(trim(b"x"), b"x");
}
