use vida_ledger::handler::{decode_transfer, AmountField, Payload, PayloadIssue};

fn payload(action: Option<&str>, amount: AmountField, receiver: Option<&str>) -> Payload {
    Payload {
        action: action.map(|a| a.to_string()),
        amount,
        receiver: receiver.map(|r| r.to_string()),
    }
}

#[test]
fn transfer_action_in_any_case() {
    let p = payload(Some("TrAnSfEr"), AmountField::Text("25".to_string()), Some("0xbb02"));
    let req = decode_transfer("0xaa01", &p).unwrap();
    assert_eq!(req.sender, vec![0xaa, 0x01]);
    assert_eq!(req.receiver, vec![0xbb, 0x02]);
    assert_eq!(req.amount.to_decimal_string(), "25");
}

#[test]
fn whole_number_amount_and_no_prefix() {
    let p = payload(Some("transfer"), AmountField::Whole(300), Some("BB02"));
    let req = decode_transfer("aa01", &p).unwrap();
    assert_eq!(req.sender, vec![0xaa, 0x01]);
    assert_eq!(req.receiver, vec![0xbb, 0x02]);
    assert_eq!(req.amount.to_be_bytes(), vec![1, 44]);
}

#[test]
fn other_actions_are_ignored() {
    let p = payload(Some("mint"), AmountField::Whole(1), Some("bb"));
    assert_eq!(decode_transfer("aa", &p).err(), Some(PayloadIssue::NotTransfer));
    let p = payload(None, AmountField::Whole(1), Some("bb"));
    assert_eq!(decode_transfer("aa", &p).err(), Some(PayloadIssue::NotTransfer));
    let p = payload(Some("transfers"), AmountField::Whole(1), Some("bb"));
    assert_eq!(decode_transfer("aa", &p).err(), Some(PayloadIssue::NotTransfer));
}

#[test]
fn missing_receiver_is_reported() {
    let p = payload(Some("transfer"), AmountField::Whole(1), None);
    assert_eq!(decode_transfer("aa", &p).err(), Some(PayloadIssue::MissingReceiver));
}

#[test]
fn bad_amounts_are_reported() {
    let p = payload(Some("transfer"), AmountField::Unusable, Some("bb"));
    assert_eq!(decode_transfer("aa", &p).err(), Some(PayloadIssue::BadAmount));
    let p = payload(Some("transfer"), AmountField::Text("ten".to_string()), Some("bb"));
    assert_eq!(decode_transfer("aa", &p).err(), Some(PayloadIssue::BadAmount));
}

#[test]
fn bad_hex_addresses_are_reported() {
    let p = payload(Some("transfer"), AmountField::Whole(1), Some("bb"));
    assert_eq!(decode_transfer("0xa", &p).err(), Some(PayloadIssue::BadSender));
    let p = payload(Some("transfer"), AmountField::Whole(1), Some("xyz0"));
    assert_eq!(decode_transfer("aa", &p).err(), Some(PayloadIssue::BadReceiver));
}
