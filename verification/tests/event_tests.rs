use authchain::bytes::Bytes32;
use authchain::errors::MalformedEventError;
use authchain::events::{
    decode_log, process_receipt, scan_logs, DecodedValue, ItemCreatedEvent, RawLog, ReceiptError,
};

fn word(fill: &[u8]) -> Bytes32 {
    let mut b = vec![0u8; 32];
    let start = 32 - fill.len();
    b[start..].copy_from_slice(fill);
    Bytes32 { bytes: b }
}

fn unique_id_topic() -> Bytes32 {
    let mut b = vec![0u8; 32];
    b[0] = 0x11;
    b[31] = 0x22;
    Bytes32 { bytes: b }
}

fn owner_topic() -> Bytes32 {
    let mut b = vec![0u8; 32];
    for (i, x) in b.iter_mut().enumerate().skip(12) {
        *x = i as u8;
    }
    Bytes32 { bytes: b }
}

/// The ABI encoding of a single string in an event data buffer: an offset
/// word, a length word, then the bytes padded to a 32-byte boundary.
fn string_data(s: &str) -> Vec<u8> {
    let mut data = vec![0u8; 32];
    data[31] = 32;
    let mut len_word = vec![0u8; 32];
    len_word[31] = s.len() as u8;
    data.extend_from_slice(&len_word);
    let mut body = s.as_bytes().to_vec();
    while body.len() % 32 != 0 {
        body.push(0);
    }
    data.extend_from_slice(&body);
    data
}

fn matching_log(name: &str) -> RawLog {
    let desc = ItemCreatedEvent::descriptor();
    RawLog {
        topics: vec![
            Bytes32 {
                bytes: desc.sig_hash.bytes.clone(),
            },
            unique_id_topic(),
            owner_topic(),
        ],
        data: string_data(name),
    }
}

#[test]
fn unrelated_topic_is_skipped_without_error() {
    let desc = ItemCreatedEvent::descriptor();
    let log = RawLog {
        topics: vec![word(&[0xFF]), unique_id_topic(), owner_topic()],
        data: string_data("Diploma"),
    };
    let r = decode_log(&desc, &log.topics, &log.data);
    assert!(matches!(r, Ok(None)));
}

#[test]
fn empty_topic_list_is_skipped_without_error() {
    let desc = ItemCreatedEvent::descriptor();
    let r = decode_log(&desc, &Vec::new(), &string_data("Diploma"));
    assert!(matches!(r, Ok(None)));
}

#[test]
fn three_topics_decode_two_indexed_and_one_data_field() {
    let desc = ItemCreatedEvent::descriptor();
    let log = matching_log("Diploma");
    let ev = decode_log(&desc, &log.topics, &log.data).unwrap().unwrap();
    assert_eq!(ev.name, "ItemCreated");
    assert_eq!(ev.fields.len(), 3);
    assert_eq!(ev.fields[0].name, "uniqueId");
    match &ev.fields[0].value {
        DecodedValue::Word(w) => assert_eq!(w.bytes, unique_id_topic().bytes),
        _ => panic!("expected a word"),
    }
    assert_eq!(ev.fields[1].name, "owner");
    match &ev.fields[1].value {
        DecodedValue::Addr(a) => assert_eq!(a.bytes, owner_topic().bytes[12..].to_vec()),
        _ => panic!("expected an address"),
    }
    assert_eq!(ev.fields[2].name, "name");
    match &ev.fields[2].value {
        DecodedValue::Text(t) => assert_eq!(t, "Diploma".as_bytes()),
        _ => panic!("expected a string"),
    }
}

#[test]
fn typed_event_matches_inputs() {
    let desc = ItemCreatedEvent::descriptor();
    let log = matching_log("Diploma");
    let ev = decode_log(&desc, &log.topics, &log.data).unwrap().unwrap();
    let item = ItemCreatedEvent::from_decoded(&ev).unwrap();
    assert_eq!(item.name, "Diploma");
    assert_eq!(item.unique_id.bytes, unique_id_topic().bytes);
    assert_eq!(item.owner.bytes, owner_topic().bytes[12..].to_vec());
}

#[test]
fn wrong_topic_count_is_malformed() {
    let desc = ItemCreatedEvent::descriptor();
    let mut log = matching_log("Diploma");
    log.topics.pop();
    let r = decode_log(&desc, &log.topics, &log.data);
    assert!(matches!(r, Err(MalformedEventError::TopicCountMismatch)));
}

#[test]
fn short_data_is_malformed() {
    let desc = ItemCreatedEvent::descriptor();
    let log = matching_log("Diploma");
    let short = log.data[0..40].to_vec();
    let r = decode_log(&desc, &log.topics, &short);
    assert!(matches!(r, Err(MalformedEventError::DataTooShort)));
}

#[test]
fn empty_data_is_malformed() {
    let desc = ItemCreatedEvent::descriptor();
    let log = matching_log("Diploma");
    let r = decode_log(&desc, &log.topics, &Vec::new());
    assert!(matches!(r, Err(MalformedEventError::DataTooShort)));
}

#[test]
fn scan_keeps_matching_logs_in_order() {
    let desc = ItemCreatedEvent::descriptor();
    let unrelated = RawLog {
        topics: vec![word(&[0xEE])],
        data: Vec::new(),
    };
    let logs = vec![unrelated, matching_log("First"), matching_log("Second")];
    let evs = scan_logs(&desc, &logs).unwrap();
    assert_eq!(evs.len(), 2);
    let first = ItemCreatedEvent::from_decoded(&evs[0]).unwrap();
    let second = ItemCreatedEvent::from_decoded(&evs[1]).unwrap();
    assert_eq!(first.name, "First");
    assert_eq!(second.name, "Second");
}

#[test]
fn scan_of_unrelated_logs_is_empty_not_an_error() {
    let desc = ItemCreatedEvent::descriptor();
    let logs = vec![RawLog {
        topics: vec![word(&[0xEE])],
        data: Vec::new(),
    }];
    let evs = scan_logs(&desc, &logs).unwrap();
    assert!(evs.is_empty());
}

#[test]
fn last_in_picks_the_newest_event() {
    let desc = ItemCreatedEvent::descriptor();
    let logs = vec![matching_log("First"), matching_log("Second")];
    let evs = scan_logs(&desc, &logs).unwrap();
    let last = ItemCreatedEvent::last_in(&evs).unwrap();
    assert_eq!(last.name, "Second");
}

#[test]
fn last_in_of_nothing_is_none() {
    assert!(ItemCreatedEvent::last_in(&Vec::new()).is_none());
}

#[test]
fn rejected_receipt_is_reported() {
    let desc = ItemCreatedEvent::descriptor();
    let logs = vec![matching_log("Diploma")];
    let r = process_receipt(&desc, 0, &logs);
    assert!(matches!(r, Err(ReceiptError::Rejected(_))));
}

#[test]
fn successful_receipt_scans_logs() {
    let desc = ItemCreatedEvent::descriptor();
    let logs = vec![matching_log("Diploma")];
    let evs = process_receipt(&desc, 1, &logs).unwrap();
    assert_eq!(evs.len(), 1);
}

#[test]
fn descriptor_hash_is_the_signature_hash() {
    let desc = ItemCreatedEvent::descriptor();
    let expected = ethers_core::utils::keccak256("ItemCreated(string,bytes32,address)").to_vec();
    assert_eq!(desc.sig_hash.bytes, expected);
}

#[test]
fn init_is_the_empty_event() {
    let e = ItemCreatedEvent::init();
    assert!(e.name.is_empty());
    assert_eq!(e.unique_id.bytes, vec![0u8; 32]);
    assert_eq!(e.owner.bytes, vec![0u8; 20]);
}

#[test]
fn new_keeps_its_arguments() {
    let e = ItemCreatedEvent::new(
        "Art".to_string(),
        unique_id_topic(),
        authchain::bytes::Address {
            bytes: vec![5u8; 20],
        },
    );
    assert_eq!(e.name, "Art");
    assert_eq!(e.unique_id.bytes, unique_id_topic().bytes);
    assert_eq!(e.owner.bytes, vec![5u8; 20]);
}
