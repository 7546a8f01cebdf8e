use typed_store::codec::{Decoder, Encoder, SchemaError};
use typed_store::database::{decoded_step, encode_key, encode_pair, engine_outcome, found_value};
use typed_store::database::engine_message;
use typed_store::database::{DBError, DBStats};
use typed_store::schema::KeyValueSchema;
use typed_store::db_iterator::{DBIterationHandler, Direction, IteratorMode};

#[test]
fn u32_is_written_most_significant_byte_first() {
    assert_eq!(0x0102_0304u32.encode().unwrap(), vec![1, 2, 3, 4]);
    assert_eq!(0u32.encode().unwrap(), vec![0, 0, 0, 0]);
    assert_eq!(1u32.encode().unwrap(), vec![0, 0, 0, 1]);
    assert_eq!(256u32.encode().unwrap(), vec![0, 0, 1, 0]);
    assert_eq!(u32::MAX.encode().unwrap(), vec![255, 255, 255, 255]);
}

#[test]
fn u32_is_read_back() {
    assert_eq!(u32::decode(&[1, 2, 3, 4]).unwrap(), 0x0102_0304);
    assert_eq!(u32::decode(&[255, 255, 255, 255]).unwrap(), u32::MAX);
    for x in [0u32, 1, 255, 256, 65535, 65536, 0x00ff_ffff, 0x0100_0000, u32::MAX - 1, u32::MAX] {
        assert_eq!(u32::decode(&x.encode().unwrap()).unwrap(), x);
        assert_eq!(x.encode().unwrap(), x.to_be_bytes().to_vec());
    }
}

#[test]
fn u32_of_another_length_is_refused() {
    assert!(matches!(u32::decode(&[]), Err(SchemaError::InvalidLength)));
    assert!(matches!(u32::decode(&[1, 2, 3]), Err(SchemaError::InvalidLength)));
    assert!(matches!(u32::decode(&[1, 2, 3, 4, 5]), Err(SchemaError::InvalidLength)));
}

#[test]
fn u32_encodings_order_as_the_numbers() {
    let numbers = [0u32, 1, 2, 255, 256, 257, 65535, 65536, 1 << 24, u32::MAX];
    for pair in numbers.windows(2) {
        assert!(pair[0].encode().unwrap() < pair[1].encode().unwrap());
    }
}

#[test]
fn string_is_written_as_utf8() {
    assert_eq!("a".to_string().encode().unwrap(), vec![0x61]);
    assert_eq!(String::new().encode().unwrap(), Vec::<u8>::new());
    assert_eq!("\u{e9}".to_string().encode().unwrap(), vec![0xc3, 0xa9]);
    assert_eq!("\u{1f600}".to_string().encode().unwrap(), vec![0xf0, 0x9f, 0x98, 0x80]);
}

#[test]
fn string_is_read_back() {
    assert_eq!(String::decode(&[0x61, 0xc3, 0xa9]).unwrap(), "a\u{e9}");
    assert_eq!(String::decode(&[]).unwrap(), "");
    for s in ["", "app", "apple", "na\u{ef}ve", "\u{4e16}\u{754c}"] {
        assert_eq!(String::decode(&s.to_string().encode().unwrap()).unwrap(), s);
    }
}

#[test]
fn string_of_invalid_utf8_is_refused() {
    assert!(matches!(String::decode(&[0xff, 0xfe]), Err(SchemaError::InvalidUtf8)));
    assert!(matches!(String::decode(&[0xc3]), Err(SchemaError::InvalidUtf8)));
    assert!(matches!(String::decode(&[0x61, 0x80]), Err(SchemaError::InvalidUtf8)));
    assert!(matches!(String::decode(&[0xed, 0xa0, 0x80]), Err(SchemaError::InvalidUtf8)));
}

#[test]
fn schema_error_in_words() {
    assert_eq!(SchemaError::InvalidLength.message(), "invalid length");
    assert_eq!(SchemaError::InvalidTag.message(), "invalid tag");
    assert_eq!(SchemaError::InvalidUtf8.message(), "invalid UTF-8");
    assert_eq!(SchemaError::Custom("no such field".to_string()).message(), "no such field");
}

#[test]
fn db_error_in_words() {
    let e = DBError::from(SchemaError::InvalidUtf8);
    assert!(matches!(e, DBError::SchemaError { error: SchemaError::InvalidUtf8 }));
    assert_eq!(e.message(), "Schema error: invalid UTF-8");
    let e = DBError::SchemaError { error: SchemaError::Custom("odd".to_string()) };
    assert_eq!(e.message(), "Schema error: odd");
    let e = DBError::from(sled::Error::Unsupported("nope".to_string()));
    assert!(matches!(e, DBError::SledError { .. }));
    assert_eq!(e.message(), "SledDB error: Unsupported: nope");
}

#[test]
fn stats_from_what_the_engine_said() {
    assert_eq!(DBStats::from_report(Ok(4096)).size_on_disk(), 4096);
    assert_eq!(DBStats::from_report(Ok(0)).size_on_disk(), 0);
    assert_eq!(
        DBStats::from_report(Err(sled::Error::Unsupported("unknown".to_string()))).size_on_disk(),
        0
    );
}

fn raw_store() -> sled::Db {
    let db = sled::Config::new().temporary(true).open().unwrap();
    for (k, v) in [(&[1u8][..], "one"), (&[1, 0], "one-zero"), (&[1, 255], "one-max"), (&[2], "two"), (&[], "none")] {
        db.insert(k, v).unwrap();
    }
    db
}

fn keys(db: &sled::Db, mode: IteratorMode) -> Vec<Vec<u8>> {
    let mut it = db.iterator(mode);
    let mut out = Vec::new();
    while let Some(item) = it.next() {
        out.push(item.unwrap().0);
    }
    assert!(!it.has_failed());
    assert!(it.next().is_none());
    out
}

#[test]
fn raw_scan_follows_the_byte_order() {
    let db = raw_store();
    assert_eq!(
        keys(&db, IteratorMode::Start),
        vec![vec![], vec![1], vec![1, 0], vec![1, 255], vec![2]]
    );
    assert_eq!(
        keys(&db, IteratorMode::End),
        vec![vec![2], vec![1, 255], vec![1, 0], vec![1], vec![]]
    );
}

#[test]
fn raw_scan_from_a_key() {
    let db = raw_store();
    assert_eq!(
        keys(&db, IteratorMode::From(vec![1, 0], Direction::Forward)),
        vec![vec![1, 0], vec![1, 255], vec![2]]
    );
    assert_eq!(
        keys(&db, IteratorMode::From(vec![1, 0], Direction::Reverse)),
        vec![vec![1, 0], vec![1], vec![]]
    );
    assert_eq!(
        keys(&db, IteratorMode::From(vec![1, 1], Direction::Forward)),
        vec![vec![1, 255], vec![2]]
    );
    assert_eq!(keys(&db, IteratorMode::From(vec![], Direction::Reverse)), vec![Vec::<u8>::new()]);
}

#[test]
fn raw_scan_by_prefix() {
    let db = raw_store();
    assert_eq!(keys(&db, IteratorMode::Prefix(vec![1])), vec![vec![1], vec![1, 0], vec![1, 255]]);
    assert_eq!(keys(&db, IteratorMode::Prefix(vec![1, 255])), vec![vec![1, 255]]);
    assert_eq!(keys(&db, IteratorMode::Prefix(vec![3])), Vec::<Vec<u8>>::new());
    let mut it = db.scan_prefix_iterator(&[1]);
    let first = it.next().unwrap().unwrap();
    assert_eq!(first, (vec![1], b"one".to_vec()));
}

#[test]
fn raw_scan_by_a_prefix_of_high_bytes() {
    let db = sled::Config::new().temporary(true).open().unwrap();
    for k in [&[254u8, 255][..], &[255], &[255, 0], &[255, 255], &[255, 255, 7]] {
        db.insert(k, "v").unwrap();
    }
    assert_eq!(
        keys(&db, IteratorMode::Prefix(vec![255])),
        vec![vec![255], vec![255, 0], vec![255, 255], vec![255, 255, 7]]
    );
    assert_eq!(
        keys(&db, IteratorMode::Prefix(vec![255, 255])),
        vec![vec![255, 255], vec![255, 255, 7]]
    );
}

struct Numbers;

impl KeyValueSchema for Numbers {
    type Key = u32;
    type Value = String;

    fn name() -> &'static str {
        "numbers"
    }
}

fn unsupported() -> sled::Error {
    sled::Error::Unsupported("nope".to_string())
}

#[test]
fn key_and_pair_are_encoded_for_the_engine() {
    assert_eq!(encode_key::<Numbers>(&258).unwrap(), vec![0, 0, 1, 2]);
    let (k, v) = encode_pair::<Numbers>(&1, &"ab".to_string()).unwrap();
    assert_eq!(k, vec![0, 0, 0, 1]);
    assert_eq!(v, vec![0x61, 0x62]);
}

#[test]
fn engine_error_becomes_a_sled_error() {
    assert_eq!(engine_outcome(Ok(5u8)).unwrap(), 5);
    let r = engine_outcome::<()>(Err(unsupported()));
    assert!(matches!(r, Err(DBError::SledError { error: sled::Error::Unsupported(m) }) if m == "nope"));
}

#[test]
fn found_bytes_are_decoded() {
    assert_eq!(found_value::<Numbers>(None).unwrap(), None);
    assert_eq!(found_value::<Numbers>(Some(vec![0x68, 0x69])).unwrap(), Some("hi".to_string()));
    assert_eq!(found_value::<Numbers>(Some(vec![])).unwrap(), Some(String::new()));
    let r = found_value::<Numbers>(Some(vec![0xff]));
    assert!(matches!(r, Err(DBError::SchemaError { error: SchemaError::InvalidUtf8 })));
}

#[test]
fn step_is_decoded_key_and_value_apart() {
    let r = decoded_step::<Numbers>(Some(Ok((vec![0, 0, 0, 9], vec![0x61])))).unwrap();
    assert!(matches!(r, (Ok(9), Ok(v)) if v == "a"));
    let r = decoded_step::<Numbers>(Some(Ok((vec![0, 0, 9], vec![0x61])))).unwrap();
    assert!(matches!(r, (Err(SchemaError::InvalidLength), Ok(v)) if v == "a"));
    let r = decoded_step::<Numbers>(Some(Ok((vec![0, 0, 0, 9], vec![0x80])))).unwrap();
    assert!(matches!(r, (Ok(9), Err(SchemaError::InvalidUtf8))));
    let r = decoded_step::<Numbers>(Some(Ok((vec![], vec![0x80])))).unwrap();
    assert!(matches!(r, (Err(SchemaError::InvalidLength), Err(SchemaError::InvalidUtf8))));
}

#[test]
fn engine_error_ends_the_scan() {
    assert!(decoded_step::<Numbers>(Some(Err(unsupported()))).is_none());
    assert!(decoded_step::<Numbers>(None).is_none());
}

#[test]
fn modes_that_descend() {
    assert!(!IteratorMode::Start.is_descending());
    assert!(IteratorMode::End.is_descending());
    assert!(!IteratorMode::From(vec![1], Direction::Forward).is_descending());
    assert!(IteratorMode::From(vec![1], Direction::Reverse).is_descending());
    assert!(!IteratorMode::Prefix(vec![1]).is_descending());
}

#[test]
fn engine_error_line() {
    assert_eq!(engine_message("disk on fire"), "SledDB error: disk on fire");
    assert_eq!(engine_message(""), "SledDB error: ");
}

fn long_keyed_store() -> (sled::Db, Vec<Vec<u8>>) {
    let db = sled::Config::new().temporary(true).open().unwrap();
    let mut all = Vec::new();
    for j in 0..18u8 {
        let key = vec![1, 255, 255, 255, 255, j];
        db.insert(key.clone(), vec![j]).unwrap();
        all.push(key);
    }
    for j in 0..12u8 {
        let key = vec![2, j];
        db.insert(key.clone(), vec![j]).unwrap();
        all.push(key);
    }
    (db, all)
}

#[test]
fn descending_scan_crosses_leaves_with_long_keys() {
    let (db, mut all) = long_keyed_store();
    assert_eq!(keys(&db, IteratorMode::Start), all);
    all.reverse();
    assert_eq!(keys(&db, IteratorMode::End), all);
}

#[test]
fn descending_scan_from_a_key_crosses_leaves_with_long_keys() {
    let (db, all) = long_keyed_store();
    let mut upto: Vec<Vec<u8>> = all.iter().filter(|k| k.as_slice() <= &[2, 5][..]).cloned().collect();
    upto.reverse();
    assert_eq!(upto.len(), 24);
    assert_eq!(keys(&db, IteratorMode::From(vec![2, 5], Direction::Reverse)), upto);
    let mut low: Vec<Vec<u8>> = all.iter().filter(|k| k[0] == 1).cloned().collect();
    low.reverse();
    assert_eq!(keys(&db, IteratorMode::From(vec![1, 255, 255, 255, 255, 200], Direction::Reverse)), low);
}

#[test]
fn descending_scan_of_many_entries() {
    let db = sled::Config::new().temporary(true).open().unwrap();
    let mut all = Vec::new();
    for i in 0..2000u32 {
        let mut key = vec![255u8; 8];
        key.extend_from_slice(&i.to_be_bytes());
        db.insert(key.clone(), b"v").unwrap();
        all.push(key);
    }
    all.reverse();
    assert_eq!(keys(&db, IteratorMode::End), all);
}
