use proglog::{Log, LogError, Record};

#[test]
fn new_log() {
    let log = Log::new();
    assert_eq!(log.size(), 0);
}

#[test]
fn append_and_read() {
    let mut log = Log::new();
    let msg: Vec<u8> = "foo".into();
    let msg_val = msg.clone();
    log.append(Record::new(msg));
    assert_eq!(log.size(), 1);

    let record = log.read(0).unwrap();
    assert_eq!(record.message, msg_val);
}

#[test]
fn json_stuff() {
    let data = r#"{"message": "foobar"}"#;
    let d: serde_json::Value = serde_json::from_str(data).unwrap();
    let r = Record::new(d["message"].as_str().unwrap().as_bytes().to_vec());
    assert_eq!(String::from_utf8(r.message).unwrap(), "foobar");
}

#[test]
fn new_record_has_offset_zero() {
    let r = Record::new(b"abc".to_vec());
    assert_eq!(r.offset, 0);
    assert_eq!(r.message, b"abc".to_vec());
}

#[test]
fn offsets_are_dense_from_zero() {
    let mut log = Log::new();
    for i in 0..10u64 {
        assert_eq!(log.append(Record::new(vec![i as u8])), i);
    }
    assert_eq!(log.size(), 10);
}

#[test]
fn append_ignores_given_offset() {
    let mut log = Log::new();
    let mut r = Record::new(b"x".to_vec());
    r.offset = 42;
    assert_eq!(log.append(r), 0);
    assert_eq!(log.read(0).unwrap().offset, 0);
}

#[test]
fn reads_return_each_append_unchanged() {
    let mut log = Log::new();
    let msgs: Vec<Vec<u8>> = vec![b"a".to_vec(), vec![], vec![0, 255, 7], b"a".to_vec()];
    for m in &msgs {
        log.append(Record::new(m.clone()));
    }
    for (i, m) in msgs.iter().enumerate() {
        let r = log.read(i as u64).unwrap();
        assert_eq!(&r.message, m);
        assert_eq!(r.offset, i as u64);
    }
}

#[test]
fn read_past_end_is_out_of_range() {
    let mut log = Log::new();
    assert_eq!(log.read(0).unwrap_err(), LogError::OutOfRange);
    assert_eq!(log.read(u64::MAX).unwrap_err(), LogError::OutOfRange);
    log.append(Record::new(b"a".to_vec()));
    log.append(Record::new(b"b".to_vec()));
    assert_eq!(log.read(2).unwrap_err(), LogError::OutOfRange);
    assert!(log.read(1).is_ok());
}

#[test]
fn interleaved_callers_get_contiguous_offsets() {
    let mut log = Log::new();
    log.append(Record::new(b"earlier".to_vec()));
    let mut got: Vec<u64> = Vec::new();
    for caller in 0..5u8 {
        got.push(log.append(Record::new(vec![caller])));
    }
    got.sort();
    assert_eq!(got, vec![1, 2, 3, 4, 5]);
    for caller in 0..5u8 {
        assert_eq!(log.read(1 + caller as u64).unwrap().message, vec![caller]);
    }
}
