use rsdroid::backend::{Backend, CreateStep, End, GetStep, SaveStep};
use rsdroid::db;
use rsdroid::lmdb::{self, LmdbValue, StoreAttempt};
use rsdroid::mem;
use rsdroid::proto::{BackendError, Command, OpenIn, Resp, SaveIn, Str};
use rsdroid::response::{fill, reply_for, trim_message, FillError, END_TAG, RESERVED};

fn open(bd: &mut Backend, mode: i32) -> CreateStep {
    bd.create(OpenIn { path: "/tmp/store".to_string(), mode })
}

fn save(bd: &mut Backend, key: &str, val: &str) -> SaveStep {
    bd.save(SaveIn { key: key.to_string(), val: val.to_string() })
}

fn mem_get(bd: &Backend, key: &str) -> String {
    match bd.get(Str { val: key.to_string() }) {
        GetStep::Answered(Ok(v)) => v.val,
        _ => panic!("the in-memory engine answers at once"),
    }
}

#[test]
fn end_from_byte() {
    assert_eq!(End::from(0i8), End::MEM);
    assert_eq!(End::from(1i8), End::LMDB);
    assert_eq!(End::from(2i8), End::SLED);
    assert_eq!(End::from(3i8), End::MEM);
    assert_eq!(End::from(-1i8), End::MEM);
}

#[test]
fn mode_low_byte_selects_engine() {
    let mut bd = Backend::new();
    for (mode, end) in [
        (0, End::MEM),
        (1, End::LMDB),
        (2, End::SLED),
        (3, End::MEM),
        (256, End::MEM),
        (257, End::LMDB),
        (258, End::SLED),
        (-255, End::LMDB),
        (-254, End::SLED),
        (-1, End::MEM),
    ] {
        open(&mut bd, mode);
        assert_eq!(bd.mode(), mode);
        assert_eq!(bd.end(), end);
        if end == End::SLED {
            bd.sled_created();
        }
    }
}

#[test]
fn new_backend_is_empty_memory() {
    let bd = Backend::new();
    assert_eq!(bd.mode(), 0);
    assert_eq!(bd.end(), End::MEM);
    assert!(!bd.lmdb_is_open());
    assert!(!bd.sled_is_open());
    assert_eq!(mem_get(&bd, "anything"), "");
}

#[test]
fn memory_create_is_ready() {
    let mut bd = Backend::new();
    match open(&mut bd, 0) {
        CreateStep::Ready(r) => {
            assert_eq!(r.ret, 0);
            assert_eq!(r.msg, "");
        }
        _ => panic!("the in-memory engine needs no opening"),
    }
}

#[test]
fn read_your_write_in_memory() {
    let mut bd = Backend::new();
    match save(&mut bd, "k", "v1") {
        SaveStep::Stored(r) => assert_eq!(r.ret, 0),
        _ => panic!("the in-memory engine stores at once"),
    }
    assert_eq!(mem_get(&bd, "k"), "v1");
    save(&mut bd, "k", "v2");
    assert_eq!(mem_get(&bd, "k"), "v2");
}

#[test]
fn save_keeps_other_keys() {
    let mut bd = Backend::new();
    save(&mut bd, "a", "1");
    save(&mut bd, "b", "2");
    save(&mut bd, "a", "3");
    assert_eq!(mem_get(&bd, "b"), "2");
    assert_eq!(mem_get(&bd, "a"), "3");
    assert_eq!(mem_get(&bd, "c"), "");
}

#[test]
fn lmdb_opens_once() {
    let mut bd = Backend::new();
    match open(&mut bd, 1) {
        CreateStep::OpenLmdb(plan) => {
            assert_eq!(plan.path, "/tmp/store");
            assert_eq!(plan.map_size, 104857600);
            assert!(plan.make_dir_if_needed);
        }
        _ => panic!("the environment must be opened"),
    }
    let r = bd.lmdb_opened(Ok(())).ok().unwrap();
    assert_eq!(r.ret, 0);
    assert!(bd.lmdb_is_open());
    match open(&mut bd, 1) {
        CreateStep::Ready(r) => assert_eq!(r.ret, 0),
        _ => panic!("an open environment is not opened again"),
    }
}

#[test]
fn lmdb_open_failure_is_reported() {
    let mut bd = Backend::new();
    open(&mut bd, 1);
    match bd.lmdb_opened(Err("no space".to_string())) {
        Err(BackendError::Store(m)) => assert_eq!(m, "no space"),
        _ => panic!("the failure is the request's error"),
    }
    assert!(!bd.lmdb_is_open());
    assert_eq!(bd.mode(), 1);
}

#[test]
fn sled_create_asks_for_store() {
    let mut bd = Backend::new();
    match open(&mut bd, 2) {
        CreateStep::OpenSled(p) => assert_eq!(p, "/tmp/store"),
        _ => panic!("the store must be created"),
    }
    let r = bd.sled_created();
    assert_eq!(r.ret, 0);
    assert!(bd.sled_is_open());
}

#[test]
fn disk_save_keeps_memory() {
    let mut bd = Backend::new();
    save(&mut bd, "a", "1");
    open(&mut bd, 1);
    bd.lmdb_opened(Ok(())).ok().unwrap();
    match save(&mut bd, "b", "2") {
        SaveStep::PutLmdb { key, val, reply } => {
            assert_eq!(key, "b");
            assert_eq!(val, "2");
            assert_eq!(reply.ret, 0);
            assert_eq!(reply.msg, "");
        }
        _ => panic!("the LMDB engine stores on disk"),
    }
    match bd.get(Str { val: "b".to_string() }) {
        GetStep::ReadLmdb(k) => assert_eq!(k, "b"),
        _ => panic!("the LMDB engine reads from disk"),
    }
    assert_eq!(mem::store(&mut bd).get("b"), "");
    open(&mut bd, 2);
    bd.sled_created();
    match save(&mut bd, "c", "3") {
        SaveStep::SetSled { key, val, reply } => {
            assert_eq!(key, "c");
            assert_eq!(val, "3");
            assert_eq!(reply.ret, 0);
            assert_eq!(reply.msg, "");
        }
        _ => panic!("the sled engine stores on disk"),
    }
    match bd.get(Str { val: "c".to_string() }) {
        GetStep::ReadSled(k) => assert_eq!(k, "c"),
        _ => panic!("the sled engine reads from disk"),
    }
    open(&mut bd, 0);
    assert_eq!(mem_get(&bd, "a"), "1");
    assert_eq!(mem_get(&bd, "c"), "");
}

#[test]
fn memory_access_in_any_mode() {
    let mut bd = Backend::new();
    open(&mut bd, 1);
    mem::store(&mut bd).insert("x".to_string(), "y".to_string());
    assert_eq!(mem::store(&mut bd).get("x"), "y");
    assert_eq!(mem::store(&mut bd).get("z"), "");
    open(&mut bd, 0);
    assert_eq!(mem_get(&bd, "x"), "y");
}

#[test]
fn mem_store_starts_empty() {
    let mut s = mem::MemStore::new();
    assert_eq!(s.get("k"), "");
    s.insert("k".to_string(), "v".to_string());
    assert_eq!(s.get("k"), "v");
    mem::create("/anywhere");
}

#[test]
fn lmdb_answers() {
    match lmdb::answer(Some(LmdbValue::Str("v".to_string()))) {
        Ok(s) => assert_eq!(s.val, "v"),
        Err(_) => panic!("a string is the answer"),
    }
    match lmdb::answer(Some(LmdbValue::Other)) {
        Err(e) => assert_eq!(e.message(), "not exists"),
        Ok(_) => panic!("only a string answers"),
    }
    assert!(matches!(lmdb::answer(None), Err(BackendError::NotExists)));
}

#[test]
fn lmdb_store_attempts() {
    assert_eq!(lmdb::next_attempt(None), Some(StoreAttempt::Existing));
    assert_eq!(lmdb::next_attempt(Some(StoreAttempt::Existing)), Some(StoreAttempt::Create));
    assert_eq!(lmdb::next_attempt(Some(StoreAttempt::Create)), None);
    assert_eq!(lmdb::MAP_SIZE, 1024 * 1024 * 100);
}

#[test]
fn sled_answers() {
    match db::answer(Ok(Some("héllo".as_bytes().to_vec()))) {
        Ok(s) => assert_eq!(s.val, "héllo"),
        Err(_) => panic!("UTF-8 bytes are the answer"),
    }
    match db::answer(Ok(Some(vec![0x68, 0xff, 0x69]))) {
        Err(e) => {
            assert!(matches!(e, BackendError::InvalidUtf8(_)));
            assert_eq!(e.message(), "invalid utf-8 sequence of 1 bytes from index 1");
        }
        Ok(_) => panic!("bytes that are not UTF-8 are an error"),
    }
    match db::answer(Ok(Some(vec![0x61, 0xe2, 0x82]))) {
        Err(e) => assert_eq!(e.message(), "incomplete utf-8 byte sequence from index 1"),
        Ok(_) => panic!("a cut sequence is an error"),
    }
    match db::decoded(Err("bad bytes".to_string())) {
        Err(BackendError::InvalidUtf8(m)) => assert_eq!(m, "bad bytes"),
        _ => panic!("a decoding error is the answer"),
    }
    match db::decoded(Ok("fine".to_string())) {
        Ok(s) => assert_eq!(s.val, "fine"),
        Err(_) => panic!("a decoded string is the answer"),
    }
    match db::answer(Ok(None)) {
        Ok(s) => assert_eq!(s.val, ""),
        Err(_) => panic!("a missing key answers the empty string"),
    }
    match db::answer(Err("disk gone".to_string())) {
        Err(e) => assert_eq!(e.message(), "disk gone"),
        Ok(_) => panic!("the read's error is the answer"),
    }
}

#[test]
fn resp_ok_is_empty_success() {
    let r = Resp::ok();
    assert_eq!(r.ret, 0);
    assert_eq!(r.msg, "");
}

#[test]
fn commands_by_index() {
    assert_eq!(Command::from_index(0), Some(Command::Create));
    assert_eq!(Command::from_index(1), Some(Command::Save));
    assert_eq!(Command::from_index(2), Some(Command::Get));
    assert_eq!(Command::from_index(3), None);
}

#[test]
fn trim_small_buffer_leaves_nothing() {
    assert_eq!(RESERVED, 16);
    assert_eq!(trim_message("error text".to_string(), 10), "");
    assert_eq!(trim_message("error text".to_string(), 16), "");
}

#[test]
fn trim_cuts_to_room() {
    assert_eq!(trim_message("abcdefghij".to_string(), 20), "abcd");
    assert_eq!(trim_message("abcdefghij".to_string(), 26), "abcdefghij");
    assert_eq!(trim_message("abcdefghij".to_string(), 100), "abcdefghij");
    assert_eq!(trim_message("ééé".to_string(), 20), "éé");
}

#[test]
fn reply_keeps_code() {
    let r = reply_for(100, "something failed".to_string(), 24);
    assert_eq!(r.ret, 100);
    assert_eq!(r.msg, "somethin");
}

#[test]
fn fill_refuses_short_buffer() {
    let mut buf = vec![7u8; 4];
    match fill(&[1, 2, 3, 4, 5], &mut buf) {
        Err(FillError::Insufficient { required, remaining }) => {
            assert_eq!(required, 5);
            assert_eq!(remaining, 4);
        }
        Ok(()) => panic!("the reply does not fit"),
    }
    assert_eq!(buf, vec![7u8; 4]);
}

#[test]
fn fill_frames_reply() {
    let mut buf = vec![0xAAu8; 20];
    assert!(fill(&[8, 1], &mut buf).is_ok());
    let mut expected = vec![8u8, 1, END_TAG, 16];
    expected.extend(vec![0xAAu8; 16]);
    assert_eq!(buf, expected);
}

#[test]
fn fill_writes_long_delimiter() {
    let mut buf = vec![0xAAu8; 200];
    assert!(fill(&[8, 1], &mut buf).is_ok());
    assert_eq!(&buf[..5], &[8u8, 1, 10, 0xC4, 0x01][..]);
    assert_eq!(buf.len(), 200);
    assert!(buf[5..].iter().all(|b| *b == 0xAA));
}

#[test]
fn fill_exact_room() {
    let enc = vec![3u8; 18];
    let mut buf = vec![0xAAu8; 20];
    assert!(fill(&enc, &mut buf).is_ok());
    let mut expected = enc.clone();
    expected.extend(vec![10u8, 0]);
    assert_eq!(buf, expected);
}

#[test]
fn open_engines_stay_open() {
    let mut bd = Backend::new();
    open(&mut bd, 1);
    assert!(!bd.is_ready());
    bd.lmdb_opened(Ok(())).ok().unwrap();
    assert!(bd.is_ready());
    open(&mut bd, 0);
    save(&mut bd, "k", "v");
    assert!(bd.lmdb_is_open());
    match open(&mut bd, 1) {
        CreateStep::Ready(r) => assert_eq!(r.ret, 0),
        _ => panic!("the environment stays open"),
    }
    assert!(bd.is_ready());
}

#[test]
fn sled_cannot_open_twice() {
    let mut bd = Backend::new();
    open(&mut bd, 2);
    bd.sled_created();
    open(&mut bd, 0);
    assert_eq!(bd.end(), End::MEM);
    match open(&mut bd, 258) {
        CreateStep::SledAlreadyOpen => {}
        _ => panic!("a sled store is created once"),
    }
    assert_eq!(bd.mode(), 258);
    assert_eq!(bd.end(), End::SLED);
    assert!(bd.is_ready());
}

#[test]
fn store_is_the_service_map() {
    let mut bd = Backend::new();
    mem::store(&mut bd).insert("k".to_string(), "v".to_string());
    assert_eq!(mem::store(&mut bd).get("k"), "v");
    assert_eq!(mem_get(&bd, "k"), "v");
    save(&mut bd, "k2", "v2");
    assert_eq!(mem::store(&mut bd).get("k2"), "v2");
}

#[test]
fn last_mode_wins() {
    let mut bd = Backend::new();
    open(&mut bd, 1);
    match bd.lmdb_opened(Err("locked".to_string())) {
        Err(_) => {}
        Ok(_) => panic!("the open failed"),
    }
    assert_eq!(bd.end(), End::LMDB);
    open(&mut bd, 3);
    assert_eq!(bd.end(), End::MEM);
    save(&mut bd, "k", "v");
    assert_eq!(bd.mode(), 3);
}

#[test]
fn sled_round_trip_of_stored_bytes() {
    for text in ["", "plain", "héllo wörld", "日本語"] {
        match db::answer(Ok(Some(text.as_bytes().to_vec()))) {
            Ok(s) => assert_eq!(s.val, text),
            Err(_) => panic!("UTF-8 bytes read back"),
        }
    }
}

#[test]
fn failure_codes() {
    assert_eq!(rsdroid::response::failure_code(false), 100);
    assert_eq!(rsdroid::response::failure_code(true), 1000);
}

#[test]
fn cut_and_fill_checks() {
    assert_eq!(rsdroid::response::room_for(10), 0);
    assert_eq!(rsdroid::response::room_for(30), 14);
    assert!(rsdroid::response::can_cut("abc", 17));
    assert!(!rsdroid::response::can_cut("é", 17));
    assert!(rsdroid::response::can_cut("é", 18));
    assert!(rsdroid::response::can_fill(5, 4));
    assert!(!rsdroid::response::can_fill(4, 4));
    assert!(!rsdroid::response::can_fill(3, 4));
    assert!(rsdroid::response::can_fill(2, 4));
}
