use std::collections::HashMap;

use rsdroid::backend::{Backend, CreateStep, GetStep, SaveStep};
use rsdroid::lmdb::{self, LmdbValue};
use rsdroid::db;
use rsdroid::proto::{OpenIn, SaveIn, Str};

/// Plays the host for the disk engines: what a disk engine holds is kept
/// in a map, and every step the service asks for is carried out on it.
struct Host {
    disk: HashMap<String, String>,
}

impl Host {
    fn new() -> Host {
        Host { disk: HashMap::new() }
    }

    fn create(&mut self, bd: &mut Backend, input: OpenIn) {
        match bd.create(input) {
            CreateStep::Ready(r) => assert_eq!(r.ret, 0),
            CreateStep::OpenLmdb(_plan) => {
                let r = bd.lmdb_opened(Ok(())).ok().unwrap();
                assert_eq!(r.ret, 0);
            }
            CreateStep::OpenSled(_path) => {
                let r = bd.sled_created();
                assert_eq!(r.ret, 0);
            }
            CreateStep::SledAlreadyOpen => panic!("already opened"),
        }
    }

    fn save(&mut self, bd: &mut Backend, input: SaveIn) {
        match bd.save(input) {
            SaveStep::Stored(r) => assert_eq!(r.ret, 0),
            SaveStep::PutLmdb { key, val, reply } | SaveStep::SetSled { key, val, reply } => {
                self.disk.insert(key, val);
                assert_eq!(reply.ret, 0);
            }
        }
    }

    fn get(&self, bd: &Backend, input: Str) -> Str {
        let answer = match bd.get(input) {
            GetStep::Answered(a) => a,
            GetStep::ReadLmdb(key) => {
                lmdb::answer(self.disk.get(&key).map(|v| LmdbValue::Str(v.clone())))
            }
            GetStep::ReadSled(key) => {
                db::answer(Ok(self.disk.get(&key).map(|v| v.as_bytes().to_vec())))
            }
        };
        match answer {
            Ok(v) => v,
            Err(e) => panic!("{}", e.message()),
        }
    }
}

fn read_write(host: &mut Host, bd: &mut Backend) {
    for i in 1..1000 {
        host.save(bd, SaveIn {
            key: format!("test_{}", i),
            val: format!("value_{}_10086", i),
        });
    }

    for i in 1..1000 {
        let val = host.get(bd, Str {
            val: format!("test_{}", i),
        });
        assert!(val.val.eq(&format!("value_{}_10086", i)))
    }
}

#[test]
pub fn test_lmdb() {
    let mut host = Host::new();
    let mut bd = Backend::new();
    host.create(&mut bd, OpenIn {
        path: "/tmp/lmdb".into(),
        mode: 1,
    });
    read_write(&mut host, &mut bd);
}

#[test]
fn test_sled() {
    let mut host = Host::new();
    let mut bd = Backend::new();
    host.create(&mut bd, OpenIn {
        path: "/tmp/sled".into(),
        mode: 2,
    });
    read_write(&mut host, &mut bd);
}

#[test]
fn test_mem() {
    let mut host = Host::new();
    let mut bd = Backend::new();
    host.create(&mut bd, OpenIn {
        path: "".into(),
        mode: 0,
    });
    read_write(&mut host, &mut bd);
    assert!(host.disk.is_empty());
}
