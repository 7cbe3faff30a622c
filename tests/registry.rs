use rapidquilt::{MappedRegion, RecordError, Registry, Resource, Stats};

fn owned(bytes: &[u8]) -> Resource {
    Resource::Owned(bytes.to_vec())
}

fn mapped(start: usize, size: usize) -> Resource {
    Resource::Mapped(MappedRegion { start, size })
}

#[test]
fn new_registry_is_empty() {
    let reg = Registry::new();
    assert_eq!(reg.stats(), Stats { loaded_files: 0, total_size: 0 });
    assert!(reg.get(0).is_none());
}

#[test]
fn resource_sizes() {
    assert_eq!(owned(b"hello").size(), 5);
    assert_eq!(owned(b"").size(), 0);
    assert_eq!(mapped(4096, 123).size(), 123);
}

#[test]
fn handles_count_up_from_zero() {
    let mut reg = Registry::new();
    assert_eq!(reg.register(owned(b"abc")).ok(), Some(0));
    assert_eq!(reg.register(mapped(8192, 10)).ok(), Some(1));
    assert_eq!(reg.register(owned(b"")).ok(), Some(2));
}

#[test]
fn loaded_view_has_the_loaded_bytes() {
    let mut reg = Registry::new();
    let content = b"--- a/file\n+++ b/file\r\n".to_vec();
    let h = reg.register(Resource::Owned(content.clone())).ok().unwrap();
    match reg.get(h) {
        Some(Resource::Owned(bytes)) => {
            assert_eq!(bytes.len(), content.len());
            assert_eq!(bytes, &content);
        }
        other => panic!("unexpected entry {:?}", other),
    }
}

#[test]
fn stats_count_and_sum_after_loads() {
    let mut reg = Registry::new();
    let sizes = [3usize, 0, 17, 4096, 1];
    let mut sum = 0usize;
    for (i, size) in sizes.iter().enumerate() {
        let r = if i % 2 == 0 { owned(&vec![7u8; *size]) } else { mapped(i * 4096, *size) };
        sum += r.size();
        assert!(reg.register(r).is_ok());
    }
    assert_eq!(reg.stats(), Stats { loaded_files: 5, total_size: sum });
    assert_eq!(sum, 4117);
}

#[test]
fn stats_independent_of_registration_order() {
    let mut a = Registry::new();
    let mut b = Registry::new();
    for n in 0..300usize {
        assert!(a.register(mapped(n * 4096, n + 1)).is_ok());
    }
    for n in (0..300usize).rev() {
        assert!(b.register(mapped(n * 4096, n + 1)).is_ok());
    }
    assert_eq!(a.stats(), b.stats());
    assert_eq!(a.stats(), Stats { loaded_files: 300, total_size: 300 * 301 / 2 });
}

#[test]
fn same_content_twice_is_kept_twice() {
    let mut reg = Registry::new();
    let h1 = reg.register(owned(b"same")).ok().unwrap();
    let h2 = reg.register(owned(b"same")).ok().unwrap();
    assert_ne!(h1, h2);
    match (reg.get(h1), reg.get(h2)) {
        (Some(Resource::Owned(x)), Some(Resource::Owned(y))) => {
            assert_eq!(x, y);
            assert_ne!(x.as_ptr(), y.as_ptr());
        }
        other => panic!("unexpected entries {:?}", other),
    }
    assert_eq!(reg.stats(), Stats { loaded_files: 2, total_size: 8 });
}

#[test]
fn failed_symlink_read_records_nothing() {
    let mut reg = Registry::new();
    assert!(reg.register(owned(b"x")).is_ok());
    let before = reg.stats();
    let outcome: Result<Resource, std::io::Error> = Err(std::io::Error::new(
        std::io::ErrorKind::InvalidInput,
        "not a symbolic link",
    ));
    match reg.record(outcome) {
        Err(RecordError::Load(e)) => assert_eq!(e.kind(), std::io::ErrorKind::InvalidInput),
        other => panic!("unexpected outcome {:?}", other),
    }
    assert_eq!(reg.stats(), before);
}

#[test]
fn failed_open_records_nothing() {
    let mut reg = Registry::new();
    let outcome: Result<Resource, std::io::Error> =
        Err(std::io::Error::new(std::io::ErrorKind::NotFound, "no such file"));
    match reg.record(outcome) {
        Err(RecordError::Load(e)) => assert_eq!(e.kind(), std::io::ErrorKind::NotFound),
        other => panic!("unexpected outcome {:?}", other),
    }
    assert_eq!(reg.stats(), Stats { loaded_files: 0, total_size: 0 });
}

#[test]
fn successful_outcome_is_recorded() {
    let mut reg = Registry::new();
    let outcome: Result<Resource, std::io::Error> = Ok(mapped(4096, 64));
    match reg.record(outcome) {
        Ok(h) => assert_eq!(h, 0),
        other => panic!("unexpected outcome {:?}", other),
    }
    assert_eq!(reg.stats(), Stats { loaded_files: 1, total_size: 64 });
}

#[test]
fn ledger_refuses_overflowing_total() {
    let mut reg = Registry::new();
    assert_eq!(reg.register(mapped(0, usize::MAX)).ok(), Some(0));
    match reg.register(owned(b"z")) {
        Err(Resource::Owned(bytes)) => assert_eq!(bytes, b"z".to_vec()),
        other => panic!("unexpected outcome {:?}", other),
    }
    let outcome: Result<Resource, std::io::Error> = Ok(mapped(4096, 1));
    match reg.record(outcome) {
        Err(RecordError::Full(Resource::Mapped(m))) => {
            assert_eq!(m, MappedRegion { start: 4096, size: 1 })
        }
        other => panic!("unexpected outcome {:?}", other),
    }
    assert_eq!(reg.stats(), Stats { loaded_files: 1, total_size: usize::MAX });
}

#[test]
fn get_out_of_range_is_none() {
    let mut reg = Registry::new();
    assert!(reg.register(owned(b"a")).is_ok());
    assert!(reg.get(0).is_some());
    assert!(reg.get(1).is_none());
    assert!(reg.get(usize::MAX).is_none());
}

#[test]
fn teardown_returns_each_mapping_once_in_order() {
    let mut reg = Registry::new();
    assert!(reg.register(mapped(4096, 10)).is_ok());
    assert!(reg.register(owned(b"link/target")).is_ok());
    assert!(reg.register(mapped(65536, 20)).is_ok());
    assert!(reg.register(mapped(4096, 10)).is_ok());
    let regions = reg.drain_for_teardown();
    assert_eq!(
        regions,
        vec![
            MappedRegion { start: 4096, size: 10 },
            MappedRegion { start: 65536, size: 20 },
            MappedRegion { start: 4096, size: 10 },
        ]
    );
    assert_eq!(reg.stats(), Stats { loaded_files: 0, total_size: 0 });
    assert!(reg.drain_for_teardown().is_empty());
}

#[test]
fn teardown_of_owned_only_releases_no_mapping() {
    let mut reg = Registry::new();
    assert!(reg.register(owned(b"one")).is_ok());
    assert!(reg.register(owned(b"two")).is_ok());
    assert!(reg.drain_for_teardown().is_empty());
    assert!(reg.get(0).is_none());
}
