use ota_core::messages::{BuildMetadata, ServiceError};
use ota_core::registry::BuildRegistry;

fn build(device: &[u8], filename: &[u8], url: &[u8], size: i64) -> BuildMetadata {
    BuildMetadata {
        device: device.to_vec(),
        filename: filename.to_vec(),
        url: url.to_vec(),
        size,
    }
}

#[test]
fn upsert_idempotence() {
    let mut reg = BuildRegistry::new();
    reg.publish(build(b"venus", b"img1", b"http://a/1", 10));
    reg.publish(build(b"venus", b"img2", b"http://a/2", 20));
    let found = reg.lookup(b"venus").unwrap();
    assert_eq!(found.filename, b"img2".to_vec());
    assert_eq!(found.url, b"http://a/2".to_vec());
    assert_eq!(found.size, 20);
}

#[test]
fn cross_device_isolation() {
    let mut reg = BuildRegistry::new();
    reg.publish(build(b"venus", b"img-v", b"http://v", 1));
    reg.publish(build(b"sunny", b"img-s", b"http://s", 2));
    assert_eq!(reg.lookup(b"venus").unwrap().filename, b"img-v".to_vec());
    assert_eq!(reg.lookup(b"sunny").unwrap().filename, b"img-s".to_vec());

    let mut swapped = BuildRegistry::new();
    swapped.publish(build(b"sunny", b"img-s", b"http://s", 2));
    swapped.publish(build(b"venus", b"img-v", b"http://v", 1));
    assert_eq!(swapped.lookup(b"venus").unwrap().filename, b"img-v".to_vec());
    assert_eq!(swapped.lookup(b"sunny").unwrap().filename, b"img-s".to_vec());
}

#[test]
fn lookup_unpublished_is_not_found() {
    let reg = BuildRegistry::new();
    match reg.lookup(b"venus") {
        Err(e) => assert_eq!(e, ServiceError::NotFound),
        Ok(_) => panic!("lookup of an unpublished device must fail"),
    }
}

#[test]
fn republish_leaves_other_devices_alone() {
    let mut reg = BuildRegistry::new();
    reg.publish(build(b"venus", b"img-v", b"http://v", 1));
    reg.publish(build(b"sunny", b"img-s", b"http://s", 2));
    reg.publish(build(b"venus", b"img-v2", b"http://v2", 3));
    assert_eq!(reg.lookup(b"venus").unwrap().filename, b"img-v2".to_vec());
    assert_eq!(reg.lookup(b"sunny").unwrap().filename, b"img-s".to_vec());
}
