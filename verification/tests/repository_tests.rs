use reproto::checksum::Checksum;
use reproto::index::{Deployment, GitIndex, Index, LocalIndex};
use reproto::objects::{LocalObjects, Objects};
use reproto::sha256::to_sha256;
use reproto::errors::Error;
use reproto::model::RpPackage;
use reproto::version::{Version, VersionReq};

fn package(parts: &[&str]) -> RpPackage {
    RpPackage { parts: parts.iter().map(|p| p.to_string()).collect() }
}

#[test]
fn sha256_of_empty_input_is_the_known_digest() {
    let checksum = to_sha256(&Vec::new()).unwrap();
    assert_eq!(
        checksum.to_text(),
        "e3b0c44298fc1c149afbf4c8996fb92427ae41e4649b934ca495991b7852b855"
    );
}

#[test]
fn sha256_of_abc_is_the_known_digest() {
    let checksum = to_sha256(&vec![b'a', b'b', b'c']).unwrap();
    assert_eq!(
        checksum.to_text(),
        "ba7816bf8f01cfea414140de5dae2223b00361a396177a9cb410ff61f20015ad"
    );
}

#[test]
fn checksum_text_round_trip() {
    let text = "ba7816bf8f01cfea414140de5dae2223b00361a396177a9cb410ff61f20015ad";
    let checksum = Checksum::from_str(text).unwrap();
    assert_eq!(checksum.to_text(), text);
    let again = Checksum::from_str(&checksum.to_text()).unwrap();
    assert!(again.eq_checksum(&checksum));
}

#[test]
fn checksum_rejects_wrong_length() {
    assert!(matches!(
        Checksum::from_str("abcd"),
        Err(Error::InvalidChecksumLength(2))
    ));
}

#[test]
fn checksum_rejects_bad_digit() {
    let text = "zb7816bf8f01cfea414140de5dae2223b00361a396177a9cb410ff61f20015ad";
    assert!(matches!(Checksum::from_str(text), Err(Error::InvalidHexCharacter)));
}

#[test]
fn resolve_caret_selects_compatible_versions() {
    let mut index = LocalIndex::new();
    let pkg = package(&["example", "foo"]);
    let c = to_sha256(&vec![1]).unwrap();
    for version in [
        Version::new(1, 0, 0),
        Version::new(1, 2, 0),
        Version::new(2, 0, 0),
    ] {
        index
            .put_version(&c, &pkg, &version, false)
            .unwrap();
    }
    let req = VersionReq::Caret(Version::new(1, 0, 0));
    let matches = index.resolve(&pkg, Some(&req));
    assert_eq!(matches.len(), 2);
    assert_eq!(matches[0].version, Version::new(1, 0, 0));
    assert_eq!(matches[1].version, Version::new(1, 2, 0));
    let all = index.all(&pkg);
    assert_eq!(all.len(), 3);
}

#[test]
fn publish_is_idempotent_for_the_same_checksum() {
    let mut index = LocalIndex::new();
    let pkg = package(&["example", "foo"]);
    let v = Version::new(1, 0, 0);
    let c1 = to_sha256(&vec![1]).unwrap();
    index.put_version(&c1, &pkg, &v, false).unwrap();
    index.put_version(&c1, &pkg, &v, false).unwrap();
    let found = index.get_deployments(&pkg, &v);
    assert_eq!(found.len(), 1);
    assert!(found[0].object.eq_checksum(&c1));
}

#[test]
fn publish_of_different_content_fails_then_force_overwrites() {
    let mut index = LocalIndex::new();
    let pkg = package(&["example", "foo"]);
    let v = Version::new(1, 0, 0);
    let c1 = to_sha256(&vec![1]).unwrap();
    let c2 = to_sha256(&vec![2]).unwrap();
    index.put_version(&c1, &pkg, &v, false).unwrap();
    assert!(matches!(
        index.put_version(&c2, &pkg, &v, false),
        Err(Error::ChecksumMismatch(_, _))
    ));
    index.put_version(&c2, &pkg, &v, true).unwrap();
    let found = index.get_deployments(&pkg, &v);
    assert_eq!(found.len(), 1);
    assert!(found[0].object.eq_checksum(&c2));
}

#[test]
fn mirror_index_refuses_publishing() {
    let mut mirror = GitIndex::new("git+https://example.test/index".to_string(), LocalIndex::new());
    let pkg = package(&["example", "foo"]);
    let c = to_sha256(&vec![1]).unwrap();
    match mirror.put_version(&c, &pkg, &Version::new(1, 0, 0), false) {
        Err(Error::NoPublishIndex(url)) => assert_eq!(url, "git+https://example.test/index"),
        other => panic!("expected a no-publish-index error, got {:?}", other),
    }
}

#[test]
fn object_store_is_content_addressed_and_idempotent() {
    let mut store = LocalObjects::new();
    let content = vec![1, 2, 3];
    let c = to_sha256(&content).unwrap();
    assert!(store.get_object(&c).is_none());
    store.put_object(&c, content.clone()).unwrap();
    store.put_object(&c, content.clone()).unwrap();
    assert_eq!(store.get_object(&c).unwrap(), content);
}

#[test]
fn deployment_new_keeps_its_parts() {
    let c = to_sha256(&vec![9]).unwrap();
    let d = Deployment::new(Version::new(1, 2, 3), c.clone());
    assert_eq!(d.version, Version::new(1, 2, 3));
    assert!(d.object.eq_checksum(&c));
}
