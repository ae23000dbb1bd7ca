use nix_hash_collection::store_path::{
    decimal_string, fingerprint, join_with_commas, parse_store_path_digest, parse_store_path_name,
};

const PATH: &str = "/nix/store/kbqscm1vj7yfvrnvdn1s9pvm0g5gpbaj-Test-Memory-Cycle-1.06.tar.gz";

#[test]
fn digest_of_store_path() {
    assert_eq!(parse_store_path_digest(PATH), "kbqscm1vj7yfvrnvdn1s9pvm0g5gpbaj");
}

#[test]
fn name_of_store_path() {
    assert_eq!(parse_store_path_name(PATH), "est-Memory-Cycle-1.06.tar.gz");
}

#[test]
fn digest_of_path_without_name() {
    let p = "/nix/store/kbqscm1vj7yfvrnvdn1s9pvm0g5gpbaj";
    assert_eq!(parse_store_path_digest(p), "kbqscm1vj7yfvrnvdn1s9pvm0g5gpbaj");
}

#[test]
fn decimal_of_edges() {
    assert_eq!(decimal_string(0), "0");
    assert_eq!(decimal_string(9), "9");
    assert_eq!(decimal_string(10), "10");
    assert_eq!(decimal_string(1234), "1234");
    assert_eq!(decimal_string(u64::MAX), "18446744073709551615");
}

#[test]
fn join_of_none_one_many() {
    assert_eq!(join_with_commas(&Vec::new()), "");
    assert_eq!(join_with_commas(&vec!["a".to_string()]), "a");
    assert_eq!(join_with_commas(&vec!["a".to_string(), "b".to_string(), "c".to_string()]), "a,b,c");
}

#[test]
fn fingerprint_with_references() {
    let refs = vec!["/nix/store/r1".to_string(), "/nix/store/r2".to_string()];
    assert_eq!(
        fingerprint("/nix/store/abc", "sha256:xyz", 1234, &refs),
        "1;/nix/store/abc;sha256:xyz;1234;/nix/store/r1,/nix/store/r2"
    );
}

#[test]
fn fingerprint_without_references() {
    assert_eq!(fingerprint("/nix/store/abc", "sha256:xyz", 0, &Vec::new()), "1;/nix/store/abc;sha256:xyz;0;");
}
