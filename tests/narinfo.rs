use nix_hash_collection::narinfo::{
    attestation_from_fields, attestation_from_narinfo, parse_drv_hash, parse_drv_path_match, NarinfoError,
};

const PATH: &str = "/nix/store/kbqscm1vj7yfvrnvdn1s9pvm0g5gpbaj-Test-Memory-Cycle-1.06.tar.gz";

const NARINFO: &str = "StorePath: /nix/store/kbqscm1vj7yfvrnvdn1s9pvm0g5gpbaj-Test-Memory-Cycle-1.06.tar.gz\nURL: nar/x.nar.xz\nNarHash: sha256:0abc\nNarSize: 100\nSig: cache.nixos.org-1:SIG==\n";

#[test]
fn drv_hash_between_store_and_extension() {
    assert_eq!(parse_drv_hash("/nix/store/abc-hello-1.0.drv"), Some("abc-hello-1.0".to_string()));
}

#[test]
fn drv_hash_of_other_path_is_none() {
    assert_eq!(parse_drv_hash("/tmp/abc-hello.drv"), None);
    assert_eq!(parse_drv_hash("/nix/store/abc-hello"), None);
}

#[test]
fn attestation_from_full_narinfo() {
    let a = attestation_from_narinfo(PATH, NARINFO).unwrap();
    assert_eq!(a.output_digest, "kbqscm1vj7yfvrnvdn1s9pvm0g5gpbaj");
    assert_eq!(a.output_name, "est-Memory-Cycle-1.06.tar.gz");
    assert_eq!(a.output_hash, "sha256:0abc");
    assert_eq!(a.output_sig, "cache.nixos.org-1:SIG==");
}

#[test]
fn narinfo_not_found() {
    assert!(matches!(attestation_from_narinfo(PATH, "404"), Err(NarinfoError::NotFound)));
}

#[test]
fn narinfo_without_hash() {
    assert!(matches!(attestation_from_narinfo(PATH, "Sig: s\n"), Err(NarinfoError::MissingNarHash)));
}

#[test]
fn narinfo_without_sig() {
    assert!(matches!(attestation_from_narinfo(PATH, "NarHash: h\n"), Err(NarinfoError::MissingSig)));
}

#[test]
fn fields_given_directly() {
    let a = attestation_from_fields(PATH, "x", Some("h".to_string()), Some("s".to_string())).unwrap();
    assert_eq!(a.output_hash, "h");
    assert_eq!(a.output_sig, "s");
    assert!(matches!(
        attestation_from_fields(PATH, "404", Some("h".to_string()), Some("s".to_string())),
        Err(NarinfoError::NotFound)
    ));
    assert!(matches!(attestation_from_fields(PATH, "x", None, None), Err(NarinfoError::MissingNarHash)));
    assert!(matches!(attestation_from_fields(PATH, "x", Some("h".to_string()), None), Err(NarinfoError::MissingSig)));
}

#[test]
fn whole_drv_path_match() {
    assert_eq!(parse_drv_path_match("x /nix/store/abc-hello.drv y"), Some("/nix/store/abc-hello.drv".to_string()));
    assert_eq!(parse_drv_path_match("/tmp/hello.drv"), None);
}
