use vstd::prelude::*;
use vstd::string::StringSliceAdditionalSpecFns;
use vstd::utf8::*;

use crate::store_path::{
    parse_store_path_digest, parse_store_path_name, DIGEST_END, DIGEST_START, NAME_START,
};

verus! {

broadcast use encode_utf8_valid_utf8;

/// What the leftmost match of the regular expression `pattern` in `text` captured in
/// group `group`; `None` where the pattern is not valid, nothing matches, or the group
/// took no part in the match.
pub uninterp spec fn regex_capture_of(pattern: Seq<char>, text: Seq<char>, group: nat) -> Option<
    Seq<char>,
>;

/// `part` is a run of consecutive characters of `text`.
pub open spec fn is_slice_of(part: Seq<char>, text: Seq<char>) -> bool {
    exists|i: int, j: int| 0 <= i <= j <= text.len() && part == text.subrange(i, j)
}

/// The view of an optional string.
pub open spec fn opt_view(s: Option<String>) -> Option<Seq<char>> {
    match s {
        Some(x) => Some(x@),
        None => None,
    }
}

/// Relies on regex::Regex::new, Regex::captures and Captures::get: the text that group
/// `group` captured in the leftmost match, or nothing, as `regex_capture_of` names it.
/// What a group captured is a slice of the searched text (`Match::as_str`).
#[verifier::external_body]
fn regex_capture(pattern: &str, text: &str, group: usize) -> (r: Option<String>)
    ensures
        opt_view(r) == regex_capture_of(pattern@, text@, group as nat),
        r matches Some(c) ==> is_slice_of(c@, text@),
{
    let re = match regex::Regex::new(pattern) {
        Ok(re) => re,
        Err(_) => return None,
    };
    match re.captures(text) {
        Some(caps) => match caps.get(group) {
            Some(m) => Some(m.as_str().to_string()),
            None => None,
        },
        None => None,
    }
}

/// A derivation path `/nix/store/<hash>-<name>.drv`; the group is what lies between.
pub const DRV_PATH_PATTERN: &'static str = "\\/nix\\/store\\/(.*)\\.drv";

/// The line of a narinfo that gives the NAR hash.
pub const NAR_HASH_PATTERN: &'static str = "(?m)NarHash: (.*)";

/// The line of a narinfo that gives the signature.
pub const SIG_PATTERN: &'static str = "(?m)Sig: (.*)";

/// The identifier of a derivation: what its path holds between `/nix/store/` and
/// `.drv`; `None` where the path does not have that form.
pub fn parse_drv_hash(drv_path: &str) -> (r: Option<String>)
    ensures
        opt_view(r) == regex_capture_of(DRV_PATH_PATTERN@, drv_path@, 1),
        r matches Some(ident) ==> is_slice_of(ident@, drv_path@),
{
    regex_capture(DRV_PATH_PATTERN, drv_path, 1)
}

/// The whole of the first `/nix/store/<...>.drv` match in a derivation path, as
/// reports of build results file it; `None` where there is no such match.
pub fn parse_drv_path_match(drv_path: &str) -> (r: Option<String>)
    ensures
        opt_view(r) == regex_capture_of(DRV_PATH_PATTERN@, drv_path@, 0),
        r matches Some(m) ==> is_slice_of(m@, drv_path@),
{
    regex_capture(DRV_PATH_PATTERN, drv_path, 0)
}

/// The hash and signature of one output as published to the registry.
pub struct OutputAttestation {
    pub output_digest: String,
    pub output_name: String,
    pub output_hash: String,
    pub output_sig: String,
}

/// Why a narinfo gave no attestation.
#[derive(PartialEq, Eq, Structural, Clone, Copy, Debug)]
pub enum NarinfoError {
    /// The cache answered `404`: it has no metadata for the path.
    NotFound,
    /// The metadata has no `NarHash:` line.
    MissingNarHash,
    /// The metadata has no `Sig:` line.
    MissingSig,
}

/// The body with which a cache says that it has no metadata for a path.
pub open spec fn not_found_body() -> Seq<u8> {
    seq![52u8, 48u8, 52u8]
}

/// Whether `body` is the cache's `404` answer.
fn is_not_found(body: &str) -> (r: bool)
    ensures
        r == (body.spec_bytes() == not_found_body()),
{
    let b = body.as_bytes();
    if b.len() != 3 {
        return false;
    }
    let r = b[0] == 52u8 && b[1] == 48u8 && b[2] == 52u8;
    assert(r ==> b@ =~= not_found_body());
    r
}

/// The attestation of `out_path` from the cache's answer `narinfo` and from what its
/// `NarHash:` and `Sig:` lines gave, if anything: the path's hash part and name,
/// with that hash and signature.
pub fn attestation_from_fields(
    out_path: &str,
    narinfo: &str,
    nar_hash: Option<String>,
    sig: Option<String>,
) -> (r: Result<OutputAttestation, NarinfoError>)
    requires
        is_char_boundary(out_path.spec_bytes(), DIGEST_START as int),
        is_char_boundary(out_path.spec_bytes(), DIGEST_END as int),
        is_char_boundary(out_path.spec_bytes(), NAME_START as int),
    ensures
        narinfo.spec_bytes() == not_found_body() ==> r == Err::<OutputAttestation, NarinfoError>(
            NarinfoError::NotFound,
        ),
        narinfo.spec_bytes() != not_found_body() && nar_hash is None ==> r == Err::<
            OutputAttestation,
            NarinfoError,
        >(NarinfoError::MissingNarHash),
        narinfo.spec_bytes() != not_found_body() && nar_hash is Some && sig is None ==> r == Err::<
            OutputAttestation,
            NarinfoError,
        >(NarinfoError::MissingSig),
        r is Ok <==> narinfo.spec_bytes() != not_found_body() && nar_hash is Some && sig is Some,
        r matches Ok(a) ==> {
            &&& encode_utf8(a.output_digest@) == out_path.spec_bytes().subrange(
                DIGEST_START as int,
                DIGEST_END as int,
            )
            &&& encode_utf8(a.output_name@) == out_path.spec_bytes().subrange(
                NAME_START as int,
                out_path.spec_bytes().len() as int,
            )
            &&& Some(a.output_hash@) == opt_view(nar_hash)
            &&& Some(a.output_sig@) == opt_view(sig)
        },
{
    if is_not_found(narinfo) {
        return Err(NarinfoError::NotFound);
    }
    let output_hash = match nar_hash {
        Some(h) => h,
        None => return Err(NarinfoError::MissingNarHash),
    };
    let output_sig = match sig {
        Some(s) => s,
        None => return Err(NarinfoError::MissingSig),
    };
    let digest = parse_store_path_digest(out_path);
    let name = parse_store_path_name(out_path);
    Ok(
        OutputAttestation {
            output_digest: digest.to_owned(),
            output_name: name.to_owned(),
            output_hash,
            output_sig,
        },
    )
}

/// The attestation of `out_path` read from the cache's narinfo answer: the hash
/// and the signature are the first `NarHash:` and `Sig:` lines.
pub fn attestation_from_narinfo(out_path: &str, narinfo: &str) -> (r: Result<
    OutputAttestation,
    NarinfoError,
>)
    requires
        is_char_boundary(out_path.spec_bytes(), DIGEST_START as int),
        is_char_boundary(out_path.spec_bytes(), DIGEST_END as int),
        is_char_boundary(out_path.spec_bytes(), NAME_START as int),
    ensures
        ({
            let h = regex_capture_of(NAR_HASH_PATTERN@, narinfo@, 1);
            let s = regex_capture_of(SIG_PATTERN@, narinfo@, 1);
            &&& narinfo.spec_bytes() == not_found_body() ==> r == Err::<
                OutputAttestation,
                NarinfoError,
            >(NarinfoError::NotFound)
            &&& narinfo.spec_bytes() != not_found_body() && h is None ==> r == Err::<
                OutputAttestation,
                NarinfoError,
            >(NarinfoError::MissingNarHash)
            &&& narinfo.spec_bytes() != not_found_body() && h is Some && s is None ==> r == Err::<
                OutputAttestation,
                NarinfoError,
            >(NarinfoError::MissingSig)
            &&& r is Ok <==> narinfo.spec_bytes() != not_found_body() && h is Some && s is Some
            &&& r matches Ok(a) ==> {
                &&& encode_utf8(a.output_digest@) == out_path.spec_bytes().subrange(
                    DIGEST_START as int,
                    DIGEST_END as int,
                )
                &&& encode_utf8(a.output_name@) == out_path.spec_bytes().subrange(
                    NAME_START as int,
                    out_path.spec_bytes().len() as int,
                )
                &&& Some(a.output_hash@) == h
                &&& Some(a.output_sig@) == s
            }
        }),
{
    let nar_hash = regex_capture(NAR_HASH_PATTERN, narinfo, 1);
    let sig = regex_capture(SIG_PATTERN, narinfo, 1);
    attestation_from_fields(out_path, narinfo, nar_hash, sig)
}

} // verus!
