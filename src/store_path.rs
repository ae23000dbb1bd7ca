use vstd::prelude::*;
use vstd::string::StringSliceAdditionalSpecFns;
use vstd::utf8::*;
use vstd::string::StringExecFns;

verus! {

broadcast use encode_utf8_valid_utf8;

/// An error context of the native store library, only ever held by pointer.
#[allow(non_camel_case_types)]
#[derive(Debug, Copy, Clone)]
pub struct c_context {
    _unused: [u8; 0],
}

/// A store opened by the native store library, only ever held by pointer.
#[derive(Debug, Copy, Clone)]
pub struct Store {
    _unused: [u8; 0],
}

/// A parsed store path of the native store library, only ever held by pointer.
#[derive(Debug, Copy, Clone)]
pub struct StorePath {
    _unused: [u8; 0],
}

/// Offset of the hash part in a store path: the length of "/nix/store/".
pub const DIGEST_START: usize = 11;

/// Offset just past the 32 characters of the hash part.
pub const DIGEST_END: usize = 43;

/// Offset at which the name part is read: two bytes past the hash part.
pub const NAME_START: usize = 45;

/// The bytes of `s` from `start` on, as a string, where `start` is a character boundary.
fn suffix_from(s: &str, start: usize) -> (r: &str)
    requires
        is_char_boundary(s.spec_bytes(), start as int),
    ensures
        r.spec_bytes() == s.spec_bytes().subrange(start as int, s.spec_bytes().len() as int),
{
    let (_, rest) = s.split_at(start);
    rest
}

/// The hash part of a store path `/nix/store/<32 characters>-<name>`: its bytes 11 to 43.
pub fn parse_store_path_digest(store_path: &str) -> (r: &str)
    requires
        is_char_boundary(store_path.spec_bytes(), DIGEST_START as int),
        is_char_boundary(store_path.spec_bytes(), DIGEST_END as int),
    ensures
        r.spec_bytes() == store_path.spec_bytes().subrange(DIGEST_START as int, DIGEST_END as int),
{
    let ghost bytes = store_path.spec_bytes();
    let rest = suffix_from(store_path, DIGEST_START);
    let ghost rb = rest.spec_bytes();
    proof {
        let n = (DIGEST_END - DIGEST_START) as int;
        if rb.len() == n {
            is_char_boundary_start_end_of_seq(rb);
        } else {
            is_char_boundary_iff_not_is_continuation_byte(bytes, DIGEST_END as int);
            is_char_boundary_iff_not_is_continuation_byte(rb, n);
        }
    }
    let (digest, _) = rest.split_at(DIGEST_END - DIGEST_START);
    proof {
        assert(digest.spec_bytes() =~= bytes.subrange(DIGEST_START as int, DIGEST_END as int));
    }
    digest
}

/// The name part of a store path, read as its bytes from 45 on.
pub fn parse_store_path_name(store_path: &str) -> (r: &str)
    requires
        is_char_boundary(store_path.spec_bytes(), NAME_START as int),
    ensures
        r.spec_bytes() == store_path.spec_bytes().subrange(
            NAME_START as int,
            store_path.spec_bytes().len() as int,
        ),
{
    suffix_from(store_path, NAME_START)
}

/// The decimal digit `d`.
pub open spec fn digit_char(d: nat) -> char {
    seq!['0', '1', '2', '3', '4', '5', '6', '7', '8', '9'][d as int]
}

/// The decimal notation of `n`, without leading zeros.
pub open spec fn decimal(n: nat) -> Seq<char>
    decreases n,
{
    if n < 10 {
        seq![digit_char(n)]
    } else {
        decimal(n / 10).push(digit_char(n % 10))
    }
}

/// The items of `items` with a ',' between each two.
pub open spec fn comma_joined(items: Seq<Seq<char>>) -> Seq<char>
    decreases items.len(),
{
    if items.len() == 0 {
        Seq::empty()
    } else if items.len() == 1 {
        items[0]
    } else {
        comma_joined(items.drop_last()) + seq![','] + items.last()
    }
}

/// The text that a path's signature covers:
/// `1;<path>;<nar hash>;<nar size>;<references joined by ','>`.
pub open spec fn fingerprint_of(
    out_path: Seq<char>,
    nar_hash: Seq<char>,
    size: nat,
    references: Seq<Seq<char>>,
) -> Seq<char> {
    seq!['1', ';'] + out_path + seq![';'] + nar_hash + seq![';'] + decimal(size) + seq![';']
        + comma_joined(references)
}

fn digit_str(d: u64) -> (r: &'static str)
    requires
        d < 10,
    ensures
        r@ == seq![digit_char(d as nat)],
{
    proof {
        reveal_strlit("0");
        reveal_strlit("1");
        reveal_strlit("2");
        reveal_strlit("3");
        reveal_strlit("4");
        reveal_strlit("5");
        reveal_strlit("6");
        reveal_strlit("7");
        reveal_strlit("8");
        reveal_strlit("9");
    }
    if d == 0 {
        "0"
    } else if d == 1 {
        "1"
    } else if d == 2 {
        "2"
    } else if d == 3 {
        "3"
    } else if d == 4 {
        "4"
    } else if d == 5 {
        "5"
    } else if d == 6 {
        "6"
    } else if d == 7 {
        "7"
    } else if d == 8 {
        "8"
    } else {
        "9"
    }
}

/// Writes `n` in decimal.
pub fn decimal_string(n: u64) -> (r: String)
    ensures
        r@ == decimal(n as nat),
    decreases n,
{
    if n < 10 {
        digit_str(n).to_owned()
    } else {
        let mut s = decimal_string(n / 10);
        s.append(digit_str(n % 10));
        s
    }
}

/// Joins `items` with ',' between each two.
pub fn join_with_commas(items: &Vec<String>) -> (r: String)
    ensures
        r@ == comma_joined(items@.map_values(|s: String| s@)),
{
    let ghost all = items@.map_values(|s: String| s@);
    let mut out = String::new();
    let mut i: usize = 0;
    proof {
        assert(all.take(0) =~= Seq::<Seq<char>>::empty());
    }
    while i < items.len()
        invariant
            i <= items.len(),
            all == items@.map_values(|s: String| s@),
            out@ == comma_joined(all.take(i as int)),
        decreases items.len() - i,
    {
        let ghost next = all.take(i as int + 1);
        assert(next.drop_last() =~= all.take(i as int));
        assert(next.last() == items@[i as int]@);
        let ghost before = out@;
        proof {
            reveal_strlit(",");
        }
        if i > 0 {
            out.append(",");
            out.append(items[i].as_str());
            assert(out@ =~= before + seq![','] + items@[i as int]@);
        } else {
            assert(next =~= seq![items@[0]@]);
            out.append(items[i].as_str());
            assert(out@ =~= items@[0]@);
        }
        i = i + 1;
    }
    assert(all.take(items.len() as int) =~= all);
    out
}

/// The text that the signature of a store path covers, from its path, its NAR hash,
/// its NAR size and its references.
pub fn fingerprint(out_path: &str, nar_hash: &str, size: u64, references: &Vec<String>) -> (r:
    String)
    ensures
        r@ == fingerprint_of(out_path@, nar_hash@, size as nat, references@.map_values(|s: String| s@)),
{
    let mut r = "1;".to_owned();
    r.append(out_path);
    r.append(";");
    r.append(nar_hash);
    r.append(";");
    let size_text = decimal_string(size);
    r.append(size_text.as_str());
    r.append(";");
    let refs = join_with_commas(references);
    r.append(refs.as_str());
    proof {
        reveal_strlit("1;");
        reveal_strlit(";");
    }
    r
}

} // verus!
