//! Name normalization: a room name is lower-cased and percent-encoded,
//! except that the literal `@` between local part and domain is kept
//! unescaped. The normalized form is both the hash input and the value
//! stored under the generated identifier.

use vstd::prelude::*;
use vstd::string::StringSliceAdditionalSpecFns;
use vstd::string::StringExecFns;
use vstd::string::StrSliceExecFns;
use vstd::utf8::*;

verus! {

/// What `str::to_lowercase` returns: a function of the characters alone.
pub uninterp spec fn lower_chars(s: Seq<char>) -> Seq<char>;

/// Relies on `str::to_lowercase`: the result depends on the characters of
/// the input alone (Unicode lowercasing, stable across calls and processes).
#[verifier::external_body]
fn to_lower(s: &str) -> (r: String)
    ensures
        r@ == lower_chars(s@),
{
    s.to_lowercase()
}

/// The bytes that percent-encoding passes through unchanged: ASCII
/// alphanumerics and `-`, `.`, `_`, `~`.
pub open spec fn spec_unreserved(b: u8) -> bool {
    (48 <= b <= 57) || (65 <= b <= 90) || (97 <= b <= 122) || b == 45 || b == 46 || b == 95
        || b == 126
}

/// The upper-case hexadecimal digit for a value below 16.
pub open spec fn spec_hex_upper(d: u8) -> u8 {
    if d < 10 {
        (48 + d) as u8
    } else {
        (55 + d) as u8
    }
}

/// The percent-encoding of one byte: itself if unreserved, else `%` and two
/// upper-case hex digits.
pub open spec fn enc_byte(b: u8) -> Seq<u8> {
    if spec_unreserved(b) {
        seq![b]
    } else {
        seq![37u8, spec_hex_upper(b / 16), spec_hex_upper(b % 16)]
    }
}

/// The percent-encoding of a byte string, byte by byte.
pub open spec fn percent_encode(bs: Seq<u8>) -> Seq<u8>
    decreases bs.len(),
{
    if bs.len() == 0 {
        Seq::<u8>::empty()
    } else {
        enc_byte(bs[0]) + percent_encode(bs.drop_first())
    }
}

/// Relies on `urlencoding::encode`: percent-encodes every byte of the UTF-8
/// form of the input except ASCII alphanumerics and `-`, `.`, `_`, `~`,
/// writing `%` followed by two upper-case hexadecimal digits; the output is
/// ASCII.
#[verifier::external_body]
fn encode_component(s: &str) -> (r: String)
    ensures
        encode_utf8(r@) == percent_encode(s.spec_bytes()),
        is_ascii_chars(r@),
{
    urlencoding::encode(s).into_owned()
}

/// Relies on `String::from_utf8`: succeeds exactly on valid UTF-8 input and
/// returns the string made of those bytes.
#[verifier::external_body]
pub(crate) fn string_from_bytes(v: Vec<u8>) -> (r: Option<String>)
    ensures
        match r {
            Some(s) => encode_utf8(s@) == v@,
            None => !valid_utf8(v@),
        },
{
    match String::from_utf8(v) {
        Ok(s) => Some(s),
        Err(_) => None,
    }
}

/// Rewrites every (non-overlapping, left to right) occurrence of `%40` —
/// the percent-encoded form of `@` — back to a literal `@`.
pub open spec fn restore_at(bs: Seq<u8>) -> Seq<u8>
    decreases bs.len(),
{
    if bs.len() >= 3 && bs[0] == 37 && bs[1] == 52 && bs[2] == 48 {
        seq![64u8] + restore_at(bs.skip(3))
    } else if bs.len() == 0 {
        Seq::<u8>::empty()
    } else {
        seq![bs[0]] + restore_at(bs.skip(1))
    }
}

/// The normalized form of a name, as UTF-8 bytes: lower-cased,
/// percent-encoded, with the `@` separator restored.
pub open spec fn norm_bytes(name: Seq<char>) -> Seq<u8> {
    restore_at(percent_encode(encode_utf8(lower_chars(name))))
}

/// The normalized form of a name, as characters.
pub open spec fn normalize_chars(name: Seq<char>) -> Seq<char> {
    decode_utf8(norm_bytes(name))
}

/// Every byte of a percent-encoded string is ASCII.
proof fn lemma_percent_encode_ascii(bs: Seq<u8>)
    ensures
        forall|i: int| 0 <= i < percent_encode(bs).len() ==> percent_encode(bs)[i] < 128,
    decreases bs.len(),
{
    if bs.len() > 0 {
        lemma_percent_encode_ascii(bs.drop_first());
        assert forall|i: int| 0 <= i < percent_encode(bs).len() implies percent_encode(
            bs,
        )[i] < 128 by {
            let e = enc_byte(bs[0]);
            if i < e.len() {
                assert(percent_encode(bs)[i] == e[i]);
            } else {
                assert(percent_encode(bs)[i] == percent_encode(bs.drop_first())[i - e.len()]);
            }
        }
    }
}

/// Restoring `@` keeps every byte ASCII.
proof fn lemma_restore_at_ascii(bs: Seq<u8>)
    requires
        forall|i: int| 0 <= i < bs.len() ==> bs[i] < 128,
    ensures
        forall|i: int| 0 <= i < restore_at(bs).len() ==> restore_at(bs)[i] < 128,
    decreases bs.len(),
{
    if bs.len() >= 3 && bs[0] == 37 && bs[1] == 52 && bs[2] == 48 {
        lemma_restore_at_ascii(bs.skip(3));
        assert forall|i: int| 0 <= i < restore_at(bs).len() implies restore_at(bs)[i]
            < 128 by {
            if i > 0 {
                assert(restore_at(bs)[i] == restore_at(bs.skip(3))[i - 1]);
            }
        }
    } else if bs.len() > 0 {
        lemma_restore_at_ascii(bs.skip(1));
        assert forall|i: int| 0 <= i < restore_at(bs).len() implies restore_at(bs)[i]
            < 128 by {
            if i > 0 {
                assert(restore_at(bs)[i] == restore_at(bs.skip(1))[i - 1]);
            }
        }
    }
}

/// A byte string of ASCII bytes is valid UTF-8.
proof fn lemma_ascii_bytes_valid_utf8(bs: Seq<u8>)
    requires
        forall|i: int| 0 <= i < bs.len() ==> bs[i] < 128,
    ensures
        valid_utf8(bs),
{
    let chars = Seq::new(bs.len(), |i: int| bs[i] as char);
    assert(is_ascii_chars(chars));
    is_ascii_chars_encode_utf8(chars);
    assert(encode_utf8(chars) =~= bs);
    encode_utf8_valid_utf8(chars);
}

/// The normalized form of a name is valid UTF-8 (it is all ASCII), and its
/// characters are `normalize_chars`.
pub proof fn lemma_norm_bytes_valid_utf8(name: Seq<char>)
    ensures
        valid_utf8(norm_bytes(name)),
        decode_utf8(norm_bytes(name)) == normalize_chars(name),
{
    let ebytes = percent_encode(encode_utf8(lower_chars(name)));
    lemma_percent_encode_ascii(encode_utf8(lower_chars(name)));
    lemma_restore_at_ascii(ebytes);
    lemma_ascii_bytes_valid_utf8(restore_at(ebytes));
}

/// Replaces each `%40` in an ASCII byte string with `@`, as `restore_at`
/// describes.
fn restore_escaped_at(bs: &Vec<u8>) -> (r: Vec<u8>)
    ensures
        r@ == restore_at(bs@),
{
    let n = bs.len();
    let mut out: Vec<u8> = Vec::new();
    let mut i: usize = 0;
    proof {
        assert(bs@.skip(0) =~= bs@);
        assert(out@ + restore_at(bs@) =~= restore_at(bs@));
    }
    while i < n
        invariant
            n == bs@.len(),
            i <= n,
            out@ + restore_at(bs@.skip(i as int)) == restore_at(bs@),
        decreases n - i,
    {
        let ghost rest = bs@.skip(i as int);
        if n - i >= 3 && bs[i] == 37 && bs[i + 1] == 52 && bs[i + 2] == 48 {
            out.push(64);
            proof {
                assert(rest.len() >= 3 && rest[0] == 37 && rest[1] == 52 && rest[2] == 48);
                assert(rest.skip(3) =~= bs@.skip(i + 3));
                assert(restore_at(rest) == seq![64u8] + restore_at(bs@.skip(i + 3)));
                assert(out@ + restore_at(bs@.skip(i + 3)) =~= restore_at(bs@));
            }
            i = i + 3;
        } else {
            let b = bs[i];
            out.push(b);
            proof {
                assert(rest.len() > 0);
                assert(rest[0] == b);
                assert(!(rest.len() >= 3 && rest[0] == 37 && rest[1] == 52 && rest[2] == 48));
                assert(rest.skip(1) =~= bs@.skip(i + 1));
                assert(restore_at(rest) == seq![b] + restore_at(bs@.skip(i + 1)));
                assert(out@ + restore_at(bs@.skip(i + 1)) =~= restore_at(bs@));
            }
            i = i + 1;
        }
    }
    proof {
        assert(bs@.skip(n as int) =~= Seq::<u8>::empty());
        assert(out@ =~= restore_at(bs@));
    }
    out
}

/// Normalizes a room name: lower-cases it, percent-encodes it, and keeps
/// the literal `@` separator unescaped. The result is the canonical form
/// used both as hash input and as the stored value.
pub fn normalize(name: &str) -> (r: String)
    ensures
        encode_utf8(r@) == norm_bytes(name@),
        r@ == normalize_chars(name@),
{
    let low = to_lower(name);
    let enc = encode_component(low.as_str());
    let ebytes = enc.as_str().as_bytes_vec();
    proof {
        assert(ebytes@ == encode_utf8(enc@));
        assert(ebytes@ == percent_encode(encode_utf8(lower_chars(name@))));
        lemma_percent_encode_ascii(encode_utf8(lower_chars(name@)));
        lemma_restore_at_ascii(ebytes@);
    }
    let out = restore_escaped_at(&ebytes);
    proof {
        assert(out@ == norm_bytes(name@));
        lemma_ascii_bytes_valid_utf8(out@);
    }
    match string_from_bytes(out) {
        Some(s) => {
            proof {
                encode_utf8_decode_utf8(s@);
            }
            s
        },
        None => vstd::pervasive::unreached(),
    }
}

} // verus!
