//! The identifier generator: a deterministic, collision-aware hash of a
//! normalized name into a number with exactly `digits` decimal digits.

use vstd::prelude::*;
use vstd::std_specs::hash::DefaultHasherAdditionalSpecFns;
use vstd::string::StringSliceAdditionalSpecFns;
use std::collections::hash_map::DefaultHasher;
use std::hash::Hasher;

verus! {

/// Retry bound for the digit-count loop; in practice one or two rounds
/// suffice, so the fallback path is essentially unreachable.
pub const MAX_ATTEMPTS: u64 = 64;

/// `10^e` as a mathematical integer.
pub open spec fn pow10(e: nat) -> nat
    decreases e,
{
    if e == 0 {
        1
    } else {
        10 * pow10((e - 1) as nat)
    }
}

proof fn lemma_pow10_mono(a: nat, b: nat)
    requires
        a <= b,
    ensures
        pow10(a) <= pow10(b),
    decreases b,
{
    if a < b {
        lemma_pow10_mono(a, (b - 1) as nat);
    }
}

proof fn lemma_pow10_pos(e: nat)
    ensures
        pow10(e) >= 1,
    decreases e,
{
    if e > 0 {
        lemma_pow10_pos((e - 1) as nat);
    }
}

proof fn lemma_pow10_12()
    ensures
        pow10(12) == 1000000000000,
{
    reveal_with_fuel(pow10, 13);
}

/// The view of a `DefaultHasher` into which `bytes` has been written `k`
/// times (the generator's re-hash step folds the name into the running
/// hasher state again).
pub open spec fn writes_of(bytes: Seq<u8>, k: nat) -> Seq<Seq<u8>>
    decreases k,
{
    if k == 0 {
        Seq::<Seq<u8>>::empty()
    } else {
        writes_of(bytes, (k - 1) as nat).push(bytes)
    }
}

/// The candidate identifier produced by the `k`-th attempt: the 64-bit hash
/// of `k` copies of the name, reduced modulo `10^digits`.
pub open spec fn attempt_hash(bytes: Seq<u8>, digits: nat, k: nat) -> u64 {
    (DefaultHasher::spec_finish(writes_of(bytes, k)) % (pow10(digits) as u64)) as u64
}

/// The identifier reached from attempt `k` on: the first candidate with a
/// nonzero leading digit, or, should `MAX_ATTEMPTS` rounds all fall short, a
/// final candidate shifted into the valid range.
pub open spec fn gen_from(bytes: Seq<u8>, digits: nat, k: nat) -> u64
    decreases MAX_ATTEMPTS - k,
{
    let h = attempt_hash(bytes, digits, k);
    if pow10((digits - 1) as nat) <= h {
        h
    } else if k + 1 > MAX_ATTEMPTS {
        ((pow10((digits - 1) as nat) + (h as nat) % (9 * pow10((digits - 1) as nat))) as u64)
    } else {
        gen_from(bytes, digits, k + 1)
    }
}

/// The identifier generated for a name (given as its UTF-8 bytes) and a
/// digit length: a mathematical function of the two arguments alone, which
/// is what makes repeated creation requests idempotent.
pub open spec fn id_of(bytes: Seq<u8>, digits: nat) -> u64 {
    gen_from(bytes, digits, 1)
}

/// Every generated identifier has exactly `digits` decimal digits.
pub proof fn lemma_gen_from_range(bytes: Seq<u8>, digits: nat, k: nat)
    requires
        1 <= digits <= 12,
    ensures
        pow10((digits - 1) as nat) <= gen_from(bytes, digits, k) < pow10(digits),
    decreases MAX_ATTEMPTS - k,
{
    lemma_pow10_mono(digits, 12);
    lemma_pow10_12();
    lemma_pow10_pos((digits - 1) as nat);
    let h = attempt_hash(bytes, digits, k);
    let lo = pow10((digits - 1) as nat);
    assert(pow10(digits) == 10 * lo);
    let m = pow10(digits) as u64;
    assert(m as nat == pow10(digits));
    assert(h == (DefaultHasher::spec_finish(writes_of(bytes, k)) % m) as u64);
    assert(h < m) by {
        vstd::arithmetic::div_mod::lemma_mod_bound(
            DefaultHasher::spec_finish(writes_of(bytes, k)) as int,
            m as int,
        );
    }
    if lo <= h {
    } else if k + 1 > MAX_ATTEMPTS {
        assert((h as nat) % (9 * lo) < 9 * lo) by {
            vstd::arithmetic::div_mod::lemma_mod_bound(h as int, 9 * lo as int);
        }
        assert(lo + (h as nat) % (9 * lo) < 10 * lo);
        assert((lo + (h as nat) % (9 * lo)) as u64 == lo + (h as nat) % (9 * lo));
    } else {
        lemma_gen_from_range(bytes, digits, k + 1);
    }
}

/// `id_of` stays within the `digits`-digit decimal range.
pub proof fn lemma_id_of_range(bytes: Seq<u8>, digits: nat)
    requires
        1 <= digits <= 12,
    ensures
        pow10((digits - 1) as nat) <= id_of(bytes, digits) < pow10(digits),
{
    lemma_gen_from_range(bytes, digits, 1);
}

/// `10^e` as a machine integer, for the digit-range checks.
pub fn pow10_u64(e: u32) -> (r: u64)
    requires
        e <= 12,
    ensures
        r as nat == pow10(e as nat),
{
    let mut r: u64 = 1;
    let mut i: u32 = 0;
    while i < e
        invariant
            i <= e <= 12,
            r as nat == pow10(i as nat),
        decreases e - i,
    {
        proof {
            lemma_pow10_mono(i as nat, 11);
            reveal_with_fuel(pow10, 13);
        }
        r = r * 10;
        i = i + 1;
    }
    r
}

/// Derives a decimal identifier with exactly `digits` digits from a
/// normalized conference name.
///
/// The result is a function of the name's bytes and the digit length alone
/// (`id_of`), so the generator is deterministic across calls and across
/// processes, and it always lies in `[10^(digits-1), 10^digits)`.
pub fn conference_hash(conf: &str, digits: u32) -> (r: u64)
    requires
        6 <= digits <= 12,
    ensures
        r == id_of(conf.spec_bytes(), digits as nat),
        pow10((digits - 1) as nat) <= r < pow10(digits as nat),
{
    let bytes: &[u8] = conf.as_bytes();
    let modulus: u64 = pow10_u64(digits);
    let floor: u64 = pow10_u64(digits - 1);
    proof {
        lemma_pow10_mono(digits as nat, 12);
        lemma_pow10_12();
        lemma_pow10_pos((digits - 1) as nat);
        assert(pow10(digits as nat) == 10 * pow10((digits - 1) as nat));
    }
    let mut hasher = DefaultHasher::new();
    let mut k: u64 = 0;
    loop
        invariant
            6 <= digits <= 12,
            bytes@ == conf.spec_bytes(),
            modulus as nat == pow10(digits as nat),
            floor as nat == pow10((digits - 1) as nat),
            modulus == 10 * floor,
            1 <= floor,
            modulus <= 1000000000000,
            hasher@ == writes_of(bytes@, k as nat),
            k < MAX_ATTEMPTS,
            gen_from(bytes@, digits as nat, (k + 1) as nat) == id_of(
                bytes@,
                digits as nat,
            ),
        decreases MAX_ATTEMPTS - k,
    {
        hasher.write(bytes);
        let h = hasher.finish() % modulus;
        k = k + 1;
        proof {
            assert(hasher@ == writes_of(bytes@, k as nat));
            assert(h == attempt_hash(bytes@, digits as nat, k as nat));
        }
        if h >= floor {
            proof {
                lemma_gen_from_range(bytes@, digits as nat, k as nat);
            }
            return h;
        }
        if k >= MAX_ATTEMPTS {
            proof {
                vstd::arithmetic::div_mod::lemma_mod_bound(
                    h as int,
                    (modulus - floor) as int,
                );
            }
            return floor + h % (modulus - floor);
        }
    }
}

/// The decimal digit string of `n`, as ASCII bytes: this is the key under
/// which a mapping is stored.
pub open spec fn dec_bytes(n: nat) -> Seq<u8>
    decreases n,
{
    if n < 10 {
        seq![(48 + n) as u8]
    } else {
        dec_bytes(n / 10).push((48 + n % 10) as u8)
    }
}

/// Renders `n` in decimal, matching `dec_bytes`.
pub fn u64_to_dec_bytes(n: u64) -> (r: Vec<u8>)
    ensures
        r@ == dec_bytes(n as nat),
    decreases n,
{
    if n < 10 {
        let mut v: Vec<u8> = Vec::new();
        v.push(48 + (n as u8));
        proof {
            assert(v@ =~= dec_bytes(n as nat));
        }
        v
    } else {
        let mut v = u64_to_dec_bytes(n / 10);
        v.push(48 + ((n % 10) as u8));
        proof {
            assert(v@ =~= dec_bytes(n as nat));
        }
        v
    }
}

} // verus!
