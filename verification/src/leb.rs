//! Unsigned LEB128: the variable-length integer encoding used throughout the
//! binary format, together with the lemmas that make the codec round-trip.
//!
//! The reader accepts any terminating encoding of at most ten bytes whose
//! tenth byte, if present, is at most `1` (so the value fits in 64 bits); the
//! writer always emits the minimal encoding.

use vstd::prelude::*;
use vstd::arithmetic::div_mod::lemma_fundamental_div_mod;

verus! {

/// `128^i`, the weight of the `i`-th LEB128 digit.
pub open spec fn pow128(i: int) -> nat
    decreases i,
{
    if i <= 0 {
        1
    } else {
        128 * pow128(i - 1)
    }
}

/// Reads an unsigned LEB128 integer from the front of `s`: the value and the
/// number of bytes consumed, or `None` if no terminating byte is found.
pub open spec fn uleb_raw(s: Seq<u8>) -> Option<(nat, int)>
    decreases s.len(),
{
    if s.len() == 0 {
        None
    } else if s[0] < 128 {
        Some((s[0] as nat, 1))
    } else {
        match uleb_raw(s.skip(1)) {
            None => None,
            Some((v, l)) => Some(((s[0] - 128) as nat + 128 * v, l + 1)),
        }
    }
}

/// Reads an unsigned LEB128 integer, restricted to encodings the reader
/// accepts: at most ten bytes, and a tenth byte of at most `1`, so that the
/// value always fits in an unsigned 64-bit integer.
pub open spec fn uleb_ok(s: Seq<u8>) -> Option<(nat, int)> {
    match uleb_raw(s) {
        None => None,
        Some((v, l)) => if l <= 9 || (l == 10 && s[9] <= 1) {
            Some((v, l))
        } else {
            None
        },
    }
}

/// The minimal unsigned LEB128 encoding of `n`.
pub open spec fn uleb_encode(n: nat) -> Seq<u8>
    decreases n,
{
    if n < 128 {
        seq![n as u8]
    } else {
        seq![(n % 128 + 128) as u8] + uleb_encode(n / 128)
    }
}

/// A value read in `l` bytes is below `128^l`.
pub proof fn lemma_uleb_raw_bound(s: Seq<u8>)
    ensures
        uleb_raw(s) matches Some(r) ==> 1 <= r.1 <= s.len() && r.0 < pow128(r.1),
    decreases s.len(),
{
    assert(pow128(1) == 128) by {
        reveal_with_fuel(pow128, 2);
    }
    if s.len() > 0 && s[0] >= 128 {
        lemma_uleb_raw_bound(s.skip(1));
        match uleb_raw(s.skip(1)) {
            None => {}
            Some((v, l)) => {
                let d = (s[0] - 128) as nat;
                let p = pow128(l);
                assert(d + 128 * v < 128 * p) by (nonlinear_arith)
                    requires
                        d <= 127,
                        v < p,
                ;
                assert(pow128(l + 1) == 128 * pow128(l));
            }
        }
    }
}

/// Splitting a read after `i` leading continuation bytes: the whole read is
/// the read of the tail, weighted and offset by the digits already seen.
pub proof fn lemma_uleb_raw_step(s: Seq<u8>)
    requires
        s.len() > 0,
        s[0] >= 128,
    ensures
        uleb_raw(s) == match uleb_raw(s.skip(1)) {
            None => None::<(nat, int)>,
            Some((v, l)) => Some((((s[0] - 128) as nat + 128 * v) as nat, l + 1)),
        },
{
}

/// A value below `128^k` encodes in at most `k` bytes.
pub proof fn lemma_uleb_encode_len_bound(n: nat, k: int)
    requires
        k >= 1,
        n < pow128(k),
    ensures
        uleb_encode(n).len() <= k,
    decreases k,
{
    if n >= 128 {
        assert(pow128(k) == 128 * pow128(k - 1));
        assert(n / 128 < pow128(k - 1)) by (nonlinear_arith)
            requires
                n < 128 * pow128(k - 1),
        ;
        lemma_uleb_encode_len_bound(n / 128, k - 1);
    }
}

/// The minimal encoding of a 32-bit value takes one to five bytes.
pub proof fn lemma_uleb_encode_len(n: nat)
    ensures
        1 <= uleb_encode(n).len(),
        n < 0x1_0000_0000 ==> uleb_encode(n).len() <= 5,
{
    if n < 0x1_0000_0000 {
        assert(pow128(5) == 0x8_0000_0000) by {
            reveal_with_fuel(pow128, 6);
        }
        lemma_uleb_encode_len_bound(n, 5);
    }
}

/// Reading the minimal encoding of `n`, with anything after it, yields `n`
/// and consumes exactly the encoding.
pub proof fn lemma_uleb_round_trip(n: nat, rest: Seq<u8>)
    ensures
        uleb_raw(uleb_encode(n) + rest) == Some((n, uleb_encode(n).len() as int)),
    decreases n,
{
    let s = uleb_encode(n) + rest;
    if n < 128 {
        assert(s[0] == n as u8);
    } else {
        let b = (n % 128 + 128) as u8;
        assert(s[0] == b);
        lemma_uleb_round_trip(n / 128, rest);
        assert(s.skip(1) =~= uleb_encode(n / 128) + rest);
        lemma_fundamental_div_mod(n as int, 128);
        assert((b - 128) as nat + 128 * (n / 128) == n);
    }
}

/// As `lemma_uleb_round_trip`, but through the reader's acceptance filter:
/// a 32-bit value's minimal encoding is always accepted.
pub proof fn lemma_uleb_ok_round_trip(n: nat, rest: Seq<u8>)
    requires
        n < 0x1_0000_0000,
    ensures
        uleb_ok(uleb_encode(n) + rest) == Some((n, uleb_encode(n).len() as int)),
        1 <= uleb_encode(n).len() <= 5,
{
    lemma_uleb_round_trip(n, rest);
    lemma_uleb_encode_len(n);
}

/// Reads an unsigned LEB128 integer from the front of `s`, returning the
/// value and the number of bytes consumed, exactly as `uleb_ok` describes.
pub fn uleb_parse(s: &[u8]) -> (r: Option<(u64, usize)>)
    ensures
        match uleb_ok(s@) {
            None => r is None,
            Some((v, l)) => r == Some((v as u64, l as usize)) && v < 0x1_0000_0000_0000_0000,
        },
{
    let ghost sq = s@;
    let mut acc: u64 = 0;
    let mut mult: u64 = 1;
    let mut i: usize = 0;
    proof {
        assert(sq.skip(0) =~= sq);
        match uleb_raw(sq) {
            None => {}
            Some((v, l)) => {
                assert((0 + 1 * v) as nat == v);
            }
        }
    }
    loop
        invariant
            0 <= i <= 9,
            i <= sq.len(),
            sq == s@,
            mult == pow128(i as int),
            acc < mult,
            forall|j: int| 0 <= j < i ==> sq[j] >= 128,
            uleb_raw(sq) == match uleb_raw(sq.skip(i as int)) {
                None => None::<(nat, int)>,
                Some((v, l)) => Some(((acc + mult * v) as nat, l + i)),
            },
        decreases 10 - i,
    {
        proof {
            lemma_uleb_raw_bound(sq.skip(i as int));
        }
        if i >= s.len() {
            // end of input before a terminating byte
            assert(sq.skip(i as int).len() == 0);
            return None;
        }
        let b = s[i];
        if b < 128 {
            proof {
                assert(sq.skip(i as int)[0] == sq[i as int]);
                assert(uleb_raw(sq.skip(i as int)) == Some((b as nat, 1int)));
            }
            if i == 9 && b > 1 {
                // ten-byte encoding whose top digit does not fit 64 bits
                return None;
            }
            proof {
                lemma_pow128_values();
                if i < 9 {
                    lemma_pow128_monotone(i as int, 8);
                    assert(mult * b <= 0x100_0000_0000_0000 * 127) by (nonlinear_arith)
                        requires
                            mult <= 0x100_0000_0000_0000,
                            b <= 127,
                    ;
                } else {
                    assert(mult * b <= 0x8000_0000_0000_0000) by (nonlinear_arith)
                        requires
                            mult <= 0x8000_0000_0000_0000,
                            b <= 1,
                    ;
                }
            }
            let value = acc + mult * (b as u64);
            return Some((value, i + 1));
        } else {
            if i == 9 {
                // more than ten bytes: the reader rejects the encoding
                proof {
                    assert(sq.skip(9)[0] >= 128);
                    lemma_uleb_raw_step(sq.skip(9));
                    assert(sq.skip(9).skip(1) =~= sq.skip(10));
                    lemma_uleb_raw_bound(sq.skip(10));
                    match uleb_raw(sq) {
                        None => {}
                        Some((v, l)) => {
                            assert(l >= 11);
                        }
                    }
                }
                return None;
            }
            let ghost i0 = i as int;
            let ghost acc0 = acc;
            let ghost mult0 = mult;
            proof {
                lemma_pow128_values();
                lemma_pow128_monotone(i0, 8);
                assert(acc + mult * (b - 128) < mult * 128) by (nonlinear_arith)
                    requires
                        acc < mult,
                        b < 256,
                ;
                assert(mult * (b - 128) <= 0x100_0000_0000_0000 * 128) by (nonlinear_arith)
                    requires
                        mult <= 0x100_0000_0000_0000,
                        128 <= b < 256,
                ;
            }
            acc = acc + mult * ((b - 128) as u64);
            mult = mult * 128;
            i = i + 1;
            proof {
                assert(sq.skip(i0)[0] == b);
                lemma_uleb_raw_step(sq.skip(i0));
                assert(sq.skip(i0).skip(1) =~= sq.skip(i0 + 1));
                match uleb_raw(sq.skip(i0 + 1)) {
                    None => {
                        assert(uleb_raw(sq.skip(i0)) is None);
                    }
                    Some((v, l)) => {
                        assert(uleb_raw(sq.skip(i0)) == Some(
                            (((b - 128) as nat + 128 * v) as nat, l + 1),
                        ));
                        assert(acc0 + mult0 * (((b - 128) as nat + 128 * v) as nat) == (acc0 + (b
                            - 128) * mult0) + (mult0 * 128) * v) by (nonlinear_arith)
                            requires
                                b >= 128,
                        ;
                        assert(acc == acc0 + (b - 128) * mult0);
                        assert(mult == mult0 * 128);
                    }
                }
            }
        }
    }
}

/// `128^i` grows with `i`.
proof fn lemma_pow128_monotone(i: int, j: int)
    requires
        i <= j,
    ensures
        pow128(i) <= pow128(j),
    decreases j - i,
{
    if i < j {
        lemma_pow128_monotone(i, j - 1);
    }
}

/// The two digit weights the reader's bounds arguments need.
proof fn lemma_pow128_values()
    ensures
        pow128(8) == 0x100_0000_0000_0000,
        pow128(9) == 0x8000_0000_0000_0000,
{
    reveal_with_fuel(pow128, 11);
}

/// Appends the minimal unsigned LEB128 encoding of `n` to `dst`.
pub fn uleb_write(dst: &mut Vec<u8>, n: u32)
    ensures
        final(dst)@ == old(dst)@ + uleb_encode(n as nat),
{
    let mut cur = n;
    loop
        invariant
            old(dst)@ + uleb_encode(n as nat) == dst@ + uleb_encode(cur as nat),
        decreases cur,
    {
        if cur < 128 {
            dst.push(cur as u8);
            proof {
                assert(uleb_encode(cur as nat) =~= seq![cur as u8]);
                assert(dst@ =~= old(dst)@ + uleb_encode(n as nat));
            }
            return;
        } else {
            let b = (cur % 128 + 128) as u8;
            dst.push(b);
            proof {
                assert(uleb_encode(cur as nat) =~= seq![b] + uleb_encode(cur as nat / 128));
                assert(cur as nat / 128 == (cur / 128) as nat);
            }
            cur = cur / 128;
        }
    }
}

} // verus!
