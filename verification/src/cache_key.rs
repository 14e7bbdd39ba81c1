//! Stable cache keys for source paths, and the file names derived from them.
//!
//! A source path is hashed with 64-bit FNV-1a; the disk-cache entry for that
//! path is named by the decimal form of the hash followed by `.jpg`. The hash
//! is a pure function of the path bytes, so the same path maps to the same
//! cache file within a process and across restarts.

use vstd::prelude::*;

verus! {

/// FNV-1a 64-bit offset basis.
pub const FNV_OFFSET: u64 = 0xcbf29ce484222325;

/// FNV-1a 64-bit prime.
pub const FNV_PRIME: u64 = 0x100000001b3;

/// One FNV-1a round: fold the next byte into the running hash.
pub open spec fn fnv1a_step(h: u64, b: u8) -> u64 {
    (h ^ (b as u64)).wrapping_mul(FNV_PRIME)
}

/// The FNV-1a hash of a byte sequence.
pub open spec fn fnv1a_of(s: Seq<u8>) -> u64
    decreases s.len(),
{
    if s.len() == 0 {
        FNV_OFFSET
    } else {
        fnv1a_step(fnv1a_of(s.drop_last()), s.last())
    }
}

/// Hash a source path down to its stable cache key.
pub fn cache_key(path: &[u8]) -> (r: u64)
    ensures
        r == fnv1a_of(path@),
{
    let mut h: u64 = FNV_OFFSET;
    let mut i: usize = 0;
    while i < path.len()
        invariant
            i <= path@.len(),
            h == fnv1a_of(path@.take(i as int)),
        decreases path@.len() - i,
    {
        h = (h ^ (path[i] as u64)).wrapping_mul(FNV_PRIME);
        proof {
            assert(path@.take(i + 1).drop_last() =~= path@.take(i as int));
            assert(path@.take(i + 1).last() == path@[i as int]);
        }
        i = i + 1;
    }
    proof {
        assert(path@.take(path@.len() as int) =~= path@);
    }
    h
}

/// The decimal digits of a number, most significant first, as ASCII bytes.
pub open spec fn dec_digits(n: nat) -> Seq<u8>
    decreases n,
{
    if n < 10 {
        seq![(48 + n) as u8]
    } else {
        dec_digits(n / 10).push((48 + n % 10) as u8)
    }
}

/// Append the decimal form of `n` to `out`.
pub fn push_decimal(n: u64, out: &mut Vec<u8>)
    ensures
        final(out)@ == old(out)@ + dec_digits(n as nat),
    decreases n,
{
    if n >= 10 {
        push_decimal(n / 10, out);
        out.push(48 + (n % 10) as u8);
        proof {
            assert(out@ =~= old(out)@ + dec_digits(n as nat));
        }
    } else {
        out.push(48 + n as u8);
        proof {
            assert(dec_digits(n as nat) =~= seq![(48 + n) as u8]);
            assert(out@ =~= old(out)@ + dec_digits(n as nat));
        }
    }
}

/// The `.jpg` suffix of every disk-cache entry, as bytes.
pub open spec fn jpg_suffix() -> Seq<u8> {
    seq![46u8, 106u8, 112u8, 103u8]
}

/// The file name of the disk-cache entry for a given cache key.
pub open spec fn name_of_key(key: u64) -> Seq<u8> {
    dec_digits(key as nat) + jpg_suffix()
}

/// Render a cache key as the file name of its disk-cache entry.
pub fn cache_file_name(key: u64) -> (r: Vec<u8>)
    ensures
        r@ == name_of_key(key),
{
    let mut out: Vec<u8> = Vec::new();
    push_decimal(key, &mut out);
    out.push(46);
    out.push(106);
    out.push(112);
    out.push(103);
    proof {
        assert(out@ =~= name_of_key(key));
    }
    out
}

/// The disk-cache file name for a source path: hash, then render.
pub fn cache_entry_name(path: &[u8]) -> (r: Vec<u8>)
    ensures
        r@ == name_of_key(fnv1a_of(path@)),
{
    cache_file_name(cache_key(path))
}

} // verus!
