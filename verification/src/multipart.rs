//! Equal-part layout of multipart uploads.
//!
//! R2 rejects multipart uploads whose parts (all but the last) differ in
//! size, so a file of `size` bytes is cut into parts of one size `chunk`,
//! numbered from 1; only the last part may be shorter.
use vstd::prelude::*;

verus! {

/// The part size used unless the file needs larger parts.
pub const DEFAULT_PART_SIZE: u64 = 8388608;

/// Most parts one multipart upload may have.
pub const MAX_PARTS: u64 = 10000;

/// Files of at least this many bytes go up in parts; smaller ones in one PUT.
pub const MULTIPART_THRESHOLD: u64 = 8388608;

pub open spec fn min_nat(a: nat, b: nat) -> nat {
    if a <= b { a } else { b }
}

/// Number of parts of size `chunk` that cover `size` bytes.
pub open spec fn spec_part_count(size: nat, chunk: nat) -> nat
    recommends
        chunk > 0,
{
    ((size + chunk - 1) / (chunk as int)) as nat
}

/// First byte of part `n` (parts are numbered from 1).
pub open spec fn part_start(size: nat, chunk: nat, n: nat) -> nat {
    if n == 0 {
        0
    } else {
        min_nat(((n - 1) as nat) * chunk, size)
    }
}

/// One past the last byte of part `n`.
pub open spec fn part_end(size: nat, chunk: nat, n: nat) -> nat {
    min_nat(n * chunk, size)
}

/// Length of part `n`.
pub open spec fn part_len(size: nat, chunk: nat, n: nat) -> nat {
    (part_end(size, chunk, n) - part_start(size, chunk, n)) as nat
}

/// One mebibyte.
pub const MIB: u64 = 1048576;

/// The part size chosen for a file: the default, or, when the file would
/// otherwise need more than `MAX_PARTS` parts, the smallest whole number of
/// MiB that keeps it within `MAX_PARTS` parts.
pub open spec fn spec_part_size(size: nat) -> nat {
    let needed = ((size + MAX_PARTS - 1) / (MAX_PARTS as int)) as nat;
    let rounded = (((needed + MIB - 1) / (MIB as int)) * MIB) as nat;
    if rounded > DEFAULT_PART_SIZE { rounded } else { DEFAULT_PART_SIZE as nat }
}

/// Bytes covered by parts `1..=k`.
pub open spec fn covered(size: nat, chunk: nat, k: nat) -> nat
    decreases k,
{
    if k == 0 {
        0
    } else {
        covered(size, chunk, (k - 1) as nat) + part_len(size, chunk, k)
    }
}

/// Whether a file of `size` bytes is uploaded in parts.
pub fn should_multipart(size: u64) -> (r: bool)
    ensures
        r == (size >= MULTIPART_THRESHOLD),
{
    size >= MULTIPART_THRESHOLD
}

/// The part size for a file of `size` bytes.
pub fn part_size(size: u64) -> (r: u64)
    ensures
        r == spec_part_size(size as nat),
        r >= DEFAULT_PART_SIZE,
{
    let needed = size / MAX_PARTS + if size % MAX_PARTS == 0 { 0 } else { 1 };
    assert(needed == (size + MAX_PARTS - 1) / (MAX_PARTS as int));
    assert(needed <= 0x10000000000000);
    let rounded = (needed / MIB + if needed % MIB == 0 { 0 } else { 1 }) * MIB;
    assert(rounded == ((needed + MIB - 1) / (MIB as int)) * MIB) by {
        let q = needed / MIB;
        let m = needed % MIB;
        assert(needed == q * MIB + m);
        if m == 0 {
            assert((needed + MIB - 1) == q * MIB + (MIB - 1));
        } else {
            assert((needed + MIB - 1) == (q + 1) * MIB + (m - 1));
        }
    }
    if rounded > DEFAULT_PART_SIZE {
        rounded
    } else {
        DEFAULT_PART_SIZE
    }
}

/// How many parts of `chunk` bytes a file of `size` bytes has.
pub fn part_count(size: u64, chunk: u64) -> (r: u64)
    requires
        chunk > 0,
    ensures
        r == spec_part_count(size as nat, chunk as nat),
{
    let q = size / chunk;
    let r = if size % chunk == 0 {
        q
    } else {
        assert(q < u64::MAX) by (nonlinear_arith)
            requires
                chunk > 0,
                q == size / chunk,
                size % chunk != 0,
        {
            if chunk == 1 {
                assert(size % chunk == 0);
            }
            assert(q * chunk <= size);
            assert(q * 2 <= q * chunk);
        }
        q + 1
    };
    assert(r == (size + chunk - 1) / (chunk as int)) by (nonlinear_arith)
        requires
            chunk > 0,
            r == size / chunk + if size % chunk == 0 { 0int } else { 1int },
    {
        let q = size / chunk;
        let m = size % chunk;
        assert(size == q * chunk + m);
        if m == 0 {
            assert((size + chunk - 1) == q * chunk + (chunk - 1));
        } else {
            assert((size + chunk - 1) == (q + 1) * chunk + (m - 1));
        }
    }
    r
}

/// `min(a * b, cap)`, computed without overflow.
fn mul_capped(a: u64, b: u64, cap: u64) -> (r: u64)
    ensures
        r == min_nat(a as nat * b as nat, cap as nat),
{
    match a.checked_mul(b) {
        Some(p) => if p <= cap { p } else { cap },
        None => cap,
    }
}

/// The byte range `[start, end)` of part `n` of a file of `size` bytes.
pub fn part_range(size: u64, chunk: u64, n: u64) -> (r: (u64, u64))
    ensures
        r.0 == part_start(size as nat, chunk as nat, n as nat),
        r.1 == part_end(size as nat, chunk as nat, n as nat),
        r.0 <= r.1 <= size,
{
    let start = if n == 0 { 0 } else { mul_capped(n - 1, chunk, size) };
    let end = mul_capped(n, chunk, size);
    assert(start <= end) by (nonlinear_arith)
        requires
            n == 0 ==> start == 0,
            n > 0 ==> start == min_nat(((n - 1) as nat) * chunk as nat, size as nat),
            end == min_nat(n as nat * chunk as nat, size as nat),
    {
    }
    (start, end)
}

/// Parts `1..=k` cover the first `min(k * chunk, size)` bytes.
pub proof fn lemma_covered(size: nat, chunk: nat, k: nat)
    ensures
        covered(size, chunk, k) == min_nat(k * chunk, size),
    decreases k,
{
    if k == 0 {
        assert(k * chunk == 0);
    } else {
        lemma_covered(size, chunk, (k - 1) as nat);
        assert(part_start(size, chunk, k) == min_nat(((k - 1) as nat) * chunk, size));
        assert(((k - 1) as nat) * chunk <= k * chunk) by (nonlinear_arith)
            requires
                k > 0,
        {
        }
    }
}

/// The parts of a file cover it exactly: their lengths add up to its size.
pub proof fn lemma_parts_cover_file(size: nat, chunk: nat)
    requires
        chunk > 0,
    ensures
        covered(size, chunk, spec_part_count(size, chunk)) == size,
{
    let n = spec_part_count(size, chunk);
    lemma_covered(size, chunk, n);
    assert(n * chunk >= size) by (nonlinear_arith)
        requires
            chunk > 0,
            n == (size + chunk - 1) / (chunk as int),
    {
        let q = (size + chunk - 1) / (chunk as int);
        let m = (size + chunk - 1) % (chunk as int);
        assert(size + chunk - 1 == q * chunk + m);
    }
}

/// All parts but the last are exactly `chunk` bytes long, and the last one
/// is not empty and not longer than `chunk`.
pub proof fn lemma_parts_equal(size: nat, chunk: nat, i: nat)
    requires
        chunk > 0,
        1 <= i <= spec_part_count(size, chunk),
    ensures
        i < spec_part_count(size, chunk) ==> part_len(size, chunk, i) == chunk,
        0 < part_len(size, chunk, i) <= chunk,
{
    let n = spec_part_count(size, chunk);
    assert(((i - 1) as nat) * chunk < size) by (nonlinear_arith)
        requires
            chunk > 0,
            1 <= i <= n,
            n == (size + chunk - 1) / (chunk as int),
    {
        let q = (size + chunk - 1) / (chunk as int);
        let m = (size + chunk - 1) % (chunk as int);
        assert(size + chunk - 1 == q * chunk + m);
        assert((i - 1) * chunk <= (q - 1) * chunk);
    }
    assert(i < n ==> i * chunk < size) by (nonlinear_arith)
        requires
            chunk > 0,
            1 <= i <= n,
            n == (size + chunk - 1) / (chunk as int),
    {
        if i < n {
            let q = (size + chunk - 1) / (chunk as int);
            let m = (size + chunk - 1) % (chunk as int);
            assert(size + chunk - 1 == q * chunk + m);
            assert(i * chunk <= (q - 1) * chunk);
        }
    }
    assert(i * chunk == ((i - 1) as nat) * chunk + chunk) by (nonlinear_arith)
        requires
            i >= 1,
    {
    }
}

} // verus!
