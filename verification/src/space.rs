//! Disk-space requirement of a download: `content_length × 1.10 + 500 MiB`,
//! where the product is taken in IEEE-754 binary64 arithmetic and truncated
//! toward zero, exactly as `(content_length as f64 * 1.10) as u64` computes it.
//! The computation here uses integers only.
use vstd::prelude::*;
use vstd::arithmetic::power2::{pow2, lemma_pow2_unfold, lemma_pow2_adds, lemma_pow2_pos, lemma2_to64};

verus! {

/// Fixed buffer added on top of the overhead: 500 MiB.
pub const DISK_BUFFER_BYTES: u64 = 524288000;

/// The binary64 value nearest to 1.10 is `OVERHEAD_SIGNIFICAND / 2^52`.
pub const OVERHEAD_SIGNIFICAND: u128 = 4953959590107546;

/// Number of significant bits of `p`.
pub open spec fn bit_len(p: nat) -> nat
    decreases p,
{
    if p == 0 {
        0
    } else {
        1 + bit_len(p / 2)
    }
}

/// Whether a value that lies `r / unit` above `q * unit` rounds up to
/// `(q + 1) * unit` under round-to-nearest, ties-to-even.
pub open spec fn rounds_up(q: nat, r: nat, unit: nat) -> bool {
    r * 2 > unit || (r * 2 == unit && q % 2 == 1)
}

/// The binary64 value nearest to the integer `p` (ties to even), for `p`
/// below the binary64 overflow bound.
pub open spec fn round_binary64(p: nat) -> nat {
    if bit_len(p) <= 53 {
        p
    } else {
        let unit = pow2((bit_len(p) - 53) as nat);
        let q = p / unit;
        let r = p % unit;
        (if rounds_up(q, r, unit) { q + 1 } else { q }) * unit
    }
}

/// `(content_length as f64 * 1.10) as u64`: the binary64 product, truncated
/// toward zero and saturated at `u64::MAX`.
pub open spec fn overhead_bytes(content_length: nat) -> nat {
    let scaled = round_binary64(round_binary64(content_length) * (OVERHEAD_SIGNIFICAND as nat)) / pow2(52);
    if scaled > u64::MAX {
        u64::MAX as nat
    } else {
        scaled
    }
}

/// Disk space required for a download of `content_length` bytes.
pub open spec fn required_bytes_spec(content_length: nat) -> nat {
    overhead_bytes(content_length) + (DISK_BUFFER_BYTES as nat)
}

/// Whether `required_bytes` is defined on `content_length`: the sum fits in
/// a `u64` (otherwise the addition overflows).
pub open spec fn required_bytes_fits_spec(content_length: nat) -> bool {
    required_bytes_spec(content_length) <= u64::MAX
}

// ─── Lemmas ──────────────────────────────────────────────────────────────────

proof fn lemma_bit_len_upper(p: nat)
    ensures
        p < pow2(bit_len(p)),
    decreases p,
{
    if p == 0 {
        lemma2_to64();
    } else {
        lemma_bit_len_upper(p / 2);
        lemma_pow2_unfold(bit_len(p));
    }
}

proof fn lemma_bit_len_lower(p: nat)
    requires
        p > 0,
    ensures
        bit_len(p) >= 1,
        pow2((bit_len(p) - 1) as nat) <= p,
    decreases p,
{
    if p == 1 {
        lemma2_to64();
        assert(bit_len(0) == 0);
    } else {
        lemma_bit_len_lower(p / 2);
        lemma_pow2_unfold((bit_len(p) - 1) as nat);
    }
}

proof fn lemma_bit_len_bounded(p: nat, k: nat)
    requires
        p < pow2(k),
    ensures
        bit_len(p) <= k,
    decreases p,
{
    if p > 0 {
        if k == 0 {
            lemma2_to64();
        } else {
            lemma_pow2_unfold(k);
            lemma_bit_len_bounded(p / 2, (k - 1) as nat);
        }
    }
}

proof fn lemma_pow2_128()
    ensures
        pow2(20) == 0x100000,
        pow2(52) == 0x10000000000000,
        pow2(53) == 0x20000000000000,
        pow2(64) == 0x10000000000000000,
        pow2(65) == 0x20000000000000000,
        pow2(117) == 0x200000000000000000000000000000,
        pow2(118) == 0x400000000000000000000000000000,
        pow2(128) == 0x100000000000000000000000000000000,
{
    lemma2_to64();
    lemma_pow2_adds(32, 20);
    lemma_pow2_adds(32, 21);
    lemma_pow2_adds(64, 1);
    lemma_pow2_adds(64, 32);
    lemma_pow2_adds(96, 21);
    lemma_pow2_adds(96, 22);
    lemma_pow2_adds(64, 64);
}

/// The rounded value stays below the next power of two above `p`.
proof fn lemma_round_bound(p: nat)
    ensures
        round_binary64(p) <= pow2(bit_len(p)),
{
    lemma_bit_len_upper(p);
    if bit_len(p) > 53 {
        let s = (bit_len(p) - 53) as nat;
        let unit = pow2(s);
        lemma_pow2_pos(s);
        lemma_pow2_adds(53, s);
        let q = p / unit;
        assert(q < pow2(53)) by (nonlinear_arith)
            requires
                p < pow2(53) * unit,
                unit > 0,
                q == p / unit,
        ;
        let q2: nat = if rounds_up(q, p % unit, unit) { q + 1 } else { q };
        assert(q2 * unit <= pow2(53) * unit) by (nonlinear_arith)
            requires
                q2 <= pow2(53),
                unit > 0,
        ;
    }
}

// ─── Executable arithmetic ───────────────────────────────────────────────────

fn bit_length(p: u128) -> (n: u32)
    ensures
        n as nat == bit_len(p as nat),
        n <= 128,
{
    proof {
        lemma_pow2_128();
        lemma_bit_len_bounded(p as nat, 128);
    }
    let mut t: u128 = p;
    let mut n: u32 = 0;
    while t > 0
        invariant
            bit_len(p as nat) == n + bit_len(t as nat),
            bit_len(p as nat) <= 128,
        decreases t,
    {
        t = t / 2;
        n = n + 1;
    }
    n
}

fn pow2_u128(s: u32) -> (r: u128)
    requires
        s <= 117,
    ensures
        r as nat == pow2(s as nat),
{
    let mut r: u128 = 1;
    let mut i: u32 = 0;
    proof {
        lemma2_to64();
        lemma_pow2_128();
    }
    while i < s
        invariant
            i <= s,
            s <= 117,
            r as nat == pow2(i as nat),
            pow2(117) == 0x200000000000000000000000000000,
        decreases s - i,
    {
        proof {
            lemma_pow2_unfold((i + 1) as nat);
            if i + 1 < 117 {
                vstd::arithmetic::power2::lemma_pow2_strictly_increases((i + 1) as nat, 117);
            }
        }
        r = r * 2;
        i = i + 1;
    }
    r
}

/// The binary64 value nearest to `p`, for `p < 2^118`.
fn round_to_binary64(p: u128) -> (r: u128)
    requires
        p < 0x400000000000000000000000000000,
    ensures
        r as nat == round_binary64(p as nat),
        r as nat <= pow2(bit_len(p as nat)),
{
    proof {
        lemma_pow2_128();
        lemma_bit_len_bounded(p as nat, 118);
        lemma_round_bound(p as nat);
    }
    let n = bit_length(p);
    if n <= 53 {
        return p;
    }
    let s = n - 53;
    let unit = pow2_u128(s);
    proof {
        lemma_pow2_pos(s as nat);
        if s < 65 {
            vstd::arithmetic::power2::lemma_pow2_strictly_increases(s as nat, 65);
        }
    }
    let q = p / unit;
    let r = p % unit;
    let up = r * 2 > unit || (r * 2 == unit && q % 2 == 1);
    let q2 = if up { q + 1 } else { q };
    proof {
        lemma_bit_len_upper(p as nat);
        lemma_pow2_adds(53, s as nat);
        lemma_pow2_pos(s as nat);
        assert(q < pow2(53)) by (nonlinear_arith)
            requires
                p < pow2(53) * unit,
                unit > 0,
                q == p / unit,
        ;
        assert(q2 * unit <= pow2(53) * unit) by (nonlinear_arith)
            requires
                q2 <= pow2(53),
                unit > 0,
        ;
        if bit_len(p as nat) < 118 {
            vstd::arithmetic::power2::lemma_pow2_strictly_increases(bit_len(p as nat), 118);
        }
    }
    q2 * unit
}

/// `(content_length as f64 * 1.10) as u64`, computed with integers.
fn overhead(content_length: u64) -> (r: u64)
    ensures
        r as nat == overhead_bytes(content_length as nat),
{
    let a = round_to_binary64(content_length as u128);
    proof {
        lemma_pow2_128();
        lemma_bit_len_bounded(content_length as nat, 64);
        if bit_len(content_length as nat) < 64 {
            vstd::arithmetic::power2::lemma_pow2_strictly_increases(bit_len(content_length as nat), 64);
        }
        assert(a * OVERHEAD_SIGNIFICAND <= 0x10000000000000000 * 4953959590107546) by (nonlinear_arith)
            requires
                a <= 0x10000000000000000,
        ;
    }
    let prod = a * OVERHEAD_SIGNIFICAND;
    let b = round_to_binary64(prod);
    let scaled = b / 0x10000000000000;
    if scaled > 0xffff_ffff_ffff_ffff {
        0xffff_ffff_ffff_ffff
    } else {
        scaled as u64
    }
}

/// Calculate required disk space for a `content_length`-byte download:
/// `content_length × 1.10` in binary64, truncated, plus 500 MiB.
pub fn required_bytes(content_length: u64) -> (r: u64)
    requires
        required_bytes_fits_spec(content_length as nat),
    ensures
        r as nat == required_bytes_spec(content_length as nat),
{
    overhead(content_length) + DISK_BUFFER_BYTES
}

/// Whether `required_bytes(content_length)` is defined (its sum fits in a
/// `u64`); where it is not, the space computation overflows.
pub fn required_bytes_fits(content_length: u64) -> (ok: bool)
    ensures
        ok == required_bytes_fits_spec(content_length as nat),
{
    overhead(content_length) <= 0xffff_ffff_ffff_ffff - DISK_BUFFER_BYTES
}

// ─── Exactness for realistic sizes ───────────────────────────────────────────

/// Rounding to a multiple of `unit` keeps a value in its block of `B`
/// when the block is a multiple of `unit` and the value is more than half
/// a unit below the block's end.
proof fn lemma_round_stays_in_block(p: int, unit: int, k: int, f: int, up: bool)
    requires
        unit > 0,
        k > 0,
        f >= 0,
        f * (unit * k) <= p,
        2 * ((f + 1) * (unit * k) - p) > unit,
        up ==> 2 * (p % unit) >= unit,
    ensures
        ((if up { p / unit + 1 } else { p / unit }) * unit) / (unit * k) == f,
{
    let b = unit * k;
    let q = p / unit;
    let r = p % unit;
    vstd::arithmetic::div_mod::lemma_fundamental_div_mod(p, unit);
    assert(0 <= r < unit) by {
        vstd::arithmetic::div_mod::lemma_mod_bound(p, unit);
    }
    assert(f * k <= q) by (nonlinear_arith)
        requires
            f * (unit * k) <= p,
            p == unit * q + r,
            0 <= r < unit,
            unit > 0,
    ;
    let rr = (if up { q + 1 } else { q }) * unit;
    assert(rr == unit * q + (if up { unit } else { 0 })) by (nonlinear_arith)
        requires
            rr == (if up { q + 1 } else { q }) * unit,
    ;
    assert(b > 0) by (nonlinear_arith)
        requires
            unit > 0,
            k > 0,
            b == unit * k,
    ;
    assert(f * b <= unit * q) by (nonlinear_arith)
        requires
            f * k <= q,
            b == unit * k,
            unit > 0,
    ;
    assert(f * b <= rr);
    assert(2 * rr <= 2 * p + unit);
    assert(rr < (f + 1) * b);
    assert(rr / b == f) by (nonlinear_arith)
        requires
            f * b <= rr < (f + 1) * b,
            b > 0,
    ;
}

/// For every download below 256 TiB the required space is exactly the
/// content length plus 10% (rounded down) plus 500 MiB: the binary64
/// arithmetic loses nothing there.
pub proof fn law_required_bytes_is_ten_percent_more(content_length: nat)
    requires
        content_length < pow2(48),
    ensures
        required_bytes_spec(content_length) == content_length * 11 / 10 + DISK_BUFFER_BYTES,
{
    let x = content_length;
    let m = OVERHEAD_SIGNIFICAND as nat;
    lemma_pow2_128();
    lemma2_to64();
    lemma_pow2_adds(32, 16);
    let b: int = 0x10000000000000;
    assert(pow2(48) == 0x1000000000000);
    lemma_bit_len_bounded(x, 48);
    assert(round_binary64(x) == x);
    let p: nat = x * m;
    let f: int = (x * 11 / 10) as int;
    assert(f * b <= p && 2 * ((f + 1) * b - p) > 0x1000000000000) by (nonlinear_arith)
        requires
            x < 0x1000000000000,
            p == x * 4953959590107546,
            f == x * 11 / 10,
            b == 0x10000000000000,
    ;
    assert(p < pow2(101)) by {
        lemma_pow2_adds(48, 53);
        assert(p < 0x1000000000000 * 0x20000000000000) by (nonlinear_arith)
            requires
                x < 0x1000000000000,
                p == x * 4953959590107546,
        ;
    }
    lemma_bit_len_bounded(p, 101);
    if bit_len(p) <= 53 {
        assert(round_binary64(p) == p);
        assert((p as int) / b == f) by (nonlinear_arith)
            requires
                f * b <= p,
                2 * ((f + 1) * b - p) > 0x1000000000000,
                b > 0,
        ;
    } else {
        let s = (bit_len(p) - 53) as nat;
        let unit = pow2(s);
        let k = pow2((52 - s) as nat);
        lemma_pow2_adds(s, (52 - s) as nat);
        lemma_pow2_pos(s);
        lemma_pow2_pos((52 - s) as nat);
        if s < 48 {
            vstd::arithmetic::power2::lemma_pow2_strictly_increases(s, 48);
        }
        assert(unit * k == b);
        let q = p / unit;
        let r = p % unit;
        let up = rounds_up(q, r, unit);
        assert(up ==> 2 * (p % unit) >= unit);
        lemma_round_stays_in_block(p as int, unit as int, k as int, f, up);
        assert(round_binary64(p) == (if up { q + 1 } else { q }) * unit);
    }
    assert(round_binary64(p) / pow2(52) == f);
    assert(f < u64::MAX) by (nonlinear_arith)
        requires
            x < 0x1000000000000,
            f == x * 11 / 10,
    ;
}

} // verus!
