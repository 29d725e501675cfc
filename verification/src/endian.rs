//! Little-endian integers of a fixed width, as the wire format writes them.
use vstd::prelude::*;

verus! {

/// 256 to the power `n`: the number of values that `n` bytes can hold.
pub open spec fn radix_pow(n: nat) -> nat
    decreases n,
{
    if n == 0 {
        1
    } else {
        256 * radix_pow((n - 1) as nat)
    }
}

/// The low `n` base-256 digits of `v`, least significant first.
pub open spec fn le_bytes(v: nat, n: nat) -> Seq<u8>
    decreases n,
{
    if n == 0 {
        Seq::empty()
    } else {
        seq![(v % 256) as u8] + le_bytes(v / 256, (n - 1) as nat)
    }
}

/// The number whose base-256 digits, least significant first, are `s`.
pub open spec fn le_value(s: Seq<u8>) -> nat
    decreases s.len(),
{
    if s.len() == 0 {
        0
    } else {
        s[0] as nat + 256 * le_value(s.skip(1))
    }
}

/// `le_bytes(v, n)` has exactly `n` bytes.
pub proof fn lemma_le_bytes_len(v: nat, n: nat)
    ensures
        le_bytes(v, n).len() == n,
    decreases n,
{
    if n > 0 {
        lemma_le_bytes_len(v / 256, (n - 1) as nat);
    }
}

/// Reading back the `n` bytes of a number that fits in `n` bytes gives the number.
pub proof fn lemma_le_value_of_bytes(v: nat, n: nat)
    requires
        v < radix_pow(n),
    ensures
        le_value(le_bytes(v, n)) == v,
    decreases n,
{
    if n > 0 {
        let rest = le_bytes(v / 256, (n - 1) as nat);
        let s = le_bytes(v, n);
        lemma_le_value_of_bytes(v / 256, (n - 1) as nat);
        assert(s.skip(1) =~= rest);
        assert(s[0] == (v % 256) as u8);
    }
}

/// A byte string is the encoding of its own value, and that value fits its width.
pub proof fn lemma_le_bytes_of_value(s: Seq<u8>)
    ensures
        le_value(s) < radix_pow(s.len()),
        le_bytes(le_value(s), s.len()) == s,
    decreases s.len(),
{
    if s.len() > 0 {
        let tail = s.skip(1);
        lemma_le_bytes_of_value(tail);
        let v = le_value(s);
        assert(v == s[0] as nat + 256 * le_value(tail));
        assert(v % 256 == s[0] as nat);
        assert(v / 256 == le_value(tail));
        assert(le_bytes(v, s.len()) =~= s);
    } else {
        assert(le_bytes(le_value(s), s.len()) =~= s);
    }
}

/// More bytes hold more values.
pub proof fn lemma_radix_pow_grows(m: nat, n: nat)
    requires
        m <= n,
    ensures
        radix_pow(m) <= radix_pow(n),
        radix_pow(m) >= 1,
    decreases n,
{
    if m < n {
        lemma_radix_pow_grows(m, (n - 1) as nat);
    } else if n > 0 {
        lemma_radix_pow_grows((m - 1) as nat, (n - 1) as nat);
    }
}

/// Four bytes hold a `u32`, eight bytes a `u64`.
pub proof fn lemma_radix_pow_widths()
    ensures
        radix_pow(1) == 0x100,
        radix_pow(4) == 0x1_0000_0000,
        radix_pow(8) == 0x1_0000_0000_0000_0000,
{
    reveal_with_fuel(radix_pow, 9);
}

/// Appends the `width` little-endian bytes of `x` to `out`.
pub fn put_le(out: &mut Vec<u8>, x: u64, width: usize)
    requires
        width <= 8,
    ensures
        final(out)@ == old(out)@ + le_bytes(x as nat, width as nat),
{
    let mut v: u64 = x;
    let mut i: usize = 0;
    while i < width
        invariant
            i <= width,
            out@ + le_bytes(v as nat, (width - i) as nat) == old(out)@ + le_bytes(
                x as nat,
                width as nat,
            ),
        decreases width - i,
    {
        let ghost before = out@;
        out.push((v % 256) as u8);
        proof {
            let rest = le_bytes((v / 256) as nat, (width - i - 1) as nat);
            assert(le_bytes(v as nat, (width - i) as nat) == seq![(v % 256) as u8] + rest);
            assert(out@ + rest =~= before + le_bytes(v as nat, (width - i) as nat));
        }
        v = v / 256;
        i = i + 1;
    }
    proof {
        assert(out@ + le_bytes(v as nat, 0) =~= out@);
    }
}

/// Reads the little-endian number in the `width` bytes of `raw` from `at` on.
pub fn get_le(raw: &[u8], at: usize, width: usize) -> (x: u64)
    requires
        width <= 8,
        at + width <= raw.len(),
    ensures
        x as nat == le_value(raw@.subrange(at as int, at + width)),
{
    let mut acc: u64 = 0;
    let mut i: usize = width;
    while i > 0
        invariant
            i <= width <= 8,
            at + width <= raw.len(),
            acc as nat == le_value(raw@.subrange(at + i, at + width)),
            acc < radix_pow((width - i) as nat),
        decreases i,
    {
        let ghost tail = raw@.subrange(at + i, at + width);
        let ghost whole = raw@.subrange(at + i - 1, at + width);
        let b: u8 = raw[at + (i - 1)];
        proof {
            assert(whole.skip(1) =~= tail);
            assert(whole[0] == b);
            lemma_radix_pow_grows((width - i + 1) as nat, 8);
            lemma_radix_pow_widths();
            assert(radix_pow((width - i + 1) as nat) == 256 * radix_pow((width - i) as nat));
        }
        acc = acc * 256 + (b as u64);
        i = i - 1;
    }
    acc
}

} // verus!
