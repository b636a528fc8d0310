use vstd::prelude::*;

verus! {

/// The four little-endian bytes of `n`.
pub open spec fn le_u32(n: u32) -> Seq<u8> {
    seq![
        (n % 0x100) as u8,
        (n / 0x100 % 0x100) as u8,
        (n / 0x1_0000 % 0x100) as u8,
        (n / 0x100_0000 % 0x100) as u8,
    ]
}

/// The eight little-endian bytes of `n`.
pub open spec fn le_u64(n: u64) -> Seq<u8> {
    seq![
        (n % 0x100) as u8,
        (n / 0x100 % 0x100) as u8,
        (n / 0x1_0000 % 0x100) as u8,
        (n / 0x100_0000 % 0x100) as u8,
        (n / 0x1_0000_0000 % 0x100) as u8,
        (n / 0x100_0000_0000 % 0x100) as u8,
        (n / 0x1_0000_0000_0000 % 0x100) as u8,
        (n / 0x100_0000_0000_0000 % 0x100) as u8,
    ]
}

/// The unsigned value of four little-endian bytes.
pub open spec fn u32_of_le(b: Seq<u8>) -> int {
    b[0] + 0x100 * b[1] + 0x1_0000 * b[2] + 0x100_0000 * b[3]
}

/// Appends the little-endian bytes of `n` to `out`.
pub fn push_le_u32(out: &mut Vec<u8>, n: u32)
    ensures
        final(out)@ == old(out)@ + le_u32(n),
{
    out.push((n % 0x100) as u8);
    out.push((n / 0x100 % 0x100) as u8);
    out.push((n / 0x1_0000 % 0x100) as u8);
    out.push((n / 0x100_0000 % 0x100) as u8);
    assert(final(out)@ =~= old(out)@ + le_u32(n));
}

/// Appends the little-endian bytes of `n` to `out`.
pub fn push_le_u64(out: &mut Vec<u8>, n: u64)
    ensures
        final(out)@ == old(out)@ + le_u64(n),
{
    out.push((n % 0x100) as u8);
    out.push((n / 0x100 % 0x100) as u8);
    out.push((n / 0x1_0000 % 0x100) as u8);
    out.push((n / 0x100_0000 % 0x100) as u8);
    out.push((n / 0x1_0000_0000 % 0x100) as u8);
    out.push((n / 0x100_0000_0000 % 0x100) as u8);
    out.push((n / 0x1_0000_0000_0000 % 0x100) as u8);
    out.push((n / 0x100_0000_0000_0000 % 0x100) as u8);
    assert(final(out)@ =~= old(out)@ + le_u64(n));
}

/// Reads the unsigned 32-bit little-endian value stored at `b[at..at + 4]`.
pub fn read_le_u32(b: &[u8], at: usize) -> (r: u32)
    requires
        at + 4 <= b@.len(),
    ensures
        r == u32_of_le(b@.subrange(at as int, at + 4)),
{
    let r = b[at] as u32 + 0x100 * (b[at + 1] as u32) + 0x1_0000 * (b[at + 2] as u32)
        + 0x100_0000 * (b[at + 3] as u32);
    r
}

/// Decoding the four bytes written for `n` gives `n` back.
pub proof fn lemma_u32_le_round_trip(n: u32)
    ensures
        u32_of_le(le_u32(n)) == n,
{
    let b = le_u32(n);
    assert(u32_of_le(b) == n) by (nonlinear_arith)
        requires
            b[0] == n % 0x100,
            b[1] == n / 0x100 % 0x100,
            b[2] == n / 0x1_0000 % 0x100,
            b[3] == n / 0x100_0000 % 0x100,
            n < 0x1_0000_0000,
            u32_of_le(b) == b[0] + 0x100 * b[1] + 0x1_0000 * b[2] + 0x100_0000 * b[3],
    ;
}

} // verus!
