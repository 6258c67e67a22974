//! Big-endian encodings of unsigned integers.

use vstd::prelude::*;

verus! {

/// The `width` low-order bytes of `value`, most significant first.
pub open spec fn be_bytes(value: nat, width: nat) -> Seq<u8>
    decreases width,
{
    if width == 0 {
        Seq::empty()
    } else {
        be_bytes(value / 256, (width - 1) as nat).push((value % 256) as u8)
    }
}

/// Appends the `width` low-order bytes of `value`, most significant first.
fn push_be_bytes(out: &mut Vec<u8>, value: u64, width: usize)
    requires
        width <= 8,
    ensures
        final(out)@ == old(out)@ + be_bytes(value as nat, width as nat),
{
    let ghost before = out@;
    let mut rest: u64 = value;
    let mut tail: [u8; 8] = [0u8; 8];
    let mut i: usize = width;
    while i > 0
        invariant
            i <= width <= 8,
            be_bytes(value as nat, width as nat) == be_bytes(rest as nat, i as nat)
                + tail@.subrange(i as int, width as int),
        decreases i,
    {
        let ghost prev_tail = tail@;
        let ghost prev_i = i;
        i -= 1;
        tail[i] = (rest % 256) as u8;
        proof {
            let shorter = be_bytes((rest / 256) as nat, i as nat);
            assert(be_bytes(rest as nat, prev_i as nat) == shorter.push((rest % 256) as u8));
            assert(shorter.push((rest % 256) as u8) + prev_tail.subrange(
                prev_i as int,
                width as int,
            ) =~= shorter + tail@.subrange(i as int, width as int));
        }
        rest = rest / 256;
    }
    let bytes = vstd::slice::slice_subrange(tail.as_slice(), 0, width);
    out.extend_from_slice(bytes);
    assert(out@ =~= before + be_bytes(value as nat, width as nat));
}

/// Appends the eight bytes of `value`, most significant first.
pub fn push_be_u64(out: &mut Vec<u8>, value: u64)
    ensures
        final(out)@ == old(out)@ + be_bytes(value as nat, 8),
{
    push_be_bytes(out, value, 8);
}

/// Appends the four bytes of `value`, most significant first.
pub fn push_be_u32(out: &mut Vec<u8>, value: u32)
    ensures
        final(out)@ == old(out)@ + be_bytes(value as nat, 4),
{
    push_be_bytes(out, value as u64, 4);
}

} // verus!
