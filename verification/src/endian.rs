//! Big-endian (network order) encoding of unsigned integers.

use vstd::prelude::*;

verus! {

/// The number of distinct values that `width` bytes can hold: 256 to the power `width`.
pub open spec fn byte_space(width: nat) -> nat
    decreases width,
{
    if width == 0 {
        1
    } else {
        256 * byte_space((width - 1) as nat)
    }
}

/// The big-endian encoding of `value` in exactly `width` bytes
/// (the value is taken modulo `byte_space(width)`).
pub open spec fn be_bytes(value: nat, width: nat) -> Seq<u8>
    decreases width,
{
    if width == 0 {
        Seq::empty()
    } else {
        be_bytes(value / 256, (width - 1) as nat).push((value % 256) as u8)
    }
}

/// The number that a big-endian byte sequence denotes.
pub open spec fn be_value(bytes: Seq<u8>) -> nat
    decreases bytes.len(),
{
    if bytes.len() == 0 {
        0
    } else {
        be_value(bytes.drop_last()) * 256 + bytes.last() as nat
    }
}

/// An encoding in `width` bytes is `width` bytes long.
pub proof fn lemma_be_bytes_len(value: nat, width: nat)
    ensures
        be_bytes(value, width).len() == width,
    decreases width,
{
    if width > 0 {
        lemma_be_bytes_len(value / 256, (width - 1) as nat);
    }
}

/// A big-endian number is smaller than the space of its width.
pub proof fn lemma_be_value_bound(bytes: Seq<u8>)
    ensures
        be_value(bytes) < byte_space(bytes.len()),
    decreases bytes.len(),
{
    if bytes.len() > 0 {
        lemma_be_value_bound(bytes.drop_last());
        let p = be_value(bytes.drop_last());
        let b = byte_space((bytes.len() - 1) as nat);
        assert(p * 256 + 255 < 256 * b) by (nonlinear_arith)
            requires
                p < b,
        ;
    }
}

/// Decoding an encoding gives back the value, when it fits the width.
pub proof fn lemma_be_value_of_bytes(value: nat, width: nat)
    requires
        value < byte_space(width),
    ensures
        be_value(be_bytes(value, width)) == value,
    decreases width,
{
    if width > 0 {
        let b = byte_space((width - 1) as nat);
        assert(value / 256 < b) by (nonlinear_arith)
            requires
                value < 256 * b,
        ;
        lemma_be_value_of_bytes(value / 256, (width - 1) as nat);
        let s = be_bytes(value, width);
        assert(s.drop_last() =~= be_bytes(value / 256, (width - 1) as nat));
        assert(value == (value / 256) * 256 + value % 256) by (nonlinear_arith);
    }
}

/// Encoding the number that a byte sequence denotes gives back the sequence.
pub proof fn lemma_be_bytes_of_value(bytes: Seq<u8>)
    ensures
        be_bytes(be_value(bytes), bytes.len()) == bytes,
    decreases bytes.len(),
{
    if bytes.len() > 0 {
        let p = be_value(bytes.drop_last());
        let last = bytes.last();
        lemma_be_bytes_of_value(bytes.drop_last());
        assert((p * 256 + last) / 256 == p && (p * 256 + last) % 256 == last) by (nonlinear_arith)
            requires
                0 <= last < 256,
                p >= 0,
        ;
        assert(be_bytes(be_value(bytes), bytes.len()) =~= bytes.drop_last().push(last));
        assert(bytes.drop_last().push(last) =~= bytes);
    }
}

/// Appends to `out` the big-endian encoding of `value` in `width` bytes.
pub fn push_be(out: &mut Vec<u8>, value: u64, width: usize)
    ensures
        final(out)@ == old(out)@ + be_bytes(value as nat, width as nat),
    decreases width,
{
    if width > 0 {
        push_be(out, value / 256, width - 1);
        out.push((value % 256) as u8);
        proof {
            assert(final(out)@ =~= old(out)@ + be_bytes(value as nat, width as nat));
        }
    }
}

/// Reads the big-endian number held in `bytes[start..start + width]`.
pub fn read_be(bytes: &[u8], start: usize, width: usize) -> (value: u64)
    requires
        start + width <= bytes@.len(),
        width <= 8,
    ensures
        value == be_value(bytes@.subrange(start as int, start + width)),
{
    let mut acc: u64 = 0;
    let mut i: usize = 0;
    while i < width
        invariant
            start + width <= bytes.len(),
            width <= 8,
            i <= width,
            acc == be_value(bytes@.subrange(start as int, start + i)),
        decreases width - i,
    {
        proof {
            let sub = bytes@.subrange(start as int, start + i);
            lemma_be_value_bound(sub);
            lemma_byte_space_mono(i as nat, 7);
            lemma_byte_space_seven();
        }
        let b = bytes[start + i];
        acc = acc * 256 + b as u64;
        i = i + 1;
        proof {
            let sub = bytes@.subrange(start as int, start + i);
            assert(sub.drop_last() =~= bytes@.subrange(start as int, start + i - 1));
        }
    }
    acc
}

/// Seven bytes hold 2^56 values.
pub proof fn lemma_byte_space_seven()
    ensures
        byte_space(7) == 72057594037927936,
{
    reveal_with_fuel(byte_space, 8);
}

/// A wider field holds at least as many values.
pub proof fn lemma_byte_space_mono(a: nat, b: nat)
    requires
        a <= b,
    ensures
        byte_space(a) <= byte_space(b),
    decreases b,
{
    if a < b {
        lemma_byte_space_mono(a, (b - 1) as nat);
    }
}

} // verus!
