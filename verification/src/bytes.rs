//! Byte-sequence primitives: copying, comparing and little-endian numbers.
use vstd::prelude::*;

verus! {

/// The number that `bytes` write with the least significant byte first.
pub open spec fn le_value(bytes: Seq<u8>) -> nat
    decreases bytes.len(),
{
    if bytes.len() == 0 {
        0
    } else {
        bytes[0] as nat + 256 * le_value(bytes.skip(1))
    }
}

/// The `count` low bytes of `n`, the least significant first.
pub open spec fn le_bytes(n: nat, count: nat) -> Seq<u8>
    decreases count,
{
    if count == 0 {
        Seq::empty()
    } else {
        seq![(n % 256) as u8] + le_bytes(n / 256, (count - 1) as nat)
    }
}

/// Writing a number and reading it back gives the number.
pub proof fn lemma_le_round_trip(n: nat, count: nat)
    ensures
        le_bytes(n, count).len() == count,
        n < pow256(count) ==> le_value(le_bytes(n, count)) == n,
    decreases count,
{
    if count > 0 {
        let rest = le_bytes(n / 256, (count - 1) as nat);
        lemma_le_round_trip(n / 256, (count - 1) as nat);
        assert(le_bytes(n, count).skip(1) =~= rest);
    }
}

/// 256 to the power of `count`.
pub open spec fn pow256(count: nat) -> nat
    decreases count,
{
    if count == 0 {
        1
    } else {
        256 * pow256((count - 1) as nat)
    }
}

/// Reading a number and writing it back gives the bytes.
pub proof fn lemma_le_bytes_of_value(bytes: Seq<u8>)
    ensures
        le_bytes(le_value(bytes), bytes.len()) == bytes,
        le_value(bytes) < pow256(bytes.len()),
    decreases bytes.len(),
{
    if bytes.len() > 0 {
        let rest = bytes.skip(1);
        lemma_le_bytes_of_value(rest);
        assert(le_value(bytes) % 256 == bytes[0] as nat);
        assert(le_value(bytes) / 256 == le_value(rest));
        assert(le_bytes(le_value(bytes), bytes.len()) =~= bytes);
    } else {
        assert(le_bytes(le_value(bytes), bytes.len()) =~= bytes);
    }
}

/// The little-endian number in the first two of `bytes`.
pub fn le_u16(low: u8, high: u8) -> (value: u16)
    ensures
        value == le_value(seq![low, high]),
{
    proof {
        let bytes = seq![low, high];
        assert(bytes.skip(1) =~= seq![high]);
        assert(seq![high].skip(1) =~= Seq::<u8>::empty());
        reveal_with_fuel(le_value, 3);
    }
    (low as u16) + (high as u16) * 256
}

/// The little-endian number in the four bytes of `bytes` from `start` on.
pub fn le_u32_at(bytes: &[u8], start: usize) -> (value: u32)
    requires
        start + 4 <= bytes@.len(),
    ensures
        value == le_value(bytes@.subrange(start as int, start + 4)),
{
    let a: u8 = bytes[start];
    let b: u8 = bytes[start + 1];
    let c: u8 = bytes[start + 2];
    let d: u8 = bytes[start + 3];
    proof {
        let word = bytes@.subrange(start as int, start + 4);
        assert(word.skip(1) =~= seq![b, c, d]);
        assert(seq![b, c, d].skip(1) =~= seq![c, d]);
        assert(seq![c, d].skip(1) =~= seq![d]);
        assert(seq![d].skip(1) =~= Seq::<u8>::empty());
        reveal_with_fuel(le_value, 5);
    }
    (a as u32) + (b as u32) * 256 + (c as u32) * 65536 + (d as u32) * 16777216
}

/// The two little-endian bytes of `value`.
pub fn u16_le(value: u16) -> (bytes: Vec<u8>)
    ensures
        bytes@ == le_bytes(value as nat, 2),
{
    let mut bytes: Vec<u8> = Vec::new();
    bytes.push((value % 256) as u8);
    bytes.push((value / 256) as u8);
    proof {
        reveal_with_fuel(le_bytes, 3);
        assert(bytes@ =~= le_bytes(value as nat, 2));
    }
    bytes
}

/// The four little-endian bytes of `value`.
pub fn u32_le(value: u32) -> (bytes: Vec<u8>)
    ensures
        bytes@ == le_bytes(value as nat, 4),
{
    let mut bytes: Vec<u8> = Vec::new();
    bytes.push((value % 256) as u8);
    bytes.push((value / 256 % 256) as u8);
    bytes.push((value / 65536 % 256) as u8);
    bytes.push((value / 16777216) as u8);
    proof {
        reveal_with_fuel(le_bytes, 5);
        let n = value as nat;
        assert(n / 256 / 256 == n / 65536);
        assert(n / 65536 / 256 == n / 16777216);
        assert(bytes@ =~= le_bytes(value as nat, 4));
    }
    bytes
}

/// Appends `more` to `bytes`.
pub fn append(bytes: &mut Vec<u8>, more: &[u8])
    ensures
        final(bytes)@ == old(bytes)@ + more@,
{
    let mut i: usize = 0;
    while i < more.len()
        invariant
            i <= more@.len(),
            bytes@ =~= old(bytes)@ + more@.take(i as int),
        decreases more@.len() - i,
    {
        bytes.push(more[i]);
        i += 1;
    }
    assert(more@.take(more@.len() as int) =~= more@);
}

/// A copy of the bytes from `start` up to `end`.
pub fn copy_range(bytes: &[u8], start: usize, end: usize) -> (copy: Vec<u8>)
    requires
        start <= end <= bytes@.len(),
    ensures
        copy@ == bytes@.subrange(start as int, end as int),
{
    let mut copy: Vec<u8> = Vec::new();
    let mut i: usize = start;
    while i < end
        invariant
            start <= i <= end <= bytes@.len(),
            copy@ =~= bytes@.subrange(start as int, i as int),
        decreases end - i,
    {
        copy.push(bytes[i]);
        i += 1;
    }
    copy
}

/// Whether two byte sequences are equal.
pub fn same_bytes(left: &[u8], right: &[u8]) -> (result: bool)
    ensures
        result == (left@ == right@),
{
    if left.len() != right.len() {
        return false;
    }
    let mut i: usize = 0;
    while i < left.len()
        invariant
            i <= left@.len(),
            left@.len() == right@.len(),
            forall|k: int| 0 <= k < i ==> left@[k] == right@[k],
        decreases left@.len() - i,
    {
        if left[i] != right[i] {
            return false;
        }
        i += 1;
    }
    assert(left@ =~= right@);
    true
}

/// The number of two bytes counts the second one in steps of 0x100.
pub proof fn law_pair_is_little_endian(low: u8, high: u8)
    ensures
        le_value(seq![low, high]) == low + 0x100 * high,
{
    reveal_with_fuel(le_value, 3);
    assert(seq![low, high].skip(1) =~= seq![high]);
    assert(seq![high].skip(1) =~= Seq::<u8>::empty());
}

/// The number of four bytes counts each byte in steps 0x100 times those of the byte before it.
pub proof fn law_word_is_little_endian(a: u8, b: u8, c: u8, d: u8)
    ensures
        le_value(seq![a, b, c, d]) == a + 0x100 * b + 0x1_0000 * c + 0x100_0000 * d,
        le_bytes((a + 0x100 * b + 0x1_0000 * c + 0x100_0000 * d) as nat, 4) == seq![a, b, c, d],
{
    reveal_with_fuel(le_value, 5);
    assert(seq![a, b, c, d].skip(1) =~= seq![b, c, d]);
    assert(seq![b, c, d].skip(1) =~= seq![c, d]);
    assert(seq![c, d].skip(1) =~= seq![d]);
    assert(seq![d].skip(1) =~= Seq::<u8>::empty());
    lemma_le_bytes_of_value(seq![a, b, c, d]);
}

} // verus!
