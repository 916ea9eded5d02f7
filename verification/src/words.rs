//! The 32-bit words of a Wayland array, which travels as raw bytes.

use vstd::prelude::*;

verus! {

/// Which end of a word comes first in memory.
#[derive(Debug, Clone, Copy, PartialEq, Eq, Structural)]
pub enum ByteOrder {
    Little,
    Big,
}

/// The number that four bytes stand for.
pub open spec fn word(order: ByteOrder, a: u8, b: u8, c: u8, d: u8) -> int {
    match order {
        ByteOrder::Little => a + 0x100 * b + 0x1_0000 * c + 0x100_0000 * d,
        ByteOrder::Big => d + 0x100 * c + 0x1_0000 * b + 0x100_0000 * a,
    }
}

/// The words of an array: one for every four bytes. Up to three bytes that are left
/// over at the end are dropped.
pub open spec fn words(order: ByteOrder, bytes: Seq<u8>) -> Seq<u32> {
    Seq::new(
        bytes.len() / 4,
        |i: int|
            word(order, bytes[4 * i], bytes[4 * i + 1], bytes[4 * i + 2], bytes[4 * i + 3]) as u32,
    )
}

/// `u32::from_ne_bytes`: the number that the bytes stand for in the byte order of the
/// machine. Which of the two orders that is, the machine decides.
#[verifier::external_body]
fn native_word(a: u8, b: u8, c: u8, d: u8) -> (n: u32)
    ensures
        n == word(ByteOrder::Little, a, b, c, d) || n == word(ByteOrder::Big, a, b, c, d),
{
    u32::from_ne_bytes([a, b, c, d])
}

/// The byte order of a machine that reads the bytes 1, 0, 0, 0 as `probe`.
pub fn byte_order_from(probe: u32) -> (order: ByteOrder)
    ensures
        probe == word(ByteOrder::Little, 1, 0, 0, 0) ==> order == ByteOrder::Little,
        probe == word(ByteOrder::Big, 1, 0, 0, 0) ==> order == ByteOrder::Big,
        order == ByteOrder::Little <==> probe == 1,
{
    if probe == 1 {
        ByteOrder::Little
    } else {
        ByteOrder::Big
    }
}

/// Whether this machine reads words in a byte order: whether reading the bytes 1, 0, 0, 0
/// gives the number that they stand for in that order.
pub closed spec fn host_reads_as(order: ByteOrder) -> bool {
    exists|probe: u32| #[trigger]
        call_ensures(native_word, (1u8, 0u8, 0u8, 0u8), probe) && probe == word(order, 1, 0, 0, 0)
}

/// What a way of reading words makes of the bytes 1, 0, 0, 0.
fn probed<F: Fn(u8, u8, u8, u8) -> u32>(read: F) -> (probe: u32)
    requires
        call_requires(read, (1u8, 0u8, 0u8, 0u8)),
    ensures
        call_ensures(read, (1u8, 0u8, 0u8, 0u8), probe),
{
    read(1, 0, 0, 0)
}

/// The byte order of this machine. Which of the two it is, the machine decides.
pub fn host_byte_order() -> (order: ByteOrder)
    ensures
        host_reads_as(order),
{
    byte_order_from(probed(native_word))
}

/// Reads the words of an array.
pub fn decode_words(order: ByteOrder, bytes: &Vec<u8>) -> (r: Vec<u32>)
    ensures
        r@ == words(order, bytes@),
{
    let count: usize = bytes.len() / 4;
    let mut r: Vec<u32> = Vec::new();
    let mut i: usize = 0;
    while i < count
        invariant
            count == bytes@.len() / 4,
            bytes@.len() <= usize::MAX,
            i <= count,
            r@ == words(order, bytes@).take(i as int),
        decreases count - i,
    {
        let a: u32 = bytes[4 * i] as u32;
        let b: u32 = bytes[4 * i + 1] as u32;
        let c: u32 = bytes[4 * i + 2] as u32;
        let d: u32 = bytes[4 * i + 3] as u32;
        let n: u32 = match order {
            ByteOrder::Little => a + 0x100 * b + 0x1_0000 * c + 0x100_0000 * d,
            ByteOrder::Big => d + 0x100 * c + 0x1_0000 * b + 0x100_0000 * a,
        };
        r.push(n);
        i = i + 1;
    }
    r
}

/// Bytes past the last whole word change nothing.
pub proof fn words_ignore_leftover_bytes(order: ByteOrder, bytes: Seq<u8>, leftover: Seq<u8>)
    requires
        bytes.len() % 4 == 0,
        leftover.len() < 4,
    ensures
        words(order, bytes + leftover) == words(order, bytes),
{
}

/// The words of two arrays of whole words, one behind the other, are the words of the
/// first and then those of the second.
pub proof fn words_of_concatenation(order: ByteOrder, left: Seq<u8>, right: Seq<u8>)
    requires
        left.len() % 4 == 0,
    ensures
        words(order, left + right) == words(order, left) + words(order, right),
{
    let n = left.len() / 4;
    assert forall|i: int| 0 <= i < words(order, left + right).len() implies words(
        order,
        left + right,
    )[i] == (words(order, left) + words(order, right))[i] by {
        if i >= n {
            let j = i - n;
            assert((left + right)[4 * i] == right[4 * j]);
            assert((left + right)[4 * i + 1] == right[4 * j + 1]);
            assert((left + right)[4 * i + 2] == right[4 * j + 2]);
            assert((left + right)[4 * i + 3] == right[4 * j + 3]);
        }
    }
}

/// There is a word for every four bytes, and each is the number that its four bytes stand for: the
/// first byte counts least in one order, and most in the other.
pub proof fn words_are_four_bytes_each(order: ByteOrder, bytes: Seq<u8>, i: int)
    requires
        0 <= i < bytes.len() / 4,
    ensures
        words(order, bytes).len() == bytes.len() / 4,
        order == ByteOrder::Little ==> words(order, bytes)[i] == bytes[4 * i] + 256 * bytes[4 * i + 1]
            + 65536 * bytes[4 * i + 2] + 16777216 * bytes[4 * i + 3],
        order == ByteOrder::Big ==> words(order, bytes)[i] == 16777216 * bytes[4 * i] + 65536
            * bytes[4 * i + 1] + 256 * bytes[4 * i + 2] + bytes[4 * i + 3],
{
}

} // verus!
