use vstd::prelude::*;
use bitter::BigEndianReader;
use bitter::BitReader;

verus! {

/// `bitter::BigEndianReader`, the bit reader that does the reading. Nothing
/// is known of what is inside it.
#[verifier::external_type_specification]
#[verifier::external_body]
pub struct ExBigEndianReader<'a>(BigEndianReader<'a>);

/// The bits that a `bitter::BigEndianReader` has not handed out yet, in
/// reading order. Its constructor and its reading methods are stated over
/// this name.
pub uninterp spec fn unread_bits(reader: BigEndianReader) -> Seq<bool>;

/// Two to the power `k`.
pub open spec fn pow2(k: nat) -> nat
    decreases k,
{
    if k == 0 {
        1
    } else {
        2 * pow2((k - 1) as nat)
    }
}

/// Bit `k` of a byte, counted from the least significant one.
pub open spec fn bit_of(byte: u8, k: nat) -> bool {
    (byte as nat / pow2(k)) % 2 == 1
}

/// A byte string as a bit string, each byte most significant bit first.
pub open spec fn bits_of(bytes: Seq<u8>) -> Seq<bool> {
    Seq::new(8 * bytes.len(), |i: int| bit_of(bytes[i / 8], (7 - i % 8) as nat))
}

/// The number that a bit string spells, most significant bit first.
pub open spec fn number_of(bits: Seq<bool>) -> nat
    decreases bits.len(),
{
    if bits.len() == 0 {
        0
    } else {
        2 * number_of(bits.drop_last()) + if bits.last() { 1nat } else { 0nat }
    }
}

/// The message of a read that ran out of data.
pub open spec fn read_failure(description: Seq<char>) -> Seq<char> {
    "Could not read "@ + description
}

/// A bit string of `n` bits spells a number below two to the `n`.
pub proof fn lemma_number_of_bound(bits: Seq<bool>)
    ensures
        number_of(bits) < pow2(bits.len()),
    decreases bits.len(),
{
    if bits.len() > 0 {
        lemma_number_of_bound(bits.drop_last());
    }
}

/// Up to eight bits spell a number that fits a byte.
proof fn lemma_pow2_small(k: nat)
    requires
        k <= 8,
    ensures
        pow2(k) <= 256,
{
    reveal_with_fuel(pow2, 10);
}

/// Calls `bitter::BigEndianReader::new`: the new reader has every bit of
/// `data` still to hand out, the most significant bit of each byte first.
#[verifier::external_body]
fn reader_new<'a>(data: &'a [u8]) -> (reader: BigEndianReader<'a>)
    ensures
        unread_bits(reader) == bits_of(data@),
{
    BigEndianReader::new(data)
}

/// Calls `bitter::BitReader::read_bits` on a big-endian reader, for up to 64
/// bits: with `count` bits left it hands out the number that the next `count`
/// bits spell, most significant bit first, and moves past them; with fewer
/// left it hands out nothing and stays where it was.
#[verifier::external_body]
fn reader_read_bits(reader: &mut BigEndianReader, count: u32) -> (out: Option<u64>)
    requires
        count <= 64,
    ensures
        out is Some <==> count <= unread_bits(*old(reader)).len(),
        out is Some ==> out->0 == number_of(unread_bits(*old(reader)).take(count as int))
            && unread_bits(*final(reader)) == unread_bits(*old(reader)).skip(count as int),
        out is None ==> unread_bits(*final(reader)) == unread_bits(*old(reader)),
{
    reader.read_bits(count)
}

/// Calls `bitter::BitReader::read_bit` on a big-endian reader: with a bit
/// left it hands that bit out and moves past it, else it hands out nothing and
/// stays where it was.
#[verifier::external_body]
fn reader_read_bit(reader: &mut BigEndianReader) -> (out: Option<bool>)
    ensures
        out is Some <==> 1 <= unread_bits(*old(reader)).len(),
        out is Some ==> out->0 == unread_bits(*old(reader))[0]
            && unread_bits(*final(reader)) == unread_bits(*old(reader)).skip(1),
        out is None ==> unread_bits(*final(reader)) == unread_bits(*old(reader)),
{
    reader.read_bit()
}

/// Builds the message of a read that ran out of data.
fn failure_message(description: &str) -> (message: String)
    ensures
        message@ == read_failure(description@),
{
    String::from_str("Could not read ").concat(description)
}

/// A cursor over a byte slice that hands out bits, the most significant bit
/// of each byte first.
pub struct Bits<'a> {
    bits: BigEndianReader<'a>,
}

impl<'a> Bits<'a> {
    /// The bits not yet read, in reading order.
    pub closed spec fn unread(&self) -> Seq<bool> {
        unread_bits(self.bits)
    }

    /// A reader that stands before the first bit of `data`.
    pub fn new(data: &'a [u8]) -> (reader: Self)
        ensures
            reader.unread() == bits_of(data@),
    {
        Self { bits: reader_new(data) }
    }

    /// Reads one bit.
    pub fn read_bool(&mut self, description: &str) -> (out: Result<bool, String>)
        ensures
            out is Ok <==> old(self).unread().len() >= 1,
            out matches Ok(bit) ==> bit == old(self).unread()[0]
                && final(self).unread() == old(self).unread().skip(1),
            out matches Err(message) ==> message@ == read_failure(description@)
                && final(self).unread() == old(self).unread(),
    {
        match reader_read_bit(&mut self.bits) {
            Some(bit) => Ok(bit),
            None => Err(failure_message(description)),
        }
    }

    /// Reads `size` bits as a number.
    pub fn read_u8(&mut self, size: u8, description: &str) -> (out: Result<u8, String>)
        requires
            size <= 8,
        ensures
            out is Ok <==> old(self).unread().len() >= size,
            out matches Ok(value) ==> value == number_of(old(self).unread().take(size as int))
                && final(self).unread() == old(self).unread().skip(size as int),
            out matches Err(message) ==> message@ == read_failure(description@)
                && final(self).unread() == old(self).unread(),
    {
        match reader_read_bits(&mut self.bits, size as u32) {
            Some(value) => {
                proof {
                    lemma_number_of_bound(old(self).unread().take(size as int));
                    lemma_pow2_small(size as nat);
                }
                Ok(value as u8)
            },
            None => Err(failure_message(description)),
        }
    }

    /// Passes over `size` bits.
    pub fn skip(&mut self, size: u8, description: &str) -> (out: Result<(), String>)
        requires
            size <= 64,
        ensures
            out is Ok <==> old(self).unread().len() >= size,
            out is Ok ==> final(self).unread() == old(self).unread().skip(size as int),
            out matches Err(message) ==> message@ == read_failure(description@)
                && final(self).unread() == old(self).unread(),
    {
        match reader_read_bits(&mut self.bits, size as u32) {
            Some(_) => Ok(()),
            None => Err(failure_message(description)),
        }
    }
}

/// The value of a bit as a number.
pub open spec fn bit_value(bit: bool) -> nat {
    if bit {
        1
    } else {
        0
    }
}

/// The eight bits that a byte contributes, by the byte's arithmetic.
pub(crate) proof fn lemma_bits_of_byte(bytes: Seq<u8>, j: int)
    requires
        0 <= j < bytes.len(),
    ensures
        bit_value(bits_of(bytes)[8 * j]) == (bytes[j] as nat / 128) % 2,
        bit_value(bits_of(bytes)[8 * j + 1]) == (bytes[j] as nat / 64) % 2,
        bit_value(bits_of(bytes)[8 * j + 2]) == (bytes[j] as nat / 32) % 2,
        bit_value(bits_of(bytes)[8 * j + 3]) == (bytes[j] as nat / 16) % 2,
        bit_value(bits_of(bytes)[8 * j + 4]) == (bytes[j] as nat / 8) % 2,
        bit_value(bits_of(bytes)[8 * j + 5]) == (bytes[j] as nat / 4) % 2,
        bit_value(bits_of(bytes)[8 * j + 6]) == (bytes[j] as nat / 2) % 2,
        bit_value(bits_of(bytes)[8 * j + 7]) == (bytes[j] as nat) % 2,
{
    reveal_with_fuel(pow2, 10);
    assert(bytes[j] as nat / 1 == bytes[j] as nat);
}

/// Three bits spell four times the first, plus twice the second, plus the
/// third.
pub(crate) proof fn lemma_number_of_three(bits: Seq<bool>)
    requires
        bits.len() == 3,
    ensures
        number_of(bits) == 4 * bit_value(bits[0]) + 2 * bit_value(bits[1]) + bit_value(bits[2]),
{
    let two = bits.drop_last();
    let one = two.drop_last();
    assert(number_of(one.drop_last()) == 0);
    assert(number_of(two) == 2 * number_of(one) + bit_value(bits[1]));
}

/// Five bits spell the sum of their values, the first one counting sixteen.
pub(crate) proof fn lemma_number_of_five(bits: Seq<bool>)
    requires
        bits.len() == 5,
    ensures
        number_of(bits) == 16 * bit_value(bits[0]) + 8 * bit_value(bits[1]) + 4 * bit_value(
            bits[2],
        ) + 2 * bit_value(bits[3]) + bit_value(bits[4]),
{
    let four = bits.drop_last();
    let three = four.drop_last();
    lemma_number_of_three(three);
    assert(number_of(four) == 2 * number_of(three) + bit_value(bits[3]));
}

} // verus!
