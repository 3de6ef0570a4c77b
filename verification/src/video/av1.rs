use vstd::prelude::*;
use crate::video::text::{decimal, push_decimal, push_two_digits, two_digits};
use crate::video::util::{
    bits_of, lemma_bits_of_byte, lemma_number_of_five, lemma_number_of_three, number_of,
    read_failure, Bits,
};

verus! {

/// The fields of an AV1 sequence header that the codec string is built from.
#[derive(Debug, Clone, Copy, PartialEq, Eq, Structural)]
pub struct Av1 {
    pub seq_profile: u8,
    pub seq_level_idx_0: u8,
    pub seq_tier_0: bool,
    pub high_bitdepth: bool,
    pub twelve_bit: bool,
}

/// The number spelled by the `width` bits that start at bit `start`.
pub open spec fn field(bits: Seq<bool>, start: int, width: int) -> nat {
    number_of(bits.subrange(start, start + width))
}

/// What reading a configuration record gives: one marker bit and seven
/// version bits are passed over, then come three bits of profile, five of
/// level, and one each for the tier, high bit depth and twelve bits. The
/// first field that the record is too short for is the one reported.
pub open spec fn header_of(bytes: Seq<u8>) -> Result<Av1, Seq<char>> {
    let bits = bits_of(bytes);
    if bits.len() < 1 {
        Err(read_failure("marker"@))
    } else if bits.len() < 8 {
        Err(read_failure("version"@))
    } else if bits.len() < 11 {
        Err(read_failure("seq_profile"@))
    } else if bits.len() < 16 {
        Err(read_failure("seq_level_idx_0"@))
    } else if bits.len() < 17 {
        Err(read_failure("seq_tier_0"@))
    } else if bits.len() < 18 {
        Err(read_failure("high_bitdepth"@))
    } else if bits.len() < 19 {
        Err(read_failure("twelve_bit"@))
    } else {
        Ok(
            Av1 {
                seq_profile: field(bits, 8, 3) as u8,
                seq_level_idx_0: field(bits, 11, 5) as u8,
                seq_tier_0: bits[16],
                high_bitdepth: bits[17],
                twelve_bit: bits[18],
            },
        )
    }
}

impl Av1 {
    /// Reads the header fields from a track's configuration bytes.
    pub fn from(codec_private: &[u8]) -> (out: Result<Self, String>)
        ensures
            out is Ok <==> header_of(codec_private@) is Ok,
            out matches Ok(header) ==> header_of(codec_private@) == Ok::<Av1, Seq<char>>(header),
            out matches Err(message) ==> header_of(codec_private@) == Err::<Av1, Seq<char>>(
                message@,
            ),
    {
        let ghost all = bits_of(codec_private@);
        let mut bits = Bits::new(codec_private);
        match bits.skip(1, "marker") {
            Ok(_) => {},
            Err(message) => {
                return Err(message);
            },
        }
        match bits.skip(7, "version") {
            Ok(_) => {},
            Err(message) => {
                return Err(message);
            },
        }
        assert(bits.unread() == all.skip(8));
        let seq_profile = match bits.read_u8(3, "seq_profile") {
            Ok(value) => value,
            Err(message) => {
                return Err(message);
            },
        };
        assert(all.skip(8).take(3) == all.subrange(8, 11));
        assert(bits.unread() == all.skip(11));
        let seq_level_idx_0 = match bits.read_u8(5, "seq_level_idx_0") {
            Ok(value) => value,
            Err(message) => {
                return Err(message);
            },
        };
        assert(all.skip(11).take(5) == all.subrange(11, 16));
        let seq_tier_0 = match bits.read_bool("seq_tier_0") {
            Ok(value) => value,
            Err(message) => {
                return Err(message);
            },
        };
        let high_bitdepth = match bits.read_bool("high_bitdepth") {
            Ok(value) => value,
            Err(message) => {
                return Err(message);
            },
        };
        let twelve_bit = match bits.read_bool("twelve_bit") {
            Ok(value) => value,
            Err(message) => {
                return Err(message);
            },
        };
        Ok(Self { seq_profile, seq_level_idx_0, seq_tier_0, high_bitdepth, twelve_bit })
    }

    /// The letter of the tier.
    pub open spec fn tier_letter(self) -> Seq<char> {
        if self.seq_tier_0 {
            "M"@
        } else {
            "H"@
        }
    }

    /// The letter of the tier.
    pub fn tier(&self) -> (letter: String)
        ensures
            letter@ == self.tier_letter(),
    {
        if self.seq_tier_0 {
            String::from_str("M")
        } else {
            String::from_str("H")
        }
    }

    /// The bit depth that the header's flags stand for.
    pub open spec fn spec_bit_depth(&self) -> u8 {
        if self.seq_profile == 2 && self.high_bitdepth && self.twelve_bit {
            12
        } else if (self.seq_profile == 2 && self.high_bitdepth) || self.high_bitdepth {
            10
        } else {
            8
        }
    }

    /// The bit depth that the header's flags stand for.
    #[verifier::when_used_as_spec(spec_bit_depth)]
    pub fn bit_depth(&self) -> (depth: u8)
        ensures
            depth == self.spec_bit_depth(),
    {
        if self.seq_profile == 2 && self.high_bitdepth {
            if self.twelve_bit {
                12
            } else {
                10
            }
        } else {
            if self.high_bitdepth {
                10
            } else {
                8
            }
        }
    }

    /// The codec string: `av01.`, the profile, a dot, the level on two
    /// digits with the tier's letter, a dot, and the bit depth on two digits.
    pub open spec fn codec_string(self) -> Seq<char> {
        "av01."@ + decimal(self.seq_profile as nat) + "."@ + two_digits(
            self.seq_level_idx_0 as nat,
        ) + self.tier_letter() + "."@ + two_digits(self.spec_bit_depth() as nat)
    }

    /// The codec string of the header.
    pub fn to_codec_string(&self) -> (text: String)
        ensures
            text@ == self.codec_string(),
    {
        let mut text = String::from_str("av01.");
        push_decimal(&mut text, self.seq_profile as usize);
        text.append(".");
        push_two_digits(&mut text, self.seq_level_idx_0);
        let tier = self.tier();
        text.append(tier.as_str());
        text.append(".");
        push_two_digits(&mut text, self.bit_depth());
        text
    }
}

/// The header in terms of the record's bytes: a record of fewer than three
/// bytes is too short, and a longer one gives the profile and level from its
/// second byte and the three flags from the top of its third.
pub proof fn lemma_header_of_bytes(bytes: Seq<u8>)
    ensures
        bytes.len() == 0 ==> header_of(bytes) == Err::<Av1, Seq<char>>(read_failure("marker"@)),
        bytes.len() == 1 ==> header_of(bytes) == Err::<Av1, Seq<char>>(
            read_failure("seq_profile"@),
        ),
        bytes.len() == 2 ==> header_of(bytes) == Err::<Av1, Seq<char>>(
            read_failure("seq_tier_0"@),
        ),
        bytes.len() >= 3 ==> header_of(bytes) == Ok::<Av1, Seq<char>>(
            Av1 {
                seq_profile: bytes[1] / 32,
                seq_level_idx_0: bytes[1] % 32,
                seq_tier_0: bytes[2] / 128 == 1,
                high_bitdepth: (bytes[2] / 64) % 2 == 1,
                twelve_bit: (bytes[2] / 32) % 2 == 1,
            },
        ),
{
    if bytes.len() >= 3 {
        let bits = bits_of(bytes);
        lemma_bits_of_byte(bytes, 1);
        lemma_bits_of_byte(bytes, 2);
        let profile = bits.subrange(8, 11);
        let level = bits.subrange(11, 16);
        lemma_number_of_three(profile);
        lemma_number_of_five(level);
        assert(level[0] == bits[11] && level[1] == bits[12] && level[2] == bits[13] && level[3]
            == bits[14] && level[4] == bits[15]);
        lemma_byte_split(bytes[1]);
    }
}

/// A byte's top three bits spell the byte divided by 32, and its low five
/// bits the remainder.
proof fn lemma_byte_split(byte: u8)
    ensures
        4 * ((byte as nat / 128) % 2) + 2 * ((byte as nat / 64) % 2) + (byte as nat / 32) % 2
            == byte as nat / 32,
        16 * ((byte as nat / 16) % 2) + 8 * ((byte as nat / 8) % 2) + 4 * ((byte as nat / 4) % 2)
            + 2 * ((byte as nat / 2) % 2) + (byte as nat) % 2 == byte as nat % 32,
{
    assert(4 * ((byte / 128) % 2) + 2 * ((byte / 64) % 2) + (byte / 32) % 2 == byte / 32)
        by (bit_vector);
    assert(16 * ((byte / 16) % 2) + 8 * ((byte / 8) % 2) + 4 * ((byte / 4) % 2) + 2 * ((byte / 2)
        % 2) + byte % 2 == byte % 32) by (bit_vector);
}

} // verus!
