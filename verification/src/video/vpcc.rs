use vstd::prelude::*;
use crate::video::text::{decimal, push_decimal, push_two_digits, two_digits};

verus! {

/// A VP9 codec configuration record.
#[derive(Debug, Clone, Copy, PartialEq, Eq, Structural)]
pub struct Vpcc {
    pub profile: u8,
    pub level: u8,
    pub bit_depth: u8,
    pub chroma_subsampling: u8,
}

/// The features that a configuration stream can carry, each under the id
/// given by its place in this list, counted from one.
#[derive(Debug, Clone, Copy, PartialEq, Eq, Structural)]
pub enum VpccFeature {
    Profile,
    Level,
    BitDepth,
    ChromaSubsampling,
}

/// The feature that an id byte stands for.
pub open spec fn feature_of(id: u8) -> Option<VpccFeature> {
    if id == 1 {
        Some(VpccFeature::Profile)
    } else if id == 2 {
        Some(VpccFeature::Level)
    } else if id == 3 {
        Some(VpccFeature::BitDepth)
    } else if id == 4 {
        Some(VpccFeature::ChromaSubsampling)
    } else {
        None
    }
}

/// The message for an id byte that stands for no feature.
pub open spec fn unknown_feature(id: u8) -> Seq<char> {
    "Unknown vpcc feature "@ + decimal(id as nat)
}

/// The message for a feature whose declared length is not the one it must
/// have.
pub open spec fn invalid_length(feature: VpccFeature) -> Seq<char> {
    "Invalid length for feature "@ + feature.name()
}

/// The message for a feature that the stream does not carry.
pub open spec fn missing_feature(feature: VpccFeature) -> Seq<char> {
    "Missing feature "@ + feature.name()
}

/// The message for a feature whose value byte lies past the end of the data.
/// The profile's message speaks of the level and the level's of the profile.
pub open spec fn missing_value(feature: VpccFeature) -> Seq<char> {
    match feature {
        VpccFeature::Profile => "Could not get level byte"@,
        VpccFeature::Level => "Could not get profile byte"@,
        VpccFeature::BitDepth => "Could not get bit_depth byte"@,
        VpccFeature::ChromaSubsampling => "Could not get chroma_subsampling byte"@,
    }
}

impl VpccFeature {
    /// The feature's name, as the messages spell it.
    pub open spec fn name(self) -> Seq<char> {
        match self {
            VpccFeature::Profile => "Profile"@,
            VpccFeature::Level => "Level"@,
            VpccFeature::BitDepth => "BitDepth"@,
            VpccFeature::ChromaSubsampling => "ChromaSubsampling"@,
        }
    }

    /// The feature's name, as the messages spell it.
    fn name_text(&self) -> (text: &'static str)
        ensures
            text@ == self.name(),
    {
        match self {
            VpccFeature::Profile => "Profile",
            VpccFeature::Level => "Level",
            VpccFeature::BitDepth => "BitDepth",
            VpccFeature::ChromaSubsampling => "ChromaSubsampling",
        }
    }

    /// The feature that an id byte stands for.
    pub fn from(id: u8) -> (out: Result<VpccFeature, String>)
        ensures
            out is Ok <==> feature_of(id) is Some,
            out matches Ok(feature) ==> feature_of(id) == Some(feature),
            out matches Err(message) ==> message@ == unknown_feature(id),
    {
        if id == 1 {
            Ok(VpccFeature::Profile)
        } else if id == 2 {
            Ok(VpccFeature::Level)
        } else if id == 3 {
            Ok(VpccFeature::BitDepth)
        } else if id == 4 {
            Ok(VpccFeature::ChromaSubsampling)
        } else {
            let mut message = String::from_str("Unknown vpcc feature ");
            push_decimal(&mut message, id as usize);
            Err(message)
        }
    }

    /// The number of value bytes that the feature must declare.
    pub open spec fn spec_length(&self) -> u8 {
        1
    }

    /// The number of value bytes that the feature must declare.
    #[verifier::when_used_as_spec(spec_length)]
    pub fn length(&self) -> (n: u8)
        ensures
            n == self.spec_length(),
    {
        match self {
            VpccFeature::Profile => 1,
            VpccFeature::Level => 1,
            VpccFeature::BitDepth => 1,
            VpccFeature::ChromaSubsampling => 1,
        }
    }
}

/// What reading one triplet at `offset` gives: the feature and its value, or
/// the message of the first thing that is wrong with the triplet.
pub open spec fn triplet_at(data: Seq<u8>, offset: int) -> Result<(VpccFeature, u8), Seq<char>> {
    if offset >= data.len() {
        Err("Could not get id byte"@)
    } else {
        match feature_of(data[offset]) {
            None => Err(unknown_feature(data[offset])),
            Some(feature) => {
                if offset + 1 >= data.len() {
                    Err("Could not get length byte"@)
                } else if data[offset + 1] != feature.spec_length() {
                    Err(invalid_length(feature))
                } else if offset + 2 >= data.len() {
                    Err(missing_value(feature))
                } else {
                    Ok((feature, data[offset + 2]))
                }
            },
        }
    }
}

/// How many bytes reading one triplet at `offset` passes over: all three of a
/// good triplet, and of a bad one those that were found in order before the
/// fault.
pub open spec fn triplet_advance(data: Seq<u8>, offset: int) -> int {
    if offset >= data.len() || feature_of(data[offset]) is None {
        0
    } else if offset + 1 >= data.len() {
        1
    } else if triplet_at(data, offset) is Err {
        2
    } else {
        3
    }
}

/// The triplets from `offset` on, for as long as three bytes are left; the
/// first bad triplet makes the whole scan fail with its message. One or two
/// bytes left over at the end are not looked at.
pub open spec fn scan(data: Seq<u8>, offset: int) -> Result<Seq<(VpccFeature, u8)>, Seq<char>>
    decreases data.len() - offset,
{
    if offset < 0 || offset + 3 > data.len() {
        Ok(Seq::empty())
    } else {
        match triplet_at(data, offset) {
            Err(message) => Err(message),
            Ok(triplet) => match scan(data, offset + 3) {
                Err(message) => Err(message),
                Ok(rest) => Ok(seq![triplet] + rest),
            },
        }
    }
}

/// The value of the first triplet that carries `feature`.
pub open spec fn first_value(features: Seq<(VpccFeature, u8)>, feature: VpccFeature) -> Option<u8>
    decreases features.len(),
{
    if features.len() == 0 {
        None
    } else if features[0].0 == feature {
        Some(features[0].1)
    } else {
        first_value(features.drop_first(), feature)
    }
}

/// The record that a list of triplets spells: each field is the value of
/// the first triplet of its feature, and the first feature without a triplet,
/// in the order profile, level, bit depth, chroma subsampling, is reported.
pub open spec fn record_from(features: Seq<(VpccFeature, u8)>) -> Result<Vpcc, Seq<char>> {
    if first_value(features, VpccFeature::Profile) is None {
        Err(missing_feature(VpccFeature::Profile))
    } else if first_value(features, VpccFeature::Level) is None {
        Err(missing_feature(VpccFeature::Level))
    } else if first_value(features, VpccFeature::BitDepth) is None {
        Err(missing_feature(VpccFeature::BitDepth))
    } else if first_value(features, VpccFeature::ChromaSubsampling) is None {
        Err(missing_feature(VpccFeature::ChromaSubsampling))
    } else {
        Ok(
            Vpcc {
                profile: first_value(features, VpccFeature::Profile)->0,
                level: first_value(features, VpccFeature::Level)->0,
                bit_depth: first_value(features, VpccFeature::BitDepth)->0,
                chroma_subsampling: first_value(features, VpccFeature::ChromaSubsampling)->0,
            },
        )
    }
}

/// The record that a configuration stream spells.
pub open spec fn record_of(data: Seq<u8>) -> Result<Vpcc, Seq<char>> {
    match scan(data, 0) {
        Err(message) => Err(message),
        Ok(features) => record_from(features),
    }
}

/// The stream that carries the four fields of `record`, one triplet each, in
/// the order of their ids.
pub open spec fn stream_of(record: Vpcc) -> Seq<u8> {
    seq![
        1u8,
        1u8,
        record.profile,
        2u8,
        1u8,
        record.level,
        3u8,
        1u8,
        record.bit_depth,
        4u8,
        1u8,
        record.chroma_subsampling,
    ]
}

/// Reading the stream that carries a record's fields gives the record
/// back: fields that come as bytes and fields that come one by one stand for
/// the same record.
pub proof fn lemma_record_of_stream(record: Vpcc)
    ensures
        record_of(stream_of(record)) == Ok::<Vpcc, Seq<char>>(record),
{
    reveal_with_fuel(scan, 6);
    reveal_with_fuel(first_value, 6);
    let features = scan(stream_of(record), 0)->Ok_0;
    assert(features.drop_first().drop_first().drop_first()[0] == (
        VpccFeature::ChromaSubsampling,
        record.chroma_subsampling,
    ));
}

/// A reader of the tag-length-value form of the configuration record.
pub struct VpccCodecPrivateReader<'a> {
    data: &'a [u8],
    offset: usize,
}

impl<'a> VpccCodecPrivateReader<'a> {
    /// What holds of every reader: its place is within its data or at their
    /// end.
    #[verifier::type_invariant]
    spec fn within_data(self) -> bool {
        self.offset <= self.data@.len()
    }

    /// The bytes that are read.
    pub closed spec fn data(&self) -> Seq<u8> {
        self.data@
    }

    /// The place of the next byte to read.
    pub closed spec fn offset(&self) -> int {
        self.offset as int
    }

    /// A reader that stands at the start of `data`.
    pub fn from(data: &'a [u8]) -> (reader: Self)
        ensures
            reader.data() == data@,
            reader.offset() == 0,
    {
        Self { data, offset: 0 }
    }

    /// Reads the triplet at the reader's place and moves past it.
    pub fn next(&mut self) -> (out: Result<(VpccFeature, u8), String>)
        ensures
            final(self).data() == old(self).data(),
            final(self).offset() == old(self).offset() + triplet_advance(
                old(self).data(),
                old(self).offset(),
            ),
            out is Ok <==> triplet_at(old(self).data(), old(self).offset()) is Ok,
            out matches Ok(triplet) ==> triplet_at(old(self).data(), old(self).offset()) == Ok::<
                (VpccFeature, u8),
                Seq<char>,
            >(triplet),
            out matches Err(message) ==> triplet_at(old(self).data(), old(self).offset()) == Err::<
                (VpccFeature, u8),
                Seq<char>,
            >(message@),
    {
        proof {
            use_type_invariant(&*self);
        }
        if self.offset >= self.data.len() {
            return Err(String::from_str("Could not get id byte"));
        }
        let id = match VpccFeature::from(self.data[self.offset]) {
            Ok(feature) => feature,
            Err(message) => {
                return Err(message);
            },
        };
        self.offset += 1;
        if self.offset >= self.data.len() {
            return Err(String::from_str("Could not get length byte"));
        }
        let length = self.data[self.offset];
        self.offset += 1;
        if length != id.length() {
            let message = String::from_str("Invalid length for feature ").concat(id.name_text());
            return Err(message);
        }
        if self.offset >= self.data.len() {
            let message = match id {
                VpccFeature::Profile => String::from_str("Could not get level byte"),
                VpccFeature::Level => String::from_str("Could not get profile byte"),
                VpccFeature::BitDepth => String::from_str("Could not get bit_depth byte"),
                VpccFeature::ChromaSubsampling => String::from_str(
                    "Could not get chroma_subsampling byte",
                ),
            };
            return Err(message);
        }
        let value = self.data[self.offset];
        self.offset += 1;
        Ok((id, value))
    }

    /// Reads the whole stream from its start.
    pub fn read(&mut self) -> (out: Result<Vpcc, String>)
        ensures
            final(self).data() == old(self).data(),
            out is Ok <==> record_of(old(self).data()) is Ok,
            out matches Ok(record) ==> record_of(old(self).data()) == Ok::<Vpcc, Seq<char>>(
                record,
            ),
            out matches Err(message) ==> record_of(old(self).data()) == Err::<Vpcc, Seq<char>>(
                message@,
            ),
    {
        self.offset = 0;
        let mut features: Vec<(VpccFeature, u8)> = Vec::new();
        let ghost data = self.data@;
        loop
            invariant
                self.data@ == data,
                data == old(self).data(),
                self.offset <= data.len(),
                match scan(data, self.offset as int) {
                    Err(message) => scan(data, 0) == Err::<Seq<(VpccFeature, u8)>, Seq<char>>(
                        message,
                    ),
                    Ok(rest) => scan(data, 0) == Ok::<Seq<(VpccFeature, u8)>, Seq<char>>(
                        features@ + rest,
                    ),
                },
            ensures
                self.data@ == data,
                data == old(self).data(),
                scan(data, 0) == Ok::<Seq<(VpccFeature, u8)>, Seq<char>>(features@),
            decreases data.len() - self.offset,
        {
            if self.data.len() - self.offset < 3 {
                break;
            }
            let ghost before = self.offset as int;
            let ghost collected = features@;
            match self.next() {
                Ok(triplet) => {
                    features.push(triplet);
                    proof {
                        let rest = scan(data, before + 3);
                        if rest is Ok {
                            assert(collected + (seq![triplet] + rest->Ok_0) =~= features@
                                + rest->Ok_0);
                        }
                    }
                },
                Err(message) => {
                    return Err(message);
                },
            }
        }
        let profile = match Self::get_feature(&features, VpccFeature::Profile) {
            Ok(value) => value,
            Err(message) => {
                return Err(message);
            },
        };
        let level = match Self::get_feature(&features, VpccFeature::Level) {
            Ok(value) => value,
            Err(message) => {
                return Err(message);
            },
        };
        let bit_depth = match Self::get_feature(&features, VpccFeature::BitDepth) {
            Ok(value) => value,
            Err(message) => {
                return Err(message);
            },
        };
        let chroma_subsampling = match Self::get_feature(
            &features,
            VpccFeature::ChromaSubsampling,
        ) {
            Ok(value) => value,
            Err(message) => {
                return Err(message);
            },
        };
        Ok(Vpcc { profile, level, bit_depth, chroma_subsampling })
    }

    /// The value of the first triplet that carries `feature`.
    pub fn get_feature(features: &Vec<(VpccFeature, u8)>, feature: VpccFeature) -> (out: Result<
        u8,
        String,
    >)
        ensures
            out is Ok <==> first_value(features@, feature) is Some,
            out matches Ok(value) ==> first_value(features@, feature) == Some(value),
            out matches Err(message) ==> message@ == missing_feature(feature),
    {
        let mut i: usize = 0;
        assert(features@.skip(0) == features@);
        while i < features.len()
            invariant
                i <= features.len(),
                first_value(features@, feature) == first_value(features@.skip(i as int), feature),
            decreases features.len() - i,
        {
            if features[i].0 == feature {
                return Ok(features[i].1);
            }
            assert(features@.skip(i as int).drop_first() == features@.skip(i as int + 1));
            i += 1;
        }
        Err(String::from_str("Missing feature ").concat(feature.name_text()))
    }
}

impl Vpcc {
    /// Reads a record from a track's configuration bytes.
    pub fn from(codec_private: &[u8]) -> (out: Result<Self, String>)
        ensures
            out is Ok <==> record_of(codec_private@) is Ok,
            out matches Ok(record) ==> record_of(codec_private@) == Ok::<Vpcc, Seq<char>>(record),
            out matches Err(message) ==> record_of(codec_private@) == Err::<Vpcc, Seq<char>>(
                message@,
            ),
    {
        let mut reader = VpccCodecPrivateReader::from(codec_private);
        reader.read()
    }

    /// The codec string: `vp09.` and then the profile, the level and the bit
    /// depth, each on two digits, with dots between them. The chroma
    /// subsampling is not part of it.
    pub open spec fn codec_string(self) -> Seq<char> {
        "vp09."@ + two_digits(self.profile as nat) + "."@ + two_digits(self.level as nat) + "."@
            + two_digits(self.bit_depth as nat)
    }

    /// The codec string of the record.
    pub fn to_codec_string(&self) -> (text: String)
        ensures
            text@ == self.codec_string(),
    {
        let mut text = String::from_str("vp09.");
        push_two_digits(&mut text, self.profile);
        text.append(".");
        push_two_digits(&mut text, self.level);
        text.append(".");
        push_two_digits(&mut text, self.bit_depth);
        text
    }
}

} // verus!
