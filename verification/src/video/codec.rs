use vstd::prelude::*;
use crate::video::av1::Av1;
use crate::video::vpcc::Vpcc;

verus! {

/// What is known of a track's codec.
#[derive(Debug, Clone, Copy, PartialEq, Eq, Structural)]
pub enum CodecDescriptor {
    Av1(Av1),
    Vp9(Vpcc),
    Vp8,
}

/// The record that stands for a VP9 track without configuration bytes. Its
/// chroma subsampling, which the codec string does not show, is 0.
pub open spec fn vp9_fallback() -> Vpcc {
    Vpcc { profile: 0, level: 61, bit_depth: 12, chroma_subsampling: 0 }
}

impl CodecDescriptor {
    /// The record that stands for a VP9 track without configuration bytes.
    pub fn fallback_vp9() -> (descriptor: Self)
        ensures
            descriptor == CodecDescriptor::Vp9(vp9_fallback()),
    {
        CodecDescriptor::Vp9(Vpcc { profile: 0, level: 61, bit_depth: 12, chroma_subsampling: 0 })
    }

    /// The codec string that names the codec to a decoder.
    pub open spec fn codec_string(self) -> Seq<char> {
        match self {
            CodecDescriptor::Av1(header) => header.codec_string(),
            CodecDescriptor::Vp9(record) => record.codec_string(),
            CodecDescriptor::Vp8 => "vp8"@,
        }
    }

    /// The codec string that names the codec to a decoder.
    pub fn to_codec_string(&self) -> (text: String)
        ensures
            text@ == self.codec_string(),
    {
        match self {
            CodecDescriptor::Av1(header) => header.to_codec_string(),
            CodecDescriptor::Vp9(record) => record.to_codec_string(),
            CodecDescriptor::Vp8 => String::from_str("vp8"),
        }
    }
}

/// The codec string of a descriptor, where there is one.
pub open spec fn codec_string_of(descriptor: Option<CodecDescriptor>) -> Option<Seq<char>> {
    match descriptor {
        Some(known) => Some(known.codec_string()),
        None => None,
    }
}

/// The fallback record spells `vp09.00.61.12`.
pub proof fn lemma_vp9_fallback_string()
    ensures
        vp9_fallback().codec_string() == "vp09.00.61.12"@,
{
    reveal_strlit("vp09.00.61.12");
    reveal_strlit("vp09.");
    reveal_strlit(".");
    reveal_with_fuel(crate::video::text::decimal, 3);
}

} // verus!
