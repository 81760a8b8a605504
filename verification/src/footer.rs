//! Codec for the fixed 35-byte trailer carrying playback parameters. The
//! eleven documented fields occupy the first 27 bytes; the remaining 8
//! bytes of the region are reserved, written as zero and ignored on read.

use vstd::prelude::*;

verus! {

use vstd::bytes::{
    spec_u16_to_le_bytes, spec_u32_to_le_bytes, lemma_auto_spec_u16_to_from_le_bytes,
    lemma_auto_spec_u32_to_from_le_bytes,
};
use crate::bytes::{u16_at, u32_at, read_u16_at, read_u32_at, push_u16_le, push_u32_le};
use crate::error::SfromError;

/// Number of bytes of an encoded footer region.
pub const FOOTER_SIZE: usize = 35;

/// Frame rate 0x3C is 60 frames per second, 0x32 is 50. Addressing mode
/// 0x14 maps the ROM linearly, 0x15 in banks. The stored region sizes are
/// redundant with the header's offsets: on write the layout planner, not
/// these fields, governs placement.
#[derive(Clone, Copy, Debug, PartialEq, Eq, Structural)]
pub struct SfromFooter {
    pub fps: u8,
    pub rom_size: u32,
    pub pcm_samples_size: u32,
    pub pcm_footer_size: u32,
    pub preset_id: u16,
    pub player_count: u8,
    pub sound_volume: u8,
    pub rom_type: u8,
    pub enhancement_chip: u8,
    pub unknown1: u32,
    pub unknown2: u32,
}

/// The 35 bytes a footer encodes to: the eleven fields in fixed order,
/// then eight reserved zero bytes.
pub open spec fn spec_footer_bytes(f: SfromFooter) -> Seq<u8> {
    seq![f.fps] + spec_u32_to_le_bytes(f.rom_size) + spec_u32_to_le_bytes(f.pcm_samples_size)
        + spec_u32_to_le_bytes(f.pcm_footer_size) + spec_u16_to_le_bytes(f.preset_id) + seq![
        f.player_count,
        f.sound_volume,
        f.rom_type,
        f.enhancement_chip,
    ] + spec_u32_to_le_bytes(f.unknown1) + spec_u32_to_le_bytes(f.unknown2) + seq![
        0u8,
        0u8,
        0u8,
        0u8,
        0u8,
        0u8,
        0u8,
        0u8,
    ]
}

/// The footer read from the first 35 bytes of `b`; the reserved trailing
/// bytes are ignored.
pub open spec fn spec_parse_footer(b: Seq<u8>) -> SfromFooter
    recommends
        b.len() >= 35,
{
    SfromFooter {
        fps: b[0],
        rom_size: u32_at(b, 1),
        pcm_samples_size: u32_at(b, 5),
        pcm_footer_size: u32_at(b, 9),
        preset_id: u16_at(b, 13),
        player_count: b[15],
        sound_volume: b[16],
        rom_type: b[17],
        enhancement_chip: b[18],
        unknown1: u32_at(b, 19),
        unknown2: u32_at(b, 23),
    }
}

pub proof fn lemma_footer_bytes_len(f: SfromFooter)
    ensures
        spec_footer_bytes(f).len() == 35,
{
    lemma_auto_spec_u16_to_from_le_bytes();
    lemma_auto_spec_u32_to_from_le_bytes();
}

/// Decoding the 35 bytes an encode produced, in any larger buffer they
/// prefix, gives back the encoded footer.
pub proof fn lemma_footer_roundtrip(f: SfromFooter, rest: Seq<u8>)
    ensures
        spec_parse_footer(spec_footer_bytes(f) + rest) == f,
{
    lemma_auto_spec_u16_to_from_le_bytes();
    lemma_auto_spec_u32_to_from_le_bytes();
    let b = spec_footer_bytes(f) + rest;
    assert(b.subrange(1, 5) =~= spec_u32_to_le_bytes(f.rom_size));
    assert(b.subrange(5, 9) =~= spec_u32_to_le_bytes(f.pcm_samples_size));
    assert(b.subrange(9, 13) =~= spec_u32_to_le_bytes(f.pcm_footer_size));
    assert(b.subrange(13, 15) =~= spec_u16_to_le_bytes(f.preset_id));
    assert(b.subrange(19, 23) =~= spec_u32_to_le_bytes(f.unknown1));
    assert(b.subrange(23, 27) =~= spec_u32_to_le_bytes(f.unknown2));
    assert(b[0] == f.fps);
    assert(b[15] == f.player_count);
    assert(b[16] == f.sound_volume);
    assert(b[17] == f.rom_type);
    assert(b[18] == f.enhancement_chip);
}

impl SfromFooter {
    /// Decodes the fixed 35-byte footer region from the front of `input`.
    /// Returns the footer and the 35 bytes consumed; fails only when fewer
    /// than 35 bytes are available.
    pub fn parse(input: &[u8]) -> (r: Result<(SfromFooter, usize), SfromError>)
        ensures
            match r {
                Ok((f, n)) => {
                    &&& input@.len() >= 35
                    &&& f == spec_parse_footer(input@)
                    &&& n == 35
                },
                Err(e) => {
                    &&& input@.len() < 35
                    &&& e == (SfromError::TruncatedFooter { offset: 0 })
                },
            },
    {
        if input.len() < 35 {
            return Err(SfromError::TruncatedFooter { offset: 0 });
        }
        let f = SfromFooter {
            fps: input[0],
            rom_size: read_u32_at(input, 1),
            pcm_samples_size: read_u32_at(input, 5),
            pcm_footer_size: read_u32_at(input, 9),
            preset_id: read_u16_at(input, 13),
            player_count: input[15],
            sound_volume: input[16],
            rom_type: input[17],
            enhancement_chip: input[18],
            unknown1: read_u32_at(input, 19),
            unknown2: read_u32_at(input, 23),
        };
        Ok((f, 35))
    }

    /// Encodes the footer to exactly 35 bytes; no failure mode.
    pub fn encode(&self) -> (out: Vec<u8>)
        ensures
            out@ == spec_footer_bytes(*self),
            out@.len() == 35,
    {
        let mut out: Vec<u8> = Vec::new();
        out.push(self.fps);
        push_u32_le(&mut out, self.rom_size);
        push_u32_le(&mut out, self.pcm_samples_size);
        push_u32_le(&mut out, self.pcm_footer_size);
        push_u16_le(&mut out, self.preset_id);
        out.push(self.player_count);
        out.push(self.sound_volume);
        out.push(self.rom_type);
        out.push(self.enhancement_chip);
        push_u32_le(&mut out, self.unknown1);
        push_u32_le(&mut out, self.unknown2);
        out.push(0u8);
        out.push(0u8);
        out.push(0u8);
        out.push(0u8);
        out.push(0u8);
        out.push(0u8);
        out.push(0u8);
        out.push(0u8);
        proof {
            lemma_footer_bytes_len(*self);
            assert(out@ =~= spec_footer_bytes(*self));
        }
        out
    }
}

/// The hardware-extension identifier stored in the footer: none, or one
/// of the known accelerator variants, each with a fixed numeric code.
#[derive(Clone, Copy, Debug, PartialEq, Eq, Structural)]
pub enum EnhancementChip {
    Normal,
    Dsp1,
    Sdd1,
    Cx4,
    MegaManX,
    Sa1_1,
    Sa1_2,
    Sa1_3,
    Sa1_4,
    Sa1_5,
    Sa1_6,
    SuperFx,
}

pub open spec fn spec_chip_code(e: EnhancementChip) -> u8 {
    match e {
        EnhancementChip::Normal => 0x00,
        EnhancementChip::Dsp1 => 0x02,
        EnhancementChip::Sdd1 => 0x03,
        EnhancementChip::Cx4 => 0x04,
        EnhancementChip::MegaManX => 0x05,
        EnhancementChip::Sa1_1 => 0x06,
        EnhancementChip::Sa1_2 => 0x07,
        EnhancementChip::Sa1_3 => 0x08,
        EnhancementChip::Sa1_4 => 0x09,
        EnhancementChip::Sa1_5 => 0x0a,
        EnhancementChip::Sa1_6 => 0x0b,
        EnhancementChip::SuperFx => 0x0c,
    }
}

pub open spec fn spec_chip_from_code(code: u8) -> Option<EnhancementChip> {
    if code == 0x00 {
        Some(EnhancementChip::Normal)
    } else if code == 0x02 {
        Some(EnhancementChip::Dsp1)
    } else if code == 0x03 {
        Some(EnhancementChip::Sdd1)
    } else if code == 0x04 {
        Some(EnhancementChip::Cx4)
    } else if code == 0x05 {
        Some(EnhancementChip::MegaManX)
    } else if code == 0x06 {
        Some(EnhancementChip::Sa1_1)
    } else if code == 0x07 {
        Some(EnhancementChip::Sa1_2)
    } else if code == 0x08 {
        Some(EnhancementChip::Sa1_3)
    } else if code == 0x09 {
        Some(EnhancementChip::Sa1_4)
    } else if code == 0x0a {
        Some(EnhancementChip::Sa1_5)
    } else if code == 0x0b {
        Some(EnhancementChip::Sa1_6)
    } else if code == 0x0c {
        Some(EnhancementChip::SuperFx)
    } else {
        None
    }
}

impl EnhancementChip {
    /// The wire code of this variant.
    pub fn code(self) -> (r: u8)
        ensures
            r == spec_chip_code(self),
    {
        match self {
            EnhancementChip::Normal => 0x00,
            EnhancementChip::Dsp1 => 0x02,
            EnhancementChip::Sdd1 => 0x03,
            EnhancementChip::Cx4 => 0x04,
            EnhancementChip::MegaManX => 0x05,
            EnhancementChip::Sa1_1 => 0x06,
            EnhancementChip::Sa1_2 => 0x07,
            EnhancementChip::Sa1_3 => 0x08,
            EnhancementChip::Sa1_4 => 0x09,
            EnhancementChip::Sa1_5 => 0x0a,
            EnhancementChip::Sa1_6 => 0x0b,
            EnhancementChip::SuperFx => 0x0c,
        }
    }

    /// The variant a wire code names, if any.
    pub fn from_code(code: u8) -> (r: Option<EnhancementChip>)
        ensures
            r == spec_chip_from_code(code),
    {
        if code == 0x00 {
            Some(EnhancementChip::Normal)
        } else if code == 0x02 {
            Some(EnhancementChip::Dsp1)
        } else if code == 0x03 {
            Some(EnhancementChip::Sdd1)
        } else if code == 0x04 {
            Some(EnhancementChip::Cx4)
        } else if code == 0x05 {
            Some(EnhancementChip::MegaManX)
        } else if code == 0x06 {
            Some(EnhancementChip::Sa1_1)
        } else if code == 0x07 {
            Some(EnhancementChip::Sa1_2)
        } else if code == 0x08 {
            Some(EnhancementChip::Sa1_3)
        } else if code == 0x09 {
            Some(EnhancementChip::Sa1_4)
        } else if code == 0x0a {
            Some(EnhancementChip::Sa1_5)
        } else if code == 0x0b {
            Some(EnhancementChip::Sa1_6)
        } else if code == 0x0c {
            Some(EnhancementChip::SuperFx)
        } else {
            None
        }
    }
}

/// Every variant's code names that variant back.
pub proof fn lemma_chip_code_roundtrip(e: EnhancementChip)
    ensures
        spec_chip_from_code(spec_chip_code(e)) == Some(e),
{
}

} // verus!
