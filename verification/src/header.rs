//! Codec for the fixed 48-byte container header: magic, declared total
//! size, four region start offsets, a compression-codec payload offset,
//! reserved fields, a flag word and the 8-byte platform identifier.

use vstd::prelude::*;

verus! {

use vstd::bytes::{spec_u32_to_le_bytes, lemma_auto_spec_u32_to_from_le_bytes};
use crate::bytes::{u32_at, read_u32_at, push_u32_le, push_bytes};
use crate::error::SfromError;

/// Number of bytes of an encoded header.
pub const HEADER_SIZE: usize = 48;

/// The constant every valid header's magic field holds.
pub const SFROM_MAGIC: u32 = 0x100;

#[derive(Clone, Debug, PartialEq)]
pub struct SfromHeader {
    /// Must hold `SFROM_MAGIC` for the container codec to accept the file.
    pub magic: u32,
    pub file_size: u32,
    /// Start of the ROM region; canonically 48, right after the header.
    pub rom_location: u32,
    pub pcm_samples_location: u32,
    pub pcm_footer_location: u32,
    pub footer_location: u32,
    pub sdd1_data_offset: u32,
    pub reserved1: u32,
    pub unknown1: u32,
    pub wiiu_game_id: [u8; 8],
    pub reserved2: u32,
}

/// Mathematical model of a header: the same fields, with the platform
/// identifier as a byte sequence.
pub ghost struct HeaderModel {
    pub magic: u32,
    pub file_size: u32,
    pub rom_location: u32,
    pub pcm_samples_location: u32,
    pub pcm_footer_location: u32,
    pub footer_location: u32,
    pub sdd1_data_offset: u32,
    pub reserved1: u32,
    pub unknown1: u32,
    pub wiiu_game_id: Seq<u8>,
    pub reserved2: u32,
}

impl View for SfromHeader {
    type V = HeaderModel;

    open spec fn view(&self) -> HeaderModel {
        HeaderModel {
            magic: self.magic,
            file_size: self.file_size,
            rom_location: self.rom_location,
            pcm_samples_location: self.pcm_samples_location,
            pcm_footer_location: self.pcm_footer_location,
            footer_location: self.footer_location,
            sdd1_data_offset: self.sdd1_data_offset,
            reserved1: self.reserved1,
            unknown1: self.unknown1,
            wiiu_game_id: self.wiiu_game_id@,
            reserved2: self.reserved2,
        }
    }
}

/// The 48 bytes a header encodes to: eleven little-endian fields in fixed
/// order, the 8-byte platform identifier among them.
pub open spec fn spec_header_bytes(h: HeaderModel) -> Seq<u8>
    recommends
        h.wiiu_game_id.len() == 8,
{
    spec_u32_to_le_bytes(h.magic) + spec_u32_to_le_bytes(h.file_size) + spec_u32_to_le_bytes(
        h.rom_location,
    ) + spec_u32_to_le_bytes(h.pcm_samples_location) + spec_u32_to_le_bytes(
        h.pcm_footer_location,
    ) + spec_u32_to_le_bytes(h.footer_location) + spec_u32_to_le_bytes(h.sdd1_data_offset)
        + spec_u32_to_le_bytes(h.reserved1) + spec_u32_to_le_bytes(h.unknown1) + h.wiiu_game_id
        + spec_u32_to_le_bytes(h.reserved2)
}

/// The header read from the first 48 bytes of `b`.
pub open spec fn spec_parse_header(b: Seq<u8>) -> HeaderModel
    recommends
        b.len() >= 48,
{
    HeaderModel {
        magic: u32_at(b, 0),
        file_size: u32_at(b, 4),
        rom_location: u32_at(b, 8),
        pcm_samples_location: u32_at(b, 12),
        pcm_footer_location: u32_at(b, 16),
        footer_location: u32_at(b, 20),
        sdd1_data_offset: u32_at(b, 24),
        reserved1: u32_at(b, 28),
        unknown1: u32_at(b, 32),
        wiiu_game_id: b.subrange(36, 44),
        reserved2: u32_at(b, 44),
    }
}

pub proof fn lemma_header_bytes_len(h: HeaderModel)
    requires
        h.wiiu_game_id.len() == 8,
    ensures
        spec_header_bytes(h).len() == 48,
{
    lemma_auto_spec_u32_to_from_le_bytes();
}

/// Decoding the 48 bytes an encode produced, in any larger buffer they
/// prefix, gives back the encoded header.
pub proof fn lemma_header_roundtrip(h: HeaderModel, rest: Seq<u8>)
    requires
        h.wiiu_game_id.len() == 8,
    ensures
        spec_parse_header(spec_header_bytes(h) + rest) == h,
{
    lemma_auto_spec_u32_to_from_le_bytes();
    let b = spec_header_bytes(h) + rest;
    assert(b.subrange(0, 4) =~= spec_u32_to_le_bytes(h.magic));
    assert(b.subrange(4, 8) =~= spec_u32_to_le_bytes(h.file_size));
    assert(b.subrange(8, 12) =~= spec_u32_to_le_bytes(h.rom_location));
    assert(b.subrange(12, 16) =~= spec_u32_to_le_bytes(h.pcm_samples_location));
    assert(b.subrange(16, 20) =~= spec_u32_to_le_bytes(h.pcm_footer_location));
    assert(b.subrange(20, 24) =~= spec_u32_to_le_bytes(h.footer_location));
    assert(b.subrange(24, 28) =~= spec_u32_to_le_bytes(h.sdd1_data_offset));
    assert(b.subrange(28, 32) =~= spec_u32_to_le_bytes(h.reserved1));
    assert(b.subrange(32, 36) =~= spec_u32_to_le_bytes(h.unknown1));
    assert(b.subrange(36, 44) =~= h.wiiu_game_id);
    assert(b.subrange(44, 48) =~= spec_u32_to_le_bytes(h.reserved2));
}

impl SfromHeader {
    /// Decodes the fixed 48-byte header from the front of `input`. Returns
    /// the header and the 48 bytes consumed; fails only when fewer than 48
    /// bytes are available. Neither the magic constant nor the offset
    /// ordering is validated here: that is the container codec's job.
    pub fn parse(input: &[u8]) -> (r: Result<(SfromHeader, usize), SfromError>)
        ensures
            match r {
                Ok((h, n)) => {
                    &&& input@.len() >= 48
                    &&& h@ == spec_parse_header(input@)
                    &&& n == 48
                },
                Err(e) => {
                    &&& input@.len() < 48
                    &&& e == (SfromError::TruncatedHeader { offset: 0 })
                },
            },
    {
        if input.len() < 48 {
            return Err(SfromError::TruncatedHeader { offset: 0 });
        }
        let wiiu_game_id: [u8; 8] = [
            input[36],
            input[37],
            input[38],
            input[39],
            input[40],
            input[41],
            input[42],
            input[43],
        ];
        let h = SfromHeader {
            magic: read_u32_at(input, 0),
            file_size: read_u32_at(input, 4),
            rom_location: read_u32_at(input, 8),
            pcm_samples_location: read_u32_at(input, 12),
            pcm_footer_location: read_u32_at(input, 16),
            footer_location: read_u32_at(input, 20),
            sdd1_data_offset: read_u32_at(input, 24),
            reserved1: read_u32_at(input, 28),
            unknown1: read_u32_at(input, 32),
            wiiu_game_id,
            reserved2: read_u32_at(input, 44),
        };
        proof {
            assert(h.wiiu_game_id@ =~= input@.subrange(36, 44));
        }
        Ok((h, 48))
    }

    /// Encodes the header to exactly 48 bytes; no failure mode.
    pub fn encode(&self) -> (out: Vec<u8>)
        ensures
            out@ == spec_header_bytes(self@),
            out@.len() == 48,
    {
        let mut out: Vec<u8> = Vec::new();
        push_u32_le(&mut out, self.magic);
        push_u32_le(&mut out, self.file_size);
        push_u32_le(&mut out, self.rom_location);
        push_u32_le(&mut out, self.pcm_samples_location);
        push_u32_le(&mut out, self.pcm_footer_location);
        push_u32_le(&mut out, self.footer_location);
        push_u32_le(&mut out, self.sdd1_data_offset);
        push_u32_le(&mut out, self.reserved1);
        push_u32_le(&mut out, self.unknown1);
        push_bytes(&mut out, self.wiiu_game_id.as_slice());
        push_u32_le(&mut out, self.reserved2);
        proof {
            lemma_header_bytes_len(self@);
            assert(out@ =~= spec_header_bytes(self@));
        }
        out
    }
}

} // verus!
