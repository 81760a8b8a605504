//! The container codec: parses a full buffer into a structured value and
//! serializes a structured value into canonical bytes. On write the
//! header's offsets are recomputed by the region layout planner from the
//! actual blob sizes; offsets read from an input are never replayed.

use vstd::prelude::*;

verus! {

use vstd::slice::{slice_subrange, slice_to_vec};
use crate::bytes::push_bytes;
use crate::error::SfromError;
use crate::header::{SfromHeader, HeaderModel, spec_header_bytes, spec_parse_header, SFROM_MAGIC};
use crate::footer::{SfromFooter, spec_footer_bytes, spec_parse_footer};
use crate::tags::{GameTagData, TagsModel, spec_tag_bytes, spec_parse_tags, tags_wf};

/// A whole container: header, ROM blob, optional audio pair, footer and
/// tag table. The audio pair is either both present or both absent.
#[derive(Clone, Debug, PartialEq)]
pub struct Sfrom {
    pub header: SfromHeader,
    pub rom_data: Vec<u8>,
    pub pcm_data: Option<Vec<u8>>,
    pub pcm_footer: Option<Vec<u8>>,
    pub footer: SfromFooter,
    pub game_tags: GameTagData,
}

/// Mathematical model of a container, with byte blobs as sequences.
pub ghost struct ContainerModel {
    pub header: HeaderModel,
    pub rom_data: Seq<u8>,
    pub pcm_data: Option<Seq<u8>>,
    pub pcm_footer: Option<Seq<u8>>,
    pub footer: SfromFooter,
    pub game_tags: TagsModel,
}

impl View for Sfrom {
    type V = ContainerModel;

    open spec fn view(&self) -> ContainerModel {
        ContainerModel {
            header: self.header@,
            rom_data: self.rom_data@,
            pcm_data: match self.pcm_data {
                Some(v) => Some(v@),
                None => None,
            },
            pcm_footer: match self.pcm_footer {
                Some(v) => Some(v@),
                None => None,
            },
            footer: self.footer,
            game_tags: self.game_tags@,
        }
    }
}

pub open spec fn opt_len(o: Option<Seq<u8>>) -> int {
    match o {
        Some(s) => s.len() as int,
        None => 0,
    }
}

pub open spec fn opt_seq(o: Option<Seq<u8>>) -> Seq<u8> {
    match o {
        Some(s) => s,
        None => Seq::empty(),
    }
}

/// Canonical start of the audio-sample region: right after the ROM.
pub open spec fn spec_pcm_start(c: ContainerModel) -> int {
    48 + c.rom_data.len() as int
}

/// Canonical start of the audio-trailer region.
pub open spec fn spec_pcm_footer_start(c: ContainerModel) -> int {
    spec_pcm_start(c) + opt_len(c.pcm_data)
}

/// Canonical start of the footer region.
pub open spec fn spec_footer_start(c: ContainerModel) -> int {
    spec_pcm_footer_start(c) + opt_len(c.pcm_footer)
}

/// Canonical total size: footer start, the fixed footer, the tag table.
pub open spec fn spec_total_size(c: ContainerModel) -> int {
    spec_footer_start(c) + 35 + spec_tag_bytes(c.game_tags).len()
}

/// The header `write` emits: recomputed offsets, the magic constant,
/// zeroed reserved fields; the pass-through fields are kept.
pub open spec fn canonical_header(c: ContainerModel) -> HeaderModel {
    HeaderModel {
        magic: SFROM_MAGIC,
        file_size: spec_total_size(c) as u32,
        rom_location: 48,
        pcm_samples_location: spec_pcm_start(c) as u32,
        pcm_footer_location: spec_pcm_footer_start(c) as u32,
        footer_location: spec_footer_start(c) as u32,
        sdd1_data_offset: c.header.sdd1_data_offset,
        reserved1: 0,
        unknown1: c.header.unknown1,
        wiiu_game_id: c.header.wiiu_game_id,
        reserved2: 0,
    }
}

/// What `write` needs of a container: the audio pair is both-present or
/// both-absent, the length-prefixed tag payload fits its prefix, and the
/// total size fits the header's 32-bit size field.
pub open spec fn writable(c: ContainerModel) -> bool {
    &&& c.pcm_data is Some <==> c.pcm_footer is Some
    &&& tags_wf(c.game_tags)
    &&& spec_total_size(c) <= 0xffffffff
}

/// Shape facts every `Sfrom` value's model has by construction: the
/// platform identifier is 8 bytes and fixed tag payloads have their
/// fixed width.
pub open spec fn shape_ok(c: ContainerModel) -> bool {
    &&& c.header.wiiu_game_id.len() == 8
    &&& (c.game_tags.armet_threshold matches Some(a) ==> a.len() == 3)
}

pub open spec fn wf(c: ContainerModel) -> bool {
    writable(c) && shape_ok(c)
}

/// The bytes `write` produces: header with recomputed offsets, ROM,
/// audio pair if present, footer, tag table.
pub open spec fn spec_write(c: ContainerModel) -> Seq<u8> {
    spec_header_bytes(canonical_header(c)) + c.rom_data + opt_seq(c.pcm_data) + opt_seq(
        c.pcm_footer,
    ) + spec_footer_bytes(c.footer) + spec_tag_bytes(c.game_tags)
}

/// The container read from `b`, or the first structural error. The
/// audio-absence sentinel (`pcm_samples_location == footer_location`)
/// becomes an explicit `None` pair. Bytes after the tag table are
/// discarded, not an error.
pub open spec fn spec_parse(b: Seq<u8>) -> Result<ContainerModel, SfromError> {
    if b.len() < 48 {
        Err(SfromError::TruncatedHeader { offset: 0 })
    } else {
        let h = spec_parse_header(b);
        let has_audio = h.pcm_samples_location != h.footer_location;
        let rom_end = (if has_audio {
            h.pcm_samples_location
        } else {
            h.footer_location
        }) as int;
        if h.magic != SFROM_MAGIC {
            Err(SfromError::BadMagic { offset: 0 })
        } else if b.len() < rom_end {
            Err(SfromError::OutOfBounds { offset: rom_end as usize })
        } else if h.rom_location as int > rom_end {
            Err(SfromError::OutOfBounds { offset: h.rom_location as usize })
        } else if h.pcm_samples_location as int > b.len() {
            Err(SfromError::OutOfBounds { offset: h.pcm_samples_location as usize })
        } else if h.pcm_footer_location as int > b.len() {
            Err(SfromError::OutOfBounds { offset: h.pcm_footer_location as usize })
        } else if h.footer_location as int > b.len() {
            Err(SfromError::OutOfBounds { offset: h.footer_location as usize })
        } else if has_audio && !(h.pcm_samples_location <= h.pcm_footer_location
            && h.pcm_footer_location <= h.footer_location) {
            Err(SfromError::OutOfBounds { offset: h.pcm_footer_location as usize })
        } else if b.len() - h.footer_location < 35 {
            Err(SfromError::TruncatedFooter { offset: h.footer_location as usize })
        } else {
            let fo = h.footer_location as int;
            let f = spec_parse_footer(b.subrange(fo, b.len() as int));
            match spec_parse_tags(b.subrange(fo + 35, b.len() as int)) {
                Ok(tn) => Ok(
                    ContainerModel {
                        header: h,
                        rom_data: b.subrange(h.rom_location as int, rom_end),
                        pcm_data: if has_audio {
                            Some(
                                b.subrange(
                                    h.pcm_samples_location as int,
                                    h.pcm_footer_location as int,
                                ),
                            )
                        } else {
                            None
                        },
                        pcm_footer: if has_audio {
                            Some(b.subrange(h.pcm_footer_location as int, fo))
                        } else {
                            None
                        },
                        footer: f,
                        game_tags: tn.0,
                    },
                ),
                Err(e) => Err(SfromError::InvalidTagPayload { offset: (fo + 35 + e) as usize }),
            }
        }
    }
}

/// The five canonical region boundaries the layout planner computes.
#[derive(Clone, Copy, Debug, PartialEq, Eq, Structural)]
pub struct RegionLayout {
    pub rom_start: usize,
    pub pcm_samples_start: usize,
    pub pcm_footer_start: usize,
    pub footer_start: usize,
    pub total_size: usize,
}

/// Computes canonical start offsets and total size from the actual blob
/// lengths: the ROM starts right after the 48-byte header; the audio
/// regions follow it, or collapse onto its end when absent; the total is
/// the footer start plus the fixed footer plus the encoded tag table.
pub fn plan_layout(rom_len: usize, audio_lens: Option<(usize, usize)>, tag_len: usize) -> (r:
    RegionLayout)
    requires
        48 + rom_len + (match audio_lens {
            Some(p) => p.0 + p.1,
            None => 0int,
        }) + 35 + tag_len <= 0xffffffff,
    ensures
        r.rom_start == 48,
        r.pcm_samples_start == 48 + rom_len,
        r.pcm_footer_start == r.pcm_samples_start + (match audio_lens {
            Some(p) => p.0 as int,
            None => 0int,
        }),
        r.footer_start == r.pcm_footer_start + (match audio_lens {
            Some(p) => p.1 as int,
            None => 0int,
        }),
        r.total_size == r.footer_start + 35 + tag_len,
{
    let rom_start: usize = 48;
    let pcm_samples_start: usize = 48 + rom_len;
    let (pcm_footer_start, footer_start): (usize, usize) = match audio_lens {
        Some(p) => (pcm_samples_start + p.0, pcm_samples_start + p.0 + p.1),
        None => (pcm_samples_start, pcm_samples_start),
    };
    let total_size: usize = footer_start + 35 + tag_len;
    RegionLayout { rom_start, pcm_samples_start, pcm_footer_start, footer_start, total_size }
}

impl Sfrom {
    /// Parses a whole container from `buffer`: header, magic validation,
    /// region bounds checks, region slicing, footer, tag table.
    pub fn parse(input: &[u8]) -> (r: Result<Sfrom, SfromError>)
        ensures
            match r {
                Ok(c) => spec_parse(input@) == Ok::<ContainerModel, SfromError>(c@),
                Err(e) => spec_parse(input@) == Err::<ContainerModel, SfromError>(e),
            },
    {
        let n = input.len();
        let header = match SfromHeader::parse(input) {
            Ok(p) => p.0,
            Err(e) => {
                return Err(e);
            },
        };
        let has_audio = header.pcm_samples_location != header.footer_location;
        let rom_end: usize = if has_audio {
            header.pcm_samples_location as usize
        } else {
            header.footer_location as usize
        };
        if header.magic != SFROM_MAGIC {
            return Err(SfromError::BadMagic { offset: 0 });
        }
        if n < rom_end {
            return Err(SfromError::OutOfBounds { offset: rom_end });
        }
        let rom_start = header.rom_location as usize;
        if rom_start > rom_end {
            return Err(SfromError::OutOfBounds { offset: rom_start });
        }
        let pcm_start = header.pcm_samples_location as usize;
        if pcm_start > n {
            return Err(SfromError::OutOfBounds { offset: pcm_start });
        }
        let pcm_footer_start = header.pcm_footer_location as usize;
        if pcm_footer_start > n {
            return Err(SfromError::OutOfBounds { offset: pcm_footer_start });
        }
        let fo = header.footer_location as usize;
        if fo > n {
            return Err(SfromError::OutOfBounds { offset: fo });
        }
        if has_audio && !(pcm_start <= pcm_footer_start && pcm_footer_start <= fo) {
            return Err(SfromError::OutOfBounds { offset: pcm_footer_start });
        }
        if n - fo < 35 {
            return Err(SfromError::TruncatedFooter { offset: fo });
        }
        let rom_data = slice_to_vec(slice_subrange(input, rom_start, rom_end));
        let (pcm_data, pcm_footer) = if has_audio {
            (
                Some(slice_to_vec(slice_subrange(input, pcm_start, pcm_footer_start))),
                Some(slice_to_vec(slice_subrange(input, pcm_footer_start, fo))),
            )
        } else {
            (None, None)
        };
        let footer = match SfromFooter::parse(slice_subrange(input, fo, n)) {
            Ok(p) => p.0,
            Err(e) => {
                return Err(e);
            },
        };
        let game_tags = match GameTagData::parse(slice_subrange(input, fo + 35, n)) {
            Ok(p) => p.0,
            Err(e) => {
                let off = e.offset();
                return Err(SfromError::InvalidTagPayload { offset: fo + 35 + off });
            },
        };
        let c = Sfrom { header, rom_data, pcm_data, pcm_footer, footer, game_tags };
        Ok(c)
    }

    /// Serializes the container into canonical bytes: the layout planner
    /// recomputes all offsets from the actual blob sizes, so the output is
    /// canonical whatever offsets the input header carried. The input is
    /// not mutated.
    pub fn write(&self) -> (out: Vec<u8>)
        requires
            writable(self@),
        ensures
            out@ == spec_write(self@),
            out@.len() == spec_total_size(self@),
    {
        let tag_bytes = self.game_tags.encode();
        let audio_lens: Option<(usize, usize)> = match (&self.pcm_data, &self.pcm_footer) {
            (Some(p), Some(f)) => Some((p.len(), f.len())),
            _ => None,
        };
        let layout = plan_layout(self.rom_data.len(), audio_lens, tag_bytes.len());
        let header = SfromHeader {
            magic: SFROM_MAGIC,
            file_size: layout.total_size as u32,
            rom_location: layout.rom_start as u32,
            pcm_samples_location: layout.pcm_samples_start as u32,
            pcm_footer_location: layout.pcm_footer_start as u32,
            footer_location: layout.footer_start as u32,
            sdd1_data_offset: self.header.sdd1_data_offset,
            reserved1: 0,
            unknown1: self.header.unknown1,
            wiiu_game_id: self.header.wiiu_game_id,
            reserved2: 0,
        };
        proof {
            assert(header@ == canonical_header(self@));
        }
        let mut out = header.encode();
        push_bytes(&mut out, self.rom_data.as_slice());
        if let (Some(pcm), Some(pcm_f)) = (&self.pcm_data, &self.pcm_footer) {
            push_bytes(&mut out, pcm.as_slice());
            push_bytes(&mut out, pcm_f.as_slice());
        }
        let footer_bytes = self.footer.encode();
        push_bytes(&mut out, footer_bytes.as_slice());
        self.write_game_tags(&mut out);
        proof {
            crate::header::lemma_header_bytes_len(canonical_header(self@));
            assert(out@ =~= spec_write(self@));
        }
        out
    }

    /// Appends the encoded tag table to `out`, in the canonical catalog
    /// order, each present tag as its code byte followed by its payload.
    pub fn write_game_tags(&self, out: &mut Vec<u8>)
        requires
            tags_wf(self@.game_tags),
        ensures
            final(out)@ == old(out)@ + spec_tag_bytes(self@.game_tags),
    {
        let t = self.game_tags.encode();
        push_bytes(out, t.as_slice());
    }
}

/// Decodes a header, a footer right after it, and then the tag table: the
/// layout of a container whose ROM and audio regions are empty.
pub fn parse_sfrom(input: &[u8]) -> (r: Result<
    ((SfromHeader, SfromFooter, GameTagData), usize),
    SfromError,
>)
    ensures
        match r {
            Ok(((h, f, t), n)) => {
                &&& input@.len() >= 83
                &&& h@ == spec_parse_header(input@)
                &&& f == spec_parse_footer(input@.skip(48))
                &&& spec_parse_tags(input@.skip(83)) == Ok::<(TagsModel, int), int>(
                    (t@, n - 83),
                )
            },
            Err(e) => match e {
                SfromError::TruncatedHeader { offset } => input@.len() < 48 && offset == 0,
                SfromError::TruncatedFooter { offset } => {
                    &&& input@.len() >= 48
                    &&& input@.len() < 83
                    &&& offset == 48
                },
                SfromError::InvalidTagPayload { offset } => {
                    &&& input@.len() >= 83
                    &&& spec_parse_tags(input@.skip(83)) is Err
                    &&& offset == 83 + spec_parse_tags(input@.skip(83))->Err_0
                },
                _ => false,
            },
        },
{
    let n = input.len();
    let header = match SfromHeader::parse(input) {
        Ok(p) => p.0,
        Err(e) => {
            return Err(e);
        },
    };
    let footer = match SfromFooter::parse(slice_subrange(input, 48, n)) {
        Ok(p) => p.0,
        Err(_) => {
            return Err(SfromError::TruncatedFooter { offset: 48 });
        },
    };
    proof {
        assert(input@.subrange(48, n as int) =~= input@.skip(48));
        assert(input@.subrange(83, n as int) =~= input@.skip(83));
    }
    match GameTagData::parse(slice_subrange(input, 83, n)) {
        Ok(p) => {
            let consumed = 83 + p.1;
            Ok(((header, footer, p.0), consumed))
        },
        Err(e) => {
            let off = e.offset();
            Err(SfromError::InvalidTagPayload { offset: 83 + off })
        },
    }
}

} // verus!
