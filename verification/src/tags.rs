//! Codec for the tag table: a self-terminating sequence of records, each
//! a single ASCII code byte followed by a payload of that tag's fixed
//! shape. Decoding stops without error at the first unrecognized byte; the
//! remainder is left unconsumed. Encoding walks the catalog in one fixed
//! canonical order, independent of how the table was populated.
//!
//! Three tags have a confirmed payload shape: the Armet threshold (three
//! raw bytes), the embedded compression-codec payload (a 3-byte
//! little-endian length prefix, then that many bytes), and the preset
//! identifier (three reserved bytes, then a 16-bit value). The remaining
//! catalog codes are named extension points without a confirmed shape:
//! they are never decoded and never encoded.

use vstd::prelude::*;

verus! {

use vstd::bytes::{
    spec_u16_from_le_bytes, spec_u16_to_le_bytes, lemma_auto_spec_u16_to_from_le_bytes,
};
use vstd::slice::{slice_subrange, slice_to_vec};
use crate::bytes::{
    spec_u24_from_le_bytes, spec_u24_to_le_bytes, lemma_u24_roundtrip, read_u16_at, read_u24_at,
    push_u16_le, push_u24_le, push_bytes,
};
use crate::error::SfromError;

/// Code byte of the Armet threshold tag.
pub const TAG_ARMET_THRESHOLD: u8 = 65;

/// Code byte of the embedded compression-codec payload tag.
pub const TAG_SDD1_DATA: u8 = 68;

/// Code byte of the preset identifier tag.
pub const TAG_PRESET_ID: u8 = 71;

/// Longest payload a length-prefixed tag can declare.
pub const MAX_PREFIXED_PAYLOAD: usize = 0xffffff;

/// The tag table: each known code appears at most once; absence is an
/// explicit `None`, never a zero-length sentinel.
#[derive(Clone, Debug, PartialEq)]
pub struct GameTagData {
    /// Threshold for Armet, the epilepsy reduction filter.
    pub armet_threshold: Option<[u8; 3]>,
    pub sdd1_data: Option<Vec<u8>>,
    pub preset_id: Option<u16>,
    pub flags: Option<[u8; 7]>,
    pub unknown_s: Option<[u8; 3]>,
    pub superfx_clock: Option<u16>,
    pub armet_version: Option<u8>,
    pub snes_header_location: Option<u8>,
    pub unknown_d: Option<u8>,
    pub enhancement_chip: Option<u8>,
    pub resolution_ratio: Option<u8>,
    pub unknown_j: Option<u8>,
    pub mouse_flag: Option<u8>,
    pub max_players: Option<u8>,
    pub visible_height: Option<u8>,
    pub unknown_t: Option<u8>,
    pub volume: Option<u8>,
}

/// Mathematical model of a tag table, with byte blobs as sequences.
pub ghost struct TagsModel {
    pub armet_threshold: Option<Seq<u8>>,
    pub sdd1_data: Option<Seq<u8>>,
    pub preset_id: Option<u16>,
    pub flags: Option<Seq<u8>>,
    pub unknown_s: Option<Seq<u8>>,
    pub superfx_clock: Option<u16>,
    pub armet_version: Option<u8>,
    pub snes_header_location: Option<u8>,
    pub unknown_d: Option<u8>,
    pub enhancement_chip: Option<u8>,
    pub resolution_ratio: Option<u8>,
    pub unknown_j: Option<u8>,
    pub mouse_flag: Option<u8>,
    pub max_players: Option<u8>,
    pub visible_height: Option<u8>,
    pub unknown_t: Option<u8>,
    pub volume: Option<u8>,
}

impl View for GameTagData {
    type V = TagsModel;

    open spec fn view(&self) -> TagsModel {
        TagsModel {
            armet_threshold: match self.armet_threshold {
                Some(a) => Some(a@),
                None => None,
            },
            sdd1_data: match self.sdd1_data {
                Some(d) => Some(d@),
                None => None,
            },
            preset_id: self.preset_id,
            flags: match self.flags {
                Some(p) => Some(p@),
                None => None,
            },
            unknown_s: match self.unknown_s {
                Some(s) => Some(s@),
                None => None,
            },
            superfx_clock: self.superfx_clock,
            armet_version: self.armet_version,
            snes_header_location: self.snes_header_location,
            unknown_d: self.unknown_d,
            enhancement_chip: self.enhancement_chip,
            resolution_ratio: self.resolution_ratio,
            unknown_j: self.unknown_j,
            mouse_flag: self.mouse_flag,
            max_players: self.max_players,
            visible_height: self.visible_height,
            unknown_t: self.unknown_t,
            volume: self.volume,
        }
    }
}

/// The table with every tag absent.
pub open spec fn spec_empty_tags() -> TagsModel {
    TagsModel {
        armet_threshold: None,
        sdd1_data: None,
        preset_id: None,
        flags: None,
        unknown_s: None,
        superfx_clock: None,
        armet_version: None,
        snes_header_location: None,
        unknown_d: None,
        enhancement_chip: None,
        resolution_ratio: None,
        unknown_j: None,
        mouse_flag: None,
        max_players: None,
        visible_height: None,
        unknown_t: None,
        volume: None,
    }
}

/// Only payload shapes that fit the wire format: a length-prefixed payload
/// cannot declare more than `MAX_PREFIXED_PAYLOAD` bytes.
pub open spec fn tags_wf(t: TagsModel) -> bool {
    t.sdd1_data matches Some(d) ==> d.len() <= 0xffffff
}

/// Shape every table held in a `GameTagData` has: fixed payloads have
/// their fixed width, and the length-prefixed payload fits its prefix.
pub open spec fn tags_shape_ok(t: TagsModel) -> bool {
    &&& (t.armet_threshold matches Some(a) ==> a.len() == 3)
    &&& tags_wf(t)
}

/// The bytes a table encodes to, in the canonical catalog order: Armet
/// threshold, then compression-codec payload, then preset identifier.
pub open spec fn spec_tag_bytes(t: TagsModel) -> Seq<u8> {
    (match t.armet_threshold {
        Some(a) => seq![TAG_ARMET_THRESHOLD] + a,
        None => Seq::empty(),
    }) + (match t.sdd1_data {
        Some(d) => seq![TAG_SDD1_DATA] + spec_u24_to_le_bytes(d.len() as u32) + d,
        None => Seq::empty(),
    }) + (match t.preset_id {
        Some(g) => seq![TAG_PRESET_ID, 0u8, 0u8, 0u8] + spec_u16_to_le_bytes(g),
        None => Seq::empty(),
    })
}

/// Decoding result: the table read and the count of bytes consumed, or
/// the position (relative to the start of the table) of a tag whose
/// payload is truncated or over-long.
pub open spec fn spec_parse_tags(b: Seq<u8>) -> Result<(TagsModel, int), int>
    decreases b.len(),
{
    if b.len() == 0 {
        Ok((spec_empty_tags(), 0))
    } else if b[0] == TAG_ARMET_THRESHOLD {
        if b.len() < 4 {
            Err(0)
        } else {
            match spec_parse_tags(b.skip(4)) {
                Ok(tn) => Ok((merge_armet(tn.0, b.subrange(1, 4)), tn.1 + 4)),
                Err(e) => Err(4 + e),
            }
        }
    } else if b[0] == TAG_SDD1_DATA {
        if b.len() < 4 {
            Err(0)
        } else {
            let len = spec_u24_from_le_bytes(b.subrange(1, 4)) as int;
            if b.len() < 4 + len {
                Err(0)
            } else {
                match spec_parse_tags(b.skip(4 + len)) {
                    Ok(tn) => Ok((merge_sdd1(tn.0, b.subrange(4, 4 + len)), tn.1 + 4 + len)),
                    Err(e) => Err(4 + len + e),
                }
            }
        }
    } else if b[0] == TAG_PRESET_ID {
        if b.len() < 6 {
            Err(0)
        } else {
            match spec_parse_tags(b.skip(6)) {
                Ok(tn) => Ok(
                    (merge_preset(tn.0, spec_u16_from_le_bytes(b.subrange(4, 6))), tn.1 + 6),
                ),
                Err(e) => Err(6 + e),
            }
        }
    } else {
        Ok((spec_empty_tags(), 0))
    }
}

/// A record seen earlier in the buffer yields to a later record with the
/// same code, so a value merges in only where the rest of the table left
/// the field unset.
pub open spec fn merge_armet(t: TagsModel, v: Seq<u8>) -> TagsModel {
    if t.armet_threshold is None {
        TagsModel { armet_threshold: Some(v), ..t }
    } else {
        t
    }
}

pub open spec fn merge_sdd1(t: TagsModel, v: Seq<u8>) -> TagsModel {
    if t.sdd1_data is None {
        TagsModel { sdd1_data: Some(v), ..t }
    } else {
        t
    }
}

pub open spec fn merge_preset(t: TagsModel, v: u16) -> TagsModel {
    if t.preset_id is None {
        TagsModel { preset_id: Some(v), ..t }
    } else {
        t
    }
}

/// The table read from a prefix already consumed (`a`) combined with the
/// table read from the rest (`t`): the rest, being later, wins.
pub open spec fn spec_merge_tags(a: TagsModel, t: TagsModel) -> TagsModel {
    TagsModel {
        armet_threshold: if t.armet_threshold is Some {
            t.armet_threshold
        } else {
            a.armet_threshold
        },
        sdd1_data: if t.sdd1_data is Some {
            t.sdd1_data
        } else {
            a.sdd1_data
        },
        preset_id: if t.preset_id is Some {
            t.preset_id
        } else {
            a.preset_id
        },
        flags: if t.flags is Some {
            t.flags
        } else {
            a.flags
        },
        unknown_s: if t.unknown_s is Some {
            t.unknown_s
        } else {
            a.unknown_s
        },
        superfx_clock: if t.superfx_clock is Some {
            t.superfx_clock
        } else {
            a.superfx_clock
        },
        armet_version: if t.armet_version is Some {
            t.armet_version
        } else {
            a.armet_version
        },
        snes_header_location: if t.snes_header_location is Some {
            t.snes_header_location
        } else {
            a.snes_header_location
        },
        unknown_d: if t.unknown_d is Some {
            t.unknown_d
        } else {
            a.unknown_d
        },
        enhancement_chip: if t.enhancement_chip is Some {
            t.enhancement_chip
        } else {
            a.enhancement_chip
        },
        resolution_ratio: if t.resolution_ratio is Some {
            t.resolution_ratio
        } else {
            a.resolution_ratio
        },
        unknown_j: if t.unknown_j is Some {
            t.unknown_j
        } else {
            a.unknown_j
        },
        mouse_flag: if t.mouse_flag is Some {
            t.mouse_flag
        } else {
            a.mouse_flag
        },
        max_players: if t.max_players is Some {
            t.max_players
        } else {
            a.max_players
        },
        visible_height: if t.visible_height is Some {
            t.visible_height
        } else {
            a.visible_height
        },
        unknown_t: if t.unknown_t is Some {
            t.unknown_t
        } else {
            a.unknown_t
        },
        volume: if t.volume is Some {
            t.volume
        } else {
            a.volume
        },
    }
}

impl GameTagData {
    /// The table with every tag absent.
    pub fn new() -> (r: GameTagData)
        ensures
            r@ == spec_empty_tags(),
    {
        GameTagData {
            armet_threshold: None,
            sdd1_data: None,
            preset_id: None,
            flags: None,
            unknown_s: None,
            superfx_clock: None,
            armet_version: None,
            snes_header_location: None,
            unknown_d: None,
            enhancement_chip: None,
            resolution_ratio: None,
            unknown_j: None,
            mouse_flag: None,
            max_players: None,
            visible_height: None,
            unknown_t: None,
            volume: None,
        }
    }

    /// Decodes records from the front of `input` until end of buffer or an
    /// unrecognized code byte, which ends the table without error; returns
    /// the table and the count of bytes consumed. Fails only on a record
    /// whose payload is truncated or declares a length exceeding the
    /// remaining buffer.
    pub fn parse(input: &[u8]) -> (r: Result<(GameTagData, usize), SfromError>)
        ensures
            match r {
                Ok((t, n)) => {
                    &&& spec_parse_tags(input@) == Ok::<(TagsModel, int), int>((t@, n as int))
                    &&& n <= input@.len()
                },
                Err(e) => {
                    &&& spec_parse_tags(input@) is Err
                    &&& 0 <= spec_parse_tags(input@)->Err_0 <= input@.len()
                    &&& e == (SfromError::InvalidTagPayload {
                        offset: spec_parse_tags(input@)->Err_0 as usize,
                    })
                },
            },
    {
        let n = input.len();
        let mut acc = GameTagData::new();
        let mut pos: usize = 0;
        proof {
            assert(input@.skip(0) =~= input@);
            assert(forall|t: TagsModel| #[trigger] spec_merge_tags(spec_empty_tags(), t) == t);
        }
        while pos < n
            invariant
                pos <= n,
                n == input@.len(),
                spec_parse_tags(input@) == (match spec_parse_tags(input@.skip(pos as int)) {
                    Ok(tn) => Ok::<(TagsModel, int), int>(
                        (spec_merge_tags(acc@, tn.0), pos + tn.1),
                    ),
                    Err(e) => Err::<(TagsModel, int), int>(pos + e),
                }),
            decreases n - pos,
        {
            let ghost prefix_acc = acc@;
            let ghost rest = input@.skip(pos as int);
            let c = input[pos];
            proof {
                assert(rest[0] == input@[pos as int]);
                assert(rest.len() == n - pos);
            }
            if c == TAG_ARMET_THRESHOLD {
                if n - pos < 4 {
                    return Err(SfromError::InvalidTagPayload { offset: pos });
                }
                let v: [u8; 3] = [input[pos + 1], input[pos + 2], input[pos + 3]];
                acc.armet_threshold = Some(v);
                proof {
                    assert(rest.subrange(1, 4) =~= v@);
                    assert(rest.skip(4) =~= input@.skip(pos + 4));
                    lemma_merge_step_armet(prefix_acc, v@);
                }
                pos = pos + 4;
            } else if c == TAG_SDD1_DATA {
                if n - pos < 4 {
                    return Err(SfromError::InvalidTagPayload { offset: pos });
                }
                let len = read_u24_at(input, pos + 1) as usize;
                proof {
                    assert(rest.subrange(1, 4) =~= input@.subrange(pos + 1, pos + 4));
                }
                if n - pos - 4 < len {
                    return Err(SfromError::InvalidTagPayload { offset: pos });
                }
                let v = slice_to_vec(slice_subrange(input, pos + 4, pos + 4 + len));
                acc.sdd1_data = Some(v);
                proof {
                    assert(rest.subrange(4, 4 + len as int) =~= input@.subrange(
                        pos + 4,
                        pos + 4 + len,
                    ));
                    assert(rest.skip(4 + len as int) =~= input@.skip(pos + 4 + len));
                    lemma_merge_step_sdd1(prefix_acc, input@.subrange(pos + 4, pos + 4 + len));
                }
                pos = pos + 4 + len;
            } else if c == TAG_PRESET_ID {
                if n - pos < 6 {
                    return Err(SfromError::InvalidTagPayload { offset: pos });
                }
                let g = read_u16_at(input, pos + 4);
                acc.preset_id = Some(g);
                proof {
                    assert(rest.subrange(4, 6) =~= input@.subrange(pos + 4, pos + 6));
                    assert(rest.skip(6) =~= input@.skip(pos + 6));
                    lemma_merge_step_preset(prefix_acc, g);
                }
                pos = pos + 6;
            } else {
                proof {
                    assert(spec_parse_tags(rest) == Ok::<(TagsModel, int), int>(
                        (spec_empty_tags(), 0int),
                    ));
                    lemma_merge_empty_right(acc@);
                }
                return Ok((acc, pos));
            }
        }
        proof {
            assert(input@.skip(pos as int).len() == 0);
            assert(spec_parse_tags(input@.skip(pos as int)) == Ok::<(TagsModel, int), int>(
                (spec_empty_tags(), 0int),
            ));
            lemma_merge_empty_right(acc@);
        }
        Ok((acc, pos))
    }

    /// Encodes the table: for each present tag, in the canonical catalog
    /// order, its code byte followed by its payload in that tag's shape.
    pub fn encode(&self) -> (out: Vec<u8>)
        requires
            tags_wf(self@),
        ensures
            out@ == spec_tag_bytes(self@),
    {
        let mut out: Vec<u8> = Vec::new();
        if let Some(a) = &self.armet_threshold {
            out.push(TAG_ARMET_THRESHOLD);
            push_bytes(&mut out, a.as_slice());
        }
        if let Some(d) = &self.sdd1_data {
            out.push(TAG_SDD1_DATA);
            push_u24_le(&mut out, d.len() as u32);
            push_bytes(&mut out, d.as_slice());
        }
        if let Some(g) = &self.preset_id {
            out.push(TAG_PRESET_ID);
            out.push(0u8);
            out.push(0u8);
            out.push(0u8);
            push_u16_le(&mut out, *g);
        }
        proof {
            lemma_auto_spec_u16_to_from_le_bytes();
            assert(out@ =~= spec_tag_bytes(self@));
        }
        out
    }
}

proof fn lemma_merge_step_armet(a: TagsModel, v: Seq<u8>)
    ensures
        forall|t: TagsModel| #[trigger] spec_merge_tags(a, merge_armet(t, v)) == spec_merge_tags(
            TagsModel { armet_threshold: Some(v), ..a },
            t,
        ),
{
}

proof fn lemma_merge_step_sdd1(a: TagsModel, v: Seq<u8>)
    ensures
        forall|t: TagsModel| #[trigger] spec_merge_tags(a, merge_sdd1(t, v)) == spec_merge_tags(
            TagsModel { sdd1_data: Some(v), ..a },
            t,
        ),
{
}

proof fn lemma_merge_step_preset(a: TagsModel, v: u16)
    ensures
        forall|t: TagsModel| #[trigger] spec_merge_tags(a, merge_preset(t, v)) == spec_merge_tags(
            TagsModel { preset_id: Some(v), ..a },
            t,
        ),
{
}

proof fn lemma_merge_empty_right(a: TagsModel)
    ensures
        spec_merge_tags(a, spec_empty_tags()) == a,
{
}

/// The restriction of a table to the three tags with a confirmed shape:
/// what survives one encode/decode cycle.
pub open spec fn canonical_tags_of(t: TagsModel) -> TagsModel {
    TagsModel {
        armet_threshold: t.armet_threshold,
        sdd1_data: t.sdd1_data,
        preset_id: t.preset_id,
        ..spec_empty_tags()
    }
}

proof fn lemma_parse_g_seg(t: TagsModel)
    ensures
        spec_parse_tags(
            match t.preset_id {
                Some(g) => seq![TAG_PRESET_ID, 0u8, 0u8, 0u8] + spec_u16_to_le_bytes(g),
                None => Seq::empty(),
            },
        ) == Ok::<(TagsModel, int), int>(
            (
                TagsModel { preset_id: t.preset_id, ..spec_empty_tags() },
                match t.preset_id {
                    Some(g) => 6int,
                    None => 0int,
                },
            ),
        ),
{
    lemma_auto_spec_u16_to_from_le_bytes();
    match t.preset_id {
        Some(g) => {
            let b = seq![TAG_PRESET_ID, 0u8, 0u8, 0u8] + spec_u16_to_le_bytes(g);
            assert(b.len() == 6);
            assert(b[0] == TAG_PRESET_ID);
            assert(b.skip(6) =~= Seq::<u8>::empty());
            assert(spec_parse_tags(Seq::<u8>::empty()) == Ok::<(TagsModel, int), int>(
                (spec_empty_tags(), 0int),
            ));
            assert(b.subrange(4, 6) =~= spec_u16_to_le_bytes(g));
            assert(spec_u16_from_le_bytes(b.subrange(4, 6)) == g);
            assert(spec_parse_tags(b) == Ok::<(TagsModel, int), int>(
                (merge_preset(spec_empty_tags(), g), 6int),
            ));
        },
        None => {},
    }
}

proof fn lemma_parse_dg_seg(t: TagsModel)
    requires
        t.sdd1_data matches Some(d) ==> d.len() <= 0xffffff,
    ensures
        spec_parse_tags(
            (match t.sdd1_data {
                Some(d) => seq![TAG_SDD1_DATA] + spec_u24_to_le_bytes(d.len() as u32) + d,
                None => Seq::empty(),
            }) + (match t.preset_id {
                Some(g) => seq![TAG_PRESET_ID, 0u8, 0u8, 0u8] + spec_u16_to_le_bytes(g),
                None => Seq::empty(),
            }),
        ) == Ok::<(TagsModel, int), int>(
            (
                TagsModel { sdd1_data: t.sdd1_data, preset_id: t.preset_id, ..spec_empty_tags() },
                (match t.sdd1_data {
                    Some(d) => 4 + d.len() as int,
                    None => 0int,
                }) + (match t.preset_id {
                    Some(g) => 6int,
                    None => 0int,
                }),
            ),
        ),
{
    lemma_auto_spec_u16_to_from_le_bytes();
    lemma_parse_g_seg(t);
    let segg = match t.preset_id {
        Some(g) => seq![TAG_PRESET_ID, 0u8, 0u8, 0u8] + spec_u16_to_le_bytes(g),
        None => Seq::<u8>::empty(),
    };
    match t.sdd1_data {
        Some(d) => {
            lemma_u24_roundtrip(d.len() as u32);
            let segd = seq![TAG_SDD1_DATA] + spec_u24_to_le_bytes(d.len() as u32) + d;
            let b = segd + segg;
            assert(b.len() == 4 + d.len() + segg.len());
            assert(b[0] == TAG_SDD1_DATA);
            assert(b.subrange(1, 4) =~= spec_u24_to_le_bytes(d.len() as u32));
            assert(spec_u24_from_le_bytes(b.subrange(1, 4)) as int == d.len());
            assert(b.subrange(4, 4 + d.len() as int) =~= d);
            assert(b.skip(4 + d.len() as int) =~= segg);
        },
        None => {
            assert(Seq::<u8>::empty() + segg =~= segg);
        },
    }
}

/// A buffer that opens with a byte that is no known tag code decodes to
/// the empty table with nothing consumed, whatever follows: an
/// unrecognized record ends the table, it is not an error.
pub proof fn lemma_unknown_tag_ends_table(b: Seq<u8>)
    requires
        b.len() > 0,
        b[0] != TAG_ARMET_THRESHOLD,
        b[0] != TAG_SDD1_DATA,
        b[0] != TAG_PRESET_ID,
    ensures
        spec_parse_tags(b) == Ok::<(TagsModel, int), int>((spec_empty_tags(), 0)),
{
}

/// Decoding the bytes an encode produced gives back the table, restricted
/// to the three tags with a confirmed shape, and consumes them all.
pub proof fn lemma_tags_roundtrip(t: TagsModel)
    requires
        tags_shape_ok(t),
    ensures
        spec_parse_tags(spec_tag_bytes(t)) == Ok::<(TagsModel, int), int>(
            (canonical_tags_of(t), spec_tag_bytes(t).len() as int),
        ),
{
    lemma_auto_spec_u16_to_from_le_bytes();
    lemma_parse_dg_seg(t);
    let segd = match t.sdd1_data {
        Some(d) => seq![TAG_SDD1_DATA] + spec_u24_to_le_bytes(d.len() as u32) + d,
        None => Seq::<u8>::empty(),
    };
    let segg = match t.preset_id {
        Some(g) => seq![TAG_PRESET_ID, 0u8, 0u8, 0u8] + spec_u16_to_le_bytes(g),
        None => Seq::<u8>::empty(),
    };
    match t.armet_threshold {
        Some(a) => {
            let sega = seq![TAG_ARMET_THRESHOLD] + a;
            let b = spec_tag_bytes(t);
            assert(b =~= sega + (segd + segg));
            assert(b[0] == TAG_ARMET_THRESHOLD);
            assert(b.len() == 4 + segd.len() + segg.len());
            assert(b.subrange(1, 4) =~= a);
            assert(b.skip(4) =~= segd + segg);
        },
        None => {
            assert(spec_tag_bytes(t) =~= segd + segg);
        },
    }
}

} // verus!
