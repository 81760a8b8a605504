//! The codec's round-trip laws, proved over the container model: writing
//! always yields a buffer that parses back, parsing it gives the
//! canonicalized container, canonicalization is idempotent, and the
//! no-audio sentinel survives a round trip.

use vstd::prelude::*;

verus! {

use crate::container::{
    ContainerModel, spec_parse, spec_write, spec_total_size, spec_pcm_start, spec_pcm_footer_start,
    spec_footer_start, canonical_header, wf, opt_len, opt_seq,
};
use crate::header::{spec_header_bytes, spec_parse_header, lemma_header_bytes_len,
    lemma_header_roundtrip};
use crate::footer::{spec_footer_bytes, lemma_footer_bytes_len, lemma_footer_roundtrip};
use crate::tags::{spec_tag_bytes, canonical_tags_of, lemma_tags_roundtrip};
use crate::error::SfromError;

/// An audio pair whose two blobs are both empty is indistinguishable on
/// the wire from an absent pair: the sample and footer offsets coincide,
/// which is exactly the no-audio sentinel. Canonicalization makes the
/// absence explicit.
pub open spec fn collapse_empty_audio(c: ContainerModel) -> ContainerModel {
    if c.pcm_data is Some && opt_len(c.pcm_data) + opt_len(c.pcm_footer) == 0 {
        ContainerModel { pcm_data: None, pcm_footer: None, ..c }
    } else {
        c
    }
}

/// The container that parsing a written container yields: empty audio
/// pairs collapse to absence, the header carries the recomputed offsets,
/// and only the tags with a confirmed shape survive.
pub open spec fn spec_canonicalize(c: ContainerModel) -> ContainerModel {
    let c1 = collapse_empty_audio(c);
    ContainerModel {
        header: canonical_header(c1),
        rom_data: c1.rom_data,
        pcm_data: c1.pcm_data,
        pcm_footer: c1.pcm_footer,
        footer: c1.footer,
        game_tags: canonical_tags_of(c1.game_tags),
    }
}

/// A container in the image of `parse . write`: its header offsets,
/// reserved fields and tag table are exactly what a write produces.
pub open spec fn canonical(c: ContainerModel) -> bool {
    wf(c) && c == spec_canonicalize(c)
}

/// Writing a well-formed container yields a buffer that parses without
/// error, to the canonicalized container.
pub proof fn lemma_write_parses(c: ContainerModel)
    requires
        wf(c),
    ensures
        spec_parse(spec_write(c)) == Ok::<ContainerModel, SfromError>(spec_canonicalize(c)),
{
    let hc = canonical_header(c);
    let rom = c.rom_data;
    let pcm = opt_seq(c.pcm_data);
    let pcmf = opt_seq(c.pcm_footer);
    let fb = spec_footer_bytes(c.footer);
    let tb = spec_tag_bytes(c.game_tags);
    let b = spec_write(c);
    lemma_header_bytes_len(hc);
    lemma_footer_bytes_len(c.footer);
    let rest = rom + pcm + pcmf + fb + tb;
    assert(b =~= spec_header_bytes(hc) + rest);
    lemma_header_roundtrip(hc, rest);
    assert(spec_parse_header(b) == hc);
    assert(b.len() == spec_total_size(c));

    let pcm_start = spec_pcm_start(c);
    let pcmf_start = spec_pcm_footer_start(c);
    let fo = spec_footer_start(c);
    assert(hc.pcm_samples_location as int == pcm_start);
    assert(hc.pcm_footer_location as int == pcmf_start);
    assert(hc.footer_location as int == fo);
    assert(hc.file_size as int == spec_total_size(c));

    let has_audio = hc.pcm_samples_location != hc.footer_location;
    assert(has_audio <==> pcm.len() + pcmf.len() > 0);

    let rom_end: int = if has_audio {
        pcm_start
    } else {
        fo
    };
    assert(b.subrange(48, rom_end) =~= rom);
    if has_audio {
        assert(b.subrange(pcm_start, pcmf_start) =~= pcm);
        assert(b.subrange(pcmf_start, fo) =~= pcmf);
    }
    assert(b.subrange(fo, b.len() as int) =~= fb + tb);
    lemma_footer_roundtrip(c.footer, tb);
    assert(b.subrange(fo + 35, b.len() as int) =~= tb);
    lemma_tags_roundtrip(c.game_tags);

    let parsed = spec_parse(b);
    let expected = spec_canonicalize(c);
    assert(expected.header == hc);
    assert(parsed is Ok);
    assert(parsed->Ok_0 == expected);
}

/// Canonicalization is idempotent, and preserves well-formedness; a
/// canonicalized container is canonical.
pub proof fn lemma_canonicalize_idempotent(c: ContainerModel)
    requires
        wf(c),
    ensures
        canonical(spec_canonicalize(c)),
        spec_total_size(spec_canonicalize(c)) == spec_total_size(c),
{
    let c1 = collapse_empty_audio(c);
    let cc = spec_canonicalize(c);
    assert(spec_tag_bytes(canonical_tags_of(c.game_tags)) == spec_tag_bytes(c.game_tags));
    assert(spec_total_size(cc) == spec_total_size(c));
    assert(wf(cc));
    assert(collapse_empty_audio(cc) == cc);
    assert(spec_canonicalize(cc) == cc);
}

/// Full round-trip fidelity for self-produced output: parsing what
/// `write` produced gives back the container, whenever the container is
/// canonical, as every container a parse produced is.
pub proof fn lemma_parse_write_identity(c: ContainerModel)
    requires
        canonical(c),
    ensures
        spec_parse(spec_write(c)) == Ok::<ContainerModel, SfromError>(c),
{
    lemma_write_parses(c);
}

/// One write-then-parse pass canonicalizes; a second pass is the
/// identity: `parse(write(parse(write(c)))) == parse(write(c))` for every
/// well-formed container, whether or not its tag order or header offsets
/// were canonical.
pub proof fn lemma_reencode_stable(c: ContainerModel)
    requires
        wf(c),
    ensures
        spec_parse(spec_write(c)) == Ok::<ContainerModel, SfromError>(spec_canonicalize(c)),
        spec_parse(spec_write(spec_canonicalize(c))) == Ok::<ContainerModel, SfromError>(
            spec_canonicalize(c),
        ),
{
    lemma_write_parses(c);
    lemma_canonicalize_idempotent(c);
    lemma_parse_write_identity(spec_canonicalize(c));
}

/// Parse side of the no-audio sentinel: when the header's audio-sample
/// offset equals its footer offset, the parsed container has no audio
/// pair.
pub proof fn lemma_sentinel_parse(b: Seq<u8>)
    requires
        spec_parse(b) is Ok,
        spec_parse_header(b).pcm_samples_location == spec_parse_header(b).footer_location,
    ensures
        spec_parse(b)->Ok_0.pcm_data is None,
        spec_parse(b)->Ok_0.pcm_footer is None,
{
}

/// Write side of the no-audio sentinel: writing a container without an
/// audio pair reproduces the sentinel in the emitted header.
pub proof fn lemma_sentinel_write(c: ContainerModel)
    requires
        wf(c),
        c.pcm_data is None,
    ensures
        spec_parse_header(spec_write(c)).pcm_samples_location == spec_parse_header(
            spec_write(c),
        ).footer_location,
{
    let hc = canonical_header(c);
    lemma_header_bytes_len(hc);
    let rest = c.rom_data + opt_seq(c.pcm_data) + opt_seq(c.pcm_footer) + spec_footer_bytes(
        c.footer,
    ) + spec_tag_bytes(c.game_tags);
    assert(spec_write(c) =~= spec_header_bytes(hc) + rest);
    lemma_header_roundtrip(hc, rest);
}

/// A buffer shorter than the 48-byte header cannot hold a container.
pub proof fn lemma_short_buffer_is_truncated_header(b: Seq<u8>)
    requires
        b.len() < 48,
    ensures
        spec_parse(b) == Err::<ContainerModel, SfromError>(
            SfromError::TruncatedHeader { offset: 0 },
        ),
{
}

/// A header whose declared footer offset exceeds the buffer length is
/// rejected as out of bounds, whichever region check trips first.
pub proof fn lemma_footer_offset_past_end_is_out_of_bounds(b: Seq<u8>)
    requires
        b.len() >= 48,
        spec_parse_header(b).magic == crate::header::SFROM_MAGIC,
        spec_parse_header(b).footer_location as int > b.len(),
    ensures
        spec_parse(b) matches Err(e) && e is OutOfBounds,
{
}

} // verus!
