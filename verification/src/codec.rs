//! The snapshot codec: flattens a node subtree into records plus a
//! deduplicated wave list, serializes that to a compact binary image,
//! compresses it and wraps it in URL-safe base64 clipboard text — and back.
//!
//! The binary image is fully specified here: an 8-byte header with the two
//! counts, 40 bytes per node record, 2048 bytes per wave table, all fields
//! little endian. Encoding and decoding are proved inverse, so a pasted
//! snapshot reproduces the copied one exactly.

use crate::cycle::ColorBits;
use crate::cycle::Cycle;
use crate::cycle::PosBits;
use crate::graph::in_subtree;
use crate::graph::CycleNode;
use crate::graph::NodeGraph;
use crate::wave::Wave;
use vstd::prelude::*;

verus! {

use vstd::bytes::spec_u16_from_le_bytes;
use vstd::bytes::spec_u16_to_le_bytes;
use vstd::bytes::spec_u32_from_le_bytes;
use vstd::bytes::spec_u32_to_le_bytes;
use vstd::bytes::lemma_auto_spec_u16_to_from_le_bytes;
use vstd::bytes::lemma_auto_spec_u32_to_from_le_bytes;

/// Decompression refuses images larger than this (64 MiB), bounding memory
/// on corrupt or malicious input.
pub const MAX_IMAGE_BYTES: usize = 64 * 1024 * 1024;

/// One flattened node record.
#[derive(Clone, Copy, PartialEq, Eq, Structural)]
pub struct SnapNode {
    /// Index of the parent's record, which always precedes this one; the
    /// first record is the root and stores 0 here.
    pub parent: u32,
    /// Frequency table index.
    pub frequency: u32,
    /// Index into the snapshot's deduplicated wave list.
    pub wave: u32,
    /// Phase offset in the parent's cycle, in 2^-20 cycles.
    pub phase: u32,
    pub position: PosBits,
    pub color: ColorBits,
}

/// A flattened subtree: node records in an order that stores every parent
/// before its children, and the deduplicated wave tables they reference.
pub struct Snapshot {
    pub nodes: Vec<SnapNode>,
    pub waves: Vec<Vec<u16>>,
}

/// A list of wave tables, as sequences.
pub open spec fn wave_seqs(ws: Seq<Vec<u16>>) -> Seq<Seq<u16>> {
    ws.map_values(|w: Vec<u16>| w@)
}

/// The wave tables, as sequences.
pub open spec fn waves_view(s: &Snapshot) -> Seq<Seq<u16>> {
    wave_seqs(s.waves@)
}

/// Record `k` is internally consistent: valid frequency and phase, a wave
/// reference into the list, and a parent record stored strictly earlier (the
/// root stores the sentinel 0).
pub open spec fn record_wf(ns: Seq<SnapNode>, nw: int, k: int) -> bool {
    &&& ns[k].frequency < 133
    &&& ns[k].phase < 1048576
    &&& (ns[k].wave as int) < nw
    &&& if k == 0 {
        ns[k].parent == 0
    } else {
        (ns[k].parent as int) < k
    }
}

/// A well-formed snapshot: counts that fit the header, every record
/// consistent, every wave table of full length.
pub open spec fn snap_wf(ns: Seq<SnapNode>, ws: Seq<Seq<u16>>) -> bool {
    &&& ns.len() <= 0xFFFF_FFFF
    &&& ws.len() <= 0xFFFF_FFFF
    &&& forall|k: int| 0 <= k < ns.len() ==> record_wf(ns, ws.len() as int, k)
    &&& forall|w: int| 0 <= w < ws.len() ==> (#[trigger] ws[w]).len() == 1024
}

/// The 40-byte image of one record.
pub open spec fn spec_encode_node(n: SnapNode) -> Seq<u8> {
    spec_u32_to_le_bytes(n.parent) + spec_u32_to_le_bytes(n.frequency) + spec_u32_to_le_bytes(
        n.wave,
    ) + spec_u32_to_le_bytes(n.phase) + spec_u32_to_le_bytes(n.position.x) + spec_u32_to_le_bytes(
        n.position.y,
    ) + spec_u32_to_le_bytes(n.color.r) + spec_u32_to_le_bytes(n.color.g) + spec_u32_to_le_bytes(
        n.color.b,
    ) + spec_u32_to_le_bytes(n.color.a)
}

/// The images of the first `upto` records, concatenated.
pub open spec fn spec_encode_nodes(ns: Seq<SnapNode>, upto: int) -> Seq<u8>
    decreases upto,
{
    if upto <= 0 {
        Seq::empty()
    } else {
        spec_encode_nodes(ns, upto - 1) + spec_encode_node(ns[upto - 1])
    }
}

/// The image of the first `upto` samples of one wave table.
pub open spec fn spec_encode_wave(w: Seq<u16>, upto: int) -> Seq<u8>
    decreases upto,
{
    if upto <= 0 {
        Seq::empty()
    } else {
        spec_encode_wave(w, upto - 1) + spec_u16_to_le_bytes(w[upto - 1])
    }
}

/// The images of the first `upto` wave tables, concatenated.
pub open spec fn spec_encode_waves(ws: Seq<Seq<u16>>, upto: int) -> Seq<u8>
    decreases upto,
{
    if upto <= 0 {
        Seq::empty()
    } else {
        spec_encode_waves(ws, upto - 1) + spec_encode_wave(ws[upto - 1], 1024)
    }
}

/// The complete binary image of a snapshot.
pub open spec fn spec_encode(ns: Seq<SnapNode>, ws: Seq<Seq<u16>>) -> Seq<u8> {
    spec_u32_to_le_bytes(ns.len() as u32) + spec_u32_to_le_bytes(ws.len() as u32)
        + spec_encode_nodes(ns, ns.len() as int) + spec_encode_waves(ws, ws.len() as int)
}

/// The `u32` field `q` of the record at byte offset `base` of an image.
pub open spec fn parse_u32(b: Seq<u8>, off: int) -> u32 {
    spec_u32_from_le_bytes(b.subrange(off, off + 4))
}

/// The record stored at index `i` of an image.
pub open spec fn parse_node(b: Seq<u8>, i: int) -> SnapNode {
    let base = 8 + 40 * i;
    SnapNode {
        parent: parse_u32(b, base),
        frequency: parse_u32(b, base + 4),
        wave: parse_u32(b, base + 8),
        phase: parse_u32(b, base + 12),
        position: PosBits { x: parse_u32(b, base + 16), y: parse_u32(b, base + 20) },
        color: ColorBits {
            r: parse_u32(b, base + 24),
            g: parse_u32(b, base + 28),
            b: parse_u32(b, base + 32),
            a: parse_u32(b, base + 36),
        },
    }
}

/// The wave table stored at index `w` of an image holding `nn` records.
pub open spec fn parse_wave(b: Seq<u8>, nn: int, w: int) -> Seq<u16> {
    let base = 8 + 40 * nn + 2048 * w;
    Seq::new(1024, |k: int| spec_u16_from_le_bytes(b.subrange(base + 2 * k, base + 2 * k + 2)))
}

/// All `nn` records of an image.
pub open spec fn parsed_nodes(b: Seq<u8>, nn: int) -> Seq<SnapNode> {
    Seq::new(nn as nat, |i: int| parse_node(b, i))
}

/// All `nw` wave tables of an image holding `nn` records.
pub open spec fn parsed_waves(b: Seq<u8>, nn: int, nw: int) -> Seq<Seq<u16>> {
    Seq::new(nw as nat, |w: int| parse_wave(b, nn, w))
}

/// What a byte image means: `None` for anything that is not exactly the
/// encoding of a well-formed snapshot, the snapshot otherwise.
pub open spec fn spec_decode(b: Seq<u8>) -> Option<(Seq<SnapNode>, Seq<Seq<u16>>)> {
    if b.len() < 8 {
        None
    } else {
        let nn = spec_u32_from_le_bytes(b.subrange(0, 4)) as int;
        let nw = spec_u32_from_le_bytes(b.subrange(4, 8)) as int;
        if b.len() != 8 + 40 * nn + 2048 * nw {
            None
        } else {
            let ns = parsed_nodes(b, nn);
            let ws = parsed_waves(b, nn, nw);
            if forall|k: int| 0 <= k < nn ==> record_wf(ns, nw, k) {
                Some((ns, ws))
            } else {
                None
            }
        }
    }
}

proof fn lemma_encode_nodes_len(ns: Seq<SnapNode>, upto: int)
    requires
        0 <= upto,
    ensures
        spec_encode_nodes(ns, upto).len() == 40 * upto,
    decreases upto,
{
    lemma_auto_spec_u32_to_from_le_bytes();
    if upto > 0 {
        lemma_encode_nodes_len(ns, upto - 1);
    }
}

proof fn lemma_encode_wave_len(w: Seq<u16>, upto: int)
    requires
        0 <= upto,
    ensures
        spec_encode_wave(w, upto).len() == 2 * upto,
    decreases upto,
{
    lemma_auto_spec_u16_to_from_le_bytes();
    if upto > 0 {
        lemma_encode_wave_len(w, upto - 1);
    }
}

proof fn lemma_encode_waves_len(ws: Seq<Seq<u16>>, upto: int)
    requires
        0 <= upto,
    ensures
        spec_encode_waves(ws, upto).len() == 2048 * upto,
    decreases upto,
{
    if upto > 0 {
        lemma_encode_waves_len(ws, upto - 1);
        lemma_encode_wave_len(ws[upto - 1], 1024);
    }
}

/// Law: the binary image's size is exactly 8 header bytes plus 40 per record
/// plus 2048 per wave table, so a subtree's image size is known in advance —
/// in particular, any snapshot of at most 50 nodes fits the decompression
/// cap with room to spare.
pub proof fn lemma_encode_len(ns: Seq<SnapNode>, ws: Seq<Seq<u16>>)
    ensures
        spec_encode(ns, ws).len() == 8 + 40 * ns.len() + 2048 * ws.len(),
{
    lemma_auto_spec_u32_to_from_le_bytes();
    lemma_encode_nodes_len(ns, ns.len() as int);
    lemma_encode_waves_len(ws, ws.len() as int);
}

/// The image of record `i` sits at bytes `40 i .. 40 i + 40` of the record
/// area.
proof fn lemma_nodes_slice(ns: Seq<SnapNode>, i: int, upto: int)
    requires
        0 <= i < upto,
    ensures
        spec_encode_nodes(ns, upto).subrange(40 * i, 40 * i + 40) == spec_encode_node(ns[i]),
    decreases upto,
{
    lemma_encode_nodes_len(ns, upto);
    lemma_encode_nodes_len(ns, upto - 1);
    lemma_auto_spec_u32_to_from_le_bytes();
    if i == upto - 1 {
        assert(spec_encode_nodes(ns, upto).subrange(40 * i, 40 * i + 40) =~= spec_encode_node(
            ns[i],
        ));
    } else {
        lemma_nodes_slice(ns, i, upto - 1);
        assert(spec_encode_nodes(ns, upto).subrange(40 * i, 40 * i + 40) =~= spec_encode_nodes(
            ns,
            upto - 1,
        ).subrange(40 * i, 40 * i + 40));
    }
}

/// The image of sample `k` sits at bytes `2 k .. 2 k + 2` of a wave image.
proof fn lemma_wave_slice(w: Seq<u16>, k: int, upto: int)
    requires
        0 <= k < upto,
    ensures
        spec_encode_wave(w, upto).subrange(2 * k, 2 * k + 2) == spec_u16_to_le_bytes(w[k]),
    decreases upto,
{
    lemma_encode_wave_len(w, upto);
    lemma_encode_wave_len(w, upto - 1);
    lemma_auto_spec_u16_to_from_le_bytes();
    if k == upto - 1 {
        assert(spec_encode_wave(w, upto).subrange(2 * k, 2 * k + 2) =~= spec_u16_to_le_bytes(
            w[k],
        ));
    } else {
        lemma_wave_slice(w, k, upto - 1);
        assert(spec_encode_wave(w, upto).subrange(2 * k, 2 * k + 2) =~= spec_encode_wave(
            w,
            upto - 1,
        ).subrange(2 * k, 2 * k + 2));
    }
}

/// The image of wave `w` sits at bytes `2048 w .. 2048 (w + 1)` of the wave
/// area.
proof fn lemma_waves_slice(ws: Seq<Seq<u16>>, w: int, upto: int)
    requires
        0 <= w < upto,
    ensures
        spec_encode_waves(ws, upto).subrange(2048 * w, 2048 * w + 2048) == spec_encode_wave(
            ws[w],
            1024,
        ),
    decreases upto,
{
    lemma_encode_waves_len(ws, upto);
    lemma_encode_waves_len(ws, upto - 1);
    lemma_encode_wave_len(ws[upto - 1], 1024);
    lemma_encode_wave_len(ws[w], 1024);
    if w == upto - 1 {
        assert(spec_encode_waves(ws, upto).subrange(2048 * w, 2048 * w + 2048)
            =~= spec_encode_wave(ws[w], 1024));
    } else {
        lemma_waves_slice(ws, w, upto - 1);
        assert(spec_encode_waves(ws, upto).subrange(2048 * w, 2048 * w + 2048)
            =~= spec_encode_waves(ws, upto - 1).subrange(2048 * w, 2048 * w + 2048));
    }
}

/// Law: decoding inverts encoding — the binary image of any well-formed
/// snapshot decodes to exactly that snapshot. Together with the contracts of
/// the compression and text layers this makes paste reproduce what copy
/// recorded.
pub proof fn lemma_codec_round_trip(ns: Seq<SnapNode>, ws: Seq<Seq<u16>>)
    requires
        snap_wf(ns, ws),
    ensures
        spec_decode(spec_encode(ns, ws)) == Some((ns, ws)),
{
    let b = spec_encode(ns, ws);
    let nn = ns.len() as int;
    let nw = ws.len() as int;
    lemma_auto_spec_u32_to_from_le_bytes();
    lemma_auto_spec_u16_to_from_le_bytes();
    lemma_encode_nodes_len(ns, nn);
    lemma_encode_waves_len(ws, nw);
    assert(b.len() == 8 + 40 * nn + 2048 * nw);
    assert(b.subrange(0, 4) =~= spec_u32_to_le_bytes(ns.len() as u32));
    assert(b.subrange(4, 8) =~= spec_u32_to_le_bytes(ws.len() as u32));
    assert(spec_u32_from_le_bytes(b.subrange(0, 4)) == nn);
    assert(spec_u32_from_le_bytes(b.subrange(4, 8)) == nw);
    let dns = parsed_nodes(b, nn);
    let dws = parsed_waves(b, nn, nw);
    assert forall|i: int| 0 <= i < nn implies dns[i] == ns[i] by {
        lemma_parse_encoded_node(ns, ws, i);
    }
    assert(dns =~= ns);
    assert forall|w: int| 0 <= w < nw implies dws[w] == ws[w] by {
        lemma_parse_encoded_wave(ns, ws, w);
        assert(dws[w] =~= ws[w]);
    }
    assert(dws =~= ws);
}

/// Parsing record `i` out of the full image recovers the record.
proof fn lemma_parse_encoded_node(ns: Seq<SnapNode>, ws: Seq<Seq<u16>>, i: int)
    requires
        snap_wf(ns, ws),
        0 <= i < ns.len(),
    ensures
        parse_node(spec_encode(ns, ws), i) == ns[i],
{
    let b = spec_encode(ns, ws);
    let nn = ns.len() as int;
    let nw = ws.len() as int;
    lemma_auto_spec_u32_to_from_le_bytes();
    lemma_encode_nodes_len(ns, nn);
    lemma_encode_waves_len(ws, nw);
    lemma_nodes_slice(ns, i, nn);
    let base = 8 + 40 * i;
    let img = spec_encode_node(ns[i]);
    assert(b.subrange(base + 0, base + 4) =~= img.subrange(0, 4));
    assert(b.subrange(base + 4, base + 8) =~= img.subrange(4, 8));
    assert(b.subrange(base + 8, base + 12) =~= img.subrange(8, 12));
    assert(b.subrange(base + 12, base + 16) =~= img.subrange(12, 16));
    assert(b.subrange(base + 16, base + 20) =~= img.subrange(16, 20));
    assert(b.subrange(base + 20, base + 24) =~= img.subrange(20, 24));
    assert(b.subrange(base + 24, base + 28) =~= img.subrange(24, 28));
    assert(b.subrange(base + 28, base + 32) =~= img.subrange(28, 32));
    assert(b.subrange(base + 32, base + 36) =~= img.subrange(32, 36));
    assert(b.subrange(base + 36, base + 40) =~= img.subrange(36, 40));
    assert(img.subrange(0, 4) =~= spec_u32_to_le_bytes(ns[i].parent));
    assert(img.subrange(4, 8) =~= spec_u32_to_le_bytes(ns[i].frequency));
    assert(img.subrange(8, 12) =~= spec_u32_to_le_bytes(ns[i].wave));
    assert(img.subrange(12, 16) =~= spec_u32_to_le_bytes(ns[i].phase));
    assert(img.subrange(16, 20) =~= spec_u32_to_le_bytes(ns[i].position.x));
    assert(img.subrange(20, 24) =~= spec_u32_to_le_bytes(ns[i].position.y));
    assert(img.subrange(24, 28) =~= spec_u32_to_le_bytes(ns[i].color.r));
    assert(img.subrange(28, 32) =~= spec_u32_to_le_bytes(ns[i].color.g));
    assert(img.subrange(32, 36) =~= spec_u32_to_le_bytes(ns[i].color.b));
    assert(img.subrange(36, 40) =~= spec_u32_to_le_bytes(ns[i].color.a));
}

/// Parsing wave `w` out of the full image recovers the table.
proof fn lemma_parse_encoded_wave(ns: Seq<SnapNode>, ws: Seq<Seq<u16>>, w: int)
    requires
        snap_wf(ns, ws),
        0 <= w < ws.len(),
    ensures
        parse_wave(spec_encode(ns, ws), ns.len() as int, w) =~= ws[w],
{
    let b = spec_encode(ns, ws);
    let nn = ns.len() as int;
    let nw = ws.len() as int;
    lemma_auto_spec_u16_to_from_le_bytes();
    lemma_auto_spec_u32_to_from_le_bytes();
    lemma_encode_nodes_len(ns, nn);
    lemma_encode_waves_len(ws, nw);
    lemma_waves_slice(ws, w, nw);
    lemma_encode_wave_len(ws[w], 1024);
    let base = 8 + 40 * nn + 2048 * w;
    assert forall|k: int| 0 <= k < 1024 implies spec_u16_from_le_bytes(
        b.subrange(base + 2 * k, base + 2 * k + 2),
    ) == ws[w][k] by {
        lemma_wave_slice(ws[w], k, 1024);
        assert(b.subrange(base + 2 * k, base + 2 * k + 2) =~= spec_encode_waves(
            ws,
            nw,
        ).subrange(2048 * w, 2048 * w + 2048).subrange(2 * k, 2 * k + 2));
    }
}

/// Both halves of a snapshot, as sequences.
pub open spec fn snap_view(s: Snapshot) -> (Seq<SnapNode>, Seq<Seq<u16>>) {
    (s.nodes@, wave_seqs(s.waves@))
}

fn push_le32(out: &mut Vec<u8>, v: u32)
    ensures
        final(out)@ == old(out)@ + spec_u32_to_le_bytes(v),
{
    let mut b = vstd::bytes::u32_to_le_bytes(v);
    out.append(&mut b);
}

fn push_le16(out: &mut Vec<u8>, v: u16)
    ensures
        final(out)@ == old(out)@ + spec_u16_to_le_bytes(v),
{
    let mut b = vstd::bytes::u16_to_le_bytes(v);
    out.append(&mut b);
}

fn read_le32(b: &Vec<u8>, off: usize) -> (r: u32)
    requires
        off + 4 <= b@.len(),
    ensures
        r == parse_u32(b@, off as int),
{
    let blen = b.len();
    proof {
        assert(off + 4 <= blen);
    }
    let s = vstd::slice::slice_subrange(b.as_slice(), off, off + 4);
    vstd::bytes::u32_from_le_bytes(s)
}

fn read_le16(b: &Vec<u8>, off: usize) -> (r: u16)
    requires
        off + 2 <= b@.len(),
    ensures
        r == spec_u16_from_le_bytes(b@.subrange(off as int, off + 2)),
{
    let blen = b.len();
    proof {
        assert(off + 2 <= blen);
    }
    let s = vstd::slice::slice_subrange(b.as_slice(), off, off + 2);
    vstd::bytes::u16_from_le_bytes(s)
}

/// Serializes a snapshot to its binary image.
#[verifier::loop_isolation(false)]
pub fn encode_snapshot(s: &Snapshot) -> (r: Vec<u8>)
    requires
        snap_wf(s.nodes@, waves_view(s)),
    ensures
        r@ == spec_encode(s.nodes@, waves_view(s)),
{
    let nn = s.nodes.len();
    let nw = s.waves.len();
    let mut out: Vec<u8> = Vec::new();
    push_le32(&mut out, nn as u32);
    push_le32(&mut out, nw as u32);
    let ghost header = out@;
    proof {
        assert(header =~= spec_u32_to_le_bytes(nn as u32) + spec_u32_to_le_bytes(nw as u32));
    }
    let mut i: usize = 0;
    while i < nn
        invariant
            i <= nn,
            out@ == header + spec_encode_nodes(s.nodes@, i as int),
        decreases nn - i,
    {
        let nd = s.nodes[i];
        let ghost before = out@;
        push_le32(&mut out, nd.parent);
        push_le32(&mut out, nd.frequency);
        push_le32(&mut out, nd.wave);
        push_le32(&mut out, nd.phase);
        push_le32(&mut out, nd.position.x);
        push_le32(&mut out, nd.position.y);
        push_le32(&mut out, nd.color.r);
        push_le32(&mut out, nd.color.g);
        push_le32(&mut out, nd.color.b);
        push_le32(&mut out, nd.color.a);
        proof {
            assert(out@ =~= before + spec_encode_node(nd));
            assert(out@ =~= header + spec_encode_nodes(s.nodes@, i + 1));
        }
        i = i + 1;
    }
    let ghost nodes_part = out@;
    let mut w: usize = 0;
    while w < nw
        invariant
            w <= nw,
            out@ == nodes_part + spec_encode_waves(waves_view(s), w as int),
        decreases nw - w,
    {
        let ghost wave_base = out@;
        let wv = &s.waves[w];
        let mut k: usize = 0;
        proof {
            assert(waves_view(s)[w as int] == wv@);
        }
        while k < 1024
            invariant
                k <= 1024,
                wv@.len() == 1024,
                wv == &s.waves[w as int],
                out@ == wave_base + spec_encode_wave(wv@, k as int),
            decreases 1024 - k,
        {
            push_le16(&mut out, wv[k]);
            proof {
                assert(out@ =~= wave_base + spec_encode_wave(wv@, k + 1));
            }
            k = k + 1;
        }
        proof {
            assert(out@ =~= nodes_part + spec_encode_waves(waves_view(s), w + 1));
        }
        w = w + 1;
    }
    proof {
        assert(out@ =~= spec_encode(s.nodes@, waves_view(s)));
    }
    out
}

/// Parses a binary image back into a snapshot; exactly the images of
/// well-formed snapshots are accepted.
#[verifier::loop_isolation(false)]
pub fn decode_snapshot(b: &Vec<u8>) -> (r: Option<Snapshot>)
    ensures
        r is Some ==> spec_decode(b@) == Some(snap_view(r->0)),
        r is None ==> spec_decode(b@) is None,
{
    if b.len() < 8 {
        return None;
    }
    let nn32 = read_le32(b, 0);
    let nw32 = read_le32(b, 4);
    proof {
        assert(b@.subrange(0int, 0int + 4) =~= b@.subrange(0, 4));
        assert(b@.subrange(4int, 4int + 4) =~= b@.subrange(4, 8));
    }
    let expected: u64 = 8 + 40 * nn32 as u64 + 2048 * nw32 as u64;
    if b.len() as u64 != expected {
        return None;
    }
    let nn = nn32 as usize;
    let nw = nw32 as usize;
    let ghost dns = parsed_nodes(b@, nn as int);
    let mut nodes: Vec<SnapNode> = Vec::new();
    let mut ok = true;
    let mut i: usize = 0;
    while i < nn
        invariant
            i <= nn,
            nodes@.len() == i,
            forall|ii: int| 0 <= ii < i ==> nodes@[ii] == dns[ii],
            ok == forall|ii: int| 0 <= ii < i ==> record_wf(dns, nw as int, ii),
        decreases nn - i,
    {
        let base: usize = 8 + 40 * i;
        let parent = read_le32(b, base);
        let frequency = read_le32(b, base + 4);
        let wave = read_le32(b, base + 8);
        let phase = read_le32(b, base + 12);
        let px = read_le32(b, base + 16);
        let py = read_le32(b, base + 20);
        let cr = read_le32(b, base + 24);
        let cg = read_le32(b, base + 28);
        let cb = read_le32(b, base + 32);
        let ca = read_le32(b, base + 36);
        let node = SnapNode {
            parent,
            frequency,
            wave,
            phase,
            position: PosBits { x: px, y: py },
            color: ColorBits { r: cr, g: cg, b: cb, a: ca },
        };
        proof {
            assert(node == parse_node(b@, i as int));
        }
        let valid = frequency < 133 && phase < 1048576 && wave < nw32 && (if i == 0 {
            parent == 0
        } else {
            (parent as usize) < i
        });
        proof {
            assert(valid == record_wf(dns, nw as int, i as int));
        }
        ok = ok && valid;
        nodes.push(node);
        i = i + 1;
    }
    let ghost dws = parsed_waves(b@, nn as int, nw as int);
    let mut waves: Vec<Vec<u16>> = Vec::new();
    let mut w: usize = 0;
    while w < nw
        invariant
            w <= nw,
            waves@.len() == w,
            forall|ww: int| 0 <= ww < w ==> (#[trigger] waves@[ww])@ == dws[ww],
        decreases nw - w,
    {
        let base: usize = 8 + 40 * nn + 2048 * w;
        let mut wv: Vec<u16> = Vec::new();
        let mut k: usize = 0;
        while k < 1024
            invariant
                k <= 1024,
                wv@.len() == k,
                base == 8 + 40 * (nn as int) + 2048 * (w as int),
                w < nw,
                forall|kk: int| 0 <= kk < k ==> wv@[kk] == dws[w as int][kk],
            decreases 1024 - k,
        {
            let v = read_le16(b, base + 2 * k);
            proof {
                assert(dws[w as int][k as int] == spec_u16_from_le_bytes(
                    b@.subrange(base + 2 * k, base + 2 * k + 2),
                ));
            }
            wv.push(v);
            k = k + 1;
        }
        proof {
            assert(wv@ =~= dws[w as int]);
        }
        waves.push(wv);
        w = w + 1;
    }
    if !ok {
        return None;
    }
    let snapshot = Snapshot { nodes, waves };
    proof {
        assert(snapshot.nodes@ =~= dns);
        assert(snap_view(snapshot).1 =~= dws);
        assert forall|k: int| 0 <= k < nn implies #[trigger] record_wf(
            dns,
            nw as int,
            k,
        ) by {}
    }
    Some(snapshot)
}

/// What zstd makes of a byte string at the default compression level; a
/// function of the input bytes alone.
pub uninterp spec fn zstd_frame(b: Seq<u8>) -> Seq<u8>;

/// Relies on zstd::bulk::compress at the default level: the output is the
/// compressed frame of the input, determined by the input bytes alone. The
/// one-shot compressor writes into a buffer sized by zstd's own worst-case
/// bound, so for an input that fits in memory it cannot fail; what remains
/// is running out of memory, which aborts like any allocation failure.
#[verifier::external_body]
fn compress(data: &Vec<u8>) -> (r: Vec<u8>)
    ensures
        r@ == zstd_frame(data@),
{
    zstd::bulk::compress(data.as_slice(), 0).unwrap()
}

/// Relies on zstd::bulk::decompress: compression is lossless, so feeding it
/// the frame of some bytes returns exactly those bytes, provided they fit
/// the capacity cap; anything else fails or yields at most `cap` bytes.
#[verifier::external_body]
fn decompress(data: &Vec<u8>, cap: usize) -> (r: Option<Vec<u8>>)
    ensures
        r is Some ==> r->0@.len() <= cap,
        forall|s: Seq<u8>|
            data@ == zstd_frame(s) && s.len() <= cap ==> r is Some && r->0@ == s,
{
    match zstd::bulk::decompress(data.as_slice(), cap) {
        Ok(v) => Some(v),
        Err(_) => None,
    }
}

/// What URL-safe unpadded base64 makes of a byte string; a function of the
/// bytes alone.
pub uninterp spec fn b64_of(b: Seq<u8>) -> Seq<char>;

/// Relies on base64's BASE64_URL_SAFE_NO_PAD engine: encodes with the
/// URL-safe alphabet and no padding, determined by the input bytes alone.
#[verifier::external_body]
fn b64_encode(data: &Vec<u8>) -> (r: String)
    ensures
        r@ == b64_of(data@),
{
    base64::Engine::encode(&base64::prelude::BASE64_URL_SAFE_NO_PAD, data.as_slice())
}

/// Relies on the same engine's decode: it is strict, accepting exactly the
/// texts its encoder produces, and inverts it on those.
#[verifier::external_body]
fn b64_decode(text: &str) -> (r: Option<Vec<u8>>)
    ensures
        forall|s: Seq<u8>| text@ == b64_of(s) ==> r is Some && r->0@ == s,
{
    base64::Engine::decode(&base64::prelude::BASE64_URL_SAFE_NO_PAD, text).ok()
}

fn copy_wave_vec(v: &Vec<u16>) -> (r: Vec<u16>)
    ensures
        r@ == v@,
{
    let mut r: Vec<u16> = Vec::new();
    let mut i: usize = 0;
    let n = v.len();
    while i < n
        invariant
            i <= n,
            n == v@.len(),
            r@ == v@.take(i as int),
        decreases n - i,
    {
        r.push(v[i]);
        proof {
            assert(r@ =~= v@.take(i + 1));
        }
        i = i + 1;
    }
    proof {
        assert(v@.take(n as int) =~= v@);
    }
    r
}

/// How a rebuilt arena relates to the snapshot it came from: one node per
/// record with the record's parameters and wave table; the first node sits
/// at the caller's insertion point, later ones at their stored positions;
/// parents follow the recorded earlier indices; nothing plays yet.
pub open spec fn rebuilt_matches(
    g: Seq<CycleNode>,
    ns: Seq<SnapNode>,
    ws: Seq<Seq<u16>>,
    insertion: PosBits,
) -> bool {
    &&& g.len() == ns.len()
    &&& forall|k: int|
        0 <= k < g.len() ==> {
            &&& (#[trigger] g[k]).cycle.frequency == ns[k].frequency
            &&& g[k].cycle.phase == ns[k].phase
            &&& g[k].cycle.color == ns[k].color
            &&& g[k].wave@ == ws[ns[k].wave as int]
            &&& g[k].playing == false
            &&& g[k].parent == (if k == 0 {
                Option::<u32>::None
            } else {
                Some(ns[k].parent)
            })
            &&& g[k].position == (if k == 0 {
                insertion
            } else {
                ns[k].position
            })
        }
}

/// Reconstructs a subtree from a snapshot, in record order: each record
/// becomes a fresh node linked to its already-created parent.
#[verifier::loop_isolation(false)]
pub fn rebuild(snap: &Snapshot, insertion: PosBits) -> (r: NodeGraph)
    requires
        snap_wf(snap.nodes@, waves_view(snap)),
    ensures
        r.wf(),
        rebuilt_matches(r@, snap.nodes@, waves_view(snap), insertion),
{
    let mut g = NodeGraph::new();
    let nn = snap.nodes.len();
    let mut k: usize = 0;
    while k < nn
        invariant
            k <= nn,
            g@.len() == k,
            g.wf(),
            rebuilt_matches(g@, snap.nodes@.take(k as int), waves_view(snap), insertion),
        decreases nn - k,
    {
        let rec = snap.nodes[k];
        proof {
            assert(record_wf(snap.nodes@, waves_view(snap).len() as int, k as int));
            assert(waves_view(snap)[rec.wave as int] == snap.waves@[rec.wave as int]@);
        }
        let wv = copy_wave_vec(&snap.waves[rec.wave as usize]);
        let wave = Wave::from_samples(wv);
        let node = CycleNode {
            cycle: Cycle { frequency: rec.frequency, phase: rec.phase, color: rec.color },
            wave,
            playing: false,
            parent: if k == 0 {
                None
            } else {
                Some(rec.parent)
            },
            position: if k == 0 {
                insertion
            } else {
                rec.position
            },
        };
        g.push_node(node);
        k = k + 1;
        proof {
            assert(snap.nodes@.take(k as int).drop_last() =~= snap.nodes@.take(k - 1));
        }
    }
    proof {
        assert(snap.nodes@.take(nn as int) =~= snap.nodes@);
    }
    g
}

fn waves_equal(a: &Vec<u16>, b: &Vec<u16>) -> (r: bool)
    ensures
        r == (a@ == b@),
{
    let na = a.len();
    if na != b.len() {
        proof {
            assert(a@ != b@);
        }
        return false;
    }
    let mut i: usize = 0;
    let mut eq = true;
    while i < na
        invariant
            i <= na,
            na == a@.len() == b@.len(),
            eq == forall|ii: int| 0 <= ii < i ==> a@[ii] == b@[ii],
        decreases na - i,
    {
        eq = eq && a[i] == b[i];
        i = i + 1;
    }
    proof {
        if eq {
            assert(a@ =~= b@);
        } else {
            assert(a@ != b@);
        }
    }
    eq
}

/// Record `k` of a snapshot faithfully describes arena node `order[k]`.
pub open spec fn record_matches(
    g: Seq<CycleNode>,
    ns: Seq<SnapNode>,
    ws: Seq<Seq<u16>>,
    order: Seq<u32>,
    k: int,
) -> bool {
    let j = order[k] as int;
    &&& ns[k].frequency == g[j].cycle.frequency
    &&& ns[k].phase == g[j].cycle.phase
    &&& ns[k].color == g[j].cycle.color
    &&& ns[k].position == g[j].position
    &&& ws[ns[k].wave as int] == g[j].wave@
    &&& (k > 0 ==> g[j].parent == Some(order[ns[k].parent as int]))
}

/// How a snapshot relates to the subtree it was copied from: `order` maps
/// each record to the arena node it describes — a bijection onto the
/// subtree of `root` (in ascending index order, so parents come first, with
/// the root first of all) — every record reproduces its node's parameters
/// and parent link, and the wave list holds no two equal tables.
pub open spec fn flattened(
    g: Seq<CycleNode>,
    root: int,
    ns: Seq<SnapNode>,
    ws: Seq<Seq<u16>>,
    order: Seq<u32>,
) -> bool {
    &&& snap_wf(ns, ws)
    &&& order.len() == ns.len()
    &&& ns.len() >= 1
    &&& ws.len() <= ns.len()
    &&& order[0] == root
    &&& forall|k1: int, k2: int| 0 <= k1 < k2 < order.len() ==> order[k1] < order[k2]
    &&& forall|k: int|
        0 <= k < order.len() ==> (#[trigger] order[k]) < g.len() && in_subtree(
            g,
            order[k] as int,
            root,
        )
    &&& forall|j: int| 0 <= j < g.len() && in_subtree(g, j, root) ==> order.contains(j as u32)
    &&& forall|k: int| 0 <= k < ns.len() ==> record_matches(g, ns, ws, order, k)
    &&& forall|w1: int, w2: int| 0 <= w1 < w2 < ws.len() ==> ws[w1] != ws[w2]
}

/// A subtree member's index is never below its root's.
proof fn lemma_subtree_above_root(g: Seq<CycleNode>, j: int, root: int)
    requires
        in_subtree(g, j, root),
    ensures
        j >= root,
    decreases (if j < 0 {
        0int
    } else {
        j
    }),
{
    if j != root {
        lemma_subtree_above_root(g, g[j].parent->Some_0 as int, root);
    }
}

/// Flattens the subtree of `root` into records in ascending arena order (so
/// every parent precedes its children and the root comes first), with each
/// distinct wave table stored once. Also returns which arena node each
/// record came from.
#[verifier::loop_isolation(false)]
pub fn flatten(g: &NodeGraph, root: usize) -> (r: (Snapshot, Vec<u32>))
    requires
        g.wf(),
        root < g@.len(),
    ensures
        flattened(g@, root as int, r.0.nodes@, waves_view(&r.0), r.1@),
{
    let n = g.len();
    let mut nodes: Vec<SnapNode> = Vec::new();
    let mut waves: Vec<Vec<u16>> = Vec::new();
    let mut order: Vec<u32> = Vec::new();
    let mut idx_of: Vec<Option<u32>> = Vec::new();
    let mut j: usize = 0;
    while j < n
        invariant
            j <= n,
            idx_of@.len() == j,
            order@.len() == nodes@.len(),
            waves@.len() <= nodes@.len(),
            nodes@.len() <= j,
            j <= root ==> nodes@.len() == 0,
            j > root ==> nodes@.len() >= 1 && order@[0] == root,
            forall|k1: int, k2: int|
                0 <= k1 < k2 < order@.len() ==> order@[k1] < order@[k2],
            forall|k: int|
                0 <= k < order@.len() ==> (#[trigger] order@[k]) < j && in_subtree(
                    g@,
                    order@[k] as int,
                    root as int,
                ),
            forall|jj: int|
                0 <= jj < j ==> ((#[trigger] idx_of@[jj]) is Some <==> in_subtree(
                    g@,
                    jj,
                    root as int,
                )),
            forall|jj: int|
                0 <= jj < j && (#[trigger] idx_of@[jj]) is Some ==> (idx_of@[jj]->Some_0 as int)
                    < order@.len() && order@[idx_of@[jj]->Some_0 as int] == jj,
            forall|k: int|
                0 <= k < nodes@.len() ==> record_wf(nodes@, waves@.len() as int, k),
            forall|k: int| #![trigger order@[k]]
                0 <= k < nodes@.len() ==> record_matches(g@, nodes@, wave_seqs(waves@), order@, k),
            forall|w1: int, w2: int|
                0 <= w1 < w2 < waves@.len() ==> (#[trigger] waves@[w1])@ != (
                #[trigger] waves@[w2])@,
            forall|w: int| 0 <= w < waves@.len() ==> (#[trigger] waves@[w])@.len() == 1024,
        decreases n - j,
    {
        let nd = g.node(j);
        let member: bool;
        let parent_rec: u32;
        if j == root {
            member = true;
            parent_rec = 0;
        } else {
            match nd.parent {
                Some(p) => {
                    match idx_of[p as usize] {
                        Some(k) => {
                            member = true;
                            parent_rec = k;
                        },
                        None => {
                            member = false;
                            parent_rec = 0;
                        },
                    }
                },
                None => {
                    member = false;
                    parent_rec = 0;
                },
            }
        }
        proof {
            assert(member == in_subtree(g@, j as int, root as int));
        }
        if member {
            let wvec = nd.wave.to_vec();
            let ghost ws_start = wave_seqs(waves@);
            let mut widx: usize = 0;
            let mut found = false;
            let nw = waves.len();
            let mut w: usize = 0;
            while w < nw
                invariant
                    w <= nw,
                    nw == waves@.len(),
                    wvec@.len() == 1024,
                    found ==> widx < nw && waves@[widx as int]@ == wvec@,
                    !found ==> forall|ww: int| 0 <= ww < w ==> (#[trigger] waves@[ww])@ != wvec@,
                decreases nw - w,
            {
                if !found && waves_equal(&waves[w], &wvec) {
                    found = true;
                    widx = w;
                }
                w = w + 1;
            }
            if !found {
                widx = waves.len();
                waves.push(wvec);
            } else {
                proof {
                    assert(waves@[widx as int]@ == wvec@);
                }
            }
            let rec = SnapNode {
                parent: parent_rec,
                frequency: nd.cycle.frequency,
                wave: widx as u32,
                phase: nd.cycle.phase,
                position: nd.position,
                color: nd.cycle.color,
            };
            let ghost k_new = nodes@.len() as int;
            let ghost order0 = order@;
            let ghost nodes0 = nodes@;
            let ghost wsm = wave_seqs(waves@);
            order.push(j as u32);
            nodes.push(rec);
            idx_of.push(Some(order.len() as u32 - 1));
            proof {
                assert(waves@[rec.wave as int]@ == g@[j as int].wave@);
                assert(order@ == order0.push(j as u32));
                assert(nodes@ == nodes0.push(rec));
                assert forall|k: int| #![trigger order@[k]]
                    0 <= k < nodes@.len() implies record_matches(
                    g@,
                    nodes@,
                    wsm,
                    order@,
                    k,
                ) by {
                    if k < k_new {
                        assert(order@[k] == order0[k]);
                        assert(nodes@[k] == nodes0[k]);
                        assert(record_wf(nodes0, ws_start.len() as int, k));
                        assert(record_matches(g@, nodes0, ws_start, order0, k));
                        assert((nodes0[k].wave as int) < ws_start.len());
                        assert(wsm[nodes0[k].wave as int] == ws_start[nodes0[k].wave as int]);
                        if k > 0 {
                            assert((nodes0[k].parent as int) < k);
                            assert(order@[nodes0[k].parent as int] == order0[
                            nodes0[k].parent as int]);
                        }
                    } else {
                        assert(order@[k] == j as u32);
                        assert(nodes@[k] == rec);
                        assert(wsm[rec.wave as int] == waves@[rec.wave as int]@);
                        if k > 0 {
                            assert(order@[rec.parent as int] == order0[rec.parent as int]);
                        }
                    }
                }
                assert forall|k: int|
                    0 <= k < nodes@.len() implies #[trigger] record_wf(
                    nodes@,
                    waves@.len() as int,
                    k,
                ) by {
                    if k < k_new {
                        assert(nodes@[k] == nodes0[k]);
                        assert(record_wf(nodes0, ws_start.len() as int, k));
                    }
                }
            }
        } else {
            idx_of.push(None);
        }
        j = j + 1;
    }
    proof {
        assert(in_subtree(g@, root as int, root as int));
        assert(idx_of@[root as int] is Some);
        assert(nodes@.len() >= 1);
        let ws = wave_seqs(waves@);
        assert forall|jj: int|
            0 <= jj < g@.len() && in_subtree(g@, jj, root as int) implies order@.contains(
            jj as u32,
        ) by {
            assert(idx_of@[jj] is Some);
            let k = idx_of@[jj]->Some_0 as int;
            assert(order@[k] == jj as u32);
        }
        assert(snap_wf(nodes@, ws));
        assert forall|w1: int, w2: int| 0 <= w1 < w2 < ws.len() implies ws[w1] != ws[w2] by {
            assert(waves@[w1]@ != waves@[w2]@);
        }
    }
    (Snapshot { nodes, waves }, order)
}

/// Law: pasting what copy recorded reproduces the copied subtree. Whenever a
/// snapshot flattens the subtree of `root` (as `copy_tree` guarantees) and an
/// arena is rebuilt from that snapshot (as `paste_tree` guarantees), the
/// rebuilt arena has exactly one node per subtree member — node `k` standing
/// for source node `order[k]` — with equal frequency, phase, color and wave
/// samples, and a parent chain mirroring the source: the root comes first
/// and the parent of rebuilt node `k` stands for the source node's parent.
pub proof fn lemma_copy_paste_round_trip(
    g: Seq<CycleNode>,
    root: int,
    ns: Seq<SnapNode>,
    ws: Seq<Seq<u16>>,
    order: Seq<u32>,
    insertion: PosBits,
    g2: Seq<CycleNode>,
)
    requires
        flattened(g, root, ns, ws, order),
        rebuilt_matches(g2, ns, ws, insertion),
    ensures
        g2.len() == order.len(),
        order[0] == root,
        forall|j: int| 0 <= j < g.len() && in_subtree(g, j, root) ==> order.contains(j as u32),
        forall|k: int|
            0 <= k < g2.len() ==> in_subtree(g, (#[trigger] order[k]) as int, root),
        forall|k: int|
            0 <= k < g2.len() ==> {
                let j = (#[trigger] order[k]) as int;
                &&& g2[k].cycle.frequency == g[j].cycle.frequency
                &&& g2[k].cycle.phase == g[j].cycle.phase
                &&& g2[k].cycle.color == g[j].cycle.color
                &&& g2[k].wave@ == g[j].wave@
            },
        g2.len() >= 1 && g2[0].parent is None,
        forall|k: int|
            1 <= k < g2.len() ==> (#[trigger] g2[k]).parent == Some(ns[k].parent)
                && g[order[k] as int].parent == Some(order[ns[k].parent as int]),
{
    assert forall|k: int|
        0 <= k < g2.len() implies {
        let j = (#[trigger] order[k]) as int;
        &&& g2[k].cycle.frequency == g[j].cycle.frequency
        &&& g2[k].cycle.phase == g[j].cycle.phase
        &&& g2[k].cycle.color == g[j].cycle.color
        &&& g2[k].wave@ == g[j].wave@
    } by {
        assert(record_matches(g, ns, ws, order, k));
    }
    assert forall|k: int|
        1 <= k < g2.len() implies (#[trigger] g2[k]).parent == Some(ns[k].parent)
        && g[order[k] as int].parent == Some(order[ns[k].parent as int]) by {
        assert(record_matches(g, ns, ws, order, k));
    }
}

/// Serializes the subtree of `root` to clipboard text: the flattened
/// snapshot's binary image, compressed and wrapped in URL-safe base64. Every
/// stage is total, so the result is always the complete encoding, and a
/// matching paste is owed whenever the image fits the decompression cap.
pub fn copy_tree(g: &NodeGraph, root: usize) -> (r: String)
    requires
        g.wf(),
        root < g@.len(),
    ensures
        exists|ns: Seq<SnapNode>, ws: Seq<Seq<u16>>, order: Seq<u32>|
            #[trigger] flattened(g@, root as int, ns, ws, order) && r@ == b64_of(
                zstd_frame(spec_encode(ns, ws)),
            ),
{
    let (snap, order) = flatten(g, root);
    let image = encode_snapshot(&snap);
    let compressed = compress(&image);
    let r = b64_encode(&compressed);
    proof {
        let ns = snap.nodes@;
        let ws = waves_view(&snap);
        assert(flattened(g@, root as int, ns, ws, order@));
        assert(r@ == b64_of(zstd_frame(spec_encode(ns, ws))));
    }
    r
}

/// Turns clipboard text back into a subtree, placed at `insertion`; any text
/// that is not exactly a copied snapshot is rejected with no effect. The
/// subtree is built completely before it is returned, so a failure changes
/// nothing.
pub fn paste_tree(text: &str, insertion: PosBits) -> (r: Option<NodeGraph>)
    ensures
        r is Some ==> r->0.wf(),
        forall|ns: Seq<SnapNode>, ws: Seq<Seq<u16>>|
            snap_wf(ns, ws) && text@ == b64_of(#[trigger] zstd_frame(spec_encode(ns, ws)))
                && spec_encode(ns, ws).len() <= MAX_IMAGE_BYTES ==> r is Some
                && rebuilt_matches(r->0@, ns, ws, insertion),
{
    let bytes = match b64_decode(text) {
        Some(b) => b,
        None => {
            return None;
        },
    };
    let image = match decompress(&bytes, MAX_IMAGE_BYTES) {
        Some(i) => i,
        None => {
            return None;
        },
    };
    let snap = match decode_snapshot(&image) {
        Some(s) => s,
        None => {
            proof {
                assert forall|ns: Seq<SnapNode>, ws: Seq<Seq<u16>>|
                    !(snap_wf(ns, ws) && text@ == b64_of(
                        #[trigger] zstd_frame(spec_encode(ns, ws)),
                    ) && spec_encode(ns, ws).len() <= MAX_IMAGE_BYTES) by {
                    if snap_wf(ns, ws) && text@ == b64_of(zstd_frame(spec_encode(ns, ws)))
                        && spec_encode(ns, ws).len() <= MAX_IMAGE_BYTES {
                        lemma_codec_round_trip(ns, ws);
                        assert(false);
                    }
                }
            }
            return None;
        },
    };
    let g = rebuild(&snap, insertion);
    proof {
        assert forall|ns: Seq<SnapNode>, ws: Seq<Seq<u16>>|
            snap_wf(ns, ws) && text@ == b64_of(#[trigger] zstd_frame(spec_encode(ns, ws)))
                && spec_encode(ns, ws).len()
                <= MAX_IMAGE_BYTES implies rebuilt_matches(g@, ns, ws, insertion) by {
            lemma_codec_round_trip(ns, ws);
            assert(snap.nodes@ == ns && waves_view(&snap) =~= ws);
        }
    }
    Some(g)
}

} // verus!
