//! The tagged binary wire format for application messages.
//!
//! Each message is one tag byte followed by its fields in declaration order;
//! variable-length fields carry an explicit length prefix (1 byte for names,
//! 2 bytes big-endian for chat text and stream lines, 4 bytes big-endian for
//! binary payloads). Video frames travel LZ4-compressed.
//!
//! `encode_spec` and `decode_full` state the format once; `to_bytes` and
//! `from_bytes` are proved against them, and `to_bytes` guarantees that its
//! output decodes back to the message it was given.

use vstd::prelude::*;
use vstd::utf8::encode_utf8;

use crate::lz4::{lz4_block, lz4_compress, lz4_decompress, lz4_unblock};
use crate::util::{
    be16, be32, bytes_range, push_be16, push_be32, push_bytes, read_be16, read_be32,
    str_of_bytes, string_of_bytes, u16_be_bytes, u32_be_bytes,
};

verus! {

/// Message types of the protocol, one variant per application-level event.
#[derive(Debug, Clone)]
pub enum Message {
    /// Text chat message
    Chat { from: String, text: String },
    /// Ping to check connectivity
    Ping { seq: u32 },
    /// Pong response
    Pong { seq: u32 },
    /// Join notification
    Join { name: String },
    /// Leave notification
    Leave { name: String },
    /// Call request
    CallRequest { from: String },
    /// Call hangup notification
    CallHangup { from: String },
    /// Call rejected (busy)
    CallReject { from: String },
    /// Stream frame (ASCII art lines), kept only for wire compatibility
    StreamFrame { from: String, lines: Vec<String> },
    /// Whole video frame (raw grayscale pixels, compressed in transit)
    VideoFrame { from: String, width: u16, height: u16, pixels: Vec<u8> },
    /// One shard of a compressed video frame that exceeds the safe datagram size
    VideoFrameFragment {
        from: String,
        width: u16,
        height: u16,
        frame_id: u8,
        fragment_idx: u8,
        total_fragments: u8,
        data: Vec<u8>,
    },
    /// Discovery announce sent to the main port as a fallback path
    DiscoveryAnnounce { name: String, port: u16 },
}

/// The abstract content of a message: strings as character sequences, byte
/// payloads as byte sequences. Contracts speak of this value.
pub enum MsgAbs {
    Chat { from: Seq<char>, text: Seq<char> },
    Ping { seq: u32 },
    Pong { seq: u32 },
    Join { name: Seq<char> },
    Leave { name: Seq<char> },
    CallRequest { from: Seq<char> },
    CallHangup { from: Seq<char> },
    CallReject { from: Seq<char> },
    StreamFrame { from: Seq<char>, lines: Seq<Seq<char>> },
    VideoFrame { from: Seq<char>, width: u16, height: u16, pixels: Seq<u8> },
    VideoFrameFragment {
        from: Seq<char>,
        width: u16,
        height: u16,
        frame_id: u8,
        fragment_idx: u8,
        total_fragments: u8,
        data: Seq<u8>,
    },
    DiscoveryAnnounce { name: Seq<char>, port: u16 },
}

impl Message {
    /// The abstract content of this message.
    pub open spec fn abs(&self) -> MsgAbs {
        match self {
            Message::Chat { from, text } => MsgAbs::Chat { from: from@, text: text@ },
            Message::Ping { seq } => MsgAbs::Ping { seq: *seq },
            Message::Pong { seq } => MsgAbs::Pong { seq: *seq },
            Message::Join { name } => MsgAbs::Join { name: name@ },
            Message::Leave { name } => MsgAbs::Leave { name: name@ },
            Message::CallRequest { from } => MsgAbs::CallRequest { from: from@ },
            Message::CallHangup { from } => MsgAbs::CallHangup { from: from@ },
            Message::CallReject { from } => MsgAbs::CallReject { from: from@ },
            Message::StreamFrame { from, lines } => MsgAbs::StreamFrame {
                from: from@,
                lines: lines.deep_view(),
            },
            Message::VideoFrame { from, width, height, pixels } => MsgAbs::VideoFrame {
                from: from@,
                width: *width,
                height: *height,
                pixels: pixels@,
            },
            Message::VideoFrameFragment {
                from,
                width,
                height,
                frame_id,
                fragment_idx,
                total_fragments,
                data,
            } => MsgAbs::VideoFrameFragment {
                from: from@,
                width: *width,
                height: *height,
                frame_id: *frame_id,
                fragment_idx: *fragment_idx,
                total_fragments: *total_fragments,
                data: data@,
            },
            Message::DiscoveryAnnounce { name, port } => MsgAbs::DiscoveryAnnounce {
                name: name@,
                port: *port,
            },
        }
    }
}

/// Upper bound on the pixel payload of a whole video frame, chosen so that
/// even the worst-case compressed block length fits the 4-byte wire field.
pub const MAX_VIDEO_PIXEL_BYTES: usize = 0xE000_0000;

impl MsgAbs {
    /// A message the wire format can represent: every length-prefixed field
    /// fits its prefix.
    pub open spec fn wf(self) -> bool {
        match self {
            MsgAbs::Chat { from, text } => encode_utf8(from).len() <= 255 && encode_utf8(
                text,
            ).len() <= 0xffff,
            MsgAbs::Ping { .. } => true,
            MsgAbs::Pong { .. } => true,
            MsgAbs::Join { name } => encode_utf8(name).len() <= 255,
            MsgAbs::Leave { name } => encode_utf8(name).len() <= 255,
            MsgAbs::CallRequest { from } => encode_utf8(from).len() <= 255,
            MsgAbs::CallHangup { from } => encode_utf8(from).len() <= 255,
            MsgAbs::CallReject { from } => encode_utf8(from).len() <= 255,
            MsgAbs::StreamFrame { from, lines } => encode_utf8(from).len() <= 255
                && lines.len() <= 255 && (forall|i: int|
                0 <= i < lines.len() ==> encode_utf8(#[trigger] lines[i]).len() <= 0xffff),
            MsgAbs::VideoFrame { from, pixels, .. } => encode_utf8(from).len() <= 255
                && pixels.len() <= MAX_VIDEO_PIXEL_BYTES,
            MsgAbs::VideoFrameFragment { from, data, .. } => encode_utf8(from).len() <= 255
                && data.len() <= 0xffffffff,
            MsgAbs::DiscoveryAnnounce { name, .. } => encode_utf8(name).len() <= 255,
        }
    }
}

/// A name field on the wire: 1-byte length prefix, then the UTF-8 bytes.
pub open spec fn name_field(s: Seq<char>) -> Seq<u8> {
    seq![encode_utf8(s).len() as u8] + encode_utf8(s)
}

/// Stream lines on the wire: for each line a 2-byte big-endian length prefix,
/// then its UTF-8 bytes.
pub open spec fn encode_lines(lines: Seq<Seq<char>>) -> Seq<u8>
    decreases lines.len(),
{
    if lines.len() == 0 {
        Seq::empty()
    } else {
        u16_be_bytes(encode_utf8(lines[0]).len() as u16) + encode_utf8(lines[0]) + encode_lines(
            lines.drop_first(),
        )
    }
}

/// The exact bytes a message is encoded to.
pub open spec fn encode_spec(a: MsgAbs) -> Seq<u8> {
    match a {
        MsgAbs::Chat { from, text } => seq![0x01u8] + name_field(from) + u16_be_bytes(
            encode_utf8(text).len() as u16,
        ) + encode_utf8(text),
        MsgAbs::Ping { seq } => seq![0x02u8] + u32_be_bytes(seq),
        MsgAbs::Pong { seq } => seq![0x03u8] + u32_be_bytes(seq),
        MsgAbs::Join { name } => seq![0x04u8] + name_field(name),
        MsgAbs::Leave { name } => seq![0x05u8] + name_field(name),
        MsgAbs::CallRequest { from } => seq![0x07u8] + name_field(from),
        MsgAbs::CallHangup { from } => seq![0x08u8] + name_field(from),
        MsgAbs::CallReject { from } => seq![0x09u8] + name_field(from),
        MsgAbs::StreamFrame { from, lines } => seq![0x06u8] + name_field(from) + seq![
            lines.len() as u8,
        ] + encode_lines(lines),
        MsgAbs::VideoFrame { from, width, height, pixels } => seq![0x0Au8] + name_field(from)
            + u16_be_bytes(width) + u16_be_bytes(height) + u32_be_bytes(pixels.len() as u32)
            + u32_be_bytes(lz4_block(pixels).len() as u32) + lz4_block(pixels),
        MsgAbs::VideoFrameFragment {
            from,
            width,
            height,
            frame_id,
            fragment_idx,
            total_fragments,
            data,
        } => seq![0x0Cu8] + name_field(from) + u16_be_bytes(width) + u16_be_bytes(height) + seq![
            frame_id,
            fragment_idx,
            total_fragments,
        ] + u32_be_bytes(data.len() as u32) + data,
        MsgAbs::DiscoveryAnnounce { name, port } => seq![0x0Bu8] + u16_be_bytes(port)
            + name_field(name),
    }
}

/// Parse `k` length-prefixed lines starting at `off`; on success, the lines
/// and the offset just past them.
pub open spec fn parse_lines(b: Seq<u8>, off: int, k: int) -> Option<(Seq<Seq<char>>, int)>
    decreases k,
{
    if k <= 0 {
        Some((Seq::empty(), off))
    } else if off + 2 > b.len() {
        None
    } else {
        let ll = be16(b[off], b[off + 1]) as int;
        if off + 2 + ll > b.len() {
            None
        } else {
            let line = str_of_bytes(b.subrange(off + 2, off + 2 + ll));
            match parse_lines(b, off + 2 + ll, k - 1) {
                Some(p) => Some((seq![line] + p.0, p.1)),
                None => None,
            }
        }
    }
}

/// The total parse of a byte string: the decoded message and the number of
/// bytes its encoding occupies, or nothing if any length check fails, the tag
/// is unknown, or a compressed payload is malformed. Trailing bytes beyond
/// the consumed length are ignored.
pub open spec fn decode_full(b: Seq<u8>) -> Option<(MsgAbs, int)> {
    if b.len() < 1 {
        None
    } else {
        let t = b[0];
        if t == 0x01 {
            if b.len() < 2 {
                None
            } else {
                let n = b[1] as int;
                if b.len() < 4 + n {
                    None
                } else {
                    let from = str_of_bytes(b.subrange(2, 2 + n));
                    let tl = be16(b[2 + n], b[3 + n]) as int;
                    if b.len() < 4 + n + tl {
                        None
                    } else {
                        Some(
                            (
                                MsgAbs::Chat {
                                    from,
                                    text: str_of_bytes(b.subrange(4 + n, 4 + n + tl)),
                                },
                                4 + n + tl,
                            ),
                        )
                    }
                }
            }
        } else if t == 0x02 {
            if b.len() < 5 {
                None
            } else {
                Some((MsgAbs::Ping { seq: be32(b[1], b[2], b[3], b[4]) }, 5))
            }
        } else if t == 0x03 {
            if b.len() < 5 {
                None
            } else {
                Some((MsgAbs::Pong { seq: be32(b[1], b[2], b[3], b[4]) }, 5))
            }
        } else if t == 0x04 || t == 0x05 || t == 0x07 || t == 0x08 || t == 0x09 {
            if b.len() < 2 {
                None
            } else {
                let n = b[1] as int;
                if b.len() < 2 + n {
                    None
                } else {
                    let s = str_of_bytes(b.subrange(2, 2 + n));
                    Some((name_only_abs(t, s), 2 + n))
                }
            }
        } else if t == 0x06 {
            if b.len() < 2 {
                None
            } else {
                let n = b[1] as int;
                if b.len() < 3 + n {
                    None
                } else {
                    let from = str_of_bytes(b.subrange(2, 2 + n));
                    let k = b[2 + n] as int;
                    match parse_lines(b, 3 + n, k) {
                        Some(p) => Some((MsgAbs::StreamFrame { from, lines: p.0 }, p.1)),
                        None => None,
                    }
                }
            }
        } else if t == 0x0A {
            if b.len() < 2 {
                None
            } else {
                let n = b[1] as int;
                if b.len() < 14 + n {
                    None
                } else {
                    let from = str_of_bytes(b.subrange(2, 2 + n));
                    let width = be16(b[2 + n], b[3 + n]);
                    let height = be16(b[4 + n], b[5 + n]);
                    let clen = be32(b[10 + n], b[11 + n], b[12 + n], b[13 + n]) as int;
                    if b.len() < 14 + n + clen {
                        None
                    } else {
                        match lz4_unblock(b.subrange(14 + n, 14 + n + clen)) {
                            Some(pixels) => Some(
                                (
                                    MsgAbs::VideoFrame { from, width, height, pixels },
                                    14 + n + clen,
                                ),
                            ),
                            None => None,
                        }
                    }
                }
            }
        } else if t == 0x0B {
            if b.len() < 4 {
                None
            } else {
                let port = be16(b[1], b[2]);
                let n = b[3] as int;
                if b.len() < 4 + n {
                    None
                } else {
                    Some(
                        (
                            MsgAbs::DiscoveryAnnounce {
                                name: str_of_bytes(b.subrange(4, 4 + n)),
                                port,
                            },
                            4 + n,
                        ),
                    )
                }
            }
        } else if t == 0x0C {
            if b.len() < 2 {
                None
            } else {
                let n = b[1] as int;
                if b.len() < 13 + n {
                    None
                } else {
                    let from = str_of_bytes(b.subrange(2, 2 + n));
                    let width = be16(b[2 + n], b[3 + n]);
                    let height = be16(b[4 + n], b[5 + n]);
                    let frame_id = b[6 + n];
                    let fragment_idx = b[7 + n];
                    let total_fragments = b[8 + n];
                    let dlen = be32(b[9 + n], b[10 + n], b[11 + n], b[12 + n]) as int;
                    if b.len() < 13 + n + dlen {
                        None
                    } else {
                        Some(
                            (
                                MsgAbs::VideoFrameFragment {
                                    from,
                                    width,
                                    height,
                                    frame_id,
                                    fragment_idx,
                                    total_fragments,
                                    data: b.subrange(13 + n, 13 + n + dlen),
                                },
                                13 + n + dlen,
                            ),
                        )
                    }
                }
            }
        } else {
            None
        }
    }
}

/// The variant a name-only tag byte decodes to.
pub open spec fn name_only_abs(t: u8, s: Seq<char>) -> MsgAbs {
    if t == 0x04 {
        MsgAbs::Join { name: s }
    } else if t == 0x05 {
        MsgAbs::Leave { name: s }
    } else if t == 0x07 {
        MsgAbs::CallRequest { from: s }
    } else if t == 0x08 {
        MsgAbs::CallHangup { from: s }
    } else {
        MsgAbs::CallReject { from: s }
    }
}

/// The message a byte string decodes to, if any.
pub open spec fn decode_spec(b: Seq<u8>) -> Option<MsgAbs> {
    match decode_full(b) {
        Some(p) => Some(p.0),
        None => None,
    }
}

/// The abstract content of an optional message.
pub open spec fn abs_opt(r: Option<Message>) -> Option<MsgAbs> {
    match r {
        Some(m) => Some(m.abs()),
        None => None,
    }
}

} // verus!

verus! {

proof fn lemma_utf8_id(s: Seq<char>)
    ensures
        str_of_bytes(encode_utf8(s)) == s,
{
    vstd::utf8::encode_utf8_valid_utf8(s);
    vstd::utf8::encode_utf8_decode_utf8(s);
}

proof fn lemma_parse_chat(from: Seq<char>, text: Seq<char>)
    requires
        encode_utf8(from).len() <= 255,
        encode_utf8(text).len() <= 0xffff,
    ensures
        decode_full(encode_spec(MsgAbs::Chat { from, text })) == Some(
            (MsgAbs::Chat { from, text }, encode_spec(MsgAbs::Chat { from, text }).len() as int),
        ),
{
    let e = encode_spec(MsgAbs::Chat { from, text });
    let ef = encode_utf8(from);
    let et = encode_utf8(text);
    let n = ef.len() as int;
    let tl = et.len() as int;
    assert(e.len() == 4 + n + tl);
    assert(e[1] == n as u8);
    assert(e.subrange(2, 2 + n) =~= ef);
    assert(e[2 + n] == u16_be_bytes(tl as u16)[0]);
    assert(e[3 + n] == u16_be_bytes(tl as u16)[1]);
    crate::util::lemma_be16_roundtrip(tl as u16);
    assert(be16(e[2 + n], e[3 + n]) as int == tl);
    assert(e.subrange(4 + n, 4 + n + tl) =~= et);
    lemma_utf8_id(from);
    lemma_utf8_id(text);
}

proof fn lemma_parse_seq32(t: u8, x: u32)
    requires
        t == 0x02 || t == 0x03,
    ensures
        t == 0x02 ==> decode_full(seq![t] + u32_be_bytes(x)) == Some((MsgAbs::Ping { seq: x }, 5int)),
        t == 0x03 ==> decode_full(seq![t] + u32_be_bytes(x)) == Some((MsgAbs::Pong { seq: x }, 5int)),
{
    let e = seq![t] + u32_be_bytes(x);
    assert(e.len() == 5);
    crate::util::lemma_be32_roundtrip(x);
    assert(e[1] == u32_be_bytes(x)[0]);
    assert(e[2] == u32_be_bytes(x)[1]);
    assert(e[3] == u32_be_bytes(x)[2]);
    assert(e[4] == u32_be_bytes(x)[3]);
}

proof fn lemma_parse_name_only(t: u8, s: Seq<char>)
    requires
        t == 0x04 || t == 0x05 || t == 0x07 || t == 0x08 || t == 0x09,
        encode_utf8(s).len() <= 255,
    ensures
        decode_full(seq![t] + name_field(s)) == Some(
            (name_only_abs(t, s), 2 + encode_utf8(s).len() as int),
        ),
{
    let e = seq![t] + name_field(s);
    let es = encode_utf8(s);
    let n = es.len() as int;
    assert(e.len() == 2 + n);
    assert(e[1] == n as u8);
    assert(e.subrange(2, 2 + n) =~= es);
    lemma_utf8_id(s);
}

proof fn lemma_parse_discovery(name: Seq<char>, port: u16)
    requires
        encode_utf8(name).len() <= 255,
    ensures
        decode_full(encode_spec(MsgAbs::DiscoveryAnnounce { name, port })) == Some(
            (
                MsgAbs::DiscoveryAnnounce { name, port },
                encode_spec(MsgAbs::DiscoveryAnnounce { name, port }).len() as int,
            ),
        ),
{
    let e = encode_spec(MsgAbs::DiscoveryAnnounce { name, port });
    let en = encode_utf8(name);
    let n = en.len() as int;
    assert(e.len() == 4 + n);
    assert(e[1] == u16_be_bytes(port)[0]);
    assert(e[2] == u16_be_bytes(port)[1]);
    crate::util::lemma_be16_roundtrip(port);
    assert(e[3] == n as u8);
    assert(e.subrange(4, 4 + n) =~= en);
    lemma_utf8_id(name);
}

proof fn lemma_parse_lines_encode(b: Seq<u8>, off: int, lines: Seq<Seq<char>>)
    requires
        0 <= off <= b.len(),
        b.subrange(off, b.len() as int) =~= encode_lines(lines),
        forall|i: int| 0 <= i < lines.len() ==> encode_utf8(#[trigger] lines[i]).len() <= 0xffff,
    ensures
        parse_lines(b, off, lines.len() as int) == Some((lines, b.len() as int)),
    decreases lines.len(),
{
    let sub = b.subrange(off, b.len() as int);
    if lines.len() == 0 {
        assert(encode_lines(lines).len() == 0);
        assert(sub.len() == 0);
        assert(b.len() == off);
        assert(lines =~= Seq::<Seq<char>>::empty());
    } else {
        let l0 = lines[0];
        let e0 = encode_utf8(l0);
        let ll = e0.len() as int;
        let rest = encode_lines(lines.drop_first());
        assert(encode_utf8(lines[0]).len() <= 0xffff);
        assert(encode_lines(lines) == u16_be_bytes(ll as u16) + e0 + rest);
        assert(sub == encode_lines(lines));
        assert(sub.len() == 2 + ll + rest.len());
        assert(b.len() - off == 2 + ll + rest.len());
        assert(b[off] == sub[0]);
        assert(b[off + 1] == sub[1]);
        assert(b[off] == u16_be_bytes(ll as u16)[0]);
        assert(b[off + 1] == u16_be_bytes(ll as u16)[1]);
        crate::util::lemma_be16_roundtrip(ll as u16);
        assert((ll as u16) as int == ll);
        assert(be16(b[off], b[off + 1]) as int == ll);
        assert forall|i: int| 0 <= i < ll implies b.subrange(off + 2, off + 2 + ll)[i] == e0[i] by {
            assert(b.subrange(off + 2, off + 2 + ll)[i] == b[off + 2 + i]);
            assert(sub[2 + i] == b[off + 2 + i]);
            assert(sub[2 + i] == e0[i]);
        }
        assert(b.subrange(off + 2, off + 2 + ll) =~= e0);
        lemma_utf8_id(l0);
        assert forall|i: int| 0 <= i < rest.len() implies b.subrange(off + 2 + ll, b.len() as int)[i]
            == rest[i] by {
            assert(b.subrange(off + 2 + ll, b.len() as int)[i] == b[off + 2 + ll + i]);
            assert(sub[2 + ll + i] == b[off + 2 + ll + i]);
            assert(sub[2 + ll + i] == rest[i]);
        }
        assert(b.subrange(off + 2 + ll, b.len() as int) =~= rest);
        lemma_parse_lines_encode(b, off + 2 + ll, lines.drop_first());
        assert(seq![l0] + lines.drop_first() =~= lines);
    }
}

proof fn lemma_parse_stream(from: Seq<char>, lines: Seq<Seq<char>>)
    requires
        encode_utf8(from).len() <= 255,
        lines.len() <= 255,
        forall|i: int| 0 <= i < lines.len() ==> encode_utf8(#[trigger] lines[i]).len() <= 0xffff,
    ensures
        decode_full(encode_spec(MsgAbs::StreamFrame { from, lines })) == Some(
            (
                MsgAbs::StreamFrame { from, lines },
                encode_spec(MsgAbs::StreamFrame { from, lines }).len() as int,
            ),
        ),
{
    let e = encode_spec(MsgAbs::StreamFrame { from, lines });
    let ef = encode_utf8(from);
    let n = ef.len() as int;
    assert(e.len() == 3 + n + encode_lines(lines).len());
    assert(e[1] == n as u8);
    assert(e.subrange(2, 2 + n) =~= ef);
    lemma_utf8_id(from);
    assert(e[2 + n] == lines.len() as u8);
    assert(e.subrange(3 + n, e.len() as int) =~= encode_lines(lines));
    lemma_parse_lines_encode(e, 3 + n, lines);
}

proof fn lemma_parse_video(from: Seq<char>, width: u16, height: u16, pixels: Seq<u8>, c: Seq<u8>)
    requires
        encode_utf8(from).len() <= 255,
        pixels.len() <= MAX_VIDEO_PIXEL_BYTES,
        c == lz4_block(pixels),
        lz4_unblock(c) == Some(pixels),
        c.len() <= 0xffffffff,
    ensures
        decode_full(encode_spec(MsgAbs::VideoFrame { from, width, height, pixels })) == Some(
            (
                MsgAbs::VideoFrame { from, width, height, pixels },
                encode_spec(MsgAbs::VideoFrame { from, width, height, pixels }).len() as int,
            ),
        ),
{
    let e = encode_spec(MsgAbs::VideoFrame { from, width, height, pixels });
    let ef = encode_utf8(from);
    let n = ef.len() as int;
    let clen = c.len() as int;
    assert(e.len() == 14 + n + clen);
    assert(e[1] == n as u8);
    assert(e.subrange(2, 2 + n) =~= ef);
    lemma_utf8_id(from);
    assert(e[2 + n] == u16_be_bytes(width)[0]);
    assert(e[3 + n] == u16_be_bytes(width)[1]);
    assert(e[4 + n] == u16_be_bytes(height)[0]);
    assert(e[5 + n] == u16_be_bytes(height)[1]);
    crate::util::lemma_be16_roundtrip(width);
    crate::util::lemma_be16_roundtrip(height);
    assert(e[10 + n] == u32_be_bytes(clen as u32)[0]);
    assert(e[11 + n] == u32_be_bytes(clen as u32)[1]);
    assert(e[12 + n] == u32_be_bytes(clen as u32)[2]);
    assert(e[13 + n] == u32_be_bytes(clen as u32)[3]);
    crate::util::lemma_be32_roundtrip(clen as u32);
    assert(be32(e[10 + n], e[11 + n], e[12 + n], e[13 + n]) as int == clen);
    assert(e.subrange(14 + n, 14 + n + clen) =~= c);
}

proof fn lemma_parse_fragment(
    from: Seq<char>,
    width: u16,
    height: u16,
    frame_id: u8,
    fragment_idx: u8,
    total_fragments: u8,
    data: Seq<u8>,
)
    requires
        encode_utf8(from).len() <= 255,
        data.len() <= 0xffffffff,
    ensures
        decode_full(
            encode_spec(
                MsgAbs::VideoFrameFragment {
                    from,
                    width,
                    height,
                    frame_id,
                    fragment_idx,
                    total_fragments,
                    data,
                },
            ),
        ) == Some(
            (
                MsgAbs::VideoFrameFragment {
                    from,
                    width,
                    height,
                    frame_id,
                    fragment_idx,
                    total_fragments,
                    data,
                },
                encode_spec(
                    MsgAbs::VideoFrameFragment {
                        from,
                        width,
                        height,
                        frame_id,
                        fragment_idx,
                        total_fragments,
                        data,
                    },
                ).len() as int,
            ),
        ),
{
    let a = MsgAbs::VideoFrameFragment {
        from,
        width,
        height,
        frame_id,
        fragment_idx,
        total_fragments,
        data,
    };
    let e = encode_spec(a);
    let ef = encode_utf8(from);
    let n = ef.len() as int;
    let dlen = data.len() as int;
    assert(e.len() == 13 + n + dlen);
    assert(e[1] == n as u8);
    assert(e.subrange(2, 2 + n) =~= ef);
    lemma_utf8_id(from);
    assert(e[2 + n] == u16_be_bytes(width)[0]);
    assert(e[3 + n] == u16_be_bytes(width)[1]);
    assert(e[4 + n] == u16_be_bytes(height)[0]);
    assert(e[5 + n] == u16_be_bytes(height)[1]);
    crate::util::lemma_be16_roundtrip(width);
    crate::util::lemma_be16_roundtrip(height);
    assert(e[6 + n] == frame_id);
    assert(e[7 + n] == fragment_idx);
    assert(e[8 + n] == total_fragments);
    assert(e[9 + n] == u32_be_bytes(dlen as u32)[0]);
    assert(e[10 + n] == u32_be_bytes(dlen as u32)[1]);
    assert(e[11 + n] == u32_be_bytes(dlen as u32)[2]);
    assert(e[12 + n] == u32_be_bytes(dlen as u32)[3]);
    crate::util::lemma_be32_roundtrip(dlen as u32);
    assert(be32(e[9 + n], e[10 + n], e[11 + n], e[12 + n]) as int == dlen);
    assert(e.subrange(13 + n, 13 + n + dlen) =~= data);
}

proof fn lemma_encode_lines_snoc(lines: Seq<Seq<char>>, line: Seq<char>)
    ensures
        encode_lines(lines.push(line)) == encode_lines(lines) + u16_be_bytes(
            encode_utf8(line).len() as u16,
        ) + encode_utf8(line),
    decreases lines.len(),
{
    let p = lines.push(line);
    let lf = u16_be_bytes(encode_utf8(line).len() as u16) + encode_utf8(line);
    if lines.len() == 0 {
        assert(p[0] == line);
        assert(p.drop_first() =~= Seq::<Seq<char>>::empty());
        assert(p.drop_first().len() == 0);
        assert(encode_lines(p.drop_first()).len() == 0);
        assert(encode_lines(p) == u16_be_bytes(encode_utf8(p[0]).len() as u16) + encode_utf8(p[0])
            + encode_lines(p.drop_first()));
        assert(encode_lines(lines).len() == 0);
        assert(encode_lines(p) =~= encode_lines(lines) + lf);
    } else {
        assert(p[0] == lines[0]);
        assert(p.drop_first() =~= lines.drop_first().push(line));
        lemma_encode_lines_snoc(lines.drop_first(), line);
        assert(encode_lines(p.drop_first()) == encode_lines(lines.drop_first()) + lf);
        assert(encode_lines(p) == u16_be_bytes(encode_utf8(p[0]).len() as u16) + encode_utf8(p[0])
            + encode_lines(p.drop_first()));
        assert(encode_lines(lines) == u16_be_bytes(encode_utf8(lines[0]).len() as u16)
            + encode_utf8(lines[0]) + encode_lines(lines.drop_first()));
        assert(encode_lines(p) =~= encode_lines(lines) + lf);
    }
}

} // verus!

verus! {

impl Message {
    /// Serialize the message to its wire bytes. The result is exactly
    /// `encode_spec` of the message's content, and decoding it yields that
    /// content back while consuming every byte.
    pub fn to_bytes(&self) -> (r: Vec<u8>)
        requires
            self.abs().wf(),
        ensures
            r@ == encode_spec(self.abs()),
            decode_full(r@) == Some((self.abs(), r@.len() as int)),
    {
        let mut buf: Vec<u8> = Vec::new();
        match self {
            Message::Chat { from, text } => {
                buf.push(0x01);
                let fb = from.as_str().as_bytes();
                buf.push(fb.len() as u8);
                push_bytes(&mut buf, fb);
                let tb = text.as_str().as_bytes();
                push_be16(&mut buf, tb.len() as u16);
                push_bytes(&mut buf, tb);
                proof {
                    assert(buf@ =~= encode_spec(self.abs()));
                    lemma_parse_chat(from@, text@);
                }
            }
            Message::Ping { seq } => {
                buf.push(0x02);
                push_be32(&mut buf, *seq);
                proof {
                    assert(buf@ =~= encode_spec(self.abs()));
                    lemma_parse_seq32(0x02, *seq);
                }
            }
            Message::Pong { seq } => {
                buf.push(0x03);
                push_be32(&mut buf, *seq);
                proof {
                    assert(buf@ =~= encode_spec(self.abs()));
                    lemma_parse_seq32(0x03, *seq);
                }
            }
            Message::Join { name } => {
                buf.push(0x04);
                let nb = name.as_str().as_bytes();
                buf.push(nb.len() as u8);
                push_bytes(&mut buf, nb);
                proof {
                    assert(buf@ =~= encode_spec(self.abs()));
                    lemma_parse_name_only(0x04, name@);
                }
            }
            Message::Leave { name } => {
                buf.push(0x05);
                let nb = name.as_str().as_bytes();
                buf.push(nb.len() as u8);
                push_bytes(&mut buf, nb);
                proof {
                    assert(buf@ =~= encode_spec(self.abs()));
                    lemma_parse_name_only(0x05, name@);
                }
            }
            Message::CallRequest { from } => {
                buf.push(0x07);
                let nb = from.as_str().as_bytes();
                buf.push(nb.len() as u8);
                push_bytes(&mut buf, nb);
                proof {
                    assert(buf@ =~= encode_spec(self.abs()));
                    lemma_parse_name_only(0x07, from@);
                }
            }
            Message::CallHangup { from } => {
                buf.push(0x08);
                let nb = from.as_str().as_bytes();
                buf.push(nb.len() as u8);
                push_bytes(&mut buf, nb);
                proof {
                    assert(buf@ =~= encode_spec(self.abs()));
                    lemma_parse_name_only(0x08, from@);
                }
            }
            Message::CallReject { from } => {
                buf.push(0x09);
                let nb = from.as_str().as_bytes();
                buf.push(nb.len() as u8);
                push_bytes(&mut buf, nb);
                proof {
                    assert(buf@ =~= encode_spec(self.abs()));
                    lemma_parse_name_only(0x09, from@);
                }
            }
            Message::StreamFrame { from, lines } => {
                buf.push(0x06);
                let fb = from.as_str().as_bytes();
                buf.push(fb.len() as u8);
                push_bytes(&mut buf, fb);
                buf.push(lines.len() as u8);
                let ghost pre = buf@;
                let ghost ldv = lines.deep_view();
                proof {
                    assert(ldv.take(0) =~= Seq::<Seq<char>>::empty());
                }
                let mut i: usize = 0;
                while i < lines.len()
                    invariant
                        i <= lines@.len(),
                        ldv == lines.deep_view(),
                        ldv.len() == lines@.len(),
                        forall|j: int|
                            0 <= j < ldv.len() ==> encode_utf8(#[trigger] ldv[j]).len() <= 0xffff,
                        forall|j: int| 0 <= j < ldv.len() ==> ldv[j] == #[trigger] lines@[j]@,
                        buf@ == pre + encode_lines(ldv.take(i as int)),
                    decreases lines@.len() - i,
                {
                    let lb = lines[i].as_str().as_bytes();
                    push_be16(&mut buf, lb.len() as u16);
                    push_bytes(&mut buf, lb);
                    proof {
                        lemma_encode_lines_snoc(ldv.take(i as int), ldv[i as int]);
                        assert(ldv.take(i as int).push(ldv[i as int]) =~= ldv.take(i as int + 1));
                        assert(buf@ =~= pre + encode_lines(ldv.take(i as int + 1)));
                    }
                    i += 1;
                }
                proof {
                    assert(ldv.take(lines@.len() as int) =~= ldv);
                    assert(buf@ =~= encode_spec(self.abs()));
                    lemma_parse_stream(from@, ldv);
                }
            }
            Message::VideoFrame { from, width, height, pixels } => {
                buf.push(0x0A);
                let fb = from.as_str().as_bytes();
                buf.push(fb.len() as u8);
                push_bytes(&mut buf, fb);
                push_be16(&mut buf, *width);
                push_be16(&mut buf, *height);
                push_be32(&mut buf, pixels.len() as u32);
                let compressed = lz4_compress(pixels.as_slice());
                proof {
                    assert(pixels@.len() * 110 <= 0xE0000000 * 110);
                    vstd::arithmetic::div_mod::lemma_div_is_ordered(
                        (pixels@.len() * 110) as int,
                        0xE0000000int * 110,
                        100int,
                    );
                    assert(compressed@.len() <= 0xffffffff);
                }
                push_be32(&mut buf, compressed.len() as u32);
                push_bytes(&mut buf, compressed.as_slice());
                proof {
                    assert(buf@ =~= encode_spec(self.abs()));
                    lemma_parse_video(from@, *width, *height, pixels@, compressed@);
                }
            }
            Message::VideoFrameFragment {
                from,
                width,
                height,
                frame_id,
                fragment_idx,
                total_fragments,
                data,
            } => {
                buf.push(0x0C);
                let fb = from.as_str().as_bytes();
                buf.push(fb.len() as u8);
                push_bytes(&mut buf, fb);
                push_be16(&mut buf, *width);
                push_be16(&mut buf, *height);
                buf.push(*frame_id);
                buf.push(*fragment_idx);
                buf.push(*total_fragments);
                push_be32(&mut buf, data.len() as u32);
                push_bytes(&mut buf, data.as_slice());
                proof {
                    assert(buf@ =~= encode_spec(self.abs()));
                    lemma_parse_fragment(
                        from@,
                        *width,
                        *height,
                        *frame_id,
                        *fragment_idx,
                        *total_fragments,
                        data@,
                    );
                }
            }
            Message::DiscoveryAnnounce { name, port } => {
                buf.push(0x0B);
                push_be16(&mut buf, *port);
                let nb = name.as_str().as_bytes();
                buf.push(nb.len() as u8);
                push_bytes(&mut buf, nb);
                proof {
                    assert(buf@ =~= encode_spec(self.abs()));
                    lemma_parse_discovery(name@, *port);
                }
            }
        }
        buf
    }
}

} // verus!

verus! {

impl Message {
    /// Parse one datagram. Returns the decoded message exactly when
    /// `decode_spec` does; any length mismatch, unknown tag or malformed
    /// compressed payload gives `None`.
    pub fn from_bytes(data: &[u8]) -> (r: Option<Message>)
        ensures
            abs_opt(r) == decode_spec(data@),
    {
        if data.len() < 1 {
            return None;
        }
        match data[0] {
            0x01 => {
                if data.len() < 2 {
                    return None;
                }
                let n = data[1] as usize;
                if data.len() < 4 + n {
                    return None;
                }
                let fbytes = bytes_range(data, 2, 2 + n);
                let from = string_of_bytes(&fbytes);
                let text_len = read_be16(data, 2 + n) as usize;
                if data.len() < 4 + n + text_len {
                    return None;
                }
                let tbytes = bytes_range(data, 4 + n, 4 + n + text_len);
                let text = string_of_bytes(&tbytes);
                Some(Message::Chat { from, text })
            }
            0x02 => {
                if data.len() < 5 {
                    return None;
                }
                Some(Message::Ping { seq: read_be32(data, 1) })
            }
            0x03 => {
                if data.len() < 5 {
                    return None;
                }
                Some(Message::Pong { seq: read_be32(data, 1) })
            }
            0x04 => {
                match read_name_only(data) {
                    Some(name) => Some(Message::Join { name }),
                    None => None,
                }
            }
            0x05 => {
                match read_name_only(data) {
                    Some(name) => Some(Message::Leave { name }),
                    None => None,
                }
            }
            0x07 => {
                match read_name_only(data) {
                    Some(from) => Some(Message::CallRequest { from }),
                    None => None,
                }
            }
            0x08 => {
                match read_name_only(data) {
                    Some(from) => Some(Message::CallHangup { from }),
                    None => None,
                }
            }
            0x09 => {
                match read_name_only(data) {
                    Some(from) => Some(Message::CallReject { from }),
                    None => None,
                }
            }
            0x06 => {
                if data.len() < 2 {
                    return None;
                }
                let n = data[1] as usize;
                if data.len() < 3 + n {
                    return None;
                }
                let fbytes = bytes_range(data, 2, 2 + n);
                let from = string_of_bytes(&fbytes);
                let num_lines = data[2 + n] as usize;
                let ghost off0: int = 3 + n;
                let mut offset: usize = 3 + n;
                let mut lines: Vec<String> = Vec::new();
                let mut k: usize = 0;
                proof {
                    assert(lines.deep_view() =~= Seq::<Seq<char>>::empty());
                }
                while k < num_lines
                    invariant
                        data@.len() >= 1,
                        data@[0] == 6,
                        n == data@[1] as usize,
                        3 + n <= data@.len(),
                        num_lines == data@[2 + n as int] as usize,
                        from@ == str_of_bytes(data@.subrange(2, 2 + n as int)),
                        off0 == 3 + n,
                        3 + n <= offset <= data@.len(),
                        k <= num_lines,
                        lines@.len() == k,
                        ({
                            let full = parse_lines(data@, off0, num_lines as int);
                            match parse_lines(data@, offset as int, (num_lines - k) as int) {
                                Some(p) => full == Some((lines.deep_view() + p.0, p.1)),
                                None => full is None,
                            }
                        }),
                    decreases num_lines - k,
                {
                    if data.len() - offset < 2 {
                        proof {
                            assert(parse_lines(data@, offset as int, (num_lines - k) as int)
                                is None);
                        }
                        return None;
                    }
                    let line_len = read_be16(data, offset) as usize;
                    let after = offset + 2;
                    if data.len() - after < line_len {
                        proof {
                            assert(parse_lines(data@, offset as int, (num_lines - k) as int)
                                is None);
                        }
                        return None;
                    }
                    let lbytes = bytes_range(data, after, after + line_len);
                    let line = string_of_bytes(&lbytes);
                    let ghost prev_dv = lines.deep_view();
                    let ghost old_offset = offset as int;
                    let ghost rem = (num_lines - k) as int;
                    let ghost lv = line@;
                    lines.push(line);
                    offset = after + line_len;
                    k += 1;
                    proof {
                        assert(lines.deep_view() =~= prev_dv.push(lv));
                        assert(parse_lines(data@, old_offset, rem) == (match parse_lines(
                            data@,
                            offset as int,
                            rem - 1,
                        ) {
                            Some(p) => Some((seq![lv] + p.0, p.1)),
                            None => None::<(Seq<Seq<char>>, int)>,
                        }));
                        if parse_lines(data@, offset as int, rem - 1) is Some {
                            let p0 = parse_lines(data@, offset as int, rem - 1).unwrap().0;
                            assert(prev_dv + (seq![lv] + p0) =~= lines.deep_view() + p0);
                        }
                    }
                }
                proof {
                    assert(parse_lines(data@, offset as int, 0) == Some(
                        (Seq::<Seq<char>>::empty(), offset as int),
                    ));
                    assert(lines.deep_view() + Seq::<Seq<char>>::empty() =~= lines.deep_view());
                }
                Some(Message::StreamFrame { from, lines })
            }
            0x0A => {
                if data.len() < 2 {
                    return None;
                }
                let n = data[1] as usize;
                if data.len() < 14 + n {
                    return None;
                }
                let fbytes = bytes_range(data, 2, 2 + n);
                let from = string_of_bytes(&fbytes);
                let width = read_be16(data, 2 + n);
                let height = read_be16(data, 4 + n);
                let clen = read_be32(data, 10 + n) as usize;
                let off = 14 + n;
                if data.len() - off < clen {
                    return None;
                }
                let cbytes = bytes_range(data, off, off + clen);
                match lz4_decompress(cbytes.as_slice()) {
                    Some(pixels) => Some(Message::VideoFrame { from, width, height, pixels }),
                    None => None,
                }
            }
            0x0B => {
                if data.len() < 4 {
                    return None;
                }
                let port = read_be16(data, 1);
                let n = data[3] as usize;
                if data.len() < 4 + n {
                    return None;
                }
                let nbytes = bytes_range(data, 4, 4 + n);
                let name = string_of_bytes(&nbytes);
                Some(Message::DiscoveryAnnounce { name, port })
            }
            0x0C => {
                if data.len() < 2 {
                    return None;
                }
                let n = data[1] as usize;
                if data.len() < 13 + n {
                    return None;
                }
                let fbytes = bytes_range(data, 2, 2 + n);
                let from = string_of_bytes(&fbytes);
                let width = read_be16(data, 2 + n);
                let height = read_be16(data, 4 + n);
                let frame_id = data[6 + n];
                let fragment_idx = data[7 + n];
                let total_fragments = data[8 + n];
                let dlen = read_be32(data, 9 + n) as usize;
                let off = 13 + n;
                if data.len() - off < dlen {
                    return None;
                }
                let frag_data = bytes_range(data, off, off + dlen);
                Some(
                    Message::VideoFrameFragment {
                        from,
                        width,
                        height,
                        frame_id,
                        fragment_idx,
                        total_fragments,
                        data: frag_data,
                    },
                )
            }
            _ => None,
        }
    }
}

/// Read a message that is one tag byte and one name field.
fn read_name_only(data: &[u8]) -> (r: Option<String>)
    requires
        data@.len() >= 1,
    ensures
        match r {
            Some(s) => data@.len() >= 2 && 2 + (data@[1] as int) <= data@.len() && s@
                == str_of_bytes(data@.subrange(2, 2 + data@[1] as int)),
            None => data@.len() < 2 || data@.len() < 2 + data@[1] as int,
        },
{
    if data.len() < 2 {
        return None;
    }
    let n = data[1] as usize;
    if data.len() < 2 + n {
        return None;
    }
    let nbytes = bytes_range(data, 2, 2 + n);
    Some(string_of_bytes(&nbytes))
}

} // verus!

verus! {

/// Round trip of the codec: a well-formed message decodes from its own
/// encoding, as one value. The compressed video-frame variant carries the
/// same guarantee as part of `to_bytes`'s contract, where the behaviour of
/// the compressor is in scope.
pub proof fn lemma_encode_decode_roundtrip(a: MsgAbs)
    requires
        a.wf(),
        !(a is VideoFrame),
    ensures
        decode_spec(encode_spec(a)) == Some(a),
{
    match a {
        MsgAbs::Chat { from, text } => lemma_parse_chat(from, text),
        MsgAbs::Ping { seq } => lemma_parse_seq32(0x02, seq),
        MsgAbs::Pong { seq } => lemma_parse_seq32(0x03, seq),
        MsgAbs::Join { name } => lemma_parse_name_only(0x04, name),
        MsgAbs::Leave { name } => lemma_parse_name_only(0x05, name),
        MsgAbs::CallRequest { from } => lemma_parse_name_only(0x07, from),
        MsgAbs::CallHangup { from } => lemma_parse_name_only(0x08, from),
        MsgAbs::CallReject { from } => lemma_parse_name_only(0x09, from),
        MsgAbs::StreamFrame { from, lines } => lemma_parse_stream(from, lines),
        MsgAbs::VideoFrame { .. } => assert(false),
        MsgAbs::VideoFrameFragment {
            from,
            width,
            height,
            frame_id,
            fragment_idx,
            total_fragments,
            data,
        } => lemma_parse_fragment(
            from,
            width,
            height,
            frame_id,
            fragment_idx,
            total_fragments,
            data,
        ),
        MsgAbs::DiscoveryAnnounce { name, port } => lemma_parse_discovery(name, port),
    }
}

/// The fewest bytes on which a tag byte could ever decode: the tag itself
/// plus each fixed field and one byte per length prefix, all lengths zero.
pub open spec fn tag_min_len(t: u8) -> int {
    if t == 0x01 {
        4
    } else if t == 0x02 || t == 0x03 {
        5
    } else if t == 0x04 || t == 0x05 || t == 0x07 || t == 0x08 || t == 0x09 {
        2
    } else if t == 0x06 {
        3
    } else if t == 0x0A {
        14
    } else if t == 0x0B {
        4
    } else if t == 0x0C {
        13
    } else {
        1
    }
}

/// A byte string shorter than the minimum its tag byte implies never decodes.
pub proof fn lemma_short_input_decodes_none(b: Seq<u8>)
    requires
        b.len() >= 1,
        b.len() < tag_min_len(b[0]),
    ensures
        decode_spec(b) is None,
{
}

/// The empty byte string never decodes.
pub proof fn lemma_empty_decodes_none(b: Seq<u8>)
    requires
        b.len() == 0,
    ensures
        decode_spec(b) is None,
{
}

proof fn lemma_parse_lines_truncated(b: Seq<u8>, off: int, k: int, i: int)
    requires
        0 <= off,
        i <= b.len(),
        parse_lines(b, off, k) is Some,
        off <= i < parse_lines(b, off, k).unwrap().1,
    ensures
        parse_lines(b.take(i), off, k) is None,
    decreases k,
{
    let end = parse_lines(b, off, k).unwrap().1;
    if k <= 0 {
        assert(end == off);
        assert(false);
    } else {
        let bt = b.take(i);
        if i < off + 2 {
            assert(bt.len() < off + 2);
        } else {
            assert(bt[off] == b[off] && bt[off + 1] == b[off + 1]);
            let ll = be16(b[off], b[off + 1]) as int;
            if off + 2 + ll <= i {
                lemma_parse_lines_truncated(b, off + 2 + ll, k - 1, i);
            }
        }
    }
}

/// Truncating a complete encoding at any byte offset makes it undecodable: if
/// a byte string decodes with every byte consumed, no strict prefix of it
/// decodes at all.
pub proof fn lemma_truncated_encoding_decodes_none(b: Seq<u8>, i: int)
    requires
        decode_full(b) is Some,
        decode_full(b).unwrap().1 == b.len(),
        0 <= i < b.len(),
    ensures
        decode_spec(b.take(i)) is None,
{
    let bt = b.take(i);
    if i == 0 {
        assert(bt.len() == 0);
    } else {
        let t = b[0];
        assert(bt[0] == t);
        if t == 0x01 {
            let n = b[1] as int;
            if 2 <= i {
                assert(bt[1] == b[1]);
                if 4 + n <= i {
                    assert(bt[2 + n] == b[2 + n] && bt[3 + n] == b[3 + n]);
                }
            }
        } else if t == 0x02 || t == 0x03 {
            assert(bt.len() < 5);
        } else if t == 0x04 || t == 0x05 || t == 0x07 || t == 0x08 || t == 0x09 {
            if 2 <= i {
                assert(bt[1] == b[1]);
            }
        } else if t == 0x06 {
            let n = b[1] as int;
            if 2 <= i {
                assert(bt[1] == b[1]);
                if 3 + n <= i {
                    assert(bt[2 + n] == b[2 + n]);
                    let k = b[2 + n] as int;
                    lemma_parse_lines_truncated(b, 3 + n, k, i);
                }
            }
        } else if t == 0x0A {
            let n = b[1] as int;
            if 2 <= i {
                assert(bt[1] == b[1]);
                if 14 + n <= i {
                    assert(bt[10 + n] == b[10 + n] && bt[11 + n] == b[11 + n] && bt[12 + n] == b[12
                        + n] && bt[13 + n] == b[13 + n]);
                }
            }
        } else if t == 0x0B {
            if 4 <= i {
                assert(bt[3] == b[3]);
            }
        } else if t == 0x0C {
            let n = b[1] as int;
            if 2 <= i {
                assert(bt[1] == b[1]);
                if 13 + n <= i {
                    assert(bt[9 + n] == b[9 + n] && bt[10 + n] == b[10 + n] && bt[11 + n] == b[11
                        + n] && bt[12 + n] == b[12 + n]);
                }
            }
        }
    }
}

} // verus!
