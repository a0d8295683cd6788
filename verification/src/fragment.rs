//! Fragmentation of oversized video payloads and their reassembly.
//!
//! A compressed frame that exceeds the safe datagram payload is cut into
//! chunks of at most `MAX_FRAGMENT_SIZE` bytes, each sent as one
//! `VideoFrameFragment`. The receiver collects chunks in a `FragmentBuffer`
//! indexed by fragment number, so arrival order does not matter, and rebuilds
//! the frame once every slot is filled.

use vstd::prelude::*;
use vstd::utf8::encode_utf8;

use crate::codec::Message;
use crate::error::NetworkError;
use crate::lz4::{lz4_block, lz4_compress, lz4_decompress, lz4_unblock};
use crate::util::bytes_range;
use crate::MAX_FRAGMENT_SIZE;

verus! {

/// How long an incomplete reassembly buffer is kept, in milliseconds.
pub const FRAGMENT_TTL_MS: u64 = 2000;

/// The concatenation of a sequence of byte chunks.
pub open spec fn concat_chunks(s: Seq<Seq<u8>>) -> Seq<u8>
    decreases s.len(),
{
    if s.len() == 0 {
        Seq::empty()
    } else {
        concat_chunks(s.drop_last()) + s.last()
    }
}

/// The bytes held by a sequence of fragment slots, empty slots contributing
/// nothing, in slot order.
pub open spec fn concat_slots(s: Seq<Option<Seq<u8>>>) -> Seq<u8>
    decreases s.len(),
{
    if s.len() == 0 {
        Seq::empty()
    } else {
        concat_slots(s.drop_last()) + (match s.last() {
            Some(d) => d,
            None => Seq::empty(),
        })
    }
}

/// The payload data of a message, for fragment messages; other messages
/// carry none here.
pub open spec fn frag_data_of(m: Message) -> Seq<u8> {
    match m {
        Message::VideoFrameFragment { data, .. } => data@,
        _ => Seq::empty(),
    }
}

/// Reassembly state for one in-flight frame, keyed by the sending peer's
/// name and the frame id.
pub struct FragmentBuffer {
    pub from: String,
    pub width: u16,
    pub height: u16,
    pub frame_id: u8,
    pub total_fragments: u8,
    pub fragments: Vec<Option<Vec<u8>>>,
    /// When the buffer was created, in milliseconds on the node's clock.
    pub received_at: u64,
}

impl FragmentBuffer {
    /// One slot per expected fragment.
    pub open spec fn wf(self) -> bool {
        self.fragments@.len() == self.total_fragments as int
    }

    /// The slot contents as byte sequences.
    pub open spec fn slots(self) -> Seq<Option<Seq<u8>>> {
        self.fragments.deep_view()
    }

    /// Every expected fragment has arrived.
    pub open spec fn complete(self) -> bool {
        forall|i: int| 0 <= i < self.slots().len() ==> self.slots()[i] is Some
    }

    /// A fresh buffer with every slot empty.
    pub fn new(
        from: String,
        width: u16,
        height: u16,
        frame_id: u8,
        total_fragments: u8,
        now: u64,
    ) -> (r: Self)
        ensures
            r.wf(),
            r.from == from,
            r.width == width,
            r.height == height,
            r.frame_id == frame_id,
            r.total_fragments == total_fragments,
            r.received_at == now,
            forall|i: int| 0 <= i < r.slots().len() ==> r.slots()[i] is None,
    {
        let mut fragments: Vec<Option<Vec<u8>>> = Vec::new();
        let mut i: usize = 0;
        while i < total_fragments as usize
            invariant
                i <= total_fragments as usize,
                fragments@.len() == i,
                forall|j: int| 0 <= j < i ==> fragments@[j] is None,
            decreases total_fragments as usize - i,
        {
            fragments.push(None);
            i += 1;
        }
        let r = FragmentBuffer { from, width, height, frame_id, total_fragments, fragments, received_at: now };
        proof {
            assert(forall|j: int|
                0 <= j < r.slots().len() ==> r.slots()[j] == r.fragments@[j].deep_view());
        }
        r
    }

    /// Store one fragment at its index; an index beyond the expected count is
    /// ignored.
    pub fn add_fragment(&mut self, idx: u8, data: Vec<u8>)
        ensures
            final(self).from == old(self).from,
            final(self).width == old(self).width,
            final(self).height == old(self).height,
            final(self).frame_id == old(self).frame_id,
            final(self).total_fragments == old(self).total_fragments,
            final(self).received_at == old(self).received_at,
            (idx as int) < old(self).slots().len() ==> final(self).slots() == old(self).slots()
                .update(idx as int, Some(data@)),
            (idx as int) >= old(self).slots().len() ==> final(self).slots() == old(self).slots(),
            final(self).wf() == old(self).wf(),
    {
        if (idx as usize) < self.fragments.len() {
            self.fragments[idx as usize] = Some(data);
            proof {
                assert(self.fragments@ == old(self).fragments@.update(idx as int, Some(data)));
                assert forall|j: int| 0 <= j < self.slots().len() implies self.slots()[j]
                    == old(self).slots().update(idx as int, Some(data@))[j] by {
                    assert(self.slots()[j] == self.fragments@[j].deep_view());
                    if j == idx as int {
                        assert(self.fragments@[j] == Some(data));
                        assert(self.fragments@[j].deep_view() == Some(data@));
                    } else {
                        assert(self.fragments@[j] == old(self).fragments@[j]);
                    }
                }
                assert(self.slots() =~= old(self).slots().update(idx as int, Some(data@)));
            }
        }
    }

    /// Whether every slot is filled.
    pub fn is_complete(&self) -> (r: bool)
        ensures
            r == self.complete(),
    {
        let mut i: usize = 0;
        while i < self.fragments.len()
            invariant
                i <= self.fragments@.len(),
                forall|j: int| 0 <= j < i ==> self.slots()[j] is Some,
            decreases self.fragments@.len() - i,
        {
            if self.fragments[i].is_none() {
                proof {
                    assert(self.slots()[i as int] is None);
                }
                return false;
            }
            proof {
                assert(self.slots()[i as int] is Some);
            }
            i += 1;
        }
        true
    }

    /// Concatenate the fragments in index order and decompress. Nothing is
    /// returned until the buffer is complete; a complete buffer yields the
    /// decompressed payload exactly when the joined bytes form a valid block.
    pub fn reassemble(&self) -> (r: Option<Vec<u8>>)
        ensures
            !self.complete() ==> r is None,
            self.complete() ==> match lz4_unblock(concat_slots(self.slots())) {
                Some(p) => r matches Some(v) && v@ == p,
                None => r is None,
            },
    {
        if !self.is_complete() {
            return None;
        }
        let mut joined: Vec<u8> = Vec::new();
        let mut i: usize = 0;
        while i < self.fragments.len()
            invariant
                i <= self.fragments@.len(),
                self.complete(),
                self.slots().len() == self.fragments@.len(),
                joined@ == concat_slots(self.slots().take(i as int)),
            decreases self.fragments@.len() - i,
        {
            match &self.fragments[i] {
                Some(d) => {
                    crate::util::push_bytes(&mut joined, d.as_slice());
                    proof {
                        let ghost t = self.slots().take(i as int + 1);
                        assert(t.drop_last() =~= self.slots().take(i as int));
                        assert(t.last() == self.slots()[i as int]);
                        assert(self.slots()[i as int] == Some(d@));
                    }
                }
                None => {
                    proof {
                        assert(self.slots()[i as int] is Some);
                        assert(self.fragments@[i as int].deep_view() is Some);
                        assert(false);
                    }
                    return None;
                }
            }
            i += 1;
        }
        proof {
            assert(self.slots().take(self.fragments@.len() as int) =~= self.slots());
        }
        lz4_decompress(joined.as_slice())
    }
}

/// Compress a frame's pixels and cut the block into fragment messages.
///
/// A block no larger than `MAX_FRAGMENT_SIZE` travels as a single fragment
/// with `total_fragments` 1; a larger block is cut into chunks of that size,
/// all carrying the same `frame_id` and the common total. A frame that would
/// need more than 255 chunks is refused rather than truncated.
///
/// The data fields of the produced messages, joined in fragment order, are
/// exactly the compressed block, and decompressing them gives the pixels
/// back.
pub fn make_video_fragments(
    from: &str,
    width: u16,
    height: u16,
    pixels: &Vec<u8>,
    frame_id: u8,
) -> (r: Result<Vec<Message>, NetworkError>)
    requires
        encode_utf8(from@).len() <= 255,
        pixels@.len() <= crate::codec::MAX_VIDEO_PIXEL_BYTES,
    ensures
        ({
            let c = lz4_block(pixels@);
            let chunks = if c.len() <= MAX_FRAGMENT_SIZE {
                1int
            } else {
                (c.len() + (MAX_FRAGMENT_SIZE - 1)) as int / MAX_FRAGMENT_SIZE as int
            };
            match r {
                Ok(msgs) => {
                    &&& chunks <= 255
                    &&& msgs@.len() == chunks
                    &&& (forall|i: int|
                        0 <= i < msgs@.len() ==> ((#[trigger] msgs@[i]) matches
                            Message::VideoFrameFragment {
                            from: f,
                            width: w,
                            height: h,
                            frame_id: id,
                            fragment_idx: idx,
                            total_fragments: tot,
                            data,
                        } && f@ == from@ && w == width && h == height && id == frame_id && idx
                            == i && tot == chunks && data@.len() <= MAX_FRAGMENT_SIZE))
                    &&& (forall|i: int|
                        0 <= i < msgs@.len() ==> (#[trigger] msgs@[i]).abs().wf())
                    &&& concat_chunks(msgs@.map_values(|m: Message| frag_data_of(m))) == c
                    &&& lz4_unblock(
                        concat_chunks(msgs@.map_values(|m: Message| frag_data_of(m))),
                    ) == Some(pixels@)
                },
                Err(e) => chunks > 255 && e is Send,
            }
        }),
{
    let compressed = lz4_compress(pixels.as_slice());
    if compressed.len() <= MAX_FRAGMENT_SIZE {
        let msg = Message::VideoFrameFragment {
            from: from.to_owned(),
            width,
            height,
            frame_id,
            fragment_idx: 0,
            total_fragments: 1,
            data: compressed,
        };
        let mut msgs: Vec<Message> = Vec::new();
        msgs.push(msg);
        proof {
            let ghost ds = msgs@.map_values(|m: Message| frag_data_of(m));
            assert(ds.len() == 1);
            assert(ds[0] == frag_data_of(msgs@[0]));
            assert(ds.last() == lz4_block(pixels@));
            assert(ds.drop_last() =~= Seq::<Seq<u8>>::empty());
            assert(concat_chunks(ds.drop_last()) + ds.last() =~= lz4_block(pixels@));
            assert(concat_chunks(ds) =~= lz4_block(pixels@));
        }
        Ok(msgs)
    } else {
        let total = (compressed.len() + (MAX_FRAGMENT_SIZE - 1)) / MAX_FRAGMENT_SIZE;
        if total > 255 {
            return Err(NetworkError::Send("Frame too large to fragment".to_owned()));
        }
        let mut msgs: Vec<Message> = Vec::new();
        let mut i: usize = 0;
        while i < total
            invariant
                encode_utf8(from@).len() <= 255,
                compressed@ == lz4_block(pixels@),
                MAX_FRAGMENT_SIZE < compressed@.len(),
                compressed@.len() <= 0xffffffff,
                total == (compressed@.len() + (MAX_FRAGMENT_SIZE - 1)) as int
                    / MAX_FRAGMENT_SIZE as int,
                total <= 255,
                i <= total,
                msgs@.len() == i,
                forall|j: int|
                    0 <= j < msgs@.len() ==> ((#[trigger] msgs@[j]) matches
                        Message::VideoFrameFragment {
                        from: f,
                        width: w,
                        height: h,
                        frame_id: id,
                        fragment_idx: idx,
                        total_fragments: tot,
                        data,
                    } && f@ == from@ && w == width && h == height && id == frame_id && idx == j
                        && tot == total && data@.len() <= MAX_FRAGMENT_SIZE),
                forall|j: int| 0 <= j < msgs@.len() ==> (#[trigger] msgs@[j]).abs().wf(),
                concat_chunks(msgs@.map_values(|m: Message| frag_data_of(m))) == compressed@
                    .take(if i * MAX_FRAGMENT_SIZE <= compressed@.len() {
                    (i * MAX_FRAGMENT_SIZE) as int
                } else {
                    compressed@.len() as int
                }),
            decreases total - i,
        {
            let start = i * MAX_FRAGMENT_SIZE;
            proof {
                assert(i * MAX_FRAGMENT_SIZE <= 254 * 1400) by (nonlinear_arith)
                    requires
                        i <= 254,
                        MAX_FRAGMENT_SIZE == 1400,
                ;
                assert((i + 1) * MAX_FRAGMENT_SIZE == i * MAX_FRAGMENT_SIZE + MAX_FRAGMENT_SIZE)
                    by (nonlinear_arith);
                assert(i < total ==> i * MAX_FRAGMENT_SIZE < compressed@.len())
                    by (nonlinear_arith)
                    requires
                        i < total,
                        MAX_FRAGMENT_SIZE == 1400,
                        total == (compressed@.len() + (MAX_FRAGMENT_SIZE - 1)) as int
                            / MAX_FRAGMENT_SIZE as int,
                ;
            }
            let end = if start + MAX_FRAGMENT_SIZE <= compressed.len() {
                start + MAX_FRAGMENT_SIZE
            } else {
                compressed.len()
            };
            let chunk = bytes_range(compressed.as_slice(), start, end);
            let ghost prev = msgs@.map_values(|m: Message| frag_data_of(m));
            let msg = Message::VideoFrameFragment {
                from: from.to_owned(),
                width,
                height,
                frame_id,
                fragment_idx: i as u8,
                total_fragments: total as u8,
                data: chunk,
            };
            msgs.push(msg);
            proof {
                let ghost ds = msgs@.map_values(|m: Message| frag_data_of(m));
                assert(ds.drop_last() =~= prev);
                assert(ds.last() == compressed@.subrange(start as int, end as int));
                assert(compressed@.take(start as int) + compressed@.subrange(
                    start as int,
                    end as int,
                ) =~= compressed@.take(end as int));
                assert(i + 1 < total ==> (i + 1) * MAX_FRAGMENT_SIZE < compressed@.len())
                    by (nonlinear_arith)
                    requires
                        MAX_FRAGMENT_SIZE == 1400,
                        total == (compressed@.len() + (MAX_FRAGMENT_SIZE - 1)) as int
                            / MAX_FRAGMENT_SIZE as int,
                ;
                assert(i + 1 == total ==> end == compressed@.len()) by (nonlinear_arith)
                    requires
                        MAX_FRAGMENT_SIZE == 1400,
                        end == if start + MAX_FRAGMENT_SIZE <= compressed@.len() {
                            start + MAX_FRAGMENT_SIZE
                        } else {
                            compressed@.len() as int
                        },
                        start == i * MAX_FRAGMENT_SIZE,
                        total == (compressed@.len() + (MAX_FRAGMENT_SIZE - 1)) as int
                            / MAX_FRAGMENT_SIZE as int,
                ;
            }
            i += 1;
        }
        proof {
            assert(total * MAX_FRAGMENT_SIZE >= compressed@.len()) by (nonlinear_arith)
                requires
                    MAX_FRAGMENT_SIZE == 1400,
                    total == (compressed@.len() + (MAX_FRAGMENT_SIZE - 1)) as int
                        / MAX_FRAGMENT_SIZE as int,
            ;
            assert(compressed@.take(compressed@.len() as int) =~= compressed@);
        }
        Ok(msgs)
    }
}

} // verus!

verus! {

/// Order independence of reassembly: however the fragments arrived, once
/// slot `i` holds chunk `i` for every index, the joined bytes are exactly
/// the chunks in index order - the bytes the sender cut up.
pub proof fn lemma_filled_slots_join_to_chunks(
    chunks: Seq<Seq<u8>>,
    slots: Seq<Option<Seq<u8>>>,
)
    requires
        slots.len() == chunks.len(),
        forall|i: int| 0 <= i < slots.len() ==> slots[i] == Some(chunks[i]),
    ensures
        concat_slots(slots) == concat_chunks(chunks),
    decreases slots.len(),
{
    if slots.len() > 0 {
        lemma_filled_slots_join_to_chunks(chunks.drop_last(), slots.drop_last());
        assert(slots.last() == Some(chunks.last()));
        assert(concat_slots(slots) =~= concat_chunks(chunks));
    }
}

} // verus!
