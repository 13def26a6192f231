//! The MIDI byte streams of the receive, send and THRU tests.
//!
//! Both ends of a test reduce a stream to its channel message bytes: System Real-Time bytes
//! (0xF8 to 0xFF) and System Common bytes (0xF1 to 0xF6) are dropped, and so is everything
//! from a SysEx start (0xF0) to its end (0xF7). The SysEx state is carried from one piece of
//! the stream to the next, because a SysEx may arrive split over several pieces.
use crate::crc32::{crc32, Crc32Digest};
use crate::random::{random_u8_in, seeded_rng};
use vstd::prelude::*;

verus! {

/// The SysEx start byte.
pub const SYSEX_START: u8 = 0xF0;
/// The SysEx end byte.
pub const SYSEX_END: u8 = 0xF7;

/// What one byte does to the filter: the SysEx state after it, and whether it is kept.
pub open spec fn filter_byte(sysex_active: bool, byte: u8) -> (bool, bool) {
    if byte >= 0xF8 {
        (sysex_active, false)
    } else if byte == SYSEX_START {
        (true, false)
    } else if byte == SYSEX_END {
        (false, false)
    } else if byte >= 0xF1 {
        (sysex_active, false)
    } else {
        (sysex_active, !sysex_active)
    }
}

/// The SysEx state after `bytes`, starting in state `sysex_active`.
pub open spec fn filter_state(sysex_active: bool, bytes: Seq<u8>) -> bool
    decreases bytes.len(),
{
    if bytes.len() == 0 {
        sysex_active
    } else {
        filter_byte(filter_state(sysex_active, bytes.drop_last()), bytes.last()).0
    }
}

/// The bytes of `bytes` that are kept, in order, starting in state `sysex_active`.
pub open spec fn filtered(sysex_active: bool, bytes: Seq<u8>) -> Seq<u8>
    decreases bytes.len(),
{
    if bytes.len() == 0 {
        Seq::empty()
    } else {
        let before = bytes.drop_last();
        let kept = filtered(sysex_active, before);
        if filter_byte(filter_state(sysex_active, before), bytes.last()).1 {
            kept.push(bytes.last())
        } else {
            kept
        }
    }
}

/// A Note On message: status 0x90 to 0x9F, a note and a non-zero velocity below 0x80.
pub open spec fn is_note_on(msg: Seq<u8>) -> bool {
    &&& msg.len() == 3
    &&& 0x90 <= msg[0] <= 0x9F
    &&& msg[1] <= 127
    &&& 1 <= msg[2] <= 127
}

/// The SysEx filter, byte by byte.
pub struct MidiFilter {
    /// Inside a SysEx: channel bytes are dropped until its end.
    pub sysex_active: bool,
}

impl MidiFilter {
    /// A filter outside any SysEx.
    pub fn new() -> (f: Self)
        ensures
            !f.sysex_active,
    {
        MidiFilter { sysex_active: false }
    }

    /// Passes `byte` through the filter: whether it is a channel message byte to keep.
    pub fn accept(&mut self, byte: u8) -> (keep: bool)
        ensures
            (final(self).sysex_active, keep) == filter_byte(old(self).sysex_active, byte),
    {
        if byte >= 0xF8 {
            // System Real-Time: ignore
            false
        } else if byte == SYSEX_START {
            self.sysex_active = true;
            false
        } else if byte == SYSEX_END {
            self.sysex_active = false;
            false
        } else if byte >= 0xF1 {
            // Other System Common: ignore
            false
        } else {
            !self.sysex_active
        }
    }
}

/// The host side of a receive: the CRC32 and count of the channel message bytes of every
/// message received so far.
pub struct ReceiveStats {
    filter: MidiFilter,
    digest: Crc32Digest,
    byte_count: u32,
    received: Ghost<Seq<u8>>,
}

impl ReceiveStats {
    /// Every byte received so far, kept or not.
    pub closed spec fn received(&self) -> Seq<u8> {
        self.received@
    }

    /// The bytes kept so far.
    pub closed spec fn kept(&self) -> Seq<u8> {
        self.digest@
    }

    /// The count reported so far.
    pub closed spec fn count(&self) -> u32 {
        self.byte_count
    }

    /// Whether the filter is inside a SysEx.
    pub closed spec fn sysex_active(&self) -> bool {
        self.filter.sysex_active
    }

    pub closed spec fn wf(&self) -> bool {
        &&& self.digest@ == filtered(false, self.received@)
        &&& self.filter.sysex_active == filter_state(false, self.received@)
        &&& self.byte_count == self.digest@.len()
    }

    /// Nothing received yet.
    pub fn new() -> (s: Self)
        ensures
            s.wf(),
            s.received() == Seq::<u8>::empty(),
            s.kept() == Seq::<u8>::empty(),
            s.count() == 0,
    {
        ReceiveStats {
            filter: MidiFilter::new(),
            digest: Crc32Digest::new(),
            byte_count: 0,
            received: Ghost(Seq::empty()),
        }
    }

    /// The number of bytes kept so far.
    pub fn byte_count(&self) -> (n: u32)
        ensures
            n == self.count(),
    {
        self.byte_count
    }

    /// Feeds one received message. The count of kept bytes must stay within `u32`.
    pub fn feed(&mut self, msg: &[u8])
        requires
            old(self).wf(),
            old(self).count() + filtered(old(self).sysex_active(), msg@).len() <= u32::MAX,
        ensures
            final(self).wf(),
            final(self).received() == old(self).received() + msg@,
            final(self).kept() == old(self).kept() + filtered(old(self).sysex_active(), msg@),
            final(self).count() == old(self).count() + filtered(old(self).sysex_active(), msg@).len(),
            final(self).sysex_active() == filter_state(old(self).sysex_active(), msg@),
    {
        let ghost start = self.received@;
        let ghost active0 = self.filter.sysex_active;
        let mut i: usize = 0;
        while i < msg.len()
            invariant
                0 <= i <= msg.len(),
                self.received@ == start + msg@.take(i as int),
                self.wf(),
                start.len() + i == self.received@.len(),
                active0 == filter_state(false, start),
                self.digest@ == filtered(false, start) + filtered(active0, msg@.take(i as int)),
                self.filter.sysex_active == filter_state(active0, msg@.take(i as int)),
                filtered(false, start).len() + filtered(active0, msg@).len() <= u32::MAX,
            decreases msg.len() - i,
        {
            let byte = msg[i];
            let ghost prefix = msg@.take(i as int);
            assert(msg@.take(i + 1).drop_last() =~= prefix);
            assert(msg@.take(i + 1).last() == byte);
            proof { lemma_filtered_prefix_len(active0, msg@, i as int + 1); }
            let ghost kept_before = self.digest@;
            let keep = self.filter.accept(byte);
            if keep {
                self.digest.update(&[byte]);
                self.byte_count = self.byte_count + 1;
            }
            proof {
                let t = msg@.take(i + 1);
                assert(filtered(active0, t) == if keep {
                    filtered(active0, prefix).push(byte)
                } else {
                    filtered(active0, prefix)
                });
                if keep {
                    assert(self.digest@ =~= kept_before.push(byte));
                }
                self.received@ = self.received@.push(byte);
                assert(self.received@ =~= start + msg@.take(i + 1));
                assert(self.received@.drop_last() =~= start + prefix);
                lemma_filter_append(false, start, msg@.take(i + 1));
                lemma_filter_append(false, start, prefix);
            }
            i = i + 1;
        }
        proof {
            assert(msg@.take(msg.len() as int) =~= msg@);
        }
    }

    /// The CRC32 and count of the bytes kept.
    pub fn finish(self) -> (r: (u32, u32))
        requires
            self.wf(),
        ensures
            r.0 == crc32(self.kept()),
            r.1 == self.count(),
            r.1 == self.kept().len(),
    {
        let n = self.byte_count;
        (self.digest.finalize(), n)
    }

    /// What a well-formed receive holds: the kept bytes are the filtered stream of every byte
    /// received, the count is their number, and the filter state is the one that stream leaves.
    pub proof fn lemma_wf(&self)
        requires
            self.wf(),
        ensures
            self.kept() == filtered(false, self.received()),
            self.count() == self.kept().len(),
            self.sysex_active() == filter_state(false, self.received()),
    {
    }
}

/// Filtering a stream in two pieces, the second from the state the first left, keeps what
/// filtering it whole keeps and ends in the same state.
pub proof fn lemma_filter_append(active: bool, a: Seq<u8>, b: Seq<u8>)
    ensures
        filter_state(active, a + b) == filter_state(filter_state(active, a), b),
        filtered(active, a + b) == filtered(active, a) + filtered(filter_state(active, a), b),
    decreases b.len(),
{
    if b.len() == 0 {
        assert(a + b =~= a);
        assert(filtered(active, a) + Seq::<u8>::empty() =~= filtered(active, a));
    } else {
        assert((a + b).drop_last() =~= a + b.drop_last());
        assert((a + b).last() == b.last());
        lemma_filter_append(active, a, b.drop_last());
        let k = filtered(active, a);
        let r = filtered(filter_state(active, a), b.drop_last());
        assert((k + r).push(b.last()) =~= k + r.push(b.last()));
    }
}

/// No more bytes are kept than were fed, and a prefix keeps no more than the whole.
pub proof fn lemma_filtered_prefix_len(active: bool, s: Seq<u8>, n: int)
    requires
        0 <= n <= s.len(),
    ensures
        filtered(active, s.take(n)).len() <= filtered(active, s).len(),
        filtered(active, s).len() <= s.len(),
    decreases s.len(),
{
    if s.len() > 0 {
        if n == s.len() {
            assert(s.take(n) =~= s);
            lemma_filtered_prefix_len(active, s.drop_last(), 0);
        } else {
            assert(s.take(n) =~= s.drop_last().take(n));
            lemma_filtered_prefix_len(active, s.drop_last(), n);
        }
    }
}

/// `Note On` on `channel` (0 to 15).
pub fn note_on(channel: u8, note: u8, velocity: u8) -> (msg: [u8; 3])
    requires
        channel <= 15,
    ensures
        msg@ =~= seq![(0x90 + channel) as u8, note, velocity],
        msg[0] == 0x90 + channel,
{
    assert(0x90u8 | channel == 0x90 + channel) by (bit_vector)
        requires
            channel <= 15,
    ;
    [0x90 | channel, note, velocity]
}

/// A random `Note On`: channel 0 to 15, note 0 to 127, velocity 1 to 127, drawn in that order.
pub fn random_midi_message(rng: &mut rand::rngs::SmallRng) -> (msg: [u8; 3])
    ensures
        is_note_on(msg@),
{
    let channel: u8 = random_u8_in(rng, 0, 15);
    let note: u8 = random_u8_in(rng, 0, 127);
    let velocity: u8 = random_u8_in(rng, 1, 127);
    note_on(channel, note, velocity)
}

/// The sending side of a test: random `Note On` messages from a seeded generator, with the
/// CRC32 and count of every byte produced.
pub struct MessageSource {
    rng: rand::rngs::SmallRng,
    digest: Crc32Digest,
    byte_count: u32,
    seed: Ghost<u64>,
}

impl MessageSource {
    /// Every byte produced so far.
    pub closed spec fn sent(&self) -> Seq<u8> {
        self.digest@
    }

    /// The byte count so far.
    pub closed spec fn count(&self) -> u32 {
        self.byte_count
    }

    /// The seed the source's generator was created with.
    pub closed spec fn seed(&self) -> u64 {
        self.seed@
    }

    pub closed spec fn wf(&self) -> bool {
        self.byte_count == self.digest@.len()
    }

    /// A source seeded with `seed`, nothing produced yet.
    pub fn new(seed: u64) -> (s: Self)
        ensures
            s.wf(),
            s.seed() == seed,
            s.sent() == Seq::<u8>::empty(),
            s.count() == 0,
    {
        MessageSource {
            rng: seeded_rng(seed),
            digest: Crc32Digest::new(),
            byte_count: 0,
            seed: Ghost(seed),
        }
    }

    /// The next message, counted and added to the CRC32.
    pub fn next_message(&mut self) -> (msg: [u8; 3])
        requires
            old(self).wf(),
            old(self).count() + 3 <= u32::MAX,
        ensures
            final(self).wf(),
            final(self).seed() == old(self).seed(),
            is_note_on(msg@),
            final(self).sent() == old(self).sent() + msg@,
            final(self).count() == old(self).count() + 3,
    {
        let msg = random_midi_message(&mut self.rng);
        self.digest.update(&msg);
        self.byte_count = self.byte_count + 3;
        msg
    }

    /// The CRC32 and count of the bytes produced.
    pub fn finish(self) -> (r: (u32, u32))
        requires
            self.wf(),
        ensures
            r.0 == crc32(self.sent()),
            r.1 == self.count(),
            r.1 == self.sent().len(),
    {
        let n = self.byte_count;
        (self.digest.finalize(), n)
    }
}

/// A run of `total` random messages from a seeded source, as the sending side of a test
/// sends them.
pub struct MessageRun {
    source: MessageSource,
    total: u32,
    sent: u32,
}

impl MessageRun {
    /// Every byte produced so far.
    pub closed spec fn sent_bytes(&self) -> Seq<u8> {
        self.source.sent()
    }

    /// Messages produced so far.
    pub closed spec fn sent_messages(&self) -> u32 {
        self.sent
    }

    /// Messages the run is to produce.
    pub closed spec fn total(&self) -> u32 {
        self.total
    }

    pub closed spec fn wf(&self) -> bool {
        &&& self.source.wf()
        &&& self.sent <= self.total
        &&& self.total * 3 <= u32::MAX
        &&& self.source.count() == 3 * self.sent
    }

    /// A run of `total` messages from a generator seeded with `seed`. Their byte count must
    /// fit in `u32`.
    pub fn new(seed: u64, total: u32) -> (r: Self)
        requires
            total * 3 <= u32::MAX,
        ensures
            r.wf(),
            r.total() == total,
            r.sent_messages() == 0,
            r.sent_bytes() == Seq::<u8>::empty(),
    {
        MessageRun { source: MessageSource::new(seed), total, sent: 0 }
    }

    /// The next message, or `None` once `total` have been produced.
    pub fn next_message(&mut self) -> (m: Option<[u8; 3]>)
        requires
            old(self).wf(),
        ensures
            final(self).wf(),
            final(self).total() == old(self).total(),
            match m {
                Some(msg) => old(self).sent_messages() < old(self).total() && is_note_on(msg@)
                    && final(self).sent_messages() == old(self).sent_messages() + 1
                    && final(self).sent_bytes() == old(self).sent_bytes() + msg@,
                None => old(self).sent_messages() == old(self).total() && final(self).sent_bytes()
                    == old(self).sent_bytes() && final(self).sent_messages() == old(self).sent_messages(),
            },
    {
        if self.sent < self.total {
            let msg = self.source.next_message();
            self.sent = self.sent + 1;
            Some(msg)
        } else {
            None
        }
    }

    /// The CRC32 of the bytes produced, and their count.
    pub fn finish(self) -> (r: (u32, u32))
        requires
            self.wf(),
        ensures
            r.0 == crc32(self.sent_bytes()),
            r.1 == self.sent_bytes().len(),
            r.1 == 3 * self.sent_messages(),
    {
        self.source.finish()
    }
}

/// A concatenation of `Note On` messages.
pub open spec fn note_on_stream(msgs: Seq<Seq<u8>>) -> bool {
    forall|i: int| 0 <= i < msgs.len() ==> #[trigger] is_note_on(msgs[i])
}

/// A `Note On` is kept whole and leaves the filter outside any SysEx.
pub proof fn lemma_note_on_kept(msg: Seq<u8>)
    requires
        is_note_on(msg),
    ensures
        filtered(false, msg) == msg,
        !filter_state(false, msg),
{
    let s1 = msg.take(1);
    let s2 = msg.take(2);
    assert(s1.drop_last() =~= Seq::<u8>::empty());
    assert(s2.drop_last() =~= s1);
    assert(msg.drop_last() =~= s2);
    assert(s1.last() == msg[0]);
    assert(s2.last() == msg[1]);
    assert(msg.last() == msg[2]);
    assert(filter_state(false, s1.drop_last()) == false);
    assert(filtered(false, s1.drop_last()) =~= Seq::<u8>::empty());
    assert(filter_state(false, s1) == false);
    assert(filter_state(false, s2) == false);
    assert(filtered(false, s1) =~= s1);
    assert(filtered(false, s2) =~= s2);
    assert(filtered(false, msg) =~= msg);
}

/// What the sender produces passes the receiver's filter unchanged: a stream of `Note On`
/// messages is kept whole and leaves the filter outside any SysEx. So the two ends of an
/// undisturbed link compute the same CRC32 over the same count of bytes.
pub proof fn lemma_note_on_stream_kept(msgs: Seq<Seq<u8>>)
    requires
        note_on_stream(msgs),
    ensures
        filtered(false, msgs.flatten()) == msgs.flatten(),
        !filter_state(false, msgs.flatten()),
        crc32(filtered(false, msgs.flatten())) == crc32(msgs.flatten()),
    decreases msgs.len(),
{
    if msgs.len() > 0 {
        let rest = msgs.drop_first();
        assert(note_on_stream(rest)) by {
            assert forall|i: int| 0 <= i < rest.len() implies #[trigger] is_note_on(rest[i]) by {
                assert(rest[i] == msgs[i + 1]);
            }
        }
        lemma_note_on_stream_kept(rest);
        assert(is_note_on(msgs[0]));
        lemma_note_on_kept(msgs.first());
        lemma_filter_append(false, msgs.first(), rest.flatten());
    }
}

/// A System Real-Time byte, wherever it falls in a stream, changes neither what is kept nor
/// the SysEx state.
pub proof fn lemma_realtime_transparent(active: bool, before: Seq<u8>, rt: u8, after: Seq<u8>)
    requires
        rt >= 0xF8,
    ensures
        filtered(active, before + seq![rt] + after) == filtered(active, before + after),
        filter_state(active, before + seq![rt] + after) == filter_state(active, before + after),
{
    let st = filter_state(active, before);
    let one = seq![rt];
    assert(one.drop_last() =~= Seq::<u8>::empty());
    assert(filtered(st, one.drop_last()) =~= Seq::<u8>::empty());
    assert(filtered(st, one) =~= Seq::<u8>::empty());
    lemma_filter_append(active, before, one);
    lemma_filter_append(active, before + one, after);
    lemma_filter_append(active, before, after);
    assert(filtered(active, before) + Seq::<u8>::empty() =~= filtered(active, before));
}

/// Inside a SysEx, bytes other than its end are all dropped and the SysEx stays open.
pub proof fn lemma_sysex_body_dropped(body: Seq<u8>)
    requires
        !body.contains(SYSEX_END),
    ensures
        filtered(true, body) == Seq::<u8>::empty(),
        filter_state(true, body),
    decreases body.len(),
{
    if body.len() > 0 {
        let init = body.drop_last();
        assert(!init.contains(SYSEX_END)) by {
            if init.contains(SYSEX_END) {
                let k = choose|k: int| 0 <= k < init.len() && init[k] == SYSEX_END;
                assert(body[k] == SYSEX_END);
            }
        }
        lemma_sysex_body_dropped(init);
        assert(body[body.len() - 1] != SYSEX_END);
    }
}

/// A complete SysEx, whatever it carries, is dropped whole and closes behind itself.
pub proof fn lemma_sysex_dropped(active: bool, body: Seq<u8>)
    requires
        !body.contains(SYSEX_END),
    ensures
        filtered(active, seq![SYSEX_START] + body + seq![SYSEX_END]) == Seq::<u8>::empty(),
        !filter_state(active, seq![SYSEX_START] + body + seq![SYSEX_END]),
{
    let start = seq![SYSEX_START];
    let end = seq![SYSEX_END];
    assert(start.drop_last() =~= Seq::<u8>::empty());
    assert(end.drop_last() =~= Seq::<u8>::empty());
    assert(filtered(active, start.drop_last()) =~= Seq::<u8>::empty());
    assert(filtered(active, start) =~= Seq::<u8>::empty());
    assert(filter_state(active, start));
    lemma_sysex_body_dropped(body);
    assert(filtered(true, end.drop_last()) =~= Seq::<u8>::empty());
    assert(filtered(true, end) =~= Seq::<u8>::empty());
    assert(!filter_state(true, end));
    lemma_filter_append(active, start, body);
    lemma_filter_append(active, start + body, end);
    assert(filtered(active, start + body) =~= Seq::<u8>::empty());
    assert(filter_state(active, start + body));
    assert(filtered(active, start + body + end) =~= Seq::<u8>::empty());
}

/// Only channel message bytes (below 0xF0) are ever kept.
pub proof fn lemma_kept_are_channel_bytes(active: bool, bytes: Seq<u8>)
    ensures
        forall|i: int| 0 <= i < filtered(active, bytes).len() ==> #[trigger] filtered(active, bytes)[i] < 0xF0,
    decreases bytes.len(),
{
    if bytes.len() > 0 {
        let before = bytes.drop_last();
        lemma_kept_are_channel_bytes(active, before);
        let k = filtered(active, before);
        let st = filter_state(active, before);
        if filter_byte(st, bytes.last()).1 {
            assert(bytes.last() < 0xF0);
            assert forall|i: int| 0 <= i < k.push(bytes.last()).len() implies #[trigger] k.push(
                bytes.last(),
            )[i] < 0xF0 by {
                if i < k.len() {
                    assert(k[i] < 0xF0);
                }
            }
        }
    }
}

} // verus!
