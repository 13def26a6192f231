//! The receive path of the firmware: a CRC32 over the channel message bytes that arrive on a
//! MIDI input, reported once nothing has arrived for the watchdog period.
use crate::crc32::{crc32, Crc32Digest};
use crate::midi::{filter_byte, filter_state, filtered, MidiFilter, ReceiveStats};
use crate::timing::{cycles_since, elapsed_cycles, CYCLES_PER_MS};
use vstd::prelude::*;

verus! {

/// Two seconds of silence after the last kept byte end the receive.
pub const WATCHDOG_CYCLES: u32 = CYCLES_PER_MS * 2_000;

/// What the UART gives the receiver.
pub enum RxEvent {
    /// A byte arrived; `now` is the cycle counter.
    Byte { byte: u8, now: u32 },
    /// Nothing to read at cycle `now`.
    Idle { now: u32 },
    /// A framing, noise or overrun error: the byte is lost.
    Fault,
}

/// What the receiver asks for after an event.
pub enum RxStep {
    /// Keep reading.
    Continue(Receiver),
    /// Log the CRC32 and count of the kept bytes, and stop.
    Report { crc: u32, byte_count: u32 },
}

/// The receive loop's state.
pub struct Receiver {
    filter: MidiFilter,
    digest: Crc32Digest,
    byte_count: u32,
    last_rx: Option<u32>,
    received: Ghost<Seq<u8>>,
}

impl Receiver {
    /// Every byte that arrived, kept or not.
    pub closed spec fn received(&self) -> Seq<u8> {
        self.received@
    }

    /// The bytes kept so far.
    pub closed spec fn kept(&self) -> Seq<u8> {
        self.digest@
    }

    /// The number of bytes kept so far.
    pub closed spec fn count(&self) -> u32 {
        self.byte_count
    }

    /// Cycle counter when the last byte was kept, if one was.
    pub closed spec fn last_rx(&self) -> Option<u32> {
        self.last_rx
    }

    pub closed spec fn wf(&self) -> bool {
        &&& self.digest@ == filtered(false, self.received@)
        &&& self.filter.sysex_active == filter_state(false, self.received@)
        &&& self.byte_count == self.digest@.len()
        &&& (self.last_rx is Some <==> self.byte_count > 0)
    }

    /// Nothing received yet.
    pub fn new() -> (r: Self)
        ensures
            r.wf(),
            r.received() == Seq::<u8>::empty(),
            r.count() == 0,
            r.last_rx() is None,
    {
        Receiver {
            filter: MidiFilter::new(),
            digest: Crc32Digest::new(),
            byte_count: 0,
            last_rx: None,
            received: Ghost(Seq::empty()),
        }
    }

    /// The number of bytes kept so far.
    pub fn byte_count(&self) -> (n: u32)
        ensures
            n == self.count(),
    {
        self.byte_count
    }

    /// Handles one event. A kept byte must not take the count past `u32::MAX`.
    pub fn step(self, event: RxEvent) -> (r: RxStep)
        requires
            self.wf(),
            event matches RxEvent::Byte { .. } ==> self.count() < u32::MAX,
        ensures
            match event {
                RxEvent::Byte { byte, now } => r matches RxStep::Continue(next) && {
                    let keep = filter_byte(filter_state(false, self.received()), byte).1;
                    &&& next.wf()
                    &&& next.received() == self.received().push(byte)
                    &&& next.kept() == if keep { self.kept().push(byte) } else { self.kept() }
                    &&& next.count() == if keep { self.count() + 1 } else { self.count() as int }
                    &&& next.last_rx() == if keep { Some(now) } else { self.last_rx() }
                },
                RxEvent::Idle { now } => match self.last_rx() {
                    Some(t) if cycles_since(t, now) >= WATCHDOG_CYCLES => r == RxStep::Report {
                        crc: crc32(self.kept()),
                        byte_count: self.count(),
                    },
                    _ => r matches RxStep::Continue(next) && next == self,
                },
                RxEvent::Fault => r matches RxStep::Continue(next) && next == self,
            },
    {
        let mut s = self;
        match event {
            RxEvent::Byte { byte, now } => {
                let ghost before = s.received@;
                let keep = s.filter.accept(byte);
                if keep {
                    s.digest.update(&[byte]);
                    s.byte_count = s.byte_count + 1;
                    s.last_rx = Some(now);
                }
                proof {
                    s.received@ = before.push(byte);
                    assert(s.received@.drop_last() =~= before);
                    if keep {
                        assert(s.digest@ =~= self.digest@.push(byte));
                    }
                }
                RxStep::Continue(s)
            },
            RxEvent::Idle { now } => {
                match s.last_rx {
                    Some(t) => {
                        if elapsed_cycles(t, now) >= WATCHDOG_CYCLES {
                            let n = s.byte_count;
                            RxStep::Report { crc: s.digest.finalize(), byte_count: n }
                        } else {
                            RxStep::Continue(s)
                        }
                    },
                    None => RxStep::Continue(s),
                }
            },
            RxEvent::Fault => RxStep::Continue(s),
        }
    }

    /// What a well-formed receiver holds: the kept bytes are the filtered stream of every byte
    /// that arrived, the count is their number, and a last-byte time exists once one was kept.
    pub proof fn lemma_wf(&self)
        requires
            self.wf(),
        ensures
            self.kept() == filtered(false, self.received()),
            self.count() == self.kept().len(),
            self.last_rx() is Some <==> self.count() > 0,
    {
    }
}

/// The board's receiver and the host's receive statistics, given the same bytes, keep the same
/// bytes and so report the same count and CRC32.
pub proof fn lemma_receivers_agree(board: &Receiver, host: &ReceiveStats)
    requires
        board.wf(),
        host.wf(),
        board.received() == host.received(),
    ensures
        board.kept() == host.kept(),
        board.count() == host.count(),
        crc32(board.kept()) == crc32(host.kept()),
{
    board.lemma_wf();
    host.lemma_wf();
}

} // verus!
