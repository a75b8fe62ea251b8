//! Diagnostics that are safe to call from an entry point of a foreign thread.
//!
//! The caller path formats into a fixed buffer, copies the bytes into a ring of
//! fixed-size slots, and returns: [`StackBuffer`] and [`Slot`] hold their bytes in
//! place, so nothing on that path allocates. The ring's slots are allocated once, when
//! it is made, and a line that is read is copied out on the logger thread, which drains
//! the ring. A full ring drops lines; the caller never waits, and every dropped line is
//! reported, so a gap in the log is visible rather than silent.

use vstd::prelude::*;
use vstd::slice::slice_subrange;
use vstd::string::StringExecFns;
use vstd::string::StrSliceExecFns;
use vstd::utf8::encode_utf8;

use crate::text::{digits, digits_read_back, number_read, push_digits};

verus! {

/// Slots in the ring.
pub const SLOTS: usize = 256;

/// Bytes kept per line. Longer messages are truncated.
pub const TEXT_MAX: usize = 256;

/// Room for a line on its way to the debugger.
pub const WIDE_MAX: usize = 272;

/// Flag file, next to the module, that turns logging on.
pub const FLAG_FILE: &'static str = "wb_tap_debug.flag";

/// Log file written next to the module.
pub const LOG_FILE: &'static str = "wb_tap_debug.log";

/// The part of a message that is kept.
pub open spec fn kept_text(text: Seq<u8>) -> Seq<u8> {
    if text.len() > TEXT_MAX {
        text.take(TEXT_MAX as int)
    } else {
        text
    }
}

/// One ring slot.
///
/// Producers number the lines they log with tickets. A ticket maps to the slot
/// `ticket % SLOTS`, and the slot's earlier occupants are the tickets one and more
/// laps back, so a slot only ever sees one ticket per lap. Two numbers say what
/// happened to a slot's ticket:
///
/// * `published`: `ticket + 1` once the ticket's text is in the slot.
/// * `dropped`: `ticket + 1` when the ticket's line was dropped because the logger
///   thread had fallen a full lap behind. Without it the logger thread would sit
///   waiting for a line that is never coming; with it, the thread skips the ticket
///   and says so in the log.
pub struct Slot {
    pub published: u64,
    pub dropped: u64,
    /// How much of `text` is filled.
    pub len: usize,
    pub text: [u8; TEXT_MAX],
}

impl Slot {
    pub open spec fn wf(self) -> bool {
        self.len <= TEXT_MAX
    }

    /// The text in the slot.
    pub open spec fn line(self) -> Seq<u8> {
        self.text@.take(self.len as int)
    }

    /// A slot that has seen no ticket.
    pub fn new() -> (r: Slot)
        ensures
            r.wf(),
            r.published == 0,
            r.dropped == 0,
            r.line() == Seq::<u8>::empty(),
    {
        let slot = Slot { published: 0, dropped: 0, len: 0, text: [0u8; TEXT_MAX] };
        assert(slot.line() =~= Seq::<u8>::empty());
        slot
    }

    /// Put the first bytes of a message in the slot, as many as it keeps.
    fn fill(&mut self, text: &[u8])
        ensures
            final(self).wf(),
            final(self).published == old(self).published,
            final(self).dropped == old(self).dropped,
            final(self).line() == kept_text(text@),
    {
        let ghost before = *self;
        let mut i: usize = 0;
        while i < text.len() && i < TEXT_MAX
            invariant
                0 <= i <= text@.len(),
                i <= TEXT_MAX,
                self.published == before.published,
                self.dropped == before.dropped,
                forall|k: int| 0 <= k < i ==> self.text@[k] == text@[k],
            decreases text@.len() - i,
        {
            self.text[i] = text[i];
            i = i + 1;
        }
        self.len = i;
        assert(self.line() =~= kept_text(text@));
    }

    /// The text in the slot, copied out.
    fn copied(&self) -> (r: Vec<u8>)
        requires
            self.wf(),
        ensures
            r@ == self.line(),
    {
        let mut out: Vec<u8> = Vec::with_capacity(self.len);
        let mut i: usize = 0;
        while i < self.len
            invariant
                self.wf(),
                0 <= i <= self.len,
                out@ =~= self.text@.take(i as int),
            decreases self.len - i,
        {
            out.push(self.text[i]);
            i = i + 1;
        }
        out
    }
}

/// The ring, and the tickets of its two ends.
pub struct Ring {
    pub slots: Vec<Slot>,
    /// Ticket the next producer takes.
    pub write_ticket: u64,
    /// Ticket the logger thread will read next.
    pub read_ticket: u64,
}

/// What the logger thread found for its current ticket.
pub enum Taken {
    /// The line of the ticket.
    Line(Vec<u8>),
    /// The producer dropped this ticket.
    Dropped,
    /// Nothing to read yet.
    Empty,
}

/// What became of a line between its logging and its reading.
pub ghost enum Entry {
    /// It is in the ring.
    Kept(Seq<u8>),
    /// It was dropped.
    Lost,
}

impl Ring {
    /// The slot of a ticket.
    pub open spec fn slot(self, ticket: int) -> Slot {
        self.slots@[ticket % SLOTS as int]
    }

    /// What the reader will find for a ticket.
    pub open spec fn entry(self, ticket: int) -> Entry {
        if self.slot(ticket).published == ticket + 1 {
            Entry::Kept(self.slot(ticket).line())
        } else {
            Entry::Lost
        }
    }

    pub open spec fn wf(self) -> bool {
        &&& self.slots@.len() == SLOTS
        &&& self.read_ticket <= self.write_ticket
        &&& forall|i: int|
            0 <= i < SLOTS ==> (#[trigger] self.slots@[i]).published <= self.write_ticket
                && self.slots@[i].dropped <= self.write_ticket && self.slots@[i].wf()
        &&& forall|t: int|
            self.read_ticket <= t < self.write_ticket ==> (#[trigger] self.slot(t)).published == t
                + 1 || self.slot(t).dropped > t
    }
}

impl View for Ring {
    type V = Seq<Entry>;

    /// The lines that have been logged and not been read yet, oldest first.
    open spec fn view(&self) -> Seq<Entry> {
        Seq::new(
            (self.write_ticket - self.read_ticket) as nat,
            |i: int| self.entry(self.read_ticket + i),
        )
    }
}

/// What is pending once a message was logged: it is kept unless every slot is waiting to be
/// read.
pub open spec fn logged(pending: Seq<Entry>, text: Seq<u8>) -> Seq<Entry> {
    pending.push(
        if pending.len() < SLOTS {
            Entry::Kept(kept_text(text))
        } else {
            Entry::Lost
        },
    )
}

impl Ring {
    /// An empty ring.
    pub fn new() -> (r: Ring)
        ensures
            r.wf(),
            r@ == Seq::<Entry>::empty(),
    {
        let mut slots: Vec<Slot> = Vec::with_capacity(SLOTS);
        let mut i: usize = 0;
        while i < SLOTS
            invariant
                0 <= i <= SLOTS,
                slots@.len() == i,
                forall|k: int|
                    0 <= k < i ==> (#[trigger] slots@[k]).published == 0 && slots@[k].dropped == 0
                        && slots@[k].wf(),
            decreases SLOTS - i,
        {
            slots.push(Slot::new());
            i = i + 1;
        }
        let ring = Ring { slots, write_ticket: 0, read_ticket: 0 };
        assert(ring@ =~= Seq::<Entry>::empty());
        ring
    }

    /// Publish `text` for the next ticket, or drop it if the logger thread has
    /// fallen a full lap behind.
    pub fn push(&mut self, text: &[u8])
        requires
            old(self).wf(),
            old(self).write_ticket < u64::MAX,
        ensures
            final(self).wf(),
            final(self).write_ticket == old(self).write_ticket + 1,
            final(self).read_ticket == old(self).read_ticket,
            final(self)@ == logged(old(self)@, text@),
    {
        let ghost before = *self;
        let ticket: u64 = self.write_ticket;
        let at: usize = (ticket % SLOTS as u64) as usize;
        let behind: u64 = ticket - self.read_ticket;
        self.write_ticket = ticket + 1;
        if behind >= SLOTS as u64 {
            // A lap behind means the reader may still be inside this slot: it gets
            // no text, only the news that its own ticket is never arriving.
            self.slots[at].dropped = ticket + 1;
        } else {
            self.slots[at].fill(text);
            self.slots[at].published = ticket + 1;
        }
        proof {
            let t0 = ticket as int;
            assert forall|t: int| before.read_ticket <= t < t0 implies #[trigger] self.entry(t)
                == before.entry(t) by {
                if behind < SLOTS {
                    lemma_slots_differ(t, t0);
                } else {
                    if t % 256 == t0 % 256 {
                        assert(before.slot(t) == before.slots@[at as int]);
                    }
                }
            }
            assert forall|t: int|
                self.read_ticket <= t < self.write_ticket implies (#[trigger] self.slot(
                t,
            )).published == t + 1 || self.slot(t).dropped > t by {
                if t < t0 {
                    assert(before.slot(t).published == t + 1 || before.slot(t).dropped > t);
                    if t % 256 != t0 % 256 {
                        assert(self.slot(t) == before.slot(t));
                    } else {
                        if behind < SLOTS {
                            lemma_slots_differ(t, t0);
                        }
                    }
                }
            }
            assert(self@ =~= before@.push(
                if before@.len() < SLOTS {
                    Entry::Kept(kept_text(text@))
                } else {
                    Entry::Lost
                },
            )) by {
                assert(self.entry(t0) == (if behind < SLOTS {
                    Entry::Kept(kept_text(text@))
                } else {
                    Entry::Lost
                })) by {
                    assert(before.slots@[at as int].published <= t0);
                }
                assert forall|i: int| 0 <= i < self@.len() implies #[trigger] self@[i]
                    == before@.push(
                    if before@.len() < SLOTS {
                        Entry::Kept(kept_text(text@))
                    } else {
                        Entry::Lost
                    },
                )[i] by {
                    if i < before@.len() {
                        assert(self.entry(before.read_ticket + i) == before.entry(
                            before.read_ticket + i,
                        ));
                    }
                }
            }
        }
    }

    /// Read what was logged for the next ticket and advance to the one after it.
    pub fn take(&mut self) -> (r: Taken)
        requires
            old(self).wf(),
        ensures
            final(self).wf(),
            final(self).write_ticket == old(self).write_ticket,
            final(self).read_ticket == old(self).read_ticket + (if old(self)@.len() == 0 {
                0int
            } else {
                1
            }),
            match r {
                Taken::Empty => old(self)@.len() == 0 && *final(self) == *old(self),
                Taken::Dropped => {
                    &&& old(self)@.len() > 0
                    &&& old(self)@.first() is Lost
                    &&& final(self)@ == old(self)@.drop_first()
                },
                Taken::Line(line) => {
                    &&& old(self)@.len() > 0
                    &&& old(self)@.first() == Entry::Kept(line@)
                    &&& final(self)@ == old(self)@.drop_first()
                },
            },
    {
        let ghost before = *self;
        let ticket: u64 = self.read_ticket;
        let at: usize = (ticket % SLOTS as u64) as usize;
        let ghost t0 = ticket as int;
        proof {
            assert(before.slot(t0) == before.slots@[at as int]);
        }
        let taken = if self.slots[at].published > ticket && self.slots[at].published - 1
            == ticket {
            proof {
                assert(before.write_ticket > ticket);
            }
            Taken::Line(self.slots[at].copied())
        } else if self.slots[at].dropped > ticket {
            proof {
                assert(before.write_ticket > ticket);
            }
            // A ticket of this slot was dropped, and that happens only to a ticket
            // that this reader is still waiting for. The line is not coming.
            Taken::Dropped
        } else {
            proof {
                if before.read_ticket < before.write_ticket {
                    assert(before.slot(t0).published == t0 + 1 || before.slot(t0).dropped > t0);
                }
            }
            return Taken::Empty;
        };
        self.read_ticket = ticket + 1;
        proof {
            assert forall|t: int| #[trigger] self.entry(t) == before.entry(t) by {}
            assert(before@[0] == before.entry(t0));
            assert(self@ =~= before@.drop_first()) by {
                assert forall|i: int| 0 <= i < self@.len() implies #[trigger] self@[i]
                    == before@.drop_first()[i] by {
                    assert(before@[i + 1] == before.entry(t0 + i + 1));
                }
            }
            assert forall|t: int|
                self.read_ticket <= t < self.write_ticket implies (#[trigger] self.slot(
                t,
            )).published == t + 1 || self.slot(t).dropped > t by {
                assert(before.slot(t).published == t + 1 || before.slot(t).dropped > t);
            }
        }
        taken
    }
}

/// Tickets less than a lap apart have different slots.
proof fn lemma_slots_differ(t: int, u: int)
    requires
        0 <= t < u < t + SLOTS,
    ensures
        t % SLOTS as int != u % SLOTS as int,
{
    if t % 256 == u % 256 {
        assert(u - t == 256 * (u / 256 - t / 256));
    }
}

/// Lines come out in the order in which they were logged: a line that was kept is
/// read after exactly the lines before it, as it was logged.
pub proof fn the_ring_is_first_in_first_out(pending: Seq<Entry>, next: Entry)
    ensures
        pending.len() == 0 ==> pending.push(next).first() == next && pending.push(next).drop_first()
            == Seq::<Entry>::empty(),
        pending.len() > 0 ==> pending.push(next).first() == pending.first() && pending.push(
            next,
        ).drop_first() == pending.drop_first().push(next),
{
    if pending.len() == 0 {
        assert(pending.push(next).drop_first() =~= Seq::<Entry>::empty());
    } else {
        assert(pending.push(next).drop_first() =~= pending.drop_first().push(next));
    }
}

/// What is pending once some messages were logged, one after the other.
pub open spec fn logged_all(pending: Seq<Entry>, texts: Seq<Seq<u8>>) -> Seq<Entry>
    decreases texts.len(),
{
    if texts.len() == 0 {
        pending
    } else {
        logged(logged_all(pending, texts.drop_last()), texts.last())
    }
}

/// What reading finds until there is nothing left: each time the first of what is pending.
pub open spec fn reads(pending: Seq<Entry>) -> Seq<Entry>
    decreases pending.len(),
{
    if pending.len() == 0 {
        Seq::empty()
    } else {
        seq![pending.first()] + reads(pending.drop_first())
    }
}

proof fn lemma_reads(pending: Seq<Entry>)
    ensures
        reads(pending) == pending,
    decreases pending.len(),
{
    if pending.len() > 0 {
        lemma_reads(pending.drop_first());
        assert(seq![pending.first()] + pending.drop_first() =~= pending);
    } else {
        assert(pending =~= Seq::<Entry>::empty());
    }
}

/// Messages that are logged on a drained ring are read back in order: as many as there are
/// slots come out as they were logged, cut to what a slot keeps, and each of the others is
/// reported as dropped. A message that is logged once all were read is kept again.
pub proof fn a_burst_is_read_in_order(texts: Seq<Seq<u8>>, later: Seq<u8>)
    ensures
        reads(logged_all(Seq::empty(), texts)) == Seq::new(
            texts.len(),
            |i: int|
                if i < SLOTS {
                    Entry::Kept(kept_text(texts[i]))
                } else {
                    Entry::Lost
                },
        ),
        reads(logged(Seq::empty(), later)) == seq![Entry::Kept(kept_text(later))],
    decreases texts.len(),
{
    let pending = logged_all(Seq::empty(), texts);
    lemma_reads(pending);
    lemma_reads(logged(Seq::empty(), later));
    assert(logged(Seq::empty(), later) =~= seq![Entry::Kept(kept_text(later))]);
    let expected = Seq::new(
        texts.len(),
        |i: int|
            if i < SLOTS {
                Entry::Kept(kept_text(texts[i]))
            } else {
                Entry::Lost
            },
    );
    if texts.len() > 0 {
        let before = texts.drop_last();
        a_burst_is_read_in_order(before, later);
        lemma_reads(logged_all(Seq::empty(), before));
        assert(pending =~= expected);
    } else {
        assert(pending =~= expected);
    }
}

/// Log a fixed message, if logging is on.
pub fn debug_log(ring: &mut Ring, enabled: bool, message: &str)
    requires
        old(ring).wf(),
        old(ring).write_ticket < u64::MAX,
    ensures
        final(ring).wf(),
        !enabled ==> *final(ring) == *old(ring),
        enabled ==> final(ring)@ == logged(old(ring)@, encode_utf8(message@)),
        enabled ==> final(ring).write_ticket == old(ring).write_ticket + 1
            && final(ring).read_ticket == old(ring).read_ticket,
{
    if !enabled {
        return;
    }
    ring.push(message.as_bytes());
}

/// Log a message that was formatted into a fixed buffer, if logging is on.
pub fn debug_log_fmt(ring: &mut Ring, enabled: bool, buffer: &StackBuffer)
    requires
        old(ring).wf(),
        old(ring).write_ticket < u64::MAX,
        buffer.wf(),
    ensures
        final(ring).wf(),
        !enabled ==> *final(ring) == *old(ring),
        enabled ==> final(ring)@ == old(ring)@.push(
            if old(ring)@.len() < SLOTS {
                Entry::Kept(buffer@)
            } else {
                Entry::Lost
            },
        ),
        enabled ==> final(ring).write_ticket == old(ring).write_ticket + 1
            && final(ring).read_ticket == old(ring).read_ticket,
{
    if !enabled {
        return;
    }
    ring.push(buffer.filled());
}

/// Whether logging is on: when the module's directory is known and the flag file
/// lies there.
pub fn start(directory_found: bool, flag_exists: bool) -> (enabled: bool)
    ensures
        enabled == (directory_found && flag_exists),
{
    directory_found && flag_exists
}

/// A text sink of fixed size. What does not fit is left out.
pub struct StackBuffer {
    pub bytes: [u8; TEXT_MAX],
    /// How much of `bytes` is filled.
    pub len: usize,
}

impl View for StackBuffer {
    type V = Seq<u8>;

    open spec fn view(&self) -> Seq<u8> {
        self.bytes@.take(self.len as int)
    }
}

impl StackBuffer {
    pub open spec fn wf(self) -> bool {
        self.len <= TEXT_MAX
    }

    pub fn new() -> (r: StackBuffer)
        ensures
            r.wf(),
            r@ == Seq::<u8>::empty(),
    {
        let buffer = StackBuffer { bytes: [0u8; TEXT_MAX], len: 0 };
        assert(buffer@ =~= Seq::<u8>::empty());
        buffer
    }

    /// What has been written so far.
    pub fn filled(&self) -> (r: &[u8])
        requires
            self.wf(),
        ensures
            r@ == self@,
    {
        slice_subrange(self.bytes.as_slice(), 0, self.len)
    }

    /// Write as much of `s` as still fits.
    pub fn write_str(&mut self, s: &str)
        requires
            old(self).wf(),
        ensures
            final(self).wf(),
            final(self)@ == kept_text(old(self)@ + encode_utf8(s@)),
    {
        let bytes = s.as_bytes();
        let ghost before = self@;
        let mut i: usize = 0;
        while i < bytes.len() && self.len < TEXT_MAX
            invariant
                0 <= i <= bytes@.len(),
                before.len() <= TEXT_MAX,
                self.len <= TEXT_MAX,
                self@ =~= before + bytes@.take(i as int),
            decreases bytes@.len() - i,
        {
            let ghost filled = self@;
            self.bytes[self.len] = bytes[i];
            self.len = self.len + 1;
            assert(self@ =~= filled.push(bytes@[i as int]));
            assert(bytes@.take(i + 1) =~= bytes@.take(i as int).push(bytes@[i as int]));
            i = i + 1;
        }
        assert(self@ =~= kept_text(before + bytes@));
    }
}

/// The report on lines that were dropped.
pub open spec fn drop_report(dropped: nat) -> Seq<char> {
    "<"@ + digits(dropped) + " log lines dropped: logger fell behind>"@
}

/// Flush the count of lines that the ring dropped, so a gap in the log is visible
/// rather than silent.
pub fn report_drops(dropped: &mut u64) -> (r: Option<StackBuffer>)
    ensures
        *final(dropped) == 0,
        match r {
            None => *old(dropped) == 0,
            Some(buffer) => *old(dropped) > 0 && buffer.wf() && buffer@ == kept_text(
                encode_utf8(drop_report(*old(dropped) as nat)),
            ),
        },
{
    if *dropped == 0 {
        return None;
    }
    let mut line = String::new();
    line.append("<");
    push_digits(&mut line, *dropped);
    line.append(" log lines dropped: logger fell behind>");
    assert(line@ =~= drop_report(*dropped as nat));
    let mut buffer = StackBuffer::new();
    buffer.write_str(line.as_str());
    assert(Seq::<u8>::empty() + encode_utf8(line@) =~= encode_utf8(line@));
    *dropped = 0;
    Some(buffer)
}

/// What the logger thread does after a look at the ring.
pub struct LoggerStep {
    /// Report lost lines first.
    pub report: Option<StackBuffer>,
    /// Write this line.
    pub line: Option<Vec<u8>>,
    /// Wait before the next look.
    pub sleep: bool,
}

/// One round of the logger thread: lost lines are counted, and reported before the
/// next line that did arrive, or before the thread waits.
pub fn logger_step(taken: Taken, dropped: &mut u64) -> (r: LoggerStep)
    requires
        *old(dropped) < u64::MAX,
    ensures
        *final(dropped) == (if taken is Dropped {
            *old(dropped) + 1
        } else {
            0
        }),
        r.report is Some <==> !(taken is Dropped) && *old(dropped) > 0,
        r.report matches Some(buffer) ==> buffer.wf() && buffer@ == kept_text(
            encode_utf8(drop_report(*old(dropped) as nat)),
        ),
        r.line is Some <==> taken is Line,
        taken matches Taken::Line(text) ==> r.line->0@ == text@,
        r.sleep == (taken is Empty),
{
    match taken {
        Taken::Line(text) => {
            let report = report_drops(dropped);
            LoggerStep { report, line: Some(text), sleep: false }
        },
        Taken::Dropped => {
            *dropped = *dropped + 1;
            LoggerStep { report: None, line: None, sleep: false }
        },
        Taken::Empty => {
            let report = report_drops(dropped);
            LoggerStep { report, line: None, sleep: true }
        },
    }
}

/// The prefix of every line at the debugger, in sixteen-bit units.
pub open spec fn wide_prefix() -> Seq<u16> {
    // "wb-tap: "
    seq![0x77u16, 0x62u16, 0x2Du16, 0x74u16, 0x61u16, 0x70u16, 0x3Au16, 0x20u16]
}

/// A line as the debugger takes it: the prefix, as many units as fit, and a zero.
pub fn wide_line(units: &Vec<u16>) -> (r: Vec<u16>)
    ensures
        ({
            let all = wide_prefix() + units@;
            let kept = if all.len() < WIDE_MAX {
                all
            } else {
                all.take(WIDE_MAX - 1)
            };
            r@ == kept.push(0u16)
        }),
{
    let mut wide: Vec<u16> = Vec::new();
    wide.push(0x77);
    wide.push(0x62);
    wide.push(0x2D);
    wide.push(0x74);
    wide.push(0x61);
    wide.push(0x70);
    wide.push(0x3A);
    wide.push(0x20);
    assert(wide@ =~= wide_prefix());
    let mut i: usize = 0;
    while i < units.len() && wide.len() + 1 < WIDE_MAX
        invariant
            0 <= i <= units@.len(),
            wide@.len() < WIDE_MAX,
            wide@ =~= wide_prefix() + units@.take(i as int),
        decreases units@.len() - i,
    {
        wide.push(units[i]);
        assert(units@.take(i + 1) =~= units@.take(i as int).push(units@[i as int]));
        i = i + 1;
    }
    proof {
        let all = wide_prefix() + units@;
        if all.len() < WIDE_MAX {
            assert(wide@ =~= all);
        } else {
            assert(wide@ =~= all.take(WIDE_MAX - 1));
        }
    }
    wide.push(0);
    wide
}

/// A line is kept up to its two hundred and fifty-sixth byte.
pub proof fn a_line_keeps_its_beginning(text: Seq<u8>)
    ensures
        kept_text(text).len() == (if text.len() > 256 {
            256
        } else {
            text.len()
        }),
        kept_text(text) == text.take(kept_text(text).len() as int),
        text.len() <= 256 ==> kept_text(text) == text,
{
    if text.len() <= 256 {
        assert(text.take(text.len() as int) =~= text);
    }
}

/// A line that finds fewer than two hundred and fifty-six waiting is kept, and one that finds
/// more is lost; what waits already stays as it is.
pub proof fn a_full_ring_loses_the_newest(pending: Seq<Entry>, text: Seq<u8>)
    ensures
        logged(pending, text).len() == pending.len() + 1,
        logged(pending, text).drop_last() == pending,
        pending.len() < 256 && text.len() <= 256 ==> logged(pending, text).last() == Entry::Kept(
            text,
        ),
        pending.len() >= 256 ==> logged(pending, text).last() is Lost,
{
    assert(logged(pending, text).drop_last() =~= pending);
}

/// The report of a gap says how many lines are missing.
pub proof fn a_report_counts_the_lines(dropped: nat)
    ensures
        ({
            let text = drop_report(dropped);
            let end = digits(dropped).len() + 1;
            &&& text[0] == '<'
            &&& text[text.len() - 1] == '>'
            &&& number_read(text.subrange(1, end as int)) == dropped
        }),
{
    reveal_strlit("<");
    reveal_strlit(" log lines dropped: logger fell behind>");
    digits_read_back(dropped);
    let text = drop_report(dropped);
    let end = digits(dropped).len() + 1;
    assert(text.subrange(1, end as int) =~= digits(dropped));
}

/// A line at the debugger begins with the name of the module.
pub proof fn a_debugger_line_names_the_module(i: int)
    ensures
        wide_prefix().len() == 8,
        0 <= i < 8 ==> wide_prefix()[i] == "wb-tap: "@[i] as u16,
{
    reveal_strlit("wb-tap: ");
}

} // verus!
