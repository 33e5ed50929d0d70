//! The decisions of the serial ingestion loop. The program reads the device
//! line by line and hands each outcome to [`Ingest::on_event`], which says
//! whether to drop the line, append a record to the readings buffer (and
//! whether to flush it), or stop.
//!
//! A ghost log holds every record written so far; the invariant of
//! [`Ingest`] states what holds of it in every state: no record comes from
//! the warm-up lines, none is blank, and timestamps never decrease.

use crate::text::{decimal, is_blank, is_blank_line, push_decimal};
use vstd::prelude::*;

verus! {

/// Lines discarded after the connection opens, whatever they hold.
pub const WARMUP_LINES: usize = 500;

/// Records between two flushes of the readings buffer.
pub const FLUSH_EVERY: usize = 5000;

/// A record of the readings stream, as the log remembers it.
pub struct Reading {
    /// Position of the source line among the lines read, from 0.
    pub line_no: nat,
    /// The timestamp written with it.
    pub at_ms: u64,
    /// The line as read, trailing newline included.
    pub text: Seq<char>,
}

/// One outcome of reading from the device.
pub enum ReadEvent {
    /// A line was read at `at_ms`, its newline included.
    Line { text: String, at_ms: u64 },
    /// The read failed; the connection is assumed to recover.
    Failed,
    /// The device closed the stream.
    Closed,
}

/// What the program does with one read outcome.
pub enum IngestAction {
    /// Nothing to write.
    Skip,
    /// Append `record` to the readings buffer, then flush it if `flush`.
    Write { record: String, flush: bool },
    /// Flush the buffer one last time and stop.
    Finish,
}

/// One line of the readings stream: `<timestamp_ms>;<line>`.
pub open spec fn record_text(at_ms: nat, line: Seq<char>) -> Seq<char> {
    decimal(at_ms) + seq![';'] + line
}

/// `r` writes exactly `record`, flushing after it iff `flush`.
pub open spec fn writes(r: IngestAction, record: Seq<char>, flush: bool) -> bool {
    match r {
        IngestAction::Write { record: s, flush: f } => s@ == record && f == flush,
        _ => false,
    }
}

/// No record comes from one of the first `WARMUP_LINES` lines.
pub open spec fn after_warmup(log: Seq<Reading>) -> bool {
    forall|i: int| 0 <= i < log.len() ==> (#[trigger] log[i]).line_no >= WARMUP_LINES
}

/// No record holds a blank line.
pub open spec fn none_blank(log: Seq<Reading>) -> bool {
    forall|i: int| 0 <= i < log.len() ==> !is_blank((#[trigger] log[i]).text)
}

/// Records keep the order of their lines, and their timestamps never decrease.
pub open spec fn in_order(log: Seq<Reading>) -> bool {
    forall|i: int, j: int|
        0 <= i < j < log.len() ==> (#[trigger] log[i]).at_ms <= (#[trigger] log[j]).at_ms
            && log[i].line_no < log[j].line_no
}

/// The state of the ingestion loop.
pub struct Ingest {
    /// Warm-up lines still to discard.
    pub warmup_left: usize,
    /// Records appended since the last flush.
    pub since_flush: usize,
    /// The last timestamp written, 0 before the first.
    pub last_ms: u64,
    /// Lines read so far.
    pub lines_read: Ghost<nat>,
    /// Every record written so far.
    pub log: Ghost<Seq<Reading>>,
}

impl Ingest {
    pub open spec fn wf(&self) -> bool {
        &&& self.warmup_left == (if self.lines_read@ < WARMUP_LINES {
            (WARMUP_LINES - self.lines_read@) as nat
        } else {
            0nat
        })
        &&& self.since_flush == self.log@.len() % (FLUSH_EVERY as nat)
        &&& after_warmup(self.log@)
        &&& none_blank(self.log@)
        &&& in_order(self.log@)
        &&& forall|i: int|
            0 <= i < self.log@.len() ==> (#[trigger] self.log@[i]).at_ms <= self.last_ms
                && self.log@[i].line_no < self.lines_read@
    }

    /// The state when the connection has just opened.
    pub fn new() -> (r: Ingest)
        ensures
            r.wf(),
            r.lines_read@ == 0,
            r.log@ == Seq::<Reading>::empty(),
    {
        Ingest {
            warmup_left: WARMUP_LINES,
            since_flush: 0,
            last_ms: 0,
            lines_read: Ghost(0),
            log: Ghost(Seq::empty()),
        }
    }

    /// Decides what to do with one read outcome.
    ///
    /// A line read during warm-up is discarded, whatever it holds. After
    /// warm-up, a blank line is dropped; any other line is written as
    /// `<timestamp_ms>;<line>`, its timestamp being `at_ms`, or the last one
    /// written if the clock has stepped back. Every `FLUSH_EVERY`-th record
    /// asks for a flush. A failed read changes nothing, and a closed stream
    /// ends the loop.
    pub fn on_event(&mut self, ev: ReadEvent) -> (r: IngestAction)
        requires
            old(self).wf(),
        ensures
            final(self).wf(),
            match ev {
                ReadEvent::Line { text, at_ms } => {
                    let n = old(self).lines_read@;
                    let ts = if at_ms >= old(self).last_ms {
                        at_ms
                    } else {
                        old(self).last_ms
                    };
                    &&& final(self).lines_read@ == n + 1
                    &&& if n < WARMUP_LINES || is_blank(text@) {
                        &&& r is Skip
                        &&& final(self).log@ == old(self).log@
                        &&& final(self).since_flush == old(self).since_flush
                    } else {
                        &&& final(self).log@ == old(self).log@.push(
                            Reading { line_no: n, at_ms: ts, text: text@ },
                        )
                        &&& writes(
                            r,
                            record_text(ts as nat, text@),
                            final(self).log@.len() % (FLUSH_EVERY as nat) == 0,
                        )
                    }
                },
                ReadEvent::Failed => r is Skip && *final(self) == *old(self),
                ReadEvent::Closed => r is Finish && *final(self) == *old(self),
            },
    {
        match ev {
            ReadEvent::Line { text, at_ms } => {
                let ghost n = self.lines_read@;
                proof {
                    self.lines_read = Ghost(n + 1);
                }
                if self.warmup_left > 0 {
                    self.warmup_left = self.warmup_left - 1;
                    return IngestAction::Skip;
                }
                if is_blank_line(text.as_str()) {
                    return IngestAction::Skip;
                }
                let ts = if at_ms >= self.last_ms {
                    at_ms
                } else {
                    self.last_ms
                };
                let ghost old_log = self.log@;
                let ghost rec = Reading { line_no: n, at_ms: ts, text: text@ };
                proof {
                    self.log = Ghost(old_log.push(rec));
                }
                self.last_ms = ts;
                let mut record = String::new();
                push_decimal(&mut record, ts);
                proof {
                    reveal_strlit(";");
                }
                record.append(";");
                record.append(text.as_str());
                assert(record@ =~= record_text(ts as nat, text@));
                let flush = self.since_flush + 1 == FLUSH_EVERY;
                if flush {
                    self.since_flush = 0;
                } else {
                    self.since_flush = self.since_flush + 1;
                }
                proof {
                    let m = FLUSH_EVERY as nat;
                    vstd::arithmetic::div_mod::lemma_mod_add_multiples_vanish(0, m as int);
                    assert((old_log.len() + 1) % m == if old_log.len() % m + 1 == m {
                        0
                    } else {
                        old_log.len() % m + 1
                    }) by {
                        vstd::arithmetic::div_mod::lemma_add_mod_noop(
                            old_log.len() as int,
                            1,
                            m as int,
                        );
                        vstd::arithmetic::div_mod::lemma_mod_self_0(m as int);
                    }
                    assert(forall|i: int|
                        0 <= i < old_log.len() ==> self.log@[i] == #[trigger] old_log[i]);
                }
                IngestAction::Write { record, flush }
            },
            ReadEvent::Failed => IngestAction::Skip,
            ReadEvent::Closed => IngestAction::Finish,
        }
    }
}

} // verus!
