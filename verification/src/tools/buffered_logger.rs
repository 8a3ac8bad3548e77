//! Groups the log lines of tasks that run at the same time.
//!
//! Lines come with a label and are held back until there are too many of the
//! label, until none has come for a while, or until they are asked for.

use vstd::prelude::*;
use crate::text::{join3, str_eq};
use crate::types::Level;

verus! {

/// A line of the log.
pub struct LogLine {
    pub level: Level,
    pub message: String,
}

/// A line that is written, with its label.
pub struct Written {
    pub label: String,
    pub line: LogLine,
}

/// The lines of a label that are held back.
pub struct LineBuffer {
    pub label: String,
    /// When the last line came, in nanoseconds.
    pub last_logged: u64,
    pub lines: Vec<LogLine>,
}

/// Lines that are held back, grouped by label.
pub struct BufferedLogger {
    buffers: Vec<LineBuffer>,
    max_buffered_lines: usize,
    max_aggregation_time: u64,
}

/// The lines of a label among some buffers, which have distinct labels.
pub open spec fn lines_of(buffers: Seq<LineBuffer>, label: Seq<char>) -> Seq<LogLine>
    decreases buffers.len(),
{
    if buffers.len() == 0 {
        seq![]
    } else if buffers.last().label@ == label {
        buffers.last().lines@
    } else {
        lines_of(buffers.drop_last(), label)
    }
}

/// The lines of a label among those that are written, in order.
pub open spec fn written_for(out: Seq<Written>, label: Seq<char>) -> Seq<LogLine>
    decreases out.len(),
{
    if out.len() == 0 {
        seq![]
    } else if out.last().label@ == label {
        written_for(out.drop_last(), label).push(out.last().line)
    } else {
        written_for(out.drop_last(), label)
    }
}

/// Whether the lines of each label are written one directly after the other.
pub open spec fn grouped(out: Seq<Written>) -> bool {
    forall|i: int, j: int, k: int|
        0 <= i < j < k < out.len() && (#[trigger] out[i]).label@ == (#[trigger] out[k]).label@
            ==> (#[trigger] out[j]).label@ == out[i].label@
}

/// Whether no two buffers have the same label.
pub open spec fn distinct(buffers: Seq<LineBuffer>) -> bool {
    forall|i: int, j: int|
        0 <= i < j < buffers.len() ==> (#[trigger] buffers[i]).label@ != (
        #[trigger] buffers[j]).label@
}

/// Whether a label has a buffer.
pub open spec fn has_label(buffers: Seq<LineBuffer>, label: Seq<char>) -> bool {
    exists|i: int| 0 <= i < buffers.len() && (#[trigger] buffers[i]).label@ == label
}

/// When the last line of a label came, for a label that has a buffer.
spec fn last_in(buffers: Seq<LineBuffer>, label: Seq<char>) -> u64 {
    buffers[choose|i: int| 0 <= i < buffers.len() && (#[trigger] buffers[i]).label@
        == label].last_logged
}

proof fn last_at(buffers: Seq<LineBuffer>, k: int)
    requires
        distinct(buffers),
        0 <= k < buffers.len(),
    ensures
        last_in(buffers, buffers[k].label@) == buffers[k].last_logged,
        has_label(buffers, buffers[k].label@),
{
    let label = buffers[k].label@;
    let i = choose|i: int| 0 <= i < buffers.len() && (#[trigger] buffers[i]).label@ == label;
    assert(0 <= k < buffers.len() && buffers[k].label@ == label);
    if i < k {
        assert(buffers[i].label@ != buffers[k].label@);
    }
    if k < i {
        assert(buffers[k].label@ != buffers[i].label@);
    }
}

/// Buffers that hold the same buffer for a label agree on when its last line came.
proof fn last_agrees(a: Seq<LineBuffer>, b: Seq<LineBuffer>, i: int, j: int)
    requires
        distinct(a),
        distinct(b),
        0 <= i < a.len(),
        0 <= j < b.len(),
        a[i].label@ == b[j].label@,
        a[i].last_logged == b[j].last_logged,
    ensures
        last_in(a, a[i].label@) == last_in(b, a[i].label@),
        has_label(a, a[i].label@),
        has_label(b, a[i].label@),
{
    last_at(a, i);
    last_at(b, j);
}

/// Whether what was held back and what was received is what was written and what
/// is held back then, in the same order.
pub open spec fn in_order(
    held: Seq<LogLine>,
    received: Seq<LogLine>,
    written: Seq<LogLine>,
    held_after: Seq<LogLine>,
) -> bool {
    written + held_after == held + received
}

/// The lines of a label in a request that brings one line.
pub open spec fn received_for(label: Seq<char>, line: LogLine, l: Seq<char>) -> Seq<LogLine> {
    if l == label {
        seq![line]
    } else {
        seq![]
    }
}

/// The printed form of a line.
pub fn line_text(label: &str, message: &str) -> (r: String)
    ensures
        r@ == "["@ + label@ + "]: "@ + message@,
{
    let mut r = join3("[", label, "]: ");
    r.append(message);
    r
}

proof fn lines_at(buffers: Seq<LineBuffer>, k: int)
    requires
        distinct(buffers),
        0 <= k < buffers.len(),
    ensures
        lines_of(buffers, buffers[k].label@) == buffers[k].lines@,
    decreases buffers.len(),
{
    if k < buffers.len() - 1 {
        assert(buffers[k].label@ != buffers[buffers.len() - 1].label@);
        assert(distinct(buffers.drop_last())) by {
            assert forall|i: int, j: int| 0 <= i < j < buffers.drop_last().len() implies (
            #[trigger] buffers.drop_last()[i]).label@ != (
            #[trigger] buffers.drop_last()[j]).label@ by {
                assert(buffers[i].label@ != buffers[j].label@);
            }
        }
        lines_at(buffers.drop_last(), k);
    }
}

proof fn lines_missing(buffers: Seq<LineBuffer>, label: Seq<char>)
    requires
        !has_label(buffers, label),
    ensures
        lines_of(buffers, label) == Seq::<LogLine>::empty(),
    decreases buffers.len(),
{
    if buffers.len() > 0 {
        assert(buffers[buffers.len() - 1].label@ != label);
        assert(!has_label(buffers.drop_last(), label)) by {
            if has_label(buffers.drop_last(), label) {
                let i = choose|i: int|
                    0 <= i < buffers.drop_last().len() && (
                    #[trigger] buffers.drop_last()[i]).label@ == label;
                assert(buffers[i].label@ == label);
            }
        }
        lines_missing(buffers.drop_last(), label);
    }
}

/// Buffers that agree on a label hold the same lines for it.
proof fn lines_agree(a: Seq<LineBuffer>, b: Seq<LineBuffer>, label: Seq<char>)
    requires
        distinct(a),
        distinct(b),
        forall|i: int|
            0 <= i < a.len() && (#[trigger] a[i]).label@ == label ==> exists|j: int|
                0 <= j < b.len() && (#[trigger] b[j]).label@ == label && b[j].lines@ == a[i].lines@,
        forall|j: int|
            0 <= j < b.len() && (#[trigger] b[j]).label@ == label ==> exists|i: int|
                0 <= i < a.len() && (#[trigger] a[i]).label@ == label,
    ensures
        lines_of(a, label) == lines_of(b, label),
{
    if has_label(a, label) {
        let i = choose|i: int| 0 <= i < a.len() && (#[trigger] a[i]).label@ == label;
        lines_at(a, i);
        let j = choose|j: int|
            0 <= j < b.len() && (#[trigger] b[j]).label@ == label && b[j].lines@ == a[i].lines@;
        lines_at(b, j);
    } else {
        assert(!has_label(b, label));
        lines_missing(a, label);
        lines_missing(b, label);
    }
}

proof fn written_push(out: Seq<Written>, item: Written, label: Seq<char>)
    ensures
        written_for(out.push(item), label) == (if item.label@ == label {
            written_for(out, label).push(item.line)
        } else {
            written_for(out, label)
        }),
{
    assert(out.push(item).drop_last() =~= out);
}

/// Writes all lines of a label, behind what was written already.
fn flush_by_label(label: &str, lines: Vec<LogLine>, out: &mut Vec<Written>)
    ensures
        old(out)@.is_prefix_of(final(out)@),
        forall|i: int|
            old(out)@.len() <= i < final(out)@.len() ==> (#[trigger] final(out)@[i]).label@
                == label@,
        forall|l: Seq<char>| #[trigger]
            written_for(final(out)@, l) == (if l == label@ {
                written_for(old(out)@, l) + lines@
            } else {
                written_for(old(out)@, l)
            }),
{
    let ghost all = lines@;
    let ghost start = out@;
    assert forall|l: Seq<char>| #[trigger] written_for(out@, l) == (if l == label@ {
        written_for(start, l) + all.take(0)
    } else {
        written_for(start, l)
    }) by {
        assert(written_for(start, l) + all.take(0) =~= written_for(start, l));
    }
    for line in it: lines
        invariant
            it.seq() == all,
            start.is_prefix_of(out@),
            forall|i: int|
                start.len() <= i < out@.len() ==> (#[trigger] out@[i]).label@ == label@,
            forall|l: Seq<char>| #[trigger]
                written_for(out@, l) == (if l == label@ {
                    written_for(start, l) + all.take(it.index() as int)
                } else {
                    written_for(start, l)
                }),
    {
        let ghost before = out@;
        let ghost k = it.index() as int;
        let item = Written { label: label.to_owned(), line };
        out.push(item);
        assert forall|l: Seq<char>| #[trigger] written_for(out@, l) == (if l == label@ {
            written_for(start, l) + all.take(k + 1)
        } else {
            written_for(start, l)
        }) by {
            written_push(before, item, l);
            assert(written_for(before, l) == (if l == label@ {
                written_for(start, l) + all.take(k)
            } else {
                written_for(start, l)
            }));
            assert(written_for(start, l) + all.take(k + 1) =~= (written_for(start, l) + all.take(
                k,
            )).push(line));
        }
    }
    assert(all.take(all.len() as int) =~= all);
}

impl BufferedLogger {
    /// Lines of a label that are held back.
    pub closed spec fn held(&self, label: Seq<char>) -> Seq<LogLine> {
        lines_of(self.buffers@, label)
    }

    /// Whether a label has a buffer.
    pub closed spec fn knows(&self, label: Seq<char>) -> bool {
        has_label(self.buffers@, label)
    }

    /// When the last line of a label came.
    pub closed spec fn last_of(&self, label: Seq<char>) -> u64 {
        last_in(self.buffers@, label)
    }

    /// How many lines of a label are held back at most.
    pub closed spec fn line_limit(&self) -> usize {
        self.max_buffered_lines
    }

    /// For how long lines are held back after the last one.
    pub closed spec fn time_limit(&self) -> u64 {
        self.max_aggregation_time
    }

    /// Every label has at most one buffer.
    pub closed spec fn valid(&self) -> bool {
        distinct(self.buffers@)
    }

    /// Whether lines are held back at all: not if neither limit allows for it.
    pub fn is_buffering(max_buffered_lines: usize, max_aggregation_time: u64) -> (r: bool)
        ensures
            r == (max_buffered_lines > 0 || max_aggregation_time > 0),
    {
        max_buffered_lines > 0 || max_aggregation_time > 0
    }

    /// Nothing is held back.
    pub fn new(max_buffered_lines: usize, max_aggregation_time: u64) -> (r: Self)
        ensures
            r.valid(),
            r.line_limit() == max_buffered_lines,
            r.time_limit() == max_aggregation_time,
            forall|l: Seq<char>| #[trigger] r.held(l) == Seq::<LogLine>::empty(),
            forall|l: Seq<char>| !#[trigger] r.knows(l),
    {
        BufferedLogger { buffers: Vec::new(), max_buffered_lines, max_aggregation_time }
    }

    fn find(&self, label: &str) -> (r: Option<usize>)
        ensures
            match r {
                Some(k) => k < self.buffers@.len() && self.buffers@[k as int].label@ == label@,
                None => !has_label(self.buffers@, label@),
            },
    {
        for i in 0..self.buffers.len()
            invariant
                forall|j: int| 0 <= j < i ==> (#[trigger] self.buffers@[j]).label@ != label@,
        {
            if str_eq(self.buffers[i].label.as_str(), label) {
                return Some(i);
            }
        }
        None
    }

    /// Takes in a line. If its label then has more lines than the limit, all of them
    /// are written, this one last, and none is held back.
    pub fn receive(&mut self, label: &str, line: LogLine, now: u64) -> (out: Vec<Written>)
        requires
            old(self).valid(),
        ensures
            final(self).valid(),
            final(self).line_limit() == old(self).line_limit(),
            final(self).time_limit() == old(self).time_limit(),
            forall|l: Seq<char>|
                l != label@ ==> #[trigger] final(self).held(l) == old(self).held(l),
            forall|l: Seq<char>|
                l != label@ ==> #[trigger] written_for(out@, l) == Seq::<LogLine>::empty(),
            forall|l: Seq<char>|
                l != label@ ==> #[trigger] final(self).knows(l) == old(self).knows(l),
            forall|l: Seq<char>|
                l != label@ && old(self).knows(l) ==> #[trigger] final(self).last_of(l) == old(
                    self,
                ).last_of(l),
            if old(self).held(label@).len() + 1 > old(self).line_limit() {
                &&& final(self).held(label@) == Seq::<LogLine>::empty()
                &&& written_for(out@, label@) == old(self).held(label@).push(line)
                &&& final(self).knows(label@) == old(self).knows(label@)
                &&& old(self).knows(label@) ==> final(self).last_of(label@) == old(self).last_of(
                    label@,
                )
            } else {
                &&& final(self).knows(label@)
                &&& final(self).held(label@) == old(self).held(label@).push(line)
                &&& out@.len() == 0
                &&& final(self).last_of(label@) == now
            },
            forall|l: Seq<char>|
                in_order(
                    old(self).held(l),
                    received_for(label@, line, l),
                    #[trigger] written_for(out@, l),
                    final(self).held(l),
                ),
    {
        let mut out: Vec<Written> = Vec::new();
        let ghost before = self.buffers@;
        match self.find(label) {
            Some(k) => {
                let mut buffer = self.buffers.remove(k);
                proof {
                    lines_at(before, k as int);
                    assert(buffer == before[k as int]);
                }
                if buffer.lines.len() >= self.max_buffered_lines {
                    // reached the limit, write all lines and the new one
                    let mut lines: Vec<LogLine> = Vec::new();
                    std::mem::swap(&mut buffer.lines, &mut lines);
                    let ghost held = lines@;
                    lines.push(line);
                    flush_by_label(label, lines, &mut out);
                    assert(Seq::<LogLine>::empty() + held.push(line) =~= held.push(line));
                } else {
                    buffer.lines.push(line);
                    buffer.last_logged = now;
                }
                self.buffers.push(buffer);
                proof {
                    assert(self.buffers@.drop_last() =~= before.remove(k as int));
                    moved_to_end(before, self.buffers@, k as int);
                    let n = self.buffers@.len() - 1;
                    lines_at(self.buffers@, n);
                    assert(self.buffers@[n].label@ == label@);
                    last_at(self.buffers@, n);
                    last_at(before, k as int);
                    assert forall|l: Seq<char>| l != label@ implies lines_of(self.buffers@, l)
                        == lines_of(before, l) && has_label(self.buffers@, l) == has_label(
                        before,
                        l,
                    ) && (has_label(before, l) ==> last_in(self.buffers@, l) == last_in(
                        before,
                        l,
                    )) by {
                        moved_lines(before, self.buffers@, k as int, l);
                        moved_last(before, self.buffers@, k as int, l);
                    }
                }
            },
            None if self.max_buffered_lines == 0 => {
                proof {
                    lines_missing(before, label@);
                }
                let mut lines: Vec<LogLine> = Vec::new();
                lines.push(line);
                flush_by_label(label, lines, &mut out);
                assert(Seq::<LogLine>::empty() + lines@ =~= Seq::<LogLine>::empty().push(line));
            },
            None => {
                proof {
                    lines_missing(before, label@);
                }
                let mut lines: Vec<LogLine> = Vec::new();
                lines.push(line);
                let buffer = LineBuffer { label: label.to_owned(), last_logged: now, lines };
                self.buffers.push(buffer);
                proof {
                    let after = self.buffers@;
                    assert(after.drop_last() =~= before);
                    assert(distinct(after)) by {
                        assert forall|i: int, j: int| 0 <= i < j < after.len() implies (
                        #[trigger] after[i]).label@ != (#[trigger] after[j]).label@ by {
                            assert(before[i] == after[i]);
                            if j < before.len() {
                                assert(before[j] == after[j]);
                            }
                        }
                    }
                    assert(after[after.len() - 1].label@ == label@);
                    last_at(after, after.len() - 1);
                    assert forall|l: Seq<char>| l != label@ implies has_label(after, l) == has_label(
                        before,
                        l,
                    ) && (has_label(before, l) ==> last_in(after, l) == last_in(before, l)) by {
                        if has_label(before, l) {
                            let i = choose|i: int|
                                0 <= i < before.len() && (#[trigger] before[i]).label@ == l;
                            assert(after[i] == before[i]);
                            last_agrees(before, after, i, i);
                        }
                        if has_label(after, l) {
                            let i = choose|i: int|
                                0 <= i < after.len() && (#[trigger] after[i]).label@ == l;
                            assert(before[i] == after[i]);
                        }
                    }
                    assert(lines@ =~= Seq::<LogLine>::empty().push(line));
                }
            },
        }
        proof {
            assert forall|l: Seq<char>|
                in_order(
                    old(self).held(l),
                    received_for(label@, line, l),
                    #[trigger] written_for(out@, l),
                    self.held(l),
                ) by {
                assert(written_for(out@, l) + self.held(l) =~= old(self).held(l) + received_for(
                    label@,
                    line,
                    l,
                ));
            }
        }
        out
    }

    /// Writes the lines of a label and forgets the label.
    pub fn flush(&mut self, label: &str) -> (out: Vec<Written>)
        requires
            old(self).valid(),
        ensures
            final(self).valid(),
            final(self).line_limit() == old(self).line_limit(),
            final(self).time_limit() == old(self).time_limit(),
            !final(self).knows(label@),
            forall|l: Seq<char>|
                l != label@ ==> #[trigger] final(self).knows(l) == old(self).knows(l),
            forall|l: Seq<char>|
                l != label@ && old(self).knows(l) ==> #[trigger] final(self).last_of(l) == old(
                    self,
                ).last_of(l),
            final(self).held(label@) == Seq::<LogLine>::empty(),
            written_for(out@, label@) == old(self).held(label@),
            forall|l: Seq<char>|
                l != label@ ==> #[trigger] final(self).held(l) == old(self).held(l),
            forall|l: Seq<char>|
                l != label@ ==> #[trigger] written_for(out@, l) == Seq::<LogLine>::empty(),
            forall|l: Seq<char>|
                in_order(
                    old(self).held(l),
                    seq![],
                    #[trigger] written_for(out@, l),
                    final(self).held(l),
                ),
    {
        let mut out: Vec<Written> = Vec::new();
        let ghost before = self.buffers@;
        match self.find(label) {
            Some(k) => {
                let buffer = self.buffers.remove(k);
                proof {
                    lines_at(before, k as int);
                    assert(buffer == before[k as int]);
                }
                flush_by_label(label, buffer.lines, &mut out);
                proof {
                    let after = self.buffers@;
                    assert(distinct(after)) by {
                        removed_is_distinct(before, k as int);
                    }
                    assert(!has_label(after, label@)) by {
                        removed_label(before, k as int);
                    }
                    lines_missing(after, label@);
                    assert(Seq::<LogLine>::empty() + buffer.lines@ =~= buffer.lines@);
                    assert forall|l: Seq<char>| l != label@ implies lines_of(after, l) == lines_of(
                        before,
                        l,
                    ) && has_label(after, l) == has_label(before, l) && (has_label(before, l)
                        ==> last_in(after, l) == last_in(before, l)) by {
                        removed_lines(before, k as int, l);
                        removed_last(before, k as int, l);
                    }
                }
            },
            None => {
                proof {
                    lines_missing(before, label@);
                }
            },
        }
        proof {
            assert forall|l: Seq<char>|
                in_order(
                    old(self).held(l),
                    seq![],
                    #[trigger] written_for(out@, l),
                    self.held(l),
                ) by {
                assert(written_for(out@, l) + self.held(l) =~= old(self).held(l) + Seq::<
                    LogLine,
                >::empty());
            }
        }
        out
    }

    /// Writes the lines of all labels, or of those for which no line has come for
    /// too long at a given time.
    fn flush_where(&mut self, expired_at: Option<u64>) -> (out: Vec<Written>)
        requires
            old(self).valid(),
        ensures
            final(self).valid(),
            final(self).line_limit() == old(self).line_limit(),
            final(self).time_limit() == old(self).time_limit(),
            forall|l: Seq<char>| #[trigger] final(self).knows(l) == old(self).knows(l),
            forall|l: Seq<char>|
                old(self).knows(l) ==> #[trigger] final(self).last_of(l) == old(self).last_of(l),
            grouped(out@),
            forall|l: Seq<char>| #[trigger]
                written_for(out@, l) + final(self).held(l) == old(self).held(l),
            forall|l: Seq<char>|
                written_for(out@, l).len() > 0 ==> #[trigger] final(self).held(l) == Seq::<
                    LogLine,
                >::empty(),
            expired_at is None ==> forall|l: Seq<char>| #[trigger]
                final(self).held(l) == Seq::<LogLine>::empty(),
            expired_at is Some ==> forall|l: Seq<char>|
                old(self).knows(l) ==> #[trigger] final(self).held(l) == (if expired(
                    *old(self),
                    l,
                    expired_at->0,
                ) {
                    Seq::<LogLine>::empty()
                } else {
                    old(self).held(l)
                }),
    {
        let mut out: Vec<Written> = Vec::new();
        let ghost before = self.buffers@;
        let mut old_buffers: Vec<LineBuffer> = Vec::new();
        std::mem::swap(&mut self.buffers, &mut old_buffers);
        let max_time: u64 = self.max_aggregation_time;
        let mut kept: Vec<LineBuffer> = Vec::new();
        for buffer in it: old_buffers
            invariant
                it.seq() == before,
                distinct(before),
                kept@.len() == it.index(),
                forall|j: int| 0 <= j < kept@.len() ==> same_or_flushed(
                    before[j],
                    #[trigger] kept@[j],
                    expired_at,
                    max_time,
                ),
                forall|l: Seq<char>| #[trigger]
                    written_for(out@, l) + lines_of(kept@, l) == lines_of(
                        before.take(it.index() as int),
                        l,
                    ),
                forall|l: Seq<char>|
                    written_for(out@, l).len() > 0 ==> #[trigger] lines_of(kept@, l) == Seq::<
                        LogLine,
                    >::empty(),
                distinct(kept@),
                grouped(out@),
                forall|i: int|
                    0 <= i < out@.len() ==> has_label(
                        before.take(it.index() as int),
                        (#[trigger] out@[i]).label@,
                    ),
        {
            let ghost k = it.index() as int;
            let ghost kept_before = kept@;
            let ghost out_before = out@;
            let mut buffer = buffer;
            let ghost original = buffer;
            assert(original == before[k]);
            let flushes = match expired_at {
                None => true,
                Some(now) => buffer.lines.len() > 0 && now.saturating_sub(buffer.last_logged)
                    > max_time,
            };
            let ghost mut written: Seq<LogLine> = seq![];
            if flushes {
                let mut lines: Vec<LogLine> = Vec::new();
                std::mem::swap(&mut buffer.lines, &mut lines);
                proof {
                    written = lines@;
                }
                flush_by_label(buffer.label.as_str(), lines, &mut out);
            }
            kept.push(buffer);
            proof {
                assert(kept@.drop_last() =~= kept_before);
                grouped_step(before, k, out_before, out@);
                flush_step(
                    before,
                    k,
                    kept_before,
                    kept@,
                    out_before,
                    out@,
                    written,
                );
            }
        }
        assert(before.take(before.len() as int) =~= before);
        self.buffers = kept;
        proof {
            flush_where_result(before, kept@, expired_at, max_time);
            assert forall|l: Seq<char>| old(self).knows(l) && expired_at is Some implies
                #[trigger] lines_of(kept@, l) == (if expired(*old(self), l, expired_at->0) {
                Seq::<LogLine>::empty()
            } else {
                lines_of(before, l)
            }) by {
                let i = choose|i: int|
                    0 <= i < before.len() && (#[trigger] before[i]).label@ == l;
                lines_at(before, i);
                assert(same_or_flushed(before[i], kept@[i], expired_at, max_time));
                assert(kept@[i].label@ == l);
                lines_at(kept@, i);
                last_at(before, i);
            }
        }
        out
    }

    /// Writes all lines that are held back, grouped by label.
    pub fn flush_all(&mut self) -> (out: Vec<Written>)
        requires
            old(self).valid(),
        ensures
            final(self).valid(),
            final(self).line_limit() == old(self).line_limit(),
            final(self).time_limit() == old(self).time_limit(),
            grouped(out@),
            forall|l: Seq<char>| #[trigger] final(self).held(l) == Seq::<LogLine>::empty(),
            forall|l: Seq<char>| #[trigger] written_for(out@, l) == old(self).held(l),
            forall|l: Seq<char>| #[trigger] final(self).knows(l) == old(self).knows(l),
            forall|l: Seq<char>|
                old(self).knows(l) ==> #[trigger] final(self).last_of(l) == old(self).last_of(l),
            forall|l: Seq<char>|
                in_order(
                    old(self).held(l),
                    seq![],
                    #[trigger] written_for(out@, l),
                    final(self).held(l),
                ),
    {
        let out = self.flush_where(None);
        proof {
            assert forall|l: Seq<char>| #[trigger] written_for(out@, l) == old(self).held(l) by {
                assert(self.held(l) == Seq::<LogLine>::empty());
                assert(written_for(out@, l) + self.held(l) =~= written_for(out@, l));
            }
            assert forall|l: Seq<char>|
                in_order(
                    old(self).held(l),
                    seq![],
                    #[trigger] written_for(out@, l),
                    self.held(l),
                ) by {
                assert(old(self).held(l) + Seq::<LogLine>::empty() =~= old(self).held(l));
            }
        }
        out
    }

    /// Writes the lines of those labels for which no line has come for too long,
    /// grouped by label.
    pub fn flush_expired(&mut self, now: u64) -> (out: Vec<Written>)
        requires
            old(self).valid(),
        ensures
            final(self).valid(),
            final(self).line_limit() == old(self).line_limit(),
            final(self).time_limit() == old(self).time_limit(),
            grouped(out@),
            forall|l: Seq<char>| #[trigger] final(self).knows(l) == old(self).knows(l),
            forall|l: Seq<char>|
                old(self).knows(l) ==> #[trigger] final(self).last_of(l) == old(self).last_of(l),
            forall|l: Seq<char>|
                in_order(
                    old(self).held(l),
                    seq![],
                    #[trigger] written_for(out@, l),
                    final(self).held(l),
                ),
            forall|l: Seq<char>|
                old(self).knows(l) ==> #[trigger] final(self).held(l) == (if expired(
                    *old(self),
                    l,
                    now,
                ) {
                    Seq::<LogLine>::empty()
                } else {
                    old(self).held(l)
                }),
    {
        let out = self.flush_where(Some(now));
        proof {
            assert forall|l: Seq<char>|
                in_order(
                    old(self).held(l),
                    seq![],
                    #[trigger] written_for(out@, l),
                    self.held(l),
                ) by {
                assert(written_for(out@, l) + self.held(l) == old(self).held(l));
                assert(old(self).held(l) + Seq::<LogLine>::empty() =~= old(self).held(l));
            }
        }
        out
    }
}

/// Whether a label has lines, but none has come for longer than the limit.
pub open spec fn expired(logger: BufferedLogger, label: Seq<char>, now: u64) -> bool {
    logger.held(label).len() > 0 && now - logger.last_of(label) > logger.time_limit()
}

/// Whether a buffer is as before, or empty where its lines had to be written.
spec fn same_or_flushed(
    before: LineBuffer,
    after: LineBuffer,
    expired_at: Option<u64>,
    max_time: u64,
) -> bool {
    &&& after.label@ == before.label@
    &&& after.last_logged == before.last_logged
    &&& after.lines@ == (if expired_at is None || (before.lines@.len() > 0 && expired_at->0
        - before.last_logged > max_time) {
        Seq::<LogLine>::empty()
    } else {
        before.lines@
    })
}

proof fn removed_is_distinct(buffers: Seq<LineBuffer>, k: int)
    requires
        distinct(buffers),
        0 <= k < buffers.len(),
    ensures
        distinct(buffers.remove(k)),
{
    let after = buffers.remove(k);
    assert forall|i: int, j: int| 0 <= i < j < after.len() implies (#[trigger] after[i]).label@ != (
    #[trigger] after[j]).label@ by {
        let a = if i < k { i } else { i + 1 };
        let b = if j < k { j } else { j + 1 };
        assert(buffers[a].label@ != buffers[b].label@);
    }
}

proof fn removed_label(buffers: Seq<LineBuffer>, k: int)
    requires
        distinct(buffers),
        0 <= k < buffers.len(),
    ensures
        !has_label(buffers.remove(k), buffers[k].label@),
{
    let after = buffers.remove(k);
    assert forall|i: int| 0 <= i < after.len() implies (#[trigger] after[i]).label@
        != buffers[k].label@ by {
        let a = if i < k { i } else { i + 1 };
        if a < k {
            assert(buffers[a].label@ != buffers[k].label@);
        } else {
            assert(buffers[k].label@ != buffers[a].label@);
        }
    }
}

proof fn removed_lines(buffers: Seq<LineBuffer>, k: int, l: Seq<char>)
    requires
        distinct(buffers),
        0 <= k < buffers.len(),
        l != buffers[k].label@,
    ensures
        lines_of(buffers.remove(k), l) == lines_of(buffers, l),
{
    let after = buffers.remove(k);
    removed_is_distinct(buffers, k);
    assert forall|i: int| 0 <= i < after.len() && (#[trigger] after[i]).label@ == l implies exists|
        j: int,
    |
        0 <= j < buffers.len() && (#[trigger] buffers[j]).label@ == l && buffers[j].lines@
            == after[i].lines@ by {
        let a = if i < k { i } else { i + 1 };
        assert(buffers[a] == after[i]);
    }
    assert forall|j: int| 0 <= j < buffers.len() && (#[trigger] buffers[j]).label@ == l implies exists|
        i: int,
    |
        0 <= i < after.len() && (#[trigger] after[i]).label@ == l by {
        let a = if j < k { j } else { j - 1 };
        assert(after[a] == buffers[j]);
    }
    lines_agree(after, buffers, l);
}

proof fn removed_last(buffers: Seq<LineBuffer>, k: int, l: Seq<char>)
    requires
        distinct(buffers),
        0 <= k < buffers.len(),
        l != buffers[k].label@,
    ensures
        has_label(buffers.remove(k), l) == has_label(buffers, l),
        has_label(buffers, l) ==> last_in(buffers.remove(k), l) == last_in(buffers, l),
{
    let after = buffers.remove(k);
    removed_is_distinct(buffers, k);
    if has_label(buffers, l) {
        let i = choose|i: int| 0 <= i < buffers.len() && (#[trigger] buffers[i]).label@ == l;
        let j = if i < k { i } else { i - 1 };
        assert(after[j] == buffers[i]);
        last_agrees(buffers, after, i, j);
    }
    if has_label(after, l) {
        let j = choose|j: int| 0 <= j < after.len() && (#[trigger] after[j]).label@ == l;
        let i = if j < k { j } else { j + 1 };
        assert(buffers[i] == after[j]);
    }
}

/// A buffer that changes and moves to the end keeps the labels distinct.
proof fn moved_to_end(before: Seq<LineBuffer>, after: Seq<LineBuffer>, k: int)
    requires
        distinct(before),
        0 <= k < before.len(),
        after.len() == before.len(),
        after.drop_last() == before.remove(k),
        after.last().label@ == before[k].label@,
    ensures
        distinct(after),
{
    removed_is_distinct(before, k);
    removed_label(before, k);
    let rest = before.remove(k);
    assert forall|i: int, j: int| 0 <= i < j < after.len() implies (#[trigger] after[i]).label@ != (
    #[trigger] after[j]).label@ by {
        assert(after[i] == after.drop_last()[i]);
        assert(after[i] == rest[i]);
        if j < rest.len() {
            assert(after[j] == after.drop_last()[j]);
            assert(after[j] == rest[j]);
        }
    }
}

proof fn moved_last(before: Seq<LineBuffer>, after: Seq<LineBuffer>, k: int, l: Seq<char>)
    requires
        distinct(before),
        distinct(after),
        0 <= k < before.len(),
        after.len() == before.len(),
        after.drop_last() == before.remove(k),
        after.last().label@ == before[k].label@,
        l != before[k].label@,
    ensures
        has_label(after, l) == has_label(before, l),
        has_label(before, l) ==> last_in(after, l) == last_in(before, l),
{
    let rest = before.remove(k);
    if has_label(before, l) {
        let i = choose|i: int| 0 <= i < before.len() && (#[trigger] before[i]).label@ == l;
        let j = if i < k { i } else { i - 1 };
        assert(rest[j] == before[i]);
        assert(after[j] == after.drop_last()[j]);
        last_agrees(before, after, i, j);
    }
    if has_label(after, l) {
        let j = choose|j: int| 0 <= j < after.len() && (#[trigger] after[j]).label@ == l;
        assert(after[j] == after.drop_last()[j]);
        let i = if j < k { j } else { j + 1 };
        assert(before[i] == rest[j]);
    }
}

proof fn moved_lines(before: Seq<LineBuffer>, after: Seq<LineBuffer>, k: int, l: Seq<char>)
    requires
        distinct(before),
        0 <= k < before.len(),
        after.len() == before.len(),
        after.drop_last() == before.remove(k),
        after.last().label@ == before[k].label@,
        l != before[k].label@,
    ensures
        lines_of(after, l) == lines_of(before, l),
{
    removed_lines(before, k, l);
}

/// Lines of one buffer more were written behind those of the buffers before it.
proof fn grouped_step(before: Seq<LineBuffer>, k: int, out_before: Seq<Written>, out: Seq<Written>)
    requires
        distinct(before),
        0 <= k < before.len(),
        grouped(out_before),
        forall|i: int|
            0 <= i < out_before.len() ==> has_label(
                before.take(k),
                (#[trigger] out_before[i]).label@,
            ),
        out_before.is_prefix_of(out),
        forall|i: int|
            out_before.len() <= i < out.len() ==> (#[trigger] out[i]).label@ == before[k].label@,
    ensures
        grouped(out),
        forall|i: int|
            0 <= i < out.len() ==> has_label(before.take(k + 1), (#[trigger] out[i]).label@),
{
    let n = out_before.len();
    let upto = before.take(k + 1);
    assert forall|i: int| 0 <= i < n implies (#[trigger] out[i]) == out_before[i] && out[i].label@
        != before[k].label@ && has_label(upto, out[i].label@) by {
        assert(out_before =~= out.subrange(0, n as int));
        assert(out_before[i] == out[i]);
        let m = choose|m: int|
            0 <= m < before.take(k).len() && (#[trigger] before.take(k)[m]).label@
                == out_before[i].label@;
        assert(before[m].label@ != before[k].label@);
        assert(upto[m] == before[m]);
    }
    assert forall|i: int| n <= i < out.len() implies has_label(
        upto,
        (#[trigger] out[i]).label@,
    ) by {
        assert(upto[k].label@ == out[i].label@);
    }
    assert forall|i: int, j: int, m: int|
        0 <= i < j < m < out.len() && (#[trigger] out[i]).label@ == (
        #[trigger] out[m]).label@ implies (#[trigger] out[j]).label@ == out[i].label@ by {
        if m < n {
            assert(out_before[j] == out[j]);
        }
    }
}

/// One buffer more was looked at, and its lines written or kept.
proof fn flush_step(
    before: Seq<LineBuffer>,
    k: int,
    kept_before: Seq<LineBuffer>,
    kept: Seq<LineBuffer>,
    out_before: Seq<Written>,
    out: Seq<Written>,
    written: Seq<LogLine>,
)
    requires
        distinct(before),
        0 <= k < before.len(),
        kept_before.len() == k,
        forall|j: int| 0 <= j < k ==> (#[trigger] kept_before[j]).label@ == before[j].label@,
        kept.len() == k + 1,
        kept.drop_last() == kept_before,
        kept.last().label@ == before[k].label@,
        written + kept.last().lines@ == before[k].lines@,
        written.len() > 0 ==> kept.last().lines@ == Seq::<LogLine>::empty(),
        distinct(kept_before),
        forall|l: Seq<char>| #[trigger]
            written_for(out_before, l) + lines_of(kept_before, l) == lines_of(before.take(k), l),
        forall|l: Seq<char>|
            written_for(out_before, l).len() > 0 ==> #[trigger] lines_of(kept_before, l) == Seq::<
                LogLine,
            >::empty(),
        forall|l: Seq<char>| #[trigger]
            written_for(out, l) == (if l == before[k].label@ {
                written_for(out_before, l) + written
            } else {
                written_for(out_before, l)
            }),
    ensures
        distinct(kept),
        forall|l: Seq<char>| #[trigger]
            written_for(out, l) + lines_of(kept, l) == lines_of(before.take(k + 1), l),
        forall|l: Seq<char>|
            written_for(out, l).len() > 0 ==> #[trigger] lines_of(kept, l) == Seq::<
                LogLine,
            >::empty(),
{
    let label = before[k].label@;
    let upto = before.take(k + 1);
    assert(upto.drop_last() =~= before.take(k));
    assert(upto.last() == before[k]);
    assert forall|i: int, j: int| 0 <= i < j < kept.len() implies (#[trigger] kept[i]).label@ != (
    #[trigger] kept[j]).label@ by {
        assert(kept[i] == kept.drop_last()[i]);
        assert(kept_before[i].label@ == before[i].label@);
        if j < k {
            assert(kept[j] == kept.drop_last()[j]);
            assert(kept_before[j].label@ == before[j].label@);
        }
        assert(before[i].label@ != before[j].label@);
    }
    assert(!has_label(before.take(k), label)) by {
        if has_label(before.take(k), label) {
            let i = choose|i: int|
                0 <= i < before.take(k).len() && (#[trigger] before.take(k)[i]).label@ == label;
            assert(before[i].label@ != before[k].label@);
        }
    }
    lines_missing(before.take(k), label);
    assert(written_for(out_before, label) + lines_of(kept_before, label) == Seq::<
        LogLine,
    >::empty());
    assert(written_for(out_before, label).len() == 0);
    assert(written_for(out_before, label) =~= Seq::<LogLine>::empty());
    assert forall|l: Seq<char>| #[trigger] written_for(out, l) + lines_of(kept, l) == lines_of(
        upto,
        l,
    ) by {
        assert(written_for(out_before, l) + lines_of(kept_before, l) == lines_of(
            before.take(k),
            l,
        ));
        if l == label {
            assert(written_for(out, l) =~= written);
        }
    }
    assert forall|l: Seq<char>| written_for(out, l).len() > 0 implies #[trigger] lines_of(kept, l)
        == Seq::<LogLine>::empty() by {
        if l == label {
            assert(written_for(out, l) =~= written);
        } else {
            assert(lines_of(kept, l) == lines_of(kept_before, l));
        }
    }
}

proof fn flush_where_result(
    before: Seq<LineBuffer>,
    kept: Seq<LineBuffer>,
    expired_at: Option<u64>,
    max_time: u64,
)
    requires
        distinct(before),
        distinct(kept),
        kept.len() == before.len(),
        forall|j: int|
            0 <= j < kept.len() ==> same_or_flushed(
                before[j],
                #[trigger] kept[j],
                expired_at,
                max_time,
            ),
    ensures
        forall|l: Seq<char>| #[trigger] has_label(kept, l) == has_label(before, l),
        forall|l: Seq<char>|
            has_label(before, l) ==> #[trigger] last_in(kept, l) == last_in(before, l),
        expired_at is None ==> forall|l: Seq<char>| #[trigger]
            lines_of(kept, l) == Seq::<LogLine>::empty(),
{
    assert forall|l: Seq<char>| #[trigger] has_label(kept, l) == has_label(before, l) by {
        if has_label(kept, l) {
            let i = choose|i: int| 0 <= i < kept.len() && (#[trigger] kept[i]).label@ == l;
            assert(before[i].label@ == l);
        }
        if has_label(before, l) {
            let i = choose|i: int| 0 <= i < before.len() && (#[trigger] before[i]).label@ == l;
            assert(same_or_flushed(before[i], kept[i], expired_at, max_time));
            assert(kept[i].label@ == l);
        }
    }
    assert forall|l: Seq<char>| has_label(before, l) implies #[trigger] last_in(kept, l) == last_in(
        before,
        l,
    ) by {
        let i = choose|i: int| 0 <= i < before.len() && (#[trigger] before[i]).label@ == l;
        assert(same_or_flushed(before[i], kept[i], expired_at, max_time));
        last_agrees(before, kept, i, i);
    }
    if expired_at is None {
        assert forall|l: Seq<char>| #[trigger] lines_of(kept, l) == Seq::<LogLine>::empty() by {
            if has_label(kept, l) {
                let i = choose|i: int| 0 <= i < kept.len() && (#[trigger] kept[i]).label@ == l;
                lines_at(kept, i);
            } else {
                lines_missing(kept, l);
            }
        }
    }
}

/// No line of a label is lost, doubled or reordered, over any number of calls:
/// where two calls each write what was held back and received, in order, up to
/// what is still held back, so do both together.
pub proof fn order_is_kept_over_calls(
    held: Seq<LogLine>,
    first_in: Seq<LogLine>,
    first_out: Seq<LogLine>,
    between: Seq<LogLine>,
    second_in: Seq<LogLine>,
    second_out: Seq<LogLine>,
    after: Seq<LogLine>,
)
    requires
        in_order(held, first_in, first_out, between),
        in_order(between, second_in, second_out, after),
    ensures
        in_order(held, first_in + second_in, first_out + second_out, after),
{
    assert(first_out + second_out + after =~= first_out + (second_out + after));
    assert(first_out + (between + second_in) =~= first_out + between + second_in);
    assert(held + (first_in + second_in) =~= held + first_in + second_in);
}

/// Of what is held and received nothing is lost or repeated, and what was written comes
/// before what is still held.
pub proof fn no_line_is_lost(
    held: Seq<LogLine>,
    received: Seq<LogLine>,
    written: Seq<LogLine>,
    held_after: Seq<LogLine>,
)
    requires
        in_order(held, received, written, held_after),
    ensures
        written.len() + held_after.len() == held.len() + received.len(),
        forall|i: int| 0 <= i < written.len() ==> #[trigger] written[i] == (held + received)[i],
        forall|i: int|
            0 <= i < held_after.len() ==> #[trigger] held_after[i] == (held + received)[written.len()
                + i],
{
    let all = held + received;
    assert(all == written + held_after);
    assert forall|i: int| 0 <= i < written.len() implies #[trigger] written[i] == all[i] by {
        assert((written + held_after)[i] == written[i]);
    }
    assert forall|i: int| 0 <= i < held_after.len() implies #[trigger] held_after[i]
        == all[written.len() + i] by {
        assert((written + held_after)[written.len() + i] == held_after[i]);
    }
}

/// Lines that are held expire exactly once more time than the limit has passed since the
/// last line of their label.
pub proof fn held_lines_expire(logger: BufferedLogger, label: Seq<char>, now: u64)
    ensures
        expired(logger, label, now) <==> logger.held(label).len() > 0 && now > logger.last_of(label)
            + logger.time_limit(),
{
}

/// In grouped output the lines of a label stand together.
pub proof fn labels_stand_together(out: Seq<Written>, i: int, j: int, k: int)
    requires
        grouped(out),
        0 <= i <= j <= k < out.len(),
        out[i].label@ == out[k].label@,
    ensures
        out[j].label@ == out[i].label@,
{
}

/// Every line that is written counts for its own label, in order, and for no other.
pub proof fn lines_are_written_for_their_label(out: Seq<Written>, last: Written, label: Seq<char>)
    ensures
        last.label@ == label ==> written_for(out.push(last), label) == written_for(
            out,
            label,
        ).push(last.line),
        last.label@ != label ==> written_for(out.push(last), label) == written_for(out, label),
        written_for(Seq::empty(), label).len() == 0,
{
    assert(out.push(last).drop_last() =~= out);
}

} // verus!
