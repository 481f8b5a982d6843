//! The bounded diagnostics log and the live state of the self-test checks.

use vstd::prelude::*;
use std::collections::VecDeque;
use crate::text::{chars_of, decimal, decimal_chars, string_of};

verus! {

/// The log keeps at most this many lines in memory.
pub const MAX_LINES: usize = 800;

/// On-disk log size after which the file is rotated.
pub const MAX_FILE_BYTES: u64 = 524288;

/// Interval of the background flusher and of UI refreshes, in milliseconds.
pub const UI_THROTTLE_MS: u64 = 200;

/// One row of the diagnostics panel.
#[derive(Debug)]
pub struct ComponentCheck {
    pub id: String,
    pub label: String,
    /// "PENDING" | "RUNNING" | "PASS" | "FAIL"
    pub state: String,
    pub detail: String,
}

pub struct CheckView {
    pub id: Seq<char>,
    pub label: Seq<char>,
    pub state: Seq<char>,
    pub detail: Seq<char>,
}

impl View for ComponentCheck {
    type V = CheckView;

    open spec fn view(&self) -> CheckView {
        CheckView { id: self.id@, label: self.label@, state: self.state@, detail: self.detail@ }
    }
}

impl Clone for ComponentCheck {
    fn clone(&self) -> (c: Self)
        ensures
            c@ == self@,
    {
        ComponentCheck {
            id: self.id.clone(),
            label: self.label.clone(),
            state: self.state.clone(),
            detail: self.detail.clone(),
        }
    }
}

pub open spec fn checks_view(v: Seq<ComponentCheck>) -> Seq<CheckView> {
    v.map_values(|c: ComponentCheck| c@)
}

/// A log line: `<timestamp> <level>/<tag>: <message>`.
pub open spec fn log_line(ts: u64, level: char, tag: Seq<char>, msg: Seq<char>) -> Seq<char> {
    decimal(ts as nat) + seq![' ', level, '/'] + tag + seq![':', ' '] + msg
}

/// The last `min(limit, len)` lines.
pub open spec fn last_lines(ring: Seq<Seq<char>>, limit: nat) -> Seq<Seq<char>> {
    if limit >= ring.len() {
        ring
    } else {
        ring.subrange(ring.len() - limit, ring.len() as int)
    }
}

/// The in-memory lines after appending `line`: the newest [`MAX_LINES`] lines.
pub open spec fn ring_push(ring: Seq<Seq<char>>, line: Seq<char>) -> Seq<Seq<char>> {
    last_lines(ring.push(line), MAX_LINES as nat)
}

/// Lines joined with a newline between consecutive lines.
pub open spec fn join_lines(lines: Seq<Seq<char>>) -> Seq<char>
    decreases lines.len(),
{
    if lines.len() == 0 {
        Seq::empty()
    } else if lines.len() == 1 {
        lines[0]
    } else {
        join_lines(lines.drop_last()) + seq!['\n'] + lines.last()
    }
}

/// Index of the first check with the given id at or after `i` (the length if none).
pub open spec fn find_check_from(cs: Seq<CheckView>, id: Seq<char>, i: int) -> int
    decreases cs.len() - i,
{
    if i < 0 || i >= cs.len() {
        cs.len() as int
    } else if cs[i].id == id {
        i
    } else {
        find_check_from(cs, id, i + 1)
    }
}

/// The checks after setting the state (and, if given, the detail) of the first
/// check with the given id; unchanged when no check has it.
pub open spec fn spec_update_check(
    cs: Seq<CheckView>,
    id: Seq<char>,
    state: Seq<char>,
    detail: Option<Seq<char>>,
) -> Seq<CheckView> {
    let i = find_check_from(cs, id, 0);
    if i < cs.len() {
        cs.update(
            i,
            CheckView {
                state,
                detail: match detail {
                    Some(d) => d,
                    None => cs[i].detail,
                },
                ..cs[i]
            },
        )
    } else {
        cs
    }
}

/// A fresh pending check.
pub open spec fn pending_check(id: Seq<char>, label: Seq<char>) -> CheckView {
    CheckView { id, label, state: "PENDING"@, detail: Seq::empty() }
}

/// Appends `line` and drops the oldest lines so that at most [`MAX_LINES`] remain.
fn keep_newest(ring: &mut VecDeque<String>, line: String)
    ensures
        final(ring).deep_view() == ring_push(old(ring).deep_view(), line@),
        final(ring)@.len() <= MAX_LINES,
{
    let ghost all = ring.deep_view().push(line@);
    let ghost r_old = ring@;
    ring.push_back(line);
    assert(ring.deep_view() =~= all) by {
        assert(ring@ =~= r_old.push(line));
    }
    while ring.len() > MAX_LINES
        invariant
            ring@.len() <= all.len(),
            all.len() > MAX_LINES ==> ring@.len() >= MAX_LINES,
            all.len() <= MAX_LINES ==> ring@.len() == all.len(),
            ring.deep_view() == all.subrange(all.len() - ring@.len(), all.len() as int),
        decreases ring@.len(),
    {
        let ghost r0 = ring.deep_view();
        let ghost v0 = ring@;
        let _ = ring.pop_front();
        assert(ring.deep_view() =~= r0.drop_first()) by {
            assert(ring@ =~= v0.subrange(1, v0.len() as int));
        }
    }
    assert(all.len() <= MAX_LINES ==> all.subrange(0, all.len() as int) =~= all);
}

/// The ring after appending a line: when it already holds [`MAX_LINES`]
/// lines the oldest one leaves first, so it never grows past that bound.
pub proof fn lemma_ring_push_evicts_oldest(ring: Seq<Seq<char>>, line: Seq<char>)
    requires
        ring.len() <= MAX_LINES,
    ensures
        ring_push(ring, line) == (if ring.len() == MAX_LINES {
            ring.drop_first()
        } else {
            ring
        }).push(line),
        ring_push(ring, line).len() == if ring.len() + 1 <= MAX_LINES {
            ring.len() + 1
        } else {
            MAX_LINES as nat
        },
{
    let all = ring.push(line);
    if ring.len() == MAX_LINES {
        assert(all.subrange(all.len() - MAX_LINES, all.len() as int) =~= ring.drop_first().push(line));
    }
}

/// The diagnostics log: a bounded ring of recent lines, the lines not yet
/// written to disk, and the live self-test checks.
pub struct DiagnosticsLog {
    ring: VecDeque<String>,
    pending: Vec<String>,
    checks: Vec<ComponentCheck>,
}

impl DiagnosticsLog {
    /// The lines held in memory, oldest first.
    pub closed spec fn lines(&self) -> Seq<Seq<char>> {
        self.ring.deep_view()
    }

    /// The lines not yet handed to the disk writer, oldest first.
    pub closed spec fn unflushed(&self) -> Seq<Seq<char>> {
        self.pending.deep_view()
    }

    /// The live checks, in display order.
    pub closed spec fn check_rows(&self) -> Seq<CheckView> {
        checks_view(self.checks@)
    }

    pub fn new() -> (log: Self)
        ensures
            log.lines() == Seq::<Seq<char>>::empty(),
            log.unflushed() == Seq::<Seq<char>>::empty(),
            log.check_rows() == Seq::<CheckView>::empty(),
    {
        let log = DiagnosticsLog { ring: VecDeque::new(), pending: Vec::new(), checks: Vec::new() };
        assert(log.ring.deep_view() =~= Seq::<Seq<char>>::empty());
        assert(log.pending.deep_view() =~= Seq::<Seq<char>>::empty());
        assert(checks_view(log.checks@) =~= Seq::<CheckView>::empty());
        log
    }

    pub fn d(&mut self, ts: u64, tag: &str, msg: &str)
        ensures
            final(self).lines() == ring_push(old(self).lines(), log_line(ts, 'D', tag@, msg@)),
            final(self).lines().len() <= MAX_LINES,
            final(self).unflushed() == old(self).unflushed().push(log_line(ts, 'D', tag@, msg@)),
            final(self).check_rows() == old(self).check_rows(),
    {
        self.push('D', ts, tag, msg)
    }

    pub fn i(&mut self, ts: u64, tag: &str, msg: &str)
        ensures
            final(self).lines() == ring_push(old(self).lines(), log_line(ts, 'I', tag@, msg@)),
            final(self).lines().len() <= MAX_LINES,
            final(self).unflushed() == old(self).unflushed().push(log_line(ts, 'I', tag@, msg@)),
            final(self).check_rows() == old(self).check_rows(),
    {
        self.push('I', ts, tag, msg)
    }

    pub fn w(&mut self, ts: u64, tag: &str, msg: &str)
        ensures
            final(self).lines() == ring_push(old(self).lines(), log_line(ts, 'W', tag@, msg@)),
            final(self).lines().len() <= MAX_LINES,
            final(self).unflushed() == old(self).unflushed().push(log_line(ts, 'W', tag@, msg@)),
            final(self).check_rows() == old(self).check_rows(),
    {
        self.push('W', ts, tag, msg)
    }

    pub fn e(&mut self, ts: u64, tag: &str, msg: &str)
        ensures
            final(self).lines() == ring_push(old(self).lines(), log_line(ts, 'E', tag@, msg@)),
            final(self).lines().len() <= MAX_LINES,
            final(self).unflushed() == old(self).unflushed().push(log_line(ts, 'E', tag@, msg@)),
            final(self).check_rows() == old(self).check_rows(),
    {
        self.push('E', ts, tag, msg)
    }

    /// Appends the line `<ts> <level>/<tag>: <msg>` to the ring (the oldest
    /// line leaving once it is full) and to the lines not yet written.
    pub fn push(&mut self, level: char, ts: u64, tag: &str, msg: &str)
        ensures
            final(self).lines() == ring_push(old(self).lines(), log_line(ts, level, tag@, msg@)),
            final(self).lines().len() <= MAX_LINES,
            final(self).unflushed() == old(self).unflushed().push(log_line(ts, level, tag@, msg@)),
            final(self).check_rows() == old(self).check_rows(),
    {
        let mut cs = decimal_chars(ts);
        cs.push(' ');
        cs.push(level);
        cs.push('/');
        let mut t = chars_of(tag);
        cs.append(&mut t);
        cs.push(':');
        cs.push(' ');
        let mut m = chars_of(msg);
        cs.append(&mut m);
        assert(cs@ =~= log_line(ts, level, tag@, msg@));
        let line = string_of(&cs);
        let copy = line.clone();
        keep_newest(&mut self.ring, line);
        let ghost pend = self.pending.deep_view();
        self.pending.push(copy);
        assert(self.pending.deep_view() =~= pend.push(cs@));
    }

    /// The most recent `limit` lines, oldest first.
    pub fn tail(&self, limit: usize) -> (r: Vec<String>)
        ensures
            r.deep_view() == last_lines(self.lines(), limit as nat),
    {
        let n = self.ring.len();
        let start = if limit >= n {
            0
        } else {
            n - limit
        };
        let mut r: Vec<String> = Vec::new();
        let mut k = start;
        while k < n
            invariant
                start <= k <= n,
                n == self.ring.len(),
                r.deep_view() =~= self.ring.deep_view().subrange(start as int, k as int),
            decreases n - k,
        {
            let ghost before = r.deep_view();
            r.push(self.ring[k].clone());
            assert(r.deep_view() =~= before.push(self.ring.deep_view()[k as int]));
            k = k + 1;
        }
        assert(self.ring.deep_view().subrange(0, n as int) =~= self.ring.deep_view());
        r
    }

    /// Every line in memory joined with newlines (the "Copy logs" text).
    pub fn export_text(&self) -> (s: String)
        ensures
            s@ == join_lines(last_lines(self.lines(), MAX_LINES as nat)),
    {
        let lines = self.tail(MAX_LINES);
        let ghost lv = lines.deep_view();
        let mut out: Vec<char> = Vec::new();
        let mut k: usize = 0;
        while k < lines.len()
            invariant
                0 <= k <= lines.len(),
                lv == lines.deep_view(),
                out@ == join_lines(lv.take(k as int)),
            decreases lines.len() - k,
        {
            let mut cs = chars_of(lines[k].as_str());
            assert(lv.take(k + 1).drop_last() =~= lv.take(k as int));
            if k > 0 {
                out.push('\n');
            }
            out.append(&mut cs);
            k = k + 1;
        }
        assert(lv.take(lines.len() as int) =~= lv);
        string_of(&out)
    }

    /// Forgets every line, in memory and not yet flushed; the checks stay.
    pub fn clear(&mut self)
        ensures
            final(self).lines() == Seq::<Seq<char>>::empty(),
            final(self).unflushed() == Seq::<Seq<char>>::empty(),
            final(self).check_rows() == old(self).check_rows(),
    {
        self.ring.clear();
        self.pending.clear();
        assert(self.ring.deep_view() =~= Seq::<Seq<char>>::empty());
        assert(self.pending.deep_view() =~= Seq::<Seq<char>>::empty());
    }

    /// Hands the unflushed lines to the disk writer.
    pub fn take_pending(&mut self) -> (batch: Vec<String>)
        ensures
            batch.deep_view() == old(self).unflushed(),
            final(self).unflushed() == Seq::<Seq<char>>::empty(),
            final(self).lines() == old(self).lines(),
            final(self).check_rows() == old(self).check_rows(),
    {
        let mut batch: Vec<String> = Vec::new();
        std::mem::swap(&mut batch, &mut self.pending);
        assert(self.pending.deep_view() =~= Seq::<Seq<char>>::empty());
        batch
    }

    /// Replaces the checks by the given (id, label) rows, all pending.
    pub fn set_checks(&mut self, items: Vec<(&str, String)>)
        ensures
            final(self).check_rows() == items@.map_values(
                |it: (&str, String)| pending_check(it.0@, it.1@),
            ),
            final(self).lines() == old(self).lines(),
            final(self).unflushed() == old(self).unflushed(),
    {
        let ghost target = items@.map_values(|it: (&str, String)| pending_check(it.0@, it.1@));
        let mut fresh: Vec<ComponentCheck> = Vec::new();
        let mut k: usize = 0;
        while k < items.len()
            invariant
                0 <= k <= items.len(),
                target == items@.map_values(|it: (&str, String)| pending_check(it.0@, it.1@)),
                checks_view(fresh@) =~= target.take(k as int),
            decreases items.len() - k,
        {
            let id = String::from_str(items[k].0);
            let label = items[k].1.clone();
            let ghost before = checks_view(fresh@);
            assert(target[k as int] == pending_check(items@[k as int].0@, items@[k as int].1@));
            fresh.push(
                ComponentCheck {
                    id,
                    label,
                    state: String::from_str("PENDING"),
                    detail: String::new(),
                },
            );
            assert(checks_view(fresh@) =~= before.push(target[k as int]));
            assert(target.take(k + 1) =~= target.take(k as int).push(target[k as int]));
            k = k + 1;
        }
        assert(target.take(items.len() as int) =~= target);
        self.checks = fresh;
    }

    /// Sets the state, and the detail when one is given, of the first check with `id`.
    pub fn update_check(&mut self, id: &str, state: &str, detail: Option<&str>)
        ensures
            final(self).check_rows() == spec_update_check(
                old(self).check_rows(),
                id@,
                state@,
                match detail {
                    Some(d) => Some(d@),
                    None => None,
                },
            ),
            final(self).lines() == old(self).lines(),
            final(self).unflushed() == old(self).unflushed(),
    {
        let ghost cs = checks_view(self.checks@);
        let n = self.checks.len();
        let key = String::from_str(id);
        let mut i: usize = 0;
        while i < n && !(self.checks[i].id == key)
            invariant
                0 <= i <= n,
                n == self.checks.len(),
                cs == checks_view(self.checks@),
                key@ == id@,
                find_check_from(cs, id@, 0) == find_check_from(cs, id@, i as int),
            decreases n - i,
        {
            i = i + 1;
        }
        if i < n {
            assert(find_check_from(cs, id@, i as int) == i);
            let c = ComponentCheck {
                id: self.checks[i].id.clone(),
                label: self.checks[i].label.clone(),
                state: String::from_str(state),
                detail: match detail {
                    Some(d) => String::from_str(d),
                    None => self.checks[i].detail.clone(),
                },
            };
            self.checks.set(i, c);
            assert(checks_view(self.checks@) =~= spec_update_check(
                cs,
                id@,
                state@,
                match detail {
                    Some(d) => Some(d@),
                    None => None,
                },
            ));
        }
    }

    /// A copy of the live checks.
    pub fn checks(&self) -> (r: Vec<ComponentCheck>)
        ensures
            checks_view(r@) == self.check_rows(),
    {
        let mut r: Vec<ComponentCheck> = Vec::new();
        let mut k: usize = 0;
        while k < self.checks.len()
            invariant
                0 <= k <= self.checks.len(),
                checks_view(r@) =~= checks_view(self.checks@).take(k as int),
            decreases self.checks.len() - k,
        {
            let ghost before = checks_view(r@);
            r.push(self.checks[k].clone());
            assert(checks_view(r@) =~= before.push(checks_view(self.checks@)[k as int]));
            k = k + 1;
        }
        assert(checks_view(self.checks@).take(self.checks.len() as int) =~= checks_view(
            self.checks@,
        ));
        r
    }
}

} // verus!
