//! Label and temporary allocation, and the text-level emit helpers that all
//! code generation writes through.
use vstd::prelude::*;
use crate::text::{int_text, push_i64};

verus! {

/// The per-compile allocator of label and temporary numbers. Both counters
/// start at 1; 0 stands for an absent label. The counters advance with
/// wrap-around, as plain machine increments would.
pub struct NameGen {
    pub labels: i64,
    pub temps: i32,
}

impl NameGen {
    /// The allocator's discipline: both counters stay at 1 or above, so a
    /// handed-out number is never 0, the fall-through sentinel of jump
    /// code.
    pub open spec fn wf(&self) -> bool {
        1 <= self.labels && 1 <= self.temps
    }

    /// A fresh allocator with both counters at their starting value.
    pub fn new() -> (r: NameGen)
        ensures
            r.labels == 1,
            r.temps == 1,
            r.wf(),
    {
        NameGen { labels: 1, temps: 1 }
    }
}

/// The allocator after one label has been handed out.
pub open spec fn bump_label(g: NameGen) -> NameGen {
    NameGen { labels: vstd::wrapping::i64_specs::wrapping_add(g.labels, 1), temps: g.temps }
}

/// The allocator after one temporary has been handed out.
pub open spec fn bump_temp(g: NameGen) -> NameGen {
    NameGen { labels: g.labels, temps: vstd::wrapping::i32_specs::wrapping_add(g.temps, 1) }
}

/// Hands out the next label number and advances the counter; numbering is
/// gap-free and monotonic while the counter is below its machine limit.
pub fn new_label(g: &mut NameGen) -> (r: i64)
    ensures
        r == old(g).labels,
        *final(g) == bump_label(*old(g)),
        old(g).labels < i64::MAX ==> final(g).labels == old(g).labels + 1,
        old(g).labels >= 1 ==> r >= 1,
        old(g).wf() && old(g).labels < i64::MAX ==> final(g).wf(),
{
    let r = g.labels;
    g.labels = g.labels.wrapping_add(1);
    r
}

/// Hands out the next temporary number and advances the counter.
pub fn new_temp(g: &mut NameGen) -> (r: i32)
    ensures
        r == old(g).temps,
        *final(g) == bump_temp(*old(g)),
        old(g).temps < i32::MAX ==> final(g).temps == old(g).temps + 1,
        old(g).temps >= 1 ==> r >= 1,
{
    let r = g.temps;
    g.temps = g.temps.wrapping_add(1);
    r
}

/// Puts the label counter back to its starting value, as tests do before
/// each compile.
pub fn reset_labels(g: &mut NameGen)
    ensures
        final(g).labels == 1,
        final(g).temps == old(g).temps,
{
    g.labels = 1;
}

/// One instruction line: a tab, the text, a newline.
pub open spec fn emit_text(t: Seq<char>) -> Seq<char> {
    seq!['\t'] + t + seq!['\n']
}

/// One label placement: `L<k>:` with no newline.
pub open spec fn label_text(k: i64) -> Seq<char> {
    seq!['L'] + int_text(k as int) + seq![':']
}

/// The line `goto L<k>`.
pub open spec fn goto_line(k: i64) -> Seq<char> {
    emit_text("goto L"@ + int_text(k as int))
}

/// The line `if <test> goto L<k>`.
pub open spec fn if_line(test: Seq<char>, k: i64) -> Seq<char> {
    emit_text("if "@ + test + " goto L"@ + int_text(k as int))
}

/// The line `iffalse <test> goto L<k>`.
pub open spec fn iffalse_line(test: Seq<char>, k: i64) -> Seq<char> {
    emit_text("iffalse "@ + test + " goto L"@ + int_text(k as int))
}

/// What branching on `test` with true label `to` and false label `from`
/// emits; 0 means fall through on that side.
pub open spec fn jumps_text(test: Seq<char>, to: i64, from: i64) -> Seq<char> {
    if to != 0 && from != 0 {
        if_line(test, to) + goto_line(from)
    } else if to != 0 {
        if_line(test, to)
    } else if from != 0 {
        iffalse_line(test, from)
    } else {
        Seq::empty()
    }
}

/// Appends one instruction line holding `st`.
pub fn emit(s: &mut String, st: &str)
    ensures
        final(s)@ == old(s)@ + emit_text(st@),
{
    s.append("\t");
    s.append(st);
    s.append("\n");
    proof {
        assert("\t"@ =~= seq!['\t']) by {
            reveal_strlit("\t");
        }
        assert("\n"@ =~= seq!['\n']) by {
            reveal_strlit("\n");
        }
        assert(final(s)@ =~= old(s)@ + emit_text(st@));
    }
}

/// Appends the label placement `L<k>:`.
pub fn emit_label(s: &mut String, k: i64)
    ensures
        final(s)@ == old(s)@ + label_text(k),
{
    s.append("L");
    push_i64(s, k);
    s.append(":");
    proof {
        assert("L"@ =~= seq!['L']) by {
            reveal_strlit("L");
        }
        assert(":"@ =~= seq![':']) by {
            reveal_strlit(":");
        }
        assert(final(s)@ =~= old(s)@ + label_text(k));
    }
}

/// Appends the line `goto L<k>`.
pub fn emit_goto(s: &mut String, k: i64)
    ensures
        final(s)@ == old(s)@ + goto_line(k),
{
    let mut t = "goto L".to_owned();
    push_i64(&mut t, k);
    emit(s, t.as_str());
    proof {
        assert(final(s)@ =~= old(s)@ + goto_line(k));
    }
}

/// Appends branching code on `test` toward the labels `to` and `from`, as
/// `jumps_text` states it.
pub fn emit_jumps(s: &mut String, test: &str, to: i64, from: i64)
    ensures
        final(s)@ == old(s)@ + jumps_text(test@, to, from),
{
    if to != 0 && from != 0 {
        let mut t = "if ".to_owned();
        t.append(test);
        t.append(" goto L");
        push_i64(&mut t, to);
        emit(s, t.as_str());
        emit_goto(s, from);
        proof {
            assert(final(s)@ =~= old(s)@ + jumps_text(test@, to, from));
        }
    } else if to != 0 {
        let mut t = "if ".to_owned();
        t.append(test);
        t.append(" goto L");
        push_i64(&mut t, to);
        emit(s, t.as_str());
        proof {
            assert(final(s)@ =~= old(s)@ + jumps_text(test@, to, from));
        }
    } else if from != 0 {
        let mut t = "iffalse ".to_owned();
        t.append(test);
        t.append(" goto L");
        push_i64(&mut t, from);
        emit(s, t.as_str());
        proof {
            assert(final(s)@ =~= old(s)@ + jumps_text(test@, to, from));
        }
    } else {
        proof {
            assert(final(s)@ =~= old(s)@ + jumps_text(test@, to, from));
        }
    }
}

} // verus!
