use vstd::prelude::*;
use crate::marker::Centroid;
use crate::text::{decimal, push_decimal};

verus! {

/// The log line of frame `index` tracked at `c`: `<index>, <x>, <y>` and a newline.
pub open spec fn log_line(index: nat, c: Centroid) -> Seq<u8> {
    decimal(index) + seq![44u8, 32u8] + decimal(c.x as nat) + seq![44u8, 32u8] + decimal(
        c.y as nat,
    ) + seq![10u8]
}

/// The lines written for the positions `cs`, numbered from `start`.
pub open spec fn log_lines(start: nat, cs: Seq<Centroid>) -> Seq<Seq<u8>> {
    Seq::new(cs.len(), |k: int| log_line(start + k as nat, cs[k]))
}

/// The bytes of each line.
pub open spec fn lines_view(v: Seq<Vec<u8>>) -> Seq<Seq<u8>> {
    Seq::new(v.len(), |k: int| v[k]@)
}

/// Numbers the frames of a run and writes one log line per frame.
#[derive(Clone, Copy, Debug, PartialEq, Eq, Structural)]
pub struct CoordinateLog {
    /// The index the next line will carry.
    pub next_index: usize,
}

impl CoordinateLog {
    /// A log whose first line will carry index 0.
    pub fn new() -> (r: CoordinateLog)
        ensures
            r.next_index == 0,
    {
        CoordinateLog { next_index: 0 }
    }

    /// The line for the next frame, tracked at `c`; the index moves on by one.
    pub fn record(&mut self, c: Centroid) -> (r: Vec<u8>)
        requires
            old(self).next_index < usize::MAX,
        ensures
            r@ == log_line(old(self).next_index as nat, c),
            final(self).next_index == old(self).next_index + 1,
    {
        let mut line: Vec<u8> = Vec::new();
        push_decimal(&mut line, self.next_index);
        line.push(44u8);
        line.push(32u8);
        push_decimal(&mut line, c.x);
        line.push(44u8);
        line.push(32u8);
        push_decimal(&mut line, c.y);
        line.push(10u8);
        assert(line@ =~= log_line(self.next_index as nat, c));
        self.next_index = self.next_index + 1;
        line
    }

    /// The lines for the frames tracked at `cs`, in order.
    pub fn record_all(&mut self, cs: &Vec<Centroid>) -> (r: Vec<Vec<u8>>)
        requires
            old(self).next_index + cs@.len() <= usize::MAX,
        ensures
            lines_view(r@) == log_lines(old(self).next_index as nat, cs@),
            final(self).next_index == old(self).next_index + cs@.len(),
    {
        let ghost start = self.next_index as nat;
        let mut out: Vec<Vec<u8>> = Vec::new();
        let mut i: usize = 0;
        while i < cs.len()
            invariant
                i <= cs@.len(),
                self.next_index == start + i,
                out@.len() == i,
                start + cs@.len() <= usize::MAX,
                lines_view(out@) == log_lines(start, cs@.take(i as int)),
            decreases cs@.len() - i,
        {
            let line = self.record(cs[i]);
            let ghost prev = out@;
            out.push(line);
            assert forall|k: int| 0 <= k < i implies out@[k]@ == log_line(start + k as nat, cs@[k]) by {
                assert(out@[k] == prev[k]);
                assert(lines_view(prev)[k] == log_lines(start, cs@.take(i as int))[k]);
            }
            assert(lines_view(out@) =~= log_lines(start, cs@.take(i as int + 1)));
            i = i + 1;
        }
        assert(cs@.take(i as int) =~= cs@);
        out
    }
}

/// Decimal digits are never a newline.
pub proof fn lemma_decimal_no_newline(n: nat)
    ensures
        forall|k: int| 0 <= k < decimal(n).len() ==> 48 <= #[trigger] decimal(n)[k] <= 57,
    decreases n,
{
    if n >= 10 {
        lemma_decimal_no_newline(n / 10);
        assert(forall|k: int| 0 <= k < decimal(n / 10).len() ==> decimal(n)[k] == decimal(n / 10)[k]);
    }
}

/// One line per frame: a run over `cs` writes exactly `cs.len()` lines; line `k`
/// carries index `start + k`, so the indices strictly increase; each line ends
/// in its only newline; and a run split in two writes the same lines as the run
/// in one piece, so repeated calls neither repeat nor interleave lines.
pub proof fn lemma_log_lines(start: nat, cs: Seq<Centroid>, more: Seq<Centroid>)
    ensures
        log_lines(start, cs).len() == cs.len(),
        forall|k: int| 0 <= k < cs.len() ==> #[trigger] log_lines(start, cs)[k] == log_line(start + k as nat, cs[k]),
        forall|k: int|
            0 <= k < cs.len() ==> #[trigger] log_lines(start, cs)[k].take(
                decimal(start + k as nat).len() as int,
            ) == decimal(start + k as nat),
        forall|k: int| 0 <= k < cs.len() ==> #[trigger] log_lines(start, cs)[k].last() == 10u8,
        forall|k: int, i: int|
            0 <= k < cs.len() && 0 <= i < log_lines(start, cs)[k].len() - 1
                ==> #[trigger] log_lines(start, cs)[k][i] != 10u8,
        log_lines(start, cs + more) == log_lines(start, cs) + log_lines(start + cs.len(), more),
{
    assert forall|k: int| 0 <= k < cs.len() implies #[trigger] log_lines(start, cs)[k].take(
        decimal(start + k as nat).len() as int,
    ) == decimal(start + k as nat) by {
        let a = decimal(start + k as nat);
        assert(log_line(start + k as nat, cs[k]).take(a.len() as int) =~= a);
    }
    assert forall|k: int, i: int|
        0 <= k < cs.len() && 0 <= i < log_lines(start, cs)[k].len() - 1
            implies #[trigger] log_lines(start, cs)[k][i] != 10u8 by {
        let c = cs[k];
        let a = decimal(start + k as nat);
        let b = decimal(c.x as nat);
        let d = decimal(c.y as nat);
        lemma_decimal_no_newline(start + k as nat);
        lemma_decimal_no_newline(c.x as nat);
        lemma_decimal_no_newline(c.y as nat);
        let line = log_line(start + k as nat, c);
        assert(line == a + seq![44u8, 32u8] + b + seq![44u8, 32u8] + d + seq![10u8]);
        if i < a.len() {
            assert(line[i] == a[i]);
        } else if i < a.len() + 2 {
        } else if i < a.len() + 2 + b.len() {
            assert(line[i] == b[i - a.len() - 2]);
        } else if i < a.len() + 4 + b.len() {
        } else {
            assert(line[i] == d[i - a.len() - 4 - b.len()]);
        }
    }
    assert(log_lines(start, cs + more) =~= log_lines(start, cs) + log_lines(start + cs.len(), more));
}

} // verus!
