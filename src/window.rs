//! The bounded window of the most recent non-blank diagnostic lines of one job.
use vstd::prelude::*;
use crate::text::{trim, trim_chars, chars_of, string_of, join_with, join_lines};

verus! {

/// How many diagnostic lines a window keeps.
pub const WINDOW_CAPACITY: usize = 10;

/// The window after offering one line: a line that trims to nothing is
/// ignored; otherwise the trimmed line is appended and, past the capacity, the
/// oldest line is dropped.
pub open spec fn window_push(w: Seq<Seq<char>>, line: Seq<char>) -> Seq<Seq<char>> {
    let t = trim(line);
    if t.len() == 0 {
        w
    } else if w.len() + 1 > WINDOW_CAPACITY {
        w.push(t).drop_first()
    } else {
        w.push(t)
    }
}

/// The window after offering each of `lines` in order, starting from `w`.
pub open spec fn window_push_all(w: Seq<Seq<char>>, lines: Seq<Seq<char>>) -> Seq<Seq<char>>
    decreases lines.len(),
{
    if lines.len() == 0 {
        w
    } else {
        window_push(window_push_all(w, lines.drop_last()), lines.last())
    }
}

pub struct ErrorWindow {
    lines: Vec<String>,
}

impl View for ErrorWindow {
    type V = Seq<Seq<char>>;

    closed spec fn view(&self) -> Seq<Seq<char>> {
        self.lines@.map_values(|l: String| l@)
    }
}

impl ErrorWindow {
    /// At most `WINDOW_CAPACITY` lines, none of them empty.
    pub open spec fn wf(&self) -> bool {
        &&& self@.len() <= WINDOW_CAPACITY
        &&& forall|i: int| 0 <= i < self@.len() ==> #[trigger] self@[i].len() > 0
    }

    pub fn new() -> (r: ErrorWindow)
        ensures
            r.wf(),
            r@ == Seq::<Seq<char>>::empty(),
    {
        ErrorWindow { lines: Vec::new() }
    }

    pub fn len(&self) -> (r: usize)
        ensures
            r == self@.len(),
    {
        self.lines.len()
    }

    pub fn is_empty(&self) -> (r: bool)
        ensures
            r == (self@.len() == 0),
    {
        self.lines.len() == 0
    }

    /// Offers one diagnostic line to the window.
    pub fn push(&mut self, line: String)
        requires
            old(self).wf(),
        ensures
            final(self).wf(),
            final(self)@ == window_push(old(self)@, line@),
    {
        let t = trim_chars(&chars_of(line.as_str()));
        if t.len() == 0 {
            return;
        }
        let trimmed = string_of(&t);
        let ghost before = self@;
        self.lines.push(trimmed);
        assert(self@ =~= before.push(t@));
        if self.lines.len() > WINDOW_CAPACITY {
            self.lines.remove(0);
            assert(self@ =~= before.push(t@).drop_first());
        }
    }

    /// The lines held, oldest first.
    pub fn snapshot(&self) -> (r: Vec<String>)
        ensures
            r@.map_values(|l: String| l@) == self@,
    {
        let mut out: Vec<String> = Vec::new();
        let mut i: usize = 0;
        while i < self.lines.len()
            invariant
                i <= self.lines.len(),
                out@.map_values(|l: String| l@) == self@.take(i as int),
            decreases self.lines.len() - i,
        {
            let ghost prev = out@;
            let item = self.lines[i].clone();
            assert(item@ == self@[i as int]);
            out.push(item);
            assert(out@ == prev.push(item));
            assert(out@.map_values(|l: String| l@) =~= prev.map_values(|l: String| l@).push(item@));
            assert(out@.map_values(|l: String| l@) =~= self@.take(i as int + 1));
            i = i + 1;
        }
        assert(self@.take(self.lines.len() as int) == self@);
        out
    }

    /// The lines held, oldest first, separated by newlines.
    pub fn joined(&self) -> (r: String)
        ensures
            r@ == join_with(self@, '\n'),
    {
        join_lines(&self.lines, '\n')
    }
}

/// A window never holds more than its capacity, and after a run of lines
/// that do not trim to nothing it holds exactly the last `WINDOW_CAPACITY` of
/// them (all of them when there are fewer), trimmed, oldest first.
pub proof fn lemma_window_keeps_last(lines: Seq<Seq<char>>)
    requires
        forall|i: int| 0 <= i < lines.len() ==> #[trigger] trim(lines[i]).len() > 0,
    ensures
        window_push_all(Seq::empty(), lines).len() <= WINDOW_CAPACITY,
        window_push_all(Seq::empty(), lines) == lines.map_values(|l: Seq<char>| trim(l)).subrange(
            if lines.len() > WINDOW_CAPACITY { lines.len() - WINDOW_CAPACITY } else { 0 },
            lines.len() as int,
        ),
    decreases lines.len(),
{
    let ts = lines.map_values(|l: Seq<char>| trim(l));
    if lines.len() > 0 {
        let prev = lines.drop_last();
        assert forall|i: int| 0 <= i < prev.len() implies #[trigger] trim(prev[i]).len() > 0 by {
            assert(prev[i] == lines[i]);
        }
        lemma_window_keeps_last(prev);
        let pts = prev.map_values(|l: Seq<char>| trim(l));
        let n = lines.len() as int;
        assert(trim(lines[n - 1]).len() > 0);
        assert(pts =~= ts.drop_last());
        let start = if n > WINDOW_CAPACITY { n - WINDOW_CAPACITY } else { 0 };
        let pstart = if n - 1 > WINDOW_CAPACITY { n - 1 - WINDOW_CAPACITY } else { 0 };
        assert(pts.subrange(pstart, n - 1) == ts.subrange(pstart, n - 1));
        assert(ts[n - 1] == trim(lines.last()));
        if n - 1 >= WINDOW_CAPACITY {
            assert(ts.subrange(pstart, n - 1).push(ts[n - 1]).drop_first() =~= ts.subrange(start, n));
        } else {
            assert(ts.subrange(pstart, n - 1).push(ts[n - 1]) =~= ts.subrange(start, n));
        }
    } else {
        assert(ts.subrange(0, 0) =~= Seq::<Seq<char>>::empty());
    }
}

} // verus!
