//! Line framing of one output pipe: bytes are split at `\n`, a trailing `\r`
//! is dropped, and each line is decoded with lossy replacement.
use vstd::prelude::*;

verus! {

pub const NEWLINE: u8 = 10;

pub const CARRIAGE_RETURN: u8 = 13;

/// Completed lines so far, and the bytes of the line still open.
pub type FrameState = (Seq<Seq<u8>>, Seq<u8>);

pub open spec fn strip_cr(l: Seq<u8>) -> Seq<u8> {
    if l.len() > 0 && l.last() == CARRIAGE_RETURN {
        l.drop_last()
    } else {
        l
    }
}

pub open spec fn frame_step(st: FrameState, b: u8) -> FrameState {
    if b == NEWLINE {
        (st.0.push(strip_cr(st.1)), Seq::empty())
    } else {
        (st.0, st.1.push(b))
    }
}

/// The state reached from `st` after reading `bytes`.
pub open spec fn frame_from(st: FrameState, bytes: Seq<u8>) -> FrameState
    decreases bytes.len(),
{
    if bytes.len() == 0 {
        st
    } else {
        frame_step(frame_from(st, bytes.drop_last()), bytes.last())
    }
}

/// The lines of a whole stream: an unterminated last line still counts.
pub open spec fn frame_stream(bytes: Seq<u8>) -> Seq<Seq<u8>> {
    let st = frame_from((Seq::empty(), Seq::empty()), bytes);
    if st.1.len() > 0 {
        st.0.push(strip_cr(st.1))
    } else {
        st.0
    }
}

/// The line still open at the end of a stream, if it holds any byte.
pub open spec fn last_line(pending: Seq<u8>) -> Seq<Seq<u8>> {
    if pending.len() > 0 {
        seq![strip_cr(pending)]
    } else {
        Seq::empty()
    }
}

/// What `String::from_utf8_lossy` makes of a byte sequence.
pub uninterp spec fn lossy_of(b: Seq<u8>) -> Seq<char>;

pub open spec fn decode_all(ls: Seq<Seq<u8>>) -> Seq<Seq<char>> {
    ls.map_values(|l: Seq<u8>| lossy_of(l))
}

/// Relies on `String::from_utf8_lossy`: the text depends on the bytes alone,
/// and ASCII bytes (no bytes included) decode to the same characters.
#[verifier::external_body]
fn decode_lossy(b: &[u8]) -> (r: String)
    ensures
        r@ == lossy_of(b@),
        (forall|i: int| 0 <= i < b@.len() ==> b@[i] < 128) ==> r@ == b@.map_values(
            |x: u8| x as char,
        ),
{
    String::from_utf8_lossy(b).into_owned()
}

pub open spec fn lines_view(v: Seq<Vec<u8>>) -> Seq<Seq<u8>> {
    v.map_values(|l: Vec<u8>| l@)
}

pub open spec fn texts_view(v: Seq<String>) -> Seq<Seq<char>> {
    v.map_values(|l: String| l@)
}

/// Reading `a` then `b` reaches the same state as reading them joined.
pub proof fn lemma_frame_concat(st: FrameState, a: Seq<u8>, b: Seq<u8>)
    ensures
        frame_from(st, a + b) == frame_from(frame_from(st, a), b),
    decreases b.len(),
{
    if b.len() == 0 {
        assert(a + b =~= a);
    } else {
        lemma_frame_concat(st, a, b.drop_last());
        assert((a + b).drop_last() =~= a + b.drop_last());
        assert((a + b).last() == b.last());
    }
}

/// Lines already completed are never revised by later bytes.
pub proof fn lemma_frame_keeps_done(st: FrameState, bytes: Seq<u8>)
    ensures
        frame_from(st, bytes).0 == st.0 + frame_from((Seq::empty(), st.1), bytes).0,
        frame_from(st, bytes).1 == frame_from((Seq::empty(), st.1), bytes).1,
    decreases bytes.len(),
{
    if bytes.len() == 0 {
        assert(st.0 + Seq::<Seq<u8>>::empty() =~= st.0);
    } else {
        lemma_frame_keeps_done(st, bytes.drop_last());
        let p = frame_from((Seq::empty(), st.1), bytes.drop_last());
        assert((st.0 + p.0).push(strip_cr(p.1)) =~= st.0 + p.0.push(strip_cr(p.1)));
    }
}

/// A stream may reach the reader in chunks split anywhere: feeding them one
/// after another and closing gives the lines of the whole stream.
pub proof fn lemma_chunks_frame_like_stream(a: Seq<u8>, b: Seq<u8>)
    ensures
        ({
            let s1 = frame_from((Seq::empty(), Seq::empty()), a);
            let s2 = frame_from((Seq::empty(), s1.1), b);
            let tail = if s2.1.len() > 0 { seq![strip_cr(s2.1)] } else { Seq::empty() };
            s1.0 + s2.0 + tail == frame_stream(a + b)
        }),
{
    let e: FrameState = (Seq::empty(), Seq::empty());
    lemma_frame_concat(e, a, b);
    let s1 = frame_from(e, a);
    lemma_frame_keeps_done(s1, b);
    let s2 = frame_from((Seq::empty(), s1.1), b);
    let whole = frame_from(e, a + b);
    assert(whole.0 == s1.0 + s2.0);
    if s2.1.len() > 0 {
        assert(s1.0 + s2.0 + seq![strip_cr(s2.1)] =~= (s1.0 + s2.0).push(strip_cr(s2.1)));
    } else {
        assert(s1.0 + s2.0 + Seq::<Seq<u8>>::empty() =~= s1.0 + s2.0);
    }
}

/// Reads one pipe of one process. A reader serves a single traversal of its
/// stream; a new process gets a new reader.
pub struct LineReader {
    pending: Vec<u8>,
}

impl View for LineReader {
    type V = Seq<u8>;

    closed spec fn view(&self) -> Seq<u8> {
        self.pending@
    }
}

fn strip_cr_exec(mut l: Vec<u8>) -> (r: Vec<u8>)
    ensures
        r@ == strip_cr(l@),
{
    if l.len() > 0 && l[l.len() - 1] == CARRIAGE_RETURN {
        l.pop();
    }
    l
}

fn decode_each(ls: Vec<Vec<u8>>) -> (r: Vec<String>)
    ensures
        texts_view(r@) == decode_all(lines_view(ls@)),
{
    let mut out: Vec<String> = Vec::new();
    let mut i: usize = 0;
    while i < ls.len()
        invariant
            i <= ls.len(),
            texts_view(out@) == decode_all(lines_view(ls@).take(i as int)),
        decreases ls.len() - i,
    {
        let t = decode_lossy(ls[i].as_slice());
        let ghost prev = out@;
        out.push(t);
        assert(texts_view(out@) =~= texts_view(prev).push(t@));
        assert(lines_view(ls@).take(i as int + 1) =~= lines_view(ls@).take(i as int).push(
            ls@[i as int]@,
        ));
        assert(decode_all(lines_view(ls@).take(i as int + 1)) =~= decode_all(
            lines_view(ls@).take(i as int),
        ).push(lossy_of(ls@[i as int]@)));
        i = i + 1;
    }
    assert(lines_view(ls@).take(ls.len() as int) =~= lines_view(ls@));
    out
}

impl LineReader {
    pub fn new() -> (r: LineReader)
        ensures
            r@ == Seq::<u8>::empty(),
    {
        LineReader { pending: Vec::new() }
    }

    /// Reads the next chunk of the stream and returns the lines it completes,
    /// in order; bytes after the last newline wait for the next chunk.
    pub fn feed(&mut self, chunk: &[u8]) -> (r: Vec<String>)
        ensures
            texts_view(r@) == decode_all(frame_from((Seq::empty(), old(self)@), chunk@).0),
            final(self)@ == frame_from((Seq::empty(), old(self)@), chunk@).1,
    {
        let ghost start: FrameState = (Seq::empty(), self@);
        let mut done: Vec<Vec<u8>> = Vec::new();
        let mut cur: Vec<u8> = Vec::new();
        std::mem::swap(&mut cur, &mut self.pending);
        let mut i: usize = 0;
        while i < chunk.len()
            invariant
                i <= chunk.len(),
                start.1 == old(self)@,
                start.0 == Seq::<Seq<u8>>::empty(),
                (lines_view(done@), cur@) == frame_from(start, chunk@.take(i as int)),
            decreases chunk.len() - i,
        {
            let b = chunk[i];
            assert(chunk@.take(i as int + 1).drop_last() =~= chunk@.take(i as int));
            if b == NEWLINE {
                let mut line: Vec<u8> = Vec::new();
                std::mem::swap(&mut line, &mut cur);
                let line = strip_cr_exec(line);
                let ghost prev = done@;
                done.push(line);
                assert(lines_view(done@) =~= lines_view(prev).push(line@));
            } else {
                cur.push(b);
            }
            i = i + 1;
        }
        assert(chunk@.take(chunk.len() as int) =~= chunk@);
        self.pending = cur;
        decode_each(done)
    }

    /// Closes the stream: the line still open, if it holds any byte, is the last line.
    pub fn finish(&mut self) -> (r: Option<String>)
        ensures
            final(self)@ == Seq::<u8>::empty(),
            old(self)@.len() == 0 ==> r.is_none(),
            old(self)@.len() > 0 ==> r.is_some() && r->0@ == lossy_of(strip_cr(old(self)@)),
    {
        let mut cur: Vec<u8> = Vec::new();
        std::mem::swap(&mut cur, &mut self.pending);
        if cur.len() == 0 {
            None
        } else {
            let line = strip_cr_exec(cur);
            Some(decode_lossy(line.as_slice()))
        }
    }
}

} // verus!
