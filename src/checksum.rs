//! Whether the installed downloader matches the published one: its SHA-256
//! digest in hex, and the entry for it in a published checksum list.
use vstd::prelude::*;
use crate::text::{is_white_space, white_space, chars_of, string_of, same_text, lower_of, lowercase};

verus! {

/// The SHA-256 digest of a byte sequence.
pub uninterp spec fn sha256_of(data: Seq<u8>) -> Seq<u8>;

/// Relies on `sha2::Sha256::digest` (`digest::Digest::digest`): the digest of
/// the bytes, 32 bytes long.
#[verifier::external_body]
fn sha256_digest(data: &[u8]) -> (r: Vec<u8>)
    ensures
        r@ == sha256_of(data@),
        r@.len() == 32,
{
    <sha2::Sha256 as sha2::Digest>::digest(data).to_vec()
}

pub open spec fn hex_digit(d: u8) -> char {
    seq!['0', '1', '2', '3', '4', '5', '6', '7', '8', '9', 'a', 'b', 'c', 'd', 'e', 'f'][d as int]
}

/// Lower-case hex text: two digits per byte, high half first.
pub open spec fn hex_of(b: Seq<u8>) -> Seq<char>
    decreases b.len(),
{
    if b.len() == 0 {
        Seq::empty()
    } else {
        hex_of(b.drop_last()) + seq![hex_digit(b.last() / 16), hex_digit(b.last() % 16)]
    }
}

/// Relies on `hex::encode`: each byte becomes two lower-case hex digits,
/// high half first.
#[verifier::external_body]
fn hex_encode(b: &[u8]) -> (r: String)
    ensures
        r@ == hex_of(b@),
{
    hex::encode(b)
}

/// The hex SHA-256 digest of a file's contents.
pub fn digest_hex(data: &[u8]) -> (r: String)
    ensures
        r@ == hex_of(sha256_of(data@)),
        r@.len() == 64,
{
    let d = sha256_digest(data);
    proof {
        lemma_hex_len(d@);
    }
    hex_encode(d.as_slice())
}

proof fn lemma_hex_len(b: Seq<u8>)
    ensures
        hex_of(b).len() == 2 * b.len(),
    decreases b.len(),
{
    if b.len() > 0 {
        lemma_hex_len(b.drop_last());
    }
}

/// The installed copy differs from the published one: the digests differ
/// once both are in lower case.
pub fn digests_differ(local: &str, remote: &str) -> (r: bool)
    ensures
        r == (lower_of(local@) != lower_of(remote@)),
{
    let a = lowercase(local);
    let b = lowercase(remote);
    !same_text(a.as_str(), b.as_str())
}

/// Splitting state: pieces done, and the piece still open.
pub type SplitState = (Seq<Seq<char>>, Seq<char>);

pub open spec fn close_piece(st: SplitState) -> Seq<Seq<char>> {
    if st.1.len() > 0 {
        st.0.push(st.1)
    } else {
        st.0
    }
}

pub open spec fn word_fold(s: Seq<char>) -> SplitState
    decreases s.len(),
{
    if s.len() == 0 {
        (Seq::empty(), Seq::empty())
    } else {
        let st = word_fold(s.drop_last());
        if is_white_space(s.last()) {
            (close_piece(st), Seq::empty())
        } else {
            (st.0, st.1.push(s.last()))
        }
    }
}

/// The maximal runs of characters that are not white space.
pub open spec fn words(s: Seq<char>) -> Seq<Seq<char>> {
    close_piece(word_fold(s))
}

pub open spec fn line_fold(s: Seq<char>) -> SplitState
    decreases s.len(),
{
    if s.len() == 0 {
        (Seq::empty(), Seq::empty())
    } else {
        let st = line_fold(s.drop_last());
        if s.last() == '\n' {
            (st.0.push(st.1), Seq::empty())
        } else {
            (st.0, st.1.push(s.last()))
        }
    }
}

/// The lines of a text; a trailing newline ends the last line.
pub open spec fn text_lines(s: Seq<char>) -> Seq<Seq<char>> {
    close_piece(line_fold(s))
}

/// The digest listed for `target`: the first word of the first line whose
/// second word is `target`.
pub open spec fn listed_digest(ls: Seq<Seq<char>>, target: Seq<char>) -> Option<Seq<char>>
    decreases ls.len(),
{
    if ls.len() == 0 {
        None
    } else {
        let w = words(ls[0]);
        if w.len() >= 2 && w[1] == target {
            Some(w[0])
        } else {
            listed_digest(ls.drop_first(), target)
        }
    }
}

pub open spec fn pieces_view(v: Seq<Vec<char>>) -> Seq<Seq<char>> {
    v.map_values(|p: Vec<char>| p@)
}

fn close_piece_exec(done: &mut Vec<Vec<char>>, cur: Vec<char>)
    ensures
        pieces_view(final(done)@) == close_piece((pieces_view(old(done)@), cur@)),
{
    if cur.len() > 0 {
        let ghost before = done@;
        done.push(cur);
        assert(pieces_view(done@) =~= pieces_view(before).push(cur@));
    }
}

fn split_words(s: &Vec<char>) -> (r: Vec<Vec<char>>)
    ensures
        pieces_view(r@) == words(s@),
{
    let mut done: Vec<Vec<char>> = Vec::new();
    let mut cur: Vec<char> = Vec::new();
    let mut i: usize = 0;
    while i < s.len()
        invariant
            i <= s.len(),
            (pieces_view(done@), cur@) == word_fold(s@.take(i as int)),
        decreases s.len() - i,
    {
        assert(s@.take(i as int + 1).drop_last() =~= s@.take(i as int));
        if white_space(s[i]) {
            let mut piece: Vec<char> = Vec::new();
            std::mem::swap(&mut piece, &mut cur);
            close_piece_exec(&mut done, piece);
        } else {
            cur.push(s[i]);
        }
        i = i + 1;
    }
    assert(s@.take(s.len() as int) =~= s@);
    close_piece_exec(&mut done, cur);
    done
}

fn split_lines(s: &Vec<char>) -> (r: Vec<Vec<char>>)
    ensures
        pieces_view(r@) == text_lines(s@),
{
    let mut done: Vec<Vec<char>> = Vec::new();
    let mut cur: Vec<char> = Vec::new();
    let mut i: usize = 0;
    while i < s.len()
        invariant
            i <= s.len(),
            (pieces_view(done@), cur@) == line_fold(s@.take(i as int)),
        decreases s.len() - i,
    {
        assert(s@.take(i as int + 1).drop_last() =~= s@.take(i as int));
        if s[i] == '\n' {
            let mut piece: Vec<char> = Vec::new();
            std::mem::swap(&mut piece, &mut cur);
            let ghost before = done@;
            done.push(piece);
            assert(pieces_view(done@) =~= pieces_view(before).push(piece@));
        } else {
            cur.push(s[i]);
        }
        i = i + 1;
    }
    assert(s@.take(s.len() as int) =~= s@);
    close_piece_exec(&mut done, cur);
    done
}

fn same_chars(a: &Vec<char>, b: &Vec<char>) -> (r: bool)
    ensures
        r == (a@ == b@),
{
    if a.len() != b.len() {
        return false;
    }
    let mut k: usize = 0;
    while k < a.len()
        invariant
            a.len() == b.len(),
            k <= a.len(),
            forall|m: int| 0 <= m < k ==> a@[m] == b@[m],
        decreases a.len() - k,
    {
        if a[k] != b[k] {
            assert(a@[k as int] != b@[k as int]);
            return false;
        }
        k = k + 1;
    }
    assert(a@ =~= b@);
    true
}

/// Finds the digest published for `target` in a checksum list of lines
/// `<digest> <file name>`.
pub fn find_listed_digest(listing: &str, target: &str) -> (r: Option<String>)
    ensures
        match r {
            Some(d) => listed_digest(text_lines(listing@), target@) == Some(d@),
            None => listed_digest(text_lines(listing@), target@).is_none(),
        },
{
    let cs = chars_of(listing);
    let t = chars_of(target);
    let ls = split_lines(&cs);
    let ghost all = pieces_view(ls@);
    assert(all.subrange(0, all.len() as int) =~= all);
    let mut i: usize = 0;
    while i < ls.len()
        invariant
            i <= ls.len(),
            all == pieces_view(ls@),
            all == text_lines(listing@),
            t@ == target@,
            listed_digest(all, target@) == listed_digest(all.subrange(i as int, all.len() as int), target@),
        decreases ls.len() - i,
    {
        let w = split_words(&ls[i]);
        let ghost rest = all.subrange(i as int, all.len() as int);
        assert(rest[0] == ls@[i as int]@);
        assert(rest.drop_first() =~= all.subrange(i as int + 1, all.len() as int));
        if w.len() >= 2 && same_chars(&w[1], &t) {
            assert(pieces_view(w@)[0] == w@[0]@);
            assert(pieces_view(w@)[1] == w@[1]@);
            return Some(string_of(&w[0]));
        }
        i = i + 1;
    }
    None
}

/// Whether the installed downloader counts as ready: it is there, and the
/// update check did not find a newer one (a failed check counts as ready).
pub fn engine_ready(installed: bool, update_available: Option<bool>) -> (r: bool)
    ensures
        r == (installed && update_available != Some(true)),
{
    if installed {
        match update_available {
            Some(u) => !u,
            None => true,
        }
    } else {
        false
    }
}

/// Whether the downloader is to be fetched: it is missing, or the update
/// check found a newer one (a failed check keeps the installed one).
pub fn engine_needs_download(installed: bool, update_available: Option<bool>) -> (r: bool)
    ensures
        r == (!installed || update_available == Some(true)),
{
    if !installed {
        true
    } else {
        match update_available {
            Some(u) => u,
            None => false,
        }
    }
}

} // verus!
