//! Character-level helpers shared by the framing, window and builder logic.
use vstd::prelude::*;

verus! {

/// Unicode `White_Space` property, as `char::is_whitespace` documents it.
pub open spec fn is_white_space(c: char) -> bool {
    let u = c as u32;
    (0x09 <= u <= 0x0d) || u == 0x20 || u == 0x85 || u == 0xa0 || u == 0x1680 || (0x2000 <= u
        <= 0x200a) || u == 0x2028 || u == 0x2029 || u == 0x202f || u == 0x205f || u == 0x3000
}

pub fn white_space(c: char) -> (r: bool)
    ensures
        r == is_white_space(c),
{
    let u = c as u32;
    (0x09 <= u && u <= 0x0d) || u == 0x20 || u == 0x85 || u == 0xa0 || u == 0x1680 || (0x2000 <= u
        && u <= 0x200a) || u == 0x2028 || u == 0x2029 || u == 0x202f || u == 0x205f || u == 0x3000
}

/// The characters of a string, in order.
pub fn chars_of(s: &str) -> (r: Vec<char>)
    ensures
        r@ == s@,
{
    let mut out: Vec<char> = Vec::new();
    for c in it: s.chars()
        invariant
            out.len() == it.index(),
            forall|i: int| 0 <= i < out.len() ==> out@[i] == it.seq()[i],
    {
        out.push(c);
    }
    assert(out@ =~= s@);
    out
}

/// Relies on `FromIterator<&char> for String`: the string holds exactly these
/// characters, in order.
#[verifier::external_body]
pub(crate) fn string_of(v: &Vec<char>) -> (r: String)
    ensures
        r@ == v@,
{
    String::from_iter(v.iter())
}

/// Concatenation of lines with a separator character between neighbours.
pub open spec fn join_with(lines: Seq<Seq<char>>, sep: char) -> Seq<char>
    decreases lines.len(),
{
    if lines.len() == 0 {
        Seq::empty()
    } else if lines.len() == 1 {
        lines[0]
    } else {
        join_with(lines.drop_last(), sep) + seq![sep] + lines.last()
    }
}

/// Appends the characters of `s` to `out`.
pub fn push_all(out: &mut Vec<char>, s: &str)
    ensures
        final(out)@ == old(out)@ + s@,
{
    let cs = chars_of(s);
    let mut i: usize = 0;
    while i < cs.len()
        invariant
            cs@ == s@,
            i <= cs.len(),
            out@ == old(out)@ + cs@.take(i as int),
        decreases cs.len() - i,
    {
        out.push(cs[i]);
        assert(cs@.take(i as int + 1) == cs@.take(i as int).push(cs@[i as int]));
        i = i + 1;
    }
    assert(cs@.take(cs.len() as int) == cs@);
}

pub fn join_lines(lines: &Vec<String>, sep: char) -> (r: String)
    ensures
        r@ == join_with(lines@.map_values(|l: String| l@), sep),
{
    let ghost views = lines@.map_values(|l: String| l@);
    let mut out: Vec<char> = Vec::new();
    let mut i: usize = 0;
    while i < lines.len()
        invariant
            views == lines@.map_values(|l: String| l@),
            i <= lines.len(),
            out@ == join_with(views.take(i as int), sep),
        decreases lines.len() - i,
    {
        assert(views.take(i as int + 1).drop_last() == views.take(i as int));
        if i > 0 {
            out.push(sep);
        }
        push_all(&mut out, lines[i].as_str());
        i = i + 1;
    }
    assert(views.take(lines.len() as int) == views);
    string_of(&out)
}

/// Decimal text of an integer: an optional minus sign and its digits, no leading zeros.
pub open spec fn digits_of(n: nat) -> Seq<char>
    decreases n,
{
    if n < 10 {
        seq![char_of_digit(n)]
    } else {
        digits_of(n / 10) + seq![char_of_digit(n % 10)]
    }
}

pub open spec fn char_of_digit(d: nat) -> char {
    if d == 0 { '0' } else if d == 1 { '1' } else if d == 2 { '2' } else if d == 3 { '3' }
    else if d == 4 { '4' } else if d == 5 { '5' } else if d == 6 { '6' } else if d == 7 { '7' }
    else if d == 8 { '8' } else { '9' }
}

pub open spec fn decimal_of(n: int) -> Seq<char> {
    if n < 0 { seq!['-'] + digits_of((-n) as nat) } else { digits_of(n as nat) }
}

fn digit_char(d: u64) -> (r: char)
    requires
        d < 10,
    ensures
        r == char_of_digit(d as nat),
{
    if d == 0 { '0' } else if d == 1 { '1' } else if d == 2 { '2' } else if d == 3 { '3' }
    else if d == 4 { '4' } else if d == 5 { '5' } else if d == 6 { '6' } else if d == 7 { '7' }
    else if d == 8 { '8' } else { '9' }
}

/// The decimal text of an integer.
pub fn decimal(n: i64) -> (r: String)
    ensures
        r@ == decimal_of(n as int),
{
    let negative = n < 0;
    let m0: u64 = if negative { (0i128 - n as i128) as u64 } else { n as u64 };
    assert(m0 as int == if n < 0 { -(n as int) } else { n as int });
    let mut m: u64 = m0;
    let mut acc: Vec<char> = Vec::new();
    while m >= 10
        invariant
            digits_of(m0 as nat) == digits_of(m as nat) + acc@,
        decreases m,
    {
        let c = digit_char(m % 10);
        let ghost before = acc@;
        acc.insert(0, c);
        assert(acc@ =~= seq![c] + before);
        assert(digits_of(m as nat) == digits_of((m / 10) as nat) + seq![c]);
        assert(digits_of(m0 as nat) =~= digits_of((m / 10) as nat) + acc@);
        m = m / 10;
    }
    let c = digit_char(m);
    acc.insert(0, c);
    let mut out: Vec<char> = Vec::new();
    if negative {
        out.push('-');
    }
    out.append(&mut acc);
    assert(out@ =~= decimal_of(n as int));
    string_of(&out)
}

} // verus!

verus! {

/// `needle` occurs in `hay` starting at index `i`.
pub open spec fn occurs_at(hay: Seq<char>, needle: Seq<char>, i: int) -> bool {
    0 <= i && i + needle.len() <= hay.len() && hay.subrange(i, i + needle.len()) == needle
}

pub open spec fn occurs_in(hay: Seq<char>, needle: Seq<char>) -> bool {
    exists|i: int| occurs_at(hay, needle, i)
}

/// First index at which `needle` occurs in `hay`.
pub fn find_chars(hay: &Vec<char>, needle: &Vec<char>) -> (r: Option<usize>)
    ensures
        r.is_none() == !occurs_in(hay@, needle@),
        r.is_some() ==> occurs_at(hay@, needle@, r->0 as int) && forall|j: int|
            0 <= j < r->0 ==> !occurs_at(hay@, needle@, j),
{
    if needle.len() == 0 {
        assert(hay@.subrange(0, 0) =~= needle@);
        assert(occurs_at(hay@, needle@, 0));
        return Some(0);
    }
    if needle.len() > hay.len() {
        return None;
    }
    let last = hay.len() - needle.len();
    let mut i: usize = 0;
    while i <= last
        invariant
            last == hay.len() - needle.len(),
            1 <= needle.len() <= hay.len(),
            i <= last + 1,
            forall|j: int| 0 <= j < i ==> !occurs_at(hay@, needle@, j),
        decreases last + 1 - i,
    {
        let mut k: usize = 0;
        let mut ok = true;
        while k < needle.len()
            invariant
                i <= last,
                last == hay.len() - needle.len(),
                1 <= needle.len() <= hay.len(),
                forall|j: int| 0 <= j < i ==> !occurs_at(hay@, needle@, j),
                k <= needle.len(),
                ok ==> forall|m: int| 0 <= m < k ==> hay@[i + m] == needle@[m],
                !ok ==> !occurs_at(hay@, needle@, i as int),
            decreases needle.len() - k,
        {
            if hay[i + k] != needle[k] {
                ok = false;
                assert(hay@.subrange(i as int, i + needle.len())[k as int] != needle@[k as int]);
            }
            k = k + 1;
        }
        if ok {
            assert(hay@.subrange(i as int, i + needle.len()) =~= needle@);
            assert(occurs_at(hay@, needle@, i as int));
            return Some(i);
        }
        i = i + 1;
    }
    proof {
        assert forall|j: int| !occurs_at(hay@, needle@, j) by {
            if 0 <= j && j + needle.len() <= hay.len() {
                assert(j < i);
            }
        }
    }
    None
}

pub fn contains_str(hay: &str, needle: &str) -> (r: bool)
    ensures
        r == occurs_in(hay@, needle@),
{
    let h = chars_of(hay);
    let n = chars_of(needle);
    find_chars(&h, &n).is_some()
}

pub open spec fn has_suffix(s: Seq<char>, suffix: Seq<char>) -> bool {
    suffix.len() <= s.len() && s.subrange(s.len() - suffix.len(), s.len() as int) == suffix
}

pub open spec fn has_prefix(s: Seq<char>, prefix: Seq<char>) -> bool {
    prefix.len() <= s.len() && s.subrange(0, prefix.len() as int) == prefix
}

pub fn ends_with_str(s: &str, suffix: &str) -> (r: bool)
    ensures
        r == has_suffix(s@, suffix@),
{
    let a = chars_of(s);
    let b = chars_of(suffix);
    if b.len() > a.len() {
        return false;
    }
    let off = a.len() - b.len();
    let mut k: usize = 0;
    while k < b.len()
        invariant
            off == a.len() - b.len(),
            a@ == s@,
            b@ == suffix@,
            k <= b.len(),
            forall|m: int| 0 <= m < k ==> a@[off + m] == b@[m],
        decreases b.len() - k,
    {
        if a[off + k] != b[k] {
            assert(a@.subrange(off as int, a.len() as int)[k as int] != b@[k as int]);
            assert(a@.subrange(off as int, a.len() as int) != b@);
            return false;
        }
        k = k + 1;
    }
    assert(a@.subrange(off as int, a.len() as int) =~= b@);
    true
}

/// Equality of two strings, character by character.
pub fn same_text(a: &str, b: &str) -> (r: bool)
    ensures
        r == (a@ == b@),
{
    let x = chars_of(a);
    let y = chars_of(b);
    if x.len() != y.len() {
        return false;
    }
    let mut k: usize = 0;
    while k < x.len()
        invariant
            x.len() == y.len(),
            x@ == a@,
            y@ == b@,
            k <= x.len(),
            forall|m: int| 0 <= m < k ==> x@[m] == y@[m],
        decreases x.len() - k,
    {
        if x[k] != y[k] {
            assert(x@[k as int] != y@[k as int]);
            return false;
        }
        k = k + 1;
    }
    assert(x@ =~= y@);
    true
}

/// `s` without leading and trailing white space.
pub open spec fn trim_start(s: Seq<char>) -> Seq<char>
    decreases s.len(),
{
    if s.len() > 0 && is_white_space(s[0]) {
        trim_start(s.drop_first())
    } else {
        s
    }
}

pub open spec fn trim_end(s: Seq<char>) -> Seq<char>
    decreases s.len(),
{
    if s.len() > 0 && is_white_space(s.last()) {
        trim_end(s.drop_last())
    } else {
        s
    }
}

pub open spec fn trim(s: Seq<char>) -> Seq<char> {
    trim_end(trim_start(s))
}

pub fn trim_chars(s: &Vec<char>) -> (r: Vec<char>)
    ensures
        r@ == trim(s@),
{
    let n = s.len();
    let mut i: usize = 0;
    assert(s@.subrange(0, n as int) =~= s@);
    while i < n && white_space(s[i])
        invariant
            n == s.len(),
            i <= n,
            trim_start(s@) == trim_start(s@.subrange(i as int, n as int)),
        decreases n - i,
    {
        assert(s@.subrange(i as int + 1, n as int) =~= s@.subrange(i as int, n as int).drop_first());
        i = i + 1;
    }
    let mut j: usize = n;
    let ghost t = s@.subrange(i as int, n as int);
    assert(trim_start(s@) == t);
    while j > i && white_space(s[j - 1])
        invariant
            i <= j <= n,
            n == s.len(),
            t == s@.subrange(i as int, n as int),
            trim_end(t) == trim_end(s@.subrange(i as int, j as int)),
        decreases j,
    {
        assert(s@.subrange(i as int, j as int - 1) =~= s@.subrange(i as int, j as int).drop_last());
        j = j - 1;
    }
    let mut out: Vec<char> = Vec::new();
    let mut k: usize = i;
    while k < j
        invariant
            i <= k <= j,
            j <= n,
            n == s.len(),
            out@ == s@.subrange(i as int, k as int),
        decreases j - k,
    {
        out.push(s[k]);
        assert(out@ =~= s@.subrange(i as int, k as int + 1));
        k = k + 1;
    }
    out
}

/// What `str::to_lowercase` makes of a string.
pub uninterp spec fn lower_of(s: Seq<char>) -> Seq<char>;

/// Relies on `str::to_lowercase`: the result depends on the characters alone.
#[verifier::external_body]
pub(crate) fn lowercase(s: &str) -> (r: String)
    ensures
        r@ == lower_of(s@),
        s@.len() == 0 ==> r@.len() == 0,
{
    s.to_lowercase()
}

/// Whether `char::is_numeric` holds of a character.
pub uninterp spec fn is_numeric_char(c: char) -> bool;

/// Relies on `char::is_numeric`: a property of the character alone; among
/// ASCII characters exactly the digits `0` to `9` have it.
#[verifier::external_body]
pub(crate) fn numeric(c: char) -> (r: bool)
    ensures
        r == is_numeric_char(c),
        (c as u32) < 128 ==> (r <==> '0' <= c <= '9'),
{
    c.is_numeric()
}

pub open spec fn all_numeric(s: Seq<char>) -> bool {
    forall|i: int| 0 <= i < s.len() ==> is_numeric_char(#[trigger] s[i])
}

pub fn chars_all_numeric(s: &Vec<char>) -> (r: bool)
    ensures
        r == all_numeric(s@),
{
    let mut i: usize = 0;
    while i < s.len()
        invariant
            i <= s.len(),
            forall|j: int| 0 <= j < i ==> is_numeric_char(#[trigger] s@[j]),
        decreases s.len() - i,
    {
        if !numeric(s[i]) {
            return false;
        }
        i = i + 1;
    }
    true
}

} // verus!
