//! The session cookies taken from a browser login, and the cookie jar file
//! the downloader reads.
use vstd::prelude::*;
use crate::text::{chars_of, string_of, push_all, occurs_in, contains_str, same_text, decimal, decimal_of};

verus! {

/// A cookie as the browser reports it; the expiry is in whole seconds.
pub struct BrowserCookie {
    pub name: String,
    pub value: String,
    pub domain: String,
    pub path: String,
    pub secure: bool,
    pub expires: i64,
}

pub open spec fn is_session_cookie(c: BrowserCookie) -> bool {
    c.name@ == "__Secure-3PSID"@ && (occurs_in(c.domain@, "youtube.com"@) || occurs_in(
        c.domain@,
        ".youtube.com"@,
    ))
}

/// Whether the login has produced the session cookie of the video site.
pub fn has_session_cookie(cookies: &Vec<BrowserCookie>) -> (r: bool)
    ensures
        r == has_session(cookies@),
{
    let mut i: usize = 0;
    while i < cookies.len()
        invariant
            i <= cookies.len(),
            forall|j: int| 0 <= j < i ==> !is_session_cookie(#[trigger] cookies@[j]),
        decreases cookies.len() - i,
    {
        let c = &cookies[i];
        if same_text(c.name.as_str(), "__Secure-3PSID") && (contains_str(c.domain.as_str(), "youtube.com")
            || contains_str(c.domain.as_str(), ".youtube.com")) {
            assert(is_session_cookie(cookies@[i as int]));
            return true;
        }
        i = i + 1;
    }
    false
}

/// How long the login window is watched for the session cookie, in milliseconds.
pub const LOGIN_TIMEOUT_MS: u64 = 300_000;

/// What the login watcher does after one look at the browser.
#[derive(Clone, Copy, Debug, PartialEq, Eq)]
pub enum LoginStep {
    /// The time allowed is over.
    TimedOut,
    /// The browser no longer answers: it was closed.
    BrowserClosed,
    /// The session cookie is there.
    LoggedIn,
    /// Look again after a pause.
    Wait,
}

pub open spec fn has_session(cs: Seq<BrowserCookie>) -> bool {
    exists|i: int| 0 <= i < cs.len() && is_session_cookie(#[trigger] cs[i])
}

pub open spec fn login_step_of(elapsed_ms: u64, cookies: Option<Seq<BrowserCookie>>) -> LoginStep {
    if elapsed_ms > LOGIN_TIMEOUT_MS {
        LoginStep::TimedOut
    } else {
        match cookies {
            None => LoginStep::BrowserClosed,
            Some(cs) => if has_session(cs) {
                LoginStep::LoggedIn
            } else {
                LoginStep::Wait
            },
        }
    }
}

pub open spec fn cookies_view(o: Option<Vec<BrowserCookie>>) -> Option<Seq<BrowserCookie>> {
    match o {
        Some(v) => Some(v@),
        None => None,
    }
}

/// Decides the next step of watching a login, from the milliseconds since it
/// started and the browser's cookies (`None` when they could not be read).
pub fn login_step(elapsed_ms: u64, cookies: &Option<Vec<BrowserCookie>>) -> (r: LoginStep)
    ensures
        r == login_step_of(elapsed_ms, cookies_view(*cookies)),
{
    if elapsed_ms > LOGIN_TIMEOUT_MS {
        return LoginStep::TimedOut;
    }
    match cookies {
        None => {
            LoginStep::BrowserClosed
        },
        Some(v) => {
            assert(cookies_view(*cookies) == Some(v@));
            if has_session_cookie(v) {
                LoginStep::LoggedIn
            } else {
                LoginStep::Wait
            }
        },
    }
}

pub open spec fn jar_header() -> Seq<char> {
    "# Netscape HTTP Cookie File\n# This file is generated by YDPro\n\n"@
}

pub open spec fn flag_text(b: bool) -> Seq<char> {
    if b { "TRUE"@ } else { "FALSE"@ }
}

/// One line of the jar: domain, whether subdomains match, path, secure,
/// expiry, name and value, separated by tabs.
pub open spec fn jar_line(c: BrowserCookie) -> Seq<char> {
    jar_line_head(c) + jar_line_tail(c)
}

pub open spec fn jar_line_head(c: BrowserCookie) -> Seq<char> {
    let tab = "\t"@;
    c.domain@ + tab + flag_text(c.domain@.len() > 0 && c.domain@[0] == '.') + tab + c.path@ + tab
        + flag_text(c.secure) + tab
}

pub open spec fn jar_line_tail(c: BrowserCookie) -> Seq<char> {
    let tab = "\t"@;
    decimal_of(c.expires as int) + tab + c.name@ + tab + c.value@ + "\n"@
}

pub open spec fn jar_lines(cs: Seq<BrowserCookie>) -> Seq<char>
    decreases cs.len(),
{
    if cs.len() == 0 {
        Seq::empty()
    } else {
        jar_lines(cs.drop_last()) + jar_line(cs.last())
    }
}

pub open spec fn jar_text(cs: Seq<BrowserCookie>) -> Seq<char> {
    jar_header() + jar_lines(cs)
}

fn push_flag(out: &mut Vec<char>, b: bool)
    ensures
        final(out)@ == old(out)@ + flag_text(b),
{
    if b {
        push_all(out, "TRUE");
    } else {
        push_all(out, "FALSE");
    }
}

fn push_jar_line(out: &mut Vec<char>, c: &BrowserCookie)
    ensures
        final(out)@ == old(out)@ + jar_line(*c),
{
    let ghost start = out@;
    push_jar_head(out, c);
    push_jar_tail(out, c);
    assert(out@ =~= start + jar_line(*c));
}

fn push_jar_head(out: &mut Vec<char>, c: &BrowserCookie)
    ensures
        final(out)@ == old(out)@ + jar_line_head(*c),
{
    let ghost start = out@;
    let dc = chars_of(c.domain.as_str());
    let dotted = dc.len() > 0 && dc[0] == '.';
    push_all(out, c.domain.as_str());
    push_all(out, "\t");
    push_flag(out, dotted);
    push_all(out, "\t");
    push_all(out, c.path.as_str());
    push_all(out, "\t");
    push_flag(out, c.secure);
    push_all(out, "\t");
    assert(out@ =~= start + jar_line_head(*c));
}

fn push_jar_tail(out: &mut Vec<char>, c: &BrowserCookie)
    ensures
        final(out)@ == old(out)@ + jar_line_tail(*c),
{
    let ghost start = out@;
    let e = decimal(c.expires);
    push_all(out, e.as_str());
    push_all(out, "\t");
    push_all(out, c.name.as_str());
    push_all(out, "\t");
    push_all(out, c.value.as_str());
    push_all(out, "\n");
    assert(out@ =~= start + jar_line_tail(*c));
}

/// The cookie jar file, in the Netscape format the downloader reads.
pub fn netscape_cookie_jar(cookies: &Vec<BrowserCookie>) -> (r: String)
    ensures
        r@ == jar_text(cookies@),
{
    let mut out: Vec<char> = Vec::new();
    push_all(&mut out, "# Netscape HTTP Cookie File\n# This file is generated by YDPro\n\n");
    let mut i: usize = 0;
    while i < cookies.len()
        invariant
            i <= cookies.len(),
            out@ == jar_header() + jar_lines(cookies@.take(i as int)),
        decreases cookies.len() - i,
    {
        assert(cookies@.take(i as int + 1).drop_last() =~= cookies@.take(i as int));
        push_jar_line(&mut out, &cookies[i]);
        assert(out@ =~= jar_header() + jar_lines(cookies@.take(i as int + 1)));
        i = i + 1;
    }
    assert(cookies@.take(cookies.len() as int) =~= cookies@);
    string_of(&out)
}

} // verus!
