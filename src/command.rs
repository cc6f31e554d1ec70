//! The argument vectors handed to the downloader, and the small decisions
//! taken on the way (resolution in a format string, hardware encoder).
use vstd::prelude::*;
use crate::lines::texts_view;
use crate::text::{
    chars_of, string_of, push_all, find_chars, occurs_at, occurs_in, contains_str, same_text,
    trim, trim_chars, lower_of, lowercase, is_numeric_char, numeric, all_numeric, chars_all_numeric,
};

verus! {

pub const APP_USER_AGENT: &'static str = "Mozilla/5.0 (Windows NT 10.0; Win64; x64) AppleWebKit/537.36 (KHTML, like Gecko) Chrome/121.0.0.0 Safari/537.36";

pub open spec fn user_agent() -> Seq<char> {
    APP_USER_AGENT@
}

/// The first index at which `needle` occurs in `hay` (meaningful when it occurs).
pub open spec fn first_occurrence(hay: Seq<char>, needle: Seq<char>) -> int {
    choose|i: int| occurs_at(hay, needle, i) && forall|j: int| 0 <= j < i ==> !occurs_at(hay, needle, j)
}

/// The longest prefix of `s` made of numeric characters.
pub open spec fn numeric_prefix(s: Seq<char>) -> Seq<char>
    decreases s.len(),
{
    if s.len() > 0 && is_numeric_char(s[0]) {
        seq![s[0]] + numeric_prefix(s.drop_first())
    } else {
        Seq::empty()
    }
}

/// The digits right after the first `height<=` of a format string, if any.
#[verifier::opaque]
pub open spec fn height_of(s: Seq<char>) -> Option<Seq<char>> {
    let key = "height<="@;
    if occurs_in(s, key) {
        let digits = numeric_prefix(s.subrange(first_occurrence(s, key) + key.len(), s.len() as int));
        if digits.len() > 0 {
            Some(digits)
        } else {
            None
        }
    } else {
        None
    }
}

proof fn lemma_first_occurrence(hay: Seq<char>, needle: Seq<char>, i: int)
    requires
        occurs_at(hay, needle, i),
        forall|j: int| 0 <= j < i ==> !occurs_at(hay, needle, j),
    ensures
        first_occurrence(hay, needle) == i,
{
    let f = first_occurrence(hay, needle);
    assert(occurs_at(hay, needle, f) && forall|j: int| 0 <= j < f ==> !occurs_at(hay, needle, j));
    if f < i {
        assert(!occurs_at(hay, needle, f));
    } else if i < f {
        assert(!occurs_at(hay, needle, i));
    }
}

fn numeric_prefix_from(s: &Vec<char>, start: usize) -> (r: Vec<char>)
    requires
        start <= s.len(),
    ensures
        r@ == numeric_prefix(s@.subrange(start as int, s.len() as int)),
{
    let n = s.len();
    let mut k: usize = start;
    while k < n && numeric(s[k])
        invariant
            start <= k <= n,
            n == s.len(),
            forall|m: int| start <= m < k ==> is_numeric_char(#[trigger] s@[m]),
        decreases n - k,
    {
        k = k + 1;
    }
    let mut out: Vec<char> = Vec::new();
    proof {
        let t = s@.subrange(k as int, n as int);
        assert(numeric_prefix(t) == Seq::<char>::empty());
    }
    let mut i: usize = start;
    while i < k
        invariant
            start <= i <= k,
            k <= n,
            n == s.len(),
            forall|m: int| start <= m < k ==> is_numeric_char(#[trigger] s@[m]),
            numeric_prefix(s@.subrange(k as int, n as int)) == Seq::<char>::empty(),
            out@ == s@.subrange(start as int, i as int),
        decreases k - i,
    {
        out.push(s[i]);
        assert(out@ =~= s@.subrange(start as int, i as int + 1));
        i = i + 1;
    }
    proof {
        lemma_numeric_prefix_run(s@, start as int, k as int);
    }
    out
}

proof fn lemma_numeric_prefix_run(s: Seq<char>, a: int, k: int)
    requires
        0 <= a <= k <= s.len(),
        forall|m: int| a <= m < k ==> is_numeric_char(#[trigger] s[m]),
        numeric_prefix(s.subrange(k, s.len() as int)) == Seq::<char>::empty(),
    ensures
        numeric_prefix(s.subrange(a, s.len() as int)) == s.subrange(a, k),
    decreases k - a,
{
    if a < k {
        lemma_numeric_prefix_run(s, a + 1, k);
        let t = s.subrange(a, s.len() as int);
        assert(t.drop_first() =~= s.subrange(a + 1, s.len() as int));
        assert(is_numeric_char(s[a]));
        assert(seq![s[a]] + s.subrange(a + 1, k) =~= s.subrange(a, k));
    } else {
        assert(s.subrange(a, k) =~= Seq::<char>::empty());
    }
}

/// The resolution named in a format string such as `bv*[height<=1080]+ba`.
pub fn extract_height(s: &str) -> (r: Option<String>)
    ensures
        r.is_some() == height_of(s@).is_some(),
        r.is_some() ==> r->0@ == height_of(s@)->0,
{
    reveal(height_of);
    let cs = chars_of(s);
    let key = chars_of("height<=");
    match find_chars(&cs, &key) {
        None => None,
        Some(idx) => {
            proof {
                lemma_first_occurrence(cs@, key@, idx as int);
                assert(occurs_at(cs@, key@, idx as int));
                assert(idx + key@.len() <= cs@.len());
                assert(cs@.len() == cs.len());
                assert(key@.len() == key.len());
            }
            let digits = numeric_prefix_from(&cs, idx + key.len());
            if digits.len() > 0 {
                Some(string_of(&digits))
            } else {
                None
            }
        },
    }
}

} // verus!

verus! {

/// A download as the user interface asks for it.
pub struct DownloadRequest {
    pub id: String,
    pub url: String,
    /// `video`, `audio` or `thumbnail`; anything else adds no options.
    pub kind: String,
    pub quality: String,
    pub output_dir: String,
    pub video_ext: Option<String>,
    pub audio_ext: Option<String>,
    pub thumb_ext: Option<String>,
    pub hw_accel: Option<String>,
}

pub open spec fn opt_view(o: Option<String>) -> Option<Seq<char>> {
    match o {
        Some(s) => Some(s@),
        None => None,
    }
}

pub open spec fn or_default(o: Option<Seq<char>>, d: Seq<char>) -> Seq<char> {
    match o {
        Some(s) => s,
        None => d,
    }
}

/// `s` with every occurrence of `c` removed.
pub open spec fn remove_char(s: Seq<char>, c: char) -> Seq<char>
    decreases s.len(),
{
    if s.len() == 0 {
        s
    } else if s.last() == c {
        remove_char(s.drop_last(), c)
    } else {
        remove_char(s.drop_last(), c).push(s.last())
    }
}

pub open spec fn base_args(output_dir: Seq<char>) -> Seq<Seq<char>> {
    seq![
        "--verbose"@, "--ignore-config"@, "--progress"@, "--no-playlist"@, "--encoding"@,
        "utf-8"@, "--newline"@, "--geo-bypass"@, "--no-mtime"@, "--user-agent"@, user_agent(),
        "--extractor-args"@, "youtube:player_client=web"@, "-o"@,
        output_dir + "/%(title)s [%(id)s].%(ext)s"@,
    ]
}

pub open spec fn cookie_args(cookies: Option<Seq<char>>) -> Seq<Seq<char>> {
    match cookies {
        Some(p) => seq!["--cookies"@, p],
        None => Seq::empty(),
    }
}

/// The quality with a resolution taken out of a complex format string.
pub open spec fn quality_value(q: Seq<char>) -> Seq<char> {
    if !all_numeric(q) && occurs_in(q, "height<="@) && height_of(q).is_some() {
        height_of(q)->0
    } else {
        q
    }
}

/// The quality as a candidate resolution: lower case, no `p`, trimmed.
#[verifier::opaque]
pub open spec fn resolution_of(q: Seq<char>) -> Seq<char> {
    trim(remove_char(lower_of(quality_value(q)), 'p'))
}

pub open spec fn format_args(q: Seq<char>) -> Seq<Seq<char>> {
    let t = resolution_of(q);
    if t.len() > 0 && all_numeric(t) {
        seq!["-S"@, "res:"@ + t + ",vcodec:h264,acodec:aac"@]
    } else if !occurs_in(q, "+"@) {
        seq!["-f"@, q + "+ba/b"@]
    } else {
        seq!["-f"@, q]
    }
}

pub open spec fn encoder_args(encoder: Option<Seq<char>>) -> Seq<Seq<char>> {
    match encoder {
        Some(e) => seq!["--postprocessor-args"@, "video-convert:-vcodec "@ + e],
        None => Seq::empty(),
    }
}

pub open spec fn video_args(
    q: Seq<char>,
    video_ext: Option<Seq<char>>,
    hw_accel: Option<Seq<char>>,
    encoder: Option<Seq<char>>,
    ffmpeg_dir: Seq<char>,
) -> Seq<Seq<char>> {
    let ext = or_default(video_ext, "mp4"@);
    let recode = if hw_accel == Some("auto"@) {
        seq!["--recode-video"@, ext] + encoder_args(encoder)
    } else {
        Seq::empty()
    };
    format_args(q) + seq!["--merge-output-format"@, ext] + recode + seq![
        "--ffmpeg-location"@,
        ffmpeg_dir,
    ]
}

pub open spec fn audio_args(q: Seq<char>, audio_ext: Option<Seq<char>>, ffmpeg_dir: Seq<char>) -> Seq<Seq<char>> {
    seq![
        "-x"@, "--audio-format"@, or_default(audio_ext, "mp3"@), "--audio-quality"@, q,
        "--ffmpeg-location"@, ffmpeg_dir,
    ]
}

pub open spec fn thumbnail_args(thumb_ext: Option<Seq<char>>) -> Seq<Seq<char>> {
    seq!["-f"@, "best"@, "--write-thumbnail"@, "--skip-download"@] + match thumb_ext {
        Some(e) => seq!["--convert-thumbnails"@, e],
        None => Seq::empty(),
    }
}

pub open spec fn kind_args(req: DownloadRequest, ffmpeg_dir: Seq<char>, encoder: Option<Seq<char>>) -> Seq<Seq<char>> {
    if req.kind@ == "video"@ {
        video_args(req.quality@, opt_view(req.video_ext), opt_view(req.hw_accel), encoder, ffmpeg_dir)
    } else if req.kind@ == "audio"@ {
        audio_args(req.quality@, opt_view(req.audio_ext), ffmpeg_dir)
    } else if req.kind@ == "thumbnail"@ {
        thumbnail_args(opt_view(req.thumb_ext))
    } else {
        Seq::empty()
    }
}

/// The downloader's full argument vector for a request.
pub open spec fn download_args_of(
    req: DownloadRequest,
    cookies: Option<Seq<char>>,
    ffmpeg_dir: Seq<char>,
    encoder: Option<Seq<char>>,
) -> Seq<Seq<char>> {
    base_args(req.output_dir@) + cookie_args(cookies) + kind_args(req, ffmpeg_dir, encoder) + seq![
        req.url@,
    ]
}

fn lit(s: &str) -> (r: String)
    ensures
        r@ == s@,
{
    s.to_owned()
}

fn join3(a: &str, b: &str, c: &str) -> (r: String)
    ensures
        r@ == a@ + b@ + c@,
{
    let mut out: Vec<char> = Vec::new();
    push_all(&mut out, a);
    push_all(&mut out, b);
    push_all(&mut out, c);
    string_of(&out)
}

fn push_arg(args: &mut Vec<String>, s: String)
    ensures
        texts_view(final(args)@) == texts_view(old(args)@).push(s@),
{
    let ghost before = args@;
    args.push(s);
    assert(texts_view(args@) =~= texts_view(before).push(s@));
}

fn extend_args(args: &mut Vec<String>, mut more: Vec<String>)
    ensures
        texts_view(final(args)@) == texts_view(old(args)@) + texts_view(more@),
{
    let ghost before = args@;
    let ghost tail = more@;
    args.append(&mut more);
    assert(texts_view(args@) =~= texts_view(before) + texts_view(tail));
}

fn remove_char_exec(s: &Vec<char>, c: char) -> (r: Vec<char>)
    ensures
        r@ == remove_char(s@, c),
{
    let mut out: Vec<char> = Vec::new();
    let mut i: usize = 0;
    while i < s.len()
        invariant
            i <= s.len(),
            out@ == remove_char(s@.take(i as int), c),
        decreases s.len() - i,
    {
        assert(s@.take(i as int + 1).drop_last() =~= s@.take(i as int));
        if s[i] != c {
            out.push(s[i]);
        }
        i = i + 1;
    }
    assert(s@.take(s.len() as int) =~= s@);
    out
}

fn option_text(o: &Option<String>, d: &str) -> (r: String)
    ensures
        r@ == or_default(opt_view(*o), d@),
{
    match o {
        Some(s) => s.clone(),
        None => lit(d),
    }
}

fn quality_value_exec(q: &String) -> (r: String)
    ensures
        r@ == quality_value(q@),
{
    let qc = chars_of(q.as_str());
    if !chars_all_numeric(&qc) && contains_str(q.as_str(), "height<=") {
        match extract_height(q.as_str()) {
            Some(h) => {
                return h;
            },
            None => {},
        }
    }
    q.clone()
}

fn resolution_exec(q: &String) -> (r: Vec<char>)
    ensures
        r@ == resolution_of(q@),
{
    reveal(resolution_of);
    let value = quality_value_exec(q);
    let low = lowercase(value.as_str());
    let lc = chars_of(low.as_str());
    let nop = remove_char_exec(&lc, 'p');
    trim_chars(&nop)
}

fn format_args_exec(q: &String) -> (r: Vec<String>)
    ensures
        texts_view(r@) == format_args(q@),
{
    let t = resolution_exec(q);
    let mut out: Vec<String> = Vec::new();
    if t.len() > 0 && chars_all_numeric(&t) {
        push_arg(&mut out, lit("-S"));
        let ts = string_of(&t);
        push_arg(&mut out, join3("res:", ts.as_str(), ",vcodec:h264,acodec:aac"));
    } else if !contains_str(q.as_str(), "+") {
        push_arg(&mut out, lit("-f"));
        push_arg(&mut out, join3(q.as_str(), "+ba/b", ""));
        assert(q@ + "+ba/b"@ + ""@ =~= q@ + "+ba/b"@) by {
            reveal_strlit("");
        }
    } else {
        push_arg(&mut out, lit("-f"));
        push_arg(&mut out, q.clone());
    }
    assert(texts_view(out@) =~= format_args(q@));
    out
}

fn is_auto(o: &Option<String>) -> (r: bool)
    ensures
        r == (opt_view(*o) == Some("auto"@)),
{
    match o {
        Some(s) => same_text(s.as_str(), "auto"),
        None => false,
    }
}

fn recode_args_exec(hw_accel: &Option<String>, ext: String, encoder: &Option<String>) -> (r: Vec<String>)
    ensures
        texts_view(r@) == (if opt_view(*hw_accel) == Some("auto"@) {
            seq!["--recode-video"@, ext@] + encoder_args(opt_view(*encoder))
        } else {
            Seq::<Seq<char>>::empty()
        }),
{
    let ghost e0 = ext@;
    let mut recode: Vec<String> = Vec::new();
    if is_auto(hw_accel) {
        push_arg(&mut recode, lit("--recode-video"));
        push_arg(&mut recode, ext);
        match encoder {
            Some(e) => {
                push_arg(&mut recode, lit("--postprocessor-args"));
                push_arg(&mut recode, join3("video-convert:-vcodec ", e.as_str(), ""));
                assert("video-convert:-vcodec "@ + e@ + ""@ =~= "video-convert:-vcodec "@ + e@) by {
                    reveal_strlit("");
                }
            },
            None => {},
        }
    }
    assert(texts_view(recode@) =~= (if opt_view(*hw_accel) == Some("auto"@) {
        seq!["--recode-video"@, e0] + encoder_args(opt_view(*encoder))
    } else {
        Seq::<Seq<char>>::empty()
    }));
    recode
}

fn video_args_exec(req: &DownloadRequest, ffmpeg_dir: &String, encoder: &Option<String>) -> (r: Vec<String>)
    ensures
        texts_view(r@) == video_args(
            req.quality@,
            opt_view(req.video_ext),
            opt_view(req.hw_accel),
            opt_view(*encoder),
            ffmpeg_dir@,
        ),
{
    let mut out = format_args_exec(&req.quality);
    let ext = option_text(&req.video_ext, "mp4");
    push_arg(&mut out, lit("--merge-output-format"));
    push_arg(&mut out, ext.clone());
    let recode = recode_args_exec(&req.hw_accel, ext, encoder);
    extend_args(&mut out, recode);
    push_arg(&mut out, lit("--ffmpeg-location"));
    push_arg(&mut out, ffmpeg_dir.clone());
    assert(texts_view(out@) =~= video_args(
        req.quality@,
        opt_view(req.video_ext),
        opt_view(req.hw_accel),
        opt_view(*encoder),
        ffmpeg_dir@,
    ));
    out
}

fn audio_args_exec(req: &DownloadRequest, ffmpeg_dir: &String) -> (r: Vec<String>)
    ensures
        texts_view(r@) == audio_args(req.quality@, opt_view(req.audio_ext), ffmpeg_dir@),
{
    let mut out: Vec<String> = Vec::new();
    push_arg(&mut out, lit("-x"));
    push_arg(&mut out, lit("--audio-format"));
    push_arg(&mut out, option_text(&req.audio_ext, "mp3"));
    push_arg(&mut out, lit("--audio-quality"));
    push_arg(&mut out, req.quality.clone());
    push_arg(&mut out, lit("--ffmpeg-location"));
    push_arg(&mut out, ffmpeg_dir.clone());
    assert(texts_view(out@) =~= audio_args(req.quality@, opt_view(req.audio_ext), ffmpeg_dir@));
    out
}

fn thumbnail_args_exec(req: &DownloadRequest) -> (r: Vec<String>)
    ensures
        texts_view(r@) == thumbnail_args(opt_view(req.thumb_ext)),
{
    let mut out: Vec<String> = Vec::new();
    push_arg(&mut out, lit("-f"));
    push_arg(&mut out, lit("best"));
    push_arg(&mut out, lit("--write-thumbnail"));
    push_arg(&mut out, lit("--skip-download"));
    match &req.thumb_ext {
        Some(e) => {
            push_arg(&mut out, lit("--convert-thumbnails"));
            push_arg(&mut out, e.clone());
        },
        None => {},
    }
    assert(texts_view(out@) =~= thumbnail_args(opt_view(req.thumb_ext)));
    out
}

fn base_args_exec(output_dir: &String) -> (r: Vec<String>)
    ensures
        texts_view(r@) == base_args(output_dir@),
{
    let mut out: Vec<String> = Vec::new();
    push_arg(&mut out, lit("--verbose"));
    push_arg(&mut out, lit("--ignore-config"));
    push_arg(&mut out, lit("--progress"));
    push_arg(&mut out, lit("--no-playlist"));
    push_arg(&mut out, lit("--encoding"));
    push_arg(&mut out, lit("utf-8"));
    push_arg(&mut out, lit("--newline"));
    push_arg(&mut out, lit("--geo-bypass"));
    push_arg(&mut out, lit("--no-mtime"));
    push_arg(&mut out, lit("--user-agent"));
    push_arg(&mut out, lit(APP_USER_AGENT));
    push_arg(&mut out, lit("--extractor-args"));
    push_arg(&mut out, lit("youtube:player_client=web"));
    push_arg(&mut out, lit("-o"));
    push_arg(&mut out, join3(output_dir.as_str(), "/%(title)s [%(id)s].%(ext)s", ""));
    assert(output_dir@ + "/%(title)s [%(id)s].%(ext)s"@ + ""@ =~= output_dir@
        + "/%(title)s [%(id)s].%(ext)s"@) by {
        reveal_strlit("");
    }
    assert(texts_view(out@) =~= base_args(output_dir@));
    out
}

fn cookie_args_exec(cookies: &Option<String>) -> (r: Vec<String>)
    ensures
        texts_view(r@) == cookie_args(opt_view(*cookies)),
{
    let mut out: Vec<String> = Vec::new();
    match cookies {
        Some(p) => {
            push_arg(&mut out, lit("--cookies"));
            push_arg(&mut out, p.clone());
        },
        None => {},
    }
    assert(texts_view(out@) =~= cookie_args(opt_view(*cookies)));
    out
}

/// The downloader's argument vector for a request. `cookies` is the cookie
/// jar to use, if one exists; `ffmpeg_dir` the directory of the transcoder;
/// `encoder` the hardware encoder found, used only when the request asks for
/// automatic hardware acceleration.
pub fn download_args(
    req: &DownloadRequest,
    cookies: &Option<String>,
    ffmpeg_dir: &String,
    encoder: &Option<String>,
) -> (r: Vec<String>)
    ensures
        texts_view(r@) == download_args_of(*req, opt_view(*cookies), ffmpeg_dir@, opt_view(*encoder)),
{
    let mut out = base_args_exec(&req.output_dir);
    extend_args(&mut out, cookie_args_exec(cookies));
    let kind = req.kind.as_str();
    let specific = if same_text(kind, "video") {
        video_args_exec(req, ffmpeg_dir, encoder)
    } else if same_text(kind, "audio") {
        audio_args_exec(req, ffmpeg_dir)
    } else if same_text(kind, "thumbnail") {
        thumbnail_args_exec(req)
    } else {
        Vec::new()
    };
    assert(texts_view(specific@) =~= kind_args(*req, ffmpeg_dir@, opt_view(*encoder)));
    extend_args(&mut out, specific);
    push_arg(&mut out, req.url.clone());
    out
}

} // verus!

verus! {

/// The arguments that ask the downloader for a target's metadata as JSON.
pub open spec fn info_args_of(cookies: Option<Seq<char>>, target: Seq<char>) -> Seq<Seq<char>> {
    seq!["--dump-single-json"@, "--flat-playlist"@, "--no-warnings"@, "--user-agent"@, user_agent()]
        + cookie_args(cookies) + (if occurs_in(target, "v="@) && occurs_in(target, "list="@) {
        seq!["--no-playlist"@]
    } else {
        Seq::empty()
    }) + seq![target]
}

/// The metadata query for a target; a link to a video inside a playlist
/// queries the video alone.
pub fn info_args(cookies: &Option<String>, target: String) -> (r: Vec<String>)
    ensures
        texts_view(r@) == info_args_of(opt_view(*cookies), target@),
{
    let mut out: Vec<String> = Vec::new();
    push_arg(&mut out, lit("--dump-single-json"));
    push_arg(&mut out, lit("--flat-playlist"));
    push_arg(&mut out, lit("--no-warnings"));
    push_arg(&mut out, lit("--user-agent"));
    push_arg(&mut out, lit(APP_USER_AGENT));
    extend_args(&mut out, cookie_args_exec(cookies));
    if contains_str(target.as_str(), "v=") && contains_str(target.as_str(), "list=") {
        push_arg(&mut out, lit("--no-playlist"));
    }
    let ghost t = target@;
    push_arg(&mut out, target);
    assert(texts_view(out@) =~= info_args_of(opt_view(*cookies), t));
    out
}

/// The search path with the runtime's directory in front.
pub fn runtime_search_path(runtime_dir: &str, separator: &str, current: &str) -> (r: String)
    ensures
        r@ == runtime_dir@ + separator@ + current@,
{
    join3(runtime_dir, separator, current)
}

/// The preferred hardware encoder among those the transcoder lists.
pub open spec fn hw_encoder_of(listing: Seq<char>) -> Option<Seq<char>> {
    if occurs_in(listing, "h264_nvenc"@) {
        Some("h264_nvenc"@)
    } else if occurs_in(listing, "h264_qsv"@) {
        Some("h264_qsv"@)
    } else if occurs_in(listing, "h264_amf"@) {
        Some("h264_amf"@)
    } else {
        None
    }
}

/// Picks the hardware encoder from the transcoder's encoder listing.
pub fn pick_hw_encoder(listing: &str) -> (r: Option<String>)
    ensures
        opt_view(r) == hw_encoder_of(listing@),
{
    if contains_str(listing, "h264_nvenc") {
        Some(lit("h264_nvenc"))
    } else if contains_str(listing, "h264_qsv") {
        Some(lit("h264_qsv"))
    } else if contains_str(listing, "h264_amf") {
        Some(lit("h264_amf"))
    } else {
        None
    }
}

} // verus!
