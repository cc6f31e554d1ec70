use ydpro::actions::{is_partial_file, parse_system_action, SystemAction};
use ydpro::checksum::{digest_hex, digests_differ, engine_needs_download, engine_ready, find_listed_digest};
use ydpro::command::{download_args, extract_height, info_args, pick_hw_encoder, runtime_search_path, DownloadRequest, APP_USER_AGENT};
use ydpro::cookies::{has_session_cookie, login_step, netscape_cookie_jar, BrowserCookie, LoginStep};
use ydpro::update::{file_extension, install_plan, update_file_name, InstallPlan};

fn s(x: &str) -> String {
    x.to_string()
}

fn base(out: &str) -> Vec<String> {
    vec![
        s("--verbose"), s("--ignore-config"), s("--progress"), s("--no-playlist"), s("--encoding"),
        s("utf-8"), s("--newline"), s("--geo-bypass"), s("--no-mtime"), s("--user-agent"),
        s(APP_USER_AGENT), s("--extractor-args"), s("youtube:player_client=web"), s("-o"),
        format!("{}/%(title)s [%(id)s].%(ext)s", out),
    ]
}

fn request(kind: &str, quality: &str) -> DownloadRequest {
    DownloadRequest {
        id: s("id1"),
        url: s("https://example.com/watch?v=x"),
        kind: s(kind),
        quality: s(quality),
        output_dir: s("/out"),
        video_ext: None,
        audio_ext: None,
        thumb_ext: None,
        hw_accel: None,
    }
}

#[test]
fn height_from_format_string() {
    assert_eq!(extract_height("bv*[height<=1080]+ba"), Some(s("1080")));
    assert_eq!(extract_height("height<=x"), None);
    assert_eq!(extract_height("best"), None);
}

#[test]
fn video_args_with_resolution() {
    let req = request("video", "1080P");
    let args = download_args(&req, &Some(s("/c/cookies.txt")), &s("/ff/bin"), &None);
    let mut expected = base("/out");
    expected.extend([s("--cookies"), s("/c/cookies.txt")]);
    expected.extend([s("-S"), s("res:1080,vcodec:h264,acodec:aac")]);
    expected.extend([s("--merge-output-format"), s("mp4"), s("--ffmpeg-location"), s("/ff/bin")]);
    expected.push(s("https://example.com/watch?v=x"));
    assert_eq!(args, expected);
}

#[test]
fn video_args_with_format_string_and_hardware() {
    let mut req = request("video", "bv*[height<=720]");
    req.video_ext = Some(s("mkv"));
    req.hw_accel = Some(s("auto"));
    let args = download_args(&req, &None, &s("/ff"), &Some(s("h264_nvenc")));
    let mut expected = base("/out");
    expected.extend([s("-S"), s("res:720,vcodec:h264,acodec:aac")]);
    expected.extend([s("--merge-output-format"), s("mkv"), s("--recode-video"), s("mkv")]);
    expected.extend([s("--postprocessor-args"), s("video-convert:-vcodec h264_nvenc")]);
    expected.extend([s("--ffmpeg-location"), s("/ff"), s("https://example.com/watch?v=x")]);
    assert_eq!(args, expected);
}

#[test]
fn video_args_with_format_selector() {
    let args = download_args(&request("video", "bestvideo"), &None, &s("/ff"), &Some(s("h264_qsv")));
    let mut expected = base("/out");
    expected.extend([s("-f"), s("bestvideo+ba/b"), s("--merge-output-format"), s("mp4")]);
    expected.extend([s("--ffmpeg-location"), s("/ff"), s("https://example.com/watch?v=x")]);
    assert_eq!(args, expected);
    let args = download_args(&request("video", "bv+ba"), &None, &s("/ff"), &None);
    assert_eq!(args[15], s("-f"));
    assert_eq!(args[16], s("bv+ba"));
}

#[test]
fn audio_and_thumbnail_args() {
    let args = download_args(&request("audio", "0"), &None, &s("/ff"), &None);
    let mut expected = base("/out");
    expected.extend([s("-x"), s("--audio-format"), s("mp3"), s("--audio-quality"), s("0")]);
    expected.extend([s("--ffmpeg-location"), s("/ff"), s("https://example.com/watch?v=x")]);
    assert_eq!(args, expected);
    let mut req = request("thumbnail", "");
    req.thumb_ext = Some(s("png"));
    let args = download_args(&req, &None, &s("/ff"), &None);
    let mut expected = base("/out");
    expected.extend([s("-f"), s("best"), s("--write-thumbnail"), s("--skip-download")]);
    expected.extend([s("--convert-thumbnails"), s("png"), s("https://example.com/watch?v=x")]);
    assert_eq!(args, expected);
    let args = download_args(&request("other", ""), &None, &s("/ff"), &None);
    assert_eq!(args.len(), 16);
}

#[test]
fn info_args_for_video_in_playlist() {
    let args = info_args(&None, s("https://x/watch?v=1&list=2"));
    assert_eq!(
        args,
        vec![
            s("--dump-single-json"), s("--flat-playlist"), s("--no-warnings"), s("--user-agent"),
            s(APP_USER_AGENT), s("--no-playlist"), s("https://x/watch?v=1&list=2"),
        ]
    );
    let args = info_args(&Some(s("/c")), s("https://x/playlist?list=2"));
    assert_eq!(args[5], s("--cookies"));
    assert_eq!(args[6], s("/c"));
    assert_eq!(args.len(), 8);
}

#[test]
fn search_path_puts_runtime_first() {
    assert_eq!(runtime_search_path("/deno", ":", "/usr/bin"), s("/deno:/usr/bin"));
}

#[test]
fn encoder_preference() {
    assert_eq!(pick_hw_encoder(" V..... h264_qsv\n V..... h264_nvenc\n"), Some(s("h264_nvenc")));
    assert_eq!(pick_hw_encoder(" V..... h264_amf\n"), Some(s("h264_amf")));
    assert_eq!(pick_hw_encoder(" V..... libx264\n"), None);
}

#[test]
fn digest_of_known_text() {
    assert_eq!(digest_hex(b"abc"), s("ba7816bf8f01cfea414140de5dae2223b00361a396177a9cb410ff61f20015ad"));
}

#[test]
fn digests_compare_without_case() {
    assert!(!digests_differ("ABCdef", "abcDEF"));
    assert!(digests_differ("abc", "abd"));
}

#[test]
fn listed_digest_for_file() {
    let listing = "111  yt-dlp.exe\r\n222  yt-dlp\n333 yt-dlp_macos\n";
    assert_eq!(find_listed_digest(listing, "yt-dlp"), Some(s("222")));
    assert_eq!(find_listed_digest(listing, "yt-dlp.exe"), Some(s("111")));
    assert_eq!(find_listed_digest(listing, "other"), None);
    assert_eq!(find_listed_digest("", "yt-dlp"), None);
}

#[test]
fn engine_status_decisions() {
    assert!(engine_ready(true, Some(false)));
    assert!(engine_ready(true, None));
    assert!(!engine_ready(true, Some(true)));
    assert!(!engine_ready(false, None));
    assert!(engine_needs_download(false, None));
    assert!(engine_needs_download(true, Some(true)));
    assert!(!engine_needs_download(true, None));
}

fn cookie(name: &str, domain: &str) -> BrowserCookie {
    BrowserCookie { name: s(name), value: s("v"), domain: s(domain), path: s("/"), secure: true, expires: 1700000000 }
}

#[test]
fn session_cookie_detection() {
    assert!(has_session_cookie(&vec![cookie("a", ".google.com"), cookie("__Secure-3PSID", ".youtube.com")]));
    assert!(!has_session_cookie(&vec![cookie("__Secure-3PSID", ".google.com")]));
    assert!(!has_session_cookie(&vec![]));
}

#[test]
fn cookie_jar_format() {
    let mut c2 = cookie("n", "example.com");
    c2.secure = false;
    c2.expires = -1;
    let jar = netscape_cookie_jar(&vec![cookie("SID", ".youtube.com"), c2]);
    assert_eq!(
        jar,
        s("# Netscape HTTP Cookie File\n# This file is generated by YDPro\n\n.youtube.com\tTRUE\t/\tTRUE\t1700000000\tSID\tv\nexample.com\tFALSE\t/\tFALSE\t-1\tn\tv\n")
    );
}

#[test]
fn update_names_and_plans() {
    assert_eq!(update_file_name("https://h/x/app-1.0.rpm"), s("app-1.0.rpm"));
    assert_eq!(update_file_name("noslash"), s("noslash"));
    assert_eq!(update_file_name("https://h/"), s(""));
    assert_eq!(file_extension("a.tar.gz"), Some(s("gz")));
    assert_eq!(file_extension(".bashrc"), None);
    assert_eq!(file_extension("plain"), None);
    assert_eq!(install_plan("app-1.0.rpm"), InstallPlan::InstallPackage);
    assert_eq!(install_plan("App.AppImage"), InstallPlan::RunImage);
    assert_eq!(install_plan("setup.deb"), InstallPlan::OpenFolder);
}

#[test]
fn system_action_names() {
    assert_eq!(parse_system_action("reboot"), Ok(SystemAction::Reboot));
    assert_eq!(parse_system_action("hibernate"), Ok(SystemAction::Hibernate));
    assert_eq!(parse_system_action("dance"), Err(s("Invalid action")));
}

#[test]
fn partial_file_matching() {
    assert!(is_partial_file("Title [abc].mp4.part", "abc"));
    assert!(is_partial_file("Title [abc].f137.mp4", "abc"));
    assert!(!is_partial_file("Title [abc].mp4", "abc"));
    assert!(!is_partial_file("Other [xyz].mp4.part", "abc"));
}

#[test]
fn login_watch_steps() {
    let good = || vec![cookie("__Secure-3PSID", ".youtube.com")];
    let other = vec![cookie("a", ".youtube.com")];
    assert_eq!(login_step(1000, &Some(good())), LoginStep::LoggedIn);
    assert_eq!(login_step(1000, &Some(other)), LoginStep::Wait);
    assert_eq!(login_step(1000, &None), LoginStep::BrowserClosed);
    assert_eq!(login_step(300_000, &None), LoginStep::BrowserClosed);
    assert_eq!(login_step(300_001, &Some(good())), LoginStep::TimedOut);
}

#[test]
fn height_stops_at_first_non_digit() {
    assert_eq!(extract_height("bestvideo[height<=1080]+bestaudio"), Some(s("1080")));
    assert_eq!(extract_height("height<=720height<=480"), Some(s("720")));
}
