use std::cmp::Ordering;
use tauri_updater::download::{archive_name_by_os, DownloadProgress};
use tauri_updater::release::{read_fields, JsonField, ReleaseFields, RemoteRelease};
use tauri_updater::signature::{base64_to_string, verify_signature};
use tauri_updater::text::{contains_exec, replace_exec};
use tauri_updater::updater::{
    builder, extract_path_from_executable, fill_template, get_target, FetchOutcome, Resolution,
};
use tauri_updater::version::{compare, should_update};
use tauri_updater::Error;

const TEST_KEY: &str = "dW50cnVzdGVkIGNvbW1lbnQ6IG1pbmlzaWduIHB1YmxpYyBrZXk6IEY1OTgxQzc0MjVGNjM0Q0IKUldUTE5QWWxkQnlZOWFBK21kekU4OGgzdStleEtkeStHaFR5NjEyRHovRnlUdzAwWGJxWEU2aGYK";

fn text(s: &str) -> JsonField {
    JsonField::Text(s.to_string())
}

fn resolve_doc(doc: &str, current: &str) -> Result<tauri_updater::updater::Update, Error> {
    let b = builder().current_version(current).url("https://x/meta.json".into());
    let mut res = Resolution::new();
    res.record(FetchOutcome::Body(doc.to_string()));
    b.build("linux", vec!["/".into(), "opt".into(), "app".into()], res)
}

#[test]
fn version_order_examples() {
    assert_eq!(compare("1.0.0", "2.0.0").unwrap(), Ordering::Less);
    assert_eq!(compare("2.0.0", "1.9.9").unwrap(), Ordering::Greater);
    assert_eq!(compare("1.2.3", "1.2.3").unwrap(), Ordering::Equal);
    assert_eq!(compare("1.10.0", "1.9.0").unwrap(), Ordering::Greater);
    assert_eq!(compare("1.0.0-alpha", "1.0.0").unwrap(), Ordering::Less);
    assert_eq!(compare("1.0.0-alpha.1", "1.0.0-alpha.beta").unwrap(), Ordering::Less);
    assert_eq!(compare("1.0.0-alpha", "1.0.0-alpha.1").unwrap(), Ordering::Less);
    assert_eq!(compare("1.0.0-beta.11", "1.0.0-beta.2").unwrap(), Ordering::Greater);
    assert_eq!(compare("1.0.0+build.1", "1.0.0+build.2").unwrap(), Ordering::Equal);
}

#[test]
fn version_order_is_antisymmetric_on_examples() {
    let vs = ["0.0.1", "0.1.0", "1.0.0-rc.1", "1.0.0", "1.0.1", "10.0.0"];
    for a in vs.iter() {
        assert_eq!(compare(a, a).unwrap(), Ordering::Equal);
        for b in vs.iter() {
            assert_eq!(compare(a, b).unwrap(), compare(b, a).unwrap().reverse());
        }
    }
}

#[test]
fn version_with_too_many_hyphens_is_invalid() {
    let long = format!("1.0.0-{}a", "a-".repeat(300));
    assert!(matches!(compare(&long, "1.0.0"), Err(Error::InvalidVersion(_))));
    assert!(matches!(compare("1.0.0", &long), Err(Error::InvalidVersion(_))));
    assert!(!should_update("1.0.0", &long));
    let ok = format!("1.0.0-{}a", "a-".repeat(200));
    assert_eq!(compare(&ok, "1.0.0").unwrap(), Ordering::Less);
}

#[test]
fn invalid_version_is_reported() {
    assert!(matches!(compare("not-a-version", "1.0.0"), Err(Error::InvalidVersion(_))));
    assert!(matches!(compare("1.0.0", "1.0"), Err(Error::InvalidVersion(_))));
    assert!(!should_update("garbage", "1.0.0"));
    assert!(should_update("1.0.0", "1.0.1"));
}

#[test]
fn newer_release_should_update() {
    let u = resolve_doc(r#"{"version":"9.9.9","url":"https://x/y.tar.gz"}"#, "1.0.0").unwrap();
    assert!(u.should_update);
    assert_eq!(u.version, "9.9.9");
    assert_eq!(u.date, "N/A");
    assert_eq!(u.archive_name(), "y.tar.gz");
}

#[test]
fn older_release_is_kept_without_update() {
    let u = resolve_doc(r#"{"version":"9.9.9","url":"https://x/y.tar.gz"}"#, "10.0.0").unwrap();
    assert!(!u.should_update);
    assert_eq!(u.version, "9.9.9");
}

#[test]
fn fallback_after_unreachable() {
    let mut res = Resolution::new();
    res.record(FetchOutcome::Unreachable("timeout".into()));
    assert!(matches!(res.last_error, Some(Error::Network(_))));
    assert!(!res.is_done());
    res.record(FetchOutcome::Body(r#"{"version":"2.0.0","url":"https://x/a.zip"}"#.into()));
    assert!(res.is_done());
    assert!(res.last_error.is_none());
    assert_eq!(res.finish().unwrap().version, "2.0.0");
}

#[test]
fn missing_name_and_version_is_reported() {
    let r = resolve_doc(r#"{"url":"https://x/y.tar.gz"}"#, "1.0.0");
    match r {
        Err(Error::Network(m)) => assert!(m.ends_with("release missing `name` or `version`")),
        _ => panic!("expected a network error carrying the release error"),
    }
    let r = RemoteRelease::from_release(r#"{"url":"https://x/y.tar.gz"}"#);
    assert!(matches!(r, Err(Error::Release(_))));
}

#[test]
fn missing_url_is_release_error() {
    let r = RemoteRelease::from_release(r#"{"version":"1.0.0"}"#);
    assert!(matches!(r, Err(Error::Release(_))));
}

#[test]
fn not_json_is_release_error() {
    let r = RemoteRelease::from_release("<html>");
    assert!(matches!(r, Err(Error::Release(_))));
    assert!(read_fields("<html>").is_none());
}

#[test]
fn name_used_when_version_missing_and_v_trimmed() {
    let rel = RemoteRelease::from_release(
        r#"{"name":"vv1.2.3","url":"https://x/y","notes":7,"signature":"c2ln","pub_date":"2020"}"#,
    )
    .unwrap();
    assert_eq!(rel.version, "1.2.3");
    assert_eq!(rel.date, "2020");
    assert_eq!(rel.body, None);
    assert_eq!(rel.signature.as_deref(), Some("c2ln"));
    assert!(!rel.should_update);
}

#[test]
fn fields_rules() {
    let f = ReleaseFields {
        version: JsonField::Missing,
        name: text("v3.0.0"),
        pub_date: JsonField::Missing,
        url: text("https://x/z.zip"),
        notes: text("notes"),
        signature: JsonField::Missing,
    };
    let rel = RemoteRelease::from_fields(&f).unwrap();
    assert_eq!(rel.version, "3.0.0");
    assert_eq!(rel.date, "N/A");
    assert_eq!(rel.body.as_deref(), Some("notes"));
    assert_eq!(rel.signature, None);
    let bad = ReleaseFields { version: JsonField::Other, ..f };
    assert!(matches!(RemoteRelease::from_fields(&bad), Err(Error::Release(_))));
}

#[test]
fn progress_reaches_hundred() {
    let mut p = DownloadProgress::new(1000);
    assert_eq!(p.percent(), 0);
    assert_eq!(p.advance(300), 30);
    assert_eq!(p.advance(300), 60);
    assert_eq!(p.advance(400), 100);
    assert_eq!(p.advance(50), 100);
    assert_eq!(p.downloaded, 1000);
}

#[test]
fn progress_unknown_size_stays_zero() {
    let mut p = DownloadProgress::new(0);
    assert_eq!(p.advance(4096), 0);
    assert_eq!(p.advance(4096), 0);
    assert_eq!(p.downloaded, 0);
}

#[test]
fn progress_large_size_does_not_overflow() {
    let mut p = DownloadProgress::new(u64::MAX);
    assert_eq!(p.advance(u64::MAX / 2), 49);
    assert_eq!(p.advance(u64::MAX), 100);
}

#[test]
fn fallback_archive_names() {
    assert_eq!(archive_name_by_os("linux"), "update.tar.gz");
    assert_eq!(archive_name_by_os("darwin"), "update.tar.gz");
    assert_eq!(archive_name_by_os("win32"), "update.zip");
    assert_eq!(archive_name_by_os(""), "update.zip");
}

#[test]
fn targets() {
    assert_eq!(get_target("linux", 64), "linux");
    assert_eq!(get_target("macos", 64), "darwin");
    assert_eq!(get_target("windows", 32), "win32");
    assert_eq!(get_target("windows", 64), "win64");
    assert_eq!(get_target("freebsd", 64), "freebsd");
    assert_eq!(get_target("haiku", 64), "unknown");
}

#[test]
fn extract_paths() {
    let comps = |v: &[&str]| v.iter().map(|s| s.to_string()).collect::<Vec<String>>();
    let mac = comps(&["/", "Applications", "TestApp.app", "Contents", "MacOS", "myApp"]);
    assert_eq!(
        extract_path_from_executable(&mac, "darwin"),
        Some(comps(&["/", "Applications", "TestApp.app"]))
    );
    assert_eq!(
        extract_path_from_executable(&mac, "linux"),
        Some(comps(&["/", "Applications", "TestApp.app", "Contents", "MacOS"]))
    );
    let win = comps(&["C:\\", "Program Files", "MyApp", "MyApp.exe"]);
    assert_eq!(
        extract_path_from_executable(&win, "win64"),
        Some(comps(&["C:\\", "Program Files", "MyApp"]))
    );
    assert_eq!(extract_path_from_executable(&comps(&[]), "linux"), None);
    assert_eq!(extract_path_from_executable(&comps(&["x.app", "bin"]), "darwin"), None);
}

#[test]
fn templates_and_text() {
    assert_eq!(
        fill_template("https://r/{{target}}/{{current_version}}", "1.0.0", "linux"),
        "https://r/linux/1.0.0"
    );
    assert_eq!(fill_template("https://r/static.json", "1.0.0", "linux"), "https://r/static.json");
    assert_eq!(replace_exec("aaa", "aa", "b"), "ba");
    assert!(contains_exec("/Applications/T.app/x", ".app"));
    assert!(!contains_exec("/usr/bin", ".app"));
}

#[test]
fn base64_wrapping() {
    assert_eq!(base64_to_string("aGVsbG8=").as_deref(), Some("hello"));
    assert_eq!(base64_to_string("***"), None);
    assert_eq!(base64_to_string("//79"), None);
}

#[test]
fn signature_errors_are_security_errors() {
    let data = b"archive bytes";
    assert!(matches!(verify_signature(data, "c2ln", "***"), Err(Error::Security(_))));
    assert!(matches!(verify_signature(data, "***", TEST_KEY), Err(Error::Security(_))));
    assert!(matches!(verify_signature(data, "c2lnbmF0dXJl", TEST_KEY), Err(Error::Security(_))));
    let mut mutated = TEST_KEY.to_string();
    mutated.replace_range(60..61, "A");
    assert!(matches!(verify_signature(data, "c2lnbmF0dXJl", &mutated), Err(Error::Security(_))));
}

#[test]
fn short_base64_padding_is_security_error() {
    let key = base64::encode("untrusted comment: key\nQQ=");
    let sig = base64::encode("untrusted comment: sig\nQQ=\ntrusted comment: x\nQQ==");
    assert!(matches!(verify_signature(b"x", &sig, TEST_KEY), Err(Error::Security(_))));
    assert!(matches!(verify_signature(b"x", "c2ln", &key), Err(Error::Security(_))));
    let key_crlf = base64::encode("untrusted comment: key\r\nQQ=\r\n");
    assert!(matches!(verify_signature(b"x", "c2ln", &key_crlf), Err(Error::Security(_))));
}

#[test]
fn error_messages() {
    assert_eq!(Error::Config("`url` required".into()).message(), "`url` required");
    assert_eq!(Error::Extract("bad archive".into()).message(), "bad archive");
    assert_eq!(Error::Install("move failed".into()).message(), "move failed");
}

use tauri_updater::session::{Session, SessionEvent, Stage};

#[test]
fn session_runs_through_its_stages() {
    let mut s = Session::new(true);
    assert!(s.advance(SessionEvent::Start));
    assert!(s.advance(SessionEvent::Resolved(true)));
    assert_eq!(s.stage, Stage::UpdateAvailable);
    assert!(!s.advance(SessionEvent::Extracted));
    assert!(s.advance(SessionEvent::Decided(true)));
    assert!(s.advance(SessionEvent::Downloaded));
    assert_eq!(s.stage, Stage::Verifying);
    assert!(s.advance(SessionEvent::Verified));
    assert!(s.advance(SessionEvent::Extracted));
    assert!(s.advance(SessionEvent::Installed));
    assert_eq!(s.stage, Stage::Done);
    assert!(s.is_finished());
    assert!(!s.advance(SessionEvent::StageFailed));
}

#[test]
fn session_without_key_skips_verification() {
    let mut s = Session::new(false);
    s.advance(SessionEvent::Start);
    s.advance(SessionEvent::Resolved(true));
    s.advance(SessionEvent::Decided(true));
    assert!(s.advance(SessionEvent::Downloaded));
    assert_eq!(s.stage, Stage::Extracting);
}

#[test]
fn session_declined_or_up_to_date_or_failed_ends() {
    let mut s = Session::new(false);
    s.advance(SessionEvent::Start);
    assert!(s.advance(SessionEvent::Resolved(false)));
    assert_eq!(s.stage, Stage::UpToDate);
    assert!(s.is_finished());

    let mut s = Session::new(false);
    s.advance(SessionEvent::Start);
    s.advance(SessionEvent::Resolved(true));
    assert!(s.advance(SessionEvent::Decided(false)));
    assert_eq!(s.stage, Stage::Declined);

    let mut s = Session::new(false);
    assert!(!s.advance(SessionEvent::StageFailed));
    s.advance(SessionEvent::Start);
    assert!(s.advance(SessionEvent::StageFailed));
    assert_eq!(s.stage, Stage::Failed);
}
