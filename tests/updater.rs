use tauri_updater::download::detect_archive_in_url;
use tauri_updater::updater::{builder, FetchOutcome, Resolution, Update, UpdateBuilder};
use tauri_updater::Error;

const RELEASE_URL: &str = "https://releases.example.org/with_sign.json";
const MISSING_URL: &str = "https://releases.example.org/test.json";

const SIGNED_RELEASE: &str = r#"{
  "name": "v0.0.4",
  "notes": "Test version",
  "pub_date": "2020-06-25T14:14:19Z",
  "url": "https://releases.example.org/download/v0.0.4/app.tar.gz",
  "signature": "dW50cnVzdGVkIGNvbW1lbnQ6IHNpZ25hdHVyZQo="
}"#;

const NO_RELEASE_DATA: &str = r#"{ "notes": "Test version" }"#;

fn serve(url: &str) -> FetchOutcome {
    if url == RELEASE_URL {
        FetchOutcome::Body(SIGNED_RELEASE.to_string())
    } else if url == MISSING_URL {
        FetchOutcome::Body(NO_RELEASE_DATA.to_string())
    } else {
        FetchOutcome::Unreachable(format!("cannot reach {}", url))
    }
}

fn running_executable() -> Vec<String> {
    vec!["/".to_string(), "opt".to_string(), "app".to_string(), "my_app".to_string()]
}

fn check(b: UpdateBuilder) -> Result<Update, Error> {
    let endpoints = b.endpoints("linux")?;
    let mut resolution = Resolution::new();
    for url in endpoints.iter() {
        if resolution.is_done() {
            break;
        }
        resolution.record(serve(url));
    }
    b.build("linux", running_executable(), resolution)
}

#[test]
fn simple_http_updater() {
    let check_update = check(builder().current_version("0.0.0").url(RELEASE_URL.into()));
    assert!(check_update.is_ok());
    let updater = check_update.expect("Can't check update");
    assert_eq!(updater.should_update, true);
}

#[test]
fn simple_http_updater_without_version() {
    let check_update = check(builder().url(RELEASE_URL.into()));
    assert!(check_update.is_ok());
    let updater = check_update.expect("Can't check update");
    assert_eq!(updater.should_update, false);
}

#[test]
fn http_updater_uptodate() {
    let check_update = check(builder().current_version("10.0.0").url(RELEASE_URL.into()));
    assert!(check_update.is_ok());
    let updater = check_update.expect("Can't check update");
    assert_eq!(updater.should_update, false);
}

#[test]
fn http_updater_fallback_urls() {
    let check_update = check(
        builder()
            .url("http://badurl.www.tld/1".into())
            .url(RELEASE_URL.into())
            .current_version("0.0.1"),
    );
    assert!(check_update.is_ok());
    let updater = check_update.expect("Can't check remote update");
    assert_eq!(updater.should_update, true);
}

#[test]
fn http_updater_fallback_urls_withs_array() {
    let check_update = check(
        builder()
            .urls(&["http://badurl.www.tld/1".into(), RELEASE_URL.into()])
            .current_version("0.0.1"),
    );
    assert!(check_update.is_ok());
    let updater = check_update.expect("Can't check remote update");
    assert_eq!(updater.should_update, true);
}

#[test]
fn http_updater_missing_remote_data() {
    let check_update = check(builder().url(MISSING_URL.into()).current_version("0.0.1"));
    assert!(check_update.is_err());
}

// Covers the library's part of the complete process: resolving the release, the
// install directory, the archive name and the signature policy. Downloading,
// unpacking and moving files are I/O done around the library.
#[test]
fn http_updater_complete_process() {
    let pubkey_test = Some("dW50cnVzdGVkIGNvbW1lbnQ6IG1pbmlzaWduIHB1YmxpYyBrZXk6IEY1OTgxQzc0MjVGNjM0Q0IKUldUTE5QWWxkQnlZOWFBK21kekU4OGgzdStleEtkeStHaFR5NjEyRHovRnlUdzAwWGJxWEU2aGYK".to_string());
    let tmp_dir: Vec<String> = vec!["/".into(), "tmp".into(), "tauri_updater_test".into()];
    let mut executable = tmp_dir.clone();
    executable.push("my_app.exe".into());

    let check_update = check(
        builder()
            .url(RELEASE_URL.into())
            .executable_path(executable)
            .current_version("0.0.1"),
    );
    assert!(check_update.is_ok());
    let updater = check_update.expect("Can't check remote update");
    assert_eq!(updater.should_update, true);
    assert_eq!(updater.version, "0.0.4");
    assert_eq!(updater.extract_path, tmp_dir);
    assert_eq!(updater.archive_name(), "app.tar.gz");
    let to_check = updater.signature_to_check(&pubkey_test);
    assert!(matches!(to_check, Ok(Some(_))));
}

#[test]
fn no_endpoint_is_config_error() {
    let r = check(builder().current_version("1.0.0"));
    assert!(matches!(r, Err(Error::Config(_))));
}

#[test]
fn all_endpoints_unreachable_is_network_error() {
    let r = check(builder().url("http://a.invalid/".into()).url("http://b.invalid/".into()));
    match r {
        Err(Error::Network(m)) => assert!(m.ends_with("cannot reach http://b.invalid/")),
        _ => panic!("expected a network error"),
    }
}

#[test]
fn no_install_directory_is_install_error() {
    let b = builder().url(RELEASE_URL.into()).executable_path(Vec::new());
    let mut res = Resolution::new();
    res.record(serve(RELEASE_URL));
    let r = b.build("linux", running_executable(), res);
    assert!(matches!(r, Err(Error::Install(_))));
}

#[test]
fn failing_status_is_passed_over() {
    let mut res = Resolution::new();
    res.record(FetchOutcome::Status(404));
    assert!(res.release.is_none());
    assert!(res.last_error.is_none());
    res.record(FetchOutcome::Body(SIGNED_RELEASE.to_string()));
    assert!(res.is_done());
    let rel = res.finish().unwrap();
    assert_eq!(rel.version, "0.0.4");
    assert_eq!(rel.date, "2020-06-25T14:14:19Z");
    assert_eq!(rel.body.as_deref(), Some("Test version"));
}

#[test]
fn endpoints_fill_placeholders() {
    let b = builder()
        .current_version("1.2.3")
        .url("https://x/update/{{target}}/{{current_version}}".into())
        .url("https://y/{{target}}-{{target}}".into());
    let eps = b.endpoints("darwin").unwrap();
    assert_eq!(eps, vec!["https://x/update/darwin/1.2.3".to_string(), "https://y/darwin-darwin".to_string()]);
    let b = b.target("win64");
    let eps = b.endpoints("darwin").unwrap();
    assert_eq!(eps[0], "https://x/update/win64/1.2.3");
}

#[test]
fn builder_defaults_and_setters() {
    let b = UpdateBuilder::new();
    assert_eq!(b.current_version, "0.1.0");
    assert!(b.urls.is_empty());
    assert!(b.target.is_none());
    assert!(b.executable_path.is_none());
    let b = b.url("a".into()).url("b".into()).target("linux");
    assert_eq!(b.urls, vec!["a".to_string(), "b".to_string()]);
    assert_eq!(b.target.as_deref(), Some("linux"));
    let b = b.urls(&["c".into()]);
    assert_eq!(b.urls, vec!["c".to_string()]);
}

#[test]
fn signature_required_when_key_given() {
    let u = Update {
        body: None,
        should_update: true,
        version: "1.0.0".into(),
        date: "N/A".into(),
        current_version: "0.9.0".into(),
        target: "linux".into(),
        extract_path: vec!["/".into(), "opt".into()],
        download_url: "https://x/".into(),
        signature: None,
    };
    assert!(matches!(u.signature_to_check(&Some("key".into())), Err(Error::Security(_))));
    assert!(matches!(u.signature_to_check(&None), Ok(None)));
    assert_eq!(u.archive_name(), "update.tar.gz");
}

#[test]
fn archive_names() {
    assert_eq!(detect_archive_in_url("https://x/y.tar.gz", "linux"), "y.tar.gz");
    assert_eq!(detect_archive_in_url("https://x/dir/", "linux"), "dir");
    assert_eq!(detect_archive_in_url("https://x/", "darwin"), "update.tar.gz");
    assert_eq!(detect_archive_in_url("https://x", "linux"), "update.tar.gz");
    assert_eq!(detect_archive_in_url("http://x", "win64"), "update.zip");
    assert_eq!(detect_archive_in_url("https://host.example/a/b/c.zip?", "win64"), "c.zip?");
    assert_eq!(detect_archive_in_url("app.zip", "win32"), "app.zip");
}
