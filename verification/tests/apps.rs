use std::io::Write;

use pnos_runtime::agent::{EnvValue, EnvVar, ProcessPoll};
use pnos_runtime::app_manager::{
    take_program, AppError, AppInstallEvent, AppInstallStep, AppManager, AppStatus,
};
use pnos_runtime::archive::{extract_file, find_entry, names_file, ArchiveError};
use pnos_runtime::config::{log_level, RuntimeConfig};
use pnos_runtime::digest::{compare_checksum, compare_digest, hex};
use pnos_runtime::download::{apply_download_mirror, download_mirror};
use pnos_runtime::paths::DirPath;
use pnos_runtime::store::{list_entries, AppManifest, StoreError, StoreService};

const ABC: &str = "ba7816bf8f01cfea414140de5dae2223b00361a396177a9cb410ff61f20015ad";

fn manifest(url: &str, sha256: Option<&str>) -> AppManifest {
    AppManifest {
        id: "app".to_string(),
        name: "App".to_string(),
        version: "3".to_string(),
        download_url: url.to_string(),
        binary_name: "prog".to_string(),
        sha256: sha256.map(|s| s.to_string()),
        working_dir: "{{app_data}}/w".to_string(),
        args: vec!["--x".to_string(), "1".to_string()],
        env: vec![
            EnvVar { name: "K".to_string(), value: "V".to_string() },
            EnvVar { name: "PNOS_APP_ID".to_string(), value: "fake".to_string() },
        ],
        port: 12,
        health_url: None,
        document: "{}".to_string(),
    }
}

fn config() -> RuntimeConfig {
    RuntimeConfig {
        port: 8080,
        data_dir: "/data".to_string(),
        media_dir: "/media".to_string(),
        app_data_dir: "/data/apps".to_string(),
        default_store_url: "u".to_string(),
        heartbeat_timeout: 30,
    }
}

fn path(d: &DirPath) -> String {
    d.parts.join("/")
}

fn tar_gz(files: &[(&str, &[u8])]) -> Vec<u8> {
    let mut builder = tar::Builder::new(Vec::new());
    for (name, data) in files {
        let mut header = tar::Header::new_gnu();
        header.set_size(data.len() as u64);
        header.set_mode(0o644);
        header.set_cksum();
        builder.append_data(&mut header, name, *data).unwrap();
    }
    let plain = builder.into_inner().unwrap();
    let mut gz = flate2::write::GzEncoder::new(Vec::new(), flate2::Compression::default());
    gz.write_all(&plain).unwrap();
    gz.finish().unwrap()
}

#[test]
fn bytes_in_hexadecimal() {
    assert_eq!(hex(&[]), "");
    assert_eq!(hex(&[0, 1, 0x0f, 0xa0, 0xff]), "00010fa0ff");
}

#[test]
fn checksums_are_compared_exactly() {
    assert_eq!(compare_checksum(ABC, b"abc"), None);
    assert_eq!(compare_checksum("", b"abc"), None);
    assert_eq!(compare_checksum("x", b"abc"), Some(ABC.to_string()));
    assert_eq!(compare_checksum(&ABC.to_uppercase(), b"abc"), Some(ABC.to_string()));
    assert_eq!(
        compare_checksum("x", b""),
        Some("e3b0c44298fc1c149afbf4c8996fb92427ae41e4649b934ca495991b7852b855".to_string())
    );
    assert_eq!(compare_digest("0a", &[10]), None);
    assert_eq!(compare_digest("0b", &[10]), Some("0a".to_string()));
}

#[test]
fn names_of_files() {
    assert!(names_file(b"prog", "prog"));
    assert!(names_file(b"bin/prog", "prog"));
    assert!(names_file(b"./bin//prog", "prog"));
    assert!(names_file(b"bin/prog/", "prog"));
    assert!(names_file(b"bin/prog/.", "prog"));
    assert!(names_file(b"/prog", "prog"));
    assert!(!names_file(b"bin/prog/..", "prog"));
    assert!(!names_file(b"bin/prog2", "prog"));
    assert!(!names_file(b"prog/x", "prog"));
    assert!(!names_file(b"", "prog"));
    assert!(!names_file(b"", ""));
    assert!(!names_file(b".", "."));
    assert!(!names_file(b"..", ".."));
    assert!(names_file("a/程序".as_bytes(), "程序"));
}

#[test]
fn the_names_are_those_of_std() {
    let cases = [
        "", ".", "..", "/", "a", "a/", "a/.", "a/..", "./a", "a/./b", "a//b/.//", "../a", "a/...",
        "//",
    ];
    for case in cases {
        let p = std::path::Path::new(case);
        for name in ["a", "b", "...", ".", "..", ""] {
            let expected = p.file_name().map(|n| n == name).unwrap_or(false);
            assert_eq!(names_file(case.as_bytes(), name), expected);
        }
    }
}

#[test]
fn the_first_file_of_the_name_is_taken() {
    let paths = vec![
        None,
        Some(b"x".to_vec()),
        Some(b"d/prog".to_vec()),
        Some(b"prog".to_vec()),
    ];
    assert_eq!(find_entry(&paths, "prog"), Some(2));
    assert_eq!(find_entry(&paths, "none"), None);
    let archive = tar_gz(&[("a/readme", b"r"), ("a/prog", b"first"), ("prog", b"second")]);
    assert_eq!(extract_file(&archive, "prog").unwrap(), b"first".to_vec());
    assert_eq!(extract_file(&archive, "readme").unwrap(), b"r".to_vec());
    assert!(matches!(extract_file(&archive, "zzz"), Err(ArchiveError::Missing)));
}

#[test]
fn what_is_no_archive_has_no_files() {
    assert!(extract_file(b"plain text", "prog").is_err());
}

#[test]
fn programs_come_out_of_archives_or_as_they_are() {
    let archive = tar_gz(&[("pkg/prog", b"binary")]);
    let m = manifest("https://example.org/p.tar.gz", None);
    assert_eq!(take_program(&m, archive.clone()).unwrap(), b"binary".to_vec());
    let m = manifest("https://example.org/p.tgz", None);
    assert_eq!(take_program(&m, archive.clone()).unwrap(), b"binary".to_vec());
    let m = manifest("https://example.org/prog", None);
    assert_eq!(take_program(&m, b"raw".to_vec()).unwrap(), b"raw".to_vec());
    let m = manifest("https://example.org/prog", Some(ABC));
    assert_eq!(take_program(&m, b"abc".to_vec()).unwrap(), b"abc".to_vec());
    let e = take_program(&m, b"abd".to_vec()).unwrap_err();
    assert!(matches!(e, AppError::Checksum(_, _)));
    let m = manifest("https://example.org/prog", Some(""));
    assert!(take_program(&m, b"abd".to_vec()).is_ok());
    let m = manifest("https://example.org/prog", Some(" "));
    assert!(take_program(&m, b"abd".to_vec()).is_err());
    let other = tar_gz(&[("x", b"y")]);
    let m = manifest("https://example.org/p.tar.gz", None);
    let e = take_program(&m, other).unwrap_err();
    assert_eq!(e.message(), "tar.gz 中找不到二进制文件 prog");
}

#[test]
fn installing_an_application() {
    let mut apps = AppManager::new(config());
    let m = manifest("https://github.com/o/prog", None);
    let (mut run, step) = apps.install(&m);
    match step {
        AppInstallStep::Prepare { dir, binary } => {
            assert_eq!(path(&dir), "/data/apps/app");
            assert_eq!(path(&binary), "/data/apps/app/prog");
        }
        _ => panic!("a directory is made"),
    }
    assert!(run.expects(&AppInstallEvent::Prepared(false)));
    assert!(!run.expects(&AppInstallEvent::BinaryWritten));
    match run.step(&mut apps, Some("https://m/"), AppInstallEvent::Prepared(false)) {
        AppInstallStep::Request(url) => assert_eq!(url, "https://m/https://github.com/o/prog"),
        _ => panic!("the program is asked for"),
    }
    let ok = AppInstallEvent::Answered(200, "200 OK".to_string());
    assert!(matches!(run.step(&mut apps, None, ok), AppInstallStep::Read));
    match run.step(&mut apps, None, AppInstallEvent::Body(b"raw".to_vec())) {
        AppInstallStep::WriteBinary { binary, data } => {
            assert_eq!(path(&binary), "/data/apps/app/prog");
            assert_eq!(data, b"raw".to_vec());
        }
        _ => panic!("the program is written"),
    }
    match run.step(&mut apps, None, AppInstallEvent::BinaryWritten) {
        AppInstallStep::WriteManifest(file) => assert_eq!(path(&file), "/data/apps/app/app.yml"),
        _ => panic!("the description is written"),
    }
    assert!(matches!(run.step(&mut apps, None, AppInstallEvent::ManifestWritten), AppInstallStep::Finished));
    assert!(run.error().is_none());
    assert_eq!(apps.installed_apps(), vec!["app"]);
    assert_eq!(apps.status("app", ProcessPoll::Failed), AppStatus::Stopped);
}

#[test]
fn an_application_is_listed_when_its_installation_is_done() {
    let mut apps = AppManager::new(config());
    let m = manifest("u", None);
    let (mut run, _) = apps.install(&m);
    run.step(&mut apps, None, AppInstallEvent::Prepared(true));
    assert!(apps.installed_apps().is_empty());
    assert_eq!(apps.status("app", ProcessPoll::Alive), AppStatus::NotInstalled);
    run.step(&mut apps, None, AppInstallEvent::ManifestWritten);
    assert_eq!(apps.installed_apps(), vec!["app"]);
    let (mut again, _) = apps.install(&m);
    again.step(&mut apps, None, AppInstallEvent::Prepared(true));
    again.step(&mut apps, None, AppInstallEvent::ManifestWritten);
    assert_eq!(apps.installed_apps(), vec!["app"]);
}

#[test]
fn a_program_that_is_there_is_kept() {
    let mut apps = AppManager::new(config());
    let m = manifest("u", None);
    let (mut run, _) = apps.install(&m);
    assert!(matches!(
        run.step(&mut apps, None, AppInstallEvent::Prepared(true)),
        AppInstallStep::WriteManifest(_)
    ));
}

fn failing(events: Vec<AppInstallEvent>) -> String {
    let mut apps = AppManager::new(config());
    let m = manifest("u", Some(ABC));
    let (mut run, _) = apps.install(&m);
    for e in events {
        assert!(run.expects(&e));
        run.step(&mut apps, None, e);
    }
    run.error().unwrap().message()
}

#[test]
fn installing_an_application_fails_where_its_steps_do() {
    let ok = || AppInstallEvent::Answered(200, "200 OK".to_string());
    let new = || AppInstallEvent::Prepared(false);
    assert_eq!(failing(vec![AppInstallEvent::IoFailed("io".to_string())]), "io");
    assert_eq!(
        failing(vec![new(), AppInstallEvent::RequestFailed("dns".to_string())]),
        "下载失败: dns"
    );
    assert_eq!(
        failing(vec![new(), AppInstallEvent::Answered(500, "500 Internal Server Error".to_string())]),
        "下载失败: HTTP 500 Internal Server Error"
    );
    assert_eq!(
        failing(vec![new(), ok(), AppInstallEvent::ReadFailed("cut".to_string())]),
        "读取下载内容失败: cut"
    );
    assert_eq!(
        failing(vec![new(), ok(), AppInstallEvent::Body(vec![])]),
        format!(
            "SHA256 校验失败: 期望={}, 实际=e3b0c44298fc1c149afbf4c8996fb92427ae41e4649b934ca495991b7852b855",
            ABC
        )
    );
    assert_eq!(
        failing(vec![
            new(),
            ok(),
            AppInstallEvent::Body(b"abc".to_vec()),
            AppInstallEvent::WriteFailed("full".to_string()),
        ]),
        "写入二进制失败: full"
    );
    assert_eq!(AppError::UnpackFailed("x".to_string()).message(), "解压失败: x");
}

#[test]
fn starting_an_application() {
    let apps = AppManager::new(config());
    let m = manifest("u", None);
    let e = apps.start(&m, false, "\"/data/apps/app/prog\"", "", "").unwrap_err();
    assert_eq!(e.message(), "二进制文件不存在: \"/data/apps/app/prog\"");
    let l = apps.start(&m, true, "", "{{app_data}}/w/{{app_data}}", "/D").unwrap();
    assert_eq!(path(&l.program), "/data/apps/app/prog");
    assert_eq!(l.args, vec!["--x", "1"]);
    assert_eq!(l.working_dir, "/D/w//D");
    let mut env = std::collections::BTreeMap::new();
    for v in l.env.iter() {
        match &v.value {
            EnvValue::Text(t) => env.insert(v.name.clone(), t.clone()),
            EnvValue::Dir(d) => env.insert(v.name.clone(), path(d)),
        };
    }
    assert_eq!(env["K"], "V");
    assert_eq!(env["PNOS_APP_ID"], "app");
    assert_eq!(env["PNOS_RUNTIME_URL"], "http://127.0.0.1:8080");
    assert_eq!(env["PNOS_DATA_DIR"], "/data");
    assert_eq!(env["PNOS_MEDIA_DIR"], "/media");
}

#[test]
fn applications_that_were_started() {
    let mut apps = AppManager::new(config());
    assert_eq!(apps.status("app", ProcessPoll::Alive), AppStatus::NotInstalled);
    let e = apps.started("app", Err("no".to_string())).unwrap_err();
    assert_eq!(e.message(), "启动失败: no");
    assert!(apps.started("b", Ok(5)).is_ok());
    assert!(apps.started("a", Ok(6)).is_ok());
    assert_eq!(apps.installed_apps(), vec!["a", "b"]);
    assert_eq!(apps.process_of("b"), Some(5));
    assert_eq!(apps.status("b", ProcessPoll::Alive), AppStatus::Running);
    assert_eq!(apps.status("b", ProcessPoll::Failed), AppStatus::Running);
    assert_eq!(apps.status("b", ProcessPoll::Exited), AppStatus::Stopped);
    assert_eq!(apps.stop("b"), Some(5));
    assert_eq!(apps.stop("b"), None);
    assert_eq!(apps.process_of("b"), None);
    assert_eq!(apps.status("b", ProcessPoll::Alive), AppStatus::Stopped);
    assert_eq!(apps.installed_apps(), vec!["a", "b"]);
}

#[test]
fn mirrors_for_downloads() {
    assert_eq!(download_mirror(None), Some("https://ghfast.top/".to_string()));
    assert_eq!(download_mirror(Some("  ")), None);
    assert_eq!(download_mirror(Some(" https://m/ ")), Some("https://m/".to_string()));
    let gh = "https://github.com/o/r";
    assert_eq!(apply_download_mirror(gh, None), "https://ghfast.top/https://github.com/o/r");
    assert_eq!(apply_download_mirror(gh, Some("")), gh);
    assert_eq!(apply_download_mirror(gh, Some("https://m/")), "https://m/https://github.com/o/r");
    assert_eq!(apply_download_mirror("https://x.org/", None), "https://x.org/");
    assert_eq!(apply_download_mirror("http://github.com/o", None), "http://github.com/o");
}

#[test]
fn settings_from_the_environment() {
    let c = config().with_environment(None, None, None);
    assert_eq!(c.port, 8080);
    assert_eq!(c.data_dir, "/data");
    assert_eq!(c.app_data_dir, "/data/apps");
    assert_eq!(
        c.default_store_url,
        "https://ghfast.top/https://raw.githubusercontent.com/PandaNetOS/pnos-store/main/index.json"
    );
    let c = config().with_environment(Some("81"), Some("/d"), Some("/m"));
    assert_eq!(c.port, 81);
    assert_eq!(c.data_dir, "/d");
    assert_eq!(c.media_dir, "/m");
    assert_eq!(c.app_data_dir, "/d/apps");
    assert_eq!(c.heartbeat_timeout, 30);
    assert_eq!(c.runtime_url(), "http://127.0.0.1:81");
    assert_eq!(config().with_environment(Some("65536"), None, None).port, 8080);
    assert_eq!(config().with_environment(Some("x"), None, None).port, 8080);
    assert_eq!(log_level(None), "info");
    assert_eq!(log_level(Some("debug")), "debug");
}

fn store() -> StoreService {
    StoreService::new("https://s.org/main/index.json".to_string())
}

#[test]
fn a_catalogue_lists_what_is_to_be_fetched() {
    let s = store();
    let body = br#"{"apps":[{"id":"a","app_yml":"a/app.yml"},{"id":"b"},{"app_yml":"c"},
        {"id":7,"app_yml":"d"},{"id":"e","app_yml":"e.yml"}]}"#;
    let entries = s.refresh_source(body).unwrap();
    assert_eq!(entries.len(), 2);
    assert_eq!(entries[0].id, "a");
    assert_eq!(entries[0].url, "https://s.org/main/a/app.yml");
    assert_eq!(entries[1].id, "e");
    assert_eq!(entries[1].url, "https://s.org/main/e.yml");
}

#[test]
fn a_catalogue_without_a_list_is_empty() {
    let s = store();
    assert!(s.refresh_source(b"{}").unwrap().is_empty());
    assert!(s.refresh_source(b"[1]").unwrap().is_empty());
    assert!(s.refresh_source(br#"{"apps":3}"#).unwrap().is_empty());
    let e = s.refresh_source(b"{").unwrap_err();
    assert!(matches!(e, StoreError::Parse(_)));
    assert_eq!(e.message(), "解析失败: error decoding response body");
}

#[test]
fn entries_need_both_parts() {
    let some = |s: &str| Some(s.to_string());
    let items = vec![(some("a"), some("p")), (None, some("q")), (some("c"), None)];
    let entries = list_entries("http://h/index.jsonindex.json", Some(items));
    assert_eq!(entries.len(), 1);
    assert_eq!(entries[0].url, "http://h/p");
    assert!(list_entries("x", None).is_empty());
}

#[test]
fn a_refresh_replaces_the_catalogue() {
    let mut s = store();
    assert_eq!(s.refresh_url(), "https://s.org/main/index.json");
    let mut second = manifest("second", None);
    second.document = "doc".to_string();
    let n = s.refreshed(vec![
        ("b".to_string(), Some(manifest("first", None))),
        ("a".to_string(), None),
        ("b".to_string(), Some(second)),
        ("c".to_string(), Some(manifest("third", None))),
        ("c".to_string(), None),
    ]);
    assert_eq!(n, 2);
    assert_eq!(s.get_app_manifest("b").unwrap().download_url, "second");
    assert_eq!(s.get_app_manifest("c").unwrap().download_url, "third");
    assert!(s.get_app_manifest("a").is_none());
    assert_eq!(s.get_app("b"), Some("doc"));
    assert_eq!(s.get_app("a"), None);
    let urls: Vec<String> = s.list_apps().iter().map(|m| m.download_url.clone()).collect();
    assert_eq!(urls, vec!["second", "third"]);
    assert_eq!(s.refreshed(vec![]), 0);
    assert!(s.list_apps().is_empty());
}

#[test]
fn the_store_has_one_source() {
    let sources = store().list_sources();
    assert_eq!(sources.len(), 1);
    assert_eq!(sources[0].id, "default");
    assert_eq!(sources[0].name, "pnos 官方商店");
    assert_eq!(sources[0].url, "https://s.org/main/index.json");
    assert!(sources[0].enabled);
    assert!(StoreService::refresh_answered(204, "").is_ok());
    let e = StoreService::refresh_answered(404, "404 Not Found").unwrap_err();
    assert_eq!(e.message(), "HTTP 404 Not Found");
    assert_eq!(StoreError::Request("dns".to_string()).message(), "请求失败: dns");
}
