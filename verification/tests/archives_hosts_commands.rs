use dweb_cli::archive::{
    strip_containing_directory, ArchiveConversionError, ArchiveFile, DwebArchive,
    DwebArchiveEntry, DwebArchiveEntryType, DwebHistoryReference,
};
use dweb_cli::commands::{
    directory_stats, display_data_address, greater_than_0, worker_count, main_server_address, network_kind,
    publish_update_name, shorten_hex, FilesArgs, NetworkKind, ServerDefaults,
};
use dweb_cli::hosts::{
    classify_debug_host, dweb_version_path, host_name, is_service_host, lookup_failure_status,
    port_www_step, split_terminator, versioned_host, www_step, DebugHost, DwebVersionError,
    PortWwwStep, WwwStep,
};
use dweb_cli::objects::DwebType;
use dweb_cli::open::{DwebOpen, OpenAction, OpenStage};

fn file(path: &str, address: Option<&str>, datamap: Option<&str>) -> ArchiveFile {
    ArchiveFile {
        web_path: path.to_string(),
        data_address: address.map(|a| a.to_string()),
        datamap: datamap.map(|d| d.to_string()),
        created: "2025-01-01T00:00:00Z".to_string(),
        modified: "2025-01-02T00:00:00Z".to_string(),
        size: 10,
        extra: None,
    }
}

fn summary(a: &DwebArchive) -> Vec<(bool, String)> {
    a.entries
        .iter()
        .map(|e| (matches!(e.dweb_type, DwebArchiveEntryType::File), e.full_path.clone()))
        .collect()
}

#[test]
fn archive_from_files() {
    let addr = "22".repeat(32);
    let files = vec![
        file("/index.html", Some(&addr), None),
        file("/blog/a.html", Some(&addr), None),
        file("/blog/b.html", Some(&addr), None),
        file("/index.html", Some(&addr), None),
        file("no-separator", Some(&addr), None),
    ];
    let a = DwebArchive::from_archive_files(&files);
    assert_eq!(
        summary(&a),
        vec![
            (false, "/".to_string()),
            (true, "/index.html".to_string()),
            (false, "/blog/".to_string()),
            (true, "/blog/a.html".to_string()),
            (true, "/blog/b.html".to_string()),
        ]
    );
    assert!(a.history_metadata.is_none());
    assert_eq!(a.entries[1].data_address, addr);
    assert_eq!(a.entries[1].datamap, "");
    assert_eq!(a.entries[1].size, 10);
    let empty = DwebArchive::from_dual_archive(DwebType::Pointer, &files);
    assert!(empty.entries.is_empty());
    let same = DwebArchive::from_dual_archive(DwebType::PrivateArchive, &files);
    assert_eq!(summary(&same), summary(&a));
}

#[test]
fn archive_round_trip() {
    let addr = "22".repeat(32);
    let files = vec![file("/index.html", Some(&addr), None), file("/img/x.png", Some(&addr), None)];
    let a = DwebArchive::from_archive_files(&files);
    let records = a.to_public_archive().unwrap();
    assert_eq!(records.len(), 2);
    assert_eq!(records[0].path, "/index.html");
    assert_eq!(records[1].path, "/img/x.png");
    assert_eq!(records[1].content, vec![0x22; 32]);
    assert_eq!(records[1].extra, None);
    assert_eq!(records[1].created, "2025-01-01T00:00:00Z");
}

#[test]
fn archive_entries_survive_storing() {
    let a1 = "ab".repeat(32);
    let a2 = "0c".repeat(32);
    let mut extra_file = file("/img/x.png", Some(&a2), None);
    extra_file.extra = Some("{\"k\":1}".to_string());
    extra_file.size = 77;
    let stored = DwebArchive::from_archive_files(&vec![file("/z.html", Some(&a1), None), extra_file]);
    let records = stored.to_public_archive().unwrap();
    // the stored archive is read back in the order of its paths
    let mut read_back: Vec<ArchiveFile> = records
        .iter()
        .map(|r| ArchiveFile {
            web_path: r.path.clone(),
            data_address: Some(hex::encode(&r.content)),
            datamap: None,
            created: r.created.clone(),
            modified: r.modified.clone(),
            size: r.size,
            extra: r.extra.clone(),
        })
        .collect();
    read_back.sort_by(|x, y| x.web_path.cmp(&y.web_path));
    let again = DwebArchive::from_archive_files(&read_back);
    let keys = |a: &DwebArchive| {
        let mut k: Vec<(String, String, u64, String)> = a
            .entries
            .iter()
            .filter(|e| matches!(e.dweb_type, DwebArchiveEntryType::File))
            .map(|e| (e.full_path.clone(), e.data_address.clone(), e.size, e.extra.clone()))
            .collect();
        k.sort();
        k
    };
    assert_eq!(keys(&again), keys(&stored));
    assert_eq!(keys(&again).len(), 2);
}

#[test]
fn archive_conversion_errors() {
    let files = vec![file("/a", Some("beef"), Some("zz"))];
    let a = DwebArchive::from_archive_files(&files);
    match a.to_public_archive() {
        Err(e) => assert_eq!(e.message(), "entry has invalid data address: beef"),
        Ok(_) => panic!("a short address is refused"),
    }
    match a.to_private_archive() {
        Err(ArchiveConversionError::InvalidDatamap { datamap, .. }) => assert_eq!(datamap, "zz"),
        other => panic!("unexpected {other:?}"),
    }
    let files = vec![file("/a", None, Some("00ff"))];
    let records = DwebArchive::from_archive_files(&files).to_private_archive().unwrap();
    assert_eq!(records[0].content, vec![0x00, 0xff]);
    let e = ArchiveConversionError::InvalidDatamap { datamap: "q".to_string(), reason: "r".to_string() };
    assert_eq!(e.message(), "entry has invalid datamap: q, r");
}

#[test]
fn archive_entries_and_paths() {
    let d = DwebArchiveEntry::new_directory("/x/".to_string());
    assert!(matches!(d.dweb_type, DwebArchiveEntryType::Directory));
    assert_eq!((d.size, d.created.as_str()), (0, ""));
    let f = DwebArchiveEntry::new_file_from_hex(
        "/x/y".to_string(),
        "aa".to_string(),
        "bb".to_string(),
        "c".to_string(),
        "m".to_string(),
        5,
        Some("{}".to_string()),
    );
    assert_eq!((f.data_address.as_str(), f.datamap.as_str(), f.extra.as_str()), ("aa", "bb", "{}"));
    assert_eq!(strip_containing_directory("site/index.html"), "/index.html");
    assert_eq!(strip_containing_directory("index.html"), "");
    let h = DwebHistoryReference::from_history("ab".to_string(), None, 4);
    assert_eq!((h.version, h.history_size), (0, 3));
    let h = DwebHistoryReference::from_history("ab".to_string(), Some(2), 4);
    assert_eq!(h.version, 2);
    assert!(DwebArchive::new().entries.is_empty());
}

#[test]
fn hosts() {
    assert_eq!(host_name(Some(&b"site.www-dweb.au:8080"[..])), Some("site.www-dweb.au".to_string()));
    assert_eq!(host_name(Some(&b"localhost"[..])), Some("localhost".to_string()));
    assert_eq!(host_name(None), None);
    assert_eq!(host_name(Some(&[0xffu8][..])), None);
    assert!(is_service_host(Some(&b"v2.site.www-dweb.au:80"[..]), "www-dweb.au"));
    assert!(!is_service_host(Some(&b"www-dweb.au"[..]), "www-dweb.au"));
    assert!(!is_service_host(None, "www-dweb.au"));
    assert_eq!(versioned_host(12, "site", "www-dweb.au"), "v12.site.www-dweb.au");
    assert_eq!(lookup_failure_status(404), 404);
    assert_eq!(lookup_failure_status(7), 500);
}

#[test]
fn www_steps() {
    assert_eq!(
        www_step(3, None, "site", "www-dweb.au", "a/b.html"),
        WwwStep::Redirect { host: "v3.site.www-dweb.au".to_string(), path: "a/b.html".to_string() }
    );
    assert_eq!(
        www_step(3, Some(2), "site", "www-dweb.au", "a/b.html"),
        WwwStep::Lookup { resource: "/a/b.html".to_string() }
    );
    assert_eq!(www_step(0, None, "site", "s", ""), WwwStep::Lookup { resource: "/".to_string() });
    assert_eq!(port_www_step(true, true), PortWwwStep::NotAnApi);
    assert_eq!(port_www_step(false, false), PortWwwStep::NoDirectoryVersion);
    assert_eq!(port_www_step(false, true), PortWwwStep::Lookup);
}

#[test]
fn debug_hosts() {
    let parts = split_terminator(&['a', '.', '.', 'b', '.'], '.');
    assert_eq!(parts, vec![vec!['a'], vec![], vec!['b']]);
    assert!(split_terminator(&[], '.').is_empty());
    assert_eq!(
        classify_debug_host("dir.www-dweb.au"),
        DebugHost::Fixed { directory: "dir".to_string() }
    );
    assert_eq!(
        classify_debug_host(&versioned_host(7, "hist", "www-dweb.au")),
        DebugHost::Versioned { version: Some(7), history: "hist".to_string() }
    );
    assert_eq!(
        classify_debug_host("x.hist.www-dweb.au"),
        DebugHost::Versioned { version: None, history: "hist".to_string() }
    );
    assert_eq!(classify_debug_host("www-dweb.au"), DebugHost::Invalid);
}

#[test]
fn dweb_version_paths() {
    assert_eq!(
        dweb_version_path("latest", true, Some(&[0xabu8, 0xcd][..])),
        Ok("/dweb-open/v/abcd".to_string())
    );
    assert_eq!(dweb_version_path("3", true, Some(&[0x01u8][..])), Ok("/dweb-open/v3/01".to_string()));
    assert_eq!(dweb_version_path("3", true, None), Err(DwebVersionError::NotAHistory));
    assert_eq!(dweb_version_path("3", false, None), Err(DwebVersionError::NoDirectoryVersion));
    assert_eq!(
        DwebVersionError::NotAHistory.message(),
        "You cannot select a version as this is a directory not a History"
    );
}

#[test]
fn open_requests() {
    let mut o = DwebOpen::new("mine".to_string(), "page.html".to_string());
    assert_eq!(o.on_resolved(true), OpenAction::LookupDirectoryVersion);
    assert_eq!(o.on_lookup(true, false, true), OpenAction::SpawnServer);
    assert_eq!(o.on_spawned(true), OpenAction::RegisterName);
    assert_eq!(o.on_registered(), OpenAction::Redirect { path: Some("/page.html".to_string()) });
    assert_eq!(o.stage, OpenStage::Done);

    let mut o = DwebOpen::new("anonymous".to_string(), String::new());
    assert_eq!(o.on_resolved(true), OpenAction::LookupDirectoryVersion);
    assert_eq!(o.on_lookup(true, false, true), OpenAction::SpawnServer);
    assert_eq!(o.on_spawned(true), OpenAction::Redirect { path: None });

    let mut o = DwebOpen::new(String::new(), "x".to_string());
    assert_eq!(o.on_resolved(true), OpenAction::LookupDirectoryVersion);
    assert_eq!(o.on_lookup(true, true, false), OpenAction::Redirect { path: Some("/x".to_string()) });

    let mut o = DwebOpen::new(String::new(), String::new());
    assert_eq!(o.on_resolved(false), OpenAction::RefuseUnrecognised);
    let mut o = DwebOpen::new(String::new(), String::new());
    o.on_resolved(true);
    assert_eq!(o.on_lookup(false, false, false), OpenAction::FailBadGateway);
    let mut o = DwebOpen::new("mine".to_string(), String::new());
    o.on_resolved(true);
    o.on_lookup(true, false, false);
    assert_eq!(o.on_spawned(false), OpenAction::FailBadGateway);
}

#[test]
fn command_line_checks() {
    assert_eq!(greater_than_0("5"), Ok(5));
    assert_eq!(greater_than_0("0"), Err("Number must be greater than zero".to_string()));
    assert_eq!(greater_than_0("x"), Err("invalid digit found in string".to_string()));
    assert_eq!(greater_than_0(""), Err("cannot parse integer from empty string".to_string()));
    for t in ["+", "-1", "+12", "12a", "99999999999999999999", "99999999999999999999x", "1x99999999999999999999", "18446744073709551615", "18446744073709551616", "0"] {
        match t.parse::<u64>() {
            Ok(v) if v >= 1 => assert_eq!(greater_than_0(t), Ok(v)),
            Ok(_) => assert!(greater_than_0(t).is_err()),
            Err(e) => assert_eq!(greater_than_0(t), Err(e.to_string())),
        }
    }
    let f = FilesArgs::default();
    assert!(f.print_paths && !f.print_all_details);
    let d = ServerDefaults {
        localhost: "127.0.0.1".to_string(),
        ports_main_port: 5537,
        api_host: "api-dweb.au".to_string(),
        hosts_main_port: 8080,
    };
    assert_eq!(main_server_address(false, None, None, &d), ("127.0.0.1".to_string(), 5537));
    assert_eq!(main_server_address(true, None, None, &d), ("api-dweb.au".to_string(), 8080));
    assert_eq!(main_server_address(true, Some("h".to_string()), Some(1), &d), ("h".to_string(), 1));
    assert_eq!(publish_update_name(None, Some("site".to_string())), Some("site".to_string()));
    assert_eq!(publish_update_name(Some("n".to_string()), Some("site".to_string())), Some("n".to_string()));
    assert_eq!(publish_update_name(None, None), None);
    assert_eq!(network_kind(true, true), NetworkKind::Local);
    assert_eq!(network_kind(false, true), NetworkKind::Alpha);
    assert_eq!(network_kind(false, false), NetworkKind::Public);
}

#[test]
fn inspect_summaries() {
    assert_eq!(shorten_hex("0123456789"), "012345..");
    assert_eq!(shorten_hex("abc"), "abc..");
    assert_eq!(shorten_hex("abc"), format!("{:.6}..", "abc"));
    assert_eq!(display_data_address(""), "[private]");
    assert_eq!(display_data_address("ab"), "ab");
    assert_eq!(directory_stats(&vec![vec![1, 2], vec![], vec![10]]), (3, 13));
    assert_eq!(directory_stats(&vec![]), (0, 0));
}

#[test]
fn versioned_host_passes_the_guard() {
    let host = versioned_host(31, "site", "www-dweb.au");
    assert!(is_service_host(Some(host.as_bytes()), "www-dweb.au"));
    assert_eq!(host_name(Some(host.as_bytes())), Some(host.clone()));
}

#[test]
fn server_workers() {
    assert_eq!(worker_count(None), 12);
    assert_eq!(worker_count(Some("24")), 24);
    assert_eq!(worker_count(Some("+3")), 3);
    assert_eq!(worker_count(Some("0")), 12);
    assert_eq!(worker_count(Some("many")), 12);
    assert_eq!(worker_count(Some("")), 12);
}
