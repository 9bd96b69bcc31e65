use dweb_cli::entries::{
    pointer_indicator, resolve_entries_range, str_to_entries_range, EntriesRange,
    EntriesRangeError, HealAction, HealReport, HealWalk,
};
use dweb_cli::links::{
    dweb_link_leading_segment, dweb_open_url, leading_segment, parse_dweb_link_params,
    parse_version_string, parse_versioned_path_params, parse_versioned_path_params_with_as_name,
    second_segment,
    redirect_path, should_register_as_name, AS_NAME_NONE,
};

fn s(t: &str) -> String {
    t.to_string()
}

#[test]
fn version_strings() {
    assert_eq!(parse_version_string("v").ok(), Some(None));
    assert_eq!(parse_version_string("V").ok(), Some(None));
    assert_eq!(parse_version_string("v12").ok(), Some(Some(12)));
    assert_eq!(parse_version_string("v+7").ok(), Some(Some(7)));
    assert!(parse_version_string("v-1").is_err());
    assert!(parse_version_string("12").is_err());
    assert!(parse_version_string("").is_err());
    assert!(parse_version_string("v4294967296").is_err());
    assert_eq!(parse_version_string("v4294967295").ok(), Some(Some(4294967295)));
    match parse_version_string("x3") {
        Err(e) => assert_eq!(e.text, "x3"),
        Ok(_) => panic!("x3 is no version"),
    }
}

#[test]
fn versioned_path_params() {
    let r = parse_versioned_path_params(&s("v3/awesome/blog/index.html")).ok().unwrap();
    assert_eq!(r, (Some(3), s(AS_NAME_NONE), s("awesome"), s("blog/index.html")));
    let r = parse_versioned_path_params(&s("awesome/index.html")).ok().unwrap();
    assert_eq!(r, (None, s("anonymous"), s("awesome"), s("index.html")));
    let r = parse_versioned_path_params(&s("v/awesome")).ok().unwrap();
    assert_eq!(r, (None, s("anonymous"), s("awesome"), s("")));
    let r = parse_versioned_path_params(&s("awesome")).ok().unwrap();
    assert_eq!(r, (None, s("anonymous"), s("awesome"), s("")));
    assert_eq!(leading_segment(&s("v3/awesome")), "v3");
    assert_eq!(leading_segment(&s("awesome")), "awesome");
}

#[test]
fn versioned_path_params_with_as_name() {
    let r = parse_versioned_path_params_with_as_name(&s("v2/friends/abc/x.html"), false, true)
        .ok()
        .unwrap();
    assert_eq!(r, (Some(2), s("friends"), s("abc"), s("x.html")));
    let r = parse_versioned_path_params_with_as_name(&s("friends/abc/x.html"), true, false)
        .ok()
        .unwrap();
    assert_eq!(r, (None, s("friends"), s("abc"), s("x.html")));
    let r = parse_versioned_path_params_with_as_name(&s("v1/anonymous/8650c4"), false, false)
        .ok()
        .unwrap();
    assert_eq!(r, (Some(1), s("anonymous"), s("8650c4"), s("")));
    match parse_versioned_path_params_with_as_name(&s("Not A Name/abc"), false, false) {
        Err(e) => assert_eq!(e.text, "Not A Name/abc"),
        Ok(_) => panic!("an invalid name is refused"),
    }
    match parse_versioned_path_params_with_as_name(&s("v1/!!/8650c4"), false, false) {
        Err(e) => assert_eq!(e.text, "v1/!!/8650c4"),
        Ok(_) => panic!("an invalid as_name is refused"),
    }
    assert_eq!(second_segment(&s("v1/!!/8650c4")), "!!");
    assert_eq!(second_segment(&s("v1")), "");
}

#[test]
fn dweb_link_params() {
    let r = parse_dweb_link_params(&s("v5/abc/page.html"), false).ok().unwrap();
    assert_eq!(r, (Some(5), s("abc"), s("page.html")));
    let r = parse_dweb_link_params(&s("awesome/page.html"), true).ok().unwrap();
    assert_eq!(r, (None, s("awesome"), s("page.html")));
    let r = parse_dweb_link_params(&s("abc/page.html"), false).ok().unwrap();
    assert_eq!(r, (None, s("abc"), s("page.html")));
    let r = parse_dweb_link_params(&s("v2/awesome"), false).ok().unwrap();
    assert_eq!(r, (Some(2), s("awesome"), s("")));
    let r = parse_dweb_link_params(&s("awesome"), true).ok().unwrap();
    assert_eq!(r, (None, s("awesome"), s("")));
    match parse_dweb_link_params(&s("v2"), false) {
        Err(e) => assert_eq!(e.text, "v2"),
        Ok(_) => panic!("no address is refused"),
    }
    assert!(parse_dweb_link_params(&s(""), false).is_err());
    assert_eq!(dweb_link_leading_segment(&s("abc")), "abc");
    assert_eq!(dweb_link_leading_segment(&s("abc/d")), "abc");
}

#[test]
fn open_urls() {
    let u = dweb_open_url(&s("awesome"), None, None, None, s("127.0.0.1"), 5537);
    assert_eq!(u, "http://127.0.0.1:5537/dweb-open/v/awesome");
    let u = dweb_open_url(&s("awesome"), Some(4), None, Some(s("blog")), s("localhost"), 80);
    assert_eq!(u, "http://localhost:80/dweb-open/v4/awesome/blog");
    let u = dweb_open_url(&s("abc"), Some(1), Some(s("mine")), Some(s("/a.html")), s("h"), 8080);
    assert_eq!(u, "http://h:8080/dweb-open-as/v1/mine/abc/a.html");
}

#[test]
fn open_url_parses_back() {
    let u = dweb_open_url(&s("abc"), Some(9), None, Some(s("x/y.html")), s("h"), 1);
    let params = u.strip_prefix("http://h:1/dweb-open/").unwrap().to_string();
    let r = parse_versioned_path_params(&params).ok().unwrap();
    assert_eq!(r, (Some(9), s("anonymous"), s("abc"), s("x/y.html")));
    assert_eq!(redirect_path(&r.3), Some(s("/x/y.html")));
}

#[test]
fn redirect_paths_and_names() {
    assert_eq!(redirect_path(&s("")), None);
    assert_eq!(redirect_path(&s("a/b")), Some(s("/a/b")));
    assert!(should_register_as_name(&s("mine")));
    assert!(!should_register_as_name(&s("anonymous")));
    assert!(!should_register_as_name(&s("")));
}

#[test]
fn entries_ranges() {
    let r = str_to_entries_range("3:7").unwrap();
    assert_eq!((r.start, r.end), (Some(3), Some(7)));
    let r = str_to_entries_range("5").unwrap();
    assert_eq!((r.start, r.end), (Some(5), Some(5)));
    let r = str_to_entries_range("5:").unwrap();
    assert_eq!((r.start, r.end), (Some(5), None));
    let r = str_to_entries_range(":9").unwrap();
    assert_eq!((r.start, r.end), (None, Some(9)));
    let r = str_to_entries_range("").unwrap();
    assert_eq!((r.start, r.end), (None, None));
    assert_eq!(str_to_entries_range("a:b").unwrap_err(), EntriesRangeError::InvalidRange);
    assert_eq!(str_to_entries_range("1::2").unwrap_err(), EntriesRangeError::InvalidRange);
    assert_eq!(
        str_to_entries_range("99999999999999999999:1").unwrap_err(),
        EntriesRangeError::InvalidStart
    );
    assert_eq!(
        str_to_entries_range("1:99999999999999999999").unwrap_err(),
        EntriesRangeError::InvalidEnd
    );
    assert_eq!(str_to_entries_range("7:3").unwrap_err(), EntriesRangeError::EndBeforeStart);
    // digits of other scripts match the pattern but are not numbers
    assert_eq!(str_to_entries_range("\u{663}").unwrap_err(), EntriesRangeError::InvalidStart);
    assert_eq!(str_to_entries_range("1:\u{96a}").unwrap_err(), EntriesRangeError::InvalidEnd);
    assert_eq!(str_to_entries_range(":\u{ff19}").unwrap_err(), EntriesRangeError::InvalidEnd);
    assert_eq!(str_to_entries_range("\u{1d7ce}:2").unwrap_err(), EntriesRangeError::InvalidStart);
    assert_eq!(str_to_entries_range("\u{665}x").unwrap_err(), EntriesRangeError::InvalidRange);
    assert_eq!(str_to_entries_range("\u{2155}").unwrap_err(), EntriesRangeError::InvalidRange);
    assert_eq!(EntriesRangeError::EndBeforeStart.message(), "end cannot be less than start");
    assert_eq!(EntriesRangeError::InvalidRange.message(), "invalid range");
    assert_eq!(EntriesRangeError::InvalidStart.message(), "invalid start value");
    assert_eq!(EntriesRangeError::InvalidEnd.message(), "invalid end value");
}

#[test]
fn entries_ranges_resolved() {
    let open = EntriesRange { start: None, end: None };
    assert_eq!(resolve_entries_range(&open, 10), Ok((0, 9)));
    let r = EntriesRange { start: Some(2), end: Some(4) };
    assert_eq!(resolve_entries_range(&r, 10), Ok((2, 4)));
    let r = EntriesRange { start: Some(2), end: Some(10) };
    assert_eq!(resolve_entries_range(&r, 10), Err(9));
}

#[test]
fn pointer_indicators() {
    assert_eq!(pointer_indicator(3, 3), "P>");
    assert_eq!(pointer_indicator(2, 3), "  ");
}

#[test]
fn heal_walk_heals_a_pointer_behind() {
    let mut w = HealWalk::new(0, 2);
    assert_eq!(w.on_entry(0), HealAction::NextEntry);
    assert_eq!(w.on_entry(0), HealAction::HealPointer);
    assert_eq!(w.on_heal_result(true), HealAction::NextEntry);
    assert_eq!(w.on_entry(1), HealAction::HealPointer);
    assert_eq!(w.on_heal_result(true), HealAction::Finish);
    assert_eq!(w.report(), HealReport::Healed { steps_behind: 2, still_behind: 0 });
}

#[test]
fn heal_walk_without_changes_and_stopping() {
    let mut w = HealWalk::new(0, 1);
    assert_eq!(w.on_entry(5), HealAction::NextEntry);
    assert_eq!(w.on_entry(5), HealAction::Finish);
    assert_eq!(w.report(), HealReport::NoChanges);
    let mut w = HealWalk::new(0, 1);
    assert_eq!(w.on_entry(0), HealAction::NextEntry);
    assert_eq!(w.on_entry(0), HealAction::HealPointer);
    assert_eq!(w.on_heal_result(false), HealAction::Stop);
}

#[test]
fn open_as_url_parses_back() {
    let u = dweb_open_url(&s("abc"), None, Some(s("mine")), Some(s("/p.html")), s("h"), 2);
    let params = u.strip_prefix("http://h:2/dweb-open-as/").unwrap().to_string();
    for first_is_name in [false, true] {
        let r = parse_versioned_path_params_with_as_name(&params, first_is_name, true).ok().unwrap();
        assert_eq!(r, (None, s("mine"), s("abc"), s("p.html")));
    }
}

#[test]
fn dweb_version_path_opens_the_version() {
    use_version_path(Some(6), "6");
    use_version_path(None, "latest");
}

fn use_version_path(expected: Option<u32>, argument: &str) {
    let history = [0x12u8, 0xab];
    let path = dweb_cli::hosts::dweb_version_path(argument, true, Some(&history[..])).unwrap();
    let params = path.strip_prefix("/dweb-open/").unwrap().to_string();
    let r = parse_versioned_path_params(&params).ok().unwrap();
    assert_eq!(r, (expected, s("anonymous"), s("12ab"), s("")));
}
