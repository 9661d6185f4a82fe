use proof_reader::dispatch::{ReaderConfig, check_file, requires_document};
use proof_reader::dom::{Attr, Doc, Elem};
use proof_reader::error::CheckError;
use proof_reader::exclude::glob_match;
use proof_reader::report::{count_failures, failure_messages, run_failed};
use proof_reader::scan::{disables_zoom, extract_iso_date, extract_tag_name_from_url,
    is_positive_number};

#[test]
fn test_extract_iso_date_takes_first_match() {
    assert_eq!(extract_iso_date("Published: 2021-04-13"), Some("2021-04-13".to_string()));
    assert_eq!(
        extract_iso_date("between 2021-01-01 and 0000-01-01"),
        Some("2021-01-01".to_string())
    );
    assert_eq!(extract_iso_date("12345-67-89"), Some("2345-67-89".to_string()));
    assert_eq!(extract_iso_date("no date at all"), None);
    assert_eq!(extract_iso_date(""), None);
}

#[test]
fn test_extract_tag_name_takes_first_slug() {
    assert_eq!(extract_tag_name_from_url("/tags/wip"), Some("wip".to_string()));
    assert_eq!(extract_tag_name_from_url("/tags/testing"), Some("testing".to_string()));
    assert_eq!(extract_tag_name_from_url("xtags/abc/tags/wip"), Some("abc".to_string()));
    assert_eq!(extract_tag_name_from_url("/tags//tags/wip"), Some("wip".to_string()));
    assert_eq!(extract_tag_name_from_url("/tags/a-b-9 rest"), Some("a-b-9".to_string()));
    assert_eq!(extract_tag_name_from_url("/posts/wip"), None);
    assert_eq!(extract_tag_name_from_url(""), None);
}

#[test]
fn test_disables_zoom_directive() {
    assert!(disables_zoom("width=device-width, user-scalable=no"));
    assert!(disables_zoom("user-scalable = 0"));
    assert!(disables_zoom("user-scalable =\tno"));
    assert!(!disables_zoom("user-scalable=yes"));
    assert!(!disables_zoom("scalable=no"));
    assert!(!disables_zoom(""));
}

#[test]
fn test_positive_number_recognition() {
    assert!(is_positive_number("24"));
    assert!(is_positive_number("+7"));
    assert!(is_positive_number("007"));
    assert!(!is_positive_number("0"));
    assert!(!is_positive_number("-3"));
    assert!(!is_positive_number("-0"));
    assert!(!is_positive_number("later"));
    assert!(!is_positive_number("+"));
    assert!(!is_positive_number(""));
}

#[test]
fn test_glob_matching() {
    assert!(glob_match("*", "anything/at/all"));
    assert!(glob_match("drafts/*", "drafts/a.html"));
    assert!(glob_match("*.html", "public/index.html"));
    assert!(glob_match("a?c", "abc"));
    assert!(!glob_match("drafts/*", "public/a.html"));
    assert!(!glob_match("a?c", "ac"));
    assert!(glob_match("", ""));
    assert!(!glob_match("", "x"));
}

fn tiny_passing_doc() -> Doc {
    // <html lang="en"><head><title>t</title></head>
    // <body><div class="date">2021-04-13</div></body></html>
    let html = Elem {
        tag: "html".to_string(),
        attrs: vec![Attr { name: "lang".to_string(), value: "en".to_string() }],
        classes: vec![],
        parent: None,
        text: "t2021-04-13".to_string(),
        markup: "".to_string(),
    };
    let head = Elem {
        tag: "head".to_string(),
        attrs: vec![],
        classes: vec![],
        parent: Some(0),
        text: "t".to_string(),
        markup: "".to_string(),
    };
    let title = Elem {
        tag: "title".to_string(),
        attrs: vec![],
        classes: vec![],
        parent: Some(1),
        text: "t".to_string(),
        markup: "<title>t</title>".to_string(),
    };
    let body = Elem {
        tag: "body".to_string(),
        attrs: vec![],
        classes: vec![],
        parent: Some(0),
        text: "2021-04-13".to_string(),
        markup: "".to_string(),
    };
    let date = Elem {
        tag: "div".to_string(),
        attrs: vec![Attr { name: "class".to_string(), value: "date".to_string() }],
        classes: vec!["date".to_string()],
        parent: Some(3),
        text: "2021-04-13".to_string(),
        markup: "<div class=\"date\">2021-04-13</div>".to_string(),
    };
    let doc = Doc { elems: vec![html, head, title, body, date] };
    assert!(doc.check_wf());
    doc
}

#[test]
fn test_headless_document_fails_title_rule() {
    let lone = Elem {
        tag: "html".to_string(),
        attrs: vec![],
        classes: vec![],
        parent: None,
        text: "".to_string(),
        markup: "".to_string(),
    };
    let doc = Doc { elems: vec![lone] };
    assert!(doc.check_wf());

    let res = proof_reader::rules::check_page_has_title("page.html", &doc);

    let expected_err = Err(CheckError::AccessibilityError {
        path: "page.html".to_string(),
        offender: "".to_string(),
        description: "Page is missing a title tag".to_string(),
    });

    assert_eq!(res, expected_err);
}

#[test]
fn test_dispatch_ignores_other_extensions() {
    let conf = ReaderConfig::default();
    let cause = "unreadable".to_string();

    assert!(!requires_document("notes/readme.md", &conf));
    assert_eq!(check_file("notes/readme.md", &conf, Err(&cause)), Ok(()));
    assert_eq!(check_file("styles.css", &conf, Err(&cause)), Ok(()));
    assert_eq!(check_file("Makefile", &conf, Err(&cause)), Ok(()));
}

#[test]
fn test_dispatch_checks_html_files() {
    let conf = ReaderConfig::default();
    let doc = tiny_passing_doc();

    assert!(requires_document("public/index.html", &conf));
    assert_eq!(check_file("public/index.html", &conf, Ok(&doc)), Ok(()));
}

#[test]
fn test_dispatch_reports_read_failures() {
    let conf = ReaderConfig::default();
    let cause = "permission denied".to_string();

    let res = check_file("public/index.html", &conf, Err(&cause));

    assert_eq!(res, Err(CheckError::Io { cause: "permission denied".to_string() }));
    match res {
        Err(e) => assert_eq!(e.message(), "permission denied"),
        Ok(()) => unreachable!(),
    }
}

#[test]
fn test_dispatch_forbidden_before_io() {
    let conf = ReaderConfig::default();
    let cause = "permission denied".to_string();

    let res = check_file("unpublished/a.html", &conf, Err(&cause));

    assert_eq!(
        res,
        Err(CheckError::ForbiddenFile { path: "unpublished/a.html".to_string() })
    );
}

#[test]
fn test_excluded_paths_pass() {
    let conf = ReaderConfig {
        root_dir: "./public".to_string(),
        exclude: Some("drafts/*".to_string()),
    };
    let cause = "unreadable".to_string();

    assert!(!requires_document("drafts/unpublished/a.html", &conf));
    assert_eq!(check_file("drafts/unpublished/a.html", &conf, Err(&cause)), Ok(()));
    assert!(requires_document("public/a.html", &conf));
}

#[test]
fn test_config_from_text() {
    let conf = ReaderConfig::from_text("site/out\nother: ignored\n", None);
    assert_eq!(conf.root_dir, "site/out");

    let conf2 = ReaderConfig::default();
    assert_eq!(conf2.root_dir, "./public");
    assert!(conf2.exclude.is_none());
}

#[test]
fn test_failure_count_matches_failures() {
    let results: Vec<Result<(), CheckError>> = vec![
        Ok(()),
        Err(CheckError::ForbiddenFile { path: "unpublished/a.html".to_string() }),
        Ok(()),
        Err(CheckError::Io { cause: "boom".to_string() }),
        Err(CheckError::ContentError {
            path: "b.html".to_string(),
            offender: "wip".to_string(),
            description: "Forbidden tag".to_string(),
        }),
    ];

    assert_eq!(count_failures(&results), 3);
    assert!(run_failed(&results));

    // The same outcomes in another order give the same count.
    let reordered: Vec<Result<(), CheckError>> = vec![
        Err(CheckError::Io { cause: "boom".to_string() }),
        Err(CheckError::ContentError {
            path: "b.html".to_string(),
            offender: "wip".to_string(),
            description: "Forbidden tag".to_string(),
        }),
        Ok(()),
        Ok(()),
        Err(CheckError::ForbiddenFile { path: "unpublished/a.html".to_string() }),
    ];
    assert_eq!(count_failures(&reordered), 3);

    let all_ok: Vec<Result<(), CheckError>> = vec![Ok(()), Ok(())];
    assert_eq!(count_failures(&all_ok), 0);
    assert!(!run_failed(&all_ok));
}

#[test]
fn test_failure_messages_formats() {
    let results: Vec<Result<(), CheckError>> = vec![
        Err(CheckError::ForbiddenFile { path: "unpublished/a.html".to_string() }),
        Err(CheckError::ContentError {
            path: "b.html".to_string(),
            offender: "wip".to_string(),
            description: "Forbidden tag".to_string(),
        }),
        Ok(()),
        Err(CheckError::AccessibilityError {
            path: "c.html".to_string(),
            offender: "<img>".to_string(),
            description: "Image tag without alt".to_string(),
        }),
        Err(CheckError::Io { cause: "read failed".to_string() }),
    ];

    let msgs = failure_messages(&results);
    assert_eq!(msgs.len(), 4);
    assert_eq!(msgs[0], "Found forbidden file: unpublished/a.html");
    assert_eq!(msgs[1], "Found content error: [Forbidden tagwip], in file b.html");
    assert_eq!(msgs[2], "Found accessibility error: [Image tag without alt<img>], in file c.html");
    assert_eq!(msgs[3], "read failed");
}

#[test]
fn test_io_errors_compare_equal() {
    let a = CheckError::Io { cause: "one".to_string() };
    let b = CheckError::Io { cause: "another".to_string() };
    assert_eq!(a, b);

    let f = CheckError::ForbiddenFile { path: "p".to_string() };
    assert_ne!(a, f);
}
