use grink::{classify, tally, Link, Outcome, Status, Tally, USER_AGENT};

fn link(url: &str, status: Status, referrer: &str) -> Link {
    Link {
        url: url.to_string(),
        status,
        referrer: referrer.to_string(),
    }
}

#[test]
fn status_text_of_each_variant() {
    assert_eq!(Status::OK.to_text(), "[OK]");
    assert_eq!(
        Status::Warning("slow".to_string()).to_text(),
        "[WARN] (slow)"
    );
    assert_eq!(
        Status::Error("connection refused".to_string()).to_text(),
        "[ERROR] (connection refused)"
    );
    assert_eq!(Status::Skipped.to_text(), "");
}

#[test]
fn status_text_with_empty_message() {
    assert_eq!(Status::Warning(String::new()).to_text(), "[WARN] ()");
    assert_eq!(Status::Error(String::new()).to_text(), "[ERROR] ()");
}

#[test]
fn status_clone_keeps_variant_and_message() {
    let statuses = vec![
        Status::OK,
        Status::Warning("w".to_string()),
        Status::Error("e".to_string()),
        Status::Skipped,
    ];
    for status in &statuses {
        assert_eq!(&status.clone(), status);
    }
}

#[test]
fn only_error_is_error() {
    assert!(Status::Error("e".to_string()).is_error());
    assert!(!Status::OK.is_error());
    assert!(!Status::Warning("w".to_string()).is_error());
    assert!(!Status::Skipped.is_error());
}

#[test]
fn link_text_names_status_url_and_referrer() {
    let ok = link("https://example.com/", Status::OK, "notes.md");
    assert_eq!(
        ok.to_text(),
        "[OK] https://example.com/ - referrer: notes.md"
    );
    let bad = link(
        "http://127.0.0.1:1/",
        Status::Error("refused".to_string()),
        "docs/a b.md",
    );
    assert_eq!(
        bad.to_text(),
        "[ERROR] (refused) http://127.0.0.1:1/ - referrer: docs/a b.md"
    );
    let skipped = link("https://example.com/", Status::Skipped, "x");
    assert_eq!(skipped.to_text(), " https://example.com/ - referrer: x");
}

#[test]
fn errors_are_always_listed_the_rest_when_verbose() {
    let error = link("u", Status::Error("e".to_string()), "r");
    let ok = link("u", Status::OK, "r");
    let warning = link("u", Status::Warning("w".to_string()), "r");
    let skipped = link("u", Status::Skipped, "r");
    assert!(error.is_listed(false));
    assert!(error.is_listed(true));
    assert!(!ok.is_listed(false));
    assert!(ok.is_listed(true));
    assert!(!warning.is_listed(false));
    assert!(warning.is_listed(true));
    assert!(!skipped.is_listed(false));
    assert!(skipped.is_listed(true));
}

#[test]
fn successful_response_is_ok() {
    for code in [200u16, 201, 204, 250, 299] {
        let status = classify(Outcome::Answered {
            code,
            description: "unused".to_string(),
        });
        assert_eq!(status, Status::OK, "{}", code);
    }
}

#[test]
fn failed_response_is_error_with_its_description() {
    for code in [0u16, 100, 199, 300, 301, 304, 400, 404, 499, 500, 503, 599, 600, 65535] {
        let status = classify(Outcome::Answered {
            code,
            description: format!("status {}", code),
        });
        assert_eq!(status, Status::Error(format!("status {}", code)));
    }
}

#[test]
fn unreachable_target_is_error_with_its_reason() {
    let status = classify(Outcome::Unreachable {
        reason: "connection refused".to_string(),
    });
    assert_eq!(status, Status::Error("connection refused".to_string()));
}

#[test]
fn user_agent_looks_like_a_browser() {
    assert_eq!(
        USER_AGENT,
        "Mozilla/5.0 (Macintosh; Intel Mac OS X 10_15_7) AppleWebKit/537.36 (KHTML, like Gecko) Chrome/122.0.0.0 Safari/537.36"
    );
}

#[test]
fn tally_of_no_links_is_zero() {
    let links: Vec<Link> = Vec::new();
    assert_eq!(
        tally(&links),
        Tally {
            ok: 0,
            warnings: 0,
            errors: 0,
            skipped: 0
        }
    );
}

#[test]
fn tally_counts_each_status() {
    let links = vec![
        link("a", Status::OK, "r"),
        link("b", Status::Error("e".to_string()), "r"),
        link("c", Status::OK, "r"),
        link("d", Status::Skipped, "r"),
        link("e", Status::Warning("w".to_string()), "r"),
        link("f", Status::Error("e".to_string()), "s"),
        link("g", Status::OK, "s"),
    ];
    let counts = tally(&links);
    assert_eq!(
        counts,
        Tally {
            ok: 3,
            warnings: 1,
            errors: 2,
            skipped: 1
        }
    );
    assert_eq!(
        counts.ok + counts.warnings + counts.errors + counts.skipped,
        links.len()
    );
}

#[test]
fn tally_counts_duplicates_separately() {
    let links = vec![
        link("same", Status::OK, "r"),
        link("same", Status::OK, "r"),
    ];
    assert_eq!(tally(&links).ok, 2);
}
