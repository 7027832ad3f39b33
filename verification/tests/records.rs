use wildptr::api::{find_rfc, listing, WildpointerRFC};

fn record(id: &str, last_updated: Option<&str>, body: Option<&str>) -> WildpointerRFC {
    WildpointerRFC {
        id: id.to_string(),
        status: "draft".to_string(),
        date: "2020-01-02".to_string(),
        info_provided: "yes".to_string(),
        last_updated: last_updated.map(|s| s.to_string()),
        body: body.map(|s| s.to_string()),
    }
}

#[test]
fn short_form_has_four_lines() {
    let rfc = record("7", Some("2020-02-03"), Some("text"));
    assert_eq!(
        rfc.describe(true),
        vec!["RFC 7", "Status: draft", "Info Provided: yes", "Date: 2020-01-02"]
    );
}

#[test]
fn full_form_adds_what_the_record_has() {
    assert_eq!(
        record("7", Some("2020-02-03"), Some("text")).describe(false),
        vec![
            "RFC 7",
            "Status: draft",
            "Info Provided: yes",
            "Date: 2020-01-02",
            "Last updated: 2020-02-03",
            "Body: text"
        ]
    );
    assert_eq!(
        record("8", None, Some("text")).describe(false),
        vec!["RFC 8", "Status: draft", "Info Provided: yes", "Date: 2020-01-02", "Body: text"]
    );
    assert_eq!(
        record("9", Some("later"), None).describe(false),
        vec![
            "RFC 9",
            "Status: draft",
            "Info Provided: yes",
            "Date: 2020-01-02",
            "Last updated: later"
        ]
    );
    assert_eq!(record("10", None, None).describe(false), record("10", None, None).describe(true));
}

#[test]
fn listing_puts_an_empty_line_behind_each_record() {
    let rfcs = vec![record("1", None, Some("a")), record("2", Some("b"), None)];
    assert_eq!(
        listing(&rfcs, true),
        vec![
            "RFC 1",
            "Status: draft",
            "Info Provided: yes",
            "Date: 2020-01-02",
            "",
            "RFC 2",
            "Status: draft",
            "Info Provided: yes",
            "Date: 2020-01-02",
            ""
        ]
    );
    assert_eq!(
        listing(&rfcs, false),
        vec![
            "RFC 1",
            "Status: draft",
            "Info Provided: yes",
            "Date: 2020-01-02",
            "Body: a",
            "",
            "RFC 2",
            "Status: draft",
            "Info Provided: yes",
            "Date: 2020-01-02",
            "Last updated: b",
            ""
        ]
    );
    assert_eq!(listing(&vec![], false), Vec::<String>::new());
}

#[test]
fn record_is_found_by_its_identifier() {
    let rfcs =
        vec![record("1", None, None), record("42", None, None), record("42", None, Some("late"))];
    assert_eq!(find_rfc(&rfcs, &"42".to_string()), Some(1));
    assert_eq!(find_rfc(&rfcs, &"1".to_string()), Some(0));
    assert_eq!(find_rfc(&rfcs, &"4".to_string()), None);
    assert_eq!(find_rfc(&vec![], &"1".to_string()), None);
}
