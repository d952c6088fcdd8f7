use lighttrack_api::auth::{Principal, Scope};
use lighttrack_api::clock::Timestamp;
use lighttrack_api::dates::{
    epoch_day_of, flag, from_nanos, is_truthy, opt_date, parse_date, parse_opt_ts, parse_rfc3339,
    posture_since, show_date, show_day,
};
use lighttrack_api::error::ErrorCode;
use lighttrack_api::order::{stable_order, SortKey};
use lighttrack_api::prices::{
    plan_fill, price_dates, price_posture, recount_since, remaining_unpriced, seed_source, FileOutcome,
    PriceSeed, Unpriced,
};
use lighttrack_api::query::{
    check_status, cost_window, dearest_first, page_limit, parse_meta, plan_events, show_event,
    EventsParams, EventsQuery,
};
use lighttrack_api::text::{
    before, contains, parse_i128, parse_int, parse_u128, parse_uint, show_i64, show_u64,
    starts_with, trim_owned,
};

use lighttrack_api::json::{same_json, Json, Member, Number};
use lighttrack_api::wire::{compact_text, read_json};

const SEC: i128 = 1_000_000_000;

fn now() -> Timestamp {
    Timestamp { nanos: 1_790_000_000 * SEC }
}

#[test]
fn the_fill_flag_is_opt_in_and_only_true_for_an_affirmative() {
    for yes in ["1", "true", "TRUE", "yes"] {
        assert!(flag(Some(&yes.to_string())), "{yes}");
    }
    for no in ["0", "false", "", "maybe"] {
        assert!(!flag(Some(&no.to_string())), "{no}");
    }
    assert!(!flag(None), "absent means no — a fill is never implicit");
}

#[test]
fn a_malformed_date_is_refused_rather_than_defaulted() {
    let parsed = |s: Option<&str>| match opt_date("effective_from", &s.map(str::to_string)) {
        Ok(v) => Ok(v.is_some()),
        Err(_) => Err(()),
    };
    assert_eq!(parsed(Some("2026-05-31")), Ok(true));
    assert_eq!(parsed(Some("2026-05-31T00:00:00Z")), Ok(true));
    assert_eq!(parsed(None), Ok(false), "absent is not an error");
    assert_eq!(parsed(Some("  ")), Ok(false), "blank is not an error");
    assert_eq!(parsed(Some("soon")), Err(()), "nonsense is refused");
}

#[test]
fn a_missing_pricing_file_falls_back_to_the_embedded_book_not_an_empty_one() {
    let (seed, warning) = seed_source(FileOutcome::Missing);
    assert!(matches!(seed, PriceSeed::Embedded));
    assert!(warning.is_none());
    assert_eq!(seed_source(FileOutcome::Parsed), (PriceSeed::File, None));
    let (seed, warning) = seed_source(FileOutcome::Unparsable);
    assert!(matches!(seed, PriceSeed::Embedded));
    assert!(warning.unwrap().contains("did not parse"));
    assert!(seed_source(FileOutcome::Unreadable).1.unwrap().contains("could not be read"));
}

#[test]
fn a_stale_book_is_told_from_one_nobody_vouched_for() {
    assert_eq!(price_posture(false, true), None);
    assert!(price_posture(true, true).unwrap().contains("not been verified recently"));
    assert!(price_posture(true, false).unwrap().contains("nobody has vouched for"));
}

#[test]
fn a_rate_takes_effect_now_unless_it_says_when() {
    let d = price_dates(&None, &None, now()).unwrap();
    assert_eq!((d.effective_from, d.verified_at), (now(), None));
    let d = price_dates(&Some("1970-01-02".into()), &Some("1970-01-03".into()), now()).unwrap();
    assert_eq!(d.effective_from.nanos, 86_400 * SEC);
    assert_eq!(d.verified_at.unwrap().nanos, 2 * 86_400 * SEC);
    let e = price_dates(&None, &Some("soon".into()), now()).unwrap_err();
    assert_eq!(e.message, "verified_at must be a date or RFC3339 time");
    let e = price_dates(&Some("soon".into()), &Some("soon".into()), now()).unwrap_err();
    assert_eq!(e.message, "effective_from must be a date or RFC3339 time");
    assert_eq!(recount_since(&None, now()).unwrap().nanos, now().nanos - 90 * 86_400 * SEC);
    assert!(recount_since(&Some("soon".into()), now()).is_err());
    let yes = " Yes ".to_string();
    assert_eq!(plan_fill(None, &Some("soon".into()), now()).unwrap(), None, "nobody asked");
    assert!(plan_fill(Some(&yes), &Some("soon".into()), now()).is_err());
    let from = plan_fill(Some(&yes), &None, now()).unwrap();
    assert_eq!(from, Some(recount_since(&None, now()).unwrap()));
}

#[test]
fn what_is_left_unpriced_is_counted_for_that_model() {
    let row = |p: &str, m: &str, calls: u64| Unpriced {
        provider: p.into(),
        model: m.into(),
        calls,
    };
    let rows = vec![row("a", "x", 3), row("a", "y", 5), row("a", "x", 4), row("b", "x", 9)];
    assert_eq!(remaining_unpriced(&rows, "a", "x"), 7);
    assert_eq!(remaining_unpriced(&rows, "c", "x"), 0);
}

#[test]
fn instants_and_days_are_read_and_written() {
    assert_eq!(parse_rfc3339("1970-01-01T00:00:01.5Z").unwrap().nanos, 1_500_000_000);
    assert_eq!(parse_rfc3339("1970-01-01T01:00:00+01:00").unwrap().nanos, 0);
    assert!(parse_rfc3339("yesterday").is_err());
    assert_eq!(parse_date("1970-01-02").unwrap().nanos, 86_400 * SEC);
    assert!(parse_date("1970-13-02").is_none());
    assert_eq!(epoch_day_of("1970-01-11"), Some(10));
    assert_eq!(epoch_day_of("x"), None);
    assert_eq!(show_day(10), "1970-01-11");
    assert_eq!(show_date(now()), "2026-09-21");
    assert_eq!(from_nanos(5).unwrap().nanos, 5);
    assert!(from_nanos(i128::MAX).is_none());
    assert_eq!(parse_opt_ts("since", None).unwrap(), None);
    let e = parse_opt_ts("since", Some("x")).unwrap_err();
    assert!(e.message.starts_with("invalid 'since' timestamp: "), "{}", e.message);
    assert!(is_truthy(Some(" Yes ")) && !is_truthy(Some("y")));
    assert_eq!(posture_since(None, now()).unwrap().nanos, now().nanos - 30 * 86_400 * SEC);
    assert_eq!(
        posture_since(Some("x"), now()).unwrap_err().message,
        "invalid RFC3339 timestamp: x"
    );
    let t = Timestamp { nanos: -1 };
    assert_eq!(t.epoch_secs(), -1);
    assert_eq!(now().secs_since(t), 1_790_000_000);
    assert_eq!(t.plus_secs(1).nanos, SEC - 1);
}

fn params() -> EventsParams {
    EventsParams {
        limit: None,
        since: None,
        until: None,
        provider: None,
        model: None,
        trace_id: None,
        name: None,
        status: None,
        tag: None,
        meta: None,
        min_cost: None,
        redaction_rules: None,
        min_redacted_spans: None,
        count: None,
        cursor: None,
        unscored: None,
    }
}

#[test]
fn a_listing_is_planned_from_its_query() {
    let mut q = params();
    q.meta = Some("customer=a=b".into());
    q.status = Some("error".into());
    q.since = Some("1970-01-01T00:00:05Z".into());
    q.count = Some("1".into());
    q.limit = Some(5000);
    match plan_events(q).unwrap() {
        EventsQuery::Page(f, n) => {
            assert_eq!(n, 1000);
            assert_eq!(f.metadata_key.as_deref(), Some("customer"));
            assert_eq!(f.metadata_value.as_deref(), Some("a=b"));
            assert_eq!(f.since.unwrap().nanos, 5 * SEC);
            assert!(f.with_total);
        }
        other => panic!("{other:?}"),
    }
    let mut q = params();
    q.unscored = Some("yes".into());
    assert!(matches!(plan_events(q).unwrap(), EventsQuery::Unscored(50)));
    let refused = |f: &dyn Fn(&mut EventsParams)| {
        let mut q = params();
        f(&mut q);
        plan_events(q).unwrap_err().message
    };
    assert_eq!(refused(&|q| q.meta = Some("".into())), "'meta' must be `key` or `key=value`");
    assert_eq!(
        refused(&|q| q.status = Some("ok".into())),
        "invalid 'status' \"ok\": expected success | error | timeout"
    );
    assert!(refused(&|q| q.until = Some("x".into())).starts_with("invalid 'until'"));
    assert_eq!(parse_meta("k").unwrap(), ("k".to_string(), None));
    assert_eq!(parse_meta("=v").unwrap(), ("=v".to_string(), None));
    assert!(check_status(Some("timeout")).is_ok());
    assert_eq!([page_limit(None), page_limit(Some(3)), page_limit(Some(9999))], [50, 3, 1000]);
}

#[test]
fn a_key_learns_nothing_of_another_projects_events() {
    let key = Principal::Project {
        project_id: "p".into(),
        key_id: "k".into(),
        scopes: vec![Scope::Read],
    };
    assert!(show_event(&key, "e", Some("p")).is_ok());
    let other = show_event(&key, "e", Some("q")).unwrap_err();
    let none = show_event(&key, "e", None).unwrap_err();
    assert_eq!((other.code, &other.message), (none.code, &none.message));
    assert_eq!(other.code, ErrorCode::NotFound);
    assert!(show_event(&Principal::Admin, "e", Some("q")).is_ok());
}

#[test]
fn costs_are_ranked_and_windowed() {
    assert_eq!(dearest_first(&vec![1, 9, 9, 4]), vec![1, 2, 3, 0]);
    let (a, b) = cost_window(None, None, now());
    assert_eq!((b, a.nanos), (now(), now().nanos - 30 * 86_400 * SEC));
    let t = Timestamp { nanos: 7 };
    assert_eq!(cost_window(Some(t), None, now()).0, t);
}

#[test]
fn an_order_is_by_number_then_text_and_stable() {
    let k = |major: i128, text: &str, minor: i128| SortKey {
        major,
        text: text.to_string(),
        minor,
        tail: String::new(),
    };
    let keys = vec![k(1, "b", 0), k(0, "z", 0), k(1, "a", 0), k(1, "a", -1), k(0, "z", 0)];
    assert_eq!(stable_order(&keys), vec![1, 4, 3, 2, 0]);
    assert!(before("a", "ab") && before("Z", "a") && !before("a", "a"));
}

#[test]
fn texts_are_cut_and_numbers_read() {
    assert_eq!(trim_owned("\u{a0} a\t"), "a");
    assert_eq!(parse_uint("+12", u64::MAX), Some(12));
    assert_eq!(parse_uint("12", 11), None);
    assert_eq!(parse_uint("", 9), None);
    assert_eq!(parse_int("-9223372036854775808"), Some(i64::MIN));
    assert_eq!(parse_int("9223372036854775808"), None);
    assert_eq!(parse_i128("-7"), Some(-7));
    assert_eq!(parse_u128("1x", 99), None);
    assert_eq!((show_i64(-5), show_u64(0)), ("-5".to_string(), "0".to_string()));
    assert!(starts_with("abc", "ab") && contains("abc", "b") && !contains("abc", "ac"));
}

#[test]
fn documents_are_written_as_compact_text_and_read_back() {
    for t in [
        "null",
        "true",
        "[]",
        "{}",
        "[1,-2,0.5,1e300,\"a\"]",
        "{\"a\":{\"b\":[null,false]},\"c\":\"é\\n\\t\\\"\\\\\\u0001\\u001f\\b\\f\\r\"}",
        "18446744073709551615",
        "-9223372036854775808",
    ] {
        let expected = serde_json::from_str::<serde_json::Value>(t).unwrap().to_string();
        let v = read_json(t).unwrap();
        assert_eq!(compact_text(&v), expected);
        assert!(same_json(&read_json(&compact_text(&v)).unwrap(), &v));
    }
    assert!(read_json("{").is_none());
    assert!(read_json("1 2").is_none());
    assert_eq!(read_json(" { \"b\": 1, \"a\": 2 } ").unwrap().get_u64("b"), Some(1));
    let made = Json::Obj(vec![
        Member { name: "k".into(), value: Json::Num(Number::Neg(-3)) },
        Member { name: "\"".into(), value: Json::Str("\u{7f}/".into()) },
    ]);
    assert_eq!(compact_text(&made), "{\"k\":-3,\"\\\"\":\"\u{7f}/\"}");
}
