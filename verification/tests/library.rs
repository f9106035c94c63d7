use chrono::TimeZone;
use things_cli::props::{MAX_TIMESTAMP, MIN_TIMESTAMP};
use things_cli::common::{DIM, colored, fmt_date, fmt_date_local, id_prefix, parse_day, task6_note, today_utc, today_utc_at};
use things_cli::ids::random_task_id;
use things_cli::json::JsonValue;
use things_cli::keymap::KeyMap;
use things_cli::listing::lines_of;
use things_cli::replay::fold_items;
use things_cli::store::ChecklistItem;
use things_cli::things::ThingsStore;
use things_cli::widgets::{ChecklistItemWidget, ChecklistWidget};
use things_cli::wire::{EntityType, OperationType, TaskStatus, WireObject};

fn create(entity: EntityType, ps: Vec<(&str, JsonValue)>) -> WireObject {
    let mut m = KeyMap::new();
    for (k, v) in ps {
        m.insert(k.to_string(), v);
    }
    WireObject { operation_type: OperationType::Create, entity_type: Some(entity), properties: m }
}

fn item(uuid: &str, status: TaskStatus) -> ChecklistItem {
    ChecklistItem { uuid: uuid.to_string(), title: "x".to_string(), task_uuid: "T".to_string(), status, index: 0 }
}

#[test]
fn colored_wraps_in_codes_unless_plain() {
    assert_eq!(colored("x", &[DIM], false), "\x1b[2mx\x1b[0m");
    assert_eq!(colored("x", &[DIM], true), "x");
}

#[test]
fn id_prefix_takes_and_pads() {
    assert_eq!(id_prefix("abcdef", 3, true), "abc");
    assert_eq!(id_prefix("ab", 4, true), "ab  ");
}

#[test]
fn today_comes_from_the_override_when_it_parses() {
    assert_eq!(today_utc_at(Some(" 172805 "), 5), 172800);
    assert_eq!(today_utc_at(Some("abc"), 90000), 86400);
    assert_eq!(today_utc_at(None, -1), -86400);
}

#[test]
fn dates_print_as_days() {
    assert_eq!(fmt_date(Some(0)), "1970-01-01");
    assert_eq!(fmt_date(Some(86400 * 366)), "1971-01-02");
    assert_eq!(fmt_date(None), "");
}

#[test]
fn invalid_days_are_reported() {
    assert_eq!(
        parse_day(Some("2024-02-30"), "--deadline"),
        Err("Invalid --deadline date: 2024-02-30 (expected YYYY-MM-DD)".to_string())
    );
    assert_eq!(parse_day(None, "--when"), Ok(None));
    assert!(matches!(parse_day(Some("2024-02-29"), "--when"), Ok(Some(_))));
}

#[test]
fn notes_carry_their_checksum() {
    match task6_note("hello") {
        JsonValue::Object(es) => {
            assert_eq!(es[0].0, "_t");
            assert_eq!(es[2].0, "ch");
            assert_eq!(es[2].1.as_i64(), Some(907060870));
            assert_eq!(es[3].1.as_str().unwrap(), "hello");
        },
        _ => panic!("not an object"),
    }
}

#[test]
fn random_ids_are_hex() {
    let a = random_task_id();
    let b = random_task_id();
    assert_eq!(a.len(), 32);
    assert!(a.chars().all(|c| c.is_ascii_digit() || ('a'..='f').contains(&c)));
    assert_ne!(a, b);
}

#[test]
fn lines_split_like_str_lines() {
    assert_eq!(lines_of("a\r\nb\n\nc"), vec!["a".to_string(), "b".to_string(), String::new(), "c".to_string()]);
    assert_eq!(lines_of("one\n"), vec!["one".to_string()]);
    assert!(lines_of("").is_empty());
}

#[test]
fn checklist_id_column() {
    let items = vec![item("abc1", TaskStatus::Incomplete), item("abd2", TaskStatus::Completed)];
    assert_eq!(ChecklistWidget::id_col_width(&items, true), 4);
    assert_eq!(ChecklistWidget::id_col_width(&items, false), 0);
    assert_eq!(ChecklistWidget::id_col_width(&[], true), 0);
    let w = ChecklistItemWidget { item: &items[1], id: None, is_last: true };
    assert_eq!(w.icon_str(), "●");
}

#[test]
fn a_short_id_finds_its_task() {
    let mut it = KeyMap::new();
    it.insert("AAAA1111".to_string(), create(EntityType::Task6, vec![("tt", JsonValue::string("One"))]));
    it.insert("AREA0001".to_string(), create(EntityType::Area3, vec![("tt", JsonValue::string("Home"))]));
    it.insert("BBBB2222".to_string(), create(EntityType::Task6, vec![("tt", JsonValue::string("Two"))]));
    let store = ThingsStore::from_raw_state(fold_items(vec![it]));
    let short = store.short_id("AAAA1111");
    assert_eq!(short, "AA");
    let (found, err, _) = store.resolve_mark_identifier(short.as_str());
    assert_eq!(found.unwrap().uuid, "AAAA1111");
    assert_eq!(err, "");
    assert_eq!(store.short_id("BBBB2222"), "B");
}

#[test]
fn local_dates_have_the_date_form() {
    assert_eq!(fmt_date_local(None), "");
    assert_eq!(fmt_date_local(Some(i64::MAX)), "");
    let d = fmt_date_local(Some(86400 * 366));
    let cs: Vec<char> = d.chars().collect();
    assert_eq!(cs.len(), 10);
    assert_eq!(cs[4], '-');
    assert_eq!(cs[7], '-');
    assert!(d.starts_with("1971-01-0"));
}

#[test]
fn today_comes_from_the_override_or_the_clock() {
    assert_eq!(today_utc(Some(" 86401 ")), 86400);
    assert_eq!(today_utc(Some("0")), 0);
    assert_eq!(today_utc(Some("-1")), -86400);
    let d = today_utc(None);
    assert_eq!(d % 86400, 0);
    assert!(d > 1_600_000_000);
    assert_eq!(today_utc(Some("soon")), d);
}

#[test]
fn representable_range_is_chronos() {
    assert!(chrono::Utc.timestamp_opt(MAX_TIMESTAMP, 0).single().is_some());
    assert!(chrono::Utc.timestamp_opt(MAX_TIMESTAMP + 1, 0).single().is_none());
    assert!(chrono::Utc.timestamp_opt(MIN_TIMESTAMP, 0).single().is_some());
    assert!(chrono::Utc.timestamp_opt(MIN_TIMESTAMP - 1, 0).single().is_none());
    assert_eq!(fmt_date(Some(MAX_TIMESTAMP)), "+262142-12-31");
    assert_eq!(fmt_date(Some(MIN_TIMESTAMP)), "-262143-01-01");
    assert_eq!(fmt_date(Some(MAX_TIMESTAMP + 1)), "");
}

#[test]
fn override_numbers_read_as_std_parses_them() {
    let cases = [
        "86400", "+86400", "-86400", "-0", "+", "-", "", " 172801 ", "12a", "1 2", "9223372036854775807",
        "9223372036854775808", "-9223372036854775808", "-9223372036854775809", "00000000000000000000086400",
        "99999999999999999999999",
    ];
    for s in cases {
        let expected = match s.trim().parse::<i64>() {
            Ok(ts) if (MIN_TIMESTAMP..=MAX_TIMESTAMP).contains(&ts) => ts - ts.rem_euclid(86400),
            _ => 0,
        };
        assert_eq!(today_utc_at(Some(s), 0), expected, "override {:?}", s);
    }
}

#[test]
fn days_parse_to_local_midnight_near_utc_midnight() {
    // 2024-03-15 00:00 UTC
    let utc = 1_710_460_800i64;
    match parse_day(Some("2024-03-15"), "--when") {
        Ok(Some(v)) => assert!((v - utc).abs() < 86400),
        other => panic!("unexpected {:?}", other),
    }
    assert_eq!(parse_day(None, "--when"), Ok(None));
    assert_eq!(
        parse_day(Some("2024-02-30"), "--when"),
        Err("Invalid --when date: 2024-02-30 (expected YYYY-MM-DD)".to_string())
    );
}
