use things_cli::json::JsonValue;
use things_cli::patch::{AreaPatch, ChecklistItemPatch, TagPatch, TaskPatch};
use things_cli::wire::{TaskStart, TaskStatus};

fn no_task_change() -> TaskPatch {
    TaskPatch {
        title: None,
        notes: None,
        start_location: None,
        scheduled_date: None,
        today_index_reference: None,
        parent_project_ids: None,
        area_ids: None,
        action_group_ids: None,
        tag_ids: None,
        evening_bit: None,
        modification_date: None,
    }
}

fn is_str(v: Option<&JsonValue>, s: &str) -> bool {
    matches!(v, Some(JsonValue::Str(x)) if x == s)
}

fn is_int(v: Option<&JsonValue>, i: i64) -> bool {
    matches!(v, Some(JsonValue::Number { integer: Some(x), .. }) if *x == i)
}

#[test]
fn empty_task_patch_sends_nothing() {
    let p = no_task_change();
    assert!(p.is_empty());
    assert_eq!(p.into_properties().len(), 0);
}

#[test]
fn task_patch_sends_its_set_fields() {
    let p = TaskPatch {
        title: Some("Buy milk".to_string()),
        start_location: Some(TaskStart::Anytime),
        tag_ids: Some(vec!["TAG1".to_string(), "TAG2".to_string()]),
        evening_bit: Some(1),
        modification_date: Some(1500),
        scheduled_date: Some(JsonValue::Null),
        ..no_task_change()
    };
    assert!(!p.is_empty());
    let m = p.into_properties();
    assert_eq!(m.len(), 6);
    assert!(is_str(m.get("tt"), "Buy milk"));
    assert!(is_int(m.get("st"), 1));
    assert!(is_int(m.get("sb"), 1));
    assert!(matches!(m.get("md"), Some(JsonValue::Millis(1500))));
    assert!(matches!(m.get("sr"), Some(JsonValue::Null)));
    match m.get("tg") {
        Some(JsonValue::Array(xs)) => {
            assert_eq!(xs.len(), 2);
            assert!(is_str(xs.get(0), "TAG1"));
            assert!(is_str(xs.get(1), "TAG2"));
        },
        _ => panic!("tg is not a list"),
    }
    assert!(m.get("nt").is_none());
    assert!(m.get("pr").is_none());
}

#[test]
fn checklist_patch_writes_status_codes() {
    let p = ChecklistItemPatch {
        title: None,
        status: Some(TaskStatus::Completed),
        task_ids: None,
        sort_index: Some(2),
        creation_date: None,
        modification_date: None,
    };
    assert!(!p.is_empty());
    let m = p.into_properties();
    assert_eq!(m.len(), 2);
    assert!(is_int(m.get("ss"), 3));
    assert!(is_int(m.get("ix"), 2));
    let none = ChecklistItemPatch { title: None, status: None, task_ids: None, sort_index: None, creation_date: None, modification_date: None };
    assert!(none.is_empty());
}

#[test]
fn tag_and_area_patches() {
    let t = TagPatch { title: None, parent_ids: Some(Vec::new()), modification_date: None };
    assert!(!t.is_empty());
    let m = t.into_properties();
    assert_eq!(m.len(), 1);
    assert!(matches!(m.get("pn"), Some(JsonValue::Array(xs)) if xs.is_empty()));
    let a = AreaPatch { title: Some("Home".to_string()), tag_ids: None, modification_date: None };
    let m = a.into_properties();
    assert_eq!(m.len(), 1);
    assert!(is_str(m.get("tt"), "Home"));
    assert!(AreaPatch { title: None, tag_ids: None, modification_date: None }.is_empty());
    assert!(TagPatch { title: None, parent_ids: None, modification_date: None }.is_empty());
}
