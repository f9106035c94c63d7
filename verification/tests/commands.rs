use things_cli::cloud_writer::{CloudWriter, DryRunCloudWriter};
use things_cli::commands::areas::{AreasEditArgs, AreasListArgs, AreasNewArgs};
use things_cli::commands::delete::DeleteArgs;
use things_cli::commands::edit::EditArgs;
use things_cli::commands::inbox::{InboxArgs, SomedayArgs};
use things_cli::commands::mark::MarkArgs;
use things_cli::commands::projects::{ProjectsEditArgs, ProjectsListArgs, ProjectsNewArgs};
use things_cli::commands::reorder::ReorderArgs;
use things_cli::commands::schedule::ScheduleArgs;
use things_cli::commands::tags::{TagsDeleteArgs, TagsEditArgs, TagsListArgs, TagsNewArgs};
use things_cli::commands::{CommandPlan, DetailedArgs};
use things_cli::json::JsonValue;
use things_cli::keymap::KeyMap;
use things_cli::replay::fold_items;
use things_cli::things::ThingsStore;
use things_cli::wire::{EntityType, OperationType, WireObject};

fn text(v: &str) -> JsonValue {
    JsonValue::string(v)
}

fn num(v: i64) -> JsonValue {
    JsonValue::integer(v)
}

fn list(v: &[&str]) -> JsonValue {
    JsonValue::Array(v.iter().map(|x| JsonValue::string(x)).collect())
}

fn create(entity: EntityType, ps: Vec<(&str, JsonValue)>) -> WireObject {
    let mut m = KeyMap::new();
    for (k, v) in ps {
        m.insert(k.to_string(), v);
    }
    WireObject { operation_type: OperationType::Create, entity_type: Some(entity), properties: m }
}

fn task(title: &str, extra: Vec<(&str, JsonValue)>) -> WireObject {
    let mut ps = vec![("tt", text(title)), ("tp", num(0)), ("ss", num(0)), ("st", num(1))];
    ps.extend(extra);
    create(EntityType::Task6, ps)
}

fn store_of(objs: Vec<(&str, WireObject)>) -> ThingsStore {
    let mut item = KeyMap::new();
    for (u, o) in objs {
        item.insert(u.to_string(), o);
    }
    ThingsStore::from_raw_state(fold_items(vec![item]))
}

fn prop<'a>(p: &'a CommandPlan, uuid: &str, key: &str) -> Option<&'a JsonValue> {
    p.changes.as_ref().unwrap().get(uuid).unwrap().properties.get(key)
}

fn sample() -> ThingsStore {
    store_of(vec![
        ("AAAA1111", task("Buy milk", vec![("st", num(0)), ("ix", num(1)), ("cd", num(1))])),
        ("BBBB2222", task("Call mom", vec![("st", num(0)), ("ix", num(2)), ("cd", num(1)), ("tg", list(&["TAG00001"]))])),
        ("PROJ0001", task("Garden", vec![("tp", num(1)), ("ix", num(3))])),
        ("AREA0001", create(EntityType::Area3, vec![("tt", text("Home")), ("ix", num(0))])),
        ("TAG00001", create(EntityType::Tag4, vec![("tt", text("urgent")), ("ix", num(0))])),
        ("TAG00002", create(EntityType::Tag4, vec![("tt", text("later")), ("ix", num(1)), ("pn", list(&["TAG00001"]))])),
    ])
}

#[test]
fn dry_run_writer_counts_commits() {
    let mut w = DryRunCloudWriter::new();
    assert_eq!(w.head_index(), 0);
    assert_eq!(w.commit(KeyMap::new(), None), Ok(1));
    assert_eq!(w.commit(KeyMap::new(), Some(1)), Ok(2));
    assert_eq!(w.head_index(), 2);
}

#[test]
fn delete_reports_unknown_ids() {
    let store = sample();
    let p = DeleteArgs { item_ids: vec!["ZZZZ".to_string()] }.plan(&store, true);
    assert_eq!(p.notes, vec!["Item not found: ZZZZ".to_string()]);
    assert!(p.changes.is_none());
    assert!(p.done_lines.is_empty());
}

#[test]
fn delete_trashes_a_task_once() {
    let store = sample();
    let p = DeleteArgs { item_ids: vec!["AAAA1111".to_string(), "AAAA".to_string()] }.plan(&store, true);
    assert!(p.notes.is_empty());
    let w = p.changes.as_ref().unwrap();
    assert_eq!(w.len(), 1);
    let o = w.get("AAAA1111").unwrap();
    assert_eq!(o.operation_type, OperationType::Delete);
    assert!(matches!(o.entity_type, Some(EntityType::Task6)));
    assert_eq!(o.properties.len(), 0);
    assert_eq!(p.done_lines, vec!["× Deleted Buy milk  AAAA1111".to_string()]);
    assert_eq!(p.fail_prefix, "Failed to delete items: ");
}

#[test]
fn delete_deletes_an_area() {
    let store = sample();
    let p = DeleteArgs { item_ids: vec!["AREA0001".to_string()] }.plan(&store, true);
    let o = p.changes.as_ref().unwrap().get("AREA0001").unwrap();
    assert!(matches!(o.entity_type, Some(EntityType::Area3)));
    assert_eq!(p.done_lines, vec!["× Deleted Home  AREA0001".to_string()]);
}

fn schedule(task_id: &str, when: Option<&str>, deadline: Option<&str>, clear: bool) -> ScheduleArgs {
    ScheduleArgs {
        task_id: task_id.to_string(),
        when: when.map(|s| s.to_string()),
        deadline_date: deadline.map(|s| s.to_string()),
        clear_deadline: clear,
    }
}

#[test]
fn schedule_to_anytime_clears_dates() {
    let store = sample();
    let p = schedule("AAAA1111", Some(" ANYTIME "), None, false).plan_with(&store, 5000, 86400, &Err(String::new()), &Err(String::new()), true);
    assert!(p.notes.is_empty());
    assert_eq!(prop(&p, "AAAA1111", "st").unwrap().as_i64(), Some(1));
    assert!(matches!(prop(&p, "AAAA1111", "sr"), Some(JsonValue::Null)));
    assert!(matches!(prop(&p, "AAAA1111", "tir"), Some(JsonValue::Null)));
    assert_eq!(prop(&p, "AAAA1111", "sb").unwrap().as_i64(), Some(0));
    assert!(matches!(prop(&p, "AAAA1111", "md"), Some(JsonValue::Millis(5000))));
    assert_eq!(p.done_lines, vec!["✓ Scheduled Buy milk  AAAA1111 (anytime)".to_string()]);
}

#[test]
fn schedule_evening_and_deadline() {
    let store = sample();
    let p = schedule("BBBB", Some("evening"), Some("2024-05-01"), false).plan_with(&store, 0, 86400, &Err(String::new()), &Ok(777), true);
    assert_eq!(prop(&p, "BBBB2222", "sr").unwrap().as_i64(), Some(86400));
    assert_eq!(prop(&p, "BBBB2222", "sb").unwrap().as_i64(), Some(1));
    assert_eq!(prop(&p, "BBBB2222", "dd").unwrap().as_i64(), Some(777));
    assert_eq!(p.done_lines, vec!["✓ Scheduled Call mom  BBBB2222 (evening, deadline=2024-05-01)".to_string()]);
}

#[test]
fn schedule_past_day_goes_to_anytime_and_future_to_someday() {
    let store = sample();
    let p = schedule("AAAA1111", Some("2020-01-01"), None, false).plan_with(&store, 0, 86400 * 10, &Ok(86400), &Err(String::new()), true);
    assert_eq!(prop(&p, "AAAA1111", "st").unwrap().as_i64(), Some(1));
    let q = schedule("AAAA1111", Some("2030-01-01"), None, false).plan_with(&store, 0, 86400 * 10, &Ok(86400 * 20), &Err(String::new()), true);
    assert_eq!(prop(&q, "AAAA1111", "st").unwrap().as_i64(), Some(2));
    assert_eq!(q.done_lines, vec!["✓ Scheduled Buy milk  AAAA1111 (when=2030-01-01)".to_string()]);
}

#[test]
fn schedule_without_changes_is_refused() {
    let store = sample();
    let p = schedule("AAAA1111", None, None, false).plan_with(&store, 0, 0, &Err(String::new()), &Err(String::new()), true);
    assert_eq!(p.notes, vec!["No schedule changes requested.".to_string()]);
    assert!(p.changes.is_none());
}

#[test]
fn schedule_bad_day_reports_the_parse_error() {
    let store = sample();
    let p = schedule("AAAA1111", Some("nope"), None, false).plan(&store, 0, 0, true);
    assert_eq!(p.notes, vec!["Invalid --when date: nope (expected YYYY-MM-DD)".to_string()]);
}

#[test]
fn schedule_clear_deadline_writes_null() {
    let store = sample();
    let p = schedule("AAAA1111", None, None, true).plan(&store, 0, 0, true);
    assert!(matches!(prop(&p, "AAAA1111", "dd"), Some(JsonValue::Null)));
    assert_eq!(p.done_lines, vec!["✓ Scheduled Buy milk  AAAA1111 (deadline=none)".to_string()]);
}

fn edit(ids: &[&str]) -> EditArgs {
    EditArgs {
        task_ids: ids.iter().map(|s| s.to_string()).collect(),
        title: None,
        notes: None,
        move_target: None,
        add_tags: None,
        remove_tags: None,
        add_checklist: Vec::new(),
        remove_checklist: None,
        rename_checklist: Vec::new(),
    }
}

#[test]
fn edit_title_needs_one_task() {
    let store = sample();
    let mut a = edit(&["AAAA", "BBBB"]);
    a.title = Some("x".to_string());
    let p = a.plan(&store, 0, true);
    assert_eq!(p.notes, vec!["--title requires a single task ID.".to_string()]);
}

#[test]
fn edit_sets_a_trimmed_title() {
    let store = sample();
    let mut a = edit(&["AAAA"]);
    a.title = Some("  Buy oat milk ".to_string());
    let p = a.plan(&store, 42, true);
    assert_eq!(prop(&p, "AAAA1111", "tt").unwrap().as_str().unwrap(), "Buy oat milk");
    assert!(matches!(prop(&p, "AAAA1111", "md"), Some(JsonValue::Millis(42))));
    assert_eq!(p.done_lines, vec!["✓ Edited Buy oat milk  AAAA1111 (title)".to_string()]);
}

#[test]
fn edit_refuses_projects_and_empty_edits() {
    let store = sample();
    let p = edit(&["PROJ0001"]).plan(&store, 0, true);
    assert_eq!(p.notes, vec!["Use 'projects edit' to edit a project.".to_string()]);
    let q = edit(&["AAAA"]).plan(&store, 0, true);
    assert_eq!(q.notes, vec!["No edit changes requested.".to_string()]);
}

#[test]
fn edit_moves_into_a_project_and_out_of_the_inbox() {
    let store = sample();
    let mut a = edit(&["AAAA"]);
    a.move_target = Some("PROJ".to_string());
    let p = a.plan(&store, 0, true);
    match prop(&p, "AAAA1111", "pr").unwrap() {
        JsonValue::Array(xs) => assert_eq!(xs[0].as_str().unwrap(), "PROJ0001"),
        _ => panic!("pr is not a list"),
    }
    assert_eq!(prop(&p, "AAAA1111", "st").unwrap().as_i64(), Some(1));
    assert_eq!(p.done_lines, vec!["✓ Edited Buy milk  AAAA1111 (move=PROJ)".to_string()]);
}

#[test]
fn edit_adds_tags_and_checklist_items() {
    let store = sample();
    let mut a = edit(&["AAAA"]);
    a.add_tags = Some("later".to_string());
    a.add_checklist = vec!["Oat".to_string(), "Soy".to_string()];
    let p = a.plan_with(&store, 7, &vec!["NEW1".to_string(), "NEW2".to_string()], true);
    match prop(&p, "AAAA1111", "tg").unwrap() {
        JsonValue::Array(xs) => {
            assert_eq!(xs.len(), 1);
            assert_eq!(xs[0].as_str().unwrap(), "TAG00002");
        },
        _ => panic!("tg is not a list"),
    }
    assert_eq!(prop(&p, "NEW1", "tt").unwrap().as_str().unwrap(), "Oat");
    assert_eq!(prop(&p, "NEW1", "ix").unwrap().as_i64(), Some(1));
    assert_eq!(prop(&p, "NEW2", "ix").unwrap().as_i64(), Some(2));
    assert_eq!(p.done_lines, vec!["✓ Edited Buy milk  AAAA1111 (add-tags, add-checklist)".to_string()]);
}

#[test]
fn edit_reports_a_malformed_rename() {
    let store = sample();
    let mut a = edit(&["AAAA"]);
    a.rename_checklist = vec!["bad".to_string()];
    let p = a.plan(&store, 0, true);
    assert_eq!(p.notes, vec!["--rename-checklist requires 'id:new title' format, got: \"bad\"".to_string()]);
}

#[test]
fn mark_done_sets_status_and_stop_date() {
    let store = sample();
    let a = MarkArgs {
        task_ids: vec!["BBBB".to_string()],
        done: true,
        incomplete: false,
        canceled: false,
        check_ids: None,
        uncheck_ids: None,
        check_cancel_ids: None,
    };
    let p = a.plan(&store, 9000, true);
    assert_eq!(prop(&p, "BBBB2222", "ss").unwrap().as_i64(), Some(3));
    assert!(matches!(prop(&p, "BBBB2222", "sp"), Some(JsonValue::Millis(9000))));
    assert_eq!(p.done_lines, vec!["✓ Done Call mom  BBBB2222".to_string()]);
}

#[test]
fn tags_new_under_a_parent() {
    let store = sample();
    let p = TagsNewArgs { name: " Deep ".to_string(), parent: Some("URGENT".to_string()) }.plan_with(&store, "TAG00003", true);
    assert_eq!(prop(&p, "TAG00003", "tt").unwrap().as_str().unwrap(), "Deep");
    match prop(&p, "TAG00003", "pn").unwrap() {
        JsonValue::Array(xs) => assert_eq!(xs[0].as_str().unwrap(), "TAG00001"),
        _ => panic!("pn is not a list"),
    }
    assert_eq!(p.done_lines, vec!["✓ Created Deep  TAG00003".to_string()]);
}

#[test]
fn tags_edit_cannot_parent_itself() {
    let store = sample();
    let p = TagsEditArgs { tag_id: "urgent".to_string(), name: None, move_target: Some("urgent".to_string()) }.plan(&store, 0, true);
    assert_eq!(p.notes, vec!["A tag cannot be its own parent.".to_string()]);
    let q = TagsEditArgs { tag_id: "later".to_string(), name: Some("Soon".to_string()), move_target: Some("clear".to_string()) }.plan(&store, 0, true);
    assert_eq!(q.done_lines, vec!["✓ Edited Soon  TAG00002 (name, move=clear)".to_string()]);
}

#[test]
fn tags_delete_and_list() {
    let store = sample();
    let p = TagsDeleteArgs { tag_id: "TAG00002".to_string() }.plan(&store, true);
    assert_eq!(p.done_lines, vec!["× Deleted later  TAG00002".to_string()]);
    let l = TagsListArgs {}.plan(&store, true);
    assert_eq!(
        l.done_lines,
        vec![
            "⌗ Tags  (2)".to_string(),
            String::new(),
            "  ⌗ urgent".to_string(),
            "  └╴⌗ later".to_string(),
        ]
    );
}

#[test]
fn areas_new_edit_and_list() {
    let store = sample();
    let p = AreasNewArgs { title: "Work".to_string(), tags: Some("urgent".to_string()) }.plan_with(&store, 3, "AREA0002", true);
    assert_eq!(p.done_lines, vec!["✓ Created Work  AREA0002".to_string()]);
    let e = AreasEditArgs { area_id: "AREA".to_string(), title: None, add_tags: Some("later".to_string()), remove_tags: None }.plan(&store, 3, true);
    assert_eq!(e.done_lines, vec!["✓ Edited Home  AREA0001 (add-tags)".to_string()]);
    let l = AreasListArgs {}.plan(&store, true);
    assert_eq!(l.done_lines[0], "◆ Areas  (1)");
    assert_eq!(l.done_lines[1], "");
    assert!(l.done_lines[2].ends_with("◆ Home"));
}

#[test]
fn projects_new_edit_and_list() {
    let store = sample();
    let n = ProjectsNewArgs {
        title: "Shed".to_string(),
        area: Some("AREA".to_string()),
        when: Some("someday".to_string()),
        notes: String::new(),
        tags: None,
        deadline_date: None,
    };
    let p = n.plan_with(&store, 1, 0, "PROJ0002", &Err(String::new()), &Err(String::new()), true);
    assert_eq!(prop(&p, "PROJ0002", "tp").unwrap().as_i64(), Some(1));
    assert_eq!(prop(&p, "PROJ0002", "st").unwrap().as_i64(), Some(2));
    assert_eq!(p.done_lines, vec!["✓ Created Shed  PROJ0002".to_string()]);
    let e = ProjectsEditArgs {
        project_id: "PROJ".to_string(),
        title: None,
        move_target: Some("inbox".to_string()),
        notes: None,
        add_tags: None,
        remove_tags: None,
    }
    .plan(&store, 0, true);
    assert_eq!(e.notes, vec!["Projects cannot be moved to Inbox.".to_string()]);
    let l = ProjectsListArgs { detailed: false }.plan(&store, false, 0, true);
    assert_eq!(l.done_lines[0], "● Projects  (1)");
    assert_eq!(l.done_lines[1], "");
    assert!(l.done_lines[2].ends_with("◯ Garden"));
}

#[test]
fn inbox_lists_tasks_with_id_columns() {
    let store = sample();
    let p = InboxArgs { detailed: DetailedArgs { detailed: false } }.plan(&store, 0, true);
    assert_eq!(
        p.done_lines,
        vec![
            "⬓ Inbox  (2 tasks)".to_string(),
            String::new(),
            "  AA ▢ Buy milk".to_string(),
            "  BB ▢ Call mom  [urgent]".to_string(),
        ]
    );
}

#[test]
fn someday_is_empty_without_someday_tasks() {
    let store = sample();
    let p = SomedayArgs { detailed: DetailedArgs { detailed: false } }.plan(&store, 0, true);
    assert_eq!(p.done_lines, vec!["Someday is empty.".to_string()]);
}

#[test]
fn reorder_relative_to_itself_is_refused() {
    let store = sample();
    let a = ReorderArgs { item_id: "AAAA".to_string(), before_id: Some("AAAA1111".to_string()), after_id: None };
    let p = a.plan(&store, 0, 0, true);
    assert_eq!(p.notes, vec!["Cannot reorder an item relative to itself.".to_string()]);
    assert!(p.commits.is_empty());
}

#[test]
fn reorder_moves_between_neighbours() {
    let store = sample();
    let a = ReorderArgs { item_id: "BBBB".to_string(), before_id: Some("AAAA".to_string()), after_id: None };
    let p = a.plan(&store, 5, 0, true);
    assert!(p.notes.is_empty());
    assert_eq!(p.commits.len(), 1);
    assert_eq!(p.commits[0].get("BBBB2222").unwrap().properties.get("ix").unwrap().as_i64(), Some(0));
    assert_eq!(p.done_lines, vec!["✓ Reordered Call mom  BBBB2222 (before=Buy milk, index=0)".to_string()]);
}
