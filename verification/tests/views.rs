use things_cli::commands::areas::AreasEditArgs;
use things_cli::json::JsonValue;
use things_cli::keymap::KeyMap;
use things_cli::listing::{fmt_project_line, fmt_task_line, fmt_task_with_note};
use things_cli::replay::fold_items;
use things_cli::things::ThingsStore;
use things_cli::views::{HeaderProps, ProjectHeadingGroup, ProjectItemWidget, ProjectViewProps, TaskItemWidget};
use things_cli::wire::{EntityType, OperationType, WireObject};

fn create(entity: EntityType, ps: Vec<(&str, JsonValue)>) -> WireObject {
    let mut m = KeyMap::new();
    for (k, v) in ps {
        m.insert(k.to_string(), v);
    }
    WireObject { operation_type: OperationType::Create, entity_type: Some(entity), properties: m }
}

fn list(v: &[&str]) -> JsonValue {
    JsonValue::Array(v.iter().map(|x| JsonValue::string(x)).collect())
}

fn store() -> ThingsStore {
    let mut it = KeyMap::new();
    it.insert(
        "PROJ0001".to_string(),
        create(
            EntityType::Task6,
            vec![
                ("tt", JsonValue::string("Garden")),
                ("tp", JsonValue::integer(1)),
                ("st", JsonValue::integer(1)),
                ("tg", list(&["TAG00001"])),
                ("nt", JsonValue::string("first\nsecond")),
            ],
        ),
    );
    it.insert(
        "TASK0001".to_string(),
        create(
            EntityType::Task6,
            vec![
                ("tt", JsonValue::string("Dig")),
                ("st", JsonValue::integer(1)),
                ("pr", list(&["PROJ0001"])),
                ("ss", JsonValue::integer(3)),
                ("nt", JsonValue::string("deep")),
            ],
        ),
    );
    it.insert(
        "CL000001".to_string(),
        create(
            EntityType::ChecklistItem3,
            vec![("tt", JsonValue::string("spade")), ("ts", list(&["TASK0001"])), ("ss", JsonValue::integer(0))],
        ),
    );
    it.insert("TAG00001".to_string(), create(EntityType::Tag4, vec![("tt", JsonValue::string("outside"))]));
    it.insert("AREA0001".to_string(), create(EntityType::Area3, vec![("tt", JsonValue::string("Home")), ("tg", list(&["TAG00001"]))]));
    ThingsStore::from_raw_state(fold_items(vec![it]))
}

#[test]
fn project_view_header_counts_and_tags() {
    let s = store();
    let project = s.get_task("PROJ0001").unwrap();
    let dig = s.get_task("TASK0001").unwrap();
    let props = ProjectViewProps {
        project: Some(project),
        ungrouped: vec![dig],
        heading_groups: vec![ProjectHeadingGroup { title: "Later".to_string(), items: Vec::new() }],
        detailed: false,
        no_color: true,
    };
    let t = props.text(&s, 0).unwrap();
    assert_eq!(t.header, "● Garden  (1/2) [outside]");
    assert_eq!(t.note_lines, vec!["first".to_string(), "second".to_string()]);
    assert!(!t.no_tasks);
    assert_eq!(t.heading_lines, vec!["  Later".to_string()]);
    let empty = ProjectViewProps { project: None, ungrouped: Vec::new(), heading_groups: Vec::new(), detailed: false, no_color: true };
    assert!(empty.text(&s, 0).is_none());
}

#[test]
fn row_heights_count_details() {
    let s = store();
    let dig = s.get_task("TASK0001").unwrap();
    assert_eq!(dig.checklist_items.len(), 1);
    let w = TaskItemWidget { task: dig, store: &s, show_project: false, show_today_markers: false, show_staged_today_marker: false, id_prefix_len: 0, detailed: true, today: 0 };
    assert_eq!(w.height(), 4);
    let plain = TaskItemWidget { detailed: false, ..w };
    assert_eq!(plain.height(), 1);
    let project = s.get_task("PROJ0001").unwrap();
    let p = ProjectItemWidget { project, store: &s, show_indicators: true, show_staged_today_marker: false, id_prefix_len: 0, detailed: true, today: 0 };
    assert_eq!(p.height(), 3);
}

#[test]
fn task_and_project_lines() {
    let s = store();
    let dig = s.get_task("TASK0001").unwrap();
    let line = fmt_task_line(dig, &s, true, false, None, 0, true);
    assert_eq!(line, "◼ Dig  · Garden");
    let with_note = fmt_task_with_note(line, dig, "  ", Some(2), true, true);
    assert_eq!(with_note, "  ◼ Dig  · Garden\n     │ deep\n     │\n   C └╴○ spade");
    let short = fmt_task_with_note("x".to_string(), dig, "  ", None, false, true);
    assert_eq!(short, "  x");
    let project = s.get_task("PROJ0001").unwrap();
    assert_eq!(fmt_project_line(project, &s, false, None, 0, true), "◉ Garden");
}

#[test]
fn removing_an_added_tag_leaves_it_out() {
    let s = store();
    let p = AreasEditArgs {
        area_id: "AREA".to_string(),
        title: None,
        add_tags: Some("outside".to_string()),
        remove_tags: Some("outside".to_string()),
    }
    .plan(&s, 0, true);
    match p.changes.as_ref().unwrap().get("AREA0001").unwrap().properties.get("tg").unwrap() {
        JsonValue::Array(xs) => assert!(xs.is_empty()),
        _ => panic!("tg is not a list"),
    }
    assert_eq!(p.done_lines, vec!["✓ Edited Home  AREA0001 (add-tags, remove-tags)".to_string()]);
}

#[test]
fn header_line_joins_id_icon_and_title() {
    let h = HeaderProps { uuid: Some("AREA0001"), title: Some("Home"), id_prefix_len: 3, icon: Some("◆") };
    assert_eq!(h.line(), Some("ARE ◆ Home".to_string()));
    let bare = HeaderProps { id_prefix_len: 0, icon: None, ..h };
    assert_eq!(bare.line(), Some(" Home".to_string()));
    let untitled = HeaderProps { title: None, ..h };
    assert_eq!(untitled.line(), None);
}
