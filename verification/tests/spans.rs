use things_cli::commands::dispatch::{AnytimeArgs, TodayArgs};
use things_cli::commands::DetailedArgs;
use things_cli::json::JsonValue;
use things_cli::keymap::KeyMap;
use things_cli::replay::fold_items;
use things_cli::spans::{project_header_spans, LeftBorderWidget, Rect, Span, TaskLine, Tone};
use things_cli::things::ThingsStore;
use things_cli::views::{ProjectItemWidget, TaskItemWidget};
use things_cli::widgets::{AreaHeaderWidget, ChecklistWidget};
use things_cli::wire::{EntityType, OperationType, WireObject};

fn create(entity: EntityType, ps: Vec<(&str, JsonValue)>) -> WireObject {
    let mut m = KeyMap::new();
    for (k, v) in ps {
        m.insert(k.to_string(), v);
    }
    WireObject { operation_type: OperationType::Create, entity_type: Some(entity), properties: m }
}

fn list(v: &[&str]) -> JsonValue {
    JsonValue::Array(v.iter().map(|x| JsonValue::string(x)).collect())
}

fn sp(text: &str, tone: Tone) -> Span {
    Span { text: text.to_string(), tone }
}

fn store() -> ThingsStore {
    let mut it = KeyMap::new();
    it.insert(
        "PROJ0001".to_string(),
        create(
            EntityType::Task6,
            vec![
                ("tt", JsonValue::string("Garden")),
                ("tp", JsonValue::integer(1)),
                ("st", JsonValue::integer(1)),
                ("nt", JsonValue::string("first\nsecond")),
            ],
        ),
    );
    it.insert(
        "TASK0001".to_string(),
        create(
            EntityType::Task6,
            vec![
                ("tt", JsonValue::string("Dig")),
                ("st", JsonValue::integer(1)),
                ("pr", list(&["PROJ0001"])),
                ("ss", JsonValue::integer(3)),
                ("nt", JsonValue::string("deep")),
            ],
        ),
    );
    it.insert(
        "TASK0002".to_string(),
        create(
            EntityType::Task6,
            vec![
                ("tt", JsonValue::string("Water")),
                ("st", JsonValue::integer(1)),
                ("ar", list(&["AREA0001"])),
                ("tg", list(&["TAG00001"])),
                ("dd", JsonValue::integer(86400)),
                ("sr", JsonValue::integer(0)),
                ("sb", JsonValue::integer(1)),
            ],
        ),
    );
    it.insert(
        "TASK0003".to_string(),
        create(EntityType::Task6, vec![("tt", JsonValue::string("")), ("st", JsonValue::integer(1)), ("sr", JsonValue::integer(0))]),
    );
    it.insert(
        "TASK0004".to_string(),
        create(
            EntityType::Task6,
            vec![
                ("tt", JsonValue::string("Sweep")),
                ("st", JsonValue::integer(1)),
                ("sr", JsonValue::integer(0)),
                ("ti", JsonValue::integer(5)),
                ("tir", JsonValue::integer(10)),
            ],
        ),
    );
    it.insert(
        "TASK0005".to_string(),
        create(
            EntityType::Task6,
            vec![
                ("tt", JsonValue::string("Mop")),
                ("st", JsonValue::integer(1)),
                ("sr", JsonValue::integer(0)),
                ("ti", JsonValue::integer(2)),
                ("tir", JsonValue::integer(10)),
            ],
        ),
    );
    it.insert(
        "CL000001".to_string(),
        create(
            EntityType::ChecklistItem3,
            vec![("tt", JsonValue::string("spade")), ("ts", list(&["TASK0001"])), ("ss", JsonValue::integer(0))],
        ),
    );
    it.insert("TAG00001".to_string(), create(EntityType::Tag4, vec![("tt", JsonValue::string("outside"))]));
    it.insert("AREA0001".to_string(), create(EntityType::Area3, vec![("tt", JsonValue::string("Home"))]));
    ThingsStore::from_raw_state(fold_items(vec![it]))
}

fn line<'a>(s: &'a ThingsStore, uuid: &str) -> TaskLine<'a> {
    TaskLine {
        task: s.get_task(uuid).unwrap(),
        store: s,
        today: 100000,
        show_today_markers: true,
        show_staged_today_marker: false,
        show_tags: true,
        show_project: true,
        show_area: true,
    }
}

#[test]
fn task_line_has_marker_tags_area_and_overdue_deadline() {
    let s = store();
    assert_eq!(
        line(&s, "TASK0002").spans(),
        vec![
            sp("☽", Tone::Blue),
            sp(" ", Tone::Plain),
            sp("Water", Tone::Plain),
            sp(" [outside]", Tone::Dim),
            sp(" · Home", Tone::Dim),
            sp(" ⚑ due by ", Tone::Plain),
            sp("1970-01-02", Tone::Red),
        ]
    );
    let early = TaskLine { today: 0, show_today_markers: false, show_area: false, ..line(&s, "TASK0002") };
    assert_eq!(
        early.spans(),
        vec![
            sp("Water", Tone::Plain),
            sp(" [outside]", Tone::Dim),
            sp(" ⚑ due by ", Tone::Plain),
            sp("1970-01-02", Tone::Yellow),
        ]
    );
}


#[test]
fn task_line_names_the_project_and_marks_today() {
    let s = store();
    assert_eq!(line(&s, "TASK0001").spans(), vec![sp("Dig", Tone::Plain), sp(" · Garden", Tone::Dim)]);
    assert_eq!(
        line(&s, "TASK0003").spans(),
        vec![sp("⭑", Tone::Yellow), sp(" ", Tone::Plain), sp("(untitled)", Tone::Dim)]
    );
}

#[test]
fn task_row_box_and_pieces() {
    let s = store();
    let dig = s.get_task("TASK0001").unwrap();
    let w = TaskItemWidget { task: dig, store: &s, show_project: true, show_today_markers: false, show_staged_today_marker: false, id_prefix_len: 2, detailed: true, today: 0 };
    assert_eq!(w.checkbox_str(), "◼");
    assert_eq!(w.row_spans(), vec![sp("Dig", Tone::Plain), sp(" · Garden", Tone::Dim)]);
    let hidden = TaskItemWidget { show_project: false, ..w };
    assert_eq!(hidden.row_spans(), vec![sp("Dig", Tone::Plain)]);
}

#[test]
fn task_detail_block_places_the_checklist() {
    let s = store();
    let dig = s.get_task("TASK0001").unwrap();
    let w = TaskItemWidget { task: dig, store: &s, show_project: true, show_today_markers: false, show_staged_today_marker: false, id_prefix_len: 2, detailed: true, today: 0 };
    let b = w.detail_block(Rect { x: 10, y: 5, width: 30, height: 3 }).unwrap();
    assert_eq!(b.border_lines, vec!["deep".to_string(), String::new()]);
    assert_eq!(b.rail_height, 3);
    assert_eq!(b.checklist_id_col, 2);
    assert_eq!(b.checklist_area, Some(Rect { x: 9, y: 7, width: 31, height: 1 }));
    assert!(w.detail_block(Rect { x: 10, y: 5, width: 30, height: 0 }).is_none());
    let no_ids = TaskItemWidget { id_prefix_len: 0, ..w };
    let b = no_ids.detail_block(Rect { x: 10, y: 5, width: 30, height: 3 }).unwrap();
    assert_eq!(b.checklist_id_col, 0);
    assert_eq!(b.checklist_area, Some(Rect { x: 10, y: 7, width: 30, height: 1 }));
}

#[test]
fn project_row_marker_pieces_and_notes() {
    let s = store();
    let garden = s.get_task("PROJ0001").unwrap();
    let w = ProjectItemWidget { project: garden, store: &s, show_indicators: true, show_staged_today_marker: false, id_prefix_len: 0, detailed: true, today: 0 };
    assert_eq!(w.progress_marker(), "◉");
    assert_eq!(w.row_spans(), vec![sp("Garden", Tone::Plain)]);
    let b = w.detail_block(Rect { x: 0, y: 0, width: 20, height: 2 }).unwrap();
    assert_eq!(b.border_lines, vec!["first".to_string(), "second".to_string()]);
    assert_eq!(b.rail_height, 2);
    assert!(b.checklist_area.is_none());
}

#[test]
fn checklist_rows_with_and_without_ids() {
    let s = store();
    let dig = s.get_task("TASK0001").unwrap();
    let with_ids = ChecklistWidget { items: &dig.checklist_items, show_ids: true }.rows();
    assert_eq!(
        with_ids,
        vec![vec![
            sp("C", Tone::Dim),
            sp(" ", Tone::Plain),
            sp("└╴", Tone::Dim),
            sp("○", Tone::Dim),
            sp(" ", Tone::Plain),
            sp("spade", Tone::Plain),
        ]]
    );
    let bare = ChecklistWidget { items: &dig.checklist_items, show_ids: false }.rows();
    assert_eq!(
        bare,
        vec![vec![sp("└╴", Tone::Dim), sp("○", Tone::Dim), sp(" ", Tone::Plain), sp("spade", Tone::Plain)]]
    );
}

#[test]
fn headers_of_areas_and_projects() {
    let s = store();
    let a = AreaHeaderWidget { area_uuid: "AREA0001", title: "Home", id_prefix_len: 3 };
    assert_eq!(
        a.spans(),
        vec![sp("ARE", Tone::Dim), sp(" ", Tone::Plain), sp("◆ ", Tone::Plain), sp("Home", Tone::Bold)]
    );
    assert_eq!(project_header_spans("PROJ0001", &s, 0), vec![sp("● ", Tone::Plain), sp("Garden", Tone::Bold)]);
}

#[test]
fn left_border_rail() {
    let w = LeftBorderWidget { children: Vec::new(), total_height: 3 };
    assert_eq!(w.height(), 3);
    assert_eq!(w.rail_glyphs(), vec!["│", "│", "└"]);
    let two = LeftBorderWidget { children: vec![vec![sp("a", Tone::Dim)], vec![sp("b", Tone::Dim)]], total_height: 0 };
    assert_eq!(two.rail_glyphs(), vec!["│", "└"]);
    assert!(two.child_area(Rect { x: 0, y: 0, width: 2, height: 1 }, 0).is_none());
    assert_eq!(two.child_area(Rect { x: 1, y: 1, width: 10, height: 2 }, 1), Some(Rect { x: 3, y: 2, width: 8, height: 1 }));
}

#[test]
fn today_lists_by_reference_then_today_index() {
    let s = store();
    let args = TodayArgs { detailed: DetailedArgs { detailed: false } };
    let list = args.select(&s, 100000);
    let titles: Vec<&str> = list.items.iter().map(|t| t.title.as_str()).collect();
    assert_eq!(titles, vec!["Mop", "Sweep", "Water"]);
    assert_eq!(list.id_prefix_len, 8);
    let before = args.select(&s, -1);
    let titles: Vec<&str> = before.items.iter().map(|t| t.title.as_str()).collect();
    assert_eq!(titles, vec!["Water"]);
}

#[test]
fn anytime_lists_started_open_tasks() {
    let s = store();
    let args = AnytimeArgs { detailed: DetailedArgs { detailed: false } };
    let mut titles: Vec<&str> = args.select(&s, 100000).iter().map(|t| t.title.as_str()).collect();
    titles.sort();
    assert_eq!(titles, vec!["Mop", "Sweep", "Water"]);
    assert!(args.select(&s, -1).is_empty());
}
