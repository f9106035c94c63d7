//! The styled pieces of the rows that the task and project views draw: the
//! today markers, the title, tags, project or area, and the deadline.

use vstd::prelude::*;
use crate::common::{fmt_date, icons, task_box, task_box_text, ymd_text};
use crate::listing::{tag_names, tag_name_list, marker_of, project_marker, lines_of, text_lines};
use crate::lookup::{area_title_of, project_title_of};
use crate::props::utc_timestamp_valid;
use crate::store::{Task, task_is_today};
use crate::text::{concat, join_sep, join_strings, owned, views};
use crate::things::{ThingsStore, eff_area, eff_project};
use crate::views::{TaskItemWidget, ProjectItemWidget, note_count};
use crate::widgets::{AreaHeaderWidget, ChecklistItemWidget, ChecklistWidget, distinct_uuids, id_col_for, item_ids};
use crate::common::checklist_icon_text;
use crate::keymap::KeyMap;
use crate::prefixes::{prefix_need, shortest_unique_prefixes};
use crate::store::ChecklistItem;
use crate::text::{prefix_chars, take_chars};

verus! {

/// How a piece of a row is drawn.
#[derive(Debug, Clone, Copy, PartialEq, Eq, Structural)]
pub enum Tone {
    Plain,
    Dim,
    Blue,
    Yellow,
    Red,
    Bold,
}

/// A piece of text and how it is drawn.
#[derive(Debug, Clone, PartialEq, Eq)]
pub struct Span {
    pub text: String,
    pub tone: Tone,
}

/// A piece of a row, by view.
pub type SpanView = (Seq<char>, Tone);

/// The views of a row's pieces.
pub open spec fn span_views(s: Seq<Span>) -> Seq<SpanView> {
    s.map_values(|x: Span| (x.text@, x.tone))
}

/// The evening moon (blue) or the today star (yellow), each followed by a
/// space, when markers are shown.
pub open spec fn marker_spans(t: Task, today: i64, show: bool) -> Seq<SpanView> {
    if !show {
        seq![]
    } else if t.evening {
        seq![("☽"@, Tone::Blue), (" "@, Tone::Plain)]
    } else if task_is_today(t, today) {
        seq![("⭑"@, Tone::Yellow), (" "@, Tone::Plain)]
    } else {
        seq![]
    }
}

/// The title, or a dimmed `(untitled)` for an empty one.
pub open spec fn title_span(title: Seq<char>) -> SpanView {
    if title.len() == 0 {
        ("(untitled)"@, Tone::Dim)
    } else {
        (title, Tone::Plain)
    }
}

/// The task's tag names in brackets, dimmed, when shown and there are any.
pub open spec fn tag_spans(store: ThingsStore, t: Task, show: bool) -> Seq<SpanView> {
    if show && t.tags@.len() > 0 {
        seq![(" ["@ + join_sep(tag_names(store, t), ", "@) + "]"@, Tone::Dim)]
    } else {
        seq![]
    }
}

/// `· title` of the task's project when projects are shown and it has one;
/// otherwise `· title` of its area when areas are shown and it has one.
pub open spec fn context_spans(store: ThingsStore, t: Task, show_project: bool, show_area: bool) -> Seq<SpanView> {
    let tasks = store.tasks_by_uuid@;
    let area = match eff_area(tasks, t) {
        Some(a) => if show_area {
            seq![(" "@ + "·"@ + " "@ + area_title_of(store.areas_by_uuid@, a), Tone::Dim)]
        } else {
            seq![]
        },
        None => seq![],
    };
    match eff_project(tasks, t) {
        Some(p) => if show_project {
            seq![(" "@ + "·"@ + " "@ + project_title_of(tasks, p), Tone::Dim)]
        } else {
            area
        },
        None => area,
    }
}

/// ` ⚑ due by ` and the deadline's date: red when before `today`, yellow
/// otherwise.
pub open spec fn deadline_spans(deadline: Option<i64>, today: i64) -> Seq<SpanView> {
    match deadline {
        None => seq![],
        Some(d) => seq![
            (" "@ + "⚑"@ + " due by "@, Tone::Plain),
            (if utc_timestamp_valid(d) { ymd_text(d) } else { seq![] }, if d < today { Tone::Red } else { Tone::Yellow }),
        ],
    }
}

/// A task's line in a view.
pub struct TaskLine<'a> {
    pub task: &'a Task,
    pub store: &'a ThingsStore,
    pub today: i64,
    pub show_today_markers: bool,
    pub show_staged_today_marker: bool,
    pub show_tags: bool,
    pub show_project: bool,
    pub show_area: bool,
}

fn push_span(out: &mut Vec<Span>, text: String, tone: Tone)
    ensures
        span_views(final(out)@) == span_views(old(out)@).push((text@, tone)),
{
    let ghost before = span_views(out@);
    out.push(Span { text, tone });
    proof {
        assert(span_views(out@) =~= before.push((text@, tone)));
    }
}

fn push_markers(out: &mut Vec<Span>, t: &Task, today: i64, show: bool)
    ensures
        span_views(final(out)@) == span_views(old(out)@) + marker_spans(*t, today, show),
{
    let ghost before = span_views(out@);
    let ic = icons();
    if show {
        if t.evening {
            push_span(out, owned(ic.evening), Tone::Blue);
            push_span(out, owned(" "), Tone::Plain);
        } else if t.is_today(today) {
            push_span(out, owned(ic.today), Tone::Yellow);
            push_span(out, owned(" "), Tone::Plain);
        }
    }
    proof {
        reveal_strlit(" ");
        assert(span_views(out@) =~= before + marker_spans(*t, today, show));
    }
}

fn push_title(out: &mut Vec<Span>, title: &String)
    ensures
        span_views(final(out)@) == span_views(old(out)@).push(title_span(title@)),
{
    if title.as_str().is_empty() {
        push_span(out, owned("(untitled)"), Tone::Dim);
    } else {
        push_span(out, title.clone(), Tone::Plain);
    }
}

fn push_tags(out: &mut Vec<Span>, store: &ThingsStore, t: &Task, show: bool)
    requires
        store.wf(),
    ensures
        span_views(final(out)@) == span_views(old(out)@) + tag_spans(*store, *t, show),
{
    let ghost before = span_views(out@);
    if show && t.tags.len() > 0 {
        let names = tag_name_list(store, t);
        let joined = join_strings(&names, ", ");
        push_span(out, concat(concat(" [", joined.as_str()).as_str(), "]"), Tone::Dim);
    }
    proof {
        assert(span_views(out@) =~= before + tag_spans(*store, *t, show));
    }
}

fn dot_title(title: &String) -> (r: String)
    ensures
        r@ == " "@ + "·"@ + " "@ + title@,
{
    concat(concat(concat(" ", icons().separator).as_str(), " ").as_str(), title.as_str())
}

fn push_context(out: &mut Vec<Span>, store: &ThingsStore, t: &Task, show_project: bool, show_area: bool)
    requires
        store.wf(),
    ensures
        span_views(final(out)@) == span_views(old(out)@) + context_spans(*store, *t, show_project, show_area),
{
    let ghost before = span_views(out@);
    let project = if show_project { store.effective_project_uuid(t) } else { None };
    match project {
        Some(p) => {
            let title = store.resolve_project_title(p.as_str());
            push_span(out, dot_title(&title), Tone::Dim);
        },
        None => {
            if show_area {
                match store.effective_area_uuid(t) {
                    Some(a) => {
                        let title = store.resolve_area_title(a.as_str());
                        push_span(out, dot_title(&title), Tone::Dim);
                    },
                    None => {},
                }
            }
        },
    }
    proof {
        assert(span_views(out@) =~= before + context_spans(*store, *t, show_project, show_area));
    }
}

fn push_deadline(out: &mut Vec<Span>, deadline: Option<i64>, today: i64)
    ensures
        span_views(final(out)@) == span_views(old(out)@) + deadline_spans(deadline, today),
{
    let ghost before = span_views(out@);
    match deadline {
        None => {},
        Some(d) => {
            let head = concat(concat(" ", icons().deadline).as_str(), " due by ");
            push_span(out, head, Tone::Plain);
            let tone = if d < today { Tone::Red } else { Tone::Yellow };
            push_span(out, fmt_date(Some(d)), tone);
        },
    }
    proof {
        assert(span_views(out@) =~= before + deadline_spans(deadline, today));
    }
}

impl<'a> TaskLine<'a> {
    /// The pieces of the line: markers, title, tags, project or area, and
    /// deadline. The staged-for-today marker is not drawn: the store keeps no
    /// staged state.
    pub fn spans(&self) -> (r: Vec<Span>)
        requires
            self.store.wf(),
        ensures
            span_views(r@) == marker_spans(*self.task, self.today, self.show_today_markers)
                + seq![title_span(self.task.title@)]
                + tag_spans(*self.store, *self.task, self.show_tags)
                + context_spans(*self.store, *self.task, self.show_project, self.show_area)
                + deadline_spans(self.task.deadline, self.today),
    {
        let mut out: Vec<Span> = Vec::new();
        proof {
            assert(span_views(out@) =~= seq![]);
        }
        push_markers(&mut out, self.task, self.today, self.show_today_markers);
        push_title(&mut out, &self.task.title);
        push_tags(&mut out, self.store, self.task, self.show_tags);
        push_context(&mut out, self.store, self.task, self.show_project, self.show_area);
        push_deadline(&mut out, self.task.deadline, self.today);
        out
    }
}

impl<'a> TaskItemWidget<'a> {
    /// The box in front of the task: done, canceled, someday or open.
    pub fn checkbox_str(&self) -> (r: &'static str)
        ensures
            r@ == task_box_text(*self.task),
    {
        task_box(self.task)
    }

    /// The pieces of the task's row after its box: markers, title, tags,
    /// project, and deadline. The staged-for-today marker is not drawn.
    pub fn row_spans(&self) -> (r: Vec<Span>)
        requires
            self.store.wf(),
        ensures
            span_views(r@) == marker_spans(*self.task, self.today, self.show_today_markers)
                + seq![title_span(self.task.title@)]
                + tag_spans(*self.store, *self.task, true)
                + context_spans(*self.store, *self.task, self.show_project, false)
                + deadline_spans(self.task.deadline, self.today),
    {
        let mut out: Vec<Span> = Vec::new();
        proof {
            assert(span_views(out@) =~= seq![]);
        }
        push_markers(&mut out, self.task, self.today, self.show_today_markers);
        push_title(&mut out, &self.task.title);
        push_tags(&mut out, self.store, self.task, true);
        push_context(&mut out, self.store, self.task, self.show_project, false);
        push_deadline(&mut out, self.task.deadline, self.today);
        out
    }
}

impl<'a> ProjectItemWidget<'a> {
    /// The marker in front of the project: Someday's, or its progress.
    pub fn progress_marker(&self) -> (r: &'static str)
        requires
            self.store.wf(),
        ensures
            r@ == project_marker(*self.store, *self.project),
    {
        marker_of(self.store, self.project)
    }

    /// The pieces of the project's row after its marker: markers, title, and
    /// deadline. The staged-for-today marker is not drawn.
    pub fn row_spans(&self) -> (r: Vec<Span>)
        ensures
            span_views(r@) == marker_spans(*self.project, self.today, self.show_indicators)
                + seq![title_span(self.project.title@)]
                + deadline_spans(self.project.deadline, self.today),
    {
        let mut out: Vec<Span> = Vec::new();
        proof {
            assert(span_views(out@) =~= seq![]);
        }
        push_markers(&mut out, self.project, self.today, self.show_indicators);
        push_title(&mut out, &self.project.title);
        push_deadline(&mut out, self.project.deadline, self.today);
        out
    }
}


/// A rectangle of cells.
#[derive(Debug, Clone, Copy, PartialEq, Eq, Structural)]
pub struct Rect {
    pub x: u16,
    pub y: u16,
    pub width: u16,
    pub height: u16,
}

/// What the detail block under a row draws: the dimmed lines beside its
/// rail, the rail's height, and where the checklist goes with the width of
/// its id column.
pub struct DetailBlock {
    pub border_lines: Vec<String>,
    pub rail_height: u16,
    pub checklist_id_col: u16,
    pub checklist_area: Option<Rect>,
}

/// The lines beside a task's rail: its note lines, then an empty spacer
/// when it has both notes and checklist items.
pub open spec fn border_lines_of(t: Task) -> Seq<Seq<char>> {
    let notes = match t.notes {
        Some(n) => text_lines(n@),
        None => seq![],
    };
    notes + (if notes.len() > 0 && t.checklist_items@.len() > 0 { seq![seq![]] } else { seq![] })
}

/// Where a task's checklist goes inside the detail `area`: below the notes
/// and spacer, shifted so that the item connectors line up with the task's
/// box whatever the two id columns' widths (16-bit, saturating where drawn
/// so, wrapping elsewhere).
pub open spec fn checklist_rect(area: Rect, above: u16, task_id_col: u16, cl_id_col: u16, items: u16) -> Rect {
    let x_offset = task_id_col.saturating_sub(cl_id_col);
    Rect {
        x: area.x.saturating_sub(cl_id_col).wrapping_add(x_offset),
        y: area.y.wrapping_add(above),
        width: area.width.saturating_add(cl_id_col).saturating_sub(x_offset),
        height: items,
    }
}

/// The width of a task's id column and its space, when ids are shown.
pub open spec fn task_id_col(id_prefix_len: usize, show_ids: bool) -> u16 {
    if show_ids { (id_prefix_len as u16).wrapping_add(1) } else { 0 }
}

/// The detail block of a task drawn into `area` (with ids when
/// `id_prefix_len` is positive).
pub open spec fn task_detail_block(t: Task, id_prefix_len: usize, area: Rect, b: DetailBlock) -> bool {
    let lines = border_lines_of(t);
    let c = t.checklist_items@.len();
    let show_ids = id_prefix_len > 0;
    &&& views(b.border_lines@) == lines
    &&& b.rail_height == (b.border_lines@.len() as u16).wrapping_add(c as u16)
    &&& id_col_for(t.checklist_items@, show_ids, b.checklist_id_col)
    &&& (c == 0 ==> b.checklist_area is None)
    &&& (c > 0 ==> b.checklist_area == Some(checklist_rect(
        area,
        (note_count(t) as u16).wrapping_add(if note_count(t) > 0 { 1u16 } else { 0u16 }),
        task_id_col(id_prefix_len, show_ids),
        b.checklist_id_col,
        c as u16,
    )))
}

impl<'a> TaskItemWidget<'a> {
    /// What the task's detail block draws into `area`: nothing in an area
    /// without rows; otherwise its note lines and spacer beside the rail, the
    /// rail's height through the checklist, and the checklist's place.
    pub fn detail_block(&self, area: Rect) -> (r: Option<DetailBlock>)
        ensures
            area.height == 0 <==> r is None,
            r matches Some(b) ==> task_detail_block(*self.task, self.id_prefix_len, area, b),
    {
        if area.height == 0 {
            return None;
        }
        let t = self.task;
        let mut lines: Vec<String> = match &t.notes {
            Some(n) => lines_of(n.as_str()),
            None => Vec::new(),
        };
        proof {
            assert(views(lines@) == match t.notes { Some(n) => text_lines(n@), None => seq![] }) by {
                if t.notes is None {
                    assert(views(lines@) =~= seq![]);
                }
            }
        }
        let n = lines.len();
        let c = t.checklist_items.len();
        let ghost before = views(lines@);
        if n > 0 && c > 0 {
            lines.push(String::new());
        }
        proof {
            assert(views(lines@) =~= border_lines_of(*t));
        }
        let rail_height = (lines.len() as u16).wrapping_add(c as u16);
        let show_ids = self.id_prefix_len > 0;
        let cl_id_col = ChecklistWidget::id_col_width(t.checklist_items.as_slice(), show_ids);
        let checklist_area = if c > 0 {
            let above = (n as u16).wrapping_add(if n > 0 { 1u16 } else { 0u16 });
            let tcol: u16 = if show_ids { (self.id_prefix_len as u16).wrapping_add(1) } else { 0 };
            let x_offset = tcol.saturating_sub(cl_id_col);
            Some(Rect {
                x: area.x.saturating_sub(cl_id_col).wrapping_add(x_offset),
                y: area.y.wrapping_add(above),
                width: area.width.saturating_add(cl_id_col).saturating_sub(x_offset),
                height: c as u16,
            })
        } else {
            None
        };
        Some(DetailBlock { border_lines: lines, rail_height, checklist_id_col: cl_id_col, checklist_area })
    }
}

impl<'a> ProjectItemWidget<'a> {
    /// What the project's detail block draws into `area`: nothing in an area
    /// without rows; otherwise its note lines beside a rail as tall as they
    /// are, and no checklist.
    pub fn detail_block(&self, area: Rect) -> (r: Option<DetailBlock>)
        ensures
            area.height == 0 <==> r is None,
            r matches Some(b) ==> {
                &&& views(b.border_lines@) == (match self.project.notes {
                    Some(n) => text_lines(n@),
                    None => seq![],
                })
                &&& b.rail_height == b.border_lines@.len() as u16
                &&& b.checklist_id_col == 0
                &&& b.checklist_area is None
            },
    {
        if area.height == 0 {
            return None;
        }
        let lines: Vec<String> = match &self.project.notes {
            Some(n) => lines_of(n.as_str()),
            None => Vec::new(),
        };
        proof {
            if self.project.notes is None {
                assert(views(lines@) =~= seq![]);
            }
        }
        let h = lines.len() as u16;
        Some(DetailBlock { border_lines: lines, rail_height: h, checklist_id_col: 0, checklist_area: None })
    }
}


/// A checklist row: the item's short id and a space when ids are shown, the
/// connector (`└╴` on the last row, `├╴` above it), the item's icon, a space
/// and its title.
pub open spec fn checklist_item_spans(item: ChecklistItem, id: Option<Seq<char>>, is_last: bool) -> Seq<SpanView> {
    (match id {
        Some(s) => seq![(s, Tone::Dim), (" "@, Tone::Plain)],
        None => seq![],
    }) + seq![
        (if is_last { "└╴"@ } else { "├╴"@ }, Tone::Dim),
        (checklist_icon_text(item), Tone::Dim),
        (" "@, Tone::Plain),
        (item.title@, Tone::Plain),
    ]
}

/// Row `i` of a checklist: with the item's shortest unique id prefix among
/// the checklist's ids when ids are `shown`.
pub open spec fn checklist_row(items: Seq<ChecklistItem>, i: int, shown: bool, row: Seq<SpanView>) -> bool {
    let it = items[i];
    let last = i == items.len() - 1;
    if shown {
        exists|need: int| #[trigger] prefix_need(item_ids(items), it.uuid@, need)
            && row == checklist_item_spans(it, Some(take_chars(it.uuid@, need)), last)
    } else {
        row == checklist_item_spans(it, None, last)
    }
}

impl<'a> ChecklistItemWidget<'a> {
    /// The pieces of the row.
    pub fn spans(&self) -> (r: Vec<Span>)
        ensures
            span_views(r@) == checklist_item_spans(*self.item, match self.id {
                Some(s) => Some(s@),
                None => None,
            }, self.is_last),
    {
        let mut out: Vec<Span> = Vec::new();
        proof {
            assert(span_views(out@) =~= seq![]);
            reveal_strlit(" ");
        }
        match self.id {
            Some(s) => {
                push_span(&mut out, owned(s), Tone::Dim);
                push_span(&mut out, owned(" "), Tone::Plain);
            },
            None => {},
        }
        let connector = if self.is_last { "└╴" } else { "├╴" };
        push_span(&mut out, owned(connector), Tone::Dim);
        push_span(&mut out, owned(self.icon_str()), Tone::Dim);
        push_span(&mut out, owned(" "), Tone::Plain);
        push_span(&mut out, self.item.title.clone(), Tone::Plain);
        proof {
            assert(span_views(out@) =~= checklist_item_spans(*self.item, match self.id {
                Some(s) => Some(s@),
                None => None,
            }, self.is_last));
        }
        out
    }
}

impl<'a> ChecklistWidget<'a> {
    /// The rows of the checklist, one per item; ids are shown when the id
    /// column has a width.
    pub fn rows(&self) -> (r: Vec<Vec<Span>>)
        ensures
            r@.len() == self.items@.len(),
            exists|w: u16| #[trigger] id_col_for(self.items@, self.show_ids, w)
                && forall|i: int| 0 <= i < r@.len() ==> checklist_row(self.items@, i, w > 0, span_views(#[trigger] r@[i]@)),
    {
        let items = self.items;
        let w = ChecklistWidget::id_col_width(items, self.show_ids);
        let prefixes: Option<KeyMap<String>> = if w > 0 {
            let ids = distinct_uuids(items);
            Some(shortest_unique_prefixes(&ids))
        } else {
            None
        };
        let mut out: Vec<Vec<Span>> = Vec::new();
        let mut i: usize = 0;
        while i < items.len()
            invariant
                i <= items@.len(),
                out@.len() == i,
                id_col_for(items@, self.show_ids, w),
                (w > 0) == (prefixes is Some),
                prefixes matches Some(p) ==> p.wf() && crate::prefixes::short_ids_of(p@, item_ids(items@)),
                forall|k: int| 0 <= k < i ==> checklist_row(items@, k, w > 0, span_views(#[trigger] out@[k]@)),
            decreases items@.len() - i,
        {
            let item = &items[i];
            let id: Option<&str> = match &prefixes {
                Some(p) => match p.get(item.uuid.as_str()) {
                    Some(v) => Some(v.as_str()),
                    None => None,
                },
                None => None,
            };
            proof {
                if w > 0 {
                    assert(item_ids(items@).contains(items@[i as int].uuid@));
                }
            }
            let row = ChecklistItemWidget { item, id, is_last: i == items.len() - 1 }.spans();
            proof {
                if w > 0 {
                    let p = prefixes.unwrap();
                    let u = items@[i as int].uuid@;
                    let need = choose|need: int| prefix_need(item_ids(items@), u, need) && p@[u]@ == take_chars(u, need);
                    assert(prefix_need(item_ids(items@), u, need));
                    assert(checklist_row(items@, i as int, true, span_views(row@)));
                }
            }
            let ghost before = out@;
            out.push(row);
            proof {
                assert forall|k: int| 0 <= k < i + 1 implies checklist_row(items@, k, w > 0, span_views(#[trigger] out@[k]@)) by {
                    if k < i {
                        assert(out@[k] == before[k]);
                    }
                }
            }
            i += 1;
        }
        out
    }
}

impl<'a> AreaHeaderWidget<'a> {
    /// The pieces of the header: the area's id column (its first
    /// `id_prefix_len` characters, dimmed, and a space) when it has a width,
    /// then the area icon with a space, and the title in bold.
    pub fn spans(&self) -> (r: Vec<Span>)
        ensures
            span_views(r@) == (if (self.id_prefix_len as u16) > 0 {
                seq![(take_chars(self.area_uuid@, self.id_prefix_len as int), Tone::Dim), (" "@, Tone::Plain)]
            } else {
                seq![]
            }) + seq![("◆"@ + " "@, Tone::Plain), (self.title@, Tone::Bold)],
    {
        let mut out: Vec<Span> = Vec::new();
        proof {
            assert(span_views(out@) =~= seq![]);
            reveal_strlit(" ");
        }
        if (self.id_prefix_len as u16) > 0 {
            push_span(&mut out, prefix_chars(self.area_uuid, self.id_prefix_len), Tone::Dim);
            push_span(&mut out, owned(" "), Tone::Plain);
        }
        push_span(&mut out, concat(icons().area, " "), Tone::Plain);
        push_span(&mut out, owned(self.title), Tone::Bold);
        proof {
            assert(span_views(out@) =~= (if (self.id_prefix_len as u16) > 0 {
                seq![(take_chars(self.area_uuid@, self.id_prefix_len as int), Tone::Dim), (" "@, Tone::Plain)]
            } else {
                seq![]
            }) + seq![("◆"@ + " "@, Tone::Plain), (self.title@, Tone::Bold)]);
        }
        out
    }
}


/// The pieces of a project's header in grouped views: the project's id
/// column (its first `id_prefix_len` characters, dimmed, and a space) when it
/// has a width, then the project icon with a space, and the project's title
/// in bold.
pub fn project_header_spans(project_uuid: &str, store: &ThingsStore, id_prefix_len: usize) -> (r: Vec<Span>)
    requires
        store.wf(),
    ensures
        span_views(r@) == (if (id_prefix_len as u16) > 0 {
            seq![(take_chars(project_uuid@, id_prefix_len as int), Tone::Dim), (" "@, Tone::Plain)]
        } else {
            seq![]
        }) + seq![("●"@ + " "@, Tone::Plain), (project_title_of(store.tasks_by_uuid@, project_uuid@), Tone::Bold)],
{
    let mut out: Vec<Span> = Vec::new();
    proof {
        assert(span_views(out@) =~= seq![]);
        reveal_strlit(" ");
    }
    if (id_prefix_len as u16) > 0 {
        push_span(&mut out, prefix_chars(project_uuid, id_prefix_len), Tone::Dim);
        push_span(&mut out, owned(" "), Tone::Plain);
    }
    push_span(&mut out, concat(icons().project, " "), Tone::Plain);
    push_span(&mut out, store.resolve_project_title(project_uuid), Tone::Bold);
    proof {
        assert(span_views(out@) =~= (if (id_prefix_len as u16) > 0 {
            seq![(take_chars(project_uuid@, id_prefix_len as int), Tone::Dim), (" "@, Tone::Plain)]
        } else {
            seq![]
        }) + seq![("●"@ + " "@, Tone::Plain), (project_title_of(store.tasks_by_uuid@, project_uuid@), Tone::Bold)]);
    }
    out
}


/// A rail down the left of a detail block, with lines to its right. The rail
/// is `total_height` rows tall, or as tall as the lines when that is zero.
pub struct LeftBorderWidget {
    pub children: Vec<Vec<Span>>,
    pub total_height: u16,
}

/// The rail's glyphs, top to bottom: `│` on each row and `└` on the last.
pub open spec fn rail_glyphs_of(h: nat) -> Seq<Seq<char>> {
    Seq::new(h, |i: int| if i == h - 1 { "└"@ } else { "│"@ })
}

impl LeftBorderWidget {
    /// The number of rows of the rail.
    pub fn height(&self) -> (r: u16)
        ensures
            r == (if self.total_height > 0 { self.total_height } else { self.children@.len() as u16 }),
    {
        if self.total_height > 0 {
            self.total_height
        } else {
            self.children.len() as u16
        }
    }

    /// The glyph of each row of the rail.
    pub fn rail_glyphs(&self) -> (r: Vec<&'static str>)
        ensures
            r@.map_values(|g: &str| g@) == rail_glyphs_of(
                (if self.total_height > 0 { self.total_height } else { self.children@.len() as u16 }) as nat,
            ),
    {
        let h = self.height();
        let mut out: Vec<&'static str> = Vec::new();
        let mut row: u16 = 0;
        while row < h
            invariant
                row <= h,
                out@.len() == row,
                forall|i: int| 0 <= i < row ==> (#[trigger] out@[i])@ == (if i == h - 1 { "└"@ } else { "│"@ }),
            decreases h - row,
        {
            let g = if row == h - 1 { "└" } else { "│" };
            out.push(g);
            row += 1;
        }
        proof {
            assert(out@.map_values(|g: &str| g@) =~= rail_glyphs_of(h as nat));
        }
        out
    }

    /// Where the `i`-th line goes in `area`: two cells right of the rail, one
    /// row high; nowhere when the area is at most two cells wide or has no
    /// rows.
    pub fn child_area(&self, area: Rect, i: u16) -> (r: Option<Rect>)
        ensures
            r == (if area.height == 0 || area.width <= 2 {
                None
            } else {
                Some(Rect { x: area.x.wrapping_add(2), y: area.y.wrapping_add(i), width: (area.width - 2) as u16, height: 1 })
            }),
    {
        if area.height == 0 || area.width <= 2 {
            return None;
        }
        Some(Rect { x: area.x.wrapping_add(2), y: area.y.wrapping_add(i), width: area.width - 2, height: 1 })
    }
}

} // verus!
