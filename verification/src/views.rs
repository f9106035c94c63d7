//! What the project view and the task and project rows decide before they
//! are drawn: the project header, its note lines and id column, and the
//! heights of the rows.

use vstd::prelude::*;
use crate::common::{deadline_text, fmt_deadline, icons};
use crate::listing::{lines_of, tag_names, text_lines, progress_of};
use crate::lookup::width_needed;
use crate::store::Task;
use crate::text::{concat, join_sep, join_strings, signed_decimal, signed_decimal_string, views, prefix_chars, take_chars};
use crate::things::ThingsStore;

verus! {

/// A heading of a project and its tasks.
pub struct ProjectHeadingGroup<'a> {
    pub title: String,
    pub items: Vec<&'a Task>,
}

/// What the project view shows: the project, its tasks without a heading,
/// and its headings with their tasks.
pub struct ProjectViewProps<'a> {
    pub project: Option<&'a Task>,
    pub ungrouped: Vec<&'a Task>,
    pub heading_groups: Vec<ProjectHeadingGroup<'a>>,
    pub detailed: bool,
    pub no_color: bool,
}

/// The text parts of the project view: its header, note lines, whether it
/// says "No tasks.", the id column width of its tasks, and the heading lines.
pub struct ProjectViewText {
    pub header: String,
    pub note_lines: Vec<String>,
    pub no_tasks: bool,
    pub id_prefix_len: usize,
    pub heading_lines: Vec<String>,
}

/// The header of the project view: icon, title, done and total count
/// (in wrapping 32-bit arithmetic), deadline and tags.
pub open spec fn project_header(store: ThingsStore, p: Task, today: i64, no_color: bool) -> Seq<char> {
    let pr = progress_of(store, p.uuid@);
    "●"@ + " "@ + p.title@ + "  ("@ + signed_decimal(pr.done as int) + "/"@ + signed_decimal(pr.done.wrapping_add(pr.total) as int) + ")"@
        + deadline_text(p.deadline, today, no_color)
        + (if p.tags@.len() == 0 { seq![] } else { " ["@ + join_sep(tag_names(store, p), ", "@) + "]"@ })
}

/// The ids of the view's tasks: those without a heading, then each heading's.
pub open spec fn view_ids(ungrouped: Seq<&Task>, groups: Seq<ProjectHeadingGroup>) -> Seq<String>
    decreases groups.len(),
{
    if groups.len() == 0 {
        ungrouped.map_values(|t: &Task| t.uuid)
    } else {
        view_ids(ungrouped, groups.drop_last()) + groups.last().items@.map_values(|t: &Task| t.uuid)
    }
}

/// What the project view shows as text, for the day `today`.
pub open spec fn project_view_text(store: ThingsStore, props: ProjectViewProps, today: i64, r: ProjectViewText) -> bool {
    let p = props.project.unwrap();
    let ids = view_ids(props.ungrouped@, props.heading_groups@);
    &&& r.header@ == project_header(store, *p, today, props.no_color)
    &&& views(r.note_lines@) == text_lines(match p.notes { Some(n) => n@, None => seq![] })
    &&& r.no_tasks == (props.ungrouped@.len() == 0 && props.heading_groups@.len() == 0)
    &&& r.id_prefix_len == (if ids.len() == 0 { 0 } else { width_needed(store.short_ids@, ids) })
    &&& views(r.heading_lines@) == props.heading_groups@.map_values(|g: ProjectHeadingGroup| "  "@ + g.title@)
}

fn header_of(store: &ThingsStore, p: &Task, today: i64, no_color: bool) -> (r: String)
    requires
        store.wf(),
    ensures
        r@ == project_header(*store, *p, today, no_color),
{
    let pr = store.project_progress(p.uuid.as_str());
    let counts = concat(
        concat(concat(concat("  (", signed_decimal_string(pr.done as i64).as_str()).as_str(), "/").as_str(),
            signed_decimal_string(pr.done.wrapping_add(pr.total) as i64).as_str()).as_str(),
        ")",
    );
    let head = concat(concat(concat(icons().project, " ").as_str(), p.title.as_str()).as_str(), counts.as_str());
    let dl = fmt_deadline(p.deadline, today, no_color);
    let tags: String = if p.tags.len() == 0 {
        String::new()
    } else {
        let mut names: Vec<String> = Vec::new();
        let mut i: usize = 0;
        while i < p.tags.len()
            invariant
                store.wf(),
                i <= p.tags@.len(),
                views(names@) == views(p.tags@).take(i as int).map_values(|u: Seq<char>| crate::lookup::tag_title_of(store.tags_by_uuid@, u)),
            decreases p.tags@.len() - i,
        {
            let ghost before = views(names@);
            let n = store.resolve_tag_title(p.tags[i].as_str());
            names.push(n);
            proof {
                let f = |u: Seq<char>| crate::lookup::tag_title_of(store.tags_by_uuid@, u);
                let x = views(p.tags@);
                assert(x.take(i + 1) =~= x.take(i as int).push(x[i as int]));
                assert(x.take(i + 1).map_values(f) =~= x.take(i as int).map_values(f).push(f(x[i as int])));
                assert(views(names@) =~= before.push(n@));
            }
            i += 1;
        }
        proof {
            assert(views(p.tags@).take(p.tags@.len() as int) =~= views(p.tags@));
        }
        concat(concat(" [", join_strings(&names, ", ").as_str()).as_str(), "]")
    };
    concat(concat(head.as_str(), dl.as_str()).as_str(), tags.as_str())
}

fn ids_of(ungrouped: &Vec<&Task>, groups: &Vec<ProjectHeadingGroup>) -> (r: Vec<String>)
    ensures
        r@.len() == view_ids(ungrouped@, groups@).len(),
        forall|k: int| 0 <= k < r@.len() ==> (#[trigger] r@[k])@ == view_ids(ungrouped@, groups@)[k]@,
{
    let mut r: Vec<String> = Vec::new();
    let mut i: usize = 0;
    while i < ungrouped.len()
        invariant
            i <= ungrouped@.len(),
            r@.len() == i,
            forall|k: int| 0 <= k < i ==> (#[trigger] r@[k])@ == ungrouped@[k].uuid@,
        decreases ungrouped@.len() - i,
    {
        r.push(ungrouped[i].uuid.clone());
        i += 1;
    }
    let mut g: usize = 0;
    proof {
        assert(groups@.take(0) =~= seq![]);
        assert(view_ids(ungrouped@, groups@.take(0)) =~= ungrouped@.map_values(|t: &Task| t.uuid));
    }
    while g < groups.len()
        invariant
            g <= groups@.len(),
            r@.len() == view_ids(ungrouped@, groups@.take(g as int)).len(),
            forall|k: int| 0 <= k < r@.len() ==> (#[trigger] r@[k])@ == view_ids(ungrouped@, groups@.take(g as int))[k]@,
        decreases groups@.len() - g,
    {
        let items = &groups[g].items;
        let ghost base = view_ids(ungrouped@, groups@.take(g as int));
        let ghost start = r@.len();
        proof {
            assert(groups@.take(g + 1).drop_last() =~= groups@.take(g as int));
            assert(groups@.take(g + 1).last() == groups@[g as int]);
        }
        let mut j: usize = 0;
        while j < items.len()
            invariant
                j <= items@.len(),
                r@.len() == start + j,
                start == base.len(),
                forall|k: int| 0 <= k < start ==> (#[trigger] r@[k])@ == base[k]@,
                forall|k: int| 0 <= k < j ==> (#[trigger] r@[start + k])@ == items@[k].uuid@,
            decreases items@.len() - j,
        {
            r.push(items[j].uuid.clone());
            j += 1;
        }
        proof {
            let next = view_ids(ungrouped@, groups@.take(g + 1));
            assert(next == base + items@.map_values(|t: &Task| t.uuid));
            assert forall|k: int| 0 <= k < r@.len() implies (#[trigger] r@[k])@ == next[k]@ by {
                if k >= start {
                    assert(r@[start + (k - start)] == r@[k]);
                }
            }
        }
        g += 1;
    }
    proof {
        assert(groups@.take(groups@.len() as int) =~= groups@);
    }
    r
}

impl<'a> ProjectViewProps<'a> {
    /// The text of the project view on the day `today`; none without a project.
    pub fn text(&self, store: &ThingsStore, today: i64) -> (r: Option<ProjectViewText>)
        requires
            store.wf(),
        ensures
            self.project is None ==> r is None,
            self.project is Some ==> (r matches Some(t) && project_view_text(*store, *self, today, t)),
    {
        let p = match self.project {
            None => return None,
            Some(p) => p,
        };
        let header = header_of(store, p, today, self.no_color);
        let note_lines = match &p.notes {
            Some(n) => lines_of(n.as_str()),
            None => lines_of(""),
        };
        proof {
            reveal_strlit("");
            assert(""@ =~= seq![]);
        }
        let ids = ids_of(&self.ungrouped, &self.heading_groups);
        let id_prefix_len = store.unique_prefix_length(&ids);
        proof {
            let v = view_ids(self.ungrouped@, self.heading_groups@);
            if v.len() > 0 {
                crate::commands::areas::lemma_width_same(store.short_ids@, ids@, v);
            }
        }
        let mut heading_lines: Vec<String> = Vec::new();
        let mut i: usize = 0;
        while i < self.heading_groups.len()
            invariant
                i <= self.heading_groups@.len(),
                views(heading_lines@) == self.heading_groups@.take(i as int).map_values(|g: ProjectHeadingGroup| "  "@ + g.title@),
            decreases self.heading_groups@.len() - i,
        {
            let ghost before = views(heading_lines@);
            let line = concat("  ", self.heading_groups[i].title.as_str());
            heading_lines.push(line);
            proof {
                let f = |g: ProjectHeadingGroup| "  "@ + g.title@;
                let x = self.heading_groups@;
                assert(x.take(i + 1) =~= x.take(i as int).push(x[i as int]));
                assert(x.take(i + 1).map_values(f) =~= x.take(i as int).map_values(f).push(f(x[i as int])));
                assert(views(heading_lines@) =~= before.push(line@));
            }
            i += 1;
        }
        proof {
            assert(self.heading_groups@.take(self.heading_groups@.len() as int) =~= self.heading_groups@);
        }
        Some(ProjectViewText {
            header,
            note_lines,
            no_tasks: self.ungrouped.len() == 0 && self.heading_groups.len() == 0,
            id_prefix_len,
            heading_lines,
        })
    }
}

/// A task row of a view.
pub struct TaskItemWidget<'a> {
    pub task: &'a Task,
    pub store: &'a ThingsStore,
    pub show_project: bool,
    pub show_today_markers: bool,
    pub show_staged_today_marker: bool,
    pub id_prefix_len: usize,
    pub detailed: bool,
    pub today: i64,
}

/// A project row of a view.
pub struct ProjectItemWidget<'a> {
    pub project: &'a Task,
    pub store: &'a ThingsStore,
    pub show_indicators: bool,
    pub show_staged_today_marker: bool,
    pub id_prefix_len: usize,
    pub detailed: bool,
    pub today: i64,
}

/// The number of note lines of a task.
pub open spec fn note_count(t: Task) -> int {
    match t.notes {
        Some(n) => text_lines(n@).len() as int,
        None => 0,
    }
}

/// The rows under a task: its note lines, a spacer between notes and
/// checklist, and its checklist (as a 16-bit count).
pub open spec fn task_detail_height(t: Task) -> u16 {
    let n = note_count(t);
    let c = t.checklist_items@.len() as int;
    (n + (if n > 0 && c > 0 { 1int } else { 0int }) + c) as u16
}

fn note_lines_count(t: &Task) -> (r: usize)
    ensures
        r as int == note_count(*t),
{
    match &t.notes {
        Some(n) => lines_of(n.as_str()).len(),
        None => 0,
    }
}

impl<'a> TaskItemWidget<'a> {
    /// Number of rows: one for the task, plus its detail block when shown
    /// (16-bit, wrapping on overflow).
    pub fn height(&self) -> (r: u16)
        ensures
            r == (if self.detailed { 1u16.wrapping_add(task_detail_height(*self.task)) } else { 1u16 }),
    {
        if !self.detailed {
            return 1;
        }
        let n = note_lines_count(self.task);
        let c = self.task.checklist_items.len();
        let spacer: u128 = if n > 0 && c > 0 { 1 } else { 0 };
        let dh = ((n as u128) + spacer + (c as u128)) as u16;
        1u16.wrapping_add(dh)
    }
}

impl<'a> ProjectItemWidget<'a> {
    /// The rows this project takes: its line, and its note lines when
    /// detailed (in wrapping 16-bit arithmetic).
    pub fn height(&self) -> (r: u16)
        ensures
            r == (if self.detailed { 1u16.wrapping_add(note_count(*self.project) as u16) } else { 1u16 }),
    {
        if !self.detailed {
            return 1;
        }
        let n = note_lines_count(self.project);
        1u16.wrapping_add(n as u16)
    }
}


/// What a view's header shows: an id, a title and an optional icon.
pub struct HeaderProps<'a> {
    pub uuid: Option<&'a str>,
    pub title: Option<&'a str>,
    pub id_prefix_len: usize,
    pub icon: Option<&'a str>,
}

/// The first `id_prefix_len` characters of an id; nothing when that is zero.
pub open spec fn shown_id(uuid: Seq<char>, id_prefix_len: usize) -> Seq<char> {
    if id_prefix_len == 0 { seq![] } else { take_chars(uuid, id_prefix_len as int) }
}

fn id_prefix_text(uuid: &str, id_prefix_len: usize) -> (r: String)
    ensures
        r@ == shown_id(uuid@, id_prefix_len),
{
    if id_prefix_len == 0 {
        String::new()
    } else {
        prefix_chars(uuid, id_prefix_len)
    }
}

impl<'a> HeaderProps<'a> {
    /// The header's line: the shown id, the icon when there is one, and the
    /// title, separated by spaces; none without an id or a title.
    pub fn line(&self) -> (r: Option<String>)
        ensures
            (self.uuid is None || self.title is None) ==> r is None,
            self.uuid matches Some(u) ==> (self.title matches Some(t) ==> (r matches Some(l) && l@ == shown_id(u@, self.id_prefix_len) + " "@
                + (match self.icon {
                    Some(i) => i@ + " "@,
                    None => seq![],
                }) + t@)),
    {
        let (uuid, title) = match (self.uuid, self.title) {
            (Some(u), Some(t)) => (u, t),
            _ => return None,
        };
        let id = id_prefix_text(uuid, self.id_prefix_len);
        let head = concat(id.as_str(), " ");
        let line = match self.icon {
            Some(icon) => concat(concat(head.as_str(), icon).as_str(), concat(" ", title).as_str()),
            None => concat(head.as_str(), title),
        };
        proof {
            match self.icon {
                Some(i) => {
                    assert(line@ =~= shown_id(uuid@, self.id_prefix_len) + " "@ + (i@ + " "@) + title@);
                },
                None => {},
            }
        }
        Some(line)
    }
}

} // verus!
