//! The lines of the task and project listings: a task's line with its box,
//! markers, tags, project and deadline; a project's line with its progress
//! marker; and the notes and checklists shown under them.

use vstd::prelude::*;
use crate::common::{
    BLUE, DIM, YELLOW, colored_text, dim, paint, icons, id_prefix, id_column, task_box, task_box_text,
    deadline_text, fmt_deadline, note_indent, note_indent_width, checklist_width, checklist_prefix_len,
    checklist_icon, checklist_icon_text,
};
use crate::lookup::{project_title_of, tag_title_of};
use crate::props::opt_view;
use crate::store::{ChecklistItem, Task, task_is_today, task_in_someday, ProjectProgress};
use crate::text::{
    concat, owned, spaces, repeat_space, take_chars, prefix_chars, join_sep, join_strings, views, find_char,
    split_once_char,
};
use crate::things::{ThingsStore, eff_project};

verus! {

/// `x` without a trailing carriage return.
pub open spec fn strip_cr(x: Seq<char>) -> Seq<char> {
    if x.len() > 0 && x.last() == '\r' {
        x.drop_last()
    } else {
        x
    }
}

/// The lines of a text (`str::lines`): split at `\n`, each without a
/// trailing `\r`; a final line ending adds no empty line.
#[verifier::opaque]
pub open spec fn text_lines(s: Seq<char>) -> Seq<Seq<char>>
    decreases s.len(),
{
    match find_char(s, '\n') {
        None => if s.len() == 0 {
            seq![]
        } else {
            seq![s]
        },
        Some(k) => if 0 <= k < s.len() {
            seq![strip_cr(s.take(k))] + text_lines(s.skip(k + 1))
        } else {
            seq![]
        },
    }
}

fn strip_carriage(x: String) -> (r: String)
    ensures
        r@ == strip_cr(x@),
{
    let cs = crate::text::chars_of(x.as_str());
    if cs.len() > 0 && cs[cs.len() - 1] == '\r' {
        let mut out: Vec<char> = Vec::new();
        let mut i: usize = 0;
        while i < cs.len() - 1
            invariant
                cs@ == x@,
                cs@.len() > 0,
                i + 1 <= cs@.len(),
                out@ == cs@.take(i as int),
            decreases cs@.len() - i,
        {
            out.push(cs[i]);
            proof {
                assert(out@ =~= cs@.take(i + 1));
            }
            i += 1;
        }
        proof {
            assert(out@ =~= x@.drop_last());
        }
        crate::text::string_of(&out)
    } else {
        x
    }
}

/// A found character is within the text.
pub proof fn lemma_find_char_range(s: Seq<char>, c: char)
    ensures
        find_char(s, c) matches Some(k) ==> 0 <= k < s.len() && s[k] == c,
{
    if exists|i: int| 0 <= i < s.len() && s[i] == c {
        let w = choose|i: int| 0 <= i < s.len() && s[i] == c;
        lemma_first_exists(s, c, w);
    }
}

proof fn lemma_first_exists(s: Seq<char>, c: char, w: int)
    requires
        0 <= w < s.len(),
        s[w] == c,
    ensures
        exists|i: int| 0 <= i < s.len() && s[i] == c && forall|j: int| 0 <= j < i ==> s[j] != c,
    decreases w,
{
    if exists|j: int| 0 <= j < w && s[j] == c {
        let j = choose|j: int| 0 <= j < w && s[j] == c;
        lemma_first_exists(s, c, j);
    } else {
        assert(forall|j: int| 0 <= j < w ==> s[j] != c);
    }
}

proof fn lemma_lines_split(s: Seq<char>, a: Seq<char>, b: Seq<char>)
    requires
        find_char(s, '\n') matches Some(k) && a == s.take(k) && b == s.skip(k + 1),
    ensures
        text_lines(s) == seq![strip_cr(a)] + text_lines(b),
        b.len() < s.len(),
{
    reveal(text_lines);
    lemma_find_char_range(s, '\n');
}

proof fn lemma_lines_last(s: Seq<char>)
    requires
        find_char(s, '\n') is None,
    ensures
        text_lines(s) == (if s.len() == 0 { seq![] } else { seq![s] }),
{
    reveal(text_lines);
}

/// The lines of a text (`str::lines`).
pub fn lines_of(s: &str) -> (r: Vec<String>)
    ensures
        views(r@) == text_lines(s@),
{
    let mut out: Vec<String> = Vec::new();
    let mut rest: String = owned(s);
    proof {
        assert(views(out@) + text_lines(rest@) =~= text_lines(s@));
    }
    loop
        invariant
            views(out@) + text_lines(rest@) == text_lines(s@),
        decreases rest@.len(),
    {
        let ghost before = views(out@);
        let ghost r0 = rest@;
        match split_once_char(rest.as_str(), '\n') {
            None => {
                proof {
                    lemma_lines_last(r0);
                }
                if !rest.as_str().is_empty() {
                    out.push(rest);
                    proof {
                        assert(views(out@) =~= before + seq![r0]);
                    }
                } else {
                    proof {
                        assert(before + seq![] =~= before);
                    }
                }
                return out;
            },
            Some((a, b)) => {
                proof {
                    lemma_lines_split(r0, a@, b@);
                }
                let line = strip_carriage(a);
                out.push(line);
                proof {
                    assert(views(out@) =~= before.push(line@));
                    assert(views(out@) + text_lines(b@) =~= before + (seq![line@] + text_lines(b@)));
                }
                rest = b;
            },
        }
    }
}

/// The title of a line: `(untitled)`, dimmed, for an empty one.
pub open spec fn title_text(title: Seq<char>, no_color: bool) -> Seq<char> {
    if title.len() == 0 {
        colored_text("(untitled)"@, seq![DIM], no_color)
    } else {
        title
    }
}

/// The today marker of a line: the evening moon or the today star.
pub open spec fn today_marker(t: Task, today: i64, no_color: bool) -> Seq<Seq<char>> {
    if t.evening {
        seq![colored_text("☽"@, seq![BLUE], no_color)]
    } else if task_is_today(t, today) {
        seq![colored_text("⭑"@, seq![YELLOW], no_color)]
    } else {
        seq![]
    }
}

/// The tag names of a task, as the store shows them.
pub open spec fn tag_names(store: ThingsStore, t: Task) -> Seq<Seq<char>> {
    views(t.tags@).map_values(|u: Seq<char>| tag_title_of(store.tags_by_uuid@, u))
}

/// The parts of a task's line (`fmt_task_line`), before they are joined.
pub open spec fn task_line_parts(store: ThingsStore, t: Task, show_project: bool, show_today_markers: bool, today: i64, no_color: bool) -> Seq<Seq<char>> {
    seq![colored_text(task_box_text(t), seq![DIM], no_color)]
        + (if show_today_markers { today_marker(t, today, no_color) } else { seq![] })
        + seq![title_text(t.title@, no_color)]
        + (if t.tags@.len() > 0 {
            seq![colored_text(" ["@ + join_sep(tag_names(store, t), ", "@) + "]"@, seq![DIM], no_color)]
        } else {
            seq![]
        })
        + (match eff_project(store.tasks_by_uuid@, t) {
            Some(p) => if show_project {
                seq![colored_text(" "@ + "·"@ + " "@ + project_title_of(store.tasks_by_uuid@, p), seq![DIM], no_color)]
            } else {
                seq![]
            },
            None => seq![],
        })
        + (if t.deadline is Some { seq![deadline_text(t.deadline, today, no_color)] } else { seq![] })
}

/// A task's line: its parts joined by spaces, after its id column when one is wanted.
pub open spec fn task_line(store: ThingsStore, t: Task, show_project: bool, show_today_markers: bool, id_prefix_len: Option<usize>, today: i64, no_color: bool) -> Seq<char> {
    let line = join_sep(task_line_parts(store, t, show_project, show_today_markers, today, no_color), " "@);
    match id_prefix_len {
        Some(len) => if len > 0 {
            colored_text(id_column(t.uuid@, len as nat), seq![DIM], no_color) + " "@ + line
        } else {
            line
        },
        None => line,
    }
}

pub(crate) fn tag_name_list(store: &ThingsStore, t: &Task) -> (r: Vec<String>)
    requires
        store.wf(),
    ensures
        views(r@) == tag_names(*store, *t),
{
    let mut names: Vec<String> = Vec::new();
    let mut i: usize = 0;
    while i < t.tags.len()
        invariant
            store.wf(),
            i <= t.tags@.len(),
            views(names@) == views(t.tags@).take(i as int).map_values(|u: Seq<char>| tag_title_of(store.tags_by_uuid@, u)),
        decreases t.tags@.len() - i,
    {
        let ghost before = views(names@);
        let n = store.resolve_tag_title(t.tags[i].as_str());
        names.push(n);
        proof {
            let f = |u: Seq<char>| tag_title_of(store.tags_by_uuid@, u);
            let x = views(t.tags@);
            assert(x.take(i + 1) =~= x.take(i as int).push(x[i as int]));
            assert(x.take(i + 1).map_values(f) =~= x.take(i as int).map_values(f).push(f(x[i as int])));
            assert(views(names@) =~= before.push(n@));
        }
        i += 1;
    }
    proof {
        assert(views(t.tags@).take(t.tags@.len() as int) =~= views(t.tags@));
    }
    names
}

fn push_part(parts: &mut Vec<String>, s: String)
    ensures
        views(final(parts)@) == views(old(parts)@) + seq![s@],
{
    let ghost before = views(parts@);
    parts.push(s);
    proof {
        assert(views(parts@) =~= before + seq![s@]);
    }
}

/// A task's line (`fmt_task_line`), on the day `today`.
pub fn fmt_task_line(
    task: &Task,
    store: &ThingsStore,
    show_project: bool,
    show_today_markers: bool,
    id_prefix_len: Option<usize>,
    today: i64,
    no_color: bool,
) -> (r: String)
    requires
        store.wf(),
    ensures
        r@ == task_line(*store, *task, show_project, show_today_markers, id_prefix_len, today, no_color),
{
    let ic = icons();
    let mut parts: Vec<String> = Vec::new();
    push_part(&mut parts, dim(task_box(task), no_color));
    let ghost p1 = views(parts@);
    if show_today_markers {
        if task.evening {
            push_part(&mut parts, paint(ic.evening, BLUE, no_color));
        } else if task.is_today(today) {
            push_part(&mut parts, paint(ic.today, YELLOW, no_color));
        }
    }
    proof {
        assert(views(parts@) =~= p1 + (if show_today_markers { today_marker(*task, today, no_color) } else { seq![] }));
    }
    let ghost p2 = views(parts@);
    let title = if task.title.as_str().is_empty() { dim("(untitled)", no_color) } else { task.title.clone() };
    push_part(&mut parts, title);
    let ghost p3 = views(parts@);
    if task.tags.len() > 0 {
        let names = tag_name_list(store, task);
        let joined = join_strings(&names, ", ");
        push_part(&mut parts, dim(concat(concat(" [", joined.as_str()).as_str(), "]").as_str(), no_color));
    }
    proof {
        assert(views(parts@) =~= p3 + (if task.tags@.len() > 0 {
            seq![colored_text(" ["@ + join_sep(tag_names(*store, *task), ", "@) + "]"@, seq![DIM], no_color)]
        } else {
            seq![]
        }));
    }
    let ghost p4 = views(parts@);
    if show_project {
        match store.effective_project_uuid(task) {
            Some(p) => {
                let title = store.resolve_project_title(p.as_str());
                let text = concat(concat(concat(" ", ic.separator).as_str(), " ").as_str(), title.as_str());
                push_part(&mut parts, dim(text.as_str(), no_color));
            },
            None => {},
        }
    }
    proof {
        assert(views(parts@) =~= p4 + (match eff_project(store.tasks_by_uuid@, *task) {
            Some(p) => if show_project {
                seq![colored_text(" "@ + "·"@ + " "@ + project_title_of(store.tasks_by_uuid@, p), seq![DIM], no_color)]
            } else {
                seq![]
            },
            None => seq![],
        }));
    }
    let ghost p5 = views(parts@);
    if task.deadline.is_some() {
        push_part(&mut parts, fmt_deadline(task.deadline, today, no_color));
    }
    proof {
        assert(views(parts@) =~= task_line_parts(*store, *task, show_project, show_today_markers, today, no_color));
    }
    let line = join_strings(&parts, " ");
    match id_prefix_len {
        Some(len) => {
            if len > 0 {
                return concat(concat(id_prefix(task.uuid.as_str(), len, no_color).as_str(), " ").as_str(), line.as_str());
            }
            line
        },
        None => line,
    }
}

/// `s` right-aligned in a column `w` characters wide (`{:>w$}`).
pub open spec fn right_align(s: Seq<char>, w: nat) -> Seq<char> {
    if s.len() < w {
        spaces((w - s.len()) as nat) + s
    } else {
        s
    }
}

/// The line of the `i`-th checklist item under a task.
pub open spec fn checklist_line(items: Seq<ChecklistItem>, i: int, indent: Seq<char>, col: nat, no_color: bool) -> Seq<char> {
    indent + colored_text(right_align(take_chars(items[i].uuid@, checklist_width(items)), col), seq![DIM], no_color) + " "@
        + colored_text(if i == items.len() - 1 { "└╴"@ } else { "├╴"@ }, seq![DIM], no_color)
        + colored_text(checklist_icon_text(items[i]), seq![DIM], no_color) + " "@ + items[i].title@
}

/// The lines of a task in a listing (`fmt_task_with_note`): its line, and
/// when `detailed` its notes and checklist.
pub open spec fn task_note_lines(line: Seq<char>, t: Task, indent: Seq<char>, id_prefix_len: Option<usize>, detailed: bool, no_color: bool) -> Seq<Seq<char>> {
    let first = seq![indent + line];
    if !detailed {
        first
    } else {
        let pad = indent + spaces(note_indent_width(id_prefix_len));
        let pipe = colored_text("│"@, seq![DIM], no_color);
        let nl = match t.notes {
            Some(n) => text_lines(n@),
            None => seq![],
        };
        if t.checklist_items@.len() > 0 {
            let items = t.checklist_items@;
            let col: nat = match id_prefix_len {
                Some(v) => v as nat,
                None => 0,
            };
            let notes_part = if nl.len() > 0 {
                nl.map_values(|l: Seq<char>| indent + spaces(col) + " "@ + pipe + " "@ + colored_text(l, seq![DIM], no_color))
                    + seq![indent + spaces(col) + " "@ + pipe]
            } else {
                seq![]
            };
            first + notes_part + Seq::new(items.len(), |i: int| checklist_line(items, i, indent, col, no_color))
        } else if nl.len() > 0 {
            first + nl.take(nl.len() - 1).map_values(|l: Seq<char>| pad + pipe + " "@ + colored_text(l, seq![DIM], no_color))
                + seq![pad + colored_text("└"@, seq![DIM], no_color) + " "@ + colored_text(nl.last(), seq![DIM], no_color)]
        } else {
            first
        }
    }
}

fn push_note_lines(out: &mut Vec<String>, nl: &Vec<String>, lead: &str, no_color: bool, Ghost(f): Ghost<spec_fn(Seq<char>) -> Seq<char>>, upto: usize)
    requires
        upto <= nl@.len(),
        forall|l: Seq<char>| #[trigger] f(l) == lead@ + colored_text(l, seq![DIM], no_color),
    ensures
        views(final(out)@) == views(old(out)@) + views(nl@).take(upto as int).map_values(f),
{
    let ghost start = views(out@);
    let mut i: usize = 0;
    while i < upto
        invariant
            i <= upto <= nl@.len(),
            forall|l: Seq<char>| #[trigger] f(l) == lead@ + colored_text(l, seq![DIM], no_color),
            views(out@) == start + views(nl@).take(i as int).map_values(f),
        decreases upto - i,
    {
        let ghost before = views(out@);
        let line = concat(lead, dim(nl[i].as_str(), no_color).as_str());
        out.push(line);
        proof {
            let x = views(nl@);
            assert(x.take(i + 1) =~= x.take(i as int).push(x[i as int]));
            assert(x.take(i + 1).map_values(f) =~= x.take(i as int).map_values(f).push(f(x[i as int])));
            assert(views(out@) =~= before.push(line@));
        }
        i += 1;
    }
}

/// The lines of a task in a listing, joined (`fmt_task_with_note`).
pub fn fmt_task_with_note(
    line: String,
    task: &Task,
    indent: &str,
    id_prefix_len: Option<usize>,
    detailed: bool,
    no_color: bool,
) -> (r: String)
    ensures
        r@ == join_sep(task_note_lines(line@, *task, indent@, id_prefix_len, detailed, no_color), "\n"@),
{
    let mut out: Vec<String> = Vec::new();
    out.push(concat(indent, line.as_str()));
    let ghost first = views(out@);
    proof {
        assert(first =~= seq![indent@ + line@]);
    }
    if !detailed {
        return join_strings(&out, "\n");
    }
    let pad = concat(indent, note_indent(id_prefix_len).as_str());
    let pipe = dim("│", no_color);
    let nl: Vec<String> = match &task.notes {
        Some(n) => lines_of(n.as_str()),
        None => {
            let v: Vec<String> = Vec::new();
            proof {
                assert(views(v@) =~= seq![]);
            }
            v
        },
    };
    let ghost nv = views(nl@);
    if task.checklist_items.len() > 0 {
        let items = &task.checklist_items;
        let cl_len = checklist_prefix_len(items);
        let col: usize = match id_prefix_len {
            Some(v) => v,
            None => 0,
        };
        let colpad = concat(indent, repeat_space(col).as_str());
        if nl.len() > 0 {
            let lead = concat(concat(concat(colpad.as_str(), " ").as_str(), pipe.as_str()).as_str(), " ");
            let ghost f = |l: Seq<char>| lead@ + colored_text(l, seq![DIM], no_color);
            push_note_lines(&mut out, &nl, lead.as_str(), no_color, Ghost(f), nl.len());
            let ghost b2 = views(out@);
            let tail_line = concat(concat(colpad.as_str(), " ").as_str(), pipe.as_str());
            out.push(tail_line);
            proof {
                assert(views(out@) =~= b2.push(tail_line@));
                assert(nv.take(nv.len() as int) =~= nv);
                let g = |l: Seq<char>| indent@ + spaces(col as nat) + " "@ + pipe@ + " "@ + colored_text(l, seq![DIM], no_color);
                assert(nv.map_values(f) =~= nv.map_values(g));
            }
        }
        let ghost mid = views(out@);
        proof {
            let pipev = colored_text("│"@, seq![DIM], no_color);
            let notes_part = if nv.len() > 0 {
                nv.map_values(|l: Seq<char>| indent@ + spaces(col as nat) + " "@ + pipev + " "@ + colored_text(l, seq![DIM], no_color))
                    + seq![indent@ + spaces(col as nat) + " "@ + pipev]
            } else {
                seq![]
            };
            assert(mid =~= first + notes_part);
        }
        let mut i: usize = 0;
        while i < items.len()
            invariant
                i <= items@.len(),
                items@.len() > 0,
                cl_len == checklist_width(items@),
                views(out@) == mid + Seq::new(i as nat, |j: int| checklist_line(items@, j, indent@, col as nat, no_color)),
            decreases items@.len() - i,
        {
            let item = &items[i];
            let raw = prefix_chars(item.uuid.as_str(), cl_len);
            let n = crate::text::chars_of(raw.as_str()).len();
            let aligned = if n < col { concat(repeat_space(col - n).as_str(), raw.as_str()) } else { raw };
            let connector = dim(if i == items.len() - 1 { "└╴" } else { "├╴" }, no_color);
            let text = concat(
                concat(
                    concat(
                        concat(concat(concat(indent, dim(aligned.as_str(), no_color).as_str()).as_str(), " ").as_str(), connector.as_str()).as_str(),
                        checklist_icon(item, no_color).as_str(),
                    ).as_str(),
                    " ",
                ).as_str(),
                item.title.as_str(),
            );
            let ghost before = views(out@);
            out.push(text);
            proof {
                assert(text@ == checklist_line(items@, i as int, indent@, col as nat, no_color));
                assert(views(out@) =~= before.push(text@));
                let cl = |j: int| checklist_line(items@, j, indent@, col as nat, no_color);
                assert(Seq::new((i + 1) as nat, cl) =~= Seq::new(i as nat, cl).push(cl(i as int)));
                assert(views(out@) =~= mid + Seq::new((i + 1) as nat, cl));
            }
            i += 1;
        }
        proof {
            assert(items@ == task.checklist_items@);
            assert(views(out@) =~= task_note_lines(line@, *task, indent@, id_prefix_len, detailed, no_color));
        }
        return join_strings(&out, "\n");
    }
    if nl.len() > 0 {
        let lead = concat(concat(pad.as_str(), pipe.as_str()).as_str(), " ");
        let ghost f = |l: Seq<char>| lead@ + colored_text(l, seq![DIM], no_color);
        push_note_lines(&mut out, &nl, lead.as_str(), no_color, Ghost(f), nl.len() - 1);
        let last = concat(concat(concat(pad.as_str(), dim("└", no_color).as_str()).as_str(), " ").as_str(), dim(nl[nl.len() - 1].as_str(), no_color).as_str());
        out.push(last);
        proof {
            let g = |l: Seq<char>| pad@ + pipe@ + " "@ + colored_text(l, seq![DIM], no_color);
            assert(nv.take(nv.len() - 1).map_values(f) =~= nv.take(nv.len() - 1).map_values(g));
            assert(views(out@) =~= task_note_lines(line@, *task, indent@, id_prefix_len, detailed, no_color));
        }
        return join_strings(&out, "\n");
    }
    join_strings(&out, "\n")
}

/// The progress marker of a project with `done` of `total` to-dos done:
/// empty, a quarter below one third, a half below two thirds, three
/// quarters below all, and full.
pub open spec fn progress_icon(total: i32, done: i32) -> Seq<char> {
    if total == 0 || done == 0 {
        "◯"@
    } else if done == total {
        "◉"@
    } else if 3 * done < total {
        "◔"@
    } else if 3 * done < 2 * total {
        "◑"@
    } else {
        "◕"@
    }
}

/// The progress of a project as the store counts it.
pub open spec fn progress_of(store: ThingsStore, uuid: Seq<char>) -> ProjectProgress {
    if store.project_progress_by_uuid@.contains_key(uuid) {
        store.project_progress_by_uuid@[uuid]
    } else {
        ProjectProgress { total: 0, done: 0 }
    }
}

/// The marker of a project's line: Someday's, or its progress.
pub open spec fn project_marker(store: ThingsStore, p: Task) -> Seq<char> {
    if task_in_someday(p) {
        "◌"@
    } else {
        let pr = progress_of(store, p.uuid@);
        progress_icon(pr.total, pr.done)
    }
}

/// A project's line (`fmt_project_line`), on the day `today`.
pub open spec fn project_line(store: ThingsStore, p: Task, show_indicators: bool, id_prefix_len: Option<usize>, today: i64, no_color: bool) -> Seq<char> {
    let status = if show_indicators {
        if p.evening {
            " "@ + colored_text("☽"@, seq![BLUE], no_color)
        } else if task_is_today(p, today) {
            " "@ + colored_text("⭑"@, seq![YELLOW], no_color)
        } else {
            seq![]
        }
    } else {
        seq![]
    };
    let id_part = match id_prefix_len {
        Some(len) => if len > 0 {
            colored_text(id_column(p.uuid@, len as nat), seq![DIM], no_color) + " "@
        } else {
            seq![]
        },
        None => seq![],
    };
    id_part + colored_text(project_marker(store, p), seq![DIM], no_color) + status + " "@ + title_text(p.title@, no_color)
        + deadline_text(p.deadline, today, no_color)
}

pub(crate) fn marker_of(store: &ThingsStore, p: &Task) -> (r: &'static str)
    requires
        store.wf(),
    ensures
        r@ == project_marker(*store, *p),
{
    let ic = icons();
    if p.in_someday() {
        return ic.anytime;
    }
    let pr = store.project_progress(p.uuid.as_str());
    let total = pr.total;
    let done = pr.done;
    if total == 0 || done == 0 {
        ic.progress_empty
    } else if done == total {
        ic.progress_full
    } else if (3 * (done as i64)) < (total as i64) {
        ic.progress_quarter
    } else if (3 * (done as i64)) < (2 * (total as i64)) {
        ic.progress_half
    } else {
        ic.progress_three_quarter
    }
}

/// A project's line (`fmt_project_line`), on the day `today`.
pub fn fmt_project_line(
    project: &Task,
    store: &ThingsStore,
    show_indicators: bool,
    id_prefix_len: Option<usize>,
    today: i64,
    no_color: bool,
) -> (r: String)
    requires
        store.wf(),
    ensures
        r@ == project_line(*store, *project, show_indicators, id_prefix_len, today, no_color),
{
    let ic = icons();
    let title = if project.title.as_str().is_empty() { dim("(untitled)", no_color) } else { project.title.clone() };
    let dl = fmt_deadline(project.deadline, today, no_color);
    let marker = marker_of(store, project);
    let status: String = if show_indicators {
        if project.evening {
            concat(" ", paint(ic.evening, BLUE, no_color).as_str())
        } else if project.is_today(today) {
            concat(" ", paint(ic.today, YELLOW, no_color).as_str())
        } else {
            String::new()
        }
    } else {
        String::new()
    };
    let id_part: String = match id_prefix_len {
        Some(len) => if len > 0 {
            concat(id_prefix(project.uuid.as_str(), len, no_color).as_str(), " ")
        } else {
            String::new()
        },
        None => String::new(),
    };
    concat(
        concat(
            concat(concat(concat(id_part.as_str(), dim(marker, no_color).as_str()).as_str(), status.as_str()).as_str(), " ").as_str(),
            title.as_str(),
        ).as_str(),
        dl.as_str(),
    )
}

/// The lines of a project in a listing (`fmt_project_with_note`): its line,
/// and when `detailed` its notes.
pub open spec fn project_note_lines(store: ThingsStore, p: Task, indent: Seq<char>, id_prefix_len: Option<usize>, show_indicators: bool, detailed: bool, today: i64, no_color: bool) -> Seq<Seq<char>> {
    let first = seq![indent + project_line(store, p, show_indicators, id_prefix_len, today, no_color)];
    match p.notes {
        Some(n) => if detailed {
            let nl = text_lines(n@);
            let pad = indent + spaces(note_indent_width(id_prefix_len));
            if nl.len() > 0 {
                first + nl.take(nl.len() - 1).map_values(|l: Seq<char>| pad + colored_text("│"@, seq![DIM], no_color) + " "@ + colored_text(l, seq![DIM], no_color))
                    + seq![pad + colored_text("└"@, seq![DIM], no_color) + " "@ + colored_text(nl.last(), seq![DIM], no_color)]
            } else {
                first
            }
        } else {
            first
        },
        None => first,
    }
}

/// The lines of a project in a listing, joined (`fmt_project_with_note`).
pub fn fmt_project_with_note(
    project: &Task,
    store: &ThingsStore,
    indent: &str,
    id_prefix_len: Option<usize>,
    show_indicators: bool,
    detailed: bool,
    today: i64,
    no_color: bool,
) -> (r: String)
    requires
        store.wf(),
    ensures
        r@ == join_sep(project_note_lines(*store, *project, indent@, id_prefix_len, show_indicators, detailed, today, no_color), "\n"@),
{
    let line = fmt_project_line(project, store, show_indicators, id_prefix_len, today, no_color);
    let mut out: Vec<String> = Vec::new();
    out.push(concat(indent, line.as_str()));
    let ghost first = views(out@);
    proof {
        assert(first =~= seq![indent@ + line@]);
    }
    if detailed {
        match &project.notes {
            Some(n) => {
                let nl = lines_of(n.as_str());
                let ghost nv = views(nl@);
                if nl.len() > 0 {
                    let pad = concat(indent, note_indent(id_prefix_len).as_str());
                    let lead = concat(concat(pad.as_str(), dim("│", no_color).as_str()).as_str(), " ");
                    let ghost f = |l: Seq<char>| lead@ + colored_text(l, seq![DIM], no_color);
                    push_note_lines(&mut out, &nl, lead.as_str(), no_color, Ghost(f), nl.len() - 1);
                    let ghost b2 = views(out@);
                    let last = concat(concat(concat(pad.as_str(), dim("└", no_color).as_str()).as_str(), " ").as_str(), dim(nl[nl.len() - 1].as_str(), no_color).as_str());
                    out.push(last);
                    proof {
                        assert(views(out@) =~= b2.push(last@));
                        let g = |l: Seq<char>| pad@ + colored_text("│"@, seq![DIM], no_color) + " "@ + colored_text(l, seq![DIM], no_color);
                        assert(nv.take(nv.len() - 1).map_values(f) =~= nv.take(nv.len() - 1).map_values(g));
                        assert(views(out@) =~= project_note_lines(*store, *project, indent@, id_prefix_len, show_indicators, detailed, today, no_color));
                    }
                }
            },
            None => {},
        }
    }
    join_strings(&out, "\n")
}

} // verus!
