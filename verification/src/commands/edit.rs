//! `edit`: changes the title, notes, container, tags and checklist of tasks.

use vstd::prelude::*;
use crate::commands::{CommandPlan, reports_only, report_one, json_strs, json_str1, json_empty_list};
use crate::commands::changes::{
    PVal, ObjSpec, pval_is, props_are, obj_matches, changes_are, lemma_props_insert, lemma_changes_insert, put,
};
use crate::commands::mark::{done_line, done_line_text, with_prefix, checklist_selection, resolve_checklist_items, lemma_pick_msgs, scan_prefix};
use crate::common::{DIM, colored_text, dim, icons, note_value, task6_note, resolve_tag_ids, tag_ids_from, lemma_tag_ids_msg};
use crate::json::{JsonValue, int_value};
use crate::keymap::KeyMap;
use crate::lookup::{resolved, deref_opt};
use crate::store::{Task, ChecklistItem};
use crate::text::{
    concat, owned, same_text, trim, trimmed, lowercase, to_lowercase, join_sep, join_strings, views,
    comma_tokens, split_once_char, find_char,
};
use crate::things::ThingsStore;
use crate::wire::{EntityType, OperationType, TaskStart, TaskType, WireObject, entity_of};

verus! {

/// The arguments of `edit`.
pub struct EditArgs {
    pub task_ids: Vec<String>,
    pub title: Option<String>,
    pub notes: Option<String>,
    pub move_target: Option<String>,
    pub add_tags: Option<String>,
    pub remove_tags: Option<String>,
    pub add_checklist: Vec<String>,
    pub remove_checklist: Option<String>,
    pub rename_checklist: Vec<String>,
}

/// The message when several tasks are given with an option that takes one.
pub open spec fn edit_precheck(args: EditArgs) -> Option<Seq<char>> {
    let multiple = args.task_ids@.len() > 1;
    if multiple && args.title is Some {
        Some("--title requires a single task ID."@)
    } else if multiple && args.notes is Some {
        Some("--notes requires a single task ID."@)
    } else if multiple && (args.add_checklist@.len() > 0 || args.remove_checklist is Some || args.rename_checklist@.len() > 0) {
        Some("--add-checklist/--remove-checklist/--rename-checklist require a single task ID."@)
    } else {
        None
    }
}

/// The tasks the ids name, in order; or the message of the first id that
/// names none, or names a project.
pub open spec fn edit_targets(tasks: Map<Seq<char>, Task>, ids: Seq<String>, idents: Seq<Seq<char>>) -> Result<Seq<Task>, Seq<char>>
    decreases idents.len(),
{
    if idents.len() == 0 {
        Ok(seq![])
    } else {
        match edit_targets(tasks, ids, idents.drop_last()) {
            Err(m) => Err(m),
            Ok(ts) => {
                let r = resolved(tasks, ids, idents.last(), "Item"@);
                match r.0 {
                    None => Err(r.1),
                    Some(t) => if t.item_type == TaskType::Project {
                        Err("Use 'projects edit' to edit a project."@)
                    } else {
                        Ok(ts.push(t))
                    },
                }
            },
        }
    }
}

/// Where `--move` sends the tasks.
pub enum Destination {
    Stay,
    Inbox,
    Clear,
    Project(Seq<char>),
    Area(Seq<char>),
}

/// The destination `--move` names, with its label; or the message why it names none.
pub open spec fn move_choice(
    tasks: Map<Seq<char>, Task>,
    ids: Seq<String>,
    areas: Map<Seq<char>, crate::store::Area>,
    area_ids: Seq<String>,
    target: Option<String>,
) -> Result<(Destination, Seq<Seq<char>>), Seq<char>> {
    let raw = match target {
        Some(x) => x@,
        None => seq![],
    };
    let l = lowercase(raw);
    if trimmed(raw).len() == 0 {
        Ok((Destination::Stay, seq![]))
    } else if l == "inbox"@ {
        Ok((Destination::Inbox, seq!["move=inbox"@]))
    } else if l == "clear"@ {
        Ok((Destination::Clear, seq!["move=clear"@]))
    } else {
        let rp = resolved(tasks, ids, raw, "Item"@);
        let ra = resolved(areas, area_ids, raw, "Area"@);
        let is_project = rp.0 matches Some(p) && p.item_type == TaskType::Project;
        if is_project && ra.0 is Some {
            Err("Ambiguous --move target '"@ + raw + "' (matches project and area)."@)
        } else if rp.0 is Some && !is_project {
            Err("--move target must be Inbox, clear, a project ID, or an area ID."@)
        } else if is_project {
            Ok((Destination::Project(rp.0.unwrap().uuid@), seq!["move="@ + raw]))
        } else if ra.0 is Some {
            Ok((Destination::Area(ra.0.unwrap().uuid@), seq!["move="@ + raw]))
        } else {
            Err("Container not found: "@ + raw)
        }
    }
}

/// The tag ids an optional list of tags names (none without the option).
pub open spec fn tag_option(tags: Map<Seq<char>, crate::store::Tag>, raw: Option<String>) -> Result<Seq<Seq<char>>, Seq<char>> {
    match raw {
        None => Ok(seq![]),
        Some(r) => tag_ids_from(tags, comma_tokens(r@)),
    }
}

/// How `format!("{:?}")` shows a string: quoted, with escapes.
pub uninterp spec fn debug_text(s: Seq<char>) -> Seq<char>;

/// `format!("{:?}", s)`; the text depends on `s` alone.
#[verifier::external_body]
fn debug_quoted(s: &str) -> (r: String)
    ensures
        r@ == debug_text(s@),
{
    format!("{:?}", s)
}

/// The message of a malformed rename.
pub open spec fn rename_format_text(token: Seq<char>) -> Seq<char> {
    "--rename-checklist requires 'id:new title' format, got: "@ + debug_text(token)
}

/// Sets `key` to `value` in a list of pairs: in place when present, at the end otherwise.
pub open spec fn pairs_set(ps: Seq<(Seq<char>, Seq<char>)>, key: Seq<char>, value: Seq<char>) -> Seq<(Seq<char>, Seq<char>)> {
    if exists|i: int| 0 <= i < ps.len() && ps[i].0 == key {
        let i = choose|i: int| 0 <= i < ps.len() && ps[i].0 == key;
        ps.update(i, (key, value))
    } else {
        ps.push((key, value))
    }
}

/// The renames `id:new title` asks for, each id once with its last title; or
/// the message of the first malformed one.
pub open spec fn rename_pairs(tokens: Seq<Seq<char>>) -> Result<Seq<(Seq<char>, Seq<char>)>, Seq<char>>
    decreases tokens.len(),
{
    if tokens.len() == 0 {
        Ok(seq![])
    } else {
        match rename_pairs(tokens.drop_last()) {
            Err(m) => Err(m),
            Ok(ps) => {
                let tok = tokens.last();
                match find_char(tok, ':') {
                    None => Err(rename_format_text(tok)),
                    Some(i) => {
                        let short = trimmed(tok.take(i));
                        let title = trimmed(tok.skip(i + 1));
                        if short.len() == 0 || title.len() == 0 {
                            Err(rename_format_text(tok))
                        } else {
                            Ok(pairs_set(ps, short, title))
                        }
                    },
                }
            },
        }
    }
}

fn move_message(raw: &str) -> (r: String)
    ensures
        r@ == "Ambiguous --move target '"@ + raw@ + "' (matches project and area)."@,
{
    concat(concat("Ambiguous --move target '", raw).as_str(), "' (matches project and area).")
}

/// Resolves `--move`: the kind of destination (0 stay, 1 inbox, 2 clear,
/// 3 project, 4 area), its id, and the labels.
fn resolve_move(store: &ThingsStore, target: &Option<String>) -> (r: Result<(u8, String, Vec<String>), String>)
    requires
        store.wf(),
    ensures
        match move_choice(store.tasks_by_uuid@, store.markable_ids_sorted@, store.areas_by_uuid@, store.area_ids_sorted@, *target) {
            Err(m) => r matches Err(e) && e@ == m,
            Ok((d, ls)) => r matches Ok(x) && views(x.2@) == ls && match d {
                Destination::Stay => x.0 == 0,
                Destination::Inbox => x.0 == 1,
                Destination::Clear => x.0 == 2,
                Destination::Project(u) => x.0 == 3 && x.1@ == u,
                Destination::Area(u) => x.0 == 4 && x.1@ == u,
            },
        },
{
    let raw: String = match target {
        Some(x) => x.clone(),
        None => String::new(),
    };
    let l = to_lowercase(raw.as_str());
    let t = trim(raw.as_str());
    let mut labels: Vec<String> = Vec::new();
    if t.as_str().is_empty() {
        proof {
            assert(views(labels@) =~= seq![]);
        }
        return Ok((0, String::new(), labels));
    }
    if same_text(l.as_str(), "inbox") {
        labels.push(owned("move=inbox"));
        proof {
            assert(views(labels@) =~= seq!["move=inbox"@]);
        }
        return Ok((1, String::new(), labels));
    }
    if same_text(l.as_str(), "clear") {
        labels.push(owned("move=clear"));
        proof {
            assert(views(labels@) =~= seq!["move=clear"@]);
        }
        return Ok((2, String::new(), labels));
    }
    let rp = store.resolve_mark_identifier(raw.as_str());
    let ra = store.resolve_area_identifier(raw.as_str());
    let project_uuid: Option<String> = match rp.0 {
        Some(p) => if p.is_project() { Some(p.uuid.clone()) } else { None },
        None => None,
    };
    if project_uuid.is_some() && ra.0.is_some() {
        return Err(move_message(raw.as_str()));
    }
    if rp.0.is_some() && project_uuid.is_none() {
        return Err(owned("--move target must be Inbox, clear, a project ID, or an area ID."));
    }
    let label = concat("move=", raw.as_str());
    labels.push(label);
    proof {
        assert(views(labels@) =~= seq!["move="@ + raw@]);
    }
    match project_uuid {
        Some(u) => Ok((3, u, labels)),
        None => match ra.0 {
            Some(a) => Ok((4, a.uuid.clone(), labels)),
            None => Err(concat("Container not found: ", raw.as_str())),
        },
    }
}

fn tag_option_ids(store: &ThingsStore, raw: &Option<String>) -> (r: Result<Vec<String>, String>)
    requires
        store.wf(),
    ensures
        match tag_option(store.tags_by_uuid@, *raw) {
            Ok(ids) => r matches Ok(v) && views(v@) == ids,
            Err(m) => r matches Err(e) && e@ == m,
        },
{
    match raw {
        None => {
            let v: Vec<String> = Vec::new();
            proof {
                assert(views(v@) =~= seq![]);
            }
            Ok(v)
        },
        Some(t) => {
            let (ids, err) = resolve_tag_ids(store, t.as_str());
            proof {
                lemma_tag_ids_msg(store.tags_by_uuid@, comma_tokens(t@));
            }
            if err.as_str().is_empty() {
                Ok(ids)
            } else {
                Err(err)
            }
        },
    }
}

/// The spec view of a list of string pairs.
pub open spec fn pair_views(ps: Seq<(String, String)>) -> Seq<(Seq<char>, Seq<char>)> {
    ps.map_values(|p: (String, String)| (p.0@, p.1@))
}

/// No two pairs share a first element.
pub open spec fn distinct_firsts(ps: Seq<(Seq<char>, Seq<char>)>) -> bool {
    forall|i: int, j: int| 0 <= i < ps.len() && 0 <= j < ps.len() && i != j ==> (#[trigger] ps[i]).0 != (#[trigger] ps[j]).0
}

fn pairs_put(ps: &mut Vec<(String, String)>, key: String, value: String)
    requires
        distinct_firsts(pair_views(old(ps)@)),
    ensures
        pair_views(final(ps)@) == pairs_set(pair_views(old(ps)@), key@, value@),
        distinct_firsts(pair_views(final(ps)@)),
{
    let ghost pv = pair_views(ps@);
    let mut i: usize = 0;
    while i < ps.len()
        invariant
            i <= ps@.len(),
            pv == pair_views(ps@),
            pv == pair_views(old(ps)@),
            distinct_firsts(pv),
            forall|j: int| 0 <= j < i ==> (#[trigger] pv[j]).0 != key@,
        decreases ps@.len() - i,
    {
        if same_text(ps[i].0.as_str(), key.as_str()) {
            proof {
                assert(pv[i as int].0 == key@);
                assert(exists|c: int| 0 <= c < pv.len() && pv[c].0 == key@);
                let c = choose|c: int| 0 <= c < pv.len() && pv[c].0 == key@;
                if c != i {
                    assert(pv[c].0 == pv[i as int].0);
                }
                assert(c == i);
                assert(pairs_set(pv, key@, value@) == pv.update(i as int, (key@, value@)));
            }
            ps.set(i, (key, value));
            proof {
                assert(pair_views(ps@) =~= pv.update(i as int, (key@, value@)));
                let nv = pair_views(ps@);
                assert forall|a: int, b: int| 0 <= a < nv.len() && 0 <= b < nv.len() && a != b implies (#[trigger] nv[a]).0 != (#[trigger] nv[b]).0 by {
                    if a != i && b != i {
                        assert(nv[a] == pv[a] && nv[b] == pv[b]);
                    } else if a == i {
                        assert(nv[b] == pv[b]);
                        assert(pv[i as int].0 == key@);
                    } else {
                        assert(nv[a] == pv[a]);
                        assert(pv[i as int].0 == key@);
                    }
                }
            }
            return;
        }
        i += 1;
    }
    ps.push((key, value));
    proof {
        assert(pair_views(ps@) =~= pv.push((key@, value@)));
        let nv = pair_views(ps@);
        assert forall|a: int, b: int| 0 <= a < nv.len() && 0 <= b < nv.len() && a != b implies (#[trigger] nv[a]).0 != (#[trigger] nv[b]).0 by {
            if a < pv.len() && b < pv.len() {
                assert(nv[a] == pv[a] && nv[b] == pv[b]);
            } else if a < pv.len() {
                assert(nv[a] == pv[a]);
            } else {
                assert(nv[b] == pv[b]);
            }
        }
    }
}

fn parse_renames(tokens: &Vec<String>) -> (r: Result<Vec<(String, String)>, String>)
    ensures
        match rename_pairs(views(tokens@)) {
            Ok(ps) => r matches Ok(v) && pair_views(v@) == ps,
            Err(m) => r matches Err(e) && e@ == m,
        },
{
    let ghost ts = views(tokens@);
    let mut ps: Vec<(String, String)> = Vec::new();
    let mut i: usize = 0;
    proof {
        assert(ts.take(0) =~= seq![]);
        assert(pair_views(ps@) =~= seq![]);
    }
    while i < tokens.len()
        invariant
            ts == views(tokens@),
            i <= tokens@.len(),
            distinct_firsts(pair_views(ps@)),
            rename_pairs(ts.take(i as int)) == Ok::<Seq<(Seq<char>, Seq<char>)>, Seq<char>>(pair_views(ps@)),
        decreases tokens@.len() - i,
    {
        proof {
            assert(ts.take(i + 1).drop_last() =~= ts.take(i as int));
            assert(ts.take(i + 1).last() == tokens@[i as int]@);
        }
        let tok = tokens[i].as_str();
        match split_once_char(tok, ':') {
            None => {
                let m = concat("--rename-checklist requires 'id:new title' format, got: ", debug_quoted(tok).as_str());
                proof {
                    lemma_renames_err(ts, i + 1, m@);
                }
                return Err(m);
            },
            Some((a, b)) => {
                let short = trim(a.as_str());
                let title = trim(b.as_str());
                if short.as_str().is_empty() || title.as_str().is_empty() {
                    let m = concat("--rename-checklist requires 'id:new title' format, got: ", debug_quoted(tok).as_str());
                    proof {
                        lemma_renames_err(ts, i + 1, m@);
                    }
                    return Err(m);
                }
                pairs_put(&mut ps, short, title);
            },
        }
        i += 1;
    }
    proof {
        assert(ts.take(ts.len() as int) =~= ts);
    }
    Ok(ps)
}

proof fn lemma_renames_err(s: Seq<Seq<char>>, i: int, m: Seq<char>)
    requires
        0 <= i <= s.len(),
        rename_pairs(s.take(i)) == Err::<Seq<(Seq<char>, Seq<char>)>, Seq<char>>(m),
    ensures
        rename_pairs(s) == Err::<Seq<(Seq<char>, Seq<char>)>, Seq<char>>(m),
    decreases s.len() - i,
{
    if i < s.len() {
        assert(s.take(i + 1).drop_last() =~= s.take(i));
        lemma_renames_err(s, i + 1, m);
    } else {
        assert(s.take(i) =~= s);
    }
}

/// The tags with each of `add` that is missing appended, in order.
pub open spec fn with_added(cur: Seq<Seq<char>>, add: Seq<Seq<char>>) -> Seq<Seq<char>>
    decreases add.len(),
{
    if add.len() == 0 {
        cur
    } else {
        let c = with_added(cur, add.drop_last());
        if c.contains(add.last()) {
            c
        } else {
            c.push(add.last())
        }
    }
}

/// The tags that are not in `remove`, in order.
pub open spec fn without(cur: Seq<Seq<char>>, remove: Seq<Seq<char>>) -> Seq<Seq<char>>
    decreases cur.len(),
{
    if cur.len() == 0 {
        seq![]
    } else {
        let r = without(cur.drop_last(), remove);
        if remove.contains(cur.last()) {
            r
        } else {
            r.push(cur.last())
        }
    }
}

pub(crate) fn listed_text(v: &Vec<String>, s: &str) -> (r: bool)
    ensures
        r == views(v@).contains(s@),
{
    let mut i: usize = 0;
    while i < v.len()
        invariant
            i <= v@.len(),
            forall|j: int| 0 <= j < i ==> (#[trigger] v@[j])@ != s@,
        decreases v@.len() - i,
    {
        if same_text(v[i].as_str(), s) {
            proof {
                assert(views(v@)[i as int] == s@);
            }
            return true;
        }
        i += 1;
    }
    proof {
        if views(v@).contains(s@) {
            let j = choose|j: int| 0 <= j < views(v@).len() && views(v@)[j] == s@;
            assert(v@[j]@ == s@);
        }
    }
    false
}

/// Changing tags keeps what was asked: no removed tag is left, every added
/// tag that is not also removed is there, and every earlier tag that is not
/// removed stays.
pub proof fn lemma_retag(cur: Seq<Seq<char>>, add: Seq<Seq<char>>, remove: Seq<Seq<char>>)
    ensures
        forall|x: Seq<char>| #[trigger] remove.contains(x) ==> !without(with_added(cur, add), remove).contains(x),
        forall|x: Seq<char>| #[trigger] add.contains(x) && !remove.contains(x) ==> without(with_added(cur, add), remove).contains(x),
        forall|x: Seq<char>| #[trigger] cur.contains(x) && !remove.contains(x) ==> without(with_added(cur, add), remove).contains(x),
{
    lemma_added_contains(cur, add);
    lemma_without_contains(with_added(cur, add), remove);
}

proof fn lemma_added_contains(cur: Seq<Seq<char>>, add: Seq<Seq<char>>)
    ensures
        forall|x: Seq<char>| #[trigger] with_added(cur, add).contains(x) <==> (cur.contains(x) || add.contains(x)),
    decreases add.len(),
{
    if add.len() > 0 {
        lemma_added_contains(cur, add.drop_last());
        let c = with_added(cur, add.drop_last());
        assert forall|x: Seq<char>| #[trigger] with_added(cur, add).contains(x) <==> (cur.contains(x) || add.contains(x)) by {
            if add.drop_last().contains(x) {
                let k = choose|k: int| 0 <= k < add.drop_last().len() && add.drop_last()[k] == x;
                assert(add[k] == x);
            }
            if add.contains(x) {
                let k = choose|k: int| 0 <= k < add.len() && add[k] == x;
                if k < add.len() - 1 {
                    assert(add.drop_last()[k] == x);
                }
            }
            if !c.contains(add.last()) {
                assert(c.push(add.last())[c.len() as int] == add.last());
                if c.contains(x) {
                    let k = choose|k: int| 0 <= k < c.len() && c[k] == x;
                    assert(c.push(add.last())[k] == x);
                }
                if c.push(add.last()).contains(x) {
                    let k = choose|k: int| 0 <= k < c.len() + 1 && c.push(add.last())[k] == x;
                    if k < c.len() {
                        assert(c[k] == x);
                    }
                }
            }
        }
    }
}

proof fn lemma_without_contains(cur: Seq<Seq<char>>, remove: Seq<Seq<char>>)
    ensures
        forall|x: Seq<char>| #[trigger] without(cur, remove).contains(x) <==> (cur.contains(x) && !remove.contains(x)),
    decreases cur.len(),
{
    if cur.len() > 0 {
        lemma_without_contains(cur.drop_last(), remove);
        let r = without(cur.drop_last(), remove);
        assert forall|x: Seq<char>| #[trigger] without(cur, remove).contains(x) <==> (cur.contains(x) && !remove.contains(x)) by {
            if cur.drop_last().contains(x) {
                let k = choose|k: int| 0 <= k < cur.drop_last().len() && cur.drop_last()[k] == x;
                assert(cur[k] == x);
            }
            if cur.contains(x) {
                let k = choose|k: int| 0 <= k < cur.len() && cur[k] == x;
                if k < cur.len() - 1 {
                    assert(cur.drop_last()[k] == x);
                }
            }
            if !remove.contains(cur.last()) {
                assert(r.push(cur.last())[r.len() as int] == cur.last());
                if r.contains(x) {
                    let k = choose|k: int| 0 <= k < r.len() && r[k] == x;
                    assert(r.push(cur.last())[k] == x);
                }
                if r.push(cur.last()).contains(x) {
                    let k = choose|k: int| 0 <= k < r.len() + 1 && r.push(cur.last())[k] == x;
                    if k < r.len() {
                        assert(r[k] == x);
                    }
                }
            }
        }
    }
}

pub(crate) fn retag(tags: &Vec<String>, add: &Vec<String>, remove: &Vec<String>) -> (r: Vec<String>)
    ensures
        views(r@) == without(with_added(views(tags@), views(add@)), views(remove@)),
{
    let mut cur: Vec<String> = Vec::new();
    let mut i: usize = 0;
    while i < tags.len()
        invariant
            i <= tags@.len(),
            views(cur@) == views(tags@).take(i as int),
        decreases tags@.len() - i,
    {
        let ghost before = views(cur@);
        let c = tags[i].clone();
        cur.push(c);
        proof {
            assert(views(cur@) =~= before.push(c@));
            assert(views(tags@).take(i + 1) =~= views(tags@).take(i as int).push(tags@[i as int]@));
        }
        i += 1;
    }
    proof {
        assert(views(tags@).take(tags@.len() as int) =~= views(tags@));
        assert(views(add@).take(0) =~= seq![]);
    }
    let mut j: usize = 0;
    while j < add.len()
        invariant
            j <= add@.len(),
            views(cur@) == with_added(views(tags@), views(add@).take(j as int)),
        decreases add@.len() - j,
    {
        proof {
            assert(views(add@).take(j + 1).drop_last() =~= views(add@).take(j as int));
            assert(views(add@).take(j + 1).last() == add@[j as int]@);
        }
        if !listed_text(&cur, add[j].as_str()) {
            let ghost before = views(cur@);
            cur.push(add[j].clone());
            proof {
                assert(views(cur@) =~= before.push(add@[j as int]@));
            }
        }
        j += 1;
    }
    proof {
        assert(views(add@).take(add@.len() as int) =~= views(add@));
    }
    let ghost added = views(cur@);
    let mut out: Vec<String> = Vec::new();
    let mut k: usize = 0;
    proof {
        assert(added.take(0) =~= seq![]);
    }
    while k < cur.len()
        invariant
            k <= cur@.len(),
            added == views(cur@),
            views(out@) == without(added.take(k as int), views(remove@)),
        decreases cur@.len() - k,
    {
        proof {
            assert(added.take(k + 1).drop_last() =~= added.take(k as int));
            assert(added.take(k + 1).last() == cur@[k as int]@);
        }
        if !listed_text(remove, cur[k].as_str()) {
            let ghost before = views(out@);
            out.push(cur[k].clone());
            proof {
                assert(views(out@) =~= before.push(cur@[k as int]@));
            }
        }
        k += 1;
    }
    proof {
        assert(added.take(added.len() as int) =~= added);
    }
    out
}

/// The destination a kind and id stand for (see `resolve_move`).
pub open spec fn dest_of(kind: u8, id: Seq<char>) -> Destination {
    if kind == 1 {
        Destination::Inbox
    } else if kind == 2 {
        Destination::Clear
    } else if kind == 3 {
        Destination::Project(id)
    } else if kind == 4 {
        Destination::Area(id)
    } else {
        Destination::Stay
    }
}

/// The container lists of a move: `pr`, `ar` and `agr`.
pub open spec fn container_props(m: Map<Seq<char>, PVal>, project: Seq<Seq<char>>, area: Seq<Seq<char>>) -> Map<Seq<char>, PVal> {
    m.insert("pr"@, PVal::Texts(project)).insert("ar"@, PVal::Texts(area)).insert("agr"@, PVal::Texts(seq![]))
}

/// A task leaving the inbox starts in Anytime.
pub open spec fn leave_inbox(m: Map<Seq<char>, PVal>, t: Task) -> Map<Seq<char>, PVal> {
    if t.start == TaskStart::Inbox {
        m.insert("st"@, PVal::Int(1))
    } else {
        m
    }
}

/// The properties an edit sets on the task `t` (before the modification time).
pub open spec fn task_update(
    dest: Destination,
    t: Task,
    title: Option<Seq<char>>,
    notes: Option<Seq<char>>,
    tags: Option<Seq<Seq<char>>>,
) -> Map<Seq<char>, PVal> {
    let m1 = match title {
        Some(x) => Map::empty().insert("tt"@, PVal::Text(x)),
        None => Map::empty(),
    };
    let m2 = match notes {
        Some(n) => m1.insert("nt"@, if n.len() == 0 { PVal::EmptyNote } else { PVal::Note(n) }),
        None => m1,
    };
    let m3 = match dest {
        Destination::Stay => m2,
        Destination::Inbox => container_props(m2, seq![], seq![]).insert("st"@, PVal::Int(0)).insert("sr"@, PVal::Null)
            .insert("tir"@, PVal::Null).insert("sb"@, PVal::Int(0)),
        Destination::Clear => leave_inbox(container_props(m2, seq![], seq![]), t),
        Destination::Project(u) => leave_inbox(container_props(m2, seq![u], seq![]), t),
        Destination::Area(u) => leave_inbox(container_props(m2, seq![], seq![u]), t),
    };
    match tags {
        Some(ts) => m3.insert("tg"@, PVal::Texts(ts)),
        None => m3,
    }
}

pub(crate) fn empty_note_value() -> (r: JsonValue)
    ensures
        pval_is(r, PVal::EmptyNote),
{
    let mut es: Vec<(String, JsonValue)> = Vec::new();
    es.push((owned("_t"), JsonValue::string("tx")));
    es.push((owned("t"), JsonValue::integer(1)));
    es.push((owned("ch"), JsonValue::integer(0)));
    es.push((owned("v"), JsonValue::string("")));
    proof {
        reveal_strlit("");
        assert(es@[3].1 matches JsonValue::Str(x) && x@ == ""@);
        assert(""@ =~= seq![]);
    }
    JsonValue::Object(es)
}

fn put_containers(m: &mut KeyMap<JsonValue>, Ghost(s): Ghost<Map<Seq<char>, PVal>>, project: &Vec<String>, area: &Vec<String>)
    requires
        old(m).wf(),
        props_are(old(m)@, s),
    ensures
        final(m).wf(),
        props_are(final(m)@, container_props(s, views(project@), views(area@))),
{
    put(m, Ghost(s), "pr", json_strs(project), Ghost(PVal::Texts(views(project@))));
    let ghost s1 = s.insert("pr"@, PVal::Texts(views(project@)));
    put(m, Ghost(s1), "ar", json_strs(area), Ghost(PVal::Texts(views(area@))));
    let ghost s2 = s1.insert("ar"@, PVal::Texts(views(area@)));
    put(m, Ghost(s2), "agr", json_empty_list(), Ghost(PVal::Texts(seq![])));
}

fn update_props(
    kind: u8,
    dest_id: &String,
    t: &Task,
    title: &Option<String>,
    notes: &Option<String>,
    tags: &Option<Vec<String>>,
) -> (r: KeyMap<JsonValue>)
    ensures
        r.wf(),
        props_are(r@, task_update(
            dest_of(kind, dest_id@),
            *t,
            match title { Some(x) => Some(x@), None => None },
            match notes { Some(x) => Some(x@), None => None },
            match tags { Some(v) => Some(views(v@)), None => None },
        )),
{
    let mut m: KeyMap<JsonValue> = KeyMap::new();
    let ghost s0: Map<Seq<char>, PVal> = Map::empty();
    proof {
        assert(m@.dom() =~= s0.dom());
    }
    let ghost s1 = match title { Some(x) => s0.insert("tt"@, PVal::Text(x@)), None => s0 };
    match title {
        Some(x) => put(&mut m, Ghost(s0), "tt", JsonValue::string(x.as_str()), Ghost(PVal::Text(x@))),
        None => {},
    }
    let ghost s2 = match notes {
        Some(n) => s1.insert("nt"@, if n@.len() == 0 { PVal::EmptyNote } else { PVal::Note(n@) }),
        None => s1,
    };
    match notes {
        Some(n) => {
            if n.as_str().is_empty() {
                put(&mut m, Ghost(s1), "nt", empty_note_value(), Ghost(PVal::EmptyNote));
            } else {
                put(&mut m, Ghost(s1), "nt", task6_note(n.as_str()), Ghost(PVal::Note(n@)));
            }
        },
        None => {},
    }
    let empty: Vec<String> = Vec::new();
    proof {
        assert(views(empty@) =~= seq![]);
    }
    if kind == 1 {
        put_containers(&mut m, Ghost(s2), &empty, &empty);
        let ghost c = container_props(s2, seq![], seq![]);
        put(&mut m, Ghost(c), "st", JsonValue::integer(0), Ghost(PVal::Int(0)));
        let ghost c1 = c.insert("st"@, PVal::Int(0));
        put(&mut m, Ghost(c1), "sr", JsonValue::Null, Ghost(PVal::Null));
        let ghost c2 = c1.insert("sr"@, PVal::Null);
        put(&mut m, Ghost(c2), "tir", JsonValue::Null, Ghost(PVal::Null));
        let ghost c3 = c2.insert("tir"@, PVal::Null);
        put(&mut m, Ghost(c3), "sb", JsonValue::integer(0), Ghost(PVal::Int(0)));
    } else if kind == 2 || kind == 3 || kind == 4 {
        let mut one: Vec<String> = Vec::new();
        one.push(dest_id.clone());
        proof {
            assert(views(one@) =~= seq![dest_id@]);
        }
        let ghost c = if kind == 3 {
            container_props(s2, seq![dest_id@], seq![])
        } else if kind == 4 {
            container_props(s2, seq![], seq![dest_id@])
        } else {
            container_props(s2, seq![], seq![])
        };
        if kind == 3 {
            put_containers(&mut m, Ghost(s2), &one, &empty);
        } else if kind == 4 {
            put_containers(&mut m, Ghost(s2), &empty, &one);
        } else {
            put_containers(&mut m, Ghost(s2), &empty, &empty);
        }
        if t.start == TaskStart::Inbox {
            put(&mut m, Ghost(c), "st", JsonValue::integer(1), Ghost(PVal::Int(1)));
        }
    }
    let ghost s3 = m@;
    match tags {
        Some(v) => {
            let ghost before = match kind {
                1 => container_props(s2, seq![], seq![]).insert("st"@, PVal::Int(0)).insert("sr"@, PVal::Null)
                    .insert("tir"@, PVal::Null).insert("sb"@, PVal::Int(0)),
                2 => leave_inbox(container_props(s2, seq![], seq![]), *t),
                3 => leave_inbox(container_props(s2, seq![dest_id@], seq![]), *t),
                4 => leave_inbox(container_props(s2, seq![], seq![dest_id@]), *t),
                _ => s2,
            };
            put(&mut m, Ghost(before), "tg", json_strs(v), Ghost(PVal::Texts(views(v@))));
        },
        None => {},
    }
    m
}

/// The change set with each selected item deleted.
pub open spec fn with_deletes(c: Map<Seq<char>, ObjSpec>, sel: Seq<ChecklistItem>) -> Map<Seq<char>, ObjSpec>
    decreases sel.len(),
{
    if sel.len() == 0 {
        c
    } else {
        with_deletes(c, sel.drop_last()).insert(
            sel.last().uuid@,
            (OperationType::Delete, EntityType::ChecklistItem3, Map::empty()),
        )
    }
}

/// The properties of a renamed checklist item.
pub open spec fn rename_props(title: Seq<char>, now_ms: i64) -> Map<Seq<char>, PVal> {
    Map::empty().insert("tt"@, PVal::Text(title)).insert("md"@, PVal::Millis(now_ms))
}

/// The change set with each rename applied to the one item its id prefix
/// names; or the message of the first prefix that names none or several.
pub open spec fn with_renames(
    c: Map<Seq<char>, ObjSpec>,
    items: Seq<ChecklistItem>,
    renames: Seq<(Seq<char>, Seq<char>)>,
    now_ms: i64,
) -> Result<Map<Seq<char>, ObjSpec>, Seq<char>>
    decreases renames.len(),
{
    if renames.len() == 0 {
        Ok(c)
    } else {
        match with_renames(c, items, renames.drop_last(), now_ms) {
            Err(m) => Err(m),
            Ok(c2) => {
                let short = renames.last().0;
                let hits = with_prefix(items, short);
                if hits.len() == 0 {
                    Err("Checklist item not found: '"@ + short + "'"@)
                } else if hits.len() > 1 {
                    Err("Ambiguous checklist item prefix: '"@ + short + "'"@)
                } else {
                    Ok(c2.insert(
                        hits[0].uuid@,
                        (OperationType::Update, EntityType::ChecklistItem3, rename_props(renames.last().1, now_ms)),
                    ))
                }
            },
        }
    }
}

/// The highest index among the items, or 0 when there are none.
pub open spec fn max_index(items: Seq<ChecklistItem>) -> i32
    decreases items.len(),
{
    if items.len() == 0 {
        0
    } else if items.len() == 1 {
        items[0].index
    } else {
        let m = max_index(items.drop_last());
        if items.last().index > m {
            items.last().index
        } else {
            m
        }
    }
}

/// The index of the `idx`-th added item, after the highest `base`
/// (in wrapping 32-bit arithmetic).
pub open spec fn added_index(base: i32, idx: int) -> i32 {
    base.wrapping_add(idx as i32).wrapping_add(1)
}

/// The properties of a new checklist item of the task `task_uuid`.
pub open spec fn add_props(title: Seq<char>, task_uuid: Seq<char>, ix: i32, now_ms: i64) -> Map<Seq<char>, PVal> {
    Map::empty().insert("tt"@, PVal::Text(title)).insert("ts"@, PVal::Texts(seq![task_uuid]))
        .insert("ss"@, PVal::Int(0)).insert("ix"@, PVal::Int(ix as i64))
        .insert("cd"@, PVal::Millis(now_ms)).insert("md"@, PVal::Millis(now_ms))
}

/// The change set with a new checklist item for each title (under the new
/// id of the same position); or the message of the first empty title.
pub open spec fn with_adds(
    c: Map<Seq<char>, ObjSpec>,
    t: Task,
    titles: Seq<Seq<char>>,
    new_ids: Seq<Seq<char>>,
    base: i32,
    now_ms: i64,
) -> Result<Map<Seq<char>, ObjSpec>, Seq<char>>
    decreases titles.len(),
{
    if titles.len() == 0 {
        Ok(c)
    } else {
        match with_adds(c, t, titles.drop_last(), new_ids, base, now_ms) {
            Err(m) => Err(m),
            Ok(c2) => {
                let idx = titles.len() - 1;
                let title = trimmed(titles.last());
                if title.len() == 0 {
                    Err("Checklist item title cannot be empty."@)
                } else {
                    Ok(c2.insert(
                        new_ids[idx],
                        (OperationType::Create, EntityType::ChecklistItem3, add_props(title, t.uuid@, added_index(base, idx), now_ms)),
                    ))
                }
            },
        }
    }
}

fn delete_items(w: &mut KeyMap<WireObject>, Ghost(c): Ghost<Map<Seq<char>, ObjSpec>>, sel: &Vec<ChecklistItem>)
    requires
        old(w).wf(),
        changes_are(old(w)@, c),
    ensures
        final(w).wf(),
        changes_are(final(w)@, with_deletes(c, sel@)),
{
    let mut i: usize = 0;
    proof {
        assert(sel@.take(0) =~= seq![]);
    }
    while i < sel.len()
        invariant
            i <= sel@.len(),
            w.wf(),
            changes_are(w@, with_deletes(c, sel@.take(i as int))),
        decreases sel@.len() - i,
    {
        proof {
            assert(sel@.take(i + 1).drop_last() =~= sel@.take(i as int));
        }
        let o = WireObject {
            operation_type: OperationType::Delete,
            entity_type: Some(EntityType::ChecklistItem3),
            properties: KeyMap::new(),
        };
        proof {
            assert(o.properties@.dom() =~= Map::<Seq<char>, PVal>::empty().dom());
            lemma_changes_insert(w@, with_deletes(c, sel@.take(i as int)), sel@[i as int].uuid@, o,
                (OperationType::Delete, EntityType::ChecklistItem3, Map::empty()));
        }
        w.insert(sel[i].uuid.clone(), o);
        i += 1;
    }
    proof {
        assert(sel@.take(sel@.len() as int) =~= sel@);
    }
}

fn rename_object(title: &String, now_ms: i64) -> (o: WireObject)
    ensures
        obj_matches(o, (OperationType::Update, EntityType::ChecklistItem3, rename_props(title@, now_ms))),
{
    let mut m: KeyMap<JsonValue> = KeyMap::new();
    let ghost s0: Map<Seq<char>, PVal> = Map::empty();
    proof {
        assert(m@.dom() =~= s0.dom());
    }
    put(&mut m, Ghost(s0), "tt", JsonValue::string(title.as_str()), Ghost(PVal::Text(title@)));
    put(&mut m, Ghost(s0.insert("tt"@, PVal::Text(title@))), "md", JsonValue::Millis(now_ms), Ghost(PVal::Millis(now_ms)));
    WireObject { operation_type: OperationType::Update, entity_type: Some(EntityType::ChecklistItem3), properties: m }
}

fn rename_items(
    w: &mut KeyMap<WireObject>,
    Ghost(c): Ghost<Map<Seq<char>, ObjSpec>>,
    items: &Vec<ChecklistItem>,
    renames: &Vec<(String, String)>,
    now_ms: i64,
) -> (r: Result<(), String>)
    requires
        old(w).wf(),
        changes_are(old(w)@, c),
    ensures
        final(w).wf(),
        match with_renames(c, items@, pair_views(renames@), now_ms) {
            Ok(c2) => r is Ok && changes_are(final(w)@, c2),
            Err(m) => r matches Err(e) && e@ == m,
        },
{
    let ghost rs = pair_views(renames@);
    let ghost mut cur = c;
    let mut i: usize = 0;
    proof {
        assert(rs.take(0) =~= seq![]);
    }
    while i < renames.len()
        invariant
            rs == pair_views(renames@),
            i <= renames@.len(),
            w.wf(),
            with_renames(c, items@, rs.take(i as int), now_ms) == Ok::<Map<Seq<char>, ObjSpec>, Seq<char>>(cur),
            changes_are(w@, cur),
        decreases renames@.len() - i,
    {
        proof {
            assert(rs.take(i + 1).drop_last() =~= rs.take(i as int));
            assert(rs.take(i + 1).last() == rs[i as int]);
        }
        let short = &renames[i].0;
        let (first, count) = scan_prefix(items, short.as_str());
        if count == 0 {
            let m = concat(concat("Checklist item not found: '", short.as_str()).as_str(), "'");
            proof {
                lemma_renames_fail(c, items@, rs, i + 1, now_ms, m@);
            }
            return Err(m);
        }
        if count > 1 {
            let m = concat(concat("Ambiguous checklist item prefix: '", short.as_str()).as_str(), "'");
            proof {
                lemma_renames_fail(c, items@, rs, i + 1, now_ms, m@);
            }
            return Err(m);
        }
        let k = match first {
            Some(k) => k,
            None => 0,
        };
        let o = rename_object(&renames[i].1, now_ms);
        proof {
            lemma_changes_insert(w@, cur, items@[k as int].uuid@, o,
                (OperationType::Update, EntityType::ChecklistItem3, rename_props(rs[i as int].1, now_ms)));
            cur = cur.insert(items@[k as int].uuid@,
                (OperationType::Update, EntityType::ChecklistItem3, rename_props(rs[i as int].1, now_ms)));
        }
        w.insert(items[k].uuid.clone(), o);
        i += 1;
    }
    proof {
        assert(rs.take(rs.len() as int) =~= rs);
    }
    Ok(())
}

proof fn lemma_renames_fail(
    c: Map<Seq<char>, ObjSpec>,
    items: Seq<ChecklistItem>,
    s: Seq<(Seq<char>, Seq<char>)>,
    i: int,
    now_ms: i64,
    m: Seq<char>,
)
    requires
        0 <= i <= s.len(),
        with_renames(c, items, s.take(i), now_ms) == Err::<Map<Seq<char>, ObjSpec>, Seq<char>>(m),
    ensures
        with_renames(c, items, s, now_ms) == Err::<Map<Seq<char>, ObjSpec>, Seq<char>>(m),
    decreases s.len() - i,
{
    if i < s.len() {
        assert(s.take(i + 1).drop_last() =~= s.take(i));
        lemma_renames_fail(c, items, s, i + 1, now_ms, m);
    } else {
        assert(s.take(i) =~= s);
    }
}

fn highest_index(items: &Vec<ChecklistItem>) -> (r: i32)
    ensures
        r == max_index(items@),
{
    if items.len() == 0 {
        return 0;
    }
    let mut m: i32 = items[0].index;
    let mut i: usize = 1;
    proof {
        assert(items@.take(1).len() == 1);
        assert(items@.take(1)[0] == items@[0]);
    }
    while i < items.len()
        invariant
            1 <= i <= items@.len(),
            m == max_index(items@.take(i as int)),
        decreases items@.len() - i,
    {
        proof {
            assert(items@.take(i + 1).drop_last() =~= items@.take(i as int));
            assert(items@.take(i + 1).last() == items@[i as int]);
        }
        if items[i].index > m {
            m = items[i].index;
        }
        i += 1;
    }
    proof {
        assert(items@.take(items@.len() as int) =~= items@);
    }
    m
}

fn add_object(title: &String, task_uuid: &String, ix: i32, now_ms: i64) -> (o: WireObject)
    ensures
        obj_matches(o, (OperationType::Create, EntityType::ChecklistItem3, add_props(title@, task_uuid@, ix, now_ms))),
{
    let mut m: KeyMap<JsonValue> = KeyMap::new();
    let ghost s0: Map<Seq<char>, PVal> = Map::empty();
    proof {
        assert(m@.dom() =~= s0.dom());
    }
    put(&mut m, Ghost(s0), "tt", JsonValue::string(title.as_str()), Ghost(PVal::Text(title@)));
    let ghost s1 = s0.insert("tt"@, PVal::Text(title@));
    put(&mut m, Ghost(s1), "ts", json_str1(task_uuid.as_str()), Ghost(PVal::Texts(seq![task_uuid@])));
    let ghost s2 = s1.insert("ts"@, PVal::Texts(seq![task_uuid@]));
    put(&mut m, Ghost(s2), "ss", JsonValue::integer(0), Ghost(PVal::Int(0)));
    let ghost s3 = s2.insert("ss"@, PVal::Int(0));
    put(&mut m, Ghost(s3), "ix", JsonValue::integer(ix as i64), Ghost(PVal::Int(ix as i64)));
    let ghost s4 = s3.insert("ix"@, PVal::Int(ix as i64));
    put(&mut m, Ghost(s4), "cd", JsonValue::Millis(now_ms), Ghost(PVal::Millis(now_ms)));
    let ghost s5 = s4.insert("cd"@, PVal::Millis(now_ms));
    put(&mut m, Ghost(s5), "md", JsonValue::Millis(now_ms), Ghost(PVal::Millis(now_ms)));
    WireObject { operation_type: OperationType::Create, entity_type: Some(EntityType::ChecklistItem3), properties: m }
}

fn add_items(
    w: &mut KeyMap<WireObject>,
    Ghost(c): Ghost<Map<Seq<char>, ObjSpec>>,
    t: &Task,
    titles: &Vec<String>,
    new_ids: &Vec<String>,
    now_ms: i64,
) -> (r: Result<(), String>)
    requires
        old(w).wf(),
        changes_are(old(w)@, c),
        new_ids@.len() == titles@.len(),
    ensures
        final(w).wf(),
        match with_adds(c, *t, views(titles@), views(new_ids@), max_index(t.checklist_items@), now_ms) {
            Ok(c2) => r is Ok && changes_are(final(w)@, c2),
            Err(m) => r matches Err(e) && e@ == m,
        },
{
    let ghost ts = views(titles@);
    let ghost ids = views(new_ids@);
    let base = highest_index(&t.checklist_items);
    let ghost mut cur = c;
    let mut i: usize = 0;
    proof {
        assert(ts.take(0) =~= seq![]);
    }
    while i < titles.len()
        invariant
            ts == views(titles@),
            ids == views(new_ids@),
            new_ids@.len() == titles@.len(),
            base == max_index(t.checklist_items@),
            i <= titles@.len(),
            w.wf(),
            with_adds(c, *t, ts.take(i as int), ids, base, now_ms) == Ok::<Map<Seq<char>, ObjSpec>, Seq<char>>(cur),
            changes_are(w@, cur),
        decreases titles@.len() - i,
    {
        proof {
            assert(ts.take(i + 1).drop_last() =~= ts.take(i as int));
            assert(ts.take(i + 1).last() == titles@[i as int]@);
            assert(ts.take(i + 1).len() - 1 == i);
        }
        let title = trim(titles[i].as_str());
        if title.as_str().is_empty() {
            let m = owned("Checklist item title cannot be empty.");
            proof {
                lemma_adds_fail(c, *t, ts, ids, base, i + 1, now_ms, m@);
            }
            return Err(m);
        }
        let ix: i32 = base.wrapping_add(i as i32).wrapping_add(1);
        let o = add_object(&title, &t.uuid, ix, now_ms);
        proof {
            assert(ix == added_index(base, i as int));
            lemma_changes_insert(w@, cur, ids[i as int], o,
                (OperationType::Create, EntityType::ChecklistItem3, add_props(title@, t.uuid@, ix, now_ms)));
            cur = cur.insert(ids[i as int],
                (OperationType::Create, EntityType::ChecklistItem3, add_props(title@, t.uuid@, ix, now_ms)));
        }
        w.insert(new_ids[i].clone(), o);
        i += 1;
    }
    proof {
        assert(ts.take(ts.len() as int) =~= ts);
    }
    Ok(())
}

proof fn lemma_adds_fail(
    c: Map<Seq<char>, ObjSpec>,
    t: Task,
    s: Seq<Seq<char>>,
    ids: Seq<Seq<char>>,
    base: i32,
    i: int,
    now_ms: i64,
    m: Seq<char>,
)
    requires
        0 <= i <= s.len(),
        with_adds(c, t, s.take(i), ids, base, now_ms) == Err::<Map<Seq<char>, ObjSpec>, Seq<char>>(m),
    ensures
        with_adds(c, t, s, ids, base, now_ms) == Err::<Map<Seq<char>, ObjSpec>, Seq<char>>(m),
    decreases s.len() - i,
{
    if i < s.len() {
        assert(s.take(i + 1).drop_last() =~= s.take(i));
        lemma_adds_fail(c, t, s, ids, base, i + 1, now_ms, m);
    } else {
        assert(s.take(i) =~= s);
    }
}

/// What every task of one edit shares: the arguments, the destination, the
/// tags to add and remove, the renames, the ids of new items, and the time.
pub struct EditCtx {
    pub args: EditArgs,
    pub dest: Destination,
    pub add: Seq<Seq<char>>,
    pub remove: Seq<Seq<char>>,
    pub renames: Seq<(Seq<char>, Seq<char>)>,
    pub new_ids: Seq<Seq<char>>,
    pub now_ms: i64,
}

/// `--title`, trimmed.
pub open spec fn trimmed_title(args: EditArgs) -> Option<Seq<char>> {
    match args.title {
        Some(x) => Some(trimmed(x@)),
        None => None,
    }
}

/// The new tag list of `t`, when tags are added or removed.
pub open spec fn tag_change(x: EditCtx, t: Task) -> Option<Seq<Seq<char>>> {
    if x.add.len() > 0 || x.remove.len() > 0 {
        Some(without(with_added(views(t.tags@), x.add), x.remove))
    } else {
        None
    }
}

/// Whether the edit touches checklist items.
pub open spec fn has_checklist_changes(x: EditCtx) -> bool {
    x.args.add_checklist@.len() > 0 || x.args.remove_checklist is Some || x.renames.len() > 0
}

/// The change set with the checklist items `--remove-checklist` names deleted.
pub open spec fn after_removals(c: Map<Seq<char>, ObjSpec>, t: Task, rc: Option<String>) -> Result<Map<Seq<char>, ObjSpec>, Seq<char>> {
    match rc {
        None => Ok(c),
        Some(raw) => match checklist_selection(t.checklist_items@, raw@) {
            Err(m) => Err(m),
            Ok(sel) => Ok(with_deletes(c, sel)),
        },
    }
}

/// The change set after editing the task `t`: its checklist changes and its
/// own update; or the message why the edit stops.
pub open spec fn edit_task(x: EditCtx, t: Task, c: Map<Seq<char>, ObjSpec>) -> Result<Map<Seq<char>, ObjSpec>, Seq<char>> {
    let title = trimmed_title(x.args);
    if title is Some && title.unwrap().len() == 0 {
        Err("Task title cannot be empty."@)
    } else {
        let u = task_update(x.dest, t, title, crate::props::opt_view(x.args.notes), tag_change(x, t));
        match after_removals(c, t, x.args.remove_checklist) {
            Err(m) => Err(m),
            Ok(c1) => match with_renames(c1, t.checklist_items@, x.renames, x.now_ms) {
                Err(m) => Err(m),
                Ok(c2) => match with_adds(c2, t, views(x.args.add_checklist@), x.new_ids, max_index(t.checklist_items@), x.now_ms) {
                    Err(m) => Err(m),
                    Ok(c3) => if u.dom().len() == 0 && !has_checklist_changes(x) {
                        Err("No edit changes requested."@)
                    } else if u.dom().len() > 0 {
                        Ok(c3.insert(t.uuid@, (OperationType::Update, entity_of(t.entity), u.insert("md"@, PVal::Millis(x.now_ms)))))
                    } else {
                        Ok(c3)
                    },
                },
            },
        }
    }
}

/// The change set after editing each task in turn; or the first message.
pub open spec fn edit_fold(x: EditCtx, ts: Seq<Task>) -> Result<Map<Seq<char>, ObjSpec>, Seq<char>>
    decreases ts.len(),
{
    if ts.len() == 0 {
        Ok(Map::empty())
    } else {
        match edit_fold(x, ts.drop_last()) {
            Err(m) => Err(m),
            Ok(c) => edit_task(x, ts.last(), c),
        }
    }
}

/// The labels of the done lines: the move and tag changes, then (when some
/// task was edited) the title, notes and checklist changes.
pub open spec fn edit_labels(args: EditArgs, move_labels: Seq<Seq<char>>, renames: Seq<(Seq<char>, Seq<char>)>, any_task: bool) -> Seq<Seq<char>> {
    let base = move_labels + (if args.add_tags is Some { seq!["add-tags"@] } else { seq![] })
        + (if args.remove_tags is Some { seq!["remove-tags"@] } else { seq![] });
    if any_task {
        base + (if args.title is Some { seq!["title"@] } else { seq![] })
            + (if args.notes is Some { seq!["notes"@] } else { seq![] })
            + (if args.remove_checklist is Some { seq!["remove-checklist"@] } else { seq![] })
            + (if renames.len() > 0 { seq!["rename-checklist"@] } else { seq![] })
            + (if args.add_checklist@.len() > 0 { seq!["add-checklist"@] } else { seq![] })
    } else {
        base
    }
}

/// The title a done line shows: the new title written for the task, if any.
pub open spec fn shown_title(t: Task, c: Map<Seq<char>, ObjSpec>) -> Seq<char> {
    if c.contains_key(t.uuid@) && c[t.uuid@].2.contains_key("tt"@) {
        match c[t.uuid@].2["tt"@] {
            PVal::Text(x) => x,
            _ => t.title@,
        }
    } else {
        t.title@
    }
}

/// The line printed for an edited task.
pub open spec fn edit_line(t: Task, c: Map<Seq<char>, ObjSpec>, labels: Seq<Seq<char>>, no_color: bool) -> Seq<char> {
    done_line("✓"@ + " Edited"@, shown_title(t, c), t.uuid@, no_color) + " "@
        + colored_text("("@ + join_sep(labels, ", "@) + ")"@, seq![DIM], no_color)
}

/// What `edit` does at `now_ms`, naming new checklist items with `new_ids`
/// (one for each `--add-checklist`, in order).
pub open spec fn edit_outcome(
    p: CommandPlan,
    store: ThingsStore,
    args: EditArgs,
    now_ms: i64,
    new_ids: Seq<Seq<char>>,
    no_color: bool,
) -> bool {
    let tasks = store.tasks_by_uuid@;
    let ids = store.markable_ids_sorted@;
    match edit_precheck(args) {
        Some(m) => reports_only(p, seq![m]),
        None => match edit_targets(tasks, ids, views(args.task_ids@)) {
            Err(m) => reports_only(p, seq![m]),
            Ok(ts) => match move_choice(tasks, ids, store.areas_by_uuid@, store.area_ids_sorted@, args.move_target) {
                Err(m) => reports_only(p, seq![m]),
                Ok(mv) => match tag_option(store.tags_by_uuid@, args.add_tags) {
                    Err(m) => reports_only(p, seq![m]),
                    Ok(add) => match tag_option(store.tags_by_uuid@, args.remove_tags) {
                        Err(m) => reports_only(p, seq![m]),
                        Ok(remove) => match rename_pairs(views(args.rename_checklist@)) {
                            Err(m) => reports_only(p, seq![m]),
                            Ok(renames) => {
                                let x = EditCtx { args, dest: mv.0, add, remove, renames, new_ids, now_ms };
                                match edit_fold(x, ts) {
                                    Err(m) => reports_only(p, seq![m]),
                                    Ok(c) => {
                                        let labels = edit_labels(args, mv.1, renames, ts.len() > 0);
                                        &&& p.notes@.len() == 0
                                        &&& p.changes matches Some(w) && w.wf() && changes_are(w@, c)
                                        &&& p.done_lines@.len() == ts.len()
                                        &&& forall|a: int| 0 <= a < ts.len() ==> (#[trigger] p.done_lines@[a])@ == edit_line(ts[a], c, labels, no_color)
                                        &&& p.fail_prefix@ == "Failed to edit item: "@
                                    },
                                }
                            },
                        },
                    },
                },
            },
        },
    }
}

proof fn lemma_selection_msg(items: Seq<ChecklistItem>, raw: Seq<char>)
    ensures
        checklist_selection(items, raw) matches Err(m) ==> m.len() > 0,
{
    reveal_strlit("No checklist item IDs provided.");
    lemma_pick_msgs(items, comma_tokens(raw));
}

#[verifier::rlimit(50)]
fn edit_one(
    args: &EditArgs,
    kind: u8,
    dest_id: &String,
    add: &Vec<String>,
    remove: &Vec<String>,
    renames: &Vec<(String, String)>,
    new_ids: &Vec<String>,
    now_ms: i64,
    t: &Task,
    w: &mut KeyMap<WireObject>,
    Ghost(c): Ghost<Map<Seq<char>, ObjSpec>>,
) -> (r: Result<(), String>)
    requires
        old(w).wf(),
        changes_are(old(w)@, c),
        new_ids@.len() == args.add_checklist@.len(),
    ensures
        final(w).wf(),
        match edit_task(
            EditCtx {
                args: *args,
                dest: dest_of(kind, dest_id@),
                add: views(add@),
                remove: views(remove@),
                renames: pair_views(renames@),
                new_ids: views(new_ids@),
                now_ms,
            },
            *t,
            c,
        ) {
            Ok(c2) => r is Ok && changes_are(final(w)@, c2),
            Err(m) => r matches Err(e) && e@ == m,
        },
{
    let ghost x = EditCtx {
        args: *args,
        dest: dest_of(kind, dest_id@),
        add: views(add@),
        remove: views(remove@),
        renames: pair_views(renames@),
        new_ids: views(new_ids@),
        now_ms,
    };
    let title: Option<String> = match &args.title {
        Some(s) => Some(trim(s.as_str())),
        None => None,
    };
    match &title {
        Some(tt) => {
            if tt.as_str().is_empty() {
                return Err(owned("Task title cannot be empty."));
            }
        },
        None => {},
    }
    let tags: Option<Vec<String>> = if add.len() > 0 || remove.len() > 0 {
        Some(retag(&t.tags, add, remove))
    } else {
        None
    };
    let mut u = update_props(kind, dest_id, t, &title, &args.notes, &tags);
    let ghost us = task_update(x.dest, *t, trimmed_title(*args), crate::props::opt_view(args.notes), tag_change(x, *t));
    proof {
        assert(match title { Some(y) => Some(y@), None => None::<Seq<char>> } == trimmed_title(*args));
        assert(match tags { Some(v) => Some(views(v@)), None => None::<Seq<Seq<char>>> } == tag_change(x, *t));
        assert(match args.notes { Some(y) => Some(y@), None => None::<Seq<char>> } == crate::props::opt_view(args.notes));
    }
    let ghost c1 = match after_removals(c, *t, args.remove_checklist) {
        Ok(m) => m,
        Err(_) => c,
    };
    match &args.remove_checklist {
        None => {},
        Some(raw) => {
            let (sel, err) = resolve_checklist_items(t, raw.as_str());
            proof {
                lemma_selection_msg(t.checklist_items@, raw@);
            }
            if !err.as_str().is_empty() {
                return Err(err);
            }
            delete_items(w, Ghost(c), &sel);
        },
    }
    let ghost c2 = match with_renames(c1, t.checklist_items@, x.renames, now_ms) {
        Ok(m) => m,
        Err(_) => c1,
    };
    match rename_items(w, Ghost(c1), &t.checklist_items, renames, now_ms) {
        Err(e) => return Err(e),
        Ok(()) => {},
    }
    let ghost c3 = match with_adds(c2, *t, views(args.add_checklist@), x.new_ids, max_index(t.checklist_items@), now_ms) {
        Ok(m) => m,
        Err(_) => c2,
    };
    match add_items(w, Ghost(c2), t, &args.add_checklist, new_ids, now_ms) {
        Err(e) => return Err(e),
        Ok(()) => {},
    }
    proof {
        u.lemma_entries();
    }
    let has_checklist = args.add_checklist.len() > 0 || args.remove_checklist.is_some() || renames.len() > 0;
    if u.len() == 0 && !has_checklist {
        return Err(owned("No edit changes requested."));
    }
    if u.len() > 0 {
        let ghost before = u@;
        proof {
            lemma_props_insert(u@, us, "md"@, JsonValue::Millis(now_ms), PVal::Millis(now_ms));
        }
        u.insert(owned("md"), JsonValue::Millis(now_ms));
        let o = WireObject {
            operation_type: OperationType::Update,
            entity_type: Some(EntityType::from(t.entity.clone())),
            properties: u,
        };
        proof {
            lemma_changes_insert(w@, c3, t.uuid@, o,
                (OperationType::Update, entity_of(t.entity), us.insert("md"@, PVal::Millis(now_ms))));
        }
        w.insert(t.uuid.clone(), o);
    }
    Ok(())
}

proof fn lemma_targets_err(tasks: Map<Seq<char>, Task>, ids: Seq<String>, s: Seq<Seq<char>>, i: int, m: Seq<char>)
    requires
        0 <= i <= s.len(),
        edit_targets(tasks, ids, s.take(i)) == Err::<Seq<Task>, Seq<char>>(m),
    ensures
        edit_targets(tasks, ids, s) == Err::<Seq<Task>, Seq<char>>(m),
    decreases s.len() - i,
{
    if i < s.len() {
        assert(s.take(i + 1).drop_last() =~= s.take(i));
        lemma_targets_err(tasks, ids, s, i + 1, m);
    } else {
        assert(s.take(i) =~= s);
    }
}

proof fn lemma_fold_err(x: EditCtx, s: Seq<Task>, i: int, m: Seq<char>)
    requires
        0 <= i <= s.len(),
        edit_fold(x, s.take(i)) == Err::<Map<Seq<char>, ObjSpec>, Seq<char>>(m),
    ensures
        edit_fold(x, s) == Err::<Map<Seq<char>, ObjSpec>, Seq<char>>(m),
    decreases s.len() - i,
{
    if i < s.len() {
        assert(s.take(i + 1).drop_last() =~= s.take(i));
        lemma_fold_err(x, s, i + 1, m);
    } else {
        assert(s.take(i) =~= s);
    }
}

fn gather_tasks<'a>(args: &EditArgs, store: &'a ThingsStore) -> (r: Result<Vec<&'a Task>, String>)
    requires
        store.wf(),
    ensures
        match edit_targets(store.tasks_by_uuid@, store.markable_ids_sorted@, views(args.task_ids@)) {
            Ok(ts) => r matches Ok(v) && crate::lookup::deref_all(v@) == ts,
            Err(m) => r matches Err(e) && e@ == m,
        },
{
    let ghost idents = views(args.task_ids@);
    let ghost tasks = store.tasks_by_uuid@;
    let ghost ids = store.markable_ids_sorted@;
    let mut out: Vec<&Task> = Vec::new();
    let mut i: usize = 0;
    proof {
        assert(idents.take(0) =~= seq![]);
        assert(crate::lookup::deref_all(out@) =~= seq![]);
    }
    while i < args.task_ids.len()
        invariant
            store.wf(),
            tasks == store.tasks_by_uuid@,
            ids == store.markable_ids_sorted@,
            idents == views(args.task_ids@),
            i <= args.task_ids@.len(),
            edit_targets(tasks, ids, idents.take(i as int)) == Ok::<Seq<Task>, Seq<char>>(crate::lookup::deref_all(out@)),
        decreases args.task_ids@.len() - i,
    {
        proof {
            assert(idents.take(i + 1).drop_last() =~= idents.take(i as int));
            assert(idents.take(i + 1).last() == args.task_ids@[i as int]@);
        }
        let r = store.resolve_mark_identifier(args.task_ids[i].as_str());
        match r.0 {
            None => {
                proof {
                    lemma_targets_err(tasks, ids, idents, i + 1, r.1@);
                }
                return Err(r.1);
            },
            Some(t) => {
                if t.is_project() {
                    let m = owned("Use 'projects edit' to edit a project.");
                    proof {
                        lemma_targets_err(tasks, ids, idents, i + 1, m@);
                    }
                    return Err(m);
                }
                let ghost before = crate::lookup::deref_all(out@);
                out.push(t);
                proof {
                    assert(crate::lookup::deref_all(out@) =~= before.push(*t));
                }
            },
        }
        i += 1;
    }
    proof {
        assert(idents.take(idents.len() as int) =~= idents);
    }
    Ok(out)
}

fn shown(t: &Task, w: &KeyMap<WireObject>, Ghost(c): Ghost<Map<Seq<char>, ObjSpec>>) -> (r: String)
    requires
        w.wf(),
        changes_are(w@, c),
    ensures
        r@ == shown_title(*t, c),
{
    match w.get(t.uuid.as_str()) {
        Some(o) => {
            proof {
                assert(c.contains_key(t.uuid@));
                assert(obj_matches(w@[t.uuid@], c[t.uuid@]));
            }
            match o.properties.get("tt") {
                Some(v) => {
                    proof {
                        assert(c[t.uuid@].2.contains_key("tt"@));
                        assert(pval_is(o.properties@["tt"@], c[t.uuid@].2["tt"@]));
                    }
                    match v.as_str() {
                        Some(x) => x.clone(),
                        None => t.title.clone(),
                    }
                },
                None => t.title.clone(),
            }
        },
        None => t.title.clone(),
    }
}

#[verifier::rlimit(40)]
fn edit_label_list(args: &EditArgs, move_labels: Vec<String>, renames: &Vec<(String, String)>, any_task: bool) -> (r: Vec<String>)
    ensures
        views(r@) == edit_labels(*args, views(move_labels@), pair_views(renames@), any_task),
{
    let mut ls = move_labels;
    let ghost m = views(ls@);
    if args.add_tags.is_some() {
        ls.push(owned("add-tags"));
    }
    let ghost a = views(ls@);
    proof {
        assert(a =~= m + (if args.add_tags is Some { seq!["add-tags"@] } else { seq![] }));
    }
    if args.remove_tags.is_some() {
        ls.push(owned("remove-tags"));
    }
    let ghost b = views(ls@);
    proof {
        assert(b =~= a + (if args.remove_tags is Some { seq!["remove-tags"@] } else { seq![] }));
    }
    if !any_task {
        return ls;
    }
    if args.title.is_some() {
        ls.push(owned("title"));
    }
    let ghost c1 = views(ls@);
    proof {
        assert(c1 =~= b + (if args.title is Some { seq!["title"@] } else { seq![] }));
    }
    if args.notes.is_some() {
        ls.push(owned("notes"));
    }
    let ghost c2 = views(ls@);
    proof {
        assert(c2 =~= c1 + (if args.notes is Some { seq!["notes"@] } else { seq![] }));
    }
    if args.remove_checklist.is_some() {
        ls.push(owned("remove-checklist"));
    }
    let ghost c3 = views(ls@);
    proof {
        assert(c3 =~= c2 + (if args.remove_checklist is Some { seq!["remove-checklist"@] } else { seq![] }));
    }
    if renames.len() > 0 {
        ls.push(owned("rename-checklist"));
    }
    let ghost c4 = views(ls@);
    proof {
        assert(c4 =~= c3 + (if pair_views(renames@).len() > 0 { seq!["rename-checklist"@] } else { seq![] }));
    }
    if args.add_checklist.len() > 0 {
        ls.push(owned("add-checklist"));
    }
    proof {
        assert(views(ls@) =~= c4 + (if args.add_checklist@.len() > 0 { seq!["add-checklist"@] } else { seq![] }));
    }
    ls
}

impl EditArgs {
    /// What `edit` does at `now_ms`, naming the new checklist items with
    /// `new_ids` (one for each `--add-checklist`, in order).
    #[verifier::rlimit(60)]
    pub fn plan_with(&self, store: &ThingsStore, now_ms: i64, new_ids: &Vec<String>, no_color: bool) -> (p: CommandPlan)
        requires
            store.wf(),
            new_ids@.len() == self.add_checklist@.len(),
        ensures
            edit_outcome(p, *store, *self, now_ms, views(new_ids@), no_color),
    {
        let multiple = self.task_ids.len() > 1;
        if multiple && self.title.is_some() {
            return report_one(owned("--title requires a single task ID."));
        }
        if multiple && self.notes.is_some() {
            return report_one(owned("--notes requires a single task ID."));
        }
        if multiple && (self.add_checklist.len() > 0 || self.remove_checklist.is_some() || self.rename_checklist.len() > 0) {
            return report_one(owned("--add-checklist/--remove-checklist/--rename-checklist require a single task ID."));
        }
        let targets = match gather_tasks(self, store) {
            Err(m) => return report_one(m),
            Ok(v) => v,
        };
        let (kind, dest_id, move_labels) = match resolve_move(store, &self.move_target) {
            Err(m) => return report_one(m),
            Ok(x) => x,
        };
        let add = match tag_option_ids(store, &self.add_tags) {
            Err(m) => return report_one(m),
            Ok(v) => v,
        };
        let remove = match tag_option_ids(store, &self.remove_tags) {
            Err(m) => return report_one(m),
            Ok(v) => v,
        };
        let renames = match parse_renames(&self.rename_checklist) {
            Err(m) => return report_one(m),
            Ok(v) => v,
        };
        let ghost ts = crate::lookup::deref_all(targets@);
        let ghost x = EditCtx {
            args: *self,
            dest: dest_of(kind, dest_id@),
            add: views(add@),
            remove: views(remove@),
            renames: pair_views(renames@),
            new_ids: views(new_ids@),
            now_ms,
        };
        proof {
            let mv = move_choice(store.tasks_by_uuid@, store.markable_ids_sorted@, store.areas_by_uuid@, store.area_ids_sorted@, self.move_target);
            assert(mv matches Ok(y) && y.0 == x.dest && y.1 == views(move_labels@));
            assert(edit_precheck(*self) is None);
            assert(edit_targets(store.tasks_by_uuid@, store.markable_ids_sorted@, views(self.task_ids@)) == Ok::<Seq<Task>, Seq<char>>(ts));
            assert(tag_option(store.tags_by_uuid@, self.add_tags) == Ok::<Seq<Seq<char>>, Seq<char>>(x.add));
            assert(tag_option(store.tags_by_uuid@, self.remove_tags) == Ok::<Seq<Seq<char>>, Seq<char>>(x.remove));
            assert(rename_pairs(views(self.rename_checklist@)) == Ok::<Seq<(Seq<char>, Seq<char>)>, Seq<char>>(x.renames));
        }
        let mut w: KeyMap<WireObject> = KeyMap::new();
        let ghost mut cs: Map<Seq<char>, ObjSpec> = Map::empty();
        proof {
            assert(w@.dom() =~= cs.dom());
            assert(ts.take(0) =~= seq![]);
        }
        let mut i: usize = 0;
        while i < targets.len()
            invariant
                ts == crate::lookup::deref_all(targets@),
                i <= targets@.len(),
                new_ids@.len() == self.add_checklist@.len(),
                x == (EditCtx {
                    args: *self,
                    dest: dest_of(kind, dest_id@),
                    add: views(add@),
                    remove: views(remove@),
                    renames: pair_views(renames@),
                    new_ids: views(new_ids@),
                    now_ms,
                }),
                w.wf(),
                changes_are(w@, cs),
                edit_fold(x, ts.take(i as int)) == Ok::<Map<Seq<char>, ObjSpec>, Seq<char>>(cs),
                edit_precheck(*self) is None,
                edit_targets(store.tasks_by_uuid@, store.markable_ids_sorted@, views(self.task_ids@)) == Ok::<Seq<Task>, Seq<char>>(ts),
                move_choice(store.tasks_by_uuid@, store.markable_ids_sorted@, store.areas_by_uuid@, store.area_ids_sorted@, self.move_target)
                    matches Ok(y) && y.0 == x.dest && y.1 == views(move_labels@),
                tag_option(store.tags_by_uuid@, self.add_tags) == Ok::<Seq<Seq<char>>, Seq<char>>(x.add),
                tag_option(store.tags_by_uuid@, self.remove_tags) == Ok::<Seq<Seq<char>>, Seq<char>>(x.remove),
                rename_pairs(views(self.rename_checklist@)) == Ok::<Seq<(Seq<char>, Seq<char>)>, Seq<char>>(x.renames),
            decreases targets@.len() - i,
        {
            proof {
                assert(ts.take(i + 1).drop_last() =~= ts.take(i as int));
                assert(ts.take(i + 1).last() == *targets@[i as int]);
            }
            match edit_one(self, kind, &dest_id, &add, &remove, &renames, new_ids, now_ms, targets[i], &mut w, Ghost(cs)) {
                Err(m) => {
                    proof {
                        lemma_fold_err(x, ts, i + 1, m@);
                    }
                    let p = report_one(m);
                    proof {
                        let mv = move_choice(store.tasks_by_uuid@, store.markable_ids_sorted@, store.areas_by_uuid@, store.area_ids_sorted@, self.move_target);
                        let y = mv->Ok_0;
                        let x2 = EditCtx { args: *self, dest: y.0, add: x.add, remove: x.remove, renames: x.renames, new_ids: views(new_ids@), now_ms };
                        assert(x2 == x);
                        assert(edit_fold(x2, ts) == Err::<Map<Seq<char>, ObjSpec>, Seq<char>>(m@));
                    }
                    return p;
                },
                Ok(()) => {
                    proof {
                        cs = match edit_task(x, *targets@[i as int], cs) {
                            Ok(c2) => c2,
                            Err(_) => cs,
                        };
                    }
                },
            }
            i += 1;
        }
        proof {
            assert(ts.take(ts.len() as int) =~= ts);
        }
        let labels = edit_label_list(self, move_labels, &renames, targets.len() > 0);
        let joined = join_strings(&labels, ", ");
        let tail = dim(concat(concat("(", joined.as_str()).as_str(), ")").as_str(), no_color);
        let head_label = concat(icons().done, " Edited");
        let mut lines: Vec<String> = Vec::new();
        let mut k: usize = 0;
        while k < targets.len()
            invariant
                ts == crate::lookup::deref_all(targets@),
                k <= targets@.len(),
                w.wf(),
                changes_are(w@, cs),
                head_label@ == "✓"@ + " Edited"@,
                tail@ == colored_text("("@ + join_sep(views(labels@), ", "@) + ")"@, seq![DIM], no_color),
                lines@.len() == k,
                forall|a: int| 0 <= a < k ==> (#[trigger] lines@[a])@ == edit_line(ts[a], cs, views(labels@), no_color),
            decreases targets@.len() - k,
        {
            let t = targets[k];
            let title = shown(t, &w, Ghost(cs));
            let head = done_line_text(head_label.as_str(), title.as_str(), t.uuid.as_str(), no_color);
            lines.push(concat(concat(head.as_str(), " ").as_str(), tail.as_str()));
            k += 1;
        }
        CommandPlan { notes: Vec::new(), changes: Some(w), done_lines: lines, fail_prefix: owned("Failed to edit item: ") }
    }

    /// What `edit` does at `now_ms`: each new checklist item gets a fresh random id.
    pub fn plan(&self, store: &ThingsStore, now_ms: i64, no_color: bool) -> (p: CommandPlan)
        requires
            store.wf(),
        ensures
            exists|ids: Seq<Seq<char>>| ids.len() == self.add_checklist@.len()
                && (forall|k: int| 0 <= k < ids.len() ==> crate::ids::id_shaped(#[trigger] ids[k]))
                && edit_outcome(p, *store, *self, now_ms, ids, no_color),
    {
        let mut new_ids: Vec<String> = Vec::new();
        let mut i: usize = 0;
        while i < self.add_checklist.len()
            invariant
                i <= self.add_checklist@.len(),
                new_ids@.len() == i,
                forall|k: int| 0 <= k < i ==> crate::ids::id_shaped(#[trigger] new_ids@[k]@),
            decreases self.add_checklist@.len() - i,
        {
            new_ids.push(crate::ids::random_task_id());
            i += 1;
        }
        let p = self.plan_with(store, now_ms, &new_ids, no_color);
        proof {
            assert(views(new_ids@).len() == self.add_checklist@.len());
            assert(forall|k: int| 0 <= k < views(new_ids@).len() ==> crate::ids::id_shaped(#[trigger] views(new_ids@)[k]));
        }
        p
    }
}

} // verus!
