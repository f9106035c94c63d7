//! Looking records up in the store: by id, by id prefix, and the titles,
//! short ids and progress the views show.

use vstd::prelude::*;
use crate::keymap::KeyMap;
use vstd::string::StringSliceAdditionalSpecFns;
use crate::prefixes::{id_set, short_ids_of};
use crate::props::opt_view;
use crate::query::{Record, has_title};
use crate::store::{Task, Area, Tag, ProjectProgress};
use crate::text::{trimmed, trim, concat, take_chars, prefix_chars, lowercase, to_lowercase, decimal, decimal_string, same_text, starts_with};
use crate::things::{
    ThingsStore, StateMap, eff_project, eff_area, effective_project_in, effective_area_in,
    distinct_strings, markable_set, short_domain,
};
use crate::prefixes::{lemma_short_id_unique, prefix_need};
use crate::text::{is_ws, lemma_trimmed_plain};

verus! {

/// The ids of `ids` that start with `t`, in order.
pub open spec fn prefixed(ids: Seq<String>, t: Seq<char>) -> Seq<Seq<char>>
    decreases ids.len(),
{
    if ids.len() == 0 {
        seq![]
    } else {
        let rest = prefixed(ids.drop_last(), t);
        if t.is_prefix_of(ids.last()@) {
            rest.push(ids.last()@)
        } else {
            rest
        }
    }
}

/// What resolving `ident` among the records `items` listed by `ids` answers:
/// the record, or a message and, for an ambiguous prefix, the first candidates.
pub open spec fn resolved<T>(
    items: Map<Seq<char>, T>,
    ids: Seq<String>,
    ident: Seq<char>,
    label: Seq<char>,
) -> (Option<T>, Seq<char>, Seq<T>) {
    let t = trimmed(ident);
    let ms = prefixed(ids, t);
    if t.len() == 0 {
        (None, "Missing "@ + lowercase(label) + " identifier."@, seq![])
    } else if id_set(ids).contains(t) {
        (Some(items[t]), seq![], seq![])
    } else if ms.len() == 1 {
        (Some(items[ms[0]]), seq![], seq![])
    } else if ms.len() > 1 {
        let shown: nat = if ms.len() < 10 { ms.len() } else { 10 };
        (
            None,
            "Ambiguous "@ + lowercase(label) + " id prefix."@ + (if ms.len() > 10 {
                " ("@ + decimal(ms.len()) + " matches, showing first "@ + decimal(shown) + ")"@
            } else {
                seq![]
            }),
            Seq::new(shown, |i: int| items[ms[i]]),
        )
    } else {
        (None, label + " not found: "@ + ident, seq![])
    }
}

/// The value an optional reference points to.
pub open spec fn deref_opt<T>(o: Option<&T>) -> Option<T> {
    match o {
        Some(x) => Some(*x),
        None => None,
    }
}

/// The values a list of references points to.
pub open spec fn deref_all<T>(s: Seq<&T>) -> Seq<T> {
    s.map_values(|x: &T| *x)
}

pub(crate) fn contains_id(ids: &Vec<String>, t: &str) -> (r: bool)
    ensures
        r == id_set(ids@).contains(t@),
{
    let mut i: usize = 0;
    while i < ids.len()
        invariant
            i <= ids@.len(),
            forall|k: int| 0 <= k < i ==> #[trigger] ids@[k]@ != t@,
        decreases ids@.len() - i,
    {
        if same_text(ids[i].as_str(), t) {
            return true;
        }
        i += 1;
    }
    false
}

fn prefixed_ids<'b>(ids: &'b Vec<String>, t: &str) -> (r: Vec<&'b String>)
    ensures
        r@.map_values(|s: &String| s@) == prefixed(ids@, t@),
{
    let mut r: Vec<&'b String> = Vec::new();
    let mut i: usize = 0;
    while i < ids.len()
        invariant
            i <= ids@.len(),
            r@.map_values(|s: &String| s@) == prefixed(ids@.take(i as int), t@),
        decreases ids@.len() - i,
    {
        let ghost before = r@;
        proof {
            let p = ids@.take(i + 1);
            assert(p.drop_last() =~= ids@.take(i as int));
            assert(p.last() == ids@[i as int]);
        }
        if starts_with(ids[i].as_str(), t) {
            r.push(&ids[i]);
            assert(r@.map_values(|s: &String| s@) =~= before.map_values(|s: &String| s@).push(ids@[i as int]@));
        }
        i += 1;
    }
    assert(ids@.take(ids@.len() as int) =~= ids@);
    r
}

/// Finds a record by exact id or unique id prefix (`resolve_prefix`).
pub fn resolve_prefix<'a, T: Record>(
    identifier: &str,
    items: &'a KeyMap<T>,
    ids: &Vec<String>,
    label: &str,
) -> (r: (Option<&'a T>, String, Vec<&'a T>))
    requires
        items.wf(),
        forall|i: int| 0 <= i < ids@.len() ==> items@.contains_key(#[trigger] ids@[i]@),
    ensures
        (deref_opt(r.0), r.1@, deref_all(r.2@)) == resolved(items@, ids@, identifier@, label@),
{
    let ident = trim(identifier);
    let ghost t = ident@;
    if ident.as_str().is_empty() {
        let lower = to_lowercase(label);
        let msg = concat(concat("Missing ", lower.as_str()).as_str(), " identifier.");
        return (None, msg, Vec::new());
    }
    if contains_id(ids, ident.as_str()) {
        proof {
            let i = choose|i: int| 0 <= i < ids@.len() && #[trigger] ids@[i]@ == t;
        }
        match items.get(ident.as_str()) {
            Some(x) => {
                return (Some(x), String::new(), Vec::new());
            },
            None => {
                proof {
                    assert(false);
                }
            },
        }
    }
    let matches = prefixed_ids(ids, ident.as_str());
    let ghost ms = prefixed(ids@, t);
    proof {
        lemma_prefixed_in(ids@, t);
        assert forall|k: int| 0 <= k < ms.len() implies items@.contains_key(#[trigger] ms[k]) by {
            assert(id_set(ids@).contains(ms[k]));
            let i = choose|i: int| 0 <= i < ids@.len() && #[trigger] ids@[i]@ == ms[k];
        }
    }
    if matches.len() == 1 {
        proof {
            assert(ms[0] == matches@[0]@);
        }
        match items.get(matches[0].as_str()) {
            Some(x) => {
                return (Some(x), String::new(), Vec::new());
            },
            None => {
                proof {
                    assert(false);
                }
            },
        }
    }
    if matches.len() > 1 {
        let shown: usize = if matches.len() < 10 { matches.len() } else { 10 };
        let mut out: Vec<&'a T> = Vec::new();
        let mut i: usize = 0;
        while i < shown
            invariant
                items.wf(),
                shown <= matches@.len(),
                ms == matches@.map_values(|s: &String| s@),
                forall|k: int| 0 <= k < ms.len() ==> items@.contains_key(#[trigger] ms[k]),
                i <= shown,
                out@.len() == i,
                forall|k: int| 0 <= k < i ==> *(#[trigger] out@[k]) == items@[ms[k]],
            decreases shown - i,
        {
            proof {
                assert(ms[i as int] == matches@[i as int]@);
            }
            match items.get(matches[i].as_str()) {
                Some(x) => {
                    out.push(x);
                },
                None => {
                    proof {
                        assert(false);
                    }
                },
            }
            i += 1;
        }
        let lower = to_lowercase(label);
        let mut msg = concat(concat("Ambiguous ", lower.as_str()).as_str(), " id prefix.");
        if matches.len() > shown {
            let part = concat(
                concat(
                    concat(concat(" (", decimal_string(matches.len() as u64).as_str()).as_str(), " matches, showing first ").as_str(),
                    decimal_string(shown as u64).as_str(),
                ).as_str(),
                ")",
            );
            msg = concat(msg.as_str(), part.as_str());
        } else {
            proof {
                assert(msg@ + seq![] =~= msg@);
            }
        }
        proof {
            assert(deref_all(out@) =~= Seq::new(shown as nat, |k: int| items@[ms[k]]));
        }
        return (None, msg, out);
    }
    let msg = concat(concat(label, " not found: ").as_str(), identifier);
    (None, msg, Vec::new())
}

/// Every id that `prefixed` keeps comes from the list.
pub proof fn lemma_prefixed_in(ids: Seq<String>, t: Seq<char>)
    ensures
        forall|k: int| #![trigger prefixed(ids, t)[k]] 0 <= k < prefixed(ids, t).len() ==> id_set(ids).contains(prefixed(ids, t)[k])
            && t.is_prefix_of(prefixed(ids, t)[k]),
        forall|i: int| 0 <= i < ids.len() && t.is_prefix_of(#[trigger] ids[i]@) ==> prefixed(ids, t).contains(ids[i]@),
    decreases ids.len(),
{
    if ids.len() > 0 {
        let init = ids.drop_last();
        lemma_prefixed_in(init, t);
        assert forall|k: int| #![trigger prefixed(ids, t)[k]] 0 <= k < prefixed(ids, t).len() implies id_set(ids).contains(prefixed(ids, t)[k])
            && t.is_prefix_of(prefixed(ids, t)[k]) by {
            if k < prefixed(init, t).len() {
                let x = prefixed(init, t)[k];
                assert(prefixed(ids, t)[k] == x);
                assert(id_set(init).contains(prefixed(init, t)[k]));
                let i = choose|i: int| 0 <= i < init.len() && #[trigger] init[i]@ == x;
                assert(ids[i]@ == x);
            } else {
                assert(ids[ids.len() - 1]@ == prefixed(ids, t)[k]);
            }
        }
        assert forall|i: int| 0 <= i < ids.len() && t.is_prefix_of(#[trigger] ids[i]@) implies prefixed(ids, t).contains(ids[i]@) by {
            if i < ids.len() - 1 {
                assert(init[i] == ids[i]);
                let k = choose|k: int| 0 <= k < prefixed(init, t).len() && prefixed(init, t)[k] == ids[i]@;
                assert(prefixed(ids, t)[k] == ids[i]@);
            } else {
                assert(prefixed(ids, t).last() == ids[i]@);
            }
        }
    }
}

/// The title shown for a tag id: the tag's title when it has one, else the id.
pub open spec fn tag_title_of(tags: Map<Seq<char>, Tag>, uuid: Seq<char>) -> Seq<char> {
    if tags.contains_key(uuid) && has_title(tags[uuid].title@) {
        tags[uuid].title@
    } else {
        uuid
    }
}

/// The title shown for an area id: the area's title, else the id.
pub open spec fn area_title_of(areas: Map<Seq<char>, Area>, uuid: Seq<char>) -> Seq<char> {
    if areas.contains_key(uuid) {
        areas[uuid].title@
    } else {
        uuid
    }
}

/// The title shown for a project id: its title when it has one, else a
/// placeholder with the first eight characters of the id.
pub open spec fn project_title_of(tasks: Map<Seq<char>, Task>, uuid: Seq<char>) -> Seq<char> {
    if tasks.contains_key(uuid) && has_title(tasks[uuid].title@) {
        tasks[uuid].title@
    } else if uuid.len() == 0 {
        "(project)"@
    } else {
        "(project "@ + take_chars(uuid, 8) + ")"@
    }
}

/// The short id shown for an id: its shortest unique prefix, else the id itself.
pub open spec fn short_id_of(short: Map<Seq<char>, String>, uuid: Seq<char>) -> Seq<char> {
    if short.contains_key(uuid) {
        short[uuid]@
    } else {
        uuid
    }
}

/// The column width for a list of ids: the longest of their short ids in
/// bytes, six for an id without one, and at least one.
pub open spec fn width_needed(short: Map<Seq<char>, String>, ids: Seq<String>) -> int
    decreases ids.len(),
{
    if ids.len() == 0 {
        1
    } else {
        let w = if short.contains_key(ids.last()@) {
            (vstd::utf8::encode_utf8(short[ids.last()@]@).len() as usize) as int
        } else {
            6
        };
        let rest = width_needed(short, ids.drop_last());
        if w > rest {
            w
        } else {
            rest
        }
    }
}

impl ThingsStore {
    /// The project of a task: its own, or its heading's.
    pub fn effective_project_uuid(&self, task: &Task) -> (r: Option<String>)
        requires
            self.wf(),
        ensures
            opt_view(r) == eff_project(self.tasks_by_uuid@, *task),
    {
        effective_project_in(&self.tasks_by_uuid, task)
    }

    /// The area of a task: its own, its project's, or its heading's.
    pub fn effective_area_uuid(&self, task: &Task) -> (r: Option<String>)
        requires
            self.wf(),
        ensures
            opt_view(r) == eff_area(self.tasks_by_uuid@, *task),
    {
        effective_area_in(&self.tasks_by_uuid, task)
    }

    /// The task with this id.
    pub fn get_task(&self, uuid: &str) -> (r: Option<&Task>)
        requires
            self.wf(),
        ensures
            deref_opt(r) == (if self.tasks_by_uuid@.contains_key(uuid@) {
                Some(self.tasks_by_uuid@[uuid@])
            } else {
                None
            }),
    {
        self.tasks_by_uuid.get(uuid)
    }

    /// The area with this id.
    pub fn get_area(&self, uuid: &str) -> (r: Option<&Area>)
        requires
            self.wf(),
        ensures
            deref_opt(r) == (if self.areas_by_uuid@.contains_key(uuid@) {
                Some(self.areas_by_uuid@[uuid@])
            } else {
                None
            }),
    {
        self.areas_by_uuid.get(uuid)
    }

    /// The tag with this id.
    pub fn get_tag(&self, uuid: &str) -> (r: Option<&Tag>)
        requires
            self.wf(),
        ensures
            deref_opt(r) == (if self.tags_by_uuid@.contains_key(uuid@) {
                Some(self.tags_by_uuid@[uuid@])
            } else {
                None
            }),
    {
        self.tags_by_uuid.get(uuid)
    }

    /// The title shown for a tag id.
    pub fn resolve_tag_title(&self, uuid: &str) -> (r: String)
        requires
            self.wf(),
        ensures
            r@ == tag_title_of(self.tags_by_uuid@, uuid@),
    {
        match self.tags_by_uuid.get(uuid) {
            Some(t) => {
                let tt = trim(t.title.as_str());
                if !tt.as_str().is_empty() {
                    return t.title.clone();
                }
            },
            None => {},
        }
        crate::text::owned(uuid)
    }

    /// The title shown for an area id.
    pub fn resolve_area_title(&self, uuid: &str) -> (r: String)
        requires
            self.wf(),
        ensures
            r@ == area_title_of(self.areas_by_uuid@, uuid@),
    {
        match self.areas_by_uuid.get(uuid) {
            Some(a) => a.title.clone(),
            None => crate::text::owned(uuid),
        }
    }

    /// The title shown for a project id.
    pub fn resolve_project_title(&self, uuid: &str) -> (r: String)
        requires
            self.wf(),
        ensures
            r@ == project_title_of(self.tasks_by_uuid@, uuid@),
    {
        match self.tasks_by_uuid.get(uuid) {
            Some(t) => {
                let tt = trim(t.title.as_str());
                if !tt.as_str().is_empty() {
                    return t.title.clone();
                }
            },
            None => {},
        }
        if uuid.is_empty() {
            return crate::text::owned("(project)");
        }
        let short = prefix_chars(uuid, 8);
        concat(concat("(project ", short.as_str()).as_str(), ")")
    }

    /// The short id shown for an id.
    pub fn short_id(&self, uuid: &str) -> (r: String)
        requires
            self.wf(),
        ensures
            r@ == short_id_of(self.short_ids@, uuid@),
    {
        match self.short_ids.get(uuid) {
            Some(s) => s.clone(),
            None => crate::text::owned(uuid),
        }
    }

    /// The to-do counts of a project (none when it has no to-dos).
    pub fn project_progress(&self, project_uuid: &str) -> (r: ProjectProgress)
        requires
            self.wf(),
        ensures
            r == (if self.project_progress_by_uuid@.contains_key(project_uuid@) {
                self.project_progress_by_uuid@[project_uuid@]
            } else {
                ProjectProgress { total: 0, done: 0 }
            }),
    {
        match self.project_progress_by_uuid.get(project_uuid) {
            Some(p) => *p,
            None => ProjectProgress { total: 0, done: 0 },
        }
    }

    /// The id column width for a list of ids (zero for none).
    pub fn unique_prefix_length(&self, ids: &Vec<String>) -> (r: usize)
        requires
            self.wf(),
        ensures
            r == (if ids@.len() == 0 { 0 } else { width_needed(self.short_ids@, ids@) }),
    {
        if ids.len() == 0 {
            return 0;
        }
        let mut max_need: usize = 1;
        let mut i: usize = 0;
        while i < ids.len()
            invariant
                self.wf(),
                i <= ids@.len(),
                max_need == width_needed(self.short_ids@, ids@.take(i as int)),
            decreases ids@.len() - i,
        {
            proof {
                let p = ids@.take(i + 1);
                assert(p.drop_last() =~= ids@.take(i as int));
                assert(p.last() == ids@[i as int]);
            }
            let w: usize = match self.short_ids.get(ids[i].as_str()) {
                Some(s) => {
                    let st = s.as_str();
                    proof {
                        assert(st.spec_bytes() == vstd::utf8::encode_utf8(s@));
                    }
                    st.len()
                },
                None => 6,
            };
            if w > max_need {
                max_need = w;
            }
            i += 1;
        }
        proof {
            assert(ids@.take(ids@.len() as int) =~= ids@);
        }
        max_need
    }

    /// Finds a markable task by id or unique id prefix.
    pub fn resolve_mark_identifier(&self, identifier: &str) -> (r: (Option<&Task>, String, Vec<&Task>))
        requires
            self.wf(),
        ensures
            (deref_opt(r.0), r.1@, deref_all(r.2@)) == resolved(self.tasks_by_uuid@, self.markable_ids_sorted@, identifier@, "Item"@),
    {
        proof {
            assert forall|i: int| 0 <= i < self.markable_ids_sorted@.len() implies self.tasks_by_uuid@.contains_key(#[trigger] self.markable_ids_sorted@[i]@) by {
                assert(id_set(self.markable_ids_sorted@).contains(self.markable_ids_sorted@[i]@));
            }
        }
        resolve_prefix(identifier, &self.tasks_by_uuid, &self.markable_ids_sorted, "Item")
    }

    /// Finds an area by id or unique id prefix.
    pub fn resolve_area_identifier(&self, identifier: &str) -> (r: (Option<&Area>, String, Vec<&Area>))
        requires
            self.wf(),
        ensures
            (deref_opt(r.0), r.1@, deref_all(r.2@)) == resolved(self.areas_by_uuid@, self.area_ids_sorted@, identifier@, "Area"@),
    {
        proof {
            assert forall|i: int| 0 <= i < self.area_ids_sorted@.len() implies self.areas_by_uuid@.contains_key(#[trigger] self.area_ids_sorted@[i]@) by {
                assert(id_set(self.area_ids_sorted@).contains(self.area_ids_sorted@[i]@));
            }
        }
        resolve_prefix(identifier, &self.areas_by_uuid, &self.area_ids_sorted, "Area")
    }

    /// Finds a task by id or unique id prefix.
    pub fn resolve_task_identifier(&self, identifier: &str) -> (r: (Option<&Task>, String, Vec<&Task>))
        requires
            self.wf(),
        ensures
            (deref_opt(r.0), r.1@, deref_all(r.2@)) == resolved(self.tasks_by_uuid@, self.task_ids_sorted@, identifier@, "Task"@),
    {
        proof {
            assert forall|i: int| 0 <= i < self.task_ids_sorted@.len() implies self.tasks_by_uuid@.contains_key(#[trigger] self.task_ids_sorted@[i]@) by {
                assert(id_set(self.task_ids_sorted@).contains(self.task_ids_sorted@[i]@));
            }
        }
        resolve_prefix(identifier, &self.tasks_by_uuid, &self.task_ids_sorted, "Task")
    }
}

/// `prefixed` keeps distinct ids distinct.
proof fn lemma_prefixed_distinct(ids: Seq<String>, t: Seq<char>)
    requires
        distinct_strings(ids),
    ensures
        forall|a: int, b: int|
            0 <= a < prefixed(ids, t).len() && 0 <= b < prefixed(ids, t).len() && a != b
                ==> #[trigger] prefixed(ids, t)[a] != #[trigger] prefixed(ids, t)[b],
    decreases ids.len(),
{
    if ids.len() > 0 {
        let init = ids.drop_last();
        assert(distinct_strings(init)) by {
            assert forall|a: int, b: int| 0 <= a < init.len() && 0 <= b < init.len() && a != b implies #[trigger] init[a]@ != #[trigger] init[b]@ by {
                assert(init[a] == ids[a] && init[b] == ids[b]);
            }
        }
        lemma_prefixed_distinct(init, t);
        lemma_prefixed_in(init, t);
        let p = prefixed(init, t);
        let last = ids.last()@;
        assert forall|k: int| 0 <= k < p.len() implies #[trigger] p[k] != last by {
            assert(id_set(init).contains(p[k]));
            let i = choose|i: int| 0 <= i < init.len() && #[trigger] init[i]@ == p[k];
            assert(ids[i]@ == p[k]);
            assert(ids[ids.len() - 1]@ == last);
        }
    }
}

/// A task's short id, as the listings show it, finds that same task when
/// given back to the commands that take a task: the id has no whitespace,
/// no other id extends it, and no task id carries the tombstone prefix.
pub proof fn lemma_short_id_resolves(store: ThingsStore, s: StateMap, x: Seq<char>)
    requires
        store.wf(),
        store.built_from(s),
        markable_set(store.tasks_by_uuid@).contains(x),
        x.len() > 0,
        forall|i: int| 0 <= i < x.len() ==> !is_ws(#[trigger] x[i]),
        forall|y: Seq<char>| #[trigger] short_domain(s).contains(y) && y != x ==> !x.is_prefix_of(y),
        forall|y: Seq<char>| #[trigger] store.tasks_by_uuid@.contains_key(y) ==> !"TOMBSTONE-"@.is_prefix_of(y),
    ensures
        resolved(store.tasks_by_uuid@, store.markable_ids_sorted@, short_id_of(store.short_ids@, x), "Item"@)
            == (Some(store.tasks_by_uuid@[x]), Seq::<char>::empty(), Seq::<Task>::empty()),
{
    reveal_strlit("Task");
    reveal_strlit("Tombstone");
    let tasks = store.tasks_by_uuid@;
    let ids = store.markable_ids_sorted@;
    let short = store.short_ids@;
    let d = short_domain(s);
    let sid = short_id_of(short, x);
    assert(id_set(ids) == markable_set(tasks));
    // every task id gets a short id
    assert forall|y: Seq<char>| #[trigger] tasks.contains_key(y) implies d.contains(y) by {
        assert(s.contains_key(y) && crate::store::record_kind(s[y].0) == 0);
        match s[y].0 {
            Some(crate::wire::EntityType::Unknown(n)) => {
                if n@ == "Tombstone"@ {
                    assert("Task"@[1] != n@[1]);
                }
            },
            _ => {},
        }
    }
    assert(d.contains(x));
    assert(short.contains_key(x));
    let need = choose|need: int| prefix_need(d, x, need) && short[x]@ == take_chars(x, need);
    assert(sid == take_chars(x, need));
    assert(sid.is_prefix_of(x)) by {
        if need < x.len() {
            assert(sid =~= x.take(need));
        }
    }
    assert(sid.len() > 0);
    lemma_trimmed_plain(sid);
    assert(trimmed(sid) == sid);
    // the only markable id that starts with the short id is x itself
    assert forall|y: Seq<char>| id_set(ids).contains(y) && sid.is_prefix_of(y) implies y == x by {
        if y != x {
            assert(tasks.contains_key(y));
            lemma_short_id_unique(short, d, x, y);
        }
    }
    let ms = prefixed(ids, sid);
    lemma_prefixed_in(ids, sid);
    lemma_prefixed_distinct(ids, sid);
    if !id_set(ids).contains(sid) {
        let i = choose|i: int| 0 <= i < ids.len() && #[trigger] ids[i]@ == x;
        assert(ms.contains(ids[i]@));
        let k = choose|k: int| 0 <= k < ms.len() && ms[k] == x;
        assert forall|j: int| 0 <= j < ms.len() implies #[trigger] ms[j] == x by {
            assert(id_set(ids).contains(ms[j]) && sid.is_prefix_of(ms[j]));
        }
        if ms.len() > 1 {
            let j = if k == 0 { 1int } else { 0int };
            assert(ms[j] == x && ms[k] == x);
        }
        assert(ms.len() == 1);
    } else {
        assert(sid == x);
    }
}

/// A record that an identifier resolves to is one of the records.
pub proof fn lemma_resolved_in<T>(items: Map<Seq<char>, T>, ids: Seq<String>, ident: Seq<char>, label: Seq<char>)
    requires
        forall|i: int| 0 <= i < ids.len() ==> items.contains_key(#[trigger] ids[i]@),
    ensures
        resolved(items, ids, ident, label).0 matches Some(x) ==> exists|k: Seq<char>| items.contains_key(k) && items[k] == x,
{
    let t = trimmed(ident);
    let ms = prefixed(ids, t);
    lemma_prefixed_in(ids, t);
    if id_set(ids).contains(t) {
        let i = choose|i: int| 0 <= i < ids.len() && #[trigger] ids[i]@ == t;
        assert(items.contains_key(t));
    } else if ms.len() == 1 {
        assert(id_set(ids).contains(ms[0]));
        let i = choose|i: int| 0 <= i < ids.len() && #[trigger] ids[i]@ == ms[0];
        assert(items.contains_key(ms[0]));
    }
}

} // verus!
