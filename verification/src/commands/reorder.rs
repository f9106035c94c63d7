//! `reorder`: moves a task before or after another in its list, or in Today.

use vstd::prelude::*;
use crate::commands::changes::{PVal, ObjSpec, changes_are, one_change, put, no_props};
use crate::commands::mark::{done_line, done_line_text};
use crate::commands::new::{
    bucket_of, in_bucket, sorted_index_id, gap_ix, slot_ix, indices, half_toward_zero, half, slot, task_bucket,
    same_texts, bucket_siblings, final_ix, new_ix, moved_slot, lemma_new_ix_in_place,
};
use crate::common::{DIM, colored_text, dim, icons};
use crate::json::JsonValue;
use crate::keymap::KeyMap;
use crate::lookup::{resolved, deref_opt};
use crate::query::{shows, Record};
use crate::replay::WireItem;
use crate::store::{Task, task_is_today};
use crate::text::{concat, owned, same_text, signed_decimal, signed_decimal_string, views};
use crate::things::ThingsStore;
use crate::wire::{EntityType, OperationType, TaskStart, WireObject, entity_of};

verus! {

/// The arguments of `reorder`.
pub struct ReorderArgs {
    pub item_id: String,
    pub before_id: Option<String>,
    pub after_id: Option<String>,
}

/// What `reorder` does: report `notes`; commit each of `commits` in turn,
/// each on the history head the one before left (stopping at the first that
/// fails, with `fail_prefix` and the error); then print `done_lines`.
pub struct ReorderPlan {
    pub notes: Vec<String>,
    pub commits: Vec<WireItem>,
    pub done_lines: Vec<String>,
    pub fail_prefix: String,
}

/// A plan that only reports one message.
pub open spec fn reorder_refused(p: ReorderPlan, m: Seq<char>) -> bool {
    &&& views(p.notes@) == seq![m]
    &&& p.commits@.len() == 0
    &&& p.done_lines@.len() == 0
}

/// The commits are one object each: the `i`-th under `cs[i].0`, as `cs[i].1`.
pub open spec fn commits_are(commits: Seq<WireItem>, cs: Seq<(Seq<char>, ObjSpec)>) -> bool {
    &&& commits.len() == cs.len()
    &&& forall|i: int| 0 <= i < cs.len() ==> (#[trigger] commits[i]).wf() && changes_are(commits[i]@, map![cs[i].0 => cs[i].1])
}

/// A task that may be reordered within Today.
pub open spec fn today_orderable(t: Task, today: i64) -> bool {
    t.start == TaskStart::Anytime && (task_is_today(t, today) || t.evening)
}

/// The list with the task `u` left out.
pub open spec fn without_task(s: Seq<&Task>, u: Seq<char>) -> Seq<&Task>
    decreases s.len(),
{
    if s.len() == 0 {
        seq![]
    } else {
        let r = without_task(s.drop_last(), u);
        if (*s.last()).uuid@ == u {
            r
        } else {
            r.push(s.last())
        }
    }
}

/// The first position of the task `u` in a list.
pub open spec fn pos_of(s: Seq<&Task>, u: Seq<char>) -> Option<int>
    decreases s.len(),
{
    if s.len() == 0 {
        None
    } else {
        match pos_of(s.drop_last(), u) {
            Some(k) => Some(k),
            None => if (*s.last()).uuid@ == u {
                Some(s.len() - 1)
            } else {
                None
            },
        }
    }
}

/// The entries of a renumbered list (among the first `n`) whose index
/// changes: id, new index and entity kind.
pub open spec fn renumbered(full: Seq<&Task>, n: int) -> Seq<(Seq<char>, i32, EntityType)>
    decreases n,
{
    if n <= 0 {
        seq![]
    } else {
        let r = renumbered(full, n - 1);
        let t = *full[n - 1];
        if t.index != slot_ix(n - 1) {
            r.push((t.uuid@, slot_ix(n - 1), entity_of(t.entity)))
        } else {
            r
        }
    }
}

/// The index updates of moving `item` to position `at` of `order` (the
/// list without it): the item alone when it fits between its neighbours,
/// otherwise every entry of the renumbered list whose index changes.
pub open spec fn index_moves(order: Seq<&Task>, at: int, item: Task) -> Seq<(Seq<char>, i32, EntityType)> {
    match gap_ix(indices(order), at) {
        Some(v) => if v != item.index {
            seq![(item.uuid@, v, entity_of(item.entity))]
        } else {
            seq![]
        },
        None => {
            let full = order.take(at) + seq![&item] + order.skip(at);
            renumbered(full, full.len() as int)
        },
    }
}

/// A renumbered list names each entry whose index differs from its slot's,
/// with that slot's index.
proof fn lemma_renumbered_has(full: Seq<&Task>, n: int, p: int)
    requires
        0 <= p < n <= full.len(),
        (*full[p]).index != slot_ix(p),
    ensures
        renumbered(full, n).contains(((*full[p]).uuid@, slot_ix(p), entity_of((*full[p]).entity))),
    decreases n,
{
    let r = renumbered(full, n - 1);
    if p < n - 1 {
        lemma_renumbered_has(full, n - 1, p);
        let x = ((*full[p]).uuid@, slot_ix(p), entity_of((*full[p]).entity));
        let i = choose|i: int| 0 <= i < r.len() && r[i] == x;
        let t = *full[n - 1];
        if t.index != slot_ix(n - 1) {
            assert(r.push((t.uuid@, slot_ix(n - 1), entity_of(t.entity)))[i] == x);
        }
    } else {
        assert(renumbered(full, n) == r.push(((*full[p]).uuid@, slot_ix(p), entity_of((*full[p]).entity))));
        assert(renumbered(full, n)[r.len() as int] == ((*full[p]).uuid@, slot_ix(p), entity_of((*full[p]).entity)));
    }
}

/// Where a reordered task lands: with the sibling list sorted by index and no
/// index arithmetic leaving the `i32` range, the moved task's index comes
/// after every sibling before its new place and before every sibling from its
/// new place on, counting the siblings renumbered to make room. Each index
/// that differs from the one a task had is one that the reorder commits.
pub proof fn lemma_reorder_in_place(order: Seq<&Task>, at: int, item: Task)
    requires
        0 <= at <= order.len(),
        forall|a: int, b: int| 0 <= a <= b < order.len() ==> #[trigger] order[a].index <= #[trigger] order[b].index,
        at == 0 && order.len() > 0 ==> order[0].index > i32::MIN,
        at == order.len() && at > 0 ==> order[at - 1].index < i32::MAX,
        0 < at < order.len() ==> order[at - 1].index < i32::MAX && i32::MIN <= order[at - 1].index + order[at].index <= i32::MAX,
        (order.len() + 1) * 1024 <= i32::MAX,
    ensures
        ({
            let ix = indices(order);
            let moves = index_moves(order, at, item);
            &&& forall|j: int| 0 <= j < at ==> #[trigger] final_ix(ix, at, j) < new_ix(ix, at)
            &&& forall|j: int| at <= j < order.len() ==> new_ix(ix, at) < #[trigger] final_ix(ix, at, j)
            &&& (new_ix(ix, at) == item.index || moves.contains((item.uuid@, new_ix(ix, at), entity_of(item.entity))))
            &&& forall|j: int| 0 <= j < order.len() ==> ((*order[j]).index == #[trigger] final_ix(ix, at, j)
                || moves.contains(((*order[j]).uuid@, final_ix(ix, at, j), entity_of((*order[j]).entity))))
        }),
{
    let ix = indices(order);
    assert forall|a: int, b: int| 0 <= a <= b < ix.len() implies #[trigger] ix[a] <= #[trigger] ix[b] by {
        assert(ix[a] == order[a].index && ix[b] == order[b].index);
    }
    if order.len() > 0 {
        assert(ix[0] == order[0].index);
    }
    if at > 0 {
        assert(ix[at - 1] == order[at - 1].index);
    }
    if at < order.len() {
        assert(ix[at] == order[at].index);
    }
    lemma_new_ix_in_place(ix, at);
    let moves = index_moves(order, at, item);
    match gap_ix(ix, at) {
        Some(v) => {
            if v != item.index {
                assert(moves[0] == (item.uuid@, v, entity_of(item.entity)));
            }
            assert forall|j: int| 0 <= j < order.len() implies ((*order[j]).index == #[trigger] final_ix(ix, at, j)
                || moves.contains(((*order[j]).uuid@, final_ix(ix, at, j), entity_of((*order[j]).entity)))) by {
                assert(ix[j] == order[j].index);
            }
        },
        None => {
            let full = order.take(at) + seq![&item] + order.skip(at);
            assert(full[at] == &item);
            if item.index != slot_ix(at) {
                lemma_renumbered_has(full, full.len() as int, at);
            }
            assert forall|j: int| 0 <= j < order.len() implies ((*order[j]).index == #[trigger] final_ix(ix, at, j)
                || moves.contains(((*order[j]).uuid@, final_ix(ix, at, j), entity_of((*order[j]).entity)))) by {
                let p = moved_slot(j, at);
                assert(full[p] == order[j]);
                if (*order[j]).index != slot_ix(p) {
                    lemma_renumbered_has(full, full.len() as int, p);
                }
            }
        },
    }
}

/// The object that sets one index.
pub open spec fn ix_object(e: EntityType, ix: i32, now_ms: i64) -> ObjSpec {
    (OperationType::Update, e, Map::empty().insert("ix"@, PVal::Int(ix as i64)).insert("md"@, PVal::Millis(now_ms)))
}

/// The line printed once a task is reordered.
pub open spec fn reorder_line(item: Task, label: Seq<char>, no_color: bool) -> Seq<char> {
    done_line("✓"@ + " Reordered"@, item.title@, item.uuid@, no_color) + " "@ + colored_text(label, seq![DIM], no_color)
}

/// The text naming the anchor in the label.
pub open spec fn anchor_part(args: ReorderArgs, anchor: Task) -> Seq<char> {
    (if args.before_id is Some { "(before="@ } else { "(after="@ }) + anchor.title@
}

/// The id of the anchor: `--before-id`, else `--after-id`, else empty.
pub open spec fn anchor_text(args: ReorderArgs) -> Seq<char> {
    match args.before_id {
        Some(b) => b@,
        None => match args.after_id {
            Some(a) => a@,
            None => seq![],
        },
    }
}

proof fn lemma_index_outcome(
    p: ReorderPlan,
    store: ThingsStore,
    args: ReorderArgs,
    now_ms: i64,
    today: i64,
    no_color: bool,
    item: Task,
    anchor: Task,
    s: Seq<&Task>,
)
    requires
        resolved(store.tasks_by_uuid@, store.task_ids_sorted@, args.item_id@, "Task"@).0 == Some(item),
        resolved(store.tasks_by_uuid@, store.task_ids_sorted@, anchor_text(args), "Task"@).0 == Some(anchor),
        item.uuid@ != anchor.uuid@,
        !(today_orderable(item, today) && today_orderable(anchor, today)),
        bucket_of(store.tasks_by_uuid@, item) == bucket_of(store.tasks_by_uuid@, anchor),
        in_bucket(store.tasks_by_uuid@, bucket_of(store.tasks_by_uuid@, item), item),
        in_bucket(store.tasks_by_uuid@, bucket_of(store.tasks_by_uuid@, item), anchor),
        shows(store.tasks_by_uuid@, |t: Task| in_bucket(store.tasks_by_uuid@, bucket_of(store.tasks_by_uuid@, item), t), s),
        sorted_index_id(s),
        index_reorder(p, s, item, anchor, args, now_ms, no_color),
    ensures
        reorder_outcome(p, store, args, now_ms, today, no_color),
{
}

/// What `reorder` does at `now_ms` on the day `today`.
pub open spec fn reorder_outcome(p: ReorderPlan, store: ThingsStore, args: ReorderArgs, now_ms: i64, today: i64, no_color: bool) -> bool {
    let tasks = store.tasks_by_uuid@;
    let ids = store.task_ids_sorted@;
    let ri = resolved(tasks, ids, args.item_id@, "Task"@);
    let ra = resolved(tasks, ids, anchor_text(args), "Task"@);
    match ri.0 {
        None => reorder_refused(p, ri.1),
        Some(item) => match ra.0 {
            None => reorder_refused(p, ra.1),
            Some(anchor) => if item.uuid@ == anchor.uuid@ {
                reorder_refused(p, "Cannot reorder an item relative to itself."@)
            } else if today_orderable(item, today) && today_orderable(anchor, today) {
                let tir: i64 = match anchor.today_index_reference {
                    Some(r) => r,
                    None => match anchor.start_date {
                        Some(d) => d,
                        None => today,
                    },
                };
                let ti: i32 = if args.before_id is Some {
                    anchor.today_index.wrapping_sub(1)
                } else {
                    anchor.today_index.wrapping_add(1)
                };
                let m1 = Map::empty().insert("tir"@, PVal::Int(tir)).insert("ti"@, PVal::Int(ti as i64));
                let m2 = if item.evening != anchor.evening {
                    m1.insert("sb"@, PVal::Int(if anchor.evening { 1 } else { 0 }))
                } else {
                    m1
                };
                &&& p.notes@.len() == 0
                &&& commits_are(p.commits@, seq![(item.uuid@, (OperationType::Update, entity_of(item.entity), m2.insert("md"@, PVal::Millis(now_ms))))])
                &&& p.done_lines@.len() == 1
                &&& p.done_lines@[0]@ == reorder_line(
                    item,
                    anchor_part(args, anchor) + ", today_ref="@ + signed_decimal(tir as int) + ", today_index="@ + signed_decimal(ti as int) + ")"@,
                    no_color,
                )
                &&& p.fail_prefix@ == "Failed to reorder item: "@
            } else if bucket_of(tasks, item) != bucket_of(tasks, anchor) {
                reorder_refused(p, "Cannot reorder across different containers/lists."@)
            } else if !in_bucket(tasks, bucket_of(tasks, item), item) || !in_bucket(tasks, bucket_of(tasks, item), anchor) {
                reorder_refused(p, "Cannot reorder item in the selected list."@)
            } else {
                exists|s: Seq<&Task>| {
                    &&& shows(tasks, |t: Task| in_bucket(tasks, bucket_of(tasks, item), t), s)
                    &&& sorted_index_id(s)
                    &&& #[trigger] index_reorder(p, s, item, anchor, args, now_ms, no_color)
                }
            },
        },
    }
}

/// The index reorder of `item` next to `anchor` in the sibling list `s`.
pub open spec fn index_reorder(p: ReorderPlan, s: Seq<&Task>, item: Task, anchor: Task, args: ReorderArgs, now_ms: i64, no_color: bool) -> bool {
    let order = without_task(s, item.uuid@);
    match pos_of(order, anchor.uuid@) {
        None => reorder_refused(p, "Anchor not found in reorder list."@),
        Some(k) => {
            let at = if args.before_id is Some { k } else { k + 1 };
            let new_index = match gap_ix(indices(order), at) {
                Some(v) => v,
                None => slot_ix(at),
            };
            let moves = index_moves(order, at, item);
            &&& p.notes@.len() == 0
            &&& commits_are(p.commits@, moves.map_values(|u: (Seq<char>, i32, EntityType)| (u.0, ix_object(u.2, u.1, now_ms))))
            &&& p.done_lines@.len() == 1
            &&& p.done_lines@[0]@ == reorder_line(item, anchor_part(args, anchor) + ", index="@ + signed_decimal(new_index as int) + ")"@, no_color)
            &&& p.fail_prefix@ == "Failed to reorder item: "@
        },
    }
}

fn find_pos(s: &Vec<&Task>, u: &str) -> (r: Option<usize>)
    ensures
        match pos_of(s@, u@) {
            Some(k) => r == Some(k as usize),
            None => r is None,
        },
{
    let mut i: usize = 0;
    proof {
        assert(s@.take(0) =~= seq![]);
    }
    while i < s.len()
        invariant
            i <= s@.len(),
            pos_of(s@.take(i as int), u@) is None,
        decreases s@.len() - i,
    {
        proof {
            assert(s@.take(i + 1).drop_last() =~= s@.take(i as int));
            assert(s@.take(i + 1).last() == s@[i as int]);
        }
        if same_text(s[i].uuid.as_str(), u) {
            proof {
                assert(pos_of(s@.take(i + 1), u@) == Some(i as int));
                lemma_pos_extends(s@, u@, i + 1);
            }
            return Some(i);
        }
        i += 1;
    }
    proof {
        assert(s@.take(s@.len() as int) =~= s@);
    }
    None
}

proof fn lemma_pos_extends(s: Seq<&Task>, u: Seq<char>, i: int)
    requires
        0 <= i <= s.len(),
        pos_of(s.take(i), u) is Some,
    ensures
        pos_of(s, u) == pos_of(s.take(i), u),
    decreases s.len() - i,
{
    if i < s.len() {
        assert(s.take(i + 1).drop_last() =~= s.take(i));
        lemma_pos_extends(s, u, i + 1);
    } else {
        assert(s.take(i) =~= s);
    }
}

fn drop_task<'a>(s: &Vec<&'a Task>, u: &str) -> (r: Vec<&'a Task>)
    ensures
        r@ == without_task(s@, u@),
{
    let mut r: Vec<&Task> = Vec::new();
    let mut i: usize = 0;
    proof {
        assert(s@.take(0) =~= seq![]);
    }
    while i < s.len()
        invariant
            i <= s@.len(),
            r@ == without_task(s@.take(i as int), u@),
        decreases s@.len() - i,
    {
        proof {
            assert(s@.take(i + 1).drop_last() =~= s@.take(i as int));
            assert(s@.take(i + 1).last() == s@[i as int]);
        }
        if !same_text(s[i].uuid.as_str(), u) {
            r.push(s[i]);
        }
        i += 1;
    }
    proof {
        assert(s@.take(s@.len() as int) =~= s@);
    }
    r
}

fn gap_index(order: &Vec<&Task>, at: usize) -> (r: Option<i32>)
    requires
        at <= order@.len(),
    ensures
        r == gap_ix(indices(order@), at as int),
{
    let ghost ix = indices(order@);
    let n = order.len();
    if at == 0 && at == n {
        Some(0)
    } else if at == 0 {
        proof {
            assert(ix[0] == order@[0].index);
        }
        Some(order[0].index.wrapping_sub(1))
    } else if at == n {
        proof {
            assert(ix[at - 1] == order@[at - 1].index);
        }
        Some(order[at - 1].index.wrapping_add(1))
    } else {
        let prev = order[at - 1].index;
        let next = order[at].index;
        proof {
            assert(ix[at - 1] == prev && ix[at as int] == next);
        }
        if prev.wrapping_add(1) < next {
            Some(half(prev.wrapping_add(next)))
        } else {
            None
        }
    }
}

/// The index updates of the move, as tasks and their new indices.
fn move_list<'a>(order: &Vec<&'a Task>, at: usize, item: &'a Task) -> (r: Vec<(&'a Task, i32)>)
    requires
        at <= order@.len(),
    ensures
        r@.map_values(|x: (&Task, i32)| ((*x.0).uuid@, x.1, entity_of((*x.0).entity))) == index_moves(order@, at as int, *item),
{
    let mut r: Vec<(&Task, i32)> = Vec::new();
    match gap_index(order, at) {
        Some(v) => {
            if v != item.index {
                r.push((item, v));
            }
            proof {
                assert(r@.map_values(|x: (&Task, i32)| ((*x.0).uuid@, x.1, entity_of((*x.0).entity))) =~= index_moves(order@, at as int, *item));
            }
            r
        },
        None => {
            let mut full: Vec<&Task> = Vec::new();
            let mut i: usize = 0;
            while i < at
                invariant
                    i <= at <= order@.len(),
                    full@ == order@.take(i as int),
                decreases at - i,
            {
                full.push(order[i]);
                proof {
                    assert(full@ =~= order@.take(i + 1));
                }
                i += 1;
            }
            full.push(item);
            let mut j: usize = at;
            while j < order.len()
                invariant
                    at <= j <= order@.len(),
                    full@ == order@.take(at as int) + seq![item] + order@.subrange(at as int, j as int),
                decreases order@.len() - j,
            {
                full.push(order[j]);
                proof {
                    assert(full@ =~= order@.take(at as int) + seq![item] + order@.subrange(at as int, j + 1));
                }
                j += 1;
            }
            proof {
                assert(order@.subrange(at as int, order@.len() as int) =~= order@.skip(at as int));
            }
            let ghost fv = full@;
            let mut k: usize = 0;
            while k < full.len()
                invariant
                    k <= full@.len(),
                    fv == full@,
                    r@.map_values(|x: (&Task, i32)| ((*x.0).uuid@, x.1, entity_of((*x.0).entity))) == renumbered(fv, k as int),
                decreases full@.len() - k,
            {
                let t = full[k];
                let target = slot(k);
                if t.index != target {
                    let ghost before = r@;
                    r.push((t, target));
                    proof {
                        assert(r@ == before.push((t, target)));
                        assert(r@.map_values(|x: (&Task, i32)| ((*x.0).uuid@, x.1, entity_of((*x.0).entity)))
                            =~= before.map_values(|x: (&Task, i32)| ((*x.0).uuid@, x.1, entity_of((*x.0).entity))).push((t.uuid@, target, entity_of(t.entity))));
                    }
                }
                k += 1;
            }
            r
        },
    }
}

fn ix_change(t: &Task, ix: i32, now_ms: i64) -> (w: KeyMap<WireObject>)
    ensures
        w.wf(),
        changes_are(w@, map![t.uuid@ => ix_object(entity_of(t.entity), ix, now_ms)]),
{
    let mut m: KeyMap<JsonValue> = no_props();
    let ghost s0: Map<Seq<char>, PVal> = Map::empty();
    put(&mut m, Ghost(s0), "ix", JsonValue::integer(ix as i64), Ghost(PVal::Int(ix as i64)));
    put(&mut m, Ghost(s0.insert("ix"@, PVal::Int(ix as i64))), "md", JsonValue::Millis(now_ms), Ghost(PVal::Millis(now_ms)));
    let o = WireObject { operation_type: OperationType::Update, entity_type: Some(EntityType::from(t.entity.clone())), properties: m };
    one_change(t.uuid.clone(), o, Ghost(ix_object(entity_of(t.entity), ix, now_ms)))
}

fn refuse(m: String) -> (p: ReorderPlan)
    ensures
        reorder_refused(p, m@),
{
    let mut notes: Vec<String> = Vec::new();
    notes.push(m);
    let p = ReorderPlan { notes, commits: Vec::new(), done_lines: Vec::new(), fail_prefix: String::new() };
    proof {
        assert(views(p.notes@) =~= seq![m@]);
    }
    p
}

fn is_today_orderable(t: &Task, today: i64) -> (r: bool)
    ensures
        r == today_orderable(*t, today),
{
    t.start == TaskStart::Anytime && (t.is_today(today) || t.evening)
}

/// A resolved task is the store's task under its own id.
proof fn lemma_resolved_task(store: ThingsStore, ident: Seq<char>)
    requires
        store.wf(),
        resolved(store.tasks_by_uuid@, store.task_ids_sorted@, ident, "Task"@).0 is Some,
    ensures
        ({
            let t = resolved(store.tasks_by_uuid@, store.task_ids_sorted@, ident, "Task"@).0.unwrap();
            store.tasks_by_uuid@.contains_key(t.uuid@) && store.tasks_by_uuid@[t.uuid@] == t
        }),
{
    crate::lookup::lemma_resolved_in(store.tasks_by_uuid@, store.task_ids_sorted@, ident, "Task"@);
}

impl ReorderArgs {
    /// What `reorder` does at `now_ms` on the day `today`.
    #[verifier::rlimit(80)]
    pub fn plan(&self, store: &ThingsStore, now_ms: i64, today: i64, no_color: bool) -> (p: ReorderPlan)
        requires
            store.wf(),
        ensures
            reorder_outcome(p, *store, *self, now_ms, today, no_color),
    {
        let ghost tasks = store.tasks_by_uuid@;
        let ri = store.resolve_task_identifier(self.item_id.as_str());
        let item = match ri.0 {
            None => return refuse(ri.1),
            Some(t) => t,
        };
        let anchor_id: &str = match &self.before_id {
            Some(b) => b.as_str(),
            None => match &self.after_id {
                Some(a) => a.as_str(),
                None => "",
            },
        };
        proof {
            reveal_strlit("");
            assert(""@ =~= seq![]);
        }
        let ra = store.resolve_task_identifier(anchor_id);
        let anchor = match ra.0 {
            None => return refuse(ra.1),
            Some(t) => t,
        };
        if same_text(item.uuid.as_str(), anchor.uuid.as_str()) {
            return refuse(owned("Cannot reorder an item relative to itself."));
        }
        let label_head = concat(if self.before_id.is_some() { "(before=" } else { "(after=" }, anchor.title.as_str());
        let head = concat(icons().done, " Reordered");
        if is_today_orderable(item, today) && is_today_orderable(anchor, today) {
            let tir: i64 = match anchor.today_index_reference {
                Some(r) => r,
                None => match anchor.start_date {
                    Some(d) => d,
                    None => today,
                },
            };
            let ti: i32 = if self.before_id.is_some() {
                anchor.today_index.wrapping_sub(1)
            } else {
                anchor.today_index.wrapping_add(1)
            };
            let mut m: KeyMap<JsonValue> = no_props();
            let ghost s0: Map<Seq<char>, PVal> = Map::empty();
            put(&mut m, Ghost(s0), "tir", JsonValue::integer(tir), Ghost(PVal::Int(tir)));
            let ghost s1 = s0.insert("tir"@, PVal::Int(tir));
            put(&mut m, Ghost(s1), "ti", JsonValue::integer(ti as i64), Ghost(PVal::Int(ti as i64)));
            let ghost s2 = s1.insert("ti"@, PVal::Int(ti as i64));
            let ghost s3 = if item.evening != anchor.evening {
                s2.insert("sb"@, PVal::Int(if anchor.evening { 1 } else { 0 }))
            } else {
                s2
            };
            if item.evening != anchor.evening {
                let sb: i64 = if anchor.evening { 1 } else { 0 };
                put(&mut m, Ghost(s2), "sb", JsonValue::integer(sb), Ghost(PVal::Int(sb)));
            }
            put(&mut m, Ghost(s3), "md", JsonValue::Millis(now_ms), Ghost(PVal::Millis(now_ms)));
            let ghost x: ObjSpec = (OperationType::Update, entity_of(item.entity), s3.insert("md"@, PVal::Millis(now_ms)));
            let o = WireObject { operation_type: OperationType::Update, entity_type: Some(EntityType::from(item.entity.clone())), properties: m };
            let w = one_change(item.uuid.clone(), o, Ghost(x));
            let mut commits: Vec<WireItem> = Vec::new();
            commits.push(w);
            let label = concat(
                concat(
                    concat(concat(label_head.as_str(), ", today_ref=").as_str(), signed_decimal_string(tir).as_str()).as_str(),
                    ", today_index=",
                ).as_str(),
                concat(signed_decimal_string(ti as i64).as_str(), ")").as_str(),
            );
            let line = concat(
                concat(done_line_text(head.as_str(), item.title.as_str(), item.uuid.as_str(), no_color).as_str(), " ").as_str(),
                dim(label.as_str(), no_color).as_str(),
            );
            let mut lines: Vec<String> = Vec::new();
            lines.push(line);
            let p = ReorderPlan { notes: Vec::new(), commits, done_lines: lines, fail_prefix: owned("Failed to reorder item: ") };
            proof {
                assert(p.commits@[0] == w);
                assert(commits_are(p.commits@, seq![(item.uuid@, x)]));
                assert(label@ =~= anchor_part(*self, *anchor) + ", today_ref="@ + signed_decimal(tir as int) + ", today_index="@
                    + signed_decimal(ti as int) + ")"@);
            }
            return p;
        }
        let ib = task_bucket(item, store);
        let ab = task_bucket(anchor, store);
        if !same_texts(&ib, &ab) {
            return refuse(owned("Cannot reorder across different containers/lists."));
        }
        let ghost target = views(ib@);
        let siblings = bucket_siblings(store, ib);
        proof {
            lemma_resolved_task(*store, self.item_id@);
            lemma_resolved_task(*store, anchor_id@);
        }
        let ip = find_pos(&siblings, item.uuid.as_str());
        let ap = find_pos(&siblings, anchor.uuid.as_str());
        proof {
            lemma_member(tasks, target, siblings@, *item);
            lemma_member(tasks, target, siblings@, *anchor);
        }
        if ip.is_none() || ap.is_none() {
            return refuse(owned("Cannot reorder item in the selected list."));
        }
        proof {
            assert(target == bucket_of(tasks, *item));
            assert(bucket_of(tasks, *item) == bucket_of(tasks, *anchor));
            assert(in_bucket(tasks, target, *item) && in_bucket(tasks, target, *anchor));
            assert((|t: Task| in_bucket(tasks, bucket_of(tasks, *item), t)) =~= (|t: Task| in_bucket(tasks, target, t)));
        }
        let order = drop_task(&siblings, item.uuid.as_str());
        let k = match find_pos(&order, anchor.uuid.as_str()) {
            None => {
                let p = refuse(owned("Anchor not found in reorder list."));
                proof {
                    lemma_index_outcome(p, *store, *self, now_ms, today, no_color, *item, *anchor, siblings@);
                }
                return p;
            },
            Some(k) => k,
        };
        proof {
            lemma_pos_bound(order@, anchor.uuid@);
        }
        let at: usize = if self.before_id.is_some() { k } else { k + 1 };
        let new_index: i32 = match gap_index(&order, at) {
            Some(v) => v,
            None => slot(at),
        };
        let moves = move_list(&order, at, item);
        let ghost mv = moves@.map_values(|x: (&Task, i32)| ((*x.0).uuid@, x.1, entity_of((*x.0).entity)));
        let ghost cs = mv.map_values(|u: (Seq<char>, i32, EntityType)| (u.0, ix_object(u.2, u.1, now_ms)));
        let mut commits: Vec<WireItem> = Vec::new();
        let mut i: usize = 0;
        while i < moves.len()
            invariant
                i <= moves@.len(),
                mv == moves@.map_values(|x: (&Task, i32)| ((*x.0).uuid@, x.1, entity_of((*x.0).entity))),
                cs == mv.map_values(|u: (Seq<char>, i32, EntityType)| (u.0, ix_object(u.2, u.1, now_ms))),
                commits@.len() == i,
                forall|j: int| 0 <= j < i ==> (#[trigger] commits@[j]).wf() && changes_are(commits@[j]@, map![cs[j].0 => cs[j].1]),
            decreases moves@.len() - i,
        {
            let (t, ix) = moves[i];
            let w = ix_change(t, ix, now_ms);
            commits.push(w);
            proof {
                assert(mv[i as int] == (t.uuid@, ix, entity_of(t.entity)));
            }
            i += 1;
        }
        let label = concat(
            concat(concat(label_head.as_str(), ", index=").as_str(), signed_decimal_string(new_index as i64).as_str()).as_str(),
            ")",
        );
        let line = concat(
            concat(done_line_text(head.as_str(), item.title.as_str(), item.uuid.as_str(), no_color).as_str(), " ").as_str(),
            dim(label.as_str(), no_color).as_str(),
        );
        let mut lines: Vec<String> = Vec::new();
        lines.push(line);
        let p = ReorderPlan { notes: Vec::new(), commits, done_lines: lines, fail_prefix: owned("Failed to reorder item: ") };
        proof {
            assert(index_reorder(p, siblings@, *item, *anchor, *self, now_ms, no_color));
            assert(shows(tasks, |t: Task| in_bucket(tasks, bucket_of(tasks, *item), t), siblings@));
            assert(sorted_index_id(siblings@));
            lemma_index_outcome(p, *store, *self, now_ms, today, no_color, *item, *anchor, siblings@);
        }
        p
    }
}

/// A found position is within the list.
proof fn lemma_pos_bound(s: Seq<&Task>, u: Seq<char>)
    ensures
        pos_of(s, u) matches Some(k) ==> 0 <= k < s.len(),
    decreases s.len(),
{
    if s.len() > 0 {
        lemma_pos_bound(s.drop_last(), u);
    }
}

/// A task of the store is in a sibling list exactly when it belongs to that list.
proof fn lemma_member(tasks: Map<Seq<char>, Task>, target: Seq<Seq<char>>, s: Seq<&Task>, t: Task)
    requires
        shows(tasks, |x: Task| in_bucket(tasks, target, x), s),
        tasks.contains_key(t.uuid@),
        tasks[t.uuid@] == t,
        forall|k: Seq<char>| #[trigger] tasks.contains_key(k) ==> tasks[k].uuid@ == k,
    ensures
        (pos_of(s, t.uuid@) is Some) <==> in_bucket(tasks, target, t),
{
    lemma_pos_found(s, t.uuid@);
    if in_bucket(tasks, target, t) {
        assert((|x: Task| in_bucket(tasks, target, x))(tasks[t.uuid@]));
        let a = choose|a: int| 0 <= a < s.len() && (*#[trigger] s[a]).record_id() == t.uuid@;
        assert((*s[a]).uuid@ == t.uuid@);
    }
    if pos_of(s, t.uuid@) is Some {
        let a = choose|a: int| 0 <= a < s.len() && (*s[a]).uuid@ == t.uuid@;
        assert(tasks.contains_key((*s[a]).record_id()));
    }
}

/// A position is found exactly when some entry has the id.
proof fn lemma_pos_found(s: Seq<&Task>, u: Seq<char>)
    ensures
        (pos_of(s, u) is Some) <==> exists|a: int| 0 <= a < s.len() && (*s[a]).uuid@ == u,
    decreases s.len(),
{
    if s.len() > 0 {
        lemma_pos_found(s.drop_last(), u);
        if exists|a: int| 0 <= a < s.len() && (*s[a]).uuid@ == u {
            let a = choose|a: int| 0 <= a < s.len() && (*s[a]).uuid@ == u;
            if a < s.len() - 1 {
                assert(s.drop_last()[a] == s[a]);
            }
        }
        if exists|a: int| 0 <= a < s.len() - 1 && (*s.drop_last()[a]).uuid@ == u {
            let a = choose|a: int| 0 <= a < s.len() - 1 && (*s.drop_last()[a]).uuid@ == u;
            assert(s[a] == s.drop_last()[a]);
        }
    }
}

} // verus!
