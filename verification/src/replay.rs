//! Replaying history items into the raw state: each object of an item
//! creates, updates or deletes the state object under its id.

use vstd::prelude::*;
use crate::json::JsonValue;
use crate::keymap::{KeyMap, map_of, lemma_map_of_suffix, lemma_map_of_full};
use crate::wire::{EntityType, OperationType, WireObject};

verus! {

/// A replayed object: its entity kind and its properties.
pub struct StateObject {
    pub entity_type: Option<EntityType>,
    pub properties: KeyMap<JsonValue>,
}

/// The replayed state: objects by id.
pub type RawState = KeyMap<StateObject>;

/// One history item: wire objects by id.
pub type WireItem = KeyMap<WireObject>;

/// What a state object stands for: its entity kind and its property map.
pub type ObjectView = (Option<EntityType>, Map<Seq<char>, JsonValue>);

/// The view of a state object.
pub open spec fn object_view(o: StateObject) -> ObjectView {
    (o.entity_type, o.properties@)
}

/// The views of the objects of a state, by id.
pub open spec fn state_view(m: Map<Seq<char>, StateObject>) -> Map<Seq<char>, ObjectView> {
    Map::new(|k: Seq<char>| m.contains_key(k), |k: Seq<char>| object_view(m[k]))
}

/// The object stored under `k`, if any.
pub open spec fn object_at(m: Map<Seq<char>, ObjectView>, k: Seq<char>) -> Option<ObjectView> {
    if m.contains_key(k) {
        Some(m[k])
    } else {
        None
    }
}

/// The object under an id once one wire object has been applied to it.
pub open spec fn apply_object(prev: Option<ObjectView>, obj: WireObject) -> Option<ObjectView> {
    match obj.operation_type {
        OperationType::Create => Some((obj.entity_type, obj.properties@)),
        OperationType::Update => match prev {
            Some(p) => Some(
                (
                    if obj.entity_type is Some {
                        obj.entity_type
                    } else {
                        p.0
                    },
                    p.1.union_prefer_right(obj.properties@),
                ),
            ),
            None => Some((obj.entity_type, obj.properties@)),
        },
        OperationType::Delete => None,
        OperationType::Unknown(_) => prev,
    }
}

/// The state once every object of an item has been applied under its id.
pub open spec fn replay(m: Map<Seq<char>, ObjectView>, item: Map<Seq<char>, WireObject>) -> Map<
    Seq<char>,
    ObjectView,
> {
    Map::new(
        |k: Seq<char>|
            if item.contains_key(k) {
                apply_object(object_at(m, k), item[k]) is Some
            } else {
                m.contains_key(k)
            },
        |k: Seq<char>|
            if item.contains_key(k) {
                apply_object(object_at(m, k), item[k]).unwrap()
            } else {
                m[k]
            },
    )
}

/// The state once a sequence of items has been replayed in order.
pub open spec fn replay_all(m: Map<Seq<char>, ObjectView>, items: Seq<Map<Seq<char>, WireObject>>) -> Map<
    Seq<char>,
    ObjectView,
>
    decreases items.len(),
{
    if items.len() == 0 {
        m
    } else {
        replay_all(replay(m, items[0]), items.drop_first())
    }
}

proof fn lemma_replay_step(
    m: Map<Seq<char>, ObjectView>,
    done: Map<Seq<char>, WireObject>,
    k: Seq<char>,
    o: WireObject,
)
    requires
        !done.contains_key(k),
    ensures
        replay(m, done.insert(k, o)) == ({
            let r = replay(m, done);
            match apply_object(object_at(m, k), o) {
                Some(v) => r.insert(k, v),
                None => r.remove(k),
            }
        }),
{
    let lhs = replay(m, done.insert(k, o));
    let r = replay(m, done);
    let rhs = match apply_object(object_at(m, k), o) {
        Some(v) => r.insert(k, v),
        None => r.remove(k),
    };
    assert(lhs =~= rhs);
}

/// Applying a wire object a second time changes nothing more.
proof fn lemma_apply_twice(prev: Option<ObjectView>, obj: WireObject)
    ensures
        apply_object(apply_object(prev, obj), obj) == apply_object(prev, obj),
{
    match obj.operation_type {
        OperationType::Update => {
            match prev {
                Some(p) => {
                    let once = p.1.union_prefer_right(obj.properties@);
                    assert(once.union_prefer_right(obj.properties@) =~= once);
                },
                None => {
                    assert(obj.properties@.union_prefer_right(obj.properties@) =~= obj.properties@);
                },
            }
        },
        _ => {},
    }
}

/// Replaying the same history item twice leaves the state as replaying it
/// once does: creates, updates, deletes and unknown operations alike.
pub proof fn lemma_replay_twice(m: Map<Seq<char>, ObjectView>, item: Map<Seq<char>, WireObject>)
    ensures
        replay(replay(m, item), item) == replay(m, item),
{
    let once = replay(m, item);
    assert forall|k: Seq<char>| #[trigger] item.contains_key(k) implies apply_object(object_at(once, k), item[k]) == apply_object(
        object_at(m, k),
        item[k],
    ) by {
        lemma_apply_twice(object_at(m, k), item[k]);
        assert(object_at(once, k) == apply_object(object_at(m, k), item[k]));
    }
    assert(replay(once, item) =~= once);
}

/// Ids that an item does not mention keep their objects.
pub proof fn lemma_replay_untouched(
    m: Map<Seq<char>, ObjectView>,
    item: Map<Seq<char>, WireObject>,
    k: Seq<char>,
)
    requires
        !item.contains_key(k),
    ensures
        object_at(replay(m, item), k) == object_at(m, k),
{
}

/// A create stores exactly the object's entity kind and properties, whatever was there.
pub proof fn lemma_replay_create(
    m: Map<Seq<char>, ObjectView>,
    item: Map<Seq<char>, WireObject>,
    k: Seq<char>,
)
    requires
        item.contains_key(k),
        item[k].operation_type == OperationType::Create,
    ensures
        object_at(replay(m, item), k) == Some((item[k].entity_type, item[k].properties@)),
{
}

/// A delete removes the object.
pub proof fn lemma_replay_delete(
    m: Map<Seq<char>, ObjectView>,
    item: Map<Seq<char>, WireObject>,
    k: Seq<char>,
)
    requires
        item.contains_key(k),
        item[k].operation_type == OperationType::Delete,
    ensures
        object_at(replay(m, item), k) is None,
{
}

/// An update of an existing object overwrites the properties it names, keeps the
/// others, and keeps the entity kind unless it names one; an update of a missing
/// object creates it.
pub proof fn lemma_replay_update(
    m: Map<Seq<char>, ObjectView>,
    item: Map<Seq<char>, WireObject>,
    k: Seq<char>,
    key: Seq<char>,
)
    requires
        item.contains_key(k),
        item[k].operation_type == OperationType::Update,
    ensures
        m.contains_key(k) ==> ({
            let r = object_at(replay(m, item), k).unwrap();
            &&& object_at(replay(m, item), k) is Some
            &&& r.0 == (if item[k].entity_type is Some {
                item[k].entity_type
            } else {
                m[k].0
            })
            &&& item[k].properties@.contains_key(key) ==> r.1.contains_key(key) && r.1[key]
                == item[k].properties@[key]
            &&& !item[k].properties@.contains_key(key) ==> (r.1.contains_key(key)
                == m[k].1.contains_key(key) && (r.1.contains_key(key) ==> r.1[key] == m[k].1[key]))
        }),
        !m.contains_key(k) ==> object_at(replay(m, item), k) == Some(
            (item[k].entity_type, item[k].properties@),
        ),
{
}

/// An operation of unknown type leaves the object as it was.
pub proof fn lemma_replay_unknown(
    m: Map<Seq<char>, ObjectView>,
    item: Map<Seq<char>, WireObject>,
    k: Seq<char>,
)
    requires
        item.contains_key(k),
        item[k].operation_type is Unknown,
    ensures
        object_at(replay(m, item), k) == object_at(m, k),
{
}

/// Replaying two runs of items one after the other is replaying their concatenation.
pub proof fn lemma_replay_all_append(
    m: Map<Seq<char>, ObjectView>,
    a: Seq<Map<Seq<char>, WireObject>>,
    b: Seq<Map<Seq<char>, WireObject>>,
)
    ensures
        replay_all(m, a + b) == replay_all(replay_all(m, a), b),
    decreases a.len(),
{
    if a.len() == 0 {
        assert(a + b =~= b);
    } else {
        assert((a + b).drop_first() =~= a.drop_first() + b);
        lemma_replay_all_append(replay(m, a[0]), a.drop_first(), b);
    }
}

/// Merges `props` into `into`, later values winning (`existing.properties.insert(k, v)` for each).
fn merge_properties(into: &mut KeyMap<JsonValue>, props: KeyMap<JsonValue>)
    requires
        old(into).wf(),
        props.wf(),
    ensures
        final(into).wf(),
        final(into)@ == old(into)@.union_prefer_right(props@),
{
    let ghost orig = props.entries_view();
    let ghost base = into@;
    let mut entries = props.into_entries();
    proof {
        lemma_map_of_full(orig);
        assert(orig.subrange(orig.len() as int, orig.len() as int) =~= orig.subrange(
            entries@.len() as int,
            orig.len() as int,
        ));
        assert(base.union_prefer_right(Map::<Seq<char>, JsonValue>::empty()) =~= base);
    }
    while entries.len() > 0
        invariant
            into.wf(),
            crate::keymap::distinct_keys(orig),
            entries@.len() <= orig.len(),
            entries@ == orig.subrange(0, entries@.len() as int),
            into@ == base.union_prefer_right(
                map_of(orig.subrange(entries@.len() as int, orig.len() as int)),
            ),
        decreases entries@.len(),
    {
        let j = entries.len() - 1;
        let (k, v) = entries.pop().unwrap();
        proof {
            assert(orig[j as int] == (k, v));
            lemma_map_of_suffix(orig, j as int);
        }
        into.insert(k, v);
        proof {
            let rest = map_of(orig.subrange(j + 1, orig.len() as int));
            assert(base.union_prefer_right(rest).insert(k@, v) =~= base.union_prefer_right(
                rest.insert(k@, v),
            ));
            assert(entries@ =~= orig.subrange(0, j as int));
        }
    }
    proof {
        lemma_map_of_full(orig);
    }
}

/// Applies the objects of one history item to the state (`fold_item`).
pub fn fold_item(item: WireItem, state: &mut RawState)
    requires
        item.wf(),
        old(state).wf(),
        forall|k: Seq<char>| #[trigger] old(state)@.contains_key(k) ==> old(state)@[k].properties.wf(),
        forall|k: Seq<char>| #[trigger] item@.contains_key(k) ==> item@[k].properties.wf(),
    ensures
        final(state).wf(),
        forall|k: Seq<char>| #[trigger] final(state)@.contains_key(k) ==> final(state)@[k].properties.wf(),
        state_view(final(state)@) == replay(state_view(old(state)@), item@),
{
    let ghost orig = item.entries_view();
    let ghost start = state_view(state@);
    proof {
        item.lemma_entries();
        assert forall|i: int| 0 <= i < orig.len() implies (#[trigger] orig[i]).1.properties.wf() by {
            assert(item@.contains_key(orig[i].0@));
        }
    }
    let mut entries = item.into_entries();
    proof {
        lemma_map_of_full(orig);
        assert(replay(start, Map::<Seq<char>, WireObject>::empty()) =~= start);
        assert(orig.subrange(orig.len() as int, orig.len() as int) =~= orig.subrange(
            entries@.len() as int,
            orig.len() as int,
        ));
    }
    while entries.len() > 0
        invariant
            state.wf(),
            crate::keymap::distinct_keys(orig),
            forall|i: int| 0 <= i < orig.len() ==> (#[trigger] orig[i]).1.properties.wf(),
            forall|k: Seq<char>| #[trigger] state@.contains_key(k) ==> state@[k].properties.wf(),
            entries@.len() <= orig.len(),
            entries@ == orig.subrange(0, entries@.len() as int),
            state_view(state@) == replay(
                start,
                map_of(orig.subrange(entries@.len() as int, orig.len() as int)),
            ),
        decreases entries@.len(),
    {
        let j = entries.len() - 1;
        let (uuid, obj) = entries.pop().unwrap();
        let ghost k = uuid@;
        let ghost o = obj;
        let ghost before = state_view(state@);
        proof {
            assert(orig[j as int] == (uuid, obj));
            lemma_map_of_suffix(orig, j as int);
            let done = map_of(orig.subrange(j + 1, orig.len() as int));
            lemma_replay_step(start, done, k, o);
            assert(object_at(start, k) == object_at(before, k));
        }
        match obj.operation_type {
            OperationType::Create => {
                state.insert(
                    uuid,
                    StateObject { entity_type: obj.entity_type, properties: obj.properties },
                );
            },
            OperationType::Update => {
                match state.remove(uuid.as_str()) {
                    Some(existing) => {
                        let mut props = existing.properties;
                        merge_properties(&mut props, obj.properties);
                        let entity_type = if obj.entity_type.is_some() {
                            obj.entity_type
                        } else {
                            existing.entity_type
                        };
                        state.insert(uuid, StateObject { entity_type, properties: props });
                    },
                    None => {
                        state.insert(
                            uuid,
                            StateObject { entity_type: obj.entity_type, properties: obj.properties },
                        );
                    },
                }
            },
            OperationType::Delete => {
                state.remove(uuid.as_str());
            },
            OperationType::Unknown(_) => {},
        }
        proof {
            let after = state_view(state@);
            let expect = match apply_object(object_at(before, k), o) {
                Some(v) => before.insert(k, v),
                None => before.remove(k),
            };
            assert(after =~= expect);
            assert(entries@ =~= orig.subrange(0, j as int));
        }
    }
    proof {
        lemma_map_of_full(orig);
    }
}

/// Replays history items in order, starting from the empty state (`fold_items`).
pub fn fold_items(items: Vec<WireItem>) -> (state: RawState)
    requires
        forall|i: int| 0 <= i < items@.len() ==> (#[trigger] items@[i]).wf(),
        forall|i: int, k: Seq<char>|
            0 <= i < items@.len() && #[trigger] items@[i]@.contains_key(k)
                ==> (#[trigger] items@[i]@[k]).properties.wf(),
    ensures
        state.wf(),
        forall|k: Seq<char>| #[trigger] state@.contains_key(k) ==> state@[k].properties.wf(),
        state_view(state@) == replay_all(
            Map::empty(),
            items@.map_values(|it: WireItem| it@),
        ),
{
    let ghost views = items@.map_values(|it: WireItem| it@);
    let mut state: RawState = KeyMap::new();
    let mut rest = items;
    let ghost n = views.len();
    proof {
        assert(state_view(state@) =~= Map::<Seq<char>, ObjectView>::empty());
        assert(views.subrange(0, n as int) =~= views);
        assert(items@.subrange(0, n as int) =~= items@);
    }
    while rest.len() > 0
        invariant
            state.wf(),
            forall|k: Seq<char>| #[trigger] state@.contains_key(k) ==> state@[k].properties.wf(),
            n == views.len(),
            rest@.len() <= n,
            rest@ == items@.subrange(n - rest@.len(), n as int),
            views == items@.map_values(|it: WireItem| it@),
            forall|i: int| 0 <= i < items@.len() ==> (#[trigger] items@[i]).wf(),
            forall|i: int, k: Seq<char>|
                0 <= i < items@.len() && #[trigger] items@[i]@.contains_key(k)
                    ==> (#[trigger] items@[i]@[k]).properties.wf(),
            replay_all(Map::empty(), views) == replay_all(
                state_view(state@),
                views.subrange(n - rest@.len(), n as int),
            ),
        decreases rest@.len(),
    {
        let ghost idx = n - rest@.len();
        let item = rest.remove(0);
        proof {
            assert(item == items@[idx]);
            assert(views.subrange(idx, n as int)[0] == item@);
            assert(views.subrange(idx, n as int).drop_first() =~= views.subrange(idx + 1, n as int));
        }
        fold_item(item, &mut state);
        proof {
            assert(rest@ =~= items@.subrange(n - rest@.len(), n as int));
        }
    }
    proof {
        assert(views.subrange(n as int, n as int).len() == 0);
    }
    state
}

} // verus!
