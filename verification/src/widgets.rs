//! The pieces of the task views' rows that are decided before drawing: the
//! checklist id column and the checklist item icon.

use vstd::prelude::*;
use vstd::string::StringSliceAdditionalSpecFns;
use crate::common::checklist_icon_text;
use crate::keymap::KeyMap;
use crate::prefixes::{id_set, prefix_need, shortest_unique_prefixes};
use crate::store::ChecklistItem;
use crate::text::take_chars;

verus! {

/// The header row of an area in a view: its id column and title.
pub struct AreaHeaderWidget<'a> {
    pub area_uuid: &'a str,
    pub title: &'a str,
    pub id_prefix_len: usize,
}

/// The checklist of one task, optionally with id columns.
pub struct ChecklistWidget<'a> {
    pub items: &'a [ChecklistItem],
    pub show_ids: bool,
}

/// One checklist row: the item, its id column (when ids are shown), and
/// whether it is the last row.
pub struct ChecklistItemWidget<'a> {
    pub item: &'a ChecklistItem,
    pub id: Option<&'a str>,
    pub is_last: bool,
}

/// The JSON form of the Today view.
pub struct TodayJsonView;

/// The width of an id column of `len` bytes and its separating space (in
/// 16-bit wrapping arithmetic, as the column width is drawn).
pub open spec fn col_width(len: usize) -> u16 {
    (len.wrapping_add(1)) as u16
}

/// The UTF-8 length of a text.
pub open spec fn byte_len(s: Seq<char>) -> usize {
    vstd::utf8::encode_utf8(s).len() as usize
}

/// The ids of a checklist, as a set.
pub open spec fn item_ids(items: Seq<ChecklistItem>) -> Set<Seq<char>> {
    Set::new(|x: Seq<char>| exists|i: int| 0 <= i < items.len() && #[trigger] items[i].uuid@ == x)
}

pub(crate) fn distinct_uuids(items: &[ChecklistItem]) -> (r: Vec<String>)
    ensures
        id_set(r@) == item_ids(items@),
        forall|a: int, b: int| 0 <= a < r@.len() && 0 <= b < r@.len() && a != b ==> #[trigger] r@[a]@ != #[trigger] r@[b]@,
{
    let mut r: Vec<String> = Vec::new();
    let mut i: usize = 0;
    while i < items.len()
        invariant
            i <= items@.len(),
            forall|x: Seq<char>| id_set(r@).contains(x) <==> exists|k: int| 0 <= k < i && #[trigger] items@[k].uuid@ == x,
            forall|a: int, b: int| 0 <= a < r@.len() && 0 <= b < r@.len() && a != b ==> #[trigger] r@[a]@ != #[trigger] r@[b]@,
        decreases items@.len() - i,
    {
        let u = items[i].uuid.as_str();
        if !crate::lookup::contains_id(&r, u) {
            let ghost before = r@;
            r.push(items[i].uuid.clone());
            proof {
                assert forall|x: Seq<char>| id_set(r@).contains(x) <==> exists|k: int| 0 <= k < i + 1 && #[trigger] items@[k].uuid@ == x by {
                    if id_set(r@).contains(x) {
                        let a = choose|a: int| 0 <= a < r@.len() && #[trigger] r@[a]@ == x;
                        if a < before.len() {
                            assert(before[a]@ == x);
                            assert(id_set(before).contains(x));
                        } else {
                            assert(items@[i as int].uuid@ == x);
                        }
                    }
                    if exists|k: int| 0 <= k < i + 1 && #[trigger] items@[k].uuid@ == x {
                        let k = choose|k: int| 0 <= k < i + 1 && #[trigger] items@[k].uuid@ == x;
                        if k < i {
                            assert(id_set(before).contains(x));
                            let a = choose|a: int| 0 <= a < before.len() && #[trigger] before[a]@ == x;
                            assert(r@[a]@ == x);
                        } else {
                            assert(r@[before.len() as int]@ == x);
                        }
                    }
                }
                assert forall|a: int, b: int| 0 <= a < r@.len() && 0 <= b < r@.len() && a != b implies #[trigger] r@[a]@ != #[trigger] r@[b]@ by {
                    if a == before.len() {
                        assert(r@[b] == before[b]);
                        assert(id_set(before).contains(before[b]@));
                    } else if b == before.len() {
                        assert(r@[a] == before[a]);
                        assert(id_set(before).contains(before[a]@));
                    } else {
                        assert(r@[a] == before[a] && r@[b] == before[b]);
                    }
                }
            }
        } else {
            proof {
                assert forall|x: Seq<char>| id_set(r@).contains(x) <==> exists|k: int| 0 <= k < i + 1 && #[trigger] items@[k].uuid@ == x by {
                    if exists|k: int| 0 <= k < i + 1 && #[trigger] items@[k].uuid@ == x {
                        let k = choose|k: int| 0 <= k < i + 1 && #[trigger] items@[k].uuid@ == x;
                        if k == i {
                            assert(id_set(r@).contains(u@));
                        }
                    }
                }
            }
        }
        i += 1;
    }
    proof {
        assert(id_set(r@) =~= item_ids(items@));
    }
    r
}

/// Whether `r` is a width the checklist's id column may take: none without
/// ids or items; otherwise the length in bytes of one of the items' shortest
/// unique id prefixes, plus one.
pub open spec fn id_col_for(items: Seq<ChecklistItem>, show_ids: bool, r: u16) -> bool {
    &&& (!show_ids || items.len() == 0 ==> r == 0)
    &&& (show_ids && items.len() > 0 ==> exists|i: int, need: int|
        0 <= i < items.len() && prefix_need(item_ids(items), items[i].uuid@, need)
        && r == col_width(byte_len(take_chars(items[i].uuid@, need))))
}

impl<'a> ChecklistWidget<'a> {
    /// The width of the checklist's id column and its separating space
    /// (`id_col_width`): none without ids or items; otherwise the length in
    /// bytes of one of the items' shortest unique id prefixes, plus one.
    pub fn id_col_width(items: &[ChecklistItem], show_ids: bool) -> (r: u16)
        ensures
            id_col_for(items@, show_ids, r),
    {
        if !show_ids || items.len() == 0 {
            return 0;
        }
        let ids = distinct_uuids(items);
        let prefixes: KeyMap<String> = shortest_unique_prefixes(&ids);
        proof {
            prefixes.lemma_entries();
            assert(id_set(ids@).contains(items@[0].uuid@));
        }
        let n = prefixes.len();
        if n == 0 {
            proof {
                assert(prefixes@.contains_key(items@[0].uuid@));
            }
            return 1;
        }
        let (k, v) = prefixes.entry(0);
        let vs = v.as_str();
        let len = vs.len();
        proof {
            assert(prefixes@.contains_key(k@));
            let kk = k@;
            assert(id_set(ids@).contains(kk));
            let need = choose|need: int| prefix_need(id_set(ids@), kk, need) && prefixes@[kk]@ == take_chars(kk, need);
            assert(item_ids(items@).contains(kk));
            let i = choose|i: int| 0 <= i < items@.len() && #[trigger] items@[i].uuid@ == kk;
            assert(vs.spec_bytes() == vstd::utf8::encode_utf8(vs@));
        }
        (len.wrapping_add(1)) as u16
    }
}

impl<'a> ChecklistItemWidget<'a> {
    /// The icon of the row's item: done, canceled, or open.
    pub fn icon_str(&self) -> (r: &'static str)
        ensures
            r@ == checklist_icon_text(*self.item),
    {
        let ic = crate::common::icons();
        if self.item.is_completed() {
            ic.checklist_done
        } else if self.item.is_canceled() {
            ic.checklist_canceled
        } else {
            ic.checklist_open
        }
    }
}

} // verus!
