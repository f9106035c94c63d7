//! `tags`: lists the tags as a tree, and creates, edits and deletes tags.

use vstd::prelude::*;
use crate::commands::{CommandPlan, report_one, reports_only, json_str1, json_empty_list};
use crate::commands::changes::{
    PVal, ObjSpec, props_are, obj_matches, changes_are, writes_one, one_change, put, no_props, overrides_value,
};
use crate::commands::mark::{done_line, done_line_text};
use crate::common::{BOLD, DIM, colored_text, dim, icons, paint, tag_match, resolve_single_tag};
use crate::json::JsonValue;
use crate::keymap::KeyMap;
use crate::store::Tag;
use crate::text::{concat, owned, same_text, trim, trimmed, eq_ascii_ci, eq_ignore_ascii_case, join_sep, join_strings, views};
use crate::things::ThingsStore;
use crate::wire::{EntityType, OperationType, WireObject};

verus! {

/// The arguments of `tags list`.
pub struct TagsListArgs {}

/// The arguments of `tags new`.
pub struct TagsNewArgs {
    pub name: String,
    pub parent: Option<String>,
}

/// The arguments of `tags edit`.
pub struct TagsEditArgs {
    pub tag_id: String,
    pub name: Option<String>,
    pub move_target: Option<String>,
}

/// The arguments of `tags delete`.
pub struct TagsDeleteArgs {
    pub tag_id: String,
}

/// What `tags` does.
pub enum TagsSubcommand {
    List(TagsListArgs),
    New(TagsNewArgs),
    Edit(TagsEditArgs),
    Delete(TagsDeleteArgs),
}

/// The arguments of `tags`; without a subcommand it lists the tags.
pub struct TagsArgs {
    pub command: Option<TagsSubcommand>,
}

/// The properties of a new tag.
pub open spec fn new_tag_props(name: Seq<char>, parent: Option<Seq<char>>) -> Map<Seq<char>, PVal> {
    let m = Map::empty().insert("tt"@, PVal::Text(name)).insert("ix"@, PVal::Int(0)).insert("xx"@, PVal::Overrides);
    match parent {
        Some(p) => m.insert("pn"@, PVal::Texts(seq![p])),
        None => m,
    }
}

/// What `tags new` does, naming the new tag `new_uuid`.
pub open spec fn tag_new_outcome(p: CommandPlan, tags: Map<Seq<char>, Tag>, args: TagsNewArgs, new_uuid: Seq<char>, no_color: bool) -> bool {
    let name = trimmed(args.name@);
    if name.len() == 0 {
        reports_only(p, seq!["Tag name cannot be empty."@])
    } else {
        let parent: Result<Option<Seq<char>>, Seq<char>> = match args.parent {
            None => Ok(None),
            Some(raw) => match tag_match(tags, trimmed(raw@)) {
                Ok(k) => Ok(Some(tags[k].uuid@)),
                Err(m) => Err(m),
            },
        };
        match parent {
            Err(m) => reports_only(p, seq![m]),
            Ok(pu) => writes_one(
                p,
                new_uuid,
                (OperationType::Create, EntityType::Tag4, new_tag_props(name, pu)),
                done_line("✓"@ + " Created"@, name, new_uuid, no_color),
                "Failed to create tag: "@,
            ),
        }
    }
}

impl TagsNewArgs {
    /// What `tags new` does, naming the new tag `new_uuid`.
    pub fn plan_with(&self, store: &ThingsStore, new_uuid: &str, no_color: bool) -> (p: CommandPlan)
        requires
            store.wf(),
        ensures
            tag_new_outcome(p, store.tags_by_uuid@, *self, new_uuid@, no_color),
    {
        let name = trim(self.name.as_str());
        if name.as_str().is_empty() {
            return report_one(owned("Tag name cannot be empty."));
        }
        let parent: Option<String> = match &self.parent {
            None => None,
            Some(raw) => {
                let (t, err) = resolve_single_tag(store, raw.as_str());
                match t {
                    None => return report_one(err),
                    Some(t) => Some(t.uuid.clone()),
                }
            },
        };
        let mut m: KeyMap<JsonValue> = no_props();
        let ghost s0: Map<Seq<char>, PVal> = Map::empty();
        put(&mut m, Ghost(s0), "tt", JsonValue::string(name.as_str()), Ghost(PVal::Text(name@)));
        let ghost s1 = s0.insert("tt"@, PVal::Text(name@));
        put(&mut m, Ghost(s1), "ix", JsonValue::integer(0), Ghost(PVal::Int(0)));
        let ghost s2 = s1.insert("ix"@, PVal::Int(0));
        put(&mut m, Ghost(s2), "xx", overrides_value(), Ghost(PVal::Overrides));
        let ghost s3 = s2.insert("xx"@, PVal::Overrides);
        match &parent {
            Some(u) => put(&mut m, Ghost(s3), "pn", json_str1(u.as_str()), Ghost(PVal::Texts(seq![u@]))),
            None => {},
        }
        let ghost x: ObjSpec = (
            OperationType::Create,
            EntityType::Tag4,
            new_tag_props(name@, match parent { Some(u) => Some(u@), None => None }),
        );
        let o = WireObject { operation_type: OperationType::Create, entity_type: Some(EntityType::Tag4), properties: m };
        let w = one_change(owned(new_uuid), o, Ghost(x));
        let mut lines: Vec<String> = Vec::new();
        lines.push(done_line_text(concat(icons().done, " Created").as_str(), name.as_str(), new_uuid, no_color));
        CommandPlan { notes: Vec::new(), changes: Some(w), done_lines: lines, fail_prefix: owned("Failed to create tag: ") }
    }

    /// What `tags new` does: the new tag gets a fresh random id.
    pub fn plan(&self, store: &ThingsStore, no_color: bool) -> (p: CommandPlan)
        requires
            store.wf(),
        ensures
            exists|u: Seq<char>| crate::ids::id_shaped(u) && tag_new_outcome(p, store.tags_by_uuid@, *self, u, no_color),
    {
        let u = crate::ids::random_task_id();
        let p = self.plan_with(store, u.as_str(), no_color);
        proof {
            assert(crate::ids::id_shaped(u@) && tag_new_outcome(p, store.tags_by_uuid@, *self, u@, no_color));
        }
        p
    }
}

/// What `tags edit --move` sets, with its label; or the message why it cannot.
pub open spec fn tag_move(tags: Map<Seq<char>, Tag>, tag: Tag, target: Seq<char>) -> Result<(Seq<Seq<char>>, Seq<char>), Seq<char>> {
    let raw = trimmed(target);
    if eq_ascii_ci(raw, "clear"@) {
        Ok((seq![], "move=clear"@))
    } else {
        match tag_match(tags, trimmed(raw)) {
            Err(m) => Err(m),
            Ok(k) => if tags[k].uuid@ == tag.uuid@ {
                Err("A tag cannot be its own parent."@)
            } else {
                Ok((seq![tags[k].uuid@], "move="@ + raw))
            },
        }
    }
}

/// What `tags edit` does at `now_ms`.
pub open spec fn tag_edit_outcome(p: CommandPlan, tags: Map<Seq<char>, Tag>, args: TagsEditArgs, now_ms: i64, no_color: bool) -> bool {
    match tag_match(tags, trimmed(args.tag_id@)) {
        Err(m) => reports_only(p, seq![m]),
        Ok(k) => {
            let tag = tags[k];
            let name: Option<Seq<char>> = match args.name {
                Some(n) => Some(trimmed(n@)),
                None => None,
            };
            if name is Some && name.unwrap().len() == 0 {
                reports_only(p, seq!["Tag name cannot be empty."@])
            } else {
                let mv: Result<Option<(Seq<Seq<char>>, Seq<char>)>, Seq<char>> = match args.move_target {
                    None => Ok(None),
                    Some(t) => match tag_move(tags, tag, t@) {
                        Err(m) => Err(m),
                        Ok(x) => Ok(Some(x)),
                    },
                };
                match mv {
                    Err(m) => reports_only(p, seq![m]),
                    Ok(mv) => if name is None && mv is None {
                        reports_only(p, seq!["No edit changes requested."@])
                    } else {
                        let u1: Map<Seq<char>, PVal> = match name {
                            Some(n) => Map::empty().insert("tt"@, PVal::Text(n)),
                            None => Map::empty(),
                        };
                        let u2 = match mv {
                            Some(x) => u1.insert("pn"@, PVal::Texts(x.0)),
                            None => u1,
                        };
                        let labels = (if name is Some { seq!["name"@] } else { seq![] })
                            + (match mv { Some(x) => seq![x.1], None => seq![] });
                        let shown = match name {
                            Some(n) => n,
                            None => tag.title@,
                        };
                        writes_one(
                            p,
                            tag.uuid@,
                            (OperationType::Update, EntityType::Tag4, u2.insert("md"@, PVal::Millis(now_ms))),
                            done_line("✓"@ + " Edited"@, shown, tag.uuid@, no_color) + " "@
                                + colored_text("("@ + join_sep(labels, ", "@) + ")"@, seq![DIM], no_color),
                            "Failed to edit tag: "@,
                        )
                    },
                }
            }
        },
    }
}

/// The parent list and label of a resolved `--move`.
pub open spec fn move_view(mv: Option<(Option<String>, String)>) -> Option<(Seq<Seq<char>>, Seq<char>)> {
    match mv {
        Some(x) => Some((match x.0 { Some(u) => seq![u@], None => seq![] }, x.1@)),
        None => None,
    }
}

impl TagsEditArgs {
    /// What `tags edit` does at `now_ms`.
    #[verifier::rlimit(30)]
    pub fn plan(&self, store: &ThingsStore, now_ms: i64, no_color: bool) -> (p: CommandPlan)
        requires
            store.wf(),
        ensures
            tag_edit_outcome(p, store.tags_by_uuid@, *self, now_ms, no_color),
    {
        let (tag, err) = resolve_single_tag(store, self.tag_id.as_str());
        let tag = match tag {
            None => return report_one(err),
            Some(t) => t,
        };
        let name: Option<String> = match &self.name {
            Some(n) => Some(trim(n.as_str())),
            None => None,
        };
        match &name {
            Some(n) => {
                if n.as_str().is_empty() {
                    return report_one(owned("Tag name cannot be empty."));
                }
            },
            None => {},
        }
        let mv: Option<(Option<String>, String)> = match &self.move_target {
            None => None,
            Some(t) => {
                let raw = trim(t.as_str());
                if eq_ignore_ascii_case(raw.as_str(), "clear") {
                    Some((None, owned("move=clear")))
                } else {
                    let (parent, perr) = resolve_single_tag(store, raw.as_str());
                    match parent {
                        None => return report_one(perr),
                        Some(pt) => {
                            if same_text(pt.uuid.as_str(), tag.uuid.as_str()) {
                                return report_one(owned("A tag cannot be its own parent."));
                            }
                            Some((Some(pt.uuid.clone()), concat("move=", raw.as_str())))
                        },
                    }
                }
            },
        };
        if name.is_none() && mv.is_none() {
            return report_one(owned("No edit changes requested."));
        }
        let mut m: KeyMap<JsonValue> = no_props();
        let mut labels: Vec<String> = Vec::new();
        let ghost s0: Map<Seq<char>, PVal> = Map::empty();
        let ghost s1: Map<Seq<char>, PVal> = match crate::props::opt_view(name) {
            Some(n) => s0.insert("tt"@, PVal::Text(n)),
            None => s0,
        };
        match &name {
            Some(n) => {
                put(&mut m, Ghost(s0), "tt", JsonValue::string(n.as_str()), Ghost(PVal::Text(n@)));
                labels.push(owned("name"));
            },
            None => {},
        }
        let ghost l1 = views(labels@);
        let ghost s2: Map<Seq<char>, PVal> = match move_view(mv) {
            Some(x) => s1.insert("pn"@, PVal::Texts(x.0)),
            None => s1,
        };
        match &mv {
            Some(x) => {
                match &x.0 {
                    Some(u) => put(&mut m, Ghost(s1), "pn", json_str1(u.as_str()), Ghost(PVal::Texts(seq![u@]))),
                    None => put(&mut m, Ghost(s1), "pn", json_empty_list(), Ghost(PVal::Texts(seq![]))),
                }
                labels.push(x.1.clone());
            },
            None => {},
        }
        put(&mut m, Ghost(s2), "md", JsonValue::Millis(now_ms), Ghost(PVal::Millis(now_ms)));
        let ghost x: ObjSpec = (OperationType::Update, EntityType::Tag4, s2.insert("md"@, PVal::Millis(now_ms)));
        let o = WireObject { operation_type: OperationType::Update, entity_type: Some(EntityType::Tag4), properties: m };
        let w = one_change(tag.uuid.clone(), o, Ghost(x));
        let shown: &str = match &name {
            Some(n) => n.as_str(),
            None => tag.title.as_str(),
        };
        let head = done_line_text(concat(icons().done, " Edited").as_str(), shown, tag.uuid.as_str(), no_color);
        let joined = join_strings(&labels, ", ");
        let tail = dim(concat(concat("(", joined.as_str()).as_str(), ")").as_str(), no_color);
        let mut lines: Vec<String> = Vec::new();
        lines.push(concat(concat(head.as_str(), " ").as_str(), tail.as_str()));
        proof {
            let tags = store.tags_by_uuid@;
            let k = tag_match(tags, trimmed(self.tag_id@))->Ok_0;
            assert(tags[k] == *tag);
            assert(views(labels@) =~= (if name is Some { seq!["name"@] } else { seq![] })
                + (match move_view(mv) { Some(x) => seq![x.1], None => seq![] }));
        }
        CommandPlan { notes: Vec::new(), changes: Some(w), done_lines: lines, fail_prefix: owned("Failed to edit tag: ") }
    }
}

/// What `tags delete` does.
pub open spec fn tag_delete_outcome(p: CommandPlan, tags: Map<Seq<char>, Tag>, args: TagsDeleteArgs, no_color: bool) -> bool {
    match tag_match(tags, trimmed(args.tag_id@)) {
        Err(m) => reports_only(p, seq![m]),
        Ok(k) => writes_one(
            p,
            tags[k].uuid@,
            (OperationType::Delete, EntityType::Tag4, Map::empty()),
            done_line("×"@ + " Deleted"@, tags[k].title@, tags[k].uuid@, no_color),
            "Failed to delete tag: "@,
        ),
    }
}

impl TagsDeleteArgs {
    /// What `tags delete` does.
    pub fn plan(&self, store: &ThingsStore, no_color: bool) -> (p: CommandPlan)
        requires
            store.wf(),
        ensures
            tag_delete_outcome(p, store.tags_by_uuid@, *self, no_color),
    {
        let (tag, err) = resolve_single_tag(store, self.tag_id.as_str());
        let tag = match tag {
            None => return report_one(err),
            Some(t) => t,
        };
        let o = WireObject { operation_type: OperationType::Delete, entity_type: Some(EntityType::Tag4), properties: no_props() };
        let w = one_change(tag.uuid.clone(), o, Ghost((OperationType::Delete, EntityType::Tag4, Map::empty())));
        let mut lines: Vec<String> = Vec::new();
        lines.push(done_line_text(concat(icons().deleted, " Deleted").as_str(), tag.title.as_str(), tag.uuid.as_str(), no_color));
        CommandPlan { notes: Vec::new(), changes: Some(w), done_lines: lines, fail_prefix: owned("Failed to delete tag: ") }
    }
}

/// Whether the tag's parent is one of the listed tags.
pub open spec fn has_listed_parent(ts: Seq<Tag>, t: Tag) -> bool {
    match t.parent_uuid {
        Some(p) => exists|i: int| 0 <= i < ts.len() && (#[trigger] ts[i]).uuid@ == p@,
        None => false,
    }
}

/// The listed tags whose parent is `u`, in order.
pub open spec fn children_of(ts: Seq<Tag>, u: Seq<char>) -> Seq<Tag>
    decreases ts.len(),
{
    if ts.len() == 0 {
        seq![]
    } else {
        let r = children_of(ts.drop_last(), u);
        if ts.last().parent_uuid matches Some(p) && p@ == u {
            r.push(ts.last())
        } else {
            r
        }
    }
}

/// The listed tags without a listed parent, in order.
pub open spec fn top_level_of(all: Seq<Tag>, ts: Seq<Tag>) -> Seq<Tag>
    decreases ts.len(),
{
    if ts.len() == 0 {
        seq![]
    } else {
        let r = top_level_of(all, ts.drop_last());
        if has_listed_parent(all, ts.last()) {
            r
        } else {
            r.push(ts.last())
        }
    }
}

/// The dimmed shortcut of a tag, if it has one.
pub open spec fn shortcut_text(t: Tag, no_color: bool) -> Seq<char> {
    match t.shortcut {
        Some(s) => colored_text("  ["@ + s@ + "]"@, seq![DIM], no_color),
        None => seq![],
    }
}

/// The line of a subtag.
pub open spec fn entry_line(indent: Seq<char>, last: bool, t: Tag, no_color: bool) -> Seq<char> {
    "  "@ + indent + colored_text(if last { "└╴"@ } else { "├╴"@ }, seq![DIM], no_color)
        + colored_text("⌗"@, seq![DIM], no_color) + " "@ + t.title@ + shortcut_text(t, no_color)
}

/// The indent of a subtag's own subtags.
pub open spec fn child_indent(indent: Seq<char>, last: bool, no_color: bool) -> Seq<char> {
    if last {
        indent + "  "@
    } else {
        indent + colored_text("│"@, seq![DIM], no_color) + " "@
    }
}

/// The lines of the subtags `subs` from the `k`-th on, each followed by its
/// own subtags, down to `fuel` more levels.
pub open spec fn sub_lines(ts: Seq<Tag>, subs: Seq<Tag>, k: int, indent: Seq<char>, fuel: nat, no_color: bool) -> Seq<Seq<char>>
    decreases fuel, subs.len() - k,
{
    if k < 0 || k >= subs.len() {
        seq![]
    } else {
        let t = subs[k];
        let last = k == subs.len() - 1;
        let kids = children_of(ts, t.uuid@);
        seq![entry_line(indent, last, t, no_color)]
            + (if kids.len() > 0 && fuel > 0 {
                sub_lines(ts, kids, 0, child_indent(indent, last, no_color), (fuel - 1) as nat, no_color)
            } else {
                seq![]
            })
            + sub_lines(ts, subs, k + 1, indent, fuel, no_color)
    }
}

/// The lines of the top-level tags from the `k`-th on, each followed by its subtags.
pub open spec fn top_lines(ts: Seq<Tag>, tops: Seq<Tag>, k: int, no_color: bool) -> Seq<Seq<char>>
    decreases tops.len() - k,
{
    if k < 0 || k >= tops.len() {
        seq![]
    } else {
        let t = tops[k];
        let kids = children_of(ts, t.uuid@);
        seq!["  "@ + colored_text("⌗"@, seq![DIM], no_color) + " "@ + t.title@ + shortcut_text(t, no_color)]
            + (if kids.len() > 0 { sub_lines(ts, kids, 0, seq![], ts.len(), no_color) } else { seq![] })
            + top_lines(ts, tops, k + 1, no_color)
    }
}

/// What `tags list` prints for the listed tags `ts`: a header and the tag tree.
pub open spec fn tag_tree(ts: Seq<Tag>, no_color: bool) -> Seq<Seq<char>> {
    if ts.len() == 0 {
        seq![colored_text("No tags."@, seq![DIM], no_color)]
    } else {
        seq![colored_text("⌗"@ + " Tags  ("@ + crate::text::decimal(ts.len()) + ")"@, seq![BOLD], no_color), seq![]]
            + top_lines(ts, top_level_of(ts, ts), 0, no_color)
    }
}

fn parent_listed(ts: &Vec<&Tag>, t: &Tag) -> (r: bool)
    ensures
        r == has_listed_parent(crate::lookup::deref_all(ts@), *t),
{
    let ghost d = crate::lookup::deref_all(ts@);
    if t.parent_uuid.is_none() {
        return false;
    }
    let p: &String = t.parent_uuid.as_ref().unwrap();
    let mut i: usize = 0;
    while i < ts.len()
        invariant
            i <= ts@.len(),
            d == crate::lookup::deref_all(ts@),
            t.parent_uuid == Some(*p),
            forall|j: int| 0 <= j < i ==> (#[trigger] d[j]).uuid@ != p@,
        decreases ts@.len() - i,
    {
        if same_text(ts[i].uuid.as_str(), p.as_str()) {
            proof {
                assert(d[i as int].uuid@ == p@);
            }
            return true;
        }
        i += 1;
    }
    false
}

fn kids_of<'a>(ts: &Vec<&'a Tag>, u: &str) -> (r: Vec<&'a Tag>)
    ensures
        crate::lookup::deref_all(r@) == children_of(crate::lookup::deref_all(ts@), u@),
{
    let ghost d = crate::lookup::deref_all(ts@);
    let mut r: Vec<&Tag> = Vec::new();
    let mut i: usize = 0;
    proof {
        assert(d.take(0) =~= seq![]);
        assert(crate::lookup::deref_all(r@) =~= seq![]);
    }
    while i < ts.len()
        invariant
            i <= ts@.len(),
            d == crate::lookup::deref_all(ts@),
            crate::lookup::deref_all(r@) == children_of(d.take(i as int), u@),
        decreases ts@.len() - i,
    {
        proof {
            assert(d.take(i + 1).drop_last() =~= d.take(i as int));
            assert(d.take(i + 1).last() == *ts@[i as int]);
        }
        let t = ts[i];
        let hit = match &t.parent_uuid {
            Some(p) => same_text(p.as_str(), u),
            None => false,
        };
        if hit {
            let ghost before = crate::lookup::deref_all(r@);
            r.push(t);
            proof {
                assert(crate::lookup::deref_all(r@) =~= before.push(*t));
            }
        }
        i += 1;
    }
    proof {
        assert(d.take(d.len() as int) =~= d);
    }
    r
}

fn tops_of<'a>(ts: &Vec<&'a Tag>) -> (r: Vec<&'a Tag>)
    ensures
        crate::lookup::deref_all(r@) == top_level_of(crate::lookup::deref_all(ts@), crate::lookup::deref_all(ts@)),
{
    let ghost d = crate::lookup::deref_all(ts@);
    let mut r: Vec<&Tag> = Vec::new();
    let mut i: usize = 0;
    proof {
        assert(d.take(0) =~= seq![]);
        assert(crate::lookup::deref_all(r@) =~= seq![]);
    }
    while i < ts.len()
        invariant
            i <= ts@.len(),
            d == crate::lookup::deref_all(ts@),
            crate::lookup::deref_all(r@) == top_level_of(d, d.take(i as int)),
        decreases ts@.len() - i,
    {
        proof {
            assert(d.take(i + 1).drop_last() =~= d.take(i as int));
            assert(d.take(i + 1).last() == *ts@[i as int]);
        }
        let t = ts[i];
        if !parent_listed(ts, t) {
            let ghost before = crate::lookup::deref_all(r@);
            r.push(t);
            proof {
                assert(crate::lookup::deref_all(r@) =~= before.push(*t));
            }
        }
        i += 1;
    }
    proof {
        assert(d.take(d.len() as int) =~= d);
    }
    r
}

fn shortcut_of(t: &Tag, no_color: bool) -> (r: String)
    ensures
        r@ == shortcut_text(*t, no_color),
{
    match &t.shortcut {
        Some(s) => dim(concat(concat("  [", s.as_str()).as_str(), "]").as_str(), no_color),
        None => String::new(),
    }
}

fn push_subtags(
    ts: &Vec<&Tag>,
    subs: &Vec<&Tag>,
    k: usize,
    indent: &str,
    fuel: usize,
    no_color: bool,
    out: &mut Vec<String>,
)
    requires
        k <= subs@.len(),
    ensures
        views(final(out)@) == views(old(out)@) + sub_lines(
            crate::lookup::deref_all(ts@),
            crate::lookup::deref_all(subs@),
            k as int,
            indent@,
            fuel as nat,
            no_color,
        ),
    decreases fuel, subs@.len() - k,
{
    let ghost d = crate::lookup::deref_all(ts@);
    let ghost ds = crate::lookup::deref_all(subs@);
    let ghost start = views(out@);
    if k >= subs.len() {
        proof {
            assert(views(out@) =~= start + seq![]);
        }
        return;
    }
    let t = subs[k];
    let last = k + 1 == subs.len();
    let connector = dim(if last { "└╴" } else { "├╴" }, no_color);
    let icon = dim(icons().tag, no_color);
    let sc = shortcut_of(t, no_color);
    let line = concat(
        concat(concat(concat(concat(concat("  ", indent).as_str(), connector.as_str()).as_str(), icon.as_str()).as_str(), " ").as_str(), t.title.as_str()).as_str(),
        sc.as_str(),
    );
    out.push(line);
    let ghost after_line = views(out@);
    proof {
        assert(ds[k as int] == *t);
        assert(after_line =~= start + seq![entry_line(indent@, last, *t, no_color)]);
    }
    let kids = kids_of(ts, t.uuid.as_str());
    if kids.len() > 0 && fuel > 0 {
        let ci: String = if last {
            concat(indent, "  ")
        } else {
            concat(concat(indent, dim("│", no_color).as_str()).as_str(), " ")
        };
        proof {
            assert(ci@ == child_indent(indent@, last, no_color));
        }
        push_subtags(ts, &kids, 0, ci.as_str(), fuel - 1, no_color, out);
    }
    let ghost after_kids = views(out@);
    push_subtags(ts, subs, k + 1, indent, fuel, no_color, out);
    proof {
        let kd = children_of(d, (*t).uuid@);
        let below = if kd.len() > 0 && fuel > 0 {
            sub_lines(d, kd, 0, child_indent(indent@, last, no_color), (fuel - 1) as nat, no_color)
        } else {
            seq![]
        };
        assert(after_kids =~= after_line + below);
        assert(views(out@) =~= start + (seq![entry_line(indent@, last, *t, no_color)] + below
            + sub_lines(d, ds, k + 1, indent@, fuel as nat, no_color)));
    }
}

fn push_tops(ts: &Vec<&Tag>, tops: &Vec<&Tag>, k: usize, no_color: bool, out: &mut Vec<String>)
    requires
        k <= tops@.len(),
    ensures
        views(final(out)@) == views(old(out)@) + top_lines(
            crate::lookup::deref_all(ts@),
            crate::lookup::deref_all(tops@),
            k as int,
            no_color,
        ),
    decreases tops@.len() - k,
{
    let ghost d = crate::lookup::deref_all(ts@);
    let ghost dt = crate::lookup::deref_all(tops@);
    let ghost start = views(out@);
    if k >= tops.len() {
        proof {
            assert(views(out@) =~= start + seq![]);
        }
        return;
    }
    let t = tops[k];
    let icon = dim(icons().tag, no_color);
    let sc = shortcut_of(t, no_color);
    let line = concat(concat(concat(concat("  ", icon.as_str()).as_str(), " ").as_str(), t.title.as_str()).as_str(), sc.as_str());
    out.push(line);
    let ghost after_line = views(out@);
    proof {
        assert(dt[k as int] == *t);
        assert(after_line =~= start + seq![line@]);
    }
    let kids = kids_of(ts, t.uuid.as_str());
    if kids.len() > 0 {
        proof {
            reveal_strlit("");
        }
        push_subtags(ts, &kids, 0, "", ts.len(), no_color, out);
    }
    let ghost after_kids = views(out@);
    push_tops(ts, tops, k + 1, no_color, out);
    proof {
        reveal_strlit("");
        assert(""@ =~= seq![]);
        let kd = children_of(d, (*t).uuid@);
        let below = if kd.len() > 0 { sub_lines(d, kd, 0, seq![], d.len(), no_color) } else { seq![] };
        assert(after_kids =~= after_line + below);
        assert(views(out@) =~= start + (seq![line@] + below + top_lines(d, dt, k + 1, no_color)));
    }
}

/// The lines of `tags list` for the listed tags.
pub fn tag_tree_lines(ts: &Vec<&Tag>, no_color: bool) -> (r: Vec<String>)
    ensures
        views(r@) == tag_tree(crate::lookup::deref_all(ts@), no_color),
{
    let mut out: Vec<String> = Vec::new();
    if ts.len() == 0 {
        out.push(dim("No tags.", no_color));
        proof {
            assert(views(out@) =~= tag_tree(crate::lookup::deref_all(ts@), no_color));
        }
        return out;
    }
    let count = crate::text::decimal_string(ts.len() as u64);
    let header = concat(concat(concat(icons().tag, " Tags  (").as_str(), count.as_str()).as_str(), ")");
    out.push(paint(header.as_str(), BOLD, no_color));
    out.push(String::new());
    let tops = tops_of(ts);
    let ghost start = views(out@);
    push_tops(ts, &tops, 0, no_color, &mut out);
    proof {
        assert(start =~= seq![colored_text("⌗"@ + " Tags  ("@ + crate::text::decimal(ts@.len()) + ")"@, seq![BOLD], no_color), seq![]]);
    }
    out
}

/// What `tags list` does: it prints the tag tree of the tags the store lists.
pub open spec fn tag_list_outcome(p: CommandPlan, store: ThingsStore, no_color: bool) -> bool {
    &&& p.notes@.len() == 0
    &&& p.changes is None
    &&& exists|r: Seq<&Tag>|
        crate::query::shows(store.tags_by_uuid@, |t: Tag| crate::query::has_title(t.title@), r)
        && crate::query::ranked(|t: Tag| (t.index as i128, 0i128, 0i128), r)
        && #[trigger] views(p.done_lines@) == tag_tree(crate::lookup::deref_all(r), no_color)
}

impl TagsListArgs {
    /// What `tags list` does.
    pub fn plan(&self, store: &ThingsStore, no_color: bool) -> (p: CommandPlan)
        requires
            store.wf(),
        ensures
            tag_list_outcome(p, *store, no_color),
    {
        let ts = store.tags();
        let lines = tag_tree_lines(&ts, no_color);
        CommandPlan { notes: Vec::new(), changes: None, done_lines: lines, fail_prefix: String::new() }
    }
}

impl TagsArgs {
    /// What `tags` does at `now_ms`: the subcommand's plan, or the list.
    pub fn plan(&self, store: &ThingsStore, now_ms: i64, no_color: bool) -> (p: CommandPlan)
        requires
            store.wf(),
        ensures
            match self.command {
                None => tag_list_outcome(p, *store, no_color),
                Some(TagsSubcommand::List(_)) => tag_list_outcome(p, *store, no_color),
                Some(TagsSubcommand::New(a)) => exists|u: Seq<char>| crate::ids::id_shaped(u) && tag_new_outcome(p, store.tags_by_uuid@, a, u, no_color),
                Some(TagsSubcommand::Edit(a)) => tag_edit_outcome(p, store.tags_by_uuid@, a, now_ms, no_color),
                Some(TagsSubcommand::Delete(a)) => tag_delete_outcome(p, store.tags_by_uuid@, a, no_color),
            },
    {
        match &self.command {
            None => TagsListArgs {}.plan(store, no_color),
            Some(TagsSubcommand::List(a)) => a.plan(store, no_color),
            Some(TagsSubcommand::New(a)) => a.plan(store, no_color),
            Some(TagsSubcommand::Edit(a)) => a.plan(store, now_ms, no_color),
            Some(TagsSubcommand::Delete(a)) => a.plan(store, no_color),
        }
    }
}

} // verus!
