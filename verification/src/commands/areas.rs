//! `areas`: lists the areas, and creates and edits them.

use vstd::prelude::*;
use crate::commands::{CommandPlan, report_one, reports_only, json_strs};
use crate::commands::changes::{PVal, ObjSpec, changes_are, writes_one, one_change, put, no_props, overrides_value};
use crate::commands::edit::{tag_option, with_added, without, retag};
use crate::commands::mark::{done_line, done_line_text};
use crate::common::{BOLD, DIM, MAGENTA, colored, colored_text, dim, icons, id_prefix, id_column, resolve_tag_ids, lemma_tag_ids_msg};
use crate::json::JsonValue;
use crate::keymap::KeyMap;
use crate::lookup::{resolved, tag_title_of, width_needed, deref_all};
use crate::store::{Area, Tag};
use crate::text::{concat, owned, trim, trimmed, join_sep, join_strings, views, comma_tokens};
use crate::things::ThingsStore;
use crate::wire::{EntityType, OperationType, WireObject};

verus! {

/// The arguments of `areas list`.
pub struct AreasListArgs {}

/// The arguments of `areas new`.
pub struct AreasNewArgs {
    pub title: String,
    pub tags: Option<String>,
}

/// The arguments of `areas edit`.
pub struct AreasEditArgs {
    pub area_id: String,
    pub title: Option<String>,
    pub add_tags: Option<String>,
    pub remove_tags: Option<String>,
}

/// What `areas` does.
pub enum AreasSubcommand {
    List(AreasListArgs),
    New(AreasNewArgs),
    Edit(AreasEditArgs),
}

/// The arguments of `areas`; without a subcommand it lists the areas.
pub struct AreasArgs {
    pub command: Option<AreasSubcommand>,
}

/// The properties of a new area.
pub open spec fn new_area_props(title: Seq<char>, tags: Option<Seq<Seq<char>>>, now_ms: i64) -> Map<Seq<char>, PVal> {
    let m = Map::empty().insert("tt"@, PVal::Text(title)).insert("ix"@, PVal::Int(0)).insert("xx"@, PVal::Overrides)
        .insert("cd"@, PVal::Millis(now_ms)).insert("md"@, PVal::Millis(now_ms));
    match tags {
        Some(ts) => m.insert("tg"@, PVal::Texts(ts)),
        None => m,
    }
}

/// What `areas new` does at `now_ms`, naming the new area `new_uuid`.
pub open spec fn area_new_outcome(p: CommandPlan, tags: Map<Seq<char>, Tag>, args: AreasNewArgs, now_ms: i64, new_uuid: Seq<char>, no_color: bool) -> bool {
    let title = trimmed(args.title@);
    if title.len() == 0 {
        reports_only(p, seq!["Area title cannot be empty."@])
    } else {
        let tg: Result<Option<Seq<Seq<char>>>, Seq<char>> = match args.tags {
            None => Ok(None),
            Some(raw) => match crate::common::tag_ids_from(tags, comma_tokens(raw@)) {
                Ok(ids) => Ok(Some(ids)),
                Err(m) => Err(m),
            },
        };
        match tg {
            Err(m) => reports_only(p, seq![m]),
            Ok(tg) => writes_one(
                p,
                new_uuid,
                (OperationType::Create, EntityType::Area3, new_area_props(title, tg, now_ms)),
                done_line("✓"@ + " Created"@, title, new_uuid, no_color),
                "Failed to create area: "@,
            ),
        }
    }
}

impl AreasNewArgs {
    /// What `areas new` does at `now_ms`, naming the new area `new_uuid`.
    pub fn plan_with(&self, store: &ThingsStore, now_ms: i64, new_uuid: &str, no_color: bool) -> (p: CommandPlan)
        requires
            store.wf(),
        ensures
            area_new_outcome(p, store.tags_by_uuid@, *self, now_ms, new_uuid@, no_color),
    {
        let title = trim(self.title.as_str());
        if title.as_str().is_empty() {
            return report_one(owned("Area title cannot be empty."));
        }
        let tg: Option<Vec<String>> = match &self.tags {
            None => None,
            Some(raw) => {
                let (ids, err) = resolve_tag_ids(store, raw.as_str());
                proof {
                    lemma_tag_ids_msg(store.tags_by_uuid@, comma_tokens(raw@));
                }
                if !err.as_str().is_empty() {
                    return report_one(err);
                }
                Some(ids)
            },
        };
        let mut m: KeyMap<JsonValue> = no_props();
        let ghost s0: Map<Seq<char>, PVal> = Map::empty();
        put(&mut m, Ghost(s0), "tt", JsonValue::string(title.as_str()), Ghost(PVal::Text(title@)));
        let ghost s1 = s0.insert("tt"@, PVal::Text(title@));
        put(&mut m, Ghost(s1), "ix", JsonValue::integer(0), Ghost(PVal::Int(0)));
        let ghost s2 = s1.insert("ix"@, PVal::Int(0));
        put(&mut m, Ghost(s2), "xx", overrides_value(), Ghost(PVal::Overrides));
        let ghost s3 = s2.insert("xx"@, PVal::Overrides);
        put(&mut m, Ghost(s3), "cd", JsonValue::Millis(now_ms), Ghost(PVal::Millis(now_ms)));
        let ghost s4 = s3.insert("cd"@, PVal::Millis(now_ms));
        put(&mut m, Ghost(s4), "md", JsonValue::Millis(now_ms), Ghost(PVal::Millis(now_ms)));
        let ghost s5 = s4.insert("md"@, PVal::Millis(now_ms));
        match &tg {
            Some(ids) => put(&mut m, Ghost(s5), "tg", json_strs(ids), Ghost(PVal::Texts(views(ids@)))),
            None => {},
        }
        let ghost x: ObjSpec = (
            OperationType::Create,
            EntityType::Area3,
            new_area_props(title@, match tg { Some(v) => Some(views(v@)), None => None }, now_ms),
        );
        let o = WireObject { operation_type: OperationType::Create, entity_type: Some(EntityType::Area3), properties: m };
        let w = one_change(owned(new_uuid), o, Ghost(x));
        let mut lines: Vec<String> = Vec::new();
        lines.push(done_line_text(concat(icons().done, " Created").as_str(), title.as_str(), new_uuid, no_color));
        CommandPlan { notes: Vec::new(), changes: Some(w), done_lines: lines, fail_prefix: owned("Failed to create area: ") }
    }

    /// What `areas new` does at `now_ms`: the new area gets a fresh random id.
    pub fn plan(&self, store: &ThingsStore, now_ms: i64, no_color: bool) -> (p: CommandPlan)
        requires
            store.wf(),
        ensures
            exists|u: Seq<char>| crate::ids::id_shaped(u) && area_new_outcome(p, store.tags_by_uuid@, *self, now_ms, u, no_color),
    {
        let u = crate::ids::random_task_id();
        let p = self.plan_with(store, now_ms, u.as_str(), no_color);
        proof {
            assert(crate::ids::id_shaped(u@) && area_new_outcome(p, store.tags_by_uuid@, *self, now_ms, u@, no_color));
        }
        p
    }
}

/// What `areas edit` does at `now_ms`.
pub open spec fn area_edit_outcome(p: CommandPlan, store: ThingsStore, args: AreasEditArgs, now_ms: i64, no_color: bool) -> bool {
    let r = resolved(store.areas_by_uuid@, store.area_ids_sorted@, args.area_id@, "Area"@);
    match r.0 {
        None => reports_only(p, seq![r.1]),
        Some(area) => {
            let title: Option<Seq<char>> = match args.title {
                Some(t) => Some(trimmed(t@)),
                None => None,
            };
            if title is Some && title.unwrap().len() == 0 {
                reports_only(p, seq!["Area title cannot be empty."@])
            } else {
                match tag_option(store.tags_by_uuid@, args.add_tags) {
                    Err(m) => reports_only(p, seq![m]),
                    Ok(add) => match tag_option(store.tags_by_uuid@, args.remove_tags) {
                        Err(m) => reports_only(p, seq![m]),
                        Ok(remove) => if title is None && args.add_tags is None && args.remove_tags is None {
                            reports_only(p, seq!["No edit changes requested."@])
                        } else {
                            let u1: Map<Seq<char>, PVal> = match title {
                                Some(t) => Map::empty().insert("tt"@, PVal::Text(t)),
                                None => Map::empty(),
                            };
                            let u2 = if args.add_tags is Some || args.remove_tags is Some {
                                u1.insert("tg"@, PVal::Texts(without(with_added(views(area.tags@), add), remove)))
                            } else {
                                u1
                            };
                            let labels = (if title is Some { seq!["title"@] } else { seq![] })
                                + (if args.add_tags is Some { seq!["add-tags"@] } else { seq![] })
                                + (if args.remove_tags is Some { seq!["remove-tags"@] } else { seq![] });
                            let shown = match title {
                                Some(t) => t,
                                None => area.title@,
                            };
                            writes_one(
                                p,
                                area.uuid@,
                                (OperationType::Update, EntityType::Area3, u2.insert("md"@, PVal::Millis(now_ms))),
                                done_line("✓"@ + " Edited"@, shown, area.uuid@, no_color) + " "@
                                    + colored_text("("@ + join_sep(labels, ", "@) + ")"@, seq![DIM], no_color),
                                "Failed to edit area: "@,
                            )
                        },
                    },
                }
            }
        },
    }
}

fn tag_ids_opt(store: &ThingsStore, raw: &Option<String>) -> (r: Result<Vec<String>, String>)
    requires
        store.wf(),
    ensures
        match tag_option(store.tags_by_uuid@, *raw) {
            Ok(ids) => r matches Ok(v) && views(v@) == ids,
            Err(m) => r matches Err(e) && e@ == m,
        },
{
    match raw {
        None => {
            let v: Vec<String> = Vec::new();
            proof {
                assert(views(v@) =~= seq![]);
            }
            Ok(v)
        },
        Some(t) => {
            let (ids, err) = resolve_tag_ids(store, t.as_str());
            proof {
                lemma_tag_ids_msg(store.tags_by_uuid@, comma_tokens(t@));
            }
            if err.as_str().is_empty() {
                Ok(ids)
            } else {
                Err(err)
            }
        },
    }
}

impl AreasEditArgs {
    /// What `areas edit` does at `now_ms`.
    #[verifier::rlimit(30)]
    pub fn plan(&self, store: &ThingsStore, now_ms: i64, no_color: bool) -> (p: CommandPlan)
        requires
            store.wf(),
        ensures
            area_edit_outcome(p, *store, *self, now_ms, no_color),
    {
        let r = store.resolve_area_identifier(self.area_id.as_str());
        let area = match r.0 {
            None => return report_one(r.1),
            Some(a) => a,
        };
        let title: Option<String> = match &self.title {
            Some(t) => Some(trim(t.as_str())),
            None => None,
        };
        match &title {
            Some(t) => {
                if t.as_str().is_empty() {
                    return report_one(owned("Area title cannot be empty."));
                }
            },
            None => {},
        }
        let add = match tag_ids_opt(store, &self.add_tags) {
            Err(m) => return report_one(m),
            Ok(v) => v,
        };
        let remove = match tag_ids_opt(store, &self.remove_tags) {
            Err(m) => return report_one(m),
            Ok(v) => v,
        };
        if title.is_none() && self.add_tags.is_none() && self.remove_tags.is_none() {
            return report_one(owned("No edit changes requested."));
        }
        let mut m: KeyMap<JsonValue> = no_props();
        let mut labels: Vec<String> = Vec::new();
        let ghost s0: Map<Seq<char>, PVal> = Map::empty();
        let ghost s1: Map<Seq<char>, PVal> = match crate::props::opt_view(title) {
            Some(t) => s0.insert("tt"@, PVal::Text(t)),
            None => s0,
        };
        match &title {
            Some(t) => {
                put(&mut m, Ghost(s0), "tt", JsonValue::string(t.as_str()), Ghost(PVal::Text(t@)));
                labels.push(owned("title"));
            },
            None => {},
        }
        if self.add_tags.is_some() {
            labels.push(owned("add-tags"));
        }
        if self.remove_tags.is_some() {
            labels.push(owned("remove-tags"));
        }
        let ghost tg = without(with_added(views(area.tags@), views(add@)), views(remove@));
        let ghost s2: Map<Seq<char>, PVal> = if self.add_tags.is_some() || self.remove_tags.is_some() {
            s1.insert("tg"@, PVal::Texts(tg))
        } else {
            s1
        };
        if self.add_tags.is_some() || self.remove_tags.is_some() {
            let current = retag(&area.tags, &add, &remove);
            put(&mut m, Ghost(s1), "tg", json_strs(&current), Ghost(PVal::Texts(tg)));
        }
        put(&mut m, Ghost(s2), "md", JsonValue::Millis(now_ms), Ghost(PVal::Millis(now_ms)));
        let ghost x: ObjSpec = (OperationType::Update, EntityType::Area3, s2.insert("md"@, PVal::Millis(now_ms)));
        let o = WireObject { operation_type: OperationType::Update, entity_type: Some(EntityType::Area3), properties: m };
        let w = one_change(area.uuid.clone(), o, Ghost(x));
        let shown: &str = match &title {
            Some(t) => t.as_str(),
            None => area.title.as_str(),
        };
        let head = done_line_text(concat(icons().done, " Edited").as_str(), shown, area.uuid.as_str(), no_color);
        let joined = join_strings(&labels, ", ");
        let tail = dim(concat(concat("(", joined.as_str()).as_str(), ")").as_str(), no_color);
        let mut lines: Vec<String> = Vec::new();
        lines.push(concat(concat(head.as_str(), " ").as_str(), tail.as_str()));
        proof {
            assert(views(labels@) =~= (if self.title is Some { seq!["title"@] } else { seq![] })
                + (if self.add_tags is Some { seq!["add-tags"@] } else { seq![] })
                + (if self.remove_tags is Some { seq!["remove-tags"@] } else { seq![] }));
        }
        CommandPlan { notes: Vec::new(), changes: Some(w), done_lines: lines, fail_prefix: owned("Failed to edit area: ") }
    }
}

/// The tag names of an area's line.
pub open spec fn area_tags_text(tags: Map<Seq<char>, Tag>, a: Area, no_color: bool) -> Seq<char> {
    if a.tags@.len() == 0 {
        seq![]
    } else {
        "  "@ + colored_text("["@ + join_sep(views(a.tags@).map_values(|t: Seq<char>| tag_title_of(tags, t)), ", "@) + "]"@, seq![DIM], no_color)
    }
}

/// The line of an area in the list.
pub open spec fn area_line(tags: Map<Seq<char>, Tag>, a: Area, width: nat, no_color: bool) -> Seq<char> {
    "  "@ + colored_text(id_column(a.uuid@, width), seq![DIM], no_color) + " "@ + colored_text("◆"@, seq![DIM], no_color)
        + " "@ + a.title@ + area_tags_text(tags, a, no_color)
}

/// The ids of the listed areas.
pub open spec fn area_ids_of(areas: Seq<Area>) -> Seq<Seq<char>> {
    areas.map_values(|a: Area| a.uuid@)
}

/// What `areas list` prints for the listed areas `areas`, with id columns `width` wide.
pub open spec fn area_list(tags: Map<Seq<char>, Tag>, areas: Seq<Area>, width: nat, no_color: bool) -> Seq<Seq<char>> {
    if areas.len() == 0 {
        seq![colored_text("No areas."@, seq![DIM], no_color)]
    } else {
        seq![
            colored_text("◆"@ + " Areas  ("@ + crate::text::decimal(areas.len()) + ")"@, seq![BOLD, MAGENTA], no_color),
            seq![],
        ] + areas.map_values(|a: Area| area_line(tags, a, width, no_color))
    }
}

fn area_tag_names(store: &ThingsStore, a: &Area, no_color: bool) -> (r: String)
    requires
        store.wf(),
    ensures
        r@ == area_tags_text(store.tags_by_uuid@, *a, no_color),
{
    if a.tags.len() == 0 {
        return String::new();
    }
    let mut names: Vec<String> = Vec::new();
    let mut i: usize = 0;
    while i < a.tags.len()
        invariant
            store.wf(),
            i <= a.tags@.len(),
            views(names@) == views(a.tags@).take(i as int).map_values(|t: Seq<char>| tag_title_of(store.tags_by_uuid@, t)),
        decreases a.tags@.len() - i,
    {
        let ghost before = views(names@);
        let n = store.resolve_tag_title(a.tags[i].as_str());
        names.push(n);
        proof {
            let f = |t: Seq<char>| tag_title_of(store.tags_by_uuid@, t);
            let x = views(a.tags@);
            assert(x.take(i + 1) =~= x.take(i as int).push(x[i as int]));
            assert(x.take(i + 1).map_values(f) =~= x.take(i as int).map_values(f).push(f(x[i as int])));
            assert(views(names@) =~= before.push(n@));
        }
        i += 1;
    }
    proof {
        assert(views(a.tags@).take(a.tags@.len() as int) =~= views(a.tags@));
    }
    let joined = join_strings(&names, ", ");
    concat("  ", dim(concat(concat("[", joined.as_str()).as_str(), "]").as_str(), no_color).as_str())
}

/// The lines of `areas list` for the listed areas, with id columns `width` wide.
pub fn area_list_lines(store: &ThingsStore, areas: &Vec<&Area>, width: usize, no_color: bool) -> (r: Vec<String>)
    requires
        store.wf(),
    ensures
        views(r@) == area_list(store.tags_by_uuid@, deref_all(areas@), width as nat, no_color),
{
    let mut out: Vec<String> = Vec::new();
    if areas.len() == 0 {
        out.push(dim("No areas.", no_color));
        proof {
            assert(views(out@) =~= area_list(store.tags_by_uuid@, deref_all(areas@), width as nat, no_color));
        }
        return out;
    }
    let count = crate::text::decimal_string(areas.len() as u64);
    let header = concat(concat(concat(icons().area, " Areas  (").as_str(), count.as_str()).as_str(), ")");
    let codes = [BOLD, MAGENTA];
    out.push(colored(header.as_str(), &codes, no_color));
    out.push(String::new());
    let ghost head = views(out@);
    let ghost d = deref_all(areas@);
    let mut i: usize = 0;
    while i < areas.len()
        invariant
            store.wf(),
            i <= areas@.len(),
            d == deref_all(areas@),
            views(out@) == head + d.take(i as int).map_values(|a: Area| area_line(store.tags_by_uuid@, a, width as nat, no_color)),
        decreases areas@.len() - i,
    {
        let a = areas[i];
        let line = concat(
            concat(
                concat(concat(concat(concat("  ", id_prefix(a.uuid.as_str(), width, no_color).as_str()).as_str(), " ").as_str(),
                    dim(icons().area, no_color).as_str()).as_str(), " ").as_str(),
                a.title.as_str(),
            ).as_str(),
            area_tag_names(store, a, no_color).as_str(),
        );
        let ghost before = views(out@);
        out.push(line);
        proof {
            assert(d[i as int] == *a);
            let f = |a: Area| area_line(store.tags_by_uuid@, a, width as nat, no_color);
            assert(d.take(i + 1) =~= d.take(i as int).push(d[i as int]));
            assert(d.take(i + 1).map_values(f) =~= d.take(i as int).map_values(f).push(f(d[i as int])));
            assert(line@ == f(*a));
            assert(views(out@) =~= before.push(line@));
        }
        i += 1;
    }
    proof {
        assert(d.take(d.len() as int) =~= d);
        assert(codes@ =~= seq![BOLD, MAGENTA]);
        assert(head =~= seq![
            colored_text("◆"@ + " Areas  ("@ + crate::text::decimal(d.len()) + ")"@, seq![BOLD, MAGENTA], no_color),
            seq![],
        ]);
    }
    out
}

/// What `areas list` does: it lists the areas the store lists, with id
/// columns as wide as their short ids need.
pub open spec fn area_list_outcome(p: CommandPlan, store: ThingsStore, no_color: bool) -> bool {
    &&& p.notes@.len() == 0
    &&& p.changes is None
    &&& exists|r: Seq<&Area>|
        crate::query::shows(store.areas_by_uuid@, |a: Area| true, r)
        && crate::query::ranked(|a: Area| (a.index as i128, 0i128, 0i128), r)
        && #[trigger] views(p.done_lines@) == area_list(
            store.tags_by_uuid@,
            deref_all(r),
            (if r.len() == 0 { 0 } else { width_needed(store.short_ids@, r.map_values(|a: &Area| a.uuid)) }) as nat,
            no_color,
        )
}

impl AreasListArgs {
    /// What `areas list` does.
    pub fn plan(&self, store: &ThingsStore, no_color: bool) -> (p: CommandPlan)
        requires
            store.wf(),
        ensures
            area_list_outcome(p, *store, no_color),
    {
        let areas = store.areas();
        let mut ids: Vec<String> = Vec::new();
        let mut i: usize = 0;
        while i < areas.len()
            invariant
                i <= areas@.len(),
                ids@.len() == i,
                forall|k: int| 0 <= k < i ==> (#[trigger] ids@[k])@ == areas@[k].uuid@,
            decreases areas@.len() - i,
        {
            ids.push(areas[i].uuid.clone());
            i += 1;
        }
        let width = store.unique_prefix_length(&ids);
        let lines = area_list_lines(store, &areas, width, no_color);
        proof {
            let r = areas@;
            let uu = r.map_values(|a: &Area| a.uuid);
            if r.len() > 0 {
                lemma_width_same(store.short_ids@, ids@, uu);
            }
        }
        CommandPlan { notes: Vec::new(), changes: None, done_lines: lines, fail_prefix: String::new() }
    }
}

/// The column width depends on the ids' text alone.
pub(crate) proof fn lemma_width_same(short: Map<Seq<char>, String>, a: Seq<String>, b: Seq<String>)
    requires
        a.len() == b.len(),
        forall|k: int| 0 <= k < a.len() ==> (#[trigger] a[k])@ == b[k]@,
    ensures
        width_needed(short, a) == width_needed(short, b),
    decreases a.len(),
{
    if a.len() > 0 {
        lemma_width_same(short, a.drop_last(), b.drop_last());
    }
}

impl AreasArgs {
    /// What `areas` does at `now_ms`: the subcommand's plan, or the list.
    pub fn plan(&self, store: &ThingsStore, now_ms: i64, no_color: bool) -> (p: CommandPlan)
        requires
            store.wf(),
        ensures
            match self.command {
                None => area_list_outcome(p, *store, no_color),
                Some(AreasSubcommand::List(_)) => area_list_outcome(p, *store, no_color),
                Some(AreasSubcommand::New(a)) => exists|u: Seq<char>| crate::ids::id_shaped(u) && area_new_outcome(p, store.tags_by_uuid@, a, now_ms, u, no_color),
                Some(AreasSubcommand::Edit(a)) => area_edit_outcome(p, *store, a, now_ms, no_color),
            },
    {
        match &self.command {
            None => AreasListArgs {}.plan(store, no_color),
            Some(AreasSubcommand::List(a)) => a.plan(store, no_color),
            Some(AreasSubcommand::New(a)) => a.plan(store, now_ms, no_color),
            Some(AreasSubcommand::Edit(a)) => a.plan(store, now_ms, no_color),
        }
    }
}

} // verus!
