//! `projects`: lists the open projects, and creates and edits projects.

use vstd::prelude::*;
use crate::commands::{CommandPlan, report_one, reports_only, json_strs, json_str1, json_empty_list};
use crate::commands::changes::{PVal, ObjSpec, changes_are, writes_one, one_change, put, no_props, overrides_value};
use crate::commands::edit::{tag_option, with_added, without, retag, empty_note_value};
use crate::commands::mark::{done_line, done_line_text};
use crate::commands::new::day_result_ok;
use crate::common::{DIM, colored_text, dim, icons, parse_day, task6_note, resolve_tag_ids, lemma_tag_ids_msg};
use crate::json::JsonValue;
use crate::keymap::KeyMap;
use crate::lookup::resolved;
use crate::store::{Area, Tag, Task};
use crate::text::{concat, owned, same_text, trim, trimmed, lowercase, to_lowercase, join_sep, join_strings, views, comma_tokens};
use crate::things::ThingsStore;
use crate::wire::{EntityType, OperationType, TaskType, WireObject, entity_of};

verus! {

/// The arguments of `projects list`.
pub struct ProjectsListArgs {
    pub detailed: bool,
}

/// The arguments of `projects new`.
pub struct ProjectsNewArgs {
    pub title: String,
    pub area: Option<String>,
    pub when: Option<String>,
    pub notes: String,
    pub tags: Option<String>,
    pub deadline_date: Option<String>,
}

/// The arguments of `projects edit`.
pub struct ProjectsEditArgs {
    pub project_id: String,
    pub title: Option<String>,
    pub move_target: Option<String>,
    pub notes: Option<String>,
    pub add_tags: Option<String>,
    pub remove_tags: Option<String>,
}

/// What `projects` does.
pub enum ProjectsSubcommand {
    List(ProjectsListArgs),
    New(ProjectsNewArgs),
    Edit(ProjectsEditArgs),
}

/// The arguments of `projects`; without a subcommand it lists the projects.
pub struct ProjectsArgs {
    pub detailed: bool,
    pub command: Option<ProjectsSubcommand>,
}

/// `--when` of a new project, trimmed and lower-cased.
pub open spec fn project_when_word(w: Seq<char>) -> Seq<char> {
    lowercase(trimmed(w))
}

/// Whether `--when` of a new project names a day.
pub open spec fn project_when_is_day(w: Seq<char>) -> bool {
    let l = project_when_word(w);
    l != "anytime"@ && l != "someday"@ && l != "today"@
}

/// The properties every new project starts with.
pub open spec fn project_base_props(title: Seq<char>, notes: Seq<char>, now_ms: i64) -> Map<Seq<char>, PVal> {
    Map::empty().insert("tt"@, PVal::Text(title)).insert("tp"@, PVal::Int(1)).insert("ss"@, PVal::Int(0))
        .insert("st"@, PVal::Int(1)).insert("tr"@, PVal::Bool(false)).insert("cd"@, PVal::Millis(now_ms))
        .insert("md"@, PVal::Millis(now_ms))
        .insert("nt"@, if notes.len() == 0 { PVal::Null } else { PVal::Note(notes) })
        .insert("xx"@, PVal::Overrides).insert("icp"@, PVal::Bool(true)).insert("rmd"@, PVal::Null)
        .insert("rp"@, PVal::Null)
}

/// The start properties `--when` sets on a new project; `wp` is the day it
/// names, where it names one.
pub open spec fn project_when_props(m: Map<Seq<char>, PVal>, w: Seq<char>, today: i64, wp: Result<i64, Seq<char>>) -> Result<Map<Seq<char>, PVal>, Seq<char>> {
    let l = project_when_word(w);
    if l == "anytime"@ {
        Ok(m.insert("st"@, PVal::Int(1)).insert("sr"@, PVal::Null))
    } else if l == "someday"@ {
        Ok(m.insert("st"@, PVal::Int(2)).insert("sr"@, PVal::Null))
    } else if l == "today"@ {
        Ok(m.insert("st"@, PVal::Int(1)).insert("sr"@, PVal::Int(today)).insert("tir"@, PVal::Int(today)))
    } else {
        match wp {
            Err(e) => Err(e),
            Ok(d) => Ok(m.insert("st"@, PVal::Int(2)).insert("sr"@, PVal::Int(d)).insert("tir"@, PVal::Int(d))),
        }
    }
}

/// The properties of a new project, or the message why there is none.
pub open spec fn project_new_props(
    store: ThingsStore,
    args: ProjectsNewArgs,
    now_ms: i64,
    today: i64,
    wp: Result<i64, Seq<char>>,
    dp: Result<i64, Seq<char>>,
) -> Result<Map<Seq<char>, PVal>, Seq<char>> {
    let m0 = project_base_props(trimmed(args.title@), args.notes@, now_ms);
    let m1: Result<Map<Seq<char>, PVal>, Seq<char>> = match args.area {
        None => Ok(m0),
        Some(a) => {
            let r = resolved(store.areas_by_uuid@, store.area_ids_sorted@, a@, "Area"@);
            match r.0 {
                None => Err(r.1),
                Some(area) => Ok(m0.insert("ar"@, PVal::Texts(seq![area.uuid@]))),
            }
        },
    };
    match m1 {
        Err(e) => Err(e),
        Ok(m1) => {
            let m2 = match args.when {
                None => Ok(m1),
                Some(w) => project_when_props(m1, w@, today, wp),
            };
            match m2 {
                Err(e) => Err(e),
                Ok(m2) => match args.tags {
                    Some(raw) => match crate::common::tag_ids_from(store.tags_by_uuid@, comma_tokens(raw@)) {
                        Err(e) => Err(e),
                        Ok(ids) => project_deadline(m2.insert("tg"@, PVal::Texts(ids)), args, dp),
                    },
                    None => project_deadline(m2, args, dp),
                },
            }
        },
    }
}

/// The deadline of a new project, when it has one.
pub open spec fn project_deadline(m: Map<Seq<char>, PVal>, args: ProjectsNewArgs, dp: Result<i64, Seq<char>>) -> Result<Map<Seq<char>, PVal>, Seq<char>> {
    match args.deadline_date {
        None => Ok(m),
        Some(_) => match dp {
            Err(e) => Err(e),
            Ok(d) => Ok(m.insert("dd"@, PVal::Int(d))),
        },
    }
}

/// What `projects new` does at `now_ms` on the day `today`, naming the new
/// project `new_uuid`; `wp` and `dp` are the days that `--when` and
/// `--deadline` name, where they name one.
pub open spec fn project_new_outcome(
    p: CommandPlan,
    store: ThingsStore,
    args: ProjectsNewArgs,
    now_ms: i64,
    today: i64,
    new_uuid: Seq<char>,
    wp: Result<i64, Seq<char>>,
    dp: Result<i64, Seq<char>>,
    no_color: bool,
) -> bool {
    let title = trimmed(args.title@);
    if title.len() == 0 {
        reports_only(p, seq!["Project title cannot be empty."@])
    } else {
        match project_new_props(store, args, now_ms, today, wp, dp) {
            Err(m) => reports_only(p, seq![m]),
            Ok(m) => writes_one(
                p,
                new_uuid,
                (OperationType::Create, EntityType::Task6, m),
                done_line("✓"@ + " Created"@, title, new_uuid, no_color),
                "Failed to create project: "@,
            ),
        }
    }
}

fn base_props(title: &str, notes: &String, now_ms: i64) -> (m: KeyMap<JsonValue>)
    ensures
        m.wf(),
        crate::commands::changes::props_are(m@, project_base_props(title@, notes@, now_ms)),
{
    let mut m: KeyMap<JsonValue> = no_props();
    let ghost s0: Map<Seq<char>, PVal> = Map::empty();
    put(&mut m, Ghost(s0), "tt", JsonValue::string(title), Ghost(PVal::Text(title@)));
    let ghost s1 = s0.insert("tt"@, PVal::Text(title@));
    put(&mut m, Ghost(s1), "tp", JsonValue::integer(1), Ghost(PVal::Int(1)));
    let ghost s2 = s1.insert("tp"@, PVal::Int(1));
    put(&mut m, Ghost(s2), "ss", JsonValue::integer(0), Ghost(PVal::Int(0)));
    let ghost s3 = s2.insert("ss"@, PVal::Int(0));
    put(&mut m, Ghost(s3), "st", JsonValue::integer(1), Ghost(PVal::Int(1)));
    let ghost s4 = s3.insert("st"@, PVal::Int(1));
    put(&mut m, Ghost(s4), "tr", JsonValue::Bool(false), Ghost(PVal::Bool(false)));
    let ghost s5 = s4.insert("tr"@, PVal::Bool(false));
    put(&mut m, Ghost(s5), "cd", JsonValue::Millis(now_ms), Ghost(PVal::Millis(now_ms)));
    let ghost s6 = s5.insert("cd"@, PVal::Millis(now_ms));
    put(&mut m, Ghost(s6), "md", JsonValue::Millis(now_ms), Ghost(PVal::Millis(now_ms)));
    let ghost s7 = s6.insert("md"@, PVal::Millis(now_ms));
    let ghost nv = if notes@.len() == 0 { PVal::Null } else { PVal::Note(notes@) };
    if notes.as_str().is_empty() {
        put(&mut m, Ghost(s7), "nt", JsonValue::Null, Ghost(PVal::Null));
    } else {
        put(&mut m, Ghost(s7), "nt", task6_note(notes.as_str()), Ghost(PVal::Note(notes@)));
    }
    let ghost s8 = s7.insert("nt"@, nv);
    put(&mut m, Ghost(s8), "xx", overrides_value(), Ghost(PVal::Overrides));
    let ghost s9 = s8.insert("xx"@, PVal::Overrides);
    put(&mut m, Ghost(s9), "icp", JsonValue::Bool(true), Ghost(PVal::Bool(true)));
    let ghost s10 = s9.insert("icp"@, PVal::Bool(true));
    put(&mut m, Ghost(s10), "rmd", JsonValue::Null, Ghost(PVal::Null));
    let ghost s11 = s10.insert("rmd"@, PVal::Null);
    put(&mut m, Ghost(s11), "rp", JsonValue::Null, Ghost(PVal::Null));
    m
}

fn when_props(
    m: &mut KeyMap<JsonValue>,
    Ghost(s): Ghost<Map<Seq<char>, PVal>>,
    w: &str,
    today: i64,
    wp: &Result<i64, String>,
) -> (r: Result<(), String>)
    requires
        old(m).wf(),
        crate::commands::changes::props_are(old(m)@, s),
    ensures
        final(m).wf(),
        match project_when_props(s, w@, today, match wp { Ok(d) => Ok(*d), Err(e) => Err(e@) }) {
            Ok(s2) => r is Ok && crate::commands::changes::props_are(final(m)@, s2),
            Err(e) => r matches Err(x) && x@ == e,
        },
{
    let l = to_lowercase(trim(w).as_str());
    if same_text(l.as_str(), "anytime") {
        put(m, Ghost(s), "st", JsonValue::integer(1), Ghost(PVal::Int(1)));
        put(m, Ghost(s.insert("st"@, PVal::Int(1))), "sr", JsonValue::Null, Ghost(PVal::Null));
        Ok(())
    } else if same_text(l.as_str(), "someday") {
        put(m, Ghost(s), "st", JsonValue::integer(2), Ghost(PVal::Int(2)));
        put(m, Ghost(s.insert("st"@, PVal::Int(2))), "sr", JsonValue::Null, Ghost(PVal::Null));
        Ok(())
    } else if same_text(l.as_str(), "today") {
        put(m, Ghost(s), "st", JsonValue::integer(1), Ghost(PVal::Int(1)));
        let ghost s1 = s.insert("st"@, PVal::Int(1));
        put(m, Ghost(s1), "sr", JsonValue::integer(today), Ghost(PVal::Int(today)));
        put(m, Ghost(s1.insert("sr"@, PVal::Int(today))), "tir", JsonValue::integer(today), Ghost(PVal::Int(today)));
        Ok(())
    } else {
        match wp {
            Err(e) => Err(e.clone()),
            Ok(d) => {
                put(m, Ghost(s), "st", JsonValue::integer(2), Ghost(PVal::Int(2)));
                let ghost s1 = s.insert("st"@, PVal::Int(2));
                put(m, Ghost(s1), "sr", JsonValue::integer(*d), Ghost(PVal::Int(*d)));
                put(m, Ghost(s1.insert("sr"@, PVal::Int(*d))), "tir", JsonValue::integer(*d), Ghost(PVal::Int(*d)));
                Ok(())
            },
        }
    }
}

/// `wp` is what reading the day of `--when` gives, where it names a day.
pub open spec fn project_when_ok(when: Option<String>, wp: Result<i64, Seq<char>>) -> bool {
    match when {
        Some(w) => project_when_is_day(w@) ==> day_result_ok(w@, "--when"@, wp),
        None => true,
    }
}

impl ProjectsNewArgs {
    /// What `projects new` does at `now_ms` on the day `today`, naming the
    /// new project `new_uuid`, given the days that `--when` and `--deadline`
    /// name (where they name one).
    #[verifier::rlimit(40)]
    pub fn plan_with(
        &self,
        store: &ThingsStore,
        now_ms: i64,
        today: i64,
        new_uuid: &str,
        when_parsed: &Result<i64, String>,
        deadline_parsed: &Result<i64, String>,
        no_color: bool,
    ) -> (p: CommandPlan)
        requires
            store.wf(),
        ensures
            project_new_outcome(
                p,
                *store,
                *self,
                now_ms,
                today,
                new_uuid@,
                match when_parsed { Ok(d) => Ok(*d), Err(e) => Err(e@) },
                match deadline_parsed { Ok(d) => Ok(*d), Err(e) => Err(e@) },
                no_color,
            ),
    {
        let title = trim(self.title.as_str());
        if title.as_str().is_empty() {
            return report_one(owned("Project title cannot be empty."));
        }
        let mut m = base_props(title.as_str(), &self.notes, now_ms);
        let ghost s0 = project_base_props(title@, self.notes@, now_ms);
        let ghost s1 = match crate::props::opt_view(self.area) {
            None => s0,
            Some(a) => {
                let r = resolved(store.areas_by_uuid@, store.area_ids_sorted@, a, "Area"@);
                match r.0 {
                    None => s0,
                    Some(area) => s0.insert("ar"@, PVal::Texts(seq![area.uuid@])),
                }
            },
        };
        match &self.area {
            None => {},
            Some(a) => {
                let r = store.resolve_area_identifier(a.as_str());
                match r.0 {
                    None => return report_one(r.1),
                    Some(area) => put(&mut m, Ghost(s0), "ar", json_str1(area.uuid.as_str()), Ghost(PVal::Texts(seq![area.uuid@]))),
                }
            },
        }
        let ghost wv: Result<i64, Seq<char>> = match when_parsed { Ok(d) => Ok(*d), Err(e) => Err(e@) };
        let ghost s2 = match crate::props::opt_view(self.when) {
            None => s1,
            Some(w) => match project_when_props(s1, w, today, wv) {
                Ok(x) => x,
                Err(_) => s1,
            },
        };
        match &self.when {
            None => {},
            Some(w) => match when_props(&mut m, Ghost(s1), w.as_str(), today, when_parsed) {
                Err(e) => return report_one(e),
                Ok(()) => {},
            },
        }
        let ghost s3 = match crate::props::opt_view(self.tags) {
            None => s2,
            Some(raw) => match crate::common::tag_ids_from(store.tags_by_uuid@, comma_tokens(raw)) {
                Ok(ids) => s2.insert("tg"@, PVal::Texts(ids)),
                Err(_) => s2,
            },
        };
        match &self.tags {
            None => {},
            Some(raw) => {
                let (ids, err) = resolve_tag_ids(store, raw.as_str());
                proof {
                    lemma_tag_ids_msg(store.tags_by_uuid@, comma_tokens(raw@));
                }
                if !err.as_str().is_empty() {
                    return report_one(err);
                }
                put(&mut m, Ghost(s2), "tg", json_strs(&ids), Ghost(PVal::Texts(views(ids@))));
            },
        }
        match &self.deadline_date {
            None => {},
            Some(_) => match deadline_parsed {
                Err(e) => return report_one(e.clone()),
                Ok(d) => put(&mut m, Ghost(s3), "dd", JsonValue::integer(*d), Ghost(PVal::Int(*d))),
            },
        }
        let ghost x: ObjSpec = (
            OperationType::Create,
            EntityType::Task6,
            project_new_props(*store, *self, now_ms, today, wv, match deadline_parsed { Ok(d) => Ok(*d), Err(e) => Err(e@) })->Ok_0,
        );
        let o = WireObject { operation_type: OperationType::Create, entity_type: Some(EntityType::Task6), properties: m };
        let w = one_change(owned(new_uuid), o, Ghost(x));
        let mut lines: Vec<String> = Vec::new();
        lines.push(done_line_text(concat(icons().done, " Created").as_str(), title.as_str(), new_uuid, no_color));
        CommandPlan { notes: Vec::new(), changes: Some(w), done_lines: lines, fail_prefix: owned("Failed to create project: ") }
    }

    /// What `projects new` does at `now_ms` on the day `today`: it reads the
    /// days of `--when` and `--deadline` in local time and names the new
    /// project with a fresh random id.
    pub fn plan(&self, store: &ThingsStore, now_ms: i64, today: i64, no_color: bool) -> (p: CommandPlan)
        requires
            store.wf(),
        ensures
            exists|wp: Result<i64, Seq<char>>, dp: Result<i64, Seq<char>>, u: Seq<char>|
                project_when_ok(self.when, wp)
                && (self.deadline_date matches Some(d) ==> day_result_ok(d@, "--deadline"@, dp))
                && crate::ids::id_shaped(u)
                && project_new_outcome(p, *store, *self, now_ms, today, u, wp, dp, no_color),
    {
        let wp: Result<i64, String> = match &self.when {
            Some(w) => {
                let l = to_lowercase(trim(w.as_str()).as_str());
                if !same_text(l.as_str(), "anytime") && !same_text(l.as_str(), "someday") && !same_text(l.as_str(), "today") {
                    match parse_day(Some(w.as_str()), "--when") {
                        Ok(Some(d)) => Ok(d),
                        Ok(None) => Err(String::new()),
                        Err(m) => Err(m),
                    }
                } else {
                    Err(String::new())
                }
            },
            None => Err(String::new()),
        };
        let dp: Result<i64, String> = match &self.deadline_date {
            Some(d) => match parse_day(Some(d.as_str()), "--deadline") {
                Ok(Some(x)) => Ok(x),
                Ok(None) => Err(String::new()),
                Err(m) => Err(m),
            },
            None => Err(String::new()),
        };
        let u = crate::ids::random_task_id();
        let p = self.plan_with(store, now_ms, today, u.as_str(), &wp, &dp, no_color);
        proof {
            let wv: Result<i64, Seq<char>> = match wp { Ok(d) => Ok(d), Err(m) => Err(m@) };
            let dv: Result<i64, Seq<char>> = match dp { Ok(d) => Ok(d), Err(m) => Err(m@) };
            assert(project_when_ok(self.when, wv)
                && (self.deadline_date matches Some(d) ==> day_result_ok(d@, "--deadline"@, dv))
                && crate::ids::id_shaped(u@)
                && project_new_outcome(p, *store, *self, now_ms, today, u@, wv, dv, no_color));
        }
        p
    }
}

/// Where `projects edit --move` sends the project: its area list and label;
/// or the message why it cannot.
pub open spec fn project_move(store: ThingsStore, target: Seq<char>) -> Result<(Seq<Seq<char>>, Seq<char>), Seq<char>> {
    let raw = trimmed(target);
    let l = lowercase(raw);
    if l == "inbox"@ {
        Err("Projects cannot be moved to Inbox."@)
    } else if l == "clear"@ {
        Ok((seq![], "move=clear"@))
    } else {
        let rp = resolved(store.tasks_by_uuid@, store.markable_ids_sorted@, raw, "Item"@);
        let ra = resolved(store.areas_by_uuid@, store.area_ids_sorted@, raw, "Area"@);
        let is_project = rp.0 matches Some(x) && x.item_type == TaskType::Project;
        if is_project && ra.0 is Some {
            Err("Ambiguous --move target '"@ + raw + "' (matches project and area)."@)
        } else if is_project {
            Err("Projects can only be moved to an area or clear."@)
        } else if ra.0 is Some {
            Ok((seq![ra.0.unwrap().uuid@], "move="@ + raw))
        } else {
            Err("Container not found: "@ + raw)
        }
    }
}

/// The optional move of `projects edit`.
pub open spec fn project_move_opt(store: ThingsStore, target: Option<String>) -> Result<Option<(Seq<Seq<char>>, Seq<char>)>, Seq<char>> {
    match target {
        None => Ok(None),
        Some(t) => match project_move(store, t@) {
            Err(e) => Err(e),
            Ok(x) => Ok(Some(x)),
        },
    }
}

/// The properties `projects edit` changes (before the modification time).
pub open spec fn project_update(
    title: Option<Seq<char>>,
    notes: Option<Seq<char>>,
    mv: Option<(Seq<Seq<char>>, Seq<char>)>,
    tags: Option<Seq<Seq<char>>>,
) -> Map<Seq<char>, PVal> {
    let m1: Map<Seq<char>, PVal> = match title {
        Some(t) => Map::empty().insert("tt"@, PVal::Text(t)),
        None => Map::empty(),
    };
    let m2 = match notes {
        Some(n) => m1.insert("nt"@, if n.len() == 0 { PVal::EmptyNote } else { PVal::Note(n) }),
        None => m1,
    };
    let m3 = match mv {
        Some(x) => m2.insert("ar"@, PVal::Texts(x.0)),
        None => m2,
    };
    match tags {
        Some(ts) => m3.insert("tg"@, PVal::Texts(ts)),
        None => m3,
    }
}

/// What `projects edit` does at `now_ms`.
pub open spec fn project_edit_outcome(p: CommandPlan, store: ThingsStore, args: ProjectsEditArgs, now_ms: i64, no_color: bool) -> bool {
    let r = resolved(store.tasks_by_uuid@, store.markable_ids_sorted@, args.project_id@, "Item"@);
    match r.0 {
        None => reports_only(p, seq![r.1]),
        Some(proj) => {
            let title: Option<Seq<char>> = match args.title {
                Some(t) => Some(trimmed(t@)),
                None => None,
            };
            if proj.item_type != TaskType::Project {
                reports_only(p, seq!["The specified ID is not a project."@])
            } else if title is Some && title.unwrap().len() == 0 {
                reports_only(p, seq!["Project title cannot be empty."@])
            } else {
                match project_move_opt(store, args.move_target) {
                    Err(m) => reports_only(p, seq![m]),
                    Ok(mv) => match tag_option(store.tags_by_uuid@, args.add_tags) {
                        Err(m) => reports_only(p, seq![m]),
                        Ok(add) => match tag_option(store.tags_by_uuid@, args.remove_tags) {
                            Err(m) => reports_only(p, seq![m]),
                            Ok(remove) => if title is None && args.notes is None && mv is None && args.add_tags is None
                                && args.remove_tags is None {
                                reports_only(p, seq!["No edit changes requested."@])
                            } else {
                                let tags = if args.add_tags is Some || args.remove_tags is Some {
                                    Some(without(with_added(views(proj.tags@), add), remove))
                                } else {
                                    None
                                };
                                let u = project_update(title, crate::props::opt_view(args.notes), mv, tags);
                                let labels = (if title is Some { seq!["title"@] } else { seq![] })
                                    + (if args.notes is Some { seq!["notes"@] } else { seq![] })
                                    + (match mv { Some(x) => seq![x.1], None => seq![] })
                                    + (if args.add_tags is Some { seq!["add-tags"@] } else { seq![] })
                                    + (if args.remove_tags is Some { seq!["remove-tags"@] } else { seq![] });
                                let shown = match title {
                                    Some(t) => t,
                                    None => proj.title@,
                                };
                                writes_one(
                                    p,
                                    proj.uuid@,
                                    (OperationType::Update, entity_of(proj.entity), u.insert("md"@, PVal::Millis(now_ms))),
                                    done_line("✓"@ + " Edited"@, shown, proj.uuid@, no_color) + " "@
                                        + colored_text("("@ + join_sep(labels, ", "@) + ")"@, seq![DIM], no_color),
                                    "Failed to edit project: "@,
                                )
                            },
                        },
                    },
                }
            }
        },
    }
}

fn move_message(raw: &str) -> (r: String)
    ensures
        r@ == "Ambiguous --move target '"@ + raw@ + "' (matches project and area)."@,
{
    concat(concat("Ambiguous --move target '", raw).as_str(), "' (matches project and area).")
}

fn resolve_project_move(store: &ThingsStore, target: &Option<String>) -> (r: Result<Option<(Vec<String>, String)>, String>)
    requires
        store.wf(),
    ensures
        match project_move_opt(*store, *target) {
            Err(e) => r matches Err(m) && m@ == e,
            Ok(None) => r matches Ok(None),
            Ok(Some(x)) => r matches Ok(Some(y)) && views(y.0@) == x.0 && y.1@ == x.1,
        },
{
    let t = match target {
        None => return Ok(None),
        Some(t) => t,
    };
    let raw = trim(t.as_str());
    let l = to_lowercase(raw.as_str());
    if same_text(l.as_str(), "inbox") {
        return Err(owned("Projects cannot be moved to Inbox."));
    }
    if same_text(l.as_str(), "clear") {
        let v: Vec<String> = Vec::new();
        proof {
            assert(views(v@) =~= seq![]);
        }
        return Ok(Some((v, owned("move=clear"))));
    }
    let rp = store.resolve_mark_identifier(raw.as_str());
    let ra = store.resolve_area_identifier(raw.as_str());
    let is_project = match rp.0 {
        Some(x) => x.is_project(),
        None => false,
    };
    if is_project && ra.0.is_some() {
        return Err(move_message(raw.as_str()));
    }
    if is_project {
        return Err(owned("Projects can only be moved to an area or clear."));
    }
    match ra.0 {
        Some(a) => {
            let mut v: Vec<String> = Vec::new();
            v.push(a.uuid.clone());
            proof {
                assert(views(v@) =~= seq![a.uuid@]);
            }
            Ok(Some((v, concat("move=", raw.as_str()))))
        },
        None => Err(concat("Container not found: ", raw.as_str())),
    }
}

fn tag_ids_opt(store: &ThingsStore, raw: &Option<String>) -> (r: Result<Vec<String>, String>)
    requires
        store.wf(),
    ensures
        match tag_option(store.tags_by_uuid@, *raw) {
            Ok(ids) => r matches Ok(v) && views(v@) == ids,
            Err(m) => r matches Err(e) && e@ == m,
        },
{
    match raw {
        None => {
            let v: Vec<String> = Vec::new();
            proof {
                assert(views(v@) =~= seq![]);
            }
            Ok(v)
        },
        Some(t) => {
            let (ids, err) = resolve_tag_ids(store, t.as_str());
            proof {
                lemma_tag_ids_msg(store.tags_by_uuid@, comma_tokens(t@));
            }
            if err.as_str().is_empty() {
                Ok(ids)
            } else {
                Err(err)
            }
        },
    }
}

impl ProjectsEditArgs {
    /// What `projects edit` does at `now_ms`.
    #[verifier::rlimit(60)]
    pub fn plan(&self, store: &ThingsStore, now_ms: i64, no_color: bool) -> (p: CommandPlan)
        requires
            store.wf(),
        ensures
            project_edit_outcome(p, *store, *self, now_ms, no_color),
    {
        let r = store.resolve_mark_identifier(self.project_id.as_str());
        let proj = match r.0 {
            None => return report_one(r.1),
            Some(t) => t,
        };
        if !proj.is_project() {
            return report_one(owned("The specified ID is not a project."));
        }
        let title: Option<String> = match &self.title {
            Some(t) => Some(trim(t.as_str())),
            None => None,
        };
        match &title {
            Some(t) => {
                if t.as_str().is_empty() {
                    return report_one(owned("Project title cannot be empty."));
                }
            },
            None => {},
        }
        let mv = match resolve_project_move(store, &self.move_target) {
            Err(m) => return report_one(m),
            Ok(x) => x,
        };
        let add = match tag_ids_opt(store, &self.add_tags) {
            Err(m) => return report_one(m),
            Ok(v) => v,
        };
        let remove = match tag_ids_opt(store, &self.remove_tags) {
            Err(m) => return report_one(m),
            Ok(v) => v,
        };
        if title.is_none() && self.notes.is_none() && mv.is_none() && self.add_tags.is_none() && self.remove_tags.is_none() {
            return report_one(owned("No edit changes requested."));
        }
        let ghost mvv: Option<(Seq<Seq<char>>, Seq<char>)> = match project_move_opt(*store, self.move_target) {
            Ok(x) => x,
            Err(_) => None,
        };
        let ghost tagv: Option<Seq<Seq<char>>> = if self.add_tags is Some || self.remove_tags is Some {
            Some(without(with_added(views(proj.tags@), views(add@)), views(remove@)))
        } else {
            None
        };
        let mut m: KeyMap<JsonValue> = no_props();
        let mut labels: Vec<String> = Vec::new();
        let ghost s0: Map<Seq<char>, PVal> = Map::empty();
        let ghost s1: Map<Seq<char>, PVal> = match crate::props::opt_view(title) {
            Some(t) => s0.insert("tt"@, PVal::Text(t)),
            None => s0,
        };
        match &title {
            Some(t) => {
                put(&mut m, Ghost(s0), "tt", JsonValue::string(t.as_str()), Ghost(PVal::Text(t@)));
                labels.push(owned("title"));
            },
            None => {},
        }
        let ghost s2: Map<Seq<char>, PVal> = match crate::props::opt_view(self.notes) {
            Some(n) => s1.insert("nt"@, if n.len() == 0 { PVal::EmptyNote } else { PVal::Note(n) }),
            None => s1,
        };
        match &self.notes {
            Some(n) => {
                if n.as_str().is_empty() {
                    put(&mut m, Ghost(s1), "nt", empty_note_value(), Ghost(PVal::EmptyNote));
                } else {
                    put(&mut m, Ghost(s1), "nt", task6_note(n.as_str()), Ghost(PVal::Note(n@)));
                }
                labels.push(owned("notes"));
            },
            None => {},
        }
        let ghost s3: Map<Seq<char>, PVal> = match mvv {
            Some(x) => s2.insert("ar"@, PVal::Texts(x.0)),
            None => s2,
        };
        match &mv {
            Some(x) => {
                put(&mut m, Ghost(s2), "ar", json_strs(&x.0), Ghost(PVal::Texts(views(x.0@))));
                labels.push(x.1.clone());
            },
            None => {},
        }
        if self.add_tags.is_some() {
            labels.push(owned("add-tags"));
        }
        if self.remove_tags.is_some() {
            labels.push(owned("remove-tags"));
        }
        let ghost s4: Map<Seq<char>, PVal> = match tagv {
            Some(ts) => s3.insert("tg"@, PVal::Texts(ts)),
            None => s3,
        };
        if self.add_tags.is_some() || self.remove_tags.is_some() {
            let current = retag(&proj.tags, &add, &remove);
            put(&mut m, Ghost(s3), "tg", json_strs(&current), Ghost(PVal::Texts(tagv.unwrap())));
        }
        put(&mut m, Ghost(s4), "md", JsonValue::Millis(now_ms), Ghost(PVal::Millis(now_ms)));
        let ghost x: ObjSpec = (OperationType::Update, entity_of(proj.entity), s4.insert("md"@, PVal::Millis(now_ms)));
        proof {
            assert(s4 == project_update(crate::props::opt_view(title), crate::props::opt_view(self.notes), mvv, tagv));
        }
        let o = WireObject { operation_type: OperationType::Update, entity_type: Some(EntityType::from(proj.entity.clone())), properties: m };
        let w = one_change(proj.uuid.clone(), o, Ghost(x));
        let shown: &str = match &title {
            Some(t) => t.as_str(),
            None => proj.title.as_str(),
        };
        let head = done_line_text(concat(icons().done, " Edited").as_str(), shown, proj.uuid.as_str(), no_color);
        let joined = join_strings(&labels, ", ");
        let tail = dim(concat(concat("(", joined.as_str()).as_str(), ")").as_str(), no_color);
        let mut lines: Vec<String> = Vec::new();
        lines.push(concat(concat(head.as_str(), " ").as_str(), tail.as_str()));
        proof {
            assert(views(labels@) =~= (if self.title is Some { seq!["title"@] } else { seq![] })
                + (if self.notes is Some { seq!["notes"@] } else { seq![] })
                + (match mvv { Some(x) => seq![x.1], None => seq![] })
                + (if self.add_tags is Some { seq!["add-tags"@] } else { seq![] })
                + (if self.remove_tags is Some { seq!["remove-tags"@] } else { seq![] }));
        }
        CommandPlan { notes: Vec::new(), changes: Some(w), done_lines: lines, fail_prefix: owned("Failed to edit project: ") }
    }
}

/// The place of an area among the project groups: its index, or last
/// for an area the store does not know.
pub open spec fn area_rank(store: ThingsStore, a: Seq<char>) -> i32 {
    if store.areas_by_uuid@.contains_key(a) {
        store.areas_by_uuid@[a].index
    } else {
        i32::MAX
    }
}

/// Area `a`'s group comes before area `b`'s: by index, then by id.
pub open spec fn group_lt(store: ThingsStore, a: Seq<char>, b: Seq<char>) -> bool {
    area_rank(store, a) < area_rank(store, b) || (area_rank(store, a) == area_rank(store, b) && crate::sorting::text_lt(a, b))
}

/// The groups are in strictly increasing group order.
pub open spec fn groups_sorted(store: ThingsStore, g: Seq<Seq<char>>) -> bool {
    forall|i: int, j: int| 0 <= i < j < g.len() ==> group_lt(store, #[trigger] g[i], #[trigger] g[j])
}

proof fn lemma_group_order(store: ThingsStore, a: Seq<char>, b: Seq<char>, c: Seq<char>)
    ensures
        !group_lt(store, a, a),
        a != b ==> (group_lt(store, a, b) || group_lt(store, b, a)),
        !(group_lt(store, a, b) && group_lt(store, b, a)),
        group_lt(store, a, b) && group_lt(store, b, c) ==> group_lt(store, a, c),
{
    crate::sorting::lemma_text_order(a, b, c);
    crate::sorting::lemma_text_order(b, a, c);
}

fn rank_of(store: &ThingsStore, a: &str) -> (r: i32)
    requires
        store.wf(),
    ensures
        r == area_rank(*store, a@),
{
    match store.areas_by_uuid.get(a) {
        Some(x) => x.index,
        None => i32::MAX,
    }
}

fn group_less(store: &ThingsStore, a: &str, b: &str) -> (r: bool)
    requires
        store.wf(),
    ensures
        r == group_lt(*store, a@, b@),
{
    let ra = rank_of(store, a);
    let rb = rank_of(store, b);
    ra < rb || (ra == rb && crate::sorting::text_less(a, b))
}

/// The areas of the listed projects, each once, in the order they first appear.
fn project_areas(ps: &Vec<&Task>) -> (r: Vec<String>)
    ensures
        forall|x: Seq<char>| views(r@).contains(x) <==> exists|i: int| 0 <= i < ps@.len() && crate::props::opt_view((*ps@[i]).area) == Some(x),
        forall|i: int, j: int| 0 <= i < r@.len() && 0 <= j < r@.len() && i != j ==> (#[trigger] r@[i])@ != (#[trigger] r@[j])@,
{
    let mut r: Vec<String> = Vec::new();
    let mut i: usize = 0;
    while i < ps.len()
        invariant
            i <= ps@.len(),
            forall|x: Seq<char>| views(r@).contains(x) <==> exists|k: int| 0 <= k < i && crate::props::opt_view((*ps@[k]).area) == Some(x),
            forall|a: int, b: int| 0 <= a < r@.len() && 0 <= b < r@.len() && a != b ==> (#[trigger] r@[a])@ != (#[trigger] r@[b])@,
        decreases ps@.len() - i,
    {
        match &ps[i].area {
            Some(a) => {
                if !crate::commands::edit::listed_text(&r, a.as_str()) {
                    let ghost before = r@;
                    r.push(a.clone());
                    proof {
                        assert(views(r@) =~= views(before).push(a@));
                        assert forall|p: int, q: int| 0 <= p < r@.len() && 0 <= q < r@.len() && p != q implies (#[trigger] r@[p])@ != (#[trigger] r@[q])@ by {
                            if p == before.len() {
                                assert(views(before)[q] == r@[q]@);
                            } else if q == before.len() {
                                assert(views(before)[p] == r@[p]@);
                            } else {
                                assert(r@[p] == before[p] && r@[q] == before[q]);
                            }
                        }
                        assert forall|x: Seq<char>| views(r@).contains(x) <==> exists|k: int| 0 <= k < i + 1 && crate::props::opt_view((*ps@[k]).area) == Some(x) by {
                            if views(r@).contains(x) && x != a@ {
                                let j = choose|j: int| 0 <= j < views(r@).len() && views(r@)[j] == x;
                                assert(views(before).contains(x)) by {
                                    assert(views(before)[j] == x);
                                }
                            }
                            if x == a@ {
                                assert(crate::props::opt_view((*ps@[i as int]).area) == Some(x));
                                assert(views(r@)[before.len() as int] == x);
                            }
                            if exists|k: int| 0 <= k < i + 1 && crate::props::opt_view((*ps@[k]).area) == Some(x) {
                                let k = choose|k: int| 0 <= k < i + 1 && crate::props::opt_view((*ps@[k]).area) == Some(x);
                                if k < i {
                                    assert(views(before).contains(x));
                                    let j = choose|j: int| 0 <= j < views(before).len() && views(before)[j] == x;
                                    assert(views(r@)[j] == x);
                                }
                            }
                        }
                    }
                } else {
                    proof {
                        assert forall|x: Seq<char>| views(r@).contains(x) <==> exists|k: int| 0 <= k < i + 1 && crate::props::opt_view((*ps@[k]).area) == Some(x) by {
                            if exists|k: int| 0 <= k < i + 1 && crate::props::opt_view((*ps@[k]).area) == Some(x) {
                                let k = choose|k: int| 0 <= k < i + 1 && crate::props::opt_view((*ps@[k]).area) == Some(x);
                                if k == i {
                                    assert(x == a@);
                                }
                            }
                        }
                    }
                }
            },
            None => {
                proof {
                    assert forall|x: Seq<char>| views(r@).contains(x) <==> exists|k: int| 0 <= k < i + 1 && crate::props::opt_view((*ps@[k]).area) == Some(x) by {
                        if exists|k: int| 0 <= k < i + 1 && crate::props::opt_view((*ps@[k]).area) == Some(x) {
                            let k = choose|k: int| 0 <= k < i + 1 && crate::props::opt_view((*ps@[k]).area) == Some(x);
                            assert(k != i);
                        }
                    }
                }
            },
        }
        i += 1;
    }
    r
}

/// Sorts distinct area ids into group order.
fn sort_groups(store: &ThingsStore, v: Vec<String>) -> (r: Vec<String>)
    requires
        store.wf(),
        forall|i: int, j: int| 0 <= i < v@.len() && 0 <= j < v@.len() && i != j ==> (#[trigger] v@[i])@ != (#[trigger] v@[j])@,
    ensures
        groups_sorted(*store, views(r@)),
        forall|x: Seq<char>| views(r@).contains(x) <==> views(v@).contains(x),
{
    let ghost orig = views(v@);
    let mut out: Vec<String> = Vec::new();
    let mut i: usize = 0;
    while i < v.len()
        invariant
            store.wf(),
            orig == views(v@),
            i <= v@.len(),
            forall|a: int, b: int| 0 <= a < v@.len() && 0 <= b < v@.len() && a != b ==> (#[trigger] v@[a])@ != (#[trigger] v@[b])@,
            groups_sorted(*store, views(out@)),
            forall|x: Seq<char>| views(out@).contains(x) <==> orig.take(i as int).contains(x),
        decreases v@.len() - i,
    {
        let x = v[i].clone();
        let mut p: usize = out.len();
        while p > 0 && group_less(store, x.as_str(), out[p - 1].as_str())
            invariant
                store.wf(),
                p <= out@.len(),
                forall|j: int| p <= j < out@.len() ==> group_lt(*store, x@, #[trigger] views(out@)[j]),
            decreases p,
        {
            p -= 1;
        }
        let ghost before = views(out@);
        proof {
            assert(!before.contains(x@)) by {
                if before.contains(x@) {
                    assert(orig.take(i as int).contains(x@));
                    let k = choose|k: int| 0 <= k < orig.take(i as int).len() && orig.take(i as int)[k] == x@;
                    assert(v@[k]@ == v@[i as int]@);
                }
            }
        }
        out.insert(p, x);
        proof {
            let now = views(out@);
            assert(now =~= before.insert(p as int, x@));
            if p > 0 {
                assert(before[p - 1] != x@);
                lemma_group_order(*store, before[p - 1], x@, x@);
            }
            assert forall|a: int, b: int| 0 <= a < b < now.len() implies group_lt(*store, #[trigger] now[a], #[trigger] now[b]) by {
                if a < p && b < p {
                    assert(now[a] == before[a] && now[b] == before[b]);
                } else if a < p && b == p {
                    assert(now[a] == before[a]);
                    if a < p - 1 {
                        lemma_group_order(*store, before[a], before[p - 1], x@);
                    }
                } else if a < p && b > p {
                    assert(now[a] == before[a] && now[b] == before[b - 1]);
                } else if a == p {
                    assert(now[b] == before[b - 1]);
                } else {
                    assert(now[a] == before[a - 1] && now[b] == before[b - 1]);
                }
            }
            assert(orig.take(i + 1) =~= orig.take(i as int).push(x@));
            assert forall|y: Seq<char>| now.contains(y) <==> orig.take(i + 1).contains(y) by {
                if now.contains(y) {
                    let k = choose|k: int| 0 <= k < now.len() && now[k] == y;
                    if k < p {
                        assert(before[k] == y);
                        assert(before.contains(y));
                    } else if k > p {
                        assert(before[k - 1] == y);
                        assert(before.contains(y));
                    }
                    if y != x@ {
                        assert(orig.take(i as int).contains(y));
                        let m = choose|m: int| 0 <= m < orig.take(i as int).len() && orig.take(i as int)[m] == y;
                        assert(orig.take(i + 1)[m] == y);
                    } else {
                        assert(orig.take(i + 1)[i as int] == y);
                    }
                }
                if orig.take(i + 1).contains(y) {
                    if y == x@ {
                        assert(now[p as int] == y);
                    } else {
                        let t1 = orig.take(i + 1);
                        let m = choose|m: int| 0 <= m < t1.len() && #[trigger] t1[m] == y;
                        assert(m < i);
                        assert(orig.take(i as int)[m] == y);
                        assert(before.contains(y));
                        let k = choose|k: int| 0 <= k < before.len() && before[k] == y;
                        if k < p {
                            assert(now[k] == y);
                        } else {
                            assert(now[k + 1] == y);
                        }
                    }
                }
            }
        }
        i += 1;
    }
    proof {
        assert(orig.take(orig.len() as int) =~= orig);
    }
    out
}

/// The listed projects in area `a` (none for no area), in order.
pub open spec fn projects_in_area(ps: Seq<&Task>, a: Option<Seq<char>>) -> Seq<&Task>
    decreases ps.len(),
{
    if ps.len() == 0 {
        seq![]
    } else if crate::props::opt_view((*ps.last()).area) == a {
        projects_in_area(ps.drop_last(), a).push(ps.last())
    } else {
        projects_in_area(ps.drop_last(), a)
    }
}

/// A project's entry in the list, under `indent`.
pub open spec fn project_entry(store: ThingsStore, p: Task, indent: Seq<char>, width: nat, detailed: bool, today: i64, no_color: bool) -> Seq<char> {
    join_sep(crate::listing::project_note_lines(store, p, indent, Some(width as usize), true, detailed, today, no_color), "\n"@)
}

/// The lines of the area groups from the `k`-th on: a blank line, the
/// area's line, and its projects.
pub open spec fn group_lines(store: ThingsStore, ps: Seq<&Task>, g: Seq<Seq<char>>, k: int, width: nat, detailed: bool, today: i64, no_color: bool) -> Seq<Seq<char>>
    decreases g.len() - k,
{
    if k < 0 || k >= g.len() {
        seq![]
    } else {
        let a = g[k];
        seq![
            seq![],
            "  "@ + colored_text(crate::common::id_column(a, width), seq![DIM], no_color) + " "@
                + colored_text(crate::lookup::area_title_of(store.areas_by_uuid@, a), seq![crate::common::BOLD], no_color),
        ] + projects_in_area(ps, Some(a)).map_values(|p: &Task| project_entry(store, *p, "    "@, width, detailed, today, no_color))
            + group_lines(store, ps, g, k + 1, width, detailed, today, no_color)
    }
}

/// What `projects list` prints for the listed projects `ps`, grouped by the
/// areas `g` (in group order), with id columns `width` wide.
pub open spec fn project_list_lines(store: ThingsStore, ps: Seq<&Task>, g: Seq<Seq<char>>, width: nat, detailed: bool, today: i64, no_color: bool) -> Seq<Seq<char>> {
    if ps.len() == 0 {
        seq![colored_text("No active projects."@, seq![DIM], no_color)]
    } else {
        let loose = projects_in_area(ps, None);
        seq![colored_text("●"@ + " Projects  ("@ + crate::text::decimal(ps.len()) + ")"@, seq![crate::common::BOLD, crate::common::GREEN], no_color)]
            + (if loose.len() > 0 {
                seq![seq![]] + loose.map_values(|p: &Task| project_entry(store, *p, "  "@, width, detailed, today, no_color))
            } else {
                seq![]
            })
            + group_lines(store, ps, g, 0, width, detailed, today, no_color)
    }
}

/// The id column width of a listing of `scope`.
pub open spec fn scope_width(store: ThingsStore, scope: Seq<String>) -> nat {
    (if scope.len() == 0 { 0 } else { crate::lookup::width_needed(store.short_ids@, scope) }) as nat
}

/// What `projects list` does on the day `today`: the open projects, the
/// ones without an area first, then one group per area in area order.
pub open spec fn project_list_outcome(p: CommandPlan, store: ThingsStore, detailed: bool, today: i64, no_color: bool) -> bool {
    &&& p.notes@.len() == 0
    &&& p.changes is None
    &&& exists|ps: Seq<&Task>, g: Seq<Seq<char>>, scope: Seq<String>| {
        &&& crate::query::shows(store.tasks_by_uuid@, |t: Task| crate::query::in_project_list(Some(crate::wire::TaskStatus::Incomplete), t), ps)
        &&& crate::query::ranked(|t: Task| crate::query::index_rank(t), ps)
        &&& groups_sorted(store, g)
        &&& (forall|x: Seq<char>| g.contains(x) <==> exists|i: int| 0 <= i < ps.len() && crate::props::opt_view((*ps[i]).area) == Some(x))
        &&& views(scope) == ps.map_values(|t: &Task| t.uuid@) + g
        &&& views(p.done_lines@) == #[trigger] project_list_lines(
            store,
            ps,
            g,
            scope_width(store, scope),
            detailed,
            today,
            no_color,
        )
    }
}

fn in_area<'a>(ps: &Vec<&'a Task>, a: &Option<String>) -> (r: Vec<&'a Task>)
    ensures
        r@ == projects_in_area(ps@, crate::props::opt_view(*a)),
{
    let mut r: Vec<&Task> = Vec::new();
    let mut i: usize = 0;
    proof {
        assert(ps@.take(0) =~= seq![]);
    }
    while i < ps.len()
        invariant
            i <= ps@.len(),
            r@ == projects_in_area(ps@.take(i as int), crate::props::opt_view(*a)),
        decreases ps@.len() - i,
    {
        proof {
            assert(ps@.take(i + 1).drop_last() =~= ps@.take(i as int));
            assert(ps@.take(i + 1).last() == ps@[i as int]);
        }
        let hit = match (&ps[i].area, a) {
            (Some(x), Some(y)) => same_text(x.as_str(), y.as_str()),
            (None, None) => true,
            _ => false,
        };
        if hit {
            r.push(ps[i]);
        }
        i += 1;
    }
    proof {
        assert(ps@.take(ps@.len() as int) =~= ps@);
    }
    r
}

fn push_entries(
    out: &mut Vec<String>,
    store: &ThingsStore,
    ps: &Vec<&Task>,
    indent: &str,
    width: usize,
    detailed: bool,
    today: i64,
    no_color: bool,
)
    requires
        store.wf(),
    ensures
        views(final(out)@) == views(old(out)@) + ps@.map_values(|p: &Task| project_entry(*store, *p, indent@, width as nat, detailed, today, no_color)),
{
    let ghost start = views(out@);
    let ghost f = |p: &Task| project_entry(*store, *p, indent@, width as nat, detailed, today, no_color);
    let mut i: usize = 0;
    while i < ps.len()
        invariant
            store.wf(),
            i <= ps@.len(),
            f == (|p: &Task| project_entry(*store, *p, indent@, width as nat, detailed, today, no_color)),
            views(out@) == start + ps@.take(i as int).map_values(f),
        decreases ps@.len() - i,
    {
        let ghost before = views(out@);
        let e = crate::listing::fmt_project_with_note(ps[i], store, indent, Some(width), true, detailed, today, no_color);
        out.push(e);
        proof {
            assert(ps@.take(i + 1) =~= ps@.take(i as int).push(ps@[i as int]));
            assert(ps@.take(i + 1).map_values(f) =~= ps@.take(i as int).map_values(f).push(f(ps@[i as int])));
            assert(views(out@) =~= before.push(e@));
        }
        i += 1;
    }
    proof {
        assert(ps@.take(ps@.len() as int) =~= ps@);
    }
}

fn push_groups(
    out: &mut Vec<String>,
    store: &ThingsStore,
    ps: &Vec<&Task>,
    g: &Vec<String>,
    k: usize,
    width: usize,
    detailed: bool,
    today: i64,
    no_color: bool,
)
    requires
        store.wf(),
        k <= g@.len(),
    ensures
        views(final(out)@) == views(old(out)@) + group_lines(*store, ps@, views(g@), k as int, width as nat, detailed, today, no_color),
    decreases g@.len() - k,
{
    let ghost start = views(out@);
    if k >= g.len() {
        proof {
            assert(views(out@) =~= start + seq![]);
        }
        return;
    }
    let a = &g[k];
    out.push(String::new());
    let title = store.resolve_area_title(a.as_str());
    let line = concat(
        concat(concat("  ", crate::common::id_prefix(a.as_str(), width, no_color).as_str()).as_str(), " ").as_str(),
        crate::common::paint(title.as_str(), crate::common::BOLD, no_color).as_str(),
    );
    out.push(line);
    let ghost head = views(out@);
    proof {
        reveal_strlit("");
        assert(""@ =~= seq![]);
        assert(head =~= start + seq![seq![], line@]);
    }
    let some_a: Option<String> = Some(a.clone());
    let members = in_area(ps, &some_a);
    push_entries(out, store, &members, "    ", width, detailed, today, no_color);
    let ghost mid = views(out@);
    push_groups(out, store, ps, g, k + 1, width, detailed, today, no_color);
    proof {
        assert(views(g@)[k as int] == a@);
        assert(views(out@) =~= start + (seq![seq![], line@]
            + projects_in_area(ps@, Some(a@)).map_values(|p: &Task| project_entry(*store, *p, "    "@, width as nat, detailed, today, no_color))
            + group_lines(*store, ps@, views(g@), k + 1, width as nat, detailed, today, no_color)));
    }
}

impl ProjectsListArgs {
    /// What `projects list` does on the day `today`; `detailed` adds the notes.
    pub fn plan(&self, store: &ThingsStore, detailed: bool, today: i64, no_color: bool) -> (p: CommandPlan)
        requires
            store.wf(),
        ensures
            project_list_outcome(p, *store, detailed, today, no_color),
    {
        let ps = store.projects(Some(crate::wire::TaskStatus::Incomplete));
        let mut out: Vec<String> = Vec::new();
        let areas = project_areas(&ps);
        let ghost av = views(areas@);
        let g = sort_groups(store, areas);
        let mut scope: Vec<String> = Vec::new();
        let mut i: usize = 0;
        while i < ps.len()
            invariant
                i <= ps@.len(),
                views(scope@) == ps@.take(i as int).map_values(|t: &Task| t.uuid@),
            decreases ps@.len() - i,
        {
            let ghost before = views(scope@);
            let u = ps[i].uuid.clone();
            scope.push(u);
            proof {
                assert(ps@.take(i + 1) =~= ps@.take(i as int).push(ps@[i as int]));
                assert(views(scope@) =~= before.push(u@));
                assert(ps@.take(i + 1).map_values(|t: &Task| t.uuid@) =~= before.push(ps@[i as int].uuid@));
            }
            i += 1;
        }
        let mut j: usize = 0;
        let ghost base = views(scope@);
        while j < g.len()
            invariant
                j <= g@.len(),
                views(scope@) == base + views(g@).take(j as int),
            decreases g@.len() - j,
        {
            let ghost before = views(scope@);
            let u = g[j].clone();
            scope.push(u);
            proof {
                assert(views(scope@) =~= before.push(u@));
                assert(views(g@).take(j + 1) =~= views(g@).take(j as int).push(g@[j as int]@));
            }
            j += 1;
        }
        proof {
            assert(ps@.take(ps@.len() as int) =~= ps@);
            assert(views(g@).take(g@.len() as int) =~= views(g@));
        }
        let width = store.unique_prefix_length(&scope);
        proof {
            assert(width as nat == scope_width(*store, scope@));
            assert(views(scope@) =~= ps@.map_values(|t: &Task| t.uuid@) + views(g@));
            assert forall|x: Seq<char>| views(g@).contains(x) <==> exists|i: int| 0 <= i < ps@.len() && crate::props::opt_view((*ps@[i]).area) == Some(x) by {
                assert(views(g@).contains(x) <==> av.contains(x));
            }
        }
        if ps.len() == 0 {
            out.push(dim("No active projects.", no_color));
            let p = CommandPlan { notes: Vec::new(), changes: None, done_lines: out, fail_prefix: String::new() };
            proof {
                assert(views(p.done_lines@) =~= project_list_lines(*store, ps@, views(g@), width as nat, detailed, today, no_color));
            }
            return p;
        }
        let header = concat(concat(concat(icons().project, " Projects  (").as_str(), crate::text::decimal_string(ps.len() as u64).as_str()).as_str(), ")");
        let codes = [crate::common::BOLD, crate::common::GREEN];
        out.push(crate::common::colored(header.as_str(), &codes, no_color));
        let ghost h = views(out@);
        let none: Option<String> = None;
        let loose = in_area(&ps, &none);
        if loose.len() > 0 {
            out.push(String::new());
            push_entries(&mut out, store, &loose, "  ", width, detailed, today, no_color);
        }
        let ghost h2 = views(out@);
        proof {
            reveal_strlit("");
            assert(""@ =~= seq![]);
            assert(codes@ =~= seq![crate::common::BOLD, crate::common::GREEN]);
            let lv = projects_in_area(ps@, None);
            assert(h2 =~= h + (if lv.len() > 0 {
                seq![seq![]] + lv.map_values(|p: &Task| project_entry(*store, *p, "  "@, width as nat, detailed, today, no_color))
            } else {
                seq![]
            }));
        }
        push_groups(&mut out, store, &ps, &g, 0, width, detailed, today, no_color);
        let p = CommandPlan { notes: Vec::new(), changes: None, done_lines: out, fail_prefix: String::new() };
        proof {
            assert(views(p.done_lines@) =~= project_list_lines(*store, ps@, views(g@), width as nat, detailed, today, no_color));
        }
        p
    }
}

impl ProjectsArgs {
    /// What `projects` does at `now_ms` on the day `today`: the
    /// subcommand's plan, or the list (with `--detailed` from either level).
    pub fn plan(&self, store: &ThingsStore, now_ms: i64, today: i64, no_color: bool) -> (p: CommandPlan)
        requires
            store.wf(),
        ensures
            match self.command {
                None => project_list_outcome(p, *store, self.detailed, today, no_color),
                Some(ProjectsSubcommand::List(a)) => project_list_outcome(p, *store, self.detailed || a.detailed, today, no_color),
                Some(ProjectsSubcommand::New(a)) => exists|wp: Result<i64, Seq<char>>, dp: Result<i64, Seq<char>>, u: Seq<char>|
                    project_when_ok(a.when, wp)
                    && (a.deadline_date matches Some(d) ==> day_result_ok(d@, "--deadline"@, dp))
                    && crate::ids::id_shaped(u)
                    && project_new_outcome(p, *store, a, now_ms, today, u, wp, dp, no_color),
                Some(ProjectsSubcommand::Edit(a)) => project_edit_outcome(p, *store, a, now_ms, no_color),
            },
    {
        match &self.command {
            None => ProjectsListArgs { detailed: false }.plan(store, self.detailed, today, no_color),
            Some(ProjectsSubcommand::List(a)) => a.plan(store, self.detailed || a.detailed, today, no_color),
            Some(ProjectsSubcommand::New(a)) => a.plan(store, now_ms, today, no_color),
            Some(ProjectsSubcommand::Edit(a)) => a.plan(store, now_ms, no_color),
        }
    }
}

} // verus!
