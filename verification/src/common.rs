//! Shared pieces of the command output: colors, icons, id columns, notes,
//! dates, and resolving tags by title or id prefix.

use vstd::prelude::*;
use vstd::string::StringSliceAdditionalSpecFns;
use chrono::{Datelike, TimeZone};
use crate::json::JsonValue;
use crate::keymap::KeyMap;
use crate::props::{utc_timestamp_valid, timestamp_representable};
use crate::store::{Task, Tag, ChecklistItem, task_in_someday};
use crate::things::ThingsStore;
use crate::query::{has_title, has_text};
use crate::lookup::contains_id;
use crate::prefixes::id_set;
use crate::keymap::distinct_keys;
use crate::text::{
    chars_of, concat, owned, take_chars, prefix_chars, spaces, repeat_space, trimmed, trim, eq_ascii_ci,
    eq_ignore_ascii_case, starts_with, comma_tokens, comma_separated, views,
};
use crate::props::{Props, prop};
use crate::json::{int_of, int_value};
use crate::wire::TaskStatus;

verus! {

pub const RESET: &'static str = "\x1b[0m";
pub const BOLD: &'static str = "\x1b[1m";
pub const DIM: &'static str = "\x1b[2m";
pub const CYAN: &'static str = "\x1b[36m";
pub const YELLOW: &'static str = "\x1b[33m";
pub const GREEN: &'static str = "\x1b[32m";
pub const BLUE: &'static str = "\x1b[34m";
pub const MAGENTA: &'static str = "\x1b[35m";
pub const RED: &'static str = "\x1b[31m";

/// The escape codes, one after another.
pub open spec fn joined_codes(codes: Seq<&str>) -> Seq<char>
    decreases codes.len(),
{
    if codes.len() == 0 {
        seq![]
    } else {
        joined_codes(codes.drop_last()) + codes.last()@
    }
}

/// `text` wrapped in the escape codes and a reset, or as it is without color.
pub open spec fn colored_text(text: Seq<char>, codes: Seq<&str>, no_color: bool) -> Seq<char> {
    if no_color {
        text
    } else {
        joined_codes(codes) + text + RESET@
    }
}

/// Wraps `text` in terminal color codes unless colors are off.
pub fn colored(text: &str, codes: &[&str], no_color: bool) -> (r: String)
    ensures
        r@ == colored_text(text@, codes@, no_color),
{
    if no_color {
        return owned(text);
    }
    let mut out = String::new();
    let mut i: usize = 0;
    while i < codes.len()
        invariant
            i <= codes@.len(),
            out@ == joined_codes(codes@.take(i as int)),
        decreases codes@.len() - i,
    {
        proof {
            assert(codes@.take(i + 1).drop_last() =~= codes@.take(i as int));
        }
        out = concat(out.as_str(), codes[i]);
        i += 1;
    }
    proof {
        assert(codes@.take(codes@.len() as int) =~= codes@);
    }
    let with_text = concat(out.as_str(), text);
    concat(with_text.as_str(), RESET)
}

/// The glyphs the views draw.
#[derive(Debug, Clone, Copy)]
pub struct Icons {
    pub task_open: &'static str,
    pub task_done: &'static str,
    pub task_someday: &'static str,
    pub task_canceled: &'static str,
    pub evening: &'static str,
    pub today: &'static str,
    pub project: &'static str,
    pub area: &'static str,
    pub tag: &'static str,
    pub inbox: &'static str,
    pub anytime: &'static str,
    pub upcoming: &'static str,
    pub progress_empty: &'static str,
    pub progress_quarter: &'static str,
    pub progress_half: &'static str,
    pub progress_three_quarter: &'static str,
    pub progress_full: &'static str,
    pub deadline: &'static str,
    pub done: &'static str,
    pub incomplete: &'static str,
    pub canceled: &'static str,
    pub deleted: &'static str,
    pub checklist_open: &'static str,
    pub checklist_done: &'static str,
    pub checklist_canceled: &'static str,
    pub separator: &'static str,
    pub divider: &'static str,
}

/// The icon set.
pub fn icons() -> (r: Icons)
    ensures
        r.task_open@ == "▢"@,
        r.task_done@ == "◼"@,
        r.task_someday@ == "⬚"@,
        r.task_canceled@ == "☒"@,
        r.evening@ == "☽"@,
        r.today@ == "⭑"@,
        r.project@ == "●"@,
        r.area@ == "◆"@,
        r.tag@ == "⌗"@,
        r.inbox@ == "⬓"@,
        r.anytime@ == "◌"@,
        r.upcoming@ == "▷"@,
        r.progress_empty@ == "◯"@,
        r.progress_quarter@ == "◔"@,
        r.progress_half@ == "◑"@,
        r.progress_three_quarter@ == "◕"@,
        r.progress_full@ == "◉"@,
        r.deadline@ == "⚑"@,
        r.done@ == "✓"@,
        r.incomplete@ == "↺"@,
        r.canceled@ == "☒"@,
        r.deleted@ == "×"@,
        r.checklist_open@ == "○"@,
        r.checklist_done@ == "●"@,
        r.checklist_canceled@ == "×"@,
        r.separator@ == "·"@,
        r.divider@ == "─"@,
{
    Icons {
        task_open: "▢",
        task_done: "◼",
        task_someday: "⬚",
        task_canceled: "☒",
        evening: "☽",
        today: "⭑",
        project: "●",
        area: "◆",
        tag: "⌗",
        inbox: "⬓",
        anytime: "◌",
        upcoming: "▷",
        progress_empty: "◯",
        progress_quarter: "◔",
        progress_half: "◑",
        progress_three_quarter: "◕",
        progress_full: "◉",
        deadline: "⚑",
        done: "✓",
        incomplete: "↺",
        canceled: "☒",
        deleted: "×",
        checklist_open: "○",
        checklist_done: "●",
        checklist_canceled: "×",
        separator: "·",
        divider: "─",
    }
}

/// `text` dimmed, unless colors are off.
pub fn dim(text: &str, no_color: bool) -> (r: String)
    ensures
        r@ == colored_text(text@, seq![DIM], no_color),
{
    let codes = [DIM];
    let r = colored(text, &codes, no_color);
    proof {
        assert(codes@ =~= seq![DIM]);
    }
    r
}

/// `text` in one color, unless colors are off.
pub fn paint(text: &str, code: &str, no_color: bool) -> (r: String)
    ensures
        r@ == colored_text(text@, seq![code], no_color),
{
    let codes = [code];
    let r = colored(text, &codes, no_color);
    proof {
        assert(codes@ =~= seq![code]);
    }
    r
}

/// The box drawn in front of a task.
pub open spec fn task_box_text(t: Task) -> Seq<char> {
    if t.status == TaskStatus::Completed {
        "◼"@
    } else if t.status == TaskStatus::Canceled {
        "☒"@
    } else if task_in_someday(t) {
        "⬚"@
    } else {
        "▢"@
    }
}

/// The box drawn in front of a task (`task_box`).
pub fn task_box(task: &Task) -> (r: &'static str)
    ensures
        r@ == task_box_text(*task),
{
    let ic = icons();
    if task.is_completed() {
        ic.task_done
    } else if task.is_canceled() {
        ic.task_canceled
    } else if task.in_someday() {
        ic.task_someday
    } else {
        ic.task_open
    }
}

/// The first `size` characters of an id, padded with spaces to `size` bytes.
pub open spec fn id_column(uuid: Seq<char>, size: nat) -> Seq<char> {
    let short = take_chars(uuid, size as int);
    let bytes = (vstd::utf8::encode_utf8(short).len() as usize) as nat;
    short + spaces(if bytes < size { (size - bytes) as nat } else { 0 })
}

/// The id column of a line: the start of the id, padded and dimmed.
pub fn id_prefix(uuid: &str, size: usize, no_color: bool) -> (r: String)
    ensures
        r@ == colored_text(id_column(uuid@, size as nat), seq![DIM], no_color),
{
    let short = prefix_chars(uuid, size);
    let st = short.as_str();
    proof {
        assert(st.spec_bytes() == vstd::utf8::encode_utf8(short@));
    }
    let bytes = st.len();
    let pad: usize = if bytes < size { size - bytes } else { 0 };
    let padded = concat(st, repeat_space(pad).as_str());
    dim(padded.as_str(), no_color)
}

/// The indent under an id column of `id_prefix_len` characters (and its gap).
pub open spec fn note_indent_width(id_prefix_len: Option<usize>) -> nat {
    let n = match id_prefix_len {
        Some(v) => v as nat,
        None => 0,
    };
    if n > 0 {
        if n + 1 > usize::MAX {
            usize::MAX as nat
        } else {
            n + 1
        }
    } else {
        0
    }
}

/// Spaces that line notes up under the title (`note_indent`).
pub fn note_indent(id_prefix_len: Option<usize>) -> (r: String)
    ensures
        r@ == spaces(note_indent_width(id_prefix_len)),
{
    let n: usize = match id_prefix_len {
        Some(v) => v,
        None => 0,
    };
    let width = n.saturating_add(if n > 0 { 1 } else { 0 });
    repeat_space(width)
}

/// The first `l` characters tell the checklist items apart.
pub open spec fn prefixes_distinct(items: Seq<ChecklistItem>, l: int) -> bool {
    forall|a: int, b: int|
        0 <= a < items.len() && 0 <= b < items.len() && a != b ==> take_chars(
            (#[trigger] items[a]).uuid@,
            l,
        ) != take_chars((#[trigger] items[b]).uuid@, l)
}

/// The id width of a checklist: the least length from 1 to 22 that tells
/// the items apart, 4 when none does, 0 for no items.
pub open spec fn checklist_width(items: Seq<ChecklistItem>) -> int {
    if items.len() == 0 {
        0
    } else if exists|l: int| 1 <= l <= 22 && prefixes_distinct(items, l) {
        choose|l: int| 1 <= l <= 22 && prefixes_distinct(items, l) && forall|m: int| 1 <= m < l ==> !prefixes_distinct(items, m)
    } else {
        4
    }
}

fn distinct_at(items: &Vec<ChecklistItem>, l: usize) -> (r: bool)
    ensures
        r == prefixes_distinct(items@, l as int),
{
    let mut shorts: Vec<String> = Vec::new();
    let mut i: usize = 0;
    while i < items.len()
        invariant
            i <= items@.len(),
            shorts@.len() == i,
            forall|k: int| 0 <= k < i ==> #[trigger] shorts@[k]@ == take_chars(items@[k].uuid@, l as int),
        decreases items@.len() - i,
    {
        shorts.push(prefix_chars(items[i].uuid.as_str(), l));
        i += 1;
    }
    let mut a: usize = 0;
    while a < shorts.len()
        invariant
            a <= shorts@.len(),
            shorts@.len() == items@.len(),
            forall|k: int| 0 <= k < items@.len() ==> #[trigger] shorts@[k]@ == take_chars(items@[k].uuid@, l as int),
            forall|x: int, y: int| 0 <= x < a && 0 <= y < items@.len() && x != y ==> take_chars(
                (#[trigger] items@[x]).uuid@,
                l as int,
            ) != take_chars((#[trigger] items@[y]).uuid@, l as int),
        decreases shorts@.len() - a,
    {
        let mut b: usize = 0;
        while b < shorts.len()
            invariant
                a < shorts@.len(),
                b <= shorts@.len(),
                shorts@.len() == items@.len(),
                forall|k: int| 0 <= k < items@.len() ==> #[trigger] shorts@[k]@ == take_chars(items@[k].uuid@, l as int),
                forall|y: int| 0 <= y < b && a != y ==> take_chars(items@[a as int].uuid@, l as int) != take_chars(
                    (#[trigger] items@[y]).uuid@,
                    l as int,
                ),
            decreases shorts@.len() - b,
        {
            if a != b && crate::text::same_text(shorts[a].as_str(), shorts[b].as_str()) {
                return false;
            }
            b += 1;
        }
        a += 1;
    }
    true
}

/// The id width of a checklist (`checklist_prefix_len`).
pub fn checklist_prefix_len(items: &Vec<ChecklistItem>) -> (r: usize)
    ensures
        r == checklist_width(items@),
{
    if items.len() == 0 {
        return 0;
    }
    let mut length: usize = 1;
    while length <= 22
        invariant
            1 <= length <= 23,
            items@.len() > 0,
            forall|m: int| 1 <= m < length ==> !prefixes_distinct(items@, m),
        decreases 23 - length,
    {
        if distinct_at(items, length) {
            proof {
                let l = length as int;
                assert(1 <= l <= 22 && prefixes_distinct(items@, l) && forall|m: int| 1 <= m < l ==> !prefixes_distinct(items@, m));
                let c = choose|c: int| 1 <= c <= 22 && prefixes_distinct(items@, c) && forall|m: int| 1 <= m < c ==> !prefixes_distinct(items@, m);
                if c < l {
                    assert(!prefixes_distinct(items@, c));
                }
                if c > l {
                    assert(!prefixes_distinct(items@, l));
                }
            }
            return length;
        }
        length += 1;
    }
    4
}

/// The icon of a checklist item.
pub open spec fn checklist_icon_text(item: ChecklistItem) -> Seq<char> {
    if item.status == TaskStatus::Completed {
        "●"@
    } else if item.status == TaskStatus::Canceled {
        "×"@
    } else {
        "○"@
    }
}

/// The dimmed icon of a checklist item (`checklist_icon`).
pub fn checklist_icon(item: &ChecklistItem, no_color: bool) -> (r: String)
    ensures
        r@ == colored_text(checklist_icon_text(*item), seq![DIM], no_color),
{
    let ic = icons();
    if item.is_completed() {
        dim(ic.checklist_done, no_color)
    } else if item.is_canceled() {
        dim(ic.checklist_canceled, no_color)
    } else {
        dim(ic.checklist_open, no_color)
    }
}

/// The date of a UTC timestamp as `YYYY-MM-DD`, as chrono formats it.
pub uninterp spec fn ymd_text(secs: i64) -> Seq<char>;

/// `DateTime::<Utc>::format("%Y-%m-%d")` of a representable timestamp; the
/// text depends on the timestamp alone.
#[verifier::external_body]
fn format_ymd(secs: i64) -> (r: String)
    requires
        utc_timestamp_valid(secs),
    ensures
        r@ == ymd_text(secs),
{
    chrono::DateTime::from_timestamp(secs, 0).unwrap().format("%Y-%m-%d").to_string()
}

/// An ASCII digit.
pub open spec fn is_digit(c: char) -> bool {
    '0' <= c && c <= '9'
}

/// The value of an ASCII digit.
pub open spec fn digit_value(c: char) -> int {
    (c as int) - ('0' as int)
}

/// Text in the form chrono writes `%Y-%m-%d`: the year, at least four
/// characters (digits, after a `+` or `-` sign when it has one); a dash; the
/// month, two digits from `01` to `12`; a dash; and the day, two digits from
/// `01` to `31`.
pub open spec fn ymd_shaped(s: Seq<char>) -> bool {
    let n = s.len() as int;
    &&& n >= 10
    &&& s[n - 6] == '-' && s[n - 3] == '-'
    &&& is_digit(s[n - 5]) && is_digit(s[n - 4]) && is_digit(s[n - 2]) && is_digit(s[n - 1])
    &&& 1 <= 10 * digit_value(s[n - 5]) + digit_value(s[n - 4]) <= 12
    &&& 1 <= 10 * digit_value(s[n - 2]) + digit_value(s[n - 1]) <= 31
    &&& forall|i: int| 0 <= i < n - 6 ==> is_digit(#[trigger] s[i]) || (i == 0 && (s[i] == '+' || s[i] == '-'))
}

/// `format("%Y-%m-%d")` of a timestamp in the machine's local time zone.
/// Which date it writes depends on that time zone, so it is not stated; what
/// is stated is the form chrono documents for these fields: a year of at
/// least four digits (signed outside 0 to 9999), a two-digit month and a
/// two-digit day, joined by dashes.
#[verifier::external_body]
fn format_ymd_local(secs: i64) -> (r: String)
    requires
        utc_timestamp_valid(secs),
    ensures
        ymd_shaped(r@),
{
    chrono::DateTime::from_timestamp(secs, 0).unwrap().with_timezone(&chrono::Local).format("%Y-%m-%d").to_string()
}

/// A date as `YYYY-MM-DD` (UTC), or nothing (`fmt_date`).
pub fn fmt_date(dt: Option<i64>) -> (r: String)
    ensures
        r@ == (match dt {
            Some(d) => if utc_timestamp_valid(d) {
                ymd_text(d)
            } else {
                seq![]
            },
            None => seq![],
        }),
{
    match dt {
        Some(d) => {
            if timestamp_representable(d) {
                format_ymd(d)
            } else {
                String::new()
            }
        },
        None => String::new(),
    }
}

/// A date as `YYYY-MM-DD` in local time, or nothing when there is no date or
/// it is not a representable instant. Which local date it is depends on the
/// machine's time zone; the text has the form of such a date.
pub fn fmt_date_local(dt: Option<i64>) -> (r: String)
    ensures
        match dt {
            Some(d) => if utc_timestamp_valid(d) {
                ymd_shaped(r@)
            } else {
                r@ == Seq::<char>::empty()
            },
            None => r@ == Seq::<char>::empty(),
        },
{
    match dt {
        Some(d) => {
            if timestamp_representable(d) {
                format_ymd_local(d)
            } else {
                String::new()
            }
        },
        None => String::new(),
    }
}

/// The deadline suffix of a line: red when past `today`, yellow otherwise.
pub open spec fn deadline_text(deadline: Option<i64>, today: i64, no_color: bool) -> Seq<char> {
    match deadline {
        None => seq![],
        Some(d) => " "@ + "⚑"@ + " due by "@ + colored_text(
            if utc_timestamp_valid(d) { ymd_text(d) } else { seq![] },
            seq![if d < today { RED } else { YELLOW }],
            no_color,
        ),
    }
}

/// The deadline suffix of a line (`fmt_deadline`), against the day `today`.
pub fn fmt_deadline(deadline: Option<i64>, today: i64, no_color: bool) -> (r: String)
    ensures
        r@ == deadline_text(deadline, today, no_color),
{
    match deadline {
        None => String::new(),
        Some(d) => {
            let color = if d < today { RED } else { YELLOW };
            let date = fmt_date(Some(d));
            let painted = paint(date.as_str(), color, no_color);
            let head = concat(concat(" ", icons().deadline).as_str(), " due by ");
            concat(head.as_str(), painted.as_str())
        },
    }
}

/// Whether new-task properties put it in Today: started in Anytime with a
/// start date on or before `today` (`is_today_from_props`).
pub open spec fn props_today(p: Props, today: i64) -> bool {
    let st = match prop(p, "st"@) {
        Some(v) => match int_of(v) {
            Some(x) => x,
            None => 0,
        },
        None => 0,
    };
    let sr = match prop(p, "sr"@) {
        Some(v) => int_of(v),
        None => None,
    };
    st == 1 && sr is Some && sr.unwrap() <= today
}

/// Whether task properties put the task in Today for the day `today`.
pub fn is_today_from_props(task_props: &KeyMap<JsonValue>, today: i64) -> (r: bool)
    requires
        task_props.wf(),
    ensures
        r == props_today(task_props@, today),
{
    let st: i64 = match task_props.get("st") {
        Some(v) => match v.as_i64() {
            Some(x) => x,
            None => 0,
        },
        None => 0,
    };
    if st != 1 {
        return false;
    }
    let sr = match task_props.get("sr") {
        Some(v) => v.as_i64(),
        None => None,
    };
    match sr {
        None => false,
        Some(x) => x <= today,
    }
}

/// The CRC-32 (IEEE) checksum of the UTF-8 bytes of a text, as crc32fast computes it.
pub uninterp spec fn crc32_of(text: Seq<char>) -> u32;

/// `crc32fast::hash` of the text's bytes; the checksum depends on the text alone.
#[verifier::external_body]
fn checksum(text: &str) -> (r: u32)
    ensures
        r == crc32_of(text@),
{
    crc32fast::hash(text.as_bytes())
}

/// The note value of a task: a text note with its checksum.
pub open spec fn note_value(text: Seq<char>, entries: Seq<(String, JsonValue)>) -> bool {
    &&& entries.len() == 4
    &&& entries[0].0@ == "_t"@
    &&& entries[0].1 matches JsonValue::Str(v) && v@ == "tx"@
    &&& entries[1].0@ == "t"@ && entries[1].1 == int_value(1)
    &&& entries[2].0@ == "ch"@ && entries[2].1 == int_value(crc32_of(text) as i64)
    &&& entries[3].0@ == "v"@
    &&& entries[3].1 matches JsonValue::Str(v) && v@ == text
}

/// The note value for a text (`task6_note`).
pub fn task6_note(value: &str) -> (r: JsonValue)
    ensures
        r matches JsonValue::Object(entries) && note_value(value@, entries@),
{
    let ch = checksum(value);
    let mut entries: Vec<(String, JsonValue)> = Vec::new();
    entries.push((owned("_t"), JsonValue::string("tx")));
    entries.push((owned("t"), JsonValue::integer(1)));
    entries.push((owned("ch"), JsonValue::integer(ch as i64)));
    entries.push((owned("v"), JsonValue::string(value)));
    JsonValue::Object(entries)
}

/// The value of a run of decimal digits.
pub open spec fn digits_value(s: Seq<char>) -> int
    decreases s.len(),
{
    if s.len() == 0 {
        0
    } else {
        10 * digits_value(s.drop_last()) + digit_value(s.last())
    }
}

/// Every character of `s` is a decimal digit.
pub open spec fn all_digits(s: Seq<char>) -> bool {
    forall|i: int| 0 <= i < s.len() ==> is_digit(#[trigger] s[i])
}

/// The integer a text spells as `str::parse::<i64>` reads it: an optional
/// `+` or `-` sign, then one or more decimal digits, with a value in the
/// `i64` range.
pub open spec fn parsed_i64(text: Seq<char>) -> Option<i64> {
    let signed = text.len() > 0 && (text[0] == '-' || text[0] == '+');
    let body = if signed { text.drop_first() } else { text };
    if body.len() > 0 && all_digits(body) {
        let v = if text[0] == '-' { -digits_value(body) } else { digits_value(body) };
        if i64::MIN <= v <= i64::MAX { Some(v as i64) } else { None }
    } else {
        None
    }
}

/// The value of digits is never negative, and never less than that of the
/// first of them.
proof fn lemma_digits_grow(s: Seq<char>, k: int)
    requires
        all_digits(s),
        0 <= k <= s.len(),
    ensures
        0 <= digits_value(s.take(k)) <= digits_value(s),
    decreases s.len(),
{
    if s.len() > 0 {
        let t = s.drop_last();
        assert(all_digits(t)) by {
            assert forall|i: int| 0 <= i < t.len() implies is_digit(#[trigger] t[i]) by {
                assert(t[i] == s[i]);
            }
        }
        assert(is_digit(s[s.len() - 1]));
        if k == s.len() {
            assert(s.take(k) =~= s);
            lemma_digits_grow(t, t.len() as int);
            assert(t.take(t.len() as int) =~= t);
        } else {
            lemma_digits_grow(t, k);
            assert(t.take(k) =~= s.take(k));
            lemma_digits_grow(t, t.len() as int);
            assert(t.take(t.len() as int) =~= t);
        }
    }
}

/// Reads the integer a text spells (`str::parse::<i64>`).
fn parse_i64(text: &str) -> (r: Option<i64>)
    ensures
        r == parsed_i64(text@),
{
    let cs = chars_of(text);
    let n = cs.len();
    if n == 0 {
        return None;
    }
    let neg = cs[0] == '-';
    let start: usize = if cs[0] == '-' || cs[0] == '+' { 1 } else { 0 };
    let ghost body = cs@.subrange(start as int, n as int);
    proof {
        if start == 1 {
            assert(body =~= text@.drop_first());
        } else {
            assert(body =~= text@);
        }
    }
    if start == n {
        return None;
    }
    let mut acc: i128 = 0;
    let mut i: usize = start;
    proof {
        assert(body.take(0) =~= Seq::<char>::empty());
    }
    while i < n
        invariant
            cs@ == text@,
            n == cs@.len(),
            start <= i <= n,
            body == cs@.subrange(start as int, n as int),
            text@.len() > 0,
            neg == (text@[0] == '-'),
            body == (if text@[0] == '-' || text@[0] == '+' { text@.drop_first() } else { text@ }),
            body.len() > 0,
            all_digits(body.take(i - start)),
            acc == digits_value(body.take(i - start)),
            0 <= acc <= 9223372036854775808i128,
        decreases n - i,
    {
        let c = cs[i];
        let ghost k = i - start;
        if !('0' <= c && c <= '9') {
            proof {
                assert(body[k] == c);
                assert(!all_digits(body));
            }
            return None;
        }
        let d: i128 = ((c as u32) - ('0' as u32)) as i128;
        proof {
            assert(body[k] == c);
            assert(body.take(k + 1).drop_last() =~= body.take(k));
            assert(body.take(k + 1).last() == c);
            assert(all_digits(body.take(k + 1))) by {
                assert forall|j: int| 0 <= j < k + 1 implies is_digit(#[trigger] body.take(k + 1)[j]) by {
                    if j < k {
                        assert(body.take(k + 1)[j] == body.take(k)[j]);
                    }
                }
            }
        }
        acc = acc * 10 + d;
        if acc > 9223372036854775808i128 {
            proof {
                if all_digits(body) {
                    lemma_digits_grow(body, k + 1);
                }
            }
            return None;
        }
        i += 1;
    }
    proof {
        assert(body.take(n - start) =~= body);
    }
    let v: i128 = if neg { -acc } else { acc };
    if v < -9223372036854775808i128 || v > 9223372036854775807i128 {
        None
    } else {
        Some(v as i64)
    }
}

/// The system clock's reading against the Unix epoch
/// (`SystemTime::now().duration_since(UNIX_EPOCH)`): whether it lies before
/// the epoch, and the whole seconds and the nanoseconds beyond them of its
/// distance from it. Which reading it is is not stated: it is the time.
#[verifier::external_body]
fn clock_reading() -> (r: (bool, u64, u32))
    ensures
        r.2 < 1_000_000_000,
{
    match std::time::SystemTime::now().duration_since(std::time::UNIX_EPOCH) {
        Ok(d) => (false, d.as_secs(), d.subsec_nanos()),
        Err(e) => (true, e.duration().as_secs(), e.duration().subsec_nanos()),
    }
}

/// The clock reading in whole seconds since the epoch, rounded down
/// (clamped to the `i64` range).
fn clock_seconds() -> (r: i64) {
    let (before, secs, nanos) = clock_reading();
    if !before {
        if secs > 0x7fff_ffff_ffff_ffffu64 {
            i64::MAX
        } else {
            secs as i64
        }
    } else {
        let back: i128 = (secs as i128) + (if nanos > 0 { 1i128 } else { 0i128 });
        if back > 0x8000_0000_0000_0000i128 {
            i64::MIN
        } else {
            (-back) as i64
        }
    }
}

/// UTC midnight of the day of `ts` (clamped at the smallest timestamp).
pub open spec fn day_start(ts: i64) -> i64 {
    let d = ts - ts % 86400;
    if d < i64::MIN {
        i64::MIN
    } else {
        d as i64
    }
}

fn midnight(ts: i64) -> (r: i64)
    ensures
        r == day_start(ts),
{
    let rem: i128 = if ts >= 0 {
        let a: u64 = ts as u64;
        let r0: u64 = a % 86400;
        proof {
            vstd::arithmetic::div_mod::lemma_fundamental_div_mod_converse(ts as int, 86400, (a / 86400) as int, r0 as int);
        }
        r0 as i128
    } else {
        let a: u128 = (-(ts as i128)) as u128;
        let r0: u128 = a % 86400;
        let q: u128 = a / 86400;
        if r0 == 0 {
            proof {
                vstd::arithmetic::div_mod::lemma_fundamental_div_mod_converse(ts as int, 86400, -(q as int), 0);
            }
            0
        } else {
            proof {
                vstd::arithmetic::div_mod::lemma_fundamental_div_mod_converse(ts as int, 86400, -(q as int) - 1, 86400 - r0 as int);
            }
            86400 - (r0 as i128)
        }
    };
    let d: i128 = (ts as i128) - rem;
    if d < (i64::MIN as i128) {
        i64::MIN
    } else {
        d as i64
    }
}

/// Today's UTC midnight: from the override text (`THINGS3_TODAY`) when it
/// spells a representable timestamp, else from the clock reading `now`.
pub open spec fn today_from(override_text: Option<Seq<char>>, now: i64) -> i64 {
    match override_text {
        Some(t) => match parsed_i64(trimmed(t)) {
            Some(ts) => if utc_timestamp_valid(ts) {
                day_start(ts)
            } else {
                day_start(now)
            },
            None => day_start(now),
        },
        None => day_start(now),
    }
}

/// Today's UTC midnight, given the override text and the clock reading.
pub fn today_utc_at(override_text: Option<&str>, now: i64) -> (r: i64)
    ensures
        r == today_from(
            match override_text {
                Some(t) => Some(t@),
                None => None,
            },
            now,
        ),
{
    match override_text {
        Some(t) => {
            let tt = trim(t);
            match parse_i64(tt.as_str()) {
                Some(ts) => {
                    if timestamp_representable(ts) {
                        midnight(ts)
                    } else {
                        midnight(now)
                    }
                },
                None => midnight(now),
            }
        },
        None => midnight(now),
    }
}

/// The view of an optional text.
pub open spec fn text_opt(o: Option<&str>) -> Option<Seq<char>> {
    match o {
        Some(t) => Some(t@),
        None => None,
    }
}

/// The day the override text names: UTC midnight of the timestamp it
/// spells, when it spells a representable one.
pub open spec fn override_day(override_text: Option<Seq<char>>) -> Option<i64> {
    match override_text {
        Some(t) => match parsed_i64(trimmed(t)) {
            Some(ts) => if utc_timestamp_valid(ts) { Some(day_start(ts)) } else { None },
            None => None,
        },
        None => None,
    }
}

/// Today's UTC midnight: from the override text when it spells a
/// representable timestamp (the clock is not read then); else from the
/// clock's reading.
pub fn today_utc(override_text: Option<&str>) -> (r: i64)
    ensures
        match override_day(text_opt(override_text)) {
            Some(d) => r == d,
            None => exists|now: i64| r == #[trigger] today_from(text_opt(override_text), now),
        },
{
    match override_text {
        Some(t) => {
            let tt = trim(t);
            match parse_i64(tt.as_str()) {
                Some(ts) => {
                    if timestamp_representable(ts) {
                        return midnight(ts);
                    }
                },
                None => {},
            }
        },
        None => {},
    }
    let now = clock_seconds();
    let r = today_utc_at(override_text, now);
    proof {
        assert(r == today_from(text_opt(override_text), now));
    }
    r
}

/// The year, month and day a `YYYY-MM-DD` text spells, as chrono parses it.
pub uninterp spec fn ymd_parsed(text: Seq<char>) -> Option<(i32, u32, u32)>;

/// `NaiveDate::parse_from_str(text, "%Y-%m-%d")`; the answer depends on the text alone.
#[verifier::external_body]
fn parse_ymd(text: &str) -> (r: Option<(i32, u32, u32)>)
    ensures
        r == ymd_parsed(text@),
{
    match chrono::NaiveDate::parse_from_str(text, "%Y-%m-%d") {
        Ok(d) => Some((d.year(), d.month(), d.day())),
        Err(_) => None,
    }
}

/// The days from 1 January 1970 to the given day of the proleptic Gregorian
/// calendar.
pub open spec fn days_from_civil(y: int, m: int, d: int) -> int {
    let yy = if m <= 2 { y - 1 } else { y };
    let era = yy / 400;
    let yoe = yy - era * 400;
    let mp = (m + 9) % 12;
    let doy = (153 * mp + 2) / 5 + d - 1;
    let doe = yoe * 365 + yoe / 4 - yoe / 100 + doy;
    era * 146097 + doe - 719468
}

/// The timestamp of UTC midnight of the given day.
pub open spec fn utc_midnight(y: int, m: int, d: int) -> int {
    days_from_civil(y, m, d) * 86400
}

/// Local midnight of a calendar day, as a timestamp (`Local.from_local_datetime`).
/// Which instant it is depends on the machine's time zone, so it is not
/// stated; a local offset lies strictly within a day of UTC (chrono's
/// `FixedOffset`), so the instant lies strictly within a day of the day's
/// UTC midnight. None where that local time does not exist or is ambiguous.
#[verifier::external_body]
fn local_midnight(y: i32, m: u32, d: u32) -> (r: Option<i64>)
    ensures
        r matches Some(ts) ==> utc_midnight(y as int, m as int, d as int) - 86400 < ts < utc_midnight(y as int, m as int, d as int) + 86400,
{
    let start = chrono::NaiveDate::from_ymd_opt(y, m, d)?.and_hms_opt(0, 0, 0)?;
    match chrono::Local.from_local_datetime(&start).single() {
        Some(t) => Some(t.timestamp()),
        None => None,
    }
}

/// The message for a day that does not parse.
pub open spec fn invalid_day_text(label: Seq<char>, day: Seq<char>) -> Seq<char> {
    "Invalid "@ + label + " date: "@ + day + " (expected YYYY-MM-DD)"@
}

/// A timestamp that can be local midnight of the day `t` spells: strictly
/// within a day of that day's UTC midnight.
pub open spec fn near_day(t: Seq<char>, v: i64) -> bool {
    match ymd_parsed(t) {
        Some((y, m, d)) => utc_midnight(y as int, m as int, d as int) - 86400 < v < utc_midnight(y as int, m as int, d as int) + 86400,
        None => false,
    }
}

/// Parses a `YYYY-MM-DD` option into local midnight (`parse_day`): none for
/// no day; for a day that parses, its local midnight (which instant that is
/// depends on the time zone: it lies strictly within a day of the day's UTC
/// midnight); otherwise, or where that local time does not exist, the
/// message that the day is invalid.
pub fn parse_day(day: Option<&str>, label: &str) -> (r: Result<Option<i64>, String>)
    ensures
        match day {
            None => r == Ok::<Option<i64>, String>(None),
            Some(t) => match r {
                Ok(v) => v matches Some(x) && near_day(t@, x),
                Err(m) => m@ == invalid_day_text(label@, t@),
            },
        },
{
    match day {
        None => Ok(None),
        Some(t) => {
            let msg = concat(
                concat(concat(concat("Invalid ", label).as_str(), " date: ").as_str(), t).as_str(),
                " (expected YYYY-MM-DD)",
            );
            match parse_ymd(t) {
                None => Err(msg),
                Some((y, m, d)) => match local_midnight(y, m, d) {
                    Some(ts) => Ok(Some(ts)),
                    None => Err(msg),
                },
            }
        },
    }
}

/// A tag with a title.
pub open spec fn titled_tag(tags: Map<Seq<char>, Tag>, k: Seq<char>) -> bool {
    tags.contains_key(k) && has_title(tags[k].title@)
}

/// A titled tag whose title is `ident` up to ASCII case, or (`by_title` off)
/// whose id starts with `ident`.
pub open spec fn tag_hit(tags: Map<Seq<char>, Tag>, ident: Seq<char>, by_title: bool, k: Seq<char>) -> bool {
    &&& titled_tag(tags, k)
    &&& if by_title {
        eq_ascii_ci(tags[k].title@, ident)
    } else {
        ident.is_prefix_of(k)
    }
}

/// Some tag is a hit.
pub open spec fn some_hit(tags: Map<Seq<char>, Tag>, ident: Seq<char>, by_title: bool) -> bool {
    exists|k: Seq<char>| #[trigger] tag_hit(tags, ident, by_title, k)
}

/// Two different tags are hits.
pub open spec fn two_hits(tags: Map<Seq<char>, Tag>, ident: Seq<char>, by_title: bool) -> bool {
    exists|k1: Seq<char>, k2: Seq<char>|
        #[trigger] tag_hit(tags, ident, by_title, k1) && #[trigger] tag_hit(tags, ident, by_title, k2) && k1 != k2
}

/// The tag `ident` names: the one titled so (up to ASCII case), else the one
/// whose id it begins; or the message when there is none or more than one.
pub open spec fn tag_match(tags: Map<Seq<char>, Tag>, ident: Seq<char>) -> Result<Seq<char>, Seq<char>> {
    if some_hit(tags, ident, true) {
        if two_hits(tags, ident, true) {
            Err("Ambiguous tag title: "@ + ident)
        } else {
            Ok(choose|k: Seq<char>| tag_hit(tags, ident, true, k))
        }
    } else if some_hit(tags, ident, false) {
        if two_hits(tags, ident, false) {
            Err("Ambiguous tag UUID prefix: "@ + ident)
        } else {
            Ok(choose|k: Seq<char>| tag_hit(tags, ident, false, k))
        }
    } else {
        Err("Tag not found: "@ + ident)
    }
}

fn is_hit(k: &String, t: &Tag, ident: &str, by_title: bool) -> (b: bool)
    ensures
        b == (has_title(t.title@) && if by_title {
            eq_ascii_ci(t.title@, ident@)
        } else {
            ident@.is_prefix_of(k@)
        }),
{
    if !has_text(&t.title) {
        return false;
    }
    if by_title {
        eq_ignore_ascii_case(t.title.as_str(), ident)
    } else {
        starts_with(k.as_str(), ident)
    }
}

/// The first hit among the tags, and whether there is a second one.
fn scan_hits(tags: &KeyMap<Tag>, ident: &str, by_title: bool) -> (r: (Option<usize>, bool))
    requires
        tags.wf(),
    ensures
        r.0 is None <==> !some_hit(tags@, ident@, by_title),
        match r.0 {
            Some(i) => i < tags.entries_view().len() && tag_hit(tags@, ident@, by_title, tags.entries_view()[i as int].0@),
            None => true,
        },
        r.1 <==> two_hits(tags@, ident@, by_title),
{
    proof {
        tags.lemma_entries();
    }
    let ghost es = tags.entries_view();
    let ghost m = tags@;
    let mut first: Option<usize> = None;
    let mut many = false;
    let mut j: usize = 0;
    while j < tags.len()
        invariant
            tags.wf(),
            es == tags.entries_view(),
            m == tags@,
            j <= es.len(),
            forall|y: int| 0 <= y < es.len() ==> #[trigger] m.contains_key(es[y].0@) && m[es[y].0@] == es[y].1,
            first is None <==> forall|y: int| 0 <= y < j ==> !tag_hit(m, ident@, by_title, #[trigger] es[y].0@),
            match first {
                Some(i) => i < j && tag_hit(m, ident@, by_title, es[i as int].0@),
                None => true,
            },
            many <==> exists|x: int, y: int|
                0 <= x < y < j && tag_hit(m, ident@, by_title, #[trigger] es[x].0@) && tag_hit(m, ident@, by_title, #[trigger] es[y].0@),
        decreases es.len() - j,
    {
        let (k, t) = tags.entry(j);
        let hit = is_hit(k, t, ident, by_title);
        let ghost old_first = first;
        let ghost old_many = many;
        if hit {
            match first {
                None => {
                    first = Some(j);
                },
                Some(i) => {
                    proof {
                        assert(tag_hit(m, ident@, by_title, es[i as int].0@));
                        assert(tag_hit(m, ident@, by_title, es[j as int].0@));
                    }
                    many = true;
                },
            }
        }
        proof {
            if !hit {
                assert(!tag_hit(m, ident@, by_title, es[j as int].0@));
            }
            if many && !old_many {
                assert(exists|x: int, y: int|
                    0 <= x < y < j + 1 && tag_hit(m, ident@, by_title, #[trigger] es[x].0@) && tag_hit(m, ident@, by_title, #[trigger] es[y].0@));
            }
            if !many {
                assert forall|x: int, y: int| 0 <= x < y < j + 1 && tag_hit(m, ident@, by_title, #[trigger] es[x].0@) implies !tag_hit(m, ident@, by_title, #[trigger] es[y].0@) by {
                    if y == j {
                        assert(old_first is Some || x >= j);
                    }
                }
            }
        }
        j += 1;
    }
    proof {
        if first is None {
            assert forall|k: Seq<char>| !tag_hit(m, ident@, by_title, k) by {
                if tag_hit(m, ident@, by_title, k) {
                    let y = choose|y: int| 0 <= y < es.len() && #[trigger] es[y].0@ == k;
                }
            }
        }
        if many {
            let (x, y) = choose|x: int, y: int|
                0 <= x < y < es.len() && tag_hit(m, ident@, by_title, #[trigger] es[x].0@) && tag_hit(m, ident@, by_title, #[trigger] es[y].0@);
            assert(es[x].0@ != es[y].0@);
            assert(two_hits(m, ident@, by_title));
        } else {
            if two_hits(m, ident@, by_title) {
                let (k1, k2) = choose|k1: Seq<char>, k2: Seq<char>|
                    #[trigger] tag_hit(m, ident@, by_title, k1) && #[trigger] tag_hit(m, ident@, by_title, k2) && k1 != k2;
                let x = choose|x: int| 0 <= x < es.len() && #[trigger] es[x].0@ == k1;
                let y = choose|y: int| 0 <= y < es.len() && #[trigger] es[y].0@ == k2;
                if x < y {
                    assert(tag_hit(m, ident@, by_title, es[x].0@) && tag_hit(m, ident@, by_title, es[y].0@));
                } else {
                    assert(tag_hit(m, ident@, by_title, es[y].0@) && tag_hit(m, ident@, by_title, es[x].0@));
                }
            }
        }
    }
    (first, many)
}

fn match_tag<'a>(tags: &'a KeyMap<Tag>, ident: &str) -> (r: Result<&'a Tag, String>)
    requires
        tags.wf(),
        forall|k: Seq<char>| #[trigger] tags@.contains_key(k) ==> tags@[k].uuid@ == k,
    ensures
        match r {
            Ok(t) => tag_match(tags@, ident@) == Ok::<Seq<char>, Seq<char>>(t.uuid@) && tags@.contains_key(t.uuid@)
                && tags@[t.uuid@] == *t,
            Err(m) => tag_match(tags@, ident@) == Err::<Seq<char>, Seq<char>>(m@),
        },
{
    proof {
        tags.lemma_entries();
    }
    let (first, many) = scan_hits(tags, ident, true);
    match first {
        Some(i) => {
            if many {
                return Err(concat("Ambiguous tag title: ", ident));
            }
            let (k, t) = tags.entry(i);
            proof {
                let c = choose|c: Seq<char>| tag_hit(tags@, ident@, true, c);
                if c != k@ {
                    assert(tag_hit(tags@, ident@, true, k@));
                    assert(two_hits(tags@, ident@, true));
                }
            }
            return Ok(t);
        },
        None => {},
    }
    let (first2, many2) = scan_hits(tags, ident, false);
    match first2 {
        Some(i) => {
            if many2 {
                return Err(concat("Ambiguous tag UUID prefix: ", ident));
            }
            let (k, t) = tags.entry(i);
            proof {
                let c = choose|c: Seq<char>| tag_hit(tags@, ident@, false, c);
                if c != k@ {
                    assert(tag_hit(tags@, ident@, false, k@));
                    assert(two_hits(tags@, ident@, false));
                }
            }
            Ok(t)
        },
        None => Err(concat("Tag not found: ", ident)),
    }
}

/// Finds one tag by title (up to ASCII case) or id prefix (`resolve_single_tag`).
pub fn resolve_single_tag<'a>(store: &'a ThingsStore, identifier: &str) -> (r: (Option<&'a Tag>, String))
    requires
        store.wf(),
    ensures
        match tag_match(store.tags_by_uuid@, trimmed(identifier@)) {
            Ok(k) => r.0 matches Some(t) && *t == store.tags_by_uuid@[k] && r.1@.len() == 0,
            Err(m) => r.0 is None && r.1@ == m,
        },
{
    let ident = trim(identifier);
    match match_tag(&store.tags_by_uuid, ident.as_str()) {
        Ok(t) => (Some(t), String::new()),
        Err(m) => (None, m),
    }
}

/// The ids of the tags the tokens name, each once, in the order first named;
/// or the message of the first token that names none or several.
pub open spec fn tag_ids_from(tags: Map<Seq<char>, Tag>, tokens: Seq<Seq<char>>) -> Result<Seq<Seq<char>>, Seq<char>>
    decreases tokens.len(),
{
    if tokens.len() == 0 {
        Ok(seq![])
    } else {
        match tag_ids_from(tags, tokens.drop_last()) {
            Err(m) => Err(m),
            Ok(ids) => match tag_match(tags, tokens.last()) {
                Err(m) => Err(m),
                Ok(k) => Ok(
                    if ids.contains(k) {
                        ids
                    } else {
                        ids.push(k)
                    },
                ),
            },
        }
    }
}

proof fn lemma_fold_err(tags: Map<Seq<char>, Tag>, s: Seq<Seq<char>>, i: int, m: Seq<char>)
    requires
        0 <= i <= s.len(),
        tag_ids_from(tags, s.take(i)) == Err::<Seq<Seq<char>>, Seq<char>>(m),
    ensures
        tag_ids_from(tags, s) == Err::<Seq<Seq<char>>, Seq<char>>(m),
    decreases s.len() - i,
{
    if i < s.len() {
        assert(s.take(i + 1).drop_last() =~= s.take(i));
        lemma_fold_err(tags, s, i + 1, m);
    } else {
        assert(s.take(i) =~= s);
    }
}

/// Resolves a comma-separated list of tag titles or id prefixes (`resolve_tag_ids`).
pub fn resolve_tag_ids(store: &ThingsStore, raw_tags: &str) -> (r: (Vec<String>, String))
    requires
        store.wf(),
    ensures
        match tag_ids_from(store.tags_by_uuid@, comma_tokens(raw_tags@)) {
            Ok(ids) => views(r.0@) == ids && r.1@.len() == 0,
            Err(m) => r.0@.len() == 0 && r.1@ == m,
        },
{
    let tokens = comma_separated(raw_tags);
    let ghost ts = views(tokens@);
    let mut resolved: Vec<String> = Vec::new();
    let mut i: usize = 0;
    proof {
        assert(ts.take(0).len() == 0);
        assert(views(resolved@) =~= Seq::<Seq<char>>::empty());
    }
    while i < tokens.len()
        invariant
            store.wf(),
            ts == views(tokens@),
            ts == comma_tokens(raw_tags@),
            i <= tokens@.len(),
            tag_ids_from(store.tags_by_uuid@, ts.take(i as int)) == Ok::<Seq<Seq<char>>, Seq<char>>(views(resolved@)),
        decreases tokens@.len() - i,
    {
        proof {
            assert(ts.take(i + 1).drop_last() =~= ts.take(i as int));
            assert(ts.take(i + 1).last() == tokens@[i as int]@);
        }
        match match_tag(&store.tags_by_uuid, tokens[i].as_str()) {
            Err(m) => {
                proof {
                    lemma_fold_err(store.tags_by_uuid@, ts, i + 1, m@);
                }
                return (Vec::new(), m);
            },
            Ok(t) => {
                let seen = contains_id(&resolved, t.uuid.as_str());
                proof {
                    assert(seen == views(resolved@).contains(t.uuid@)) by {
                        if seen {
                            let a = choose|a: int| 0 <= a < resolved@.len() && #[trigger] resolved@[a]@ == t.uuid@;
                            assert(views(resolved@)[a] == t.uuid@);
                        }
                        if views(resolved@).contains(t.uuid@) {
                            let a = choose|a: int| 0 <= a < views(resolved@).len() && views(resolved@)[a] == t.uuid@;
                            assert(resolved@[a]@ == t.uuid@);
                        }
                    }
                }
                if !seen {
                    let ghost before = resolved@;
                    resolved.push(t.uuid.clone());
                    proof {
                        assert(views(resolved@) =~= views(before).push(t.uuid@));
                    }
                }
            },
        }
        i += 1;
    }
    proof {
        assert(ts.take(tokens@.len() as int) =~= ts);
    }
    (resolved, String::new())
}

/// A failed tag resolution always says why.
pub proof fn lemma_tag_ids_msg(tags: Map<Seq<char>, Tag>, tokens: Seq<Seq<char>>)
    ensures
        tag_ids_from(tags, tokens) matches Err(m) ==> m.len() > 0,
    decreases tokens.len(),
{
    reveal_strlit("Ambiguous tag title: ");
    reveal_strlit("Ambiguous tag UUID prefix: ");
    reveal_strlit("Tag not found: ");
    if tokens.len() > 0 {
        lemma_tag_ids_msg(tags, tokens.drop_last());
    }
}

} // verus!
