//! Things Cloud sync protocol wire-format values.
//!
//! A history item maps object ids to `{ "t": operation, "e": entity, "p": properties }`;
//! replaying the items in order yields the current state.

use vstd::prelude::*;
use crate::json::{JsonValue, entry_lookup, int_of};
use crate::keymap::KeyMap;
use crate::text::same_text;

verus! {

/// The operation carried by a wire object (`"t"`).
#[derive(Debug, Clone, Copy, PartialEq, Eq, Structural)]
pub enum OperationType {
    Create,
    Update,
    Delete,
    Unknown(i32),
}

/// The value that the wire code `v` stands for.
pub open spec fn operation_of(v: i32) -> OperationType {
    if v == 0 {
        OperationType::Create
    } else if v == 1 {
        OperationType::Update
    } else if v == 2 {
        OperationType::Delete
    } else {
        OperationType::Unknown(v)
    }
}

/// The wire code of a value.
pub open spec fn operation_code(x: OperationType) -> i32 {
    match x {
        OperationType::Create => 0,
        OperationType::Update => 1,
        OperationType::Delete => 2,
        OperationType::Unknown(other) => other,
    }
}

impl From<i32> for OperationType {
    fn from(value: i32) -> (r: Self) {
        match value {
            0 => OperationType::Create,
            1 => OperationType::Update,
            2 => OperationType::Delete,
            other => OperationType::Unknown(other),
        }
    }
}

impl vstd::std_specs::convert::FromSpecImpl<i32> for OperationType {
    open spec fn obeys_from_spec() -> bool {
        true
    }

    open spec fn from_spec(v: i32) -> Self {
        operation_of(v)
    }
}

impl From<OperationType> for i32 {
    fn from(value: OperationType) -> (r: i32) {
        match value {
            OperationType::Create => 0,
            OperationType::Update => 1,
            OperationType::Delete => 2,
            OperationType::Unknown(other) => other,
        }
    }
}

impl vstd::std_specs::convert::FromSpecImpl<OperationType> for i32 {
    open spec fn obeys_from_spec() -> bool {
        true
    }

    open spec fn from_spec(v: OperationType) -> Self {
        operation_code(v)
    }
}

/// Reading a wire code and writing it back gives the same code.
pub proof fn lemma_operation_code_round_trip(v: i32)
    ensures
        operation_code(operation_of(v)) == v,
{
}

/// Writing a value and reading its code back gives the same value, unless it is
/// an `Unknown` that carries one of the known codes.
pub proof fn lemma_operation_value_round_trip(x: OperationType)
    requires
        x matches OperationType::Unknown(v) ==> v != 0 && v != 1 && v != 2,
    ensures
        operation_of(operation_code(x)) == x,
{
}

/// The kind of a task object (`"tp"`).
#[derive(Debug, Clone, Copy, PartialEq, Eq, Structural)]
pub enum TaskType {
    Todo,
    Project,
    Heading,
    Unknown(i32),
}

/// The value that the wire code `v` stands for.
pub open spec fn task_type_of(v: i32) -> TaskType {
    if v == 0 {
        TaskType::Todo
    } else if v == 1 {
        TaskType::Project
    } else if v == 2 {
        TaskType::Heading
    } else {
        TaskType::Unknown(v)
    }
}

/// The wire code of a value.
pub open spec fn task_type_code(x: TaskType) -> i32 {
    match x {
        TaskType::Todo => 0,
        TaskType::Project => 1,
        TaskType::Heading => 2,
        TaskType::Unknown(other) => other,
    }
}

impl From<i32> for TaskType {
    fn from(value: i32) -> (r: Self) {
        match value {
            0 => TaskType::Todo,
            1 => TaskType::Project,
            2 => TaskType::Heading,
            other => TaskType::Unknown(other),
        }
    }
}

impl vstd::std_specs::convert::FromSpecImpl<i32> for TaskType {
    open spec fn obeys_from_spec() -> bool {
        true
    }

    open spec fn from_spec(v: i32) -> Self {
        task_type_of(v)
    }
}

impl From<TaskType> for i32 {
    fn from(value: TaskType) -> (r: i32) {
        match value {
            TaskType::Todo => 0,
            TaskType::Project => 1,
            TaskType::Heading => 2,
            TaskType::Unknown(other) => other,
        }
    }
}

impl vstd::std_specs::convert::FromSpecImpl<TaskType> for i32 {
    open spec fn obeys_from_spec() -> bool {
        true
    }

    open spec fn from_spec(v: TaskType) -> Self {
        task_type_code(v)
    }
}

/// Reading a wire code and writing it back gives the same code.
pub proof fn lemma_task_type_code_round_trip(v: i32)
    ensures
        task_type_code(task_type_of(v)) == v,
{
}

/// Writing a value and reading its code back gives the same value, unless it is
/// an `Unknown` that carries one of the known codes.
pub proof fn lemma_task_type_value_round_trip(x: TaskType)
    requires
        x matches TaskType::Unknown(v) ==> v != 0 && v != 1 && v != 2,
    ensures
        task_type_of(task_type_code(x)) == x,
{
}

/// The status of a task or checklist item (`"ss"`).
#[derive(Debug, Clone, Copy, PartialEq, Eq, Structural)]
pub enum TaskStatus {
    Incomplete,
    Canceled,
    Completed,
    Unknown(i32),
}

/// The value that the wire code `v` stands for.
pub open spec fn task_status_of(v: i32) -> TaskStatus {
    if v == 0 {
        TaskStatus::Incomplete
    } else if v == 2 {
        TaskStatus::Canceled
    } else if v == 3 {
        TaskStatus::Completed
    } else {
        TaskStatus::Unknown(v)
    }
}

/// The wire code of a value.
pub open spec fn task_status_code(x: TaskStatus) -> i32 {
    match x {
        TaskStatus::Incomplete => 0,
        TaskStatus::Canceled => 2,
        TaskStatus::Completed => 3,
        TaskStatus::Unknown(other) => other,
    }
}

impl From<i32> for TaskStatus {
    fn from(value: i32) -> (r: Self) {
        match value {
            0 => TaskStatus::Incomplete,
            2 => TaskStatus::Canceled,
            3 => TaskStatus::Completed,
            other => TaskStatus::Unknown(other),
        }
    }
}

impl vstd::std_specs::convert::FromSpecImpl<i32> for TaskStatus {
    open spec fn obeys_from_spec() -> bool {
        true
    }

    open spec fn from_spec(v: i32) -> Self {
        task_status_of(v)
    }
}

impl From<TaskStatus> for i32 {
    fn from(value: TaskStatus) -> (r: i32) {
        match value {
            TaskStatus::Incomplete => 0,
            TaskStatus::Canceled => 2,
            TaskStatus::Completed => 3,
            TaskStatus::Unknown(other) => other,
        }
    }
}

impl vstd::std_specs::convert::FromSpecImpl<TaskStatus> for i32 {
    open spec fn obeys_from_spec() -> bool {
        true
    }

    open spec fn from_spec(v: TaskStatus) -> Self {
        task_status_code(v)
    }
}

/// Reading a wire code and writing it back gives the same code.
pub proof fn lemma_task_status_code_round_trip(v: i32)
    ensures
        task_status_code(task_status_of(v)) == v,
{
}

/// Writing a value and reading its code back gives the same value, unless it is
/// an `Unknown` that carries one of the known codes.
pub proof fn lemma_task_status_value_round_trip(x: TaskStatus)
    requires
        x matches TaskStatus::Unknown(v) ==> v != 0 && v != 2 && v != 3,
    ensures
        task_status_of(task_status_code(x)) == x,
{
}

/// The list a task starts in (`"st"`).
#[derive(Debug, Clone, Copy, PartialEq, Eq, Structural)]
pub enum TaskStart {
    Inbox,
    Anytime,
    Someday,
    Unknown(i32),
}

/// The value that the wire code `v` stands for.
pub open spec fn task_start_of(v: i32) -> TaskStart {
    if v == 0 {
        TaskStart::Inbox
    } else if v == 1 {
        TaskStart::Anytime
    } else if v == 2 {
        TaskStart::Someday
    } else {
        TaskStart::Unknown(v)
    }
}

/// The wire code of a value.
pub open spec fn task_start_code(x: TaskStart) -> i32 {
    match x {
        TaskStart::Inbox => 0,
        TaskStart::Anytime => 1,
        TaskStart::Someday => 2,
        TaskStart::Unknown(other) => other,
    }
}

impl From<i32> for TaskStart {
    fn from(value: i32) -> (r: Self) {
        match value {
            0 => TaskStart::Inbox,
            1 => TaskStart::Anytime,
            2 => TaskStart::Someday,
            other => TaskStart::Unknown(other),
        }
    }
}

impl vstd::std_specs::convert::FromSpecImpl<i32> for TaskStart {
    open spec fn obeys_from_spec() -> bool {
        true
    }

    open spec fn from_spec(v: i32) -> Self {
        task_start_of(v)
    }
}

impl From<TaskStart> for i32 {
    fn from(value: TaskStart) -> (r: i32) {
        match value {
            TaskStart::Inbox => 0,
            TaskStart::Anytime => 1,
            TaskStart::Someday => 2,
            TaskStart::Unknown(other) => other,
        }
    }
}

impl vstd::std_specs::convert::FromSpecImpl<TaskStart> for i32 {
    open spec fn obeys_from_spec() -> bool {
        true
    }

    open spec fn from_spec(v: TaskStart) -> Self {
        task_start_code(v)
    }
}

/// Reading a wire code and writing it back gives the same code.
pub proof fn lemma_task_start_code_round_trip(v: i32)
    ensures
        task_start_code(task_start_of(v)) == v,
{
}

/// Writing a value and reading its code back gives the same value, unless it is
/// an `Unknown` that carries one of the known codes.
pub proof fn lemma_task_start_value_round_trip(x: TaskStart)
    requires
        x matches TaskStart::Unknown(v) ==> v != 0 && v != 1 && v != 2,
    ensures
        task_start_of(task_start_code(x)) == x,
{
}

/// How a recurrence repeats (`"rr"."tp"`).
#[derive(Debug, Clone, Copy, PartialEq, Eq, Structural)]
pub enum RecurrenceType {
    FixedSchedule,
    AfterCompletion,
    Unknown(i32),
}

/// The value that the wire code `v` stands for.
pub open spec fn recurrence_type_of(v: i32) -> RecurrenceType {
    if v == 0 {
        RecurrenceType::FixedSchedule
    } else if v == 1 {
        RecurrenceType::AfterCompletion
    } else {
        RecurrenceType::Unknown(v)
    }
}

/// The wire code of a value.
pub open spec fn recurrence_type_code(x: RecurrenceType) -> i32 {
    match x {
        RecurrenceType::FixedSchedule => 0,
        RecurrenceType::AfterCompletion => 1,
        RecurrenceType::Unknown(other) => other,
    }
}

impl From<i32> for RecurrenceType {
    fn from(value: i32) -> (r: Self) {
        match value {
            0 => RecurrenceType::FixedSchedule,
            1 => RecurrenceType::AfterCompletion,
            other => RecurrenceType::Unknown(other),
        }
    }
}

impl vstd::std_specs::convert::FromSpecImpl<i32> for RecurrenceType {
    open spec fn obeys_from_spec() -> bool {
        true
    }

    open spec fn from_spec(v: i32) -> Self {
        recurrence_type_of(v)
    }
}

impl From<RecurrenceType> for i32 {
    fn from(value: RecurrenceType) -> (r: i32) {
        match value {
            RecurrenceType::FixedSchedule => 0,
            RecurrenceType::AfterCompletion => 1,
            RecurrenceType::Unknown(other) => other,
        }
    }
}

impl vstd::std_specs::convert::FromSpecImpl<RecurrenceType> for i32 {
    open spec fn obeys_from_spec() -> bool {
        true
    }

    open spec fn from_spec(v: RecurrenceType) -> Self {
        recurrence_type_code(v)
    }
}

/// Reading a wire code and writing it back gives the same code.
pub proof fn lemma_recurrence_type_code_round_trip(v: i32)
    ensures
        recurrence_type_code(recurrence_type_of(v)) == v,
{
}

/// Writing a value and reading its code back gives the same value, unless it is
/// an `Unknown` that carries one of the known codes.
pub proof fn lemma_recurrence_type_value_round_trip(x: RecurrenceType)
    requires
        x matches RecurrenceType::Unknown(v) ==> v != 0 && v != 1,
    ensures
        recurrence_type_of(recurrence_type_code(x)) == x,
{
}

/// The unit of a recurrence frequency (`"rr"."fu"`).
#[derive(Debug, Clone, Copy, PartialEq, Eq, Structural)]
pub enum FrequencyUnit {
    Daily,
    Monthly,
    Weekly,
    Unknown(i32),
}

/// The value that the wire code `v` stands for.
pub open spec fn frequency_unit_of(v: i32) -> FrequencyUnit {
    if v == 8 {
        FrequencyUnit::Daily
    } else if v == 16 {
        FrequencyUnit::Monthly
    } else if v == 256 {
        FrequencyUnit::Weekly
    } else {
        FrequencyUnit::Unknown(v)
    }
}

/// The wire code of a value.
pub open spec fn frequency_unit_code(x: FrequencyUnit) -> i32 {
    match x {
        FrequencyUnit::Daily => 8,
        FrequencyUnit::Monthly => 16,
        FrequencyUnit::Weekly => 256,
        FrequencyUnit::Unknown(other) => other,
    }
}

impl From<i32> for FrequencyUnit {
    fn from(value: i32) -> (r: Self) {
        match value {
            8 => FrequencyUnit::Daily,
            16 => FrequencyUnit::Monthly,
            256 => FrequencyUnit::Weekly,
            other => FrequencyUnit::Unknown(other),
        }
    }
}

impl vstd::std_specs::convert::FromSpecImpl<i32> for FrequencyUnit {
    open spec fn obeys_from_spec() -> bool {
        true
    }

    open spec fn from_spec(v: i32) -> Self {
        frequency_unit_of(v)
    }
}

impl From<FrequencyUnit> for i32 {
    fn from(value: FrequencyUnit) -> (r: i32) {
        match value {
            FrequencyUnit::Daily => 8,
            FrequencyUnit::Monthly => 16,
            FrequencyUnit::Weekly => 256,
            FrequencyUnit::Unknown(other) => other,
        }
    }
}

impl vstd::std_specs::convert::FromSpecImpl<FrequencyUnit> for i32 {
    open spec fn obeys_from_spec() -> bool {
        true
    }

    open spec fn from_spec(v: FrequencyUnit) -> Self {
        frequency_unit_code(v)
    }
}

/// Reading a wire code and writing it back gives the same code.
pub proof fn lemma_frequency_unit_code_round_trip(v: i32)
    ensures
        frequency_unit_code(frequency_unit_of(v)) == v,
{
}

/// Writing a value and reading its code back gives the same value, unless it is
/// an `Unknown` that carries one of the known codes.
pub proof fn lemma_frequency_unit_value_round_trip(x: FrequencyUnit)
    requires
        x matches FrequencyUnit::Unknown(v) ==> v != 8 && v != 16 && v != 256,
    ensures
        frequency_unit_of(frequency_unit_code(x)) == x,
{
}


/// The entity kind of a wire object (`"e"`).
#[derive(Debug)]
pub enum EntityType {
    Task6,
    ChecklistItem3,
    Tag4,
    Area3,
    Settings5,
    Tombstone2,
    Command,
    Unknown(String),
}

/// Whether `s` names one of the known entity kinds.
pub open spec fn is_known_entity(s: Seq<char>) -> bool {
    ||| s == "Task6"@
    ||| s == "ChecklistItem3"@
    ||| s == "Tag4"@
    ||| s == "Area3"@
    ||| s == "Settings5"@
    ||| s == "Tombstone2"@
    ||| s == "Command"@
}

/// The entity kind named by `s`.
pub open spec fn entity_of(s: String) -> EntityType {
    if s@ == "Task6"@ {
        EntityType::Task6
    } else if s@ == "ChecklistItem3"@ {
        EntityType::ChecklistItem3
    } else if s@ == "Tag4"@ {
        EntityType::Tag4
    } else if s@ == "Area3"@ {
        EntityType::Area3
    } else if s@ == "Settings5"@ {
        EntityType::Settings5
    } else if s@ == "Tombstone2"@ {
        EntityType::Tombstone2
    } else if s@ == "Command"@ {
        EntityType::Command
    } else {
        EntityType::Unknown(s)
    }
}

/// The wire name of an entity kind.
pub open spec fn entity_name(e: EntityType) -> Seq<char> {
    match e {
        EntityType::Task6 => "Task6"@,
        EntityType::ChecklistItem3 => "ChecklistItem3"@,
        EntityType::Tag4 => "Tag4"@,
        EntityType::Area3 => "Area3"@,
        EntityType::Settings5 => "Settings5"@,
        EntityType::Tombstone2 => "Tombstone2"@,
        EntityType::Command => "Command"@,
        EntityType::Unknown(s) => s@,
    }
}

impl From<String> for EntityType {
    fn from(value: String) -> (r: Self) {
        if same_text(value.as_str(), "Task6") {
            EntityType::Task6
        } else if same_text(value.as_str(), "ChecklistItem3") {
            EntityType::ChecklistItem3
        } else if same_text(value.as_str(), "Tag4") {
            EntityType::Tag4
        } else if same_text(value.as_str(), "Area3") {
            EntityType::Area3
        } else if same_text(value.as_str(), "Settings5") {
            EntityType::Settings5
        } else if same_text(value.as_str(), "Tombstone2") {
            EntityType::Tombstone2
        } else if same_text(value.as_str(), "Command") {
            EntityType::Command
        } else {
            EntityType::Unknown(value)
        }
    }
}

impl vstd::std_specs::convert::FromSpecImpl<String> for EntityType {
    open spec fn obeys_from_spec() -> bool {
        true
    }

    open spec fn from_spec(v: String) -> Self {
        entity_of(v)
    }
}

impl EntityType {
    /// The wire name of this entity kind (`String::from(entity)`).
    pub fn name(&self) -> (r: String)
        ensures
            r@ == entity_name(*self),
    {
        match self {
            EntityType::Task6 => crate::text::owned("Task6"),
            EntityType::ChecklistItem3 => crate::text::owned("ChecklistItem3"),
            EntityType::Tag4 => crate::text::owned("Tag4"),
            EntityType::Area3 => crate::text::owned("Area3"),
            EntityType::Settings5 => crate::text::owned("Settings5"),
            EntityType::Tombstone2 => crate::text::owned("Tombstone2"),
            EntityType::Command => crate::text::owned("Command"),
            EntityType::Unknown(s) => s.clone(),
        }
    }

    /// A copy of this entity kind.
    pub fn duplicate(&self) -> (r: EntityType)
        ensures
            r == *self,
    {
        match self {
            EntityType::Task6 => EntityType::Task6,
            EntityType::ChecklistItem3 => EntityType::ChecklistItem3,
            EntityType::Tag4 => EntityType::Tag4,
            EntityType::Area3 => EntityType::Area3,
            EntityType::Settings5 => EntityType::Settings5,
            EntityType::Tombstone2 => EntityType::Tombstone2,
            EntityType::Command => EntityType::Command,
            EntityType::Unknown(s) => EntityType::Unknown(s.clone()),
        }
    }
}

/// Reading an entity name gives back a kind with that same name.
pub proof fn lemma_entity_name_round_trip(s: String)
    ensures
        entity_name(entity_of(s)) == s@,
        entity_of(s) is Unknown <==> !is_known_entity(s@),
{
}

/// Writing an entity kind and reading its name back gives the same kind (an
/// `Unknown` kind keeps its name), unless it is an `Unknown` carrying a known name.
pub proof fn lemma_entity_value_round_trip(e: EntityType, s: String)
    requires
        s@ == entity_name(e),
        e matches EntityType::Unknown(t) ==> !is_known_entity(t@),
    ensures
        e is Unknown ==> entity_of(s) == EntityType::Unknown(s),
        !(e is Unknown) ==> entity_of(s) == e,
{
    reveal_strlit("Task6");
    reveal_strlit("ChecklistItem3");
    reveal_strlit("Tag4");
    reveal_strlit("Area3");
    reveal_strlit("Settings5");
    reveal_strlit("Tombstone2");
    reveal_strlit("Command");
    assert("Task6"@.len() == 5 && "ChecklistItem3"@.len() == 14 && "Tag4"@.len() == 4);
    assert("Area3"@.len() == 5 && "Settings5"@.len() == 9 && "Tombstone2"@.len() == 10);
    assert("Command"@.len() == 7);
    assert("Task6"@[0] != "Area3"@[0]);
    if let EntityType::Unknown(t) = e {
        assert(s@ == t@);
        assert(!is_known_entity(s@));
        assert(entity_of(s) == EntityType::Unknown(s));
    }
}

/// One object of a history item: the operation, the entity kind and the properties.
pub struct WireObject {
    pub operation_type: OperationType,
    pub entity_type: Option<EntityType>,
    pub properties: KeyMap<JsonValue>,
}

/// Default frequency unit of a recurrence rule.
pub fn default_frequency_unit() -> (r: FrequencyUnit)
    ensures
        r == FrequencyUnit::Weekly,
{
    FrequencyUnit::Weekly
}

/// Default frequency amount of a recurrence rule.
pub fn default_frequency_amount() -> (r: i32)
    ensures
        r == 1,
{
    1
}

/// Default end date of a recurrence rule.
pub fn default_recurrence_end_date() -> (r: i64)
    ensures
        r == 64_092_211_200,
{
    64_092_211_200
}

/// Default version of a recurrence rule.
pub fn default_recurrence_rule_version() -> (r: i32)
    ensures
        r == 4,
{
    4
}

/// A recurrence rule (`"rr"`).
pub struct RecurrenceRule {
    pub repeat_type: RecurrenceType,
    pub frequency_unit: FrequencyUnit,
    pub frequency_amount: i32,
    pub offsets: Vec<JsonValue>,
    pub start_reference: Option<i64>,
    pub initial_anchor: Option<i64>,
    pub end_date: i64,
    pub repeat_count: i32,
    pub task_skip: i32,
    pub recurrence_rule_version: i32,
}

/// An `i32` field of a struct being deserialized: `Some(default)` when absent,
/// `None` when present but not an integer in range (a deserialization error).
pub open spec fn field_i32(entries: Seq<(String, JsonValue)>, key: Seq<char>, default: i32) -> Option<i32> {
    match entry_lookup(entries, key) {
        None => Some(default),
        Some(v) => match int_of(v) {
            Some(i) => if i32::MIN <= i && i <= i32::MAX { Some(i as i32) } else { None },
            None => None,
        },
    }
}

/// An `i64` field: `Some(default)` when absent, `None` on a deserialization error.
pub open spec fn field_i64(entries: Seq<(String, JsonValue)>, key: Seq<char>, default: i64) -> Option<i64> {
    match entry_lookup(entries, key) {
        None => Some(default),
        Some(v) => int_of(v),
    }
}

/// An `Option<i64>` field: `Some(None)` when absent or null, `None` on a deserialization error.
pub open spec fn field_opt_i64(entries: Seq<(String, JsonValue)>, key: Seq<char>) -> Option<Option<i64>> {
    match entry_lookup(entries, key) {
        None => Some(None),
        Some(JsonValue::Null) => Some(None),
        Some(v) => match int_of(v) {
            Some(i) => Some(Some(i)),
            None => None,
        },
    }
}

/// The list of offset maps: empty when absent, `None` unless it is an array of objects.
pub open spec fn field_offsets(entries: Seq<(String, JsonValue)>) -> Option<Seq<JsonValue>> {
    match entry_lookup(entries, "of"@) {
        None => Some(Seq::empty()),
        Some(JsonValue::Array(items)) => if forall|i: int|
            0 <= i < items@.len() ==> #[trigger] items@[i] is Object {
            Some(items@)
        } else {
            None
        },
        Some(_) => None,
    }
}

/// Whether every field of a recurrence rule object deserializes.
pub open spec fn rule_fields_ok(entries: Seq<(String, JsonValue)>) -> bool {
    &&& field_i32(entries, "tp"@, 0) is Some
    &&& field_i32(entries, "fu"@, 256) is Some
    &&& field_i32(entries, "fa"@, 1) is Some
    &&& field_offsets(entries) is Some
    &&& field_opt_i64(entries, "sr"@) is Some
    &&& field_opt_i64(entries, "ia"@) is Some
    &&& field_i64(entries, "ed"@, 64_092_211_200) is Some
    &&& field_i32(entries, "rc"@, 0) is Some
    &&& field_i32(entries, "ts"@, 0) is Some
    &&& field_i32(entries, "rrv"@, 4) is Some
}

/// Whether `r` is the rule that the object entries describe.
pub open spec fn rule_matches(r: RecurrenceRule, entries: Seq<(String, JsonValue)>) -> bool {
    &&& r.repeat_type == recurrence_type_of(field_i32(entries, "tp"@, 0).unwrap())
    &&& r.frequency_unit == frequency_unit_of(field_i32(entries, "fu"@, 256).unwrap())
    &&& r.frequency_amount == field_i32(entries, "fa"@, 1).unwrap()
    &&& r.offsets@ == field_offsets(entries).unwrap()
    &&& r.start_reference == field_opt_i64(entries, "sr"@).unwrap()
    &&& r.initial_anchor == field_opt_i64(entries, "ia"@).unwrap()
    &&& r.end_date == field_i64(entries, "ed"@, 64_092_211_200).unwrap()
    &&& r.repeat_count == field_i32(entries, "rc"@, 0).unwrap()
    &&& r.task_skip == field_i32(entries, "ts"@, 0).unwrap()
    &&& r.recurrence_rule_version == field_i32(entries, "rrv"@, 4).unwrap()
}

fn read_i32(entries: &Vec<(String, JsonValue)>, key: &str, default: i32) -> (r: Option<i32>)
    ensures
        r == field_i32(entries@, key@, default),
{
    match crate::json::lookup_entry(entries, key) {
        None => Some(default),
        Some(v) => match v.as_i64() {
            Some(i) => if i >= i32::MIN as i64 && i <= i32::MAX as i64 {
                Some(i as i32)
            } else {
                None
            },
            None => None,
        },
    }
}

fn read_i64(entries: &Vec<(String, JsonValue)>, key: &str, default: i64) -> (r: Option<i64>)
    ensures
        r == field_i64(entries@, key@, default),
{
    match crate::json::lookup_entry(entries, key) {
        None => Some(default),
        Some(v) => v.as_i64(),
    }
}

fn read_opt_i64(entries: &Vec<(String, JsonValue)>, key: &str) -> (r: Option<Option<i64>>)
    ensures
        r == field_opt_i64(entries@, key@),
{
    match crate::json::lookup_entry(entries, key) {
        None => Some(None),
        Some(JsonValue::Null) => Some(None),
        Some(v) => match v.as_i64() {
            Some(i) => Some(Some(i)),
            None => None,
        },
    }
}

impl RecurrenceRule {
    /// Deserializes a recurrence rule from a JSON object (`serde_json::from_value`),
    /// giving `None` where deserialization fails.
    pub fn from_json(v: JsonValue) -> (r: Option<RecurrenceRule>)
        ensures
            match v {
                JsonValue::Object(entries) => match r {
                    Some(rule) => rule_fields_ok(entries@) && rule_matches(rule, entries@),
                    None => !rule_fields_ok(entries@),
                },
                _ => r is None,
            },
    {
        match v {
            JsonValue::Object(mut entries) => {
                let ghost orig = entries@;
                let tp = read_i32(&entries, "tp", 0);
                let fu = read_i32(&entries, "fu", 256);
                let fa = read_i32(&entries, "fa", 1);
                let sr = read_opt_i64(&entries, "sr");
                let ia = read_opt_i64(&entries, "ia");
                let ed = read_i64(&entries, "ed", 64_092_211_200);
                let rc = read_i32(&entries, "rc", 0);
                let ts = read_i32(&entries, "ts", 0);
                let rrv = read_i32(&entries, "rrv", 4);
                let offsets = take_offsets(&mut entries);
                match (tp, fu, fa, sr, ia, ed, rc, ts, rrv, offsets) {
                    (
                        Some(tp),
                        Some(fu),
                        Some(fa),
                        Some(sr),
                        Some(ia),
                        Some(ed),
                        Some(rc),
                        Some(ts),
                        Some(rrv),
                        Some(offsets),
                    ) => Some(
                        RecurrenceRule {
                            repeat_type: RecurrenceType::from(tp),
                            frequency_unit: FrequencyUnit::from(fu),
                            frequency_amount: fa,
                            offsets,
                            start_reference: sr,
                            initial_anchor: ia,
                            end_date: ed,
                            repeat_count: rc,
                            task_skip: ts,
                            recurrence_rule_version: rrv,
                        },
                    ),
                    _ => None,
                }
            },
            _ => None,
        }
    }
}

/// Takes the offset list out of the entries of a rule object.
fn take_offsets(entries: &mut Vec<(String, JsonValue)>) -> (r: Option<Vec<JsonValue>>)
    ensures
        match r {
            Some(items) => field_offsets(old(entries)@) == Some(items@),
            None => field_offsets(old(entries)@) is None,
        },
{
    let ghost orig = entries@;
    let mut i: usize = 0;
    while i < entries.len()
        invariant
            i <= entries@.len(),
            entries@ == orig,
            orig == old(entries)@,
            forall|j: int| 0 <= j < i ==> #[trigger] entries@[j].0@ != "of"@,
        decreases entries@.len() - i,
    {
        if same_text(entries[i].0.as_str(), "of") {
            let (_, value) = entries.remove(i);
            proof {
                crate::json::lemma_entry_lookup_at(orig, "of"@, i as int);
            }
            assert(entry_lookup(orig, "of"@) == Some(value));
            match value {
                JsonValue::Array(items) => {
                    let mut j: usize = 0;
                    while j < items.len()
                        invariant
                            j <= items@.len(),
                            orig == old(entries)@,
                            entry_lookup(orig, "of"@) == Some(JsonValue::Array(items)),
                            forall|t: int| 0 <= t < j ==> #[trigger] items@[t] is Object,
                        decreases items@.len() - j,
                    {
                        match &items[j] {
                            JsonValue::Object(_) => {},
                            _ => {
                                return None;
                            },
                        }
                        j += 1;
                    }
                    return Some(items);
                },
                _ => {
                    return None;
                },
            }
        }
        i += 1;
    }
    proof {
        if entry_lookup(orig, "of"@) is Some {
            let k = crate::json::lemma_entry_lookup_index(orig, "of"@);
            assert(orig[k].0@ != "of"@);
        }
    }
    Some(Vec::new())
}

} // verus!
