//! Workflow files, and the prompts that they make.
use liquid::model::Value;
use vstd::prelude::*;

use crate::config::{
    build_effective_config, dispatch_problem, effective_config, validate_dispatch_config,
    Environment, EnvironmentView, RawWorkflowConfig,
};
use crate::error::{ErrorView, SymphonyError};
use crate::filling::{filling, Filling};
use crate::json::{
    from_outside, json_array, json_object, json_optional_string, json_string, json_strings,
    lemma_item_views, lemma_member_views, member_views, optional_string_view, with_member, Json, JsonView,
};
use crate::path::{paths_equal, same_path};
use crate::rendering::{can_render, is_safe_to_render, is_settled};
use crate::string_map::{keys_differ, StringMap};
use crate::template::{can_try, is_triable};
use crate::text::{
    begins_with, chars_of, decimal, decimal_text, find_text, first_occurrence, is_blank,
    is_blank_text, is_first_occurrence, lemma_first_occurrence, occurs_at, string_of, trim, trimmed,
    unix_newlines, with_unix_newlines,
};
use crate::time::{chrono_rfc3339_zulu, Timestamp};
use crate::types::{
    BlockerRef, BlockerRefView, EffectiveConfig, EffectiveConfigView, Issue, IssueView,
    WorkflowDefinition, WorkflowDefinitionView,
};

verus! {

// ---------------------------------------------------------------------------
// Workflow files
// ---------------------------------------------------------------------------

/// A value of YAML, as `serde_yaml` has it.
#[verifier::external_type_specification]
#[verifier::external_body]
pub struct ExYamlValue(serde_yaml::Value);

/// What kind a value of YAML is of.
#[derive(Clone, Copy, Debug, PartialEq, Eq, Structural)]
pub enum YamlKind {
    Null,
    Bool,
    Number,
    String,
    Sequence,
    Mapping,
    Tagged,
}

/// A value of YAML, its kind, and the text that it was read from.
struct YamlDocument {
    text: String,
    kind: YamlKind,
    value: serde_yaml::Value,
}

/// What front matter reads as.
pub enum FrontMatter {
    /// It is no YAML; the text is that of the error.
    Invalid(String),
    /// It is a value that is no mapping.
    Other(YamlKind),
    /// It is a mapping, which is this as JSON, or cannot be written as JSON; the text is that of the
    /// error.
    Mapping(Result<Json, String>),
}

/// The mathematical value of [`FrontMatter`].
pub ghost enum FrontMatterView {
    Invalid(Seq<char>),
    Other(YamlKind),
    Mapping(Result<JsonView, Seq<char>>),
}

impl View for FrontMatter {
    type V = FrontMatterView;

    open spec fn view(&self) -> FrontMatterView {
        match *self {
            FrontMatter::Invalid(error) => FrontMatterView::Invalid(error@),
            FrontMatter::Other(kind) => FrontMatterView::Other(kind),
            FrontMatter::Mapping(Ok(value)) => FrontMatterView::Mapping(Ok(value@)),
            FrontMatter::Mapping(Err(error)) => FrontMatterView::Mapping(Err(error@)),
        }
    }
}

/// The kind of the value that `serde_yaml` reads in a text, or the text of its error.
pub uninterp spec fn yaml_kind(yaml: Seq<char>) -> Result<YamlKind, Seq<char>>;

/// What `serde_json` makes of the value that `serde_yaml` reads in a text, or the text of its error.
pub uninterp spec fn yaml_as_json(yaml: Seq<char>) -> Result<JsonView, Seq<char>>;

/// `serde_yaml::from_str` is a function of the text, in the kind of the value that it gives and in the
/// text of its error. The document keeps the text beside the value; nothing else makes one.
#[verifier::external_body]
fn read_yaml(yaml: &str) -> (r: Result<YamlDocument, String>)
    ensures
        match r {
            Ok(document) => document.text@ == yaml@ && yaml_kind(yaml@) == Ok::<
                YamlKind,
                Seq<char>,
            >(document.kind),
            Err(error) => yaml_kind(yaml@) == Err::<YamlKind, Seq<char>>(error@),
        },
{
    let value = serde_yaml::from_str::<serde_yaml::Value>(yaml).map_err(|error| error.to_string())?;
    let kind = match &value {
        serde_yaml::Value::Null => YamlKind::Null,
        serde_yaml::Value::Bool(_) => YamlKind::Bool,
        serde_yaml::Value::Number(_) => YamlKind::Number,
        serde_yaml::Value::String(_) => YamlKind::String,
        serde_yaml::Value::Sequence(_) => YamlKind::Sequence,
        serde_yaml::Value::Mapping(_) => YamlKind::Mapping,
        serde_yaml::Value::Tagged(_) => YamlKind::Tagged,
    };
    Ok(YamlDocument { text: yaml.to_owned(), kind, value })
}

/// `serde_json::to_value` is a function of the value that it is given, in what it makes of it and in
/// the text of its error, and that value is the one read in the text of the document. An object that
/// it makes holds each key once.
#[verifier::external_body]
fn yaml_to_json(document: &YamlDocument) -> (r: Result<Json, String>)
    ensures
        match r {
            Ok(value) => yaml_as_json(document.text@) == Ok::<JsonView, Seq<char>>(value@) && (
            value@ matches JsonView::Object(members) ==> keys_differ(members)),
            Err(error) => yaml_as_json(document.text@) == Err::<JsonView, Seq<char>>(error@),
        },
{
    serde_json::to_value(&document.value).map(from_outside).map_err(|error| error.to_string())
}

/// What front matter reads as: the value that stands in it, and where that is a mapping, what it is as
/// JSON.
pub open spec fn front_matter_reading(yaml: Seq<char>) -> FrontMatterView {
    match yaml_kind(yaml) {
        Err(error) => FrontMatterView::Invalid(error),
        Ok(YamlKind::Mapping) => FrontMatterView::Mapping(yaml_as_json(yaml)),
        Ok(kind) => FrontMatterView::Other(kind),
    }
}

/// A mapping that is an object as JSON holds each key once.
pub open spec fn is_readable(reading: FrontMatterView) -> bool {
    reading matches FrontMatterView::Mapping(Ok(JsonView::Object(members))) ==> keys_differ(members)
}

fn read_front_matter(yaml: &str) -> (r: FrontMatter)
    ensures
        r@ == front_matter_reading(yaml@),
        is_readable(r@),
{
    match read_yaml(yaml) {
        Ok(document) => if document.kind == YamlKind::Mapping {
            FrontMatter::Mapping(yaml_to_json(&document))
        } else {
            FrontMatter::Other(document.kind)
        },
        Err(error) => FrontMatter::Invalid(error),
    }
}

/// The configuration that front matter holds.
pub open spec fn front_matter_config(reading: FrontMatterView) -> Result<
    Seq<(Seq<char>, JsonView)>,
    ErrorView,
> {
    match reading {
        FrontMatterView::Invalid(error) => Err(ErrorView::Yaml(error)),
        FrontMatterView::Mapping(Err(error)) => Err(ErrorView::Json(error)),
        FrontMatterView::Mapping(Ok(JsonView::Object(members))) => Ok(members),
        _ => Err(ErrorView::WorkflowFrontMatterNotAMap),
    }
}

/// The front matter of a workflow file and the rest of it, both with line feeds alone at the ends of
/// lines. A file that does not begin with a line of three dashes has no front matter; where it has,
/// the next such line ends it.
pub open spec fn workflow_parts(content: Seq<char>) -> Result<
    (Option<Seq<char>>, Seq<char>),
    ErrorView,
> {
    let text = unix_newlines(content);
    if "---\n"@.is_prefix_of(text) {
        let rest = text.skip(4);
        match first_occurrence(rest, "\n---\n"@) {
            Some(end) => Ok((Some(rest.take(end)), rest.skip(end + 5))),
            None => Err(
                ErrorView::WorkflowParseError("missing closing front matter delimiter"@),
            ),
        }
    } else {
        Ok((None, text))
    }
}

/// What a workflow file says, given what its front matter reads as.
pub open spec fn workflow_definition(content: Seq<char>, reading: FrontMatterView) -> Result<
    WorkflowDefinitionView,
    ErrorView,
> {
    match workflow_parts(content) {
        Err(error) => Err(error),
        Ok((None, body)) => Ok(
            WorkflowDefinitionView { config: seq![], prompt_template: trimmed(body) },
        ),
        Ok((Some(_), body)) => match front_matter_config(reading) {
            Err(error) => Err(error),
            Ok(config) => Ok(
                WorkflowDefinitionView { config, prompt_template: trimmed(body) },
            ),
        },
    }
}

/// What the front matter of a workflow file reads as; nothing is read where there is none.
pub open spec fn workflow_reading(content: Seq<char>) -> FrontMatterView {
    match workflow_parts(content) {
        Ok((Some(yaml), _)) => front_matter_reading(yaml),
        _ => FrontMatterView::Other(YamlKind::Null),
    }
}

/// Split a workflow file into its front matter and the rest of it.
pub fn split_workflow(content: &str) -> (r: Result<(Option<String>, String), SymphonyError>)
    ensures
        match r {
            Ok((yaml, body)) => workflow_parts(content@) == Ok::<
                (Option<Seq<char>>, Seq<char>),
                ErrorView,
            >((yaml.deep_view(), body@)),
            Err(error) => workflow_parts(content@) == Err::<
                (Option<Seq<char>>, Seq<char>),
                ErrorView,
            >(error@),
        },
{
    let text = with_unix_newlines(&chars_of(content));
    let opening = chars_of("---\n");
    let n = text.len();
    if !begins_with(&text, &opening) {
        let body = string_of(&text, 0, n);
        proof {
            assert(body@ =~= text@);
        }
        return Ok((None, body));
    }
    proof {
        reveal_strlit("---\n");
        reveal_strlit("\n---\n");
    }
    let rest = chars_of(string_of(&text, 4, n).as_str());
    proof {
        assert(rest@ =~= text@.skip(4));
    }
    let closing = chars_of("\n---\n");
    match find_text(&rest, &closing) {
        Some(end) => {
            let yaml = string_of(&rest, 0, end);
            let body = string_of(&rest, end + 5, rest.len());
            proof {
                assert(yaml@ =~= rest@.take(end as int));
                assert(body@ =~= rest@.skip(end + 5));
            }
            Ok((Some(yaml), body))
        },
        None => Err(
            SymphonyError::WorkflowParseError("missing closing front matter delimiter".to_owned()),
        ),
    }
}

/// The configuration that front matter holds, by what it reads as.
pub fn interpret_front_matter(reading: FrontMatter) -> (r: Result<StringMap<Json>, SymphonyError>)
    requires
        is_readable(reading@),
    ensures
        match r {
            Ok(config) => front_matter_config(reading@) == Ok::<
                Seq<(Seq<char>, JsonView)>,
                ErrorView,
            >(config.entry_views()),
            Err(error) => front_matter_config(reading@) == Err::<
                Seq<(Seq<char>, JsonView)>,
                ErrorView,
            >(error@),
        },
{
    match reading {
        FrontMatter::Invalid(error) => Err(SymphonyError::Yaml(error)),
        FrontMatter::Mapping(Err(error)) => Err(SymphonyError::Json(error)),
        FrontMatter::Mapping(Ok(Json::Object(members))) => {
            proof {
                lemma_member_views(members@);
                assert(members.deep_view() =~= member_views(members@));
            }
            Ok(StringMap::from_entries(members))
        },
        _ => Err(SymphonyError::WorkflowFrontMatterNotAMap),
    }
}

/// Read a workflow file.
pub fn parse_workflow_definition(content: &str) -> (r: Result<WorkflowDefinition, SymphonyError>)
    ensures
        match r {
            Ok(definition) => workflow_definition(content@, workflow_reading(content@)) == Ok::<
                WorkflowDefinitionView,
                ErrorView,
            >(definition@),
            Err(error) => workflow_definition(content@, workflow_reading(content@)) == Err::<
                WorkflowDefinitionView,
                ErrorView,
            >(error@),
        },
{
    let (yaml, body) = match split_workflow(content) {
        Ok(parts) => parts,
        Err(error) => {
            return Err(error);
        },
    };
    let config = match yaml {
        Some(yaml) => match interpret_front_matter(read_front_matter(yaml.as_str())) {
            Ok(config) => config,
            Err(error) => {
                return Err(error);
            },
        },
        None => StringMap::new(),
    };
    let definition = WorkflowDefinition {
        config,
        prompt_template: trim(body.as_str()).to_owned(),
    };
    proof {
        if workflow_parts(content@) matches Ok((None, _)) {
            assert(definition@.config =~= seq![]);
        }
    }
    Ok(definition)
}

/// Whether a change of some paths concerns the watched file: one of them is that file, or none is
/// named.
pub fn is_relevant_change(watched: &str, changed: &Vec<String>) -> (r: bool)
    ensures
        r == (changed@.len() == 0 || exists|i: int|
            0 <= i < changed@.len() && same_path(#[trigger] changed.deep_view()[i], watched@)),
{
    let ghost views = changed.deep_view();
    for i in 0..changed.len()
        invariant
            views == changed.deep_view(),
            forall|j: int| 0 <= j < i ==> !same_path(#[trigger] views[j], watched@),
    {
        if paths_equal(changed[i].as_str(), watched) {
            assert(same_path(views[i as int], watched@));
            return true;
        }
    }
    changed.len() == 0
}

// ---------------------------------------------------------------------------
// Issues as JSON
// ---------------------------------------------------------------------------

/// A point in time, or null.
pub open spec fn optional_time_view(at: Option<Timestamp>) -> JsonView {
    match at {
        Some(at) => JsonView::String(chrono_rfc3339_zulu(at)),
        None => JsonView::Null,
    }
}

/// A point in time, or null.
pub fn json_optional_time(at: Option<Timestamp>) -> (r: Json)
    ensures
        r@ == optional_time_view(at),
{
    match at {
        Some(at) => Json::String(at.to_rfc3339_zulu()),
        None => Json::Null,
    }
}

/// An integer.
pub open spec fn integer_view(n: i64) -> JsonView {
    if n >= 0 {
        JsonView::PosInt(n as u64)
    } else {
        JsonView::NegInt(n)
    }
}

/// A blocker as JSON.
pub open spec fn blocker_json(blocker: BlockerRefView) -> JsonView {
    JsonView::Object(
        seq![
            ("id"@, optional_string_view(blocker.id)),
            ("identifier"@, optional_string_view(blocker.identifier)),
            ("state"@, optional_string_view(blocker.state)),
        ],
    )
}

/// An issue as JSON.
pub open spec fn issue_json(issue: IssueView) -> JsonView {
    JsonView::Object(
        seq![
            ("id"@, JsonView::String(issue.id)),
            ("identifier"@, JsonView::String(issue.identifier)),
            ("title"@, JsonView::String(issue.title)),
            ("description"@, optional_string_view(issue.description)),
            (
                "priority"@,
                match issue.priority {
                    Some(n) => integer_view(n),
                    None => JsonView::Null,
                },
            ),
            ("state"@, JsonView::String(issue.state)),
            ("branch_name"@, optional_string_view(issue.branch_name)),
            ("url"@, optional_string_view(issue.url)),
            (
                "labels"@,
                JsonView::Array(issue.labels.map_values(|s: Seq<char>| JsonView::String(s))),
            ),
            (
                "blocked_by"@,
                JsonView::Array(issue.blocked_by.map_values(|b: BlockerRefView| blocker_json(b))),
            ),
            ("created_at"@, optional_time_view(issue.created_at)),
            ("updated_at"@, optional_time_view(issue.updated_at)),
        ],
    )
}

fn blocker_to_json(blocker: &BlockerRef) -> (r: Json)
    ensures
        r@ == blocker_json(blocker@),
{
    let mut members = with_member(Vec::new(), "id", json_optional_string(&blocker.id));
    members = with_member(members, "identifier", json_optional_string(&blocker.identifier));
    members = with_member(members, "state", json_optional_string(&blocker.state));
    proof {
        assert(members.deep_view() =~= blocker_json(blocker@)->Object_0);
    }
    json_object(members)
}

/// An issue as JSON.
pub fn issue_to_json(issue: &Issue) -> (r: Json)
    ensures
        r@ == issue_json(issue@),
{
    let mut blockers: Vec<Json> = Vec::new();
    for i in 0..issue.blocked_by.len()
        invariant
            blockers@.len() == i,
            forall|j: int|
                0 <= j < i ==> (#[trigger] blockers@[j])@ == blocker_json(issue.blocked_by@[j]@),
    {
        blockers.push(blocker_to_json(&issue.blocked_by[i]));
    }
    proof {
        assert(blockers.deep_view() =~= issue@.blocked_by.map_values(
            |b: BlockerRefView| blocker_json(b),
        ));
    }
    let priority = match issue.priority {
        Some(n) => if n >= 0 {
            Json::PosInt(n as u64)
        } else {
            Json::NegInt(n)
        },
        None => Json::Null,
    };
    let mut members = with_member(Vec::new(), "id", json_string(issue.id.as_str()));
    members = with_member(members, "identifier", json_string(issue.identifier.as_str()));
    members = with_member(members, "title", json_string(issue.title.as_str()));
    members = with_member(members, "description", json_optional_string(&issue.description));
    members = with_member(members, "priority", priority);
    members = with_member(members, "state", json_string(issue.state.as_str()));
    members = with_member(members, "branch_name", json_optional_string(&issue.branch_name));
    members = with_member(members, "url", json_optional_string(&issue.url));
    members = with_member(members, "labels", json_strings(&issue.labels));
    members = with_member(members, "blocked_by", json_array(blockers));
    members = with_member(members, "created_at", json_optional_time(issue.created_at));
    members = with_member(members, "updated_at", json_optional_time(issue.updated_at));
    proof {
        assert(members.deep_view() =~= issue_json(issue@)->Object_0);
    }
    json_object(members)
}

// ---------------------------------------------------------------------------
// Prompts
// ---------------------------------------------------------------------------

/// A parsed template of `liquid`; the library only carries it.
#[verifier::external_type_specification]
#[verifier::external_body]
pub struct ExTemplate(liquid::Template);

/// A value of `liquid`, on its way from a [`LiquidValue`].
#[verifier::external_type_specification]
#[verifier::external_body]
pub struct ExLiquidValue(Value);

/// A value that a template can be rendered with.
#[derive(Debug, PartialEq)]
pub enum LiquidValue {
    Nil,
    Bool(bool),
    Integer(i64),
    /// An integer above those of 64 bits with a sign, which `liquid` takes as a floating point number.
    Large(u64),
    Float(serde_json::Number),
    Str(String),
    Array(Vec<LiquidValue>),
    Object(Vec<(String, LiquidValue)>),
}

/// The mathematical value of a [`LiquidValue`].
pub ghost enum LiquidView {
    Nil,
    Bool(bool),
    Integer(i64),
    Large(u64),
    Float(serde_json::Number),
    Str(Seq<char>),
    Array(Seq<LiquidView>),
    Object(Seq<(Seq<char>, LiquidView)>),
}

/// The value of a [`LiquidValue`].
pub open spec fn liquid_view(value: LiquidValue) -> LiquidView
    decreases value,
{
    match value {
        LiquidValue::Nil => LiquidView::Nil,
        LiquidValue::Bool(b) => LiquidView::Bool(b),
        LiquidValue::Integer(n) => LiquidView::Integer(n),
        LiquidValue::Large(n) => LiquidView::Large(n),
        LiquidValue::Float(n) => LiquidView::Float(n),
        LiquidValue::Str(s) => LiquidView::Str(s@),
        LiquidValue::Array(items) => LiquidView::Array(liquid_item_views(items@)),
        LiquidValue::Object(members) => LiquidView::Object(liquid_member_views(members@)),
    }
}

/// The values of the items of an array.
pub open spec fn liquid_item_views(items: Seq<LiquidValue>) -> Seq<LiquidView>
    decreases items,
{
    if items.len() == 0 {
        Seq::empty()
    } else {
        liquid_item_views(items.drop_last()).push(liquid_view(items.last()))
    }
}

/// The keys and values of the members of an object.
pub open spec fn liquid_member_views(members: Seq<(String, LiquidValue)>) -> Seq<
    (Seq<char>, LiquidView),
>
    decreases members,
{
    if members.len() == 0 {
        Seq::empty()
    } else {
        liquid_member_views(members.drop_last()).push(
            (members.last().0@, liquid_view(members.last().1)),
        )
    }
}

impl View for LiquidValue {
    type V = LiquidView;

    open spec fn view(&self) -> LiquidView {
        liquid_view(*self)
    }
}

/// The values of the items, position by position.
pub proof fn lemma_liquid_item_views(items: Seq<LiquidValue>)
    ensures
        liquid_item_views(items).len() == items.len(),
        forall|i: int| 0 <= i < items.len() ==> #[trigger] liquid_item_views(items)[i] == items[i]@,
    decreases items.len(),
{
    if items.len() > 0 {
        lemma_liquid_item_views(items.drop_last());
    }
}

/// The keys and values of the members, position by position.
pub proof fn lemma_liquid_member_views(members: Seq<(String, LiquidValue)>)
    ensures
        liquid_member_views(members).len() == members.len(),
        forall|i: int|
            0 <= i < members.len() ==> #[trigger] liquid_member_views(members)[i] == (
                members[i].0@,
                members[i].1@,
            ),
    decreases members.len(),
{
    if members.len() > 0 {
        lemma_liquid_member_views(members.drop_last());
    }
}

impl DeepView for LiquidValue {
    type V = LiquidView;

    open spec fn deep_view(&self) -> LiquidView {
        self@
    }
}

/// The value that a template is rendered with for a JSON value.
pub open spec fn liquid_of(value: JsonView) -> LiquidView
    decreases value,
{
    match value {
        JsonView::Null => LiquidView::Nil,
        JsonView::Bool(b) => LiquidView::Bool(b),
        JsonView::PosInt(n) => if n <= i64::MAX {
            LiquidView::Integer(n as i64)
        } else {
            LiquidView::Large(n)
        },
        JsonView::NegInt(n) => LiquidView::Integer(n),
        JsonView::Float(n) => LiquidView::Float(n),
        JsonView::String(s) => LiquidView::Str(s),
        JsonView::Array(items) => LiquidView::Array(liquid_of_items(items)),
        JsonView::Object(members) => LiquidView::Object(liquid_of_members(members)),
    }
}

/// The values for the items of an array.
pub open spec fn liquid_of_items(items: Seq<JsonView>) -> Seq<LiquidView>
    decreases items,
{
    if items.len() == 0 {
        Seq::empty()
    } else {
        liquid_of_items(items.drop_last()).push(liquid_of(items.last()))
    }
}

/// The values for the members of an object.
pub open spec fn liquid_of_members(members: Seq<(Seq<char>, JsonView)>) -> Seq<
    (Seq<char>, LiquidView),
>
    decreases members,
{
    if members.len() == 0 {
        Seq::empty()
    } else {
        liquid_of_members(members.drop_last()).push(
            (members.last().0, liquid_of(members.last().1)),
        )
    }
}

/// The value that a template is rendered with for a JSON value. Every JSON value has one.
pub fn json_to_liquid(value: &Json) -> (r: Result<LiquidValue, SymphonyError>)
    ensures
        r matches Ok(converted) && converted@ == liquid_of(value@),
    decreases value,
{
    let converted = match value {
        Json::Null => LiquidValue::Nil,
        Json::Bool(b) => LiquidValue::Bool(*b),
        Json::PosInt(n) => if *n <= i64::MAX as u64 {
            LiquidValue::Integer(*n as i64)
        } else {
            LiquidValue::Large(*n)
        },
        Json::NegInt(n) => LiquidValue::Integer(*n),
        Json::Float(n) => LiquidValue::Float(crate::json::copy_number(n)),
        Json::String(s) => LiquidValue::Str(s.clone()),
        Json::Array(items) => {
            let mut out: Vec<LiquidValue> = Vec::new();
            let ghost views = value@->Array_0;
            proof {
                lemma_item_views(items@);
            }
            for i in 0..items.len()
                invariant
                    value matches Json::Array(own) && own == items,
                    views.len() == items@.len(),
                    forall|j: int| 0 <= j < views.len() ==> #[trigger] views[j] == items@[j]@,
                    liquid_item_views(out@) == liquid_of_items(views.take(i as int)),
            {
                let ghost before = out@;
                match json_to_liquid(&items[i]) {
                    Ok(item) => out.push(item),
                    Err(error) => {
                        return Err(error);
                    },
                }
                proof {
                    assert(out@.drop_last() =~= before);
                    assert(views.take(i + 1).drop_last() =~= views.take(i as int));
                    assert(views.take(i + 1).last() == views[i as int]);
                }
            }
            proof {
                assert(views.take(items@.len() as int) =~= views);
            }
            LiquidValue::Array(out)
        },
        Json::Object(members) => {
            let mut out: Vec<(String, LiquidValue)> = Vec::new();
            let ghost views = value@->Object_0;
            proof {
                lemma_member_views(members@);
            }
            for i in 0..members.len()
                invariant
                    value matches Json::Object(own) && own == members,
                    views.len() == members@.len(),
                    forall|j: int|
                        0 <= j < views.len() ==> #[trigger] views[j] == (
                            members@[j].0@,
                            members@[j].1@,
                        ),
                    liquid_member_views(out@) == liquid_of_members(views.take(i as int)),
            {
                let ghost before = out@;
                match json_to_liquid(&members[i].1) {
                    Ok(item) => out.push((members[i].0.clone(), item)),
                    Err(error) => {
                        return Err(error);
                    },
                }
                proof {
                    assert(out@.drop_last() =~= before);
                    assert(views.take(i + 1).drop_last() =~= views.take(i as int));
                    assert(views.take(i + 1).last() == views[i as int]);
                }
            }
            proof {
                assert(views.take(members@.len() as int) =~= views);
            }
            LiquidValue::Object(out)
        },
    };
    Ok(converted)
}

/// A [`LiquidValue`] as a value of `liquid`, part for part.
#[verifier::external_body]
fn to_liquid(value: &LiquidValue) -> Value {
    match value {
        LiquidValue::Nil => Value::Nil,
        LiquidValue::Bool(b) => Value::scalar(*b),
        LiquidValue::Integer(n) => Value::scalar(*n),
        LiquidValue::Large(n) => Value::scalar(serde_json::Number::from(*n).as_f64().unwrap()),
        LiquidValue::Float(n) => Value::scalar(n.as_f64().unwrap()),
        LiquidValue::Str(s) => Value::scalar(s.clone()),
        LiquidValue::Array(items) => Value::Array(items.iter().map(to_liquid).collect()),
        LiquidValue::Object(members) => Value::Object(
            members.iter().map(|(key, value)| (key.clone().into(), to_liquid(value))).collect(),
        ),
    }
}

/// Whether it can be tried to parse the template of a prompt.
pub fn is_compilable(prompt_template: &str) -> (r: bool)
    ensures
        r == can_try(prompt_source(prompt_template@)),
{
    if is_blank_text(prompt_template) {
        is_triable(&chars_of("You are working on an issue from Linear."))
    } else {
        is_triable(&chars_of(trim(prompt_template)))
    }
}

/// Why `liquid` refuses to parse a template, where it does.
pub uninterp spec fn liquid_refusal(template: Seq<char>) -> Option<Seq<char>>;

/// `liquid::Parser::parse`, with the standard filters, tags and blocks, succeeds or fails by the text
/// of the template alone, and so does the text of its error. It panics on an integer in a tag that
/// does not fit in 64 bits with a sign, where it finds that it can read a tag that it could not read
/// before, where the template ends in a block in a comment, and where what nests uses up the stack.
/// The renderer keeps the text beside what was parsed from it; nothing else makes one.
#[verifier::external_body]
fn parse_template(template: &str) -> (r: Result<PromptRenderer, String>)
    requires
        can_try(template@),
    ensures
        match r {
            Ok(renderer) => liquid_refusal(template@) is None && renderer.source() == template@,
            Err(error) => liquid_refusal(template@) == Some(error@),
        },
{
    let parser = liquid::ParserBuilder::with_stdlib().build().map_err(|error| error.to_string())?;
    let parsed = parser.parse(template).map_err(|error| error.to_string())?;
    Ok(PromptRenderer { source: template.to_owned(), template: parsed })
}

/// What `liquid` makes of a template and the values of a prompt, where it depends on these alone: a
/// text, or the text of an error.
pub uninterp spec fn liquid_rendering(
    template: Seq<char>,
    globals: Seq<(Seq<char>, LiquidView)>,
) -> Result<Seq<char>, Seq<char>>;

/// Values are those of the prompt for an issue.
pub open spec fn are_prompt_values(globals: Seq<(Seq<char>, LiquidView)>) -> bool {
    exists|issue: IssueView, attempt: Option<u32>| globals == #[trigger] prompt_values(issue, attempt)
}

/// `liquid::Template::render` puts values in the place of the tags that name them, leaves the text
/// outside tags as it is, and fails at a tag that names what is not there. The same template and values
/// of a prompt give the same text, or the same error, where the template is settled. Of other templates
/// nothing more is said here: what comes out may depend on the time, where the template asks for the
/// date, and on the order in which a hash map is walked, where it shows the members of an object; so
/// may the text of an error. It panics where a filter leaves 64 bits, where a table has no columns or a
/// round no values, where a range or a width cannot be held in memory, and where values that have no
/// order are sorted.
#[verifier::external_body]
fn render_template(renderer: &PromptRenderer, globals: &Vec<(String, LiquidValue)>) -> (r: Result<
    String,
    String,
>)
    requires
        can_render(renderer.source(), globals.deep_view()),
        are_prompt_values(globals.deep_view()),
    ensures
        match filling(renderer.source(), 0, globals.deep_view()) {
            Filling::Text(text) => r matches Ok(rendered) && rendered@ == text,
            Filling::Fails => r is Err,
            Filling::Unclear => true,
        },
        is_settled(renderer.source()) ==> match r {
            Ok(rendered) => liquid_rendering(renderer.source(), globals.deep_view()) == Ok::<
                Seq<char>,
                Seq<char>,
            >(rendered@),
            Err(error) => liquid_rendering(renderer.source(), globals.deep_view()) == Err::<
                Seq<char>,
                Seq<char>,
            >(error@),
        },
{
    let globals: liquid::Object = globals.iter().map(|(key, value)| (key.clone().into(), to_liquid(value))).collect();
    renderer.template.render(&globals).map_err(|error| error.to_string())
}

/// The template of a prompt; a blank one stands for a default.
pub open spec fn prompt_source(prompt_template: Seq<char>) -> Seq<char> {
    if is_blank(prompt_template) {
        "You are working on an issue from Linear."@
    } else {
        trimmed(prompt_template)
    }
}

/// What the first prompt of a run is rendered with: the issue, and the number of the attempt.
pub open spec fn prompt_values(issue: IssueView, attempt: Option<u32>) -> Seq<
    (Seq<char>, LiquidView),
> {
    seq![
        ("issue"@, liquid_of(issue_json(issue))),
        (
            "attempt"@,
            match attempt {
                Some(n) => LiquidView::Integer(n as i64),
                None => LiquidView::Nil,
            },
        ),
    ]
}

/// The prompt of a further turn.
pub open spec fn continuation_text(
    issue: IssueView,
    turn_number: u32,
    max_turns: u32,
    attempt: Option<u32>,
) -> Seq<char> {
    "Continue working on issue "@ + issue.identifier + " ("@ + issue.title
        + ") in the existing thread. This is continuation turn "@ + decimal(turn_number as nat)
        + " of "@ + decimal(max_turns as nat) + ". Retry attempt: "@ + (match attempt {
        Some(n) => decimal(n as nat),
        None => "initial"@,
    })
        + ". Do not repeat the original task prompt. Focus on the next concrete step, keep edits inside the issue workspace, and leave a clear handoff if you are blocked."@
}

/// What the first prompt of a run is rendered with.
pub fn prompt_globals(issue: &Issue, attempt: Option<u32>) -> (r: Result<
    Vec<(String, LiquidValue)>,
    SymphonyError,
>)
    ensures
        r matches Ok(globals) && globals.deep_view() == prompt_values(issue@, attempt),
{
    let issue_value = match json_to_liquid(&issue_to_json(issue)) {
        Ok(value) => value,
        Err(error) => {
            return Err(error);
        },
    };
    let attempt_value = match attempt {
        Some(n) => LiquidValue::Integer(n as i64),
        None => LiquidValue::Nil,
    };
    let mut globals: Vec<(String, LiquidValue)> = Vec::new();
    globals.push(("issue".to_owned(), issue_value));
    globals.push(("attempt".to_owned(), attempt_value));
    proof {
        assert(globals.deep_view() =~= prompt_values(issue@, attempt));
    }
    Ok(globals)
}

/// The prompt that rendering gave, or why it failed.
pub fn rendered_prompt(rendered: Result<String, String>) -> (r: Result<String, SymphonyError>)
    ensures
        match rendered {
            Ok(text) => r matches Ok(prompt) && prompt@ == text@,
            Err(message) => r matches Err(error) && error@ == ErrorView::TemplateRenderError(
                message@,
            ),
        },
{
    match rendered {
        Ok(text) => Ok(text),
        Err(message) => Err(SymphonyError::TemplateRenderError(message)),
    }
}

/// The prompts of runs: a parsed template for the first turn, and a fixed text for further ones.
pub struct PromptRenderer {
    source: String,
    template: liquid::Template,
}

impl PromptRenderer {
    /// The text of the template for the first turn.
    pub closed spec fn source(self) -> Seq<char> {
        self.source@
    }

    /// Parse the template of a prompt.
    pub fn compile(prompt_template: &str) -> (r: Result<PromptRenderer, SymphonyError>)
        requires
            can_try(prompt_source(prompt_template@)),
        ensures
            match r {
                Ok(renderer) => liquid_refusal(prompt_source(prompt_template@)) is None
                    && renderer.source() == prompt_source(prompt_template@),
                Err(error) => liquid_refusal(prompt_source(prompt_template@)) matches Some(message)
                    && error@ == ErrorView::TemplateParseError(message),
            },
    {
        let parsed = if is_blank_text(prompt_template) {
            parse_template("You are working on an issue from Linear.")
        } else {
            parse_template(trim(prompt_template))
        };
        match parsed {
            Ok(renderer) => Ok(renderer),
            Err(message) => Err(SymphonyError::TemplateParseError(message)),
        }
    }

    /// Whether the prompt of the first turn can be rendered for an issue.
    pub fn is_renderable(&self, issue: &Issue, attempt: Option<u32>) -> (r: bool)
        ensures
            r == can_render(self.source(), prompt_values(issue@, attempt)),
    {
        match prompt_globals(issue, attempt) {
            Ok(globals) => is_safe_to_render(&chars_of(self.source.as_str()), &globals),
            Err(_) => false,
        }
    }

    /// The prompt of the first turn of a run: the template, rendered with what [`prompt_globals`]
    /// gives, as [`rendered_prompt`] tells it. Where the template has no tags but those that name a
    /// value, or one that stands in for it, it is the template with the values in their place.
    pub fn render_issue_prompt(&self, issue: &Issue, attempt: Option<u32>) -> (r: Result<
        String,
        SymphonyError,
    >)
        requires
            can_render(self.source(), prompt_values(issue@, attempt)),
        ensures
            match filling(self.source(), 0, prompt_values(issue@, attempt)) {
                Filling::Text(text) => r matches Ok(prompt) && prompt@ == text,
                Filling::Fails => r is Err,
                Filling::Unclear => true,
            },
            is_settled(self.source()) ==> match liquid_rendering(
                self.source(),
                prompt_values(issue@, attempt),
            ) {
                Ok(text) => r matches Ok(prompt) && prompt@ == text,
                Err(message) => r matches Err(error) && error@ == ErrorView::TemplateRenderError(
                    message,
                ),
            },
            r matches Err(error) ==> error@ is TemplateRenderError,
    {
        match prompt_globals(issue, attempt) {
            Ok(globals) => rendered_prompt(render_template(self, &globals)),
            Err(error) => Err(error),
        }
    }

    /// The prompt of a further turn.
    pub fn continuation_prompt(
        &self,
        issue: &Issue,
        turn_number: u32,
        max_turns: u32,
        attempt: Option<u32>,
    ) -> (r: String)
        ensures
            r@ == continuation_text(issue@, turn_number, max_turns, attempt),
    {
        continue_issue(issue, turn_number, max_turns, attempt)
    }
}

/// The prompt of a further turn.
pub fn continue_issue(
    issue: &Issue,
    turn_number: u32,
    max_turns: u32,
    attempt: Option<u32>,
) -> (r: String)
    ensures
        r@ == continuation_text(issue@, turn_number, max_turns, attempt),
{
    let mut r = "Continue working on issue ".to_owned();
    r.append(issue.identifier.as_str());
    r.append(" (");
    r.append(issue.title.as_str());
    r.append(") in the existing thread. This is continuation turn ");
    r.append(decimal_text(turn_number as u64).as_str());
    r.append(" of ");
    r.append(decimal_text(max_turns as u64).as_str());
    r.append(". Retry attempt: ");
    match attempt {
        Some(n) => r.append(decimal_text(n as u64).as_str()),
        None => r.append("initial"),
    }
    r.append(
        ". Do not repeat the original task prompt. Focus on the next concrete step, keep edits inside the issue workspace, and leave a clear handoff if you are blocked.",
    );
    r
}

// ---------------------------------------------------------------------------
// Runtimes
// ---------------------------------------------------------------------------

/// A configuration and its prompts.
pub struct WorkflowRuntime {
    pub config: EffectiveConfig,
    pub prompt: PromptRenderer,
}

/// The configuration of a runtime: that of the workflow file, where work can be dispatched with it
/// and its prompt can be parsed.
pub open spec fn runtime_config(
    path: Seq<char>,
    prompt_template: Seq<char>,
    raw: RawWorkflowConfig,
    env: EnvironmentView,
    refusal: Option<Seq<char>>,
) -> Result<EffectiveConfigView, ErrorView> {
    match effective_config(path, prompt_template, raw, env) {
        Err(error) => Err(error),
        Ok(config) => match dispatch_problem(config) {
            Some(error) => Err(error),
            None => match refusal {
                Some(message) => Err(ErrorView::TemplateParseError(message)),
                None => Ok(config),
            },
        },
    }
}

/// Make the configuration complete, check it, and parse its prompt.
pub fn build_workflow_runtime(
    path: &str,
    definition: &WorkflowDefinition,
    raw: RawWorkflowConfig,
    env: &Environment,
) -> (r: Result<WorkflowRuntime, SymphonyError>)
    requires
        can_try(prompt_source(definition@.prompt_template)),
    ensures
        ({
            let config = runtime_config(
                path@,
                definition@.prompt_template,
                raw,
                env@,
                liquid_refusal(prompt_source(definition@.prompt_template)),
            );
            match r {
                Ok(runtime) => config == Ok::<EffectiveConfigView, ErrorView>(runtime.config@)
                    && runtime.prompt.source() == prompt_source(definition@.prompt_template),
                Err(error) => config == Err::<EffectiveConfigView, ErrorView>(error@),
            }
        }),
{
    let config = match build_effective_config(path, definition, raw, env) {
        Ok(config) => config,
        Err(error) => {
            return Err(error);
        },
    };
    match validate_dispatch_config(&config) {
        Ok(()) => {},
        Err(error) => {
            return Err(error);
        },
    }
    match PromptRenderer::compile(definition.prompt_template.as_str()) {
        Ok(prompt) => Ok(WorkflowRuntime { config, prompt }),
        Err(error) => Err(error),
    }
}

/// What a workflow file says, where there is one at the path.
pub open spec fn loaded_definition(path: Seq<char>, content: Option<Seq<char>>) -> Result<
    WorkflowDefinitionView,
    ErrorView,
> {
    match content {
        Some(content) => workflow_definition(content, workflow_reading(content)),
        None => Err(ErrorView::MissingWorkflowFile(path)),
    }
}

/// Read the workflow file that stands at a path, if one does.
pub fn load_workflow_definition(path: &str, content: Option<&str>) -> (r: Result<
    WorkflowDefinition,
    SymphonyError,
>)
    ensures
        match r {
            Ok(definition) => loaded_definition(path@, content.deep_view()) == Ok::<
                WorkflowDefinitionView,
                ErrorView,
            >(definition@),
            Err(error) => loaded_definition(path@, content.deep_view()) == Err::<
                WorkflowDefinitionView,
                ErrorView,
            >(error@),
        },
{
    match content {
        Some(content) => parse_workflow_definition(content),
        None => Err(SymphonyError::MissingWorkflowFile(path.to_owned())),
    }
}

/// The configuration of the runtime that a workflow file is loaded as. The front matter may be none of
/// a configuration; the text is that of the error. A template that `liquid` cannot try to parse is
/// refused.
pub open spec fn loaded_config(
    path: Seq<char>,
    prompt_template: Seq<char>,
    raw: Result<RawWorkflowConfig, String>,
    env: EnvironmentView,
) -> Result<EffectiveConfigView, ErrorView> {
    match raw {
        Err(message) => Err(ErrorView::WorkflowParseError(message@)),
        Ok(raw) => runtime_config(
            path,
            prompt_template,
            raw,
            env,
            if can_try(prompt_source(prompt_template)) {
                liquid_refusal(prompt_source(prompt_template))
            } else {
                Some("the template cannot be read"@)
            },
        ),
    }
}

/// Load what a workflow file says: complete the configuration, check it, and parse the prompt.
pub fn load_workflow_runtime(
    path: &str,
    definition: &WorkflowDefinition,
    raw: Result<RawWorkflowConfig, String>,
    env: &Environment,
) -> (r: Result<WorkflowRuntime, SymphonyError>)
    ensures
        ({
            let config = loaded_config(path@, definition@.prompt_template, raw, env@);
            match r {
                Ok(runtime) => config == Ok::<EffectiveConfigView, ErrorView>(runtime.config@)
                    && runtime.prompt.source() == prompt_source(definition@.prompt_template),
                Err(error) => config == Err::<EffectiveConfigView, ErrorView>(error@),
            }
        }),
{
    let raw = match raw {
        Ok(raw) => raw,
        Err(message) => {
            return Err(SymphonyError::WorkflowParseError(message));
        },
    };
    if is_compilable(definition.prompt_template.as_str()) {
        return build_workflow_runtime(path, definition, raw, env);
    }
    let config = match build_effective_config(path, definition, raw, env) {
        Ok(config) => config,
        Err(error) => {
            return Err(error);
        },
    };
    match validate_dispatch_config(&config) {
        Ok(()) => Err(SymphonyError::TemplateParseError("the template cannot be read".to_owned())),
        Err(error) => Err(error),
    }
}

// ---------------------------------------------------------------------------
// Laws
// ---------------------------------------------------------------------------

proof fn lemma_unix_newlines_fixed(text: Seq<char>)
    requires
        !text.contains('\r'),
    ensures
        unix_newlines(text) == text,
    decreases text.len(),
{
    if text.len() > 0 {
        assert(text.contains(text[0]));
        let rest = text.skip(1);
        assert(!rest.contains('\r')) by {
            if rest.contains('\r') {
                let i = choose|i: int| 0 <= i < rest.len() && rest[i] == '\r';
                assert(text[i + 1] == '\r');
            }
        }
        lemma_unix_newlines_fixed(rest);
        assert(seq![text[0]] + rest =~= text);
    }
}

/// What is written between the delimiters of a workflow file is what is read from it: of a file that
/// is made of front matter and a body, with line feeds alone at the ends of lines and no closing
/// delimiter within the front matter, the parts are that front matter and that body.
pub proof fn lemma_workflow_is_split_at_delimiters(yaml: Seq<char>, body: Seq<char>)
    requires
        !yaml.contains('\r'),
        !body.contains('\r'),
        forall|i: int| 0 <= i < yaml.len() ==> !occurs_at(yaml + "\n---\n"@, "\n---\n"@, i),
    ensures
        workflow_parts("---\n"@ + yaml + "\n---\n"@ + body) == Ok::<
            (Option<Seq<char>>, Seq<char>),
            ErrorView,
        >((Some(yaml), body)),
{
    reveal_strlit("---\n");
    reveal_strlit("\n---\n");
    let opening = "---\n"@;
    let closing = "\n---\n"@;
    let text = opening + yaml + closing + body;
    assert(!text.contains('\r')) by {
        if text.contains('\r') {
            let i = choose|i: int| 0 <= i < text.len() && text[i] == '\r';
            if 4 <= i < 4 + yaml.len() {
                assert(yaml[i - 4] == '\r');
            } else if i >= 4 + yaml.len() + 5 {
                assert(body[i - 4 - yaml.len() - 5] == '\r');
            }
        }
    }
    lemma_unix_newlines_fixed(text);
    assert(opening =~= text.subrange(0, 4));
    let rest = text.skip(4);
    assert(rest =~= yaml + closing + body);
    let n = yaml.len() as int;
    assert(rest.subrange(n, n + 5) =~= closing);
    assert(occurs_at(rest, closing, n));
    assert forall|j: int| 0 <= j < n implies !#[trigger] occurs_at(rest, closing, j) by {
        if occurs_at(rest, closing, j) {
            assert((yaml + closing).subrange(j, j + 5) =~= rest.subrange(j, j + 5));
            assert(occurs_at(yaml + closing, closing, j));
        }
    }
    assert(is_first_occurrence(rest, closing, n));
    lemma_first_occurrence(rest, closing, n);
    assert(rest.take(n) =~= yaml);
    assert(rest.skip(n + 5) =~= body);
}

/// A file that does not begin with a line of three dashes is all prompt.
pub proof fn lemma_workflow_without_front_matter(content: Seq<char>, reading: FrontMatterView)
    requires
        !"---\n"@.is_prefix_of(unix_newlines(content)),
    ensures
        workflow_definition(content, reading) == Ok::<WorkflowDefinitionView, ErrorView>(
            WorkflowDefinitionView {
                config: seq![],
                prompt_template: trimmed(unix_newlines(content)),
            },
        ),
{
}

/// No runtime is loaded with which no work can be dispatched, and each has the path and the prompt of
/// the workflow file that it was loaded from.
pub proof fn lemma_loaded_runtimes_can_dispatch(
    path: Seq<char>,
    content: Option<Seq<char>>,
    raw: Result<RawWorkflowConfig, String>,
    env: EnvironmentView,
)
    ensures
        content is None ==> loaded_definition(path, content) == Err::<
            WorkflowDefinitionView,
            ErrorView,
        >(ErrorView::MissingWorkflowFile(path)),
        loaded_definition(path, content) matches Ok(definition) ==> (loaded_config(
            path,
            definition.prompt_template,
            raw,
            env,
        ) matches Ok(config) ==> {
            &&& dispatch_problem(config) is None
            &&& config.workflow_path == path
            &&& config.prompt_template == definition.prompt_template
        }),
{
}

} // verus!
