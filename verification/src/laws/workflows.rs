//! What a workflow file says, and what a prompt is made of.
use vstd::prelude::*;

use crate::config::{dispatch_problem, effective_config, EnvironmentView, RawWorkflowConfig};
use crate::error::ErrorView;
use crate::json::JsonView;
use crate::laws::overview::{text_or_null, time_or_null};
use crate::laws::values::holds;
use crate::template::can_try;
use crate::text::{
    all_digits, decimal, digit, digits_value, first_occurrence, i64_literal, integer_literal,
    is_absent, is_first_occurrence, occurs_at, trimmed, unix_newlines,
};
use crate::types::{BlockerRefView, EffectiveConfigView, IssueView, WorkflowDefinitionView};
use crate::workflow::{
    blocker_json, front_matter_reading, issue_json, liquid_of, liquid_of_items, liquid_of_members,
    liquid_refusal, loaded_config, loaded_definition, prompt_source, prompt_values, runtime_config,
    workflow_definition, workflow_parts, workflow_reading, yaml_as_json, yaml_kind, FrontMatterView,
    LiquidView, YamlKind,
};

verus! {

// ---------------------------------------------------------------------------
// The file
// ---------------------------------------------------------------------------

/// A file that begins with a line of three dashes has as its front matter what stands between that and the
/// next such line, and as its rest what stands behind; without a next such line it is refused. Any other
/// file is all rest.
pub proof fn lemma_parts_of_a_file(content: Seq<char>, front: Seq<char>, body: Seq<char>)
    ensures
        ({
            let text = unix_newlines(content);
            let rest = front + "\n---\n"@ + body;
            &&& text == "---\n"@ + rest && (forall|i: int|
                0 <= i < front.len() ==> #[trigger] rest.subrange(i, i + 5) != "\n---\n"@)
                ==> workflow_parts(content) == Ok::<(Option<Seq<char>>, Seq<char>), ErrorView>(
                (Some(front), body),
            )
            &&& text == "---\n"@ + body && (forall|i: int|
                0 <= i <= body.len() - 5 ==> #[trigger] body.subrange(i, i + 5) != "\n---\n"@)
                ==> workflow_parts(content) == Err::<(Option<Seq<char>>, Seq<char>), ErrorView>(
                ErrorView::WorkflowParseError("missing closing front matter delimiter"@),
            )
            &&& text.len() < 4 || text.take(4) != "---\n"@ ==> workflow_parts(content) == Ok::<
                (Option<Seq<char>>, Seq<char>),
                ErrorView,
            >((None, text))
        }),
{
    reveal_strlit("---\n");
    reveal_strlit("\n---\n");
    assert("---\n"@.len() == 4);
    assert("\n---\n"@.len() == 5);
    let text = unix_newlines(content);
    let rest = front + "\n---\n"@ + body;
    let end = front.len() as int;
    if text == "---\n"@ + rest && (forall|i: int|
        0 <= i < front.len() ==> #[trigger] rest.subrange(i, i + 5) != "\n---\n"@) {
        assert(text.subrange(0, 4) =~= "---\n"@);
        assert(text.skip(4) =~= rest);
        assert(rest.subrange(end, end + 5) =~= "\n---\n"@);
        assert(occurs_at(rest, "\n---\n"@, end));
        assert forall|j: int| 0 <= j < end implies !#[trigger] occurs_at(rest, "\n---\n"@, j) by {
            assert(rest.subrange(j, j + 5) != "\n---\n"@);
        }
        assert(is_first_occurrence(rest, "\n---\n"@, end));
        let found = choose|i: int| is_first_occurrence(rest, "\n---\n"@, i);
        assert(is_first_occurrence(rest, "\n---\n"@, found));
        if found < end {
            assert(!occurs_at(rest, "\n---\n"@, found));
        } else if end < found {
            assert(!occurs_at(rest, "\n---\n"@, end));
        }
        assert(first_occurrence(rest, "\n---\n"@) == Some(end));
        assert(rest.take(end) =~= front);
        assert(rest.skip(end + 5) =~= body);
    }
    if text == "---\n"@ + body && (forall|i: int|
        0 <= i <= body.len() - 5 ==> #[trigger] body.subrange(i, i + 5) != "\n---\n"@) {
        assert(text.subrange(0, 4) =~= "---\n"@);
        assert(text.skip(4) =~= body);
        assert forall|j: int| !#[trigger] occurs_at(body, "\n---\n"@, j) by {
            if 0 <= j <= body.len() - 5 {
                assert(body.subrange(j, j + 5) != "\n---\n"@);
            }
        }
        assert(is_absent(body, "\n---\n"@));
    }
    if text.len() >= 4 {
        assert(text.take(4) =~= text.subrange(0, 4));
    }
}

/// A workflow says what its front matter holds, which must be a mapping, and nothing without front matter;
/// its prompt is the rest without the space around it.
pub proof fn lemma_definition(content: Seq<char>, reading: FrontMatterView)
    ensures
        workflow_parts(content) is Err ==> workflow_definition(content, reading) == Err::<
            WorkflowDefinitionView,
            ErrorView,
        >(workflow_parts(content)->Err_0),
        workflow_parts(content) matches Ok((front, body)) ==> {
            &&& front is None ==> {
                &&& workflow_definition(content, reading) is Ok
                &&& workflow_definition(content, reading)->Ok_0.config.len() == 0
                &&& workflow_definition(content, reading)->Ok_0.prompt_template == trimmed(body)
            }
            &&& front is Some && reading is Mapping && reading->Mapping_0 is Ok
                && reading->Mapping_0->Ok_0 is Object ==> {
                &&& workflow_definition(content, reading) is Ok
                &&& workflow_definition(content, reading)->Ok_0.config
                    == reading->Mapping_0->Ok_0->Object_0
                &&& workflow_definition(content, reading)->Ok_0.prompt_template == trimmed(body)
            }
            &&& front is Some && reading is Invalid ==> workflow_definition(content, reading) == Err::<
                WorkflowDefinitionView,
                ErrorView,
            >(ErrorView::Yaml(reading->Invalid_0))
            &&& front is Some && reading is Other ==> workflow_definition(content, reading) == Err::<
                WorkflowDefinitionView,
                ErrorView,
            >(ErrorView::WorkflowFrontMatterNotAMap)
            &&& front is Some && reading is Mapping && reading->Mapping_0 is Err
                ==> workflow_definition(content, reading) == Err::<WorkflowDefinitionView, ErrorView>(
                ErrorView::Json(reading->Mapping_0->Err_0),
            )
            &&& front is Some && reading is Mapping && reading->Mapping_0 is Ok && !(
            reading->Mapping_0->Ok_0 is Object) ==> workflow_definition(content, reading) == Err::<
                WorkflowDefinitionView,
                ErrorView,
            >(ErrorView::WorkflowFrontMatterNotAMap)
            &&& front is Some ==> workflow_reading(content) == front_matter_reading(front.unwrap())
        },
{
}

/// Front matter is read as YAML. Only a mapping is taken as JSON.
pub proof fn lemma_reading_of_front_matter(yaml: Seq<char>)
    ensures
        yaml_kind(yaml) matches Err(error) ==> front_matter_reading(yaml) == FrontMatterView::Invalid(
            error,
        ),
        yaml_kind(yaml) == Ok::<YamlKind, Seq<char>>(YamlKind::Mapping) ==> front_matter_reading(yaml)
            == FrontMatterView::Mapping(yaml_as_json(yaml)),
        yaml_kind(yaml) matches Ok(kind) ==> kind != YamlKind::Mapping ==> front_matter_reading(yaml)
            == FrontMatterView::Other(kind),
{
}

/// A file that is missing is told by its path; one that is there says what its own front matter reads as.
pub proof fn lemma_loading(path: Seq<char>, content: Seq<char>)
    ensures
        loaded_definition(path, None) == Err::<WorkflowDefinitionView, ErrorView>(
            ErrorView::MissingWorkflowFile(path),
        ),
        loaded_definition(path, Some(content)) == workflow_definition(
            content,
            workflow_reading(content),
        ),
{
}

/// A runtime has the configuration that is asked for, completed, if and only if nothing is wrong with that,
/// work can be dispatched with it, and its prompt can be parsed; else the first that is wrong is told.
pub proof fn lemma_runtime(
    path: Seq<char>,
    prompt_template: Seq<char>,
    raw: RawWorkflowConfig,
    env: EnvironmentView,
    refusal: Option<Seq<char>>,
)
    ensures
        ({
            let built = effective_config(path, prompt_template, raw, env);
            let r = runtime_config(path, prompt_template, raw, env, refusal);
            &&& r is Ok <==> built is Ok && dispatch_problem(built->Ok_0) is None && refusal is None
            &&& r is Ok ==> r == built
            &&& built is Err ==> r == built
            &&& built is Ok && dispatch_problem(built->Ok_0) is Some ==> r == Err::<
                EffectiveConfigView,
                ErrorView,
            >(dispatch_problem(built->Ok_0).unwrap())
            &&& built is Ok && dispatch_problem(built->Ok_0) is None && refusal is Some ==> r == Err::<
                EffectiveConfigView,
                ErrorView,
            >(ErrorView::TemplateParseError(refusal.unwrap()))
        }),
{
}

/// What a workflow is loaded as is refused where the front matter is no configuration, and otherwise is the
/// runtime with the prompt that stands in the file.
pub proof fn lemma_loaded_runtime(
    path: Seq<char>,
    prompt_template: Seq<char>,
    raw: Result<RawWorkflowConfig, String>,
    env: EnvironmentView,
)
    ensures
        raw matches Err(message) ==> loaded_config(path, prompt_template, raw, env) == Err::<
            EffectiveConfigView,
            ErrorView,
        >(ErrorView::WorkflowParseError(message@)),
        raw matches Ok(asked) ==> {
            &&& can_try(prompt_source(prompt_template)) ==> loaded_config(
                path,
                prompt_template,
                raw,
                env,
            ) == runtime_config(
                path,
                prompt_template,
                asked,
                env,
                liquid_refusal(prompt_source(prompt_template)),
            )
            &&& !can_try(prompt_source(prompt_template)) ==> loaded_config(
                path,
                prompt_template,
                raw,
                env,
            ) == runtime_config(
                path,
                prompt_template,
                asked,
                env,
                Some("the template cannot be read"@),
            )
        },
{
}

// ---------------------------------------------------------------------------
// The prompt
// ---------------------------------------------------------------------------

/// The template of a prompt is what the file gives without the space around it, and a fixed sentence where
/// that is nothing.
pub proof fn lemma_template_of_a_prompt(prompt_template: Seq<char>)
    ensures
        trimmed(prompt_template).len() > 0 ==> prompt_source(prompt_template) == trimmed(
            prompt_template,
        ),
        trimmed(prompt_template).len() == 0 ==> prompt_source(prompt_template)
            == "You are working on an issue from Linear."@,
{
}

/// A prompt is rendered with the issue, under that name, and the number of the attempt, where there is one.
pub proof fn lemma_values_of_a_prompt(issue: IssueView, attempt: Option<u32>)
    ensures
        ({
            let values = prompt_values(issue, attempt);
            &&& values.len() == 2
            &&& values[0] == ("issue"@, liquid_of(issue_json(issue)))
            &&& values[1].0 == "attempt"@
            &&& attempt is Some ==> values[1].1 == LiquidView::Integer(attempt.unwrap() as i64)
            &&& attempt is None ==> values[1].1 is Nil
        }),
{
}

/// A template gets each JSON value as it is, item by item and member by member.
pub proof fn lemma_values_of_a_template(
    b: bool,
    n: u64,
    m: i64,
    s: Seq<char>,
    items: Seq<JsonView>,
    members: Seq<(Seq<char>, JsonView)>,
)
    ensures
        liquid_of(JsonView::Null) is Nil,
        liquid_of(JsonView::Bool(b)) == LiquidView::Bool(b),
        n <= i64::MAX ==> liquid_of(JsonView::PosInt(n)) == LiquidView::Integer(n as i64),
        n > i64::MAX ==> liquid_of(JsonView::PosInt(n)) == LiquidView::Large(n),
        liquid_of(JsonView::NegInt(m)) == LiquidView::Integer(m),
        liquid_of(JsonView::String(s)) == LiquidView::Str(s),
        liquid_of(JsonView::Array(items)) is Array,
        liquid_of(JsonView::Array(items))->Array_0.len() == items.len(),
        forall|i: int|
            0 <= i < items.len() ==> #[trigger] liquid_of(JsonView::Array(items))->Array_0[i]
                == liquid_of(items[i]),
        liquid_of(JsonView::Object(members)) is Object,
        liquid_of(JsonView::Object(members))->Object_0.len() == members.len(),
        forall|i: int|
            0 <= i < members.len() ==> #[trigger] liquid_of(JsonView::Object(members))->Object_0[i] == (
                members[i].0,
                liquid_of(members[i].1),
            ),
{
    lemma_items(items);
    lemma_members(members);
}

proof fn lemma_items(items: Seq<JsonView>)
    ensures
        liquid_of_items(items).len() == items.len(),
        forall|i: int|
            0 <= i < items.len() ==> #[trigger] liquid_of_items(items)[i] == liquid_of(items[i]),
    decreases items.len(),
{
    if items.len() > 0 {
        lemma_items(items.drop_last());
    }
}

proof fn lemma_members(members: Seq<(Seq<char>, JsonView)>)
    ensures
        liquid_of_members(members).len() == members.len(),
        forall|i: int|
            0 <= i < members.len() ==> #[trigger] liquid_of_members(members)[i] == (
                members[i].0,
                liquid_of(members[i].1),
            ),
    decreases members.len(),
{
    if members.len() > 0 {
        lemma_members(members.drop_last());
    }
}

/// A blocker is shown by what is known of it.
pub proof fn lemma_blocker_as_json(blocker: BlockerRefView)
    ensures
        ({
            let json = blocker_json(blocker);
            &&& json is Object
            &&& json->Object_0.len() == 3
            &&& holds(json, "id"@, text_or_null(blocker.id))
            &&& holds(json, "identifier"@, text_or_null(blocker.identifier))
            &&& holds(json, "state"@, text_or_null(blocker.state))
        }),
{
    reveal_strlit("id");
    reveal_strlit("identifier");
    reveal_strlit("state");
    assert("id"@.len() == 2);
    assert("identifier"@.len() == 10);
    assert("state"@.len() == 5);
    let json = blocker_json(blocker);
    let members = json->Object_0;
    assert(members[0] == ("id"@, text_or_null(blocker.id)));
    assert(members[1] == ("identifier"@, text_or_null(blocker.identifier)));
    assert(members[2] == ("state"@, text_or_null(blocker.state)));
    assert(holds(json, "id"@, text_or_null(blocker.id)));
    assert(holds(json, "identifier"@, text_or_null(blocker.identifier)));
    assert(holds(json, "state"@, text_or_null(blocker.state)));
}

/// An issue is shown with all that is known of it, each label and each blocker in order.
pub proof fn lemma_issue_as_json(issue: IssueView)
    ensures
        ({
            let json = issue_json(issue);
            &&& json is Object
            &&& json->Object_0.len() == 12
            &&& holds(json, "id"@, JsonView::String(issue.id))
            &&& holds(json, "identifier"@, JsonView::String(issue.identifier))
            &&& holds(json, "title"@, JsonView::String(issue.title))
            &&& holds(json, "description"@, text_or_null(issue.description))
            &&& holds(json, "state"@, JsonView::String(issue.state))
            &&& holds(json, "branch_name"@, text_or_null(issue.branch_name))
            &&& holds(json, "url"@, text_or_null(issue.url))
            &&& holds(json, "created_at"@, time_or_null(issue.created_at))
            &&& holds(json, "updated_at"@, time_or_null(issue.updated_at))
            &&& issue.priority is None ==> holds(json, "priority"@, JsonView::Null)
            &&& issue.priority matches Some(n) ==> {
                &&& n >= 0 ==> holds(json, "priority"@, JsonView::PosInt(n as u64))
                &&& n < 0 ==> holds(json, "priority"@, JsonView::NegInt(n))
            }
            &&& exists|items: Seq<JsonView>|
                {
                    &&& #[trigger] holds(json, "labels"@, JsonView::Array(items))
                    &&& items.len() == issue.labels.len()
                    &&& forall|i: int|
                        0 <= i < items.len() ==> #[trigger] items[i] == JsonView::String(issue.labels[i])
                }
            &&& exists|items: Seq<JsonView>|
                {
                    &&& #[trigger] holds(json, "blocked_by"@, JsonView::Array(items))
                    &&& items.len() == issue.blocked_by.len()
                    &&& forall|i: int|
                        0 <= i < items.len() ==> #[trigger] items[i] == blocker_json(issue.blocked_by[i])
                }
        }),
{
    reveal_strlit("id");
    reveal_strlit("identifier");
    reveal_strlit("title");
    reveal_strlit("description");
    reveal_strlit("priority");
    reveal_strlit("state");
    reveal_strlit("branch_name");
    reveal_strlit("url");
    reveal_strlit("labels");
    reveal_strlit("blocked_by");
    reveal_strlit("created_at");
    reveal_strlit("updated_at");
    assert("id"@.len() == 2);
    assert("identifier"@.len() == 10);
    assert("title"@.len() == 5);
    assert("description"@.len() == 11);
    assert("priority"@.len() == 8);
    assert("state"@.len() == 5);
    assert("branch_name"@.len() == 11);
    assert("url"@.len() == 3);
    assert("labels"@.len() == 6);
    assert("blocked_by"@.len() == 10);
    assert("created_at"@.len() == 10);
    assert("updated_at"@.len() == 10);
    assert("identifier"@[0] == 'i' && "blocked_by"@[0] == 'b');
    assert("identifier"@[0] == 'i' && "created_at"@[0] == 'c');
    assert("identifier"@[0] == 'i' && "updated_at"@[0] == 'u');
    assert("title"@[0] == 't' && "state"@[0] == 's');
    assert("description"@[0] == 'd' && "branch_name"@[0] == 'b');
    assert("blocked_by"@[0] == 'b' && "created_at"@[0] == 'c');
    assert("blocked_by"@[0] == 'b' && "updated_at"@[0] == 'u');
    assert("created_at"@[0] == 'c' && "updated_at"@[0] == 'u');
    let json = issue_json(issue);
    let members = json->Object_0;
    let labels = issue.labels.map_values(|s: Seq<char>| JsonView::String(s));
    let blockers = issue.blocked_by.map_values(|b: BlockerRefView| blocker_json(b));
    assert(members[0] == ("id"@, JsonView::String(issue.id)));
    assert(members[1] == ("identifier"@, JsonView::String(issue.identifier)));
    assert(members[2] == ("title"@, JsonView::String(issue.title)));
    assert(members[3] == ("description"@, text_or_null(issue.description)));
    assert(members[4].0 == "priority"@);
    assert(members[5] == ("state"@, JsonView::String(issue.state)));
    assert(members[6] == ("branch_name"@, text_or_null(issue.branch_name)));
    assert(members[7] == ("url"@, text_or_null(issue.url)));
    assert(members[8] == ("labels"@, JsonView::Array(labels)));
    assert(members[9] == ("blocked_by"@, JsonView::Array(blockers)));
    assert(members[10] == ("created_at"@, time_or_null(issue.created_at)));
    assert(members[11] == ("updated_at"@, time_or_null(issue.updated_at)));
    assert(holds(json, "id"@, JsonView::String(issue.id)));
    assert(holds(json, "identifier"@, JsonView::String(issue.identifier)));
    assert(holds(json, "title"@, JsonView::String(issue.title)));
    assert(holds(json, "description"@, text_or_null(issue.description)));
    assert(holds(json, "state"@, JsonView::String(issue.state)));
    assert(holds(json, "branch_name"@, text_or_null(issue.branch_name)));
    assert(holds(json, "url"@, text_or_null(issue.url)));
    assert(holds(json, "created_at"@, time_or_null(issue.created_at)));
    assert(holds(json, "updated_at"@, time_or_null(issue.updated_at)));
    assert(members[4] == ("priority"@, members[4].1));
    assert(holds(json, "priority"@, members[4].1));
    assert(holds(json, "labels"@, JsonView::Array(labels)));
    assert(holds(json, "blocked_by"@, JsonView::Array(blockers)));
}

// ---------------------------------------------------------------------------
// Numbers
// ---------------------------------------------------------------------------

/// The digits of a number are digits, they spell it, and the first of several is no zero.
pub proof fn lemma_digits_of_a_number(n: nat)
    ensures
        decimal(n).len() > 0,
        all_digits(decimal(n)),
        digits_value(decimal(n)) == n,
        n > 0 ==> decimal(n)[0] != '0',
    decreases n,
{
    let c = digit(n % 10);
    assert('0' as u32 == 48 && '9' as u32 == 57);
    assert(c as u32 == 48 + n % 10);
    if n >= 10 {
        lemma_digits_of_a_number(n / 10);
        assert(decimal(n).drop_last() =~= decimal(n / 10));
        assert(decimal(n)[0] == decimal(n / 10)[0]);
        assert forall|i: int| 0 <= i < decimal(n).len() implies '0' <= #[trigger] decimal(n)[i]
            <= '9' by {
            if i < decimal(n / 10).len() {
                assert(decimal(n)[i] == decimal(n / 10)[i]);
            }
        }
    } else {
        assert(decimal(n).drop_last() =~= Seq::empty());
        assert(decimal(n).last() == c);
        reveal_with_fuel(digits_value, 2);
    }
}

/// A number that was written in digits reads as itself, behind a plus too, and behind a minus as its
/// negative, as far as it fits in 64 bits; a text with anything else in it reads as none.
pub proof fn lemma_numbers_are_read(n: nat, s: Seq<char>, i: int)
    ensures
        n <= i64::MAX ==> i64_literal(decimal(n)) == Some(n as i64),
        n <= i64::MAX ==> i64_literal(seq!['+'] + decimal(n)) == Some(n as i64),
        n <= i64::MAX + 1 ==> i64_literal(seq!['-'] + decimal(n)) == Some((-n) as i64),
        n > i64::MAX ==> i64_literal(decimal(n)) is None,
        n > i64::MAX + 1 ==> i64_literal(seq!['-'] + decimal(n)) is None,
        s.len() == 0 ==> i64_literal(s) is None,
        0 <= i < s.len() && !('0' <= s[i] <= '9') && !(i == 0 && (s[0] == '-' || s[0] == '+'))
            ==> i64_literal(s) is None,
        s.len() == 1 && (s[0] == '-' || s[0] == '+') ==> i64_literal(s) is None,
{
    lemma_digits_of_a_number(n);
    let d = decimal(n);
    assert('0' <= d[0] <= '9');
    assert((seq!['+'] + d).drop_first() =~= d);
    assert((seq!['-'] + d).drop_first() =~= d);
    assert((seq!['-'] + d)[0] == '-');
    assert((seq!['+'] + d)[0] == '+');
    if 0 <= i < s.len() && !('0' <= s[i] <= '9') && !(i == 0 && (s[0] == '-' || s[0] == '+')) {
        if s[0] == '-' || s[0] == '+' {
            assert(s.drop_first()[i - 1] == s[i]);
        }
        assert(integer_literal(s) is None);
    }
}

} // verus!
