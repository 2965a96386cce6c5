//! What stands in a prompt in the place of a tag.
use vstd::prelude::*;

use crate::filling::{
    behind, filling, followed, last_value, looked_up, tag_filling, Filling, Lookup,
};
use crate::json::JsonView;
use crate::laws::values::{has_none, holds, is_last, lacks};
use crate::laws::workflows::{lemma_issue_as_json, lemma_values_of_a_template};
use crate::template::{
    chain_end, closing_end, content_at, digits_from, filters_end, goes_on_name, literal_at, name_at,
    name_from, path_end, spaces_from, tag_end, tag_start, value_end,
};
use crate::text::{decimal, occurs_at};
use crate::types::IssueView;
use crate::workflow::{issue_json, liquid_of, prompt_values, LiquidView};

verus! {

/// A name in lower case, with underscores.
pub open spec fn is_key(key: Seq<char>) -> bool {
    key.len() > 0 && forall|i: int|
        0 <= i < key.len() ==> 'a' <= #[trigger] key[i] <= 'z' || key[i] == '_'
}

/// The text that stands in a prompt for a value: a text and an integer as they are, and nothing for nil.
pub open spec fn text_of(value: LiquidView) -> Option<Seq<char>> {
    match value {
        LiquidView::Str(s) => Some(s),
        LiquidView::Integer(n) => Some(
            if n < 0 {
                seq!['-'] + decimal((-n) as nat)
            } else {
                decimal(n as nat)
            },
        ),
        LiquidView::Nil => Some(Seq::empty()),
        _ => None,
    }
}

proof fn lemma_name_run(text: Seq<char>, at: nat, n: nat)
    requires
        at + n < text.len(),
        forall|i: int| at <= i < at + n ==> 'a' <= #[trigger] text[i] <= 'z' || text[i] == '_',
        text[(at + n) as int] == '.' || text[(at + n) as int] == ' ',
    ensures
        name_from(text, at) == n,
        name_at(text, at) == n,
    decreases n,
{
    if n > 0 {
        assert('a' <= text[at as int] <= 'z' || text[at as int] == '_');
        lemma_name_run(text, at + 1, (n - 1) as nat);
    } else {
        assert(!goes_on_name(text, at));
    }
}

proof fn lemma_no_literal(text: Seq<char>, at: nat)
    requires
        at < text.len(),
        text[at as int] == 'i' || text[at as int] == 'a',
    ensures
        literal_at(text, at) == 0,
{
    reveal_strlit("nil");
    reveal_strlit("null");
    reveal_strlit("empty");
    reveal_strlit("blank");
    reveal_strlit("true");
    reveal_strlit("false");
    let i = at as int;
    if occurs_at(text, "nil"@, i) {
        assert(text.subrange(i, i + 3)[0] == text[i]);
    }
    if occurs_at(text, "null"@, i) {
        assert(text.subrange(i, i + 4)[0] == text[i]);
    }
    if occurs_at(text, "empty"@, i) {
        assert(text.subrange(i, i + 5)[0] == text[i]);
    }
    if occurs_at(text, "blank"@, i) {
        assert(text.subrange(i, i + 5)[0] == text[i]);
    }
    if occurs_at(text, "true"@, i) {
        assert(text.subrange(i, i + 4)[0] == text[i]);
    }
    if occurs_at(text, "false"@, i) {
        assert(text.subrange(i, i + 5)[0] == text[i]);
    }
    assert(digits_from(text, at) == 0);
}

proof fn lemma_last_value(members: Seq<(Seq<char>, LiquidView)>, i: int)
    requires
        0 <= i < members.len(),
        forall|j: int| i < j < members.len() ==> (#[trigger] members[j]).0 != members[i].0,
    ensures
        last_value(members, members[i].0) == Some(members[i].1),
    decreases members.len(),
{
    if i < members.len() - 1 {
        let head = members.drop_last();
        assert(members[members.len() - 1].0 != members[i].0);
        assert(head[i] == members[i]);
        assert forall|j: int| i < j < head.len() implies (#[trigger] head[j]).0 != head[i].0 by {
            assert(head[j] == members[j]);
        }
        lemma_last_value(head, i);
    }
}

/// A tag that names a member of the issue, by a name of some length, stands at a place.
spec fn has_shape(text: Seq<char>, a: int, n: int) -> bool {
    &&& 0 <= a && 0 < n && a + 12 + n <= text.len()
    &&& text[a] == '{' && text[a + 1] == '{' && text[a + 2] == ' '
    &&& text[a + 3] == 'i' && text[a + 4] == 's' && text[a + 5] == 's'
    &&& text[a + 6] == 'u' && text[a + 7] == 'e' && text[a + 8] == '.'
    &&& forall|i: int|
        a + 9 <= i < a + 9 + n ==> 'a' <= #[trigger] text[i] <= 'z' || text[i] == '_'
    &&& text[a + 9 + n] == ' ' && text[a + 10 + n] == '}' && text[a + 11 + n] == '}'
}

/// The tag that names a member of the issue under the key stands at a place.
pub open spec fn names_member(template: Seq<char>, at: nat, key: Seq<char>) -> bool {
    is_key(key) && occurs_at(template, "{{ issue."@ + key + " }}"@, at as int)
}

proof fn lemma_shape(template: Seq<char>, at: nat, key: Seq<char>)
    requires
        names_member(template, at, key),
    ensures
        has_shape(template, at as int, key.len() as int),
        template.subrange(at as int + 3, at as int + 8) == "issue"@,
        template.subrange(at as int + 9, at as int + 9 + key.len()) == key,
{
    let (a, n) = (at as int, key.len() as int);
    let tag = "{{ issue."@ + key + " }}"@;
    reveal_strlit("{{ issue.");
    reveal_strlit(" }}");
    reveal_strlit("issue");
    assert("{{ issue."@.len() == 9);
    assert(" }}"@.len() == 3);
    let cut = template.subrange(a, a + 12 + n);
    assert(cut == tag);
    assert forall|i: int| 0 <= i < 12 + n implies #[trigger] template[a + i] == tag[i] by {
        assert(cut[i] == template[a + i]);
    }
    assert(template[a + 0] == tag[0]);
    assert(template[a + 9 + n] == template[a + (9 + n)]);
    assert(template[a + 10 + n] == template[a + (10 + n)]);
    assert(template[a + 11 + n] == template[a + (11 + n)]);
    assert forall|j: int| 0 <= j < n implies #[trigger] template[a + 9 + j] == key[j] by {
        assert(template[a + (9 + j)] == tag[9 + j]);
    }
    assert forall|i: int| a + 9 <= i < a + 9 + n implies 'a' <= #[trigger] template[i] <= 'z'
        || template[i] == '_' by {
        assert(template[a + 9 + (i - a - 9)] == key[i - a - 9]);
    }
    let word = template.subrange(a + 3, a + 8);
    assert(word[0] == template[a + 3] && word[1] == template[a + 4] && word[2] == template[a + 5]);
    assert(word[3] == template[a + 6] && word[4] == template[a + 7]);
    assert(word =~= "issue"@);
    let name = template.subrange(a + 9, a + 9 + n);
    assert forall|j: int| 0 <= j < n implies name[j] == key[j] by {
        assert(name[j] == template[a + 9 + j]);
    }
    assert(name =~= key);
}

proof fn lemma_inside(text: Seq<char>, at: nat, n: nat)
    requires
        has_shape(text, at as int, n as int),
    ensures
        tag_start(text, at) == at,
        content_at(text, at as int) == at + 3,
        literal_at(text, at + 3) == 0,
        name_at(text, at + 3) == 5,
        name_at(text, at + 9) == n,
{
    let a = at as int;
    assert(spaces_from(text, at) == 0);
    assert(text[a + 3] == 'i');
    assert(spaces_from(text, at + 3) == 0);
    assert(spaces_from(text, at + 2) == 1);
    lemma_no_literal(text, at + 3);
    assert forall|i: int| at + 3 <= i < at + 3 + 5 implies 'a' <= #[trigger] text[i] <= 'z'
        || text[i] == '_' by {
        assert(i == a + 3 || i == a + 4 || i == a + 5 || i == a + 6 || i == a + 7);
    }
    lemma_name_run(text, at + 3, 5);
    lemma_name_run(text, at + 9, n);
}

proof fn lemma_end(text: Seq<char>, at: nat, n: nat)
    requires
        has_shape(text, at as int, n as int),
    ensures
        chain_end(text, at + 3) == Some(at + 9 + n),
        tag_end(text, at as int) == Some(at + 12 + n),
{
    let a = at as int;
    let v = at + 9 + n;
    lemma_inside(text, at, n);
    assert(text[v as int] == ' ');
    assert(path_end(text, v) == v);
    assert(path_end(text, at + 8) == v);
    assert(value_end(text, at + 3) == Some(v));
    assert(text[v as int + 1] == '}');
    assert(spaces_from(text, v + 1) == 0);
    assert(spaces_from(text, v) == 1);
    assert(filters_end(text, v) == v);
    assert(closing_end(text, v, '}') == Some(v + 3));
}

proof fn lemma_found(
    template: Seq<char>,
    at: nat,
    key: Seq<char>,
    values: Seq<(Seq<char>, LiquidView)>,
    members: Seq<(Seq<char>, LiquidView)>,
    value: LiquidView,
)
    requires
        names_member(template, at, key),
        last_value(values, "issue"@) == Some(LiquidView::Object(members)),
        last_value(members, key) == Some(value),
    ensures
        looked_up(template, at + 3, values) == Lookup::Found(value, at + 9 + key.len()),
{
    let v = at + 9 + key.len();
    lemma_shape(template, at, key);
    lemma_inside(template, at, key.len());
    assert(template[v as int] == ' ');
    assert(template[at as int + 8] == '.');
    assert(followed(template, v, value) == Lookup::Found(value, v));
    assert(followed(template, at + 8, LiquidView::Object(members)) == Lookup::Found(value, v));
}

proof fn lemma_values(issue: IssueView, attempt: Option<u32>, key: Seq<char>, member: JsonView) -> (members:
    Seq<(Seq<char>, LiquidView)>)
    requires
        holds(issue_json(issue), key, member),
    ensures
        last_value(prompt_values(issue, attempt), "issue"@) == Some(LiquidView::Object(members)),
        last_value(members, key) == Some(liquid_of(member)),
{
    let values = prompt_values(issue, attempt);
    reveal_strlit("issue");
    reveal_strlit("attempt");
    assert("issue"@.len() == 5);
    assert("attempt"@.len() == 7);
    assert(values[0].0 == "issue"@ && values[1].0 == "attempt"@);
    lemma_last_value(values, 0);
    let json = issue_json(issue);
    let members = json->Object_0;
    lemma_values_of_a_template(true, 0, 0, key, Seq::empty(), members);
    let parts = liquid_of(json)->Object_0;
    assert(is_last(members, key, member));
    let i = choose|i: int|
        0 <= i < members.len() && (#[trigger] members[i]) == (key, member) && forall|j: int|
            i < j < members.len() ==> (#[trigger] members[j]).0 != key;
    assert(parts[i] == (key, liquid_of(member)));
    assert forall|j: int| i < j < parts.len() implies (#[trigger] parts[j]).0 != parts[i].0 by {
        assert(members[j].0 != key);
    }
    lemma_last_value(parts, i);
    parts
}

/// A tag that names a member of the issue stands for that member: in its place is the text of it, and the
/// rest of the template follows. This holds wherever the tag stands.
pub proof fn lemma_member_of_the_issue(
    template: Seq<char>,
    at: nat,
    key: Seq<char>,
    issue: IssueView,
    attempt: Option<u32>,
    member: JsonView,
)
    requires
        names_member(template, at, key),
        holds(issue_json(issue), key, member),
        text_of(liquid_of(member)) is Some,
    ensures
        filling(template, at, prompt_values(issue, attempt)) == behind(
            text_of(liquid_of(member)).unwrap(),
            filling(template, at + 12 + key.len(), prompt_values(issue, attempt)),
        ),
{
    let values = prompt_values(issue, attempt);
    let members = lemma_values(issue, attempt, key, member);
    lemma_shape(template, at, key);
    lemma_inside(template, at, key.len());
    lemma_end(template, at, key.len());
    lemma_found(template, at, key, values, members, liquid_of(member));
    assert(template[at as int] == '{' && template[at as int + 1] == '{');
    assert(tag_filling(template, at + 3, values) == Filling::Text(
        text_of(liquid_of(member)).unwrap(),
    ));
}

/// The identifier, the title, the state and the description of an issue stand in a prompt in the place of the
/// tags that name them.
pub proof fn lemma_texts_of_the_issue(
    template: Seq<char>,
    at: nat,
    issue: IssueView,
    attempt: Option<u32>,
)
    ensures
        ({
            let values = prompt_values(issue, attempt);
            &&& names_member(template, at, "identifier"@) ==> filling(template, at, values) == behind(
                issue.identifier,
                filling(template, at + 12 + "identifier"@.len(), values),
            )
            &&& names_member(template, at, "title"@) ==> filling(template, at, values) == behind(
                issue.title,
                filling(template, at + 12 + "title"@.len(), values),
            )
            &&& names_member(template, at, "state"@) ==> filling(template, at, values) == behind(
                issue.state,
                filling(template, at + 12 + "state"@.len(), values),
            )
            &&& names_member(template, at, "description"@) ==> filling(template, at, values) == behind(
                if issue.description is Some {
                    issue.description.unwrap()
                } else {
                    Seq::empty()
                },
                filling(template, at + 12 + "description"@.len(), values),
            )
        }),
{
    lemma_issue_as_json(issue);
    if names_member(template, at, "identifier"@) {
        lemma_member_of_the_issue(
            template,
            at,
            "identifier"@,
            issue,
            attempt,
            JsonView::String(issue.identifier),
        );
    }
    if names_member(template, at, "title"@) {
        lemma_member_of_the_issue(
            template,
            at,
            "title"@,
            issue,
            attempt,
            JsonView::String(issue.title),
        );
    }
    if names_member(template, at, "state"@) {
        lemma_member_of_the_issue(
            template,
            at,
            "state"@,
            issue,
            attempt,
            JsonView::String(issue.state),
        );
    }
    if names_member(template, at, "description"@) {
        lemma_member_of_the_issue(
            template,
            at,
            "description"@,
            issue,
            attempt,
            if issue.description is Some {
                JsonView::String(issue.description.unwrap())
            } else {
                JsonView::Null
            },
        );
    }
}

/// What stands outside tags is kept: a character that is neither a brace nor a blank is itself, and behind the
/// last there is nothing.
pub proof fn lemma_text_outside_tags(
    template: Seq<char>,
    at: nat,
    values: Seq<(Seq<char>, LiquidView)>,
)
    ensures
        at >= template.len() ==> filling(template, at, values) == Filling::Text(Seq::empty()),
        at < template.len() && template[at as int] != '{' && template[at as int] != ' '
            && template[at as int] != '\n' && template[at as int] != '\r' ==> filling(
            template,
            at,
            values,
        ) == behind(seq![template[at as int]], filling(template, at + 1, values)),
{
    if at < template.len() {
        assert(spaces_from(template, at) == 0 || template[at as int] == ' ' || template[at as int]
            == '\n' || template[at as int] == '\r');
    }
}

proof fn lemma_no_value(members: Seq<(Seq<char>, LiquidView)>, key: Seq<char>)
    requires
        forall|j: int| 0 <= j < members.len() ==> (#[trigger] members[j]).0 != key,
    ensures
        last_value(members, key) is None,
    decreases members.len(),
{
    if members.len() > 0 {
        let head = members.drop_last();
        assert(members[members.len() - 1].0 != key);
        assert forall|j: int| 0 <= j < head.len() implies (#[trigger] head[j]).0 != key by {
            assert(head[j] == members[j]);
        }
        lemma_no_value(head, key);
    }
}

proof fn lemma_lost(
    template: Seq<char>,
    at: nat,
    key: Seq<char>,
    values: Seq<(Seq<char>, LiquidView)>,
    members: Seq<(Seq<char>, LiquidView)>,
)
    requires
        names_member(template, at, key),
        key != "size"@,
        last_value(values, "issue"@) == Some(LiquidView::Object(members)),
        last_value(members, key) is None,
    ensures
        looked_up(template, at + 3, values) is Missing,
{
    lemma_shape(template, at, key);
    lemma_inside(template, at, key.len());
    assert(template[at as int + 8] == '.');
    assert(followed(template, at + 8, LiquidView::Object(members)) is Missing);
}

proof fn lemma_no_member(issue: IssueView, attempt: Option<u32>, key: Seq<char>) -> (members: Seq<
    (Seq<char>, LiquidView),
>)
    requires
        lacks(issue_json(issue), key),
    ensures
        last_value(prompt_values(issue, attempt), "issue"@) == Some(LiquidView::Object(members)),
        last_value(members, key) is None,
{
    let values = prompt_values(issue, attempt);
    reveal_strlit("issue");
    reveal_strlit("attempt");
    assert("issue"@.len() == 5);
    assert("attempt"@.len() == 7);
    assert(values[0].0 == "issue"@ && values[1].0 == "attempt"@);
    lemma_last_value(values, 0);
    let members = issue_json(issue)->Object_0;
    lemma_values_of_a_template(true, 0, 0, key, Seq::empty(), members);
    let parts = liquid_of(JsonView::Object(members))->Object_0;
    assert(has_none(members, key));
    assert forall|j: int| 0 <= j < parts.len() implies (#[trigger] parts[j]).0 != key by {
        assert(members[j].0 != key);
    }
    lemma_no_value(parts, key);
    parts
}

/// A tag that names what an issue does not have makes the prompt fail.
pub proof fn lemma_missing_member(
    template: Seq<char>,
    at: nat,
    key: Seq<char>,
    issue: IssueView,
    attempt: Option<u32>,
)
    requires
        names_member(template, at, key),
        lacks(issue_json(issue), key),
        key != "size"@,
    ensures
        filling(template, at, prompt_values(issue, attempt)) is Fails,
{
    let values = prompt_values(issue, attempt);
    let members = lemma_no_member(issue, attempt, key);
    lemma_shape(template, at, key);
    lemma_inside(template, at, key.len());
    lemma_end(template, at, key.len());
    lemma_lost(template, at, key, values, members);
    assert(template[at as int] == '{' && template[at as int + 1] == '{');
    assert(tag_filling(template, at + 3, values) is Fails);
}

} // verus!
