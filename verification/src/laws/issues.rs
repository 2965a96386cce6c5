//! What the tracker is asked for, and what its answers say.
use vstd::prelude::*;

use crate::error::ErrorView;
use crate::json::{json_rendering, JsonView};
use crate::laws::payloads::without_text;
use crate::laws::values::{holds, lacks, lemma_member, lemma_path};
use crate::text::{ascii_lowercase, unicode_lowercase};
use crate::time::chrono_rfc3339_reading;
use crate::tracker::{
    answered_issues, answered_page, blockers_of, graphql_answer, issue_of, label_names, no_pages,
    operation_count, page_request, raw_variables, DefinitionKind, IssuePagesView,
};
use crate::types::IssueView;

verus! {

proof fn lemma_text(value: JsonView, key: Seq<char>, s: Seq<char>)
    ensures
        holds(value, key, JsonView::String(s)) ==> value.member_text(key) == Some(s),
        without_text(value, key) ==> value.member_text(key) is None,
{
    lemma_member(value, key);
    if let Some(t) = value.member_text(key) {
        assert(holds(value, key, JsonView::String(t)));
    }
}

/// The texts of a node are those of its issue: an id, an identifier and a title, which are empty where
/// there are no texts, and a description, a branch and an address, which may be missing.
pub proof fn lemma_texts_of_an_issue(node: JsonView, s: Seq<char>)
    ensures
        holds(node, "id"@, JsonView::String(s)) ==> issue_of(node).id == s,
        holds(node, "identifier"@, JsonView::String(s)) ==> issue_of(node).identifier == s,
        holds(node, "title"@, JsonView::String(s)) ==> issue_of(node).title == s,
        holds(node, "description"@, JsonView::String(s)) ==> issue_of(node).description == Some(s),
        holds(node, "branchName"@, JsonView::String(s)) ==> issue_of(node).branch_name == Some(s),
        holds(node, "url"@, JsonView::String(s)) ==> issue_of(node).url == Some(s),
        without_text(node, "id"@) ==> issue_of(node).id.len() == 0,
        without_text(node, "identifier"@) ==> issue_of(
            node,
        ).identifier.len() == 0,
        without_text(node, "title"@) ==> issue_of(node).title.len()
            == 0,
        without_text(node, "description"@) ==> issue_of(
            node,
        ).description is None,
        without_text(node, "branchName"@) ==> issue_of(
            node,
        ).branch_name is None,
        without_text(node, "url"@) ==> issue_of(node).url is None,
{
    lemma_text(node, "id"@, s);
    lemma_text(node, "identifier"@, s);
    lemma_text(node, "title"@, s);
    lemma_text(node, "description"@, s);
    lemma_text(node, "branchName"@, s);
    lemma_text(node, "url"@, s);
}

/// The priority of an issue is the integer that its node has for it, whether zero, positive or negative,
/// where it fits in 64 bits with a sign, and there is none otherwise.
pub proof fn lemma_priority_of_an_issue(node: JsonView, n: u64, m: i64, other: JsonView)
    ensures
        holds(node, "priority"@, JsonView::PosInt(n)) && n <= i64::MAX ==> issue_of(node).priority
            == Some(n as i64),
        holds(node, "priority"@, JsonView::PosInt(n)) && n > i64::MAX ==> issue_of(node).priority
            is None,
        holds(node, "priority"@, JsonView::NegInt(m)) ==> issue_of(node).priority == Some(m),
        lacks(node, "priority"@) ==> issue_of(node).priority is None,
        holds(node, "priority"@, other) && !(other is PosInt) && !(other is NegInt) ==> issue_of(
            node,
        ).priority is None,
{
    lemma_member(node, "priority"@);
}

/// The state of an issue is the name of the state of its node, and empty where there is none; its times
/// are what the texts of its node read as.
pub proof fn lemma_state_and_times_of_an_issue(node: JsonView, state: JsonView, s: Seq<char>)
    ensures
        holds(node, "state"@, state) && holds(state, "name"@, JsonView::String(s)) ==> issue_of(
            node,
        ).state == s,
        lacks(node, "state"@) || (holds(node, "state"@, state) && without_text(state, "name"@))
            ==> issue_of(node).state.len() == 0,
        holds(node, "createdAt"@, JsonView::String(s)) ==> issue_of(node).created_at
            == chrono_rfc3339_reading(s),
        holds(node, "updatedAt"@, JsonView::String(s)) ==> issue_of(node).updated_at
            == chrono_rfc3339_reading(s),
        without_text(node, "createdAt"@) ==> issue_of(node).created_at is None,
        without_text(node, "updatedAt"@) ==> issue_of(node).updated_at is None,
{
    lemma_two_keys(node, "state"@, "name"@, state, JsonView::String(s));
    lemma_no_text_at(node, "state"@, "name"@, state);
    lemma_text(node, "createdAt"@, s);
    lemma_text(node, "updatedAt"@, s);
    lemma_member(node, "createdAt"@);
    lemma_member(node, "updatedAt"@);
}

proof fn lemma_no_text_at(node: JsonView, first: Seq<char>, second: Seq<char>, middle: JsonView)
    ensures
        holds(node, first, middle) && without_text(middle, second) ==> node.text_at(
            seq![first, second],
        ) is None,
{
    lemma_member(middle, second);
    if let Some(last) = middle.member(second) {
        lemma_two_keys(node, first, second, middle, last);
        assert(holds(middle, second, last));
    } else {
        lemma_two_keys(node, first, second, middle, JsonView::Null);
    }
}

proof fn lemma_two_keys(
    node: JsonView,
    first: Seq<char>,
    second: Seq<char>,
    middle: JsonView,
    last: JsonView,
)
    ensures
        holds(node, first, middle) && holds(middle, second, last) ==> node.at(seq![first, second])
            == Some(last),
        lacks(node, first) ==> node.at(seq![first, second]) is None,
        holds(node, first, middle) && lacks(middle, second) ==> node.at(seq![first, second]) is None,
{
    lemma_path(node, first, middle, seq![second]);
    lemma_path(middle, second, last, Seq::empty());
    lemma_path(last, second, last, Seq::empty());
    assert(seq![first] + seq![second] =~= seq![first, second]);
    assert(seq![second] + Seq::<Seq<char>>::empty() =~= seq![second]);
}

/// The labels of an issue are the names of the labels of its node, in lower case and in their order; one
/// without a name is left out.
pub proof fn lemma_labels_of_an_issue(
    node: JsonView,
    labels: JsonView,
    items: Seq<JsonView>,
    item: JsonView,
    s: Seq<char>,
)
    ensures
        holds(node, "labels"@, labels) && holds(labels, "nodes"@, JsonView::Array(items))
            ==> issue_of(node).labels == label_names(items),
        lacks(node, "labels"@) || (holds(node, "labels"@, labels) && (lacks(labels, "nodes"@) || (holds(
            labels,
            "nodes"@,
            item,
        ) && !(item is Array)))) ==> issue_of(node).labels.len() == 0,
        label_names(Seq::empty()).len() == 0,
        holds(item, "name"@, JsonView::String(s)) ==> label_names(items.push(item)) == label_names(
            items,
        ).push(unicode_lowercase(s)),
        without_text(item, "name"@) ==> label_names(items.push(item)) == label_names(items),
{
    lemma_two_keys(node, "labels"@, "nodes"@, labels, JsonView::Array(items));
    lemma_two_keys(node, "labels"@, "nodes"@, labels, item);
    lemma_text(item, "name"@, s);
    assert(items.push(item).drop_last() =~= items);
}

/// The blockers of an issue are those of the relations of its node, in their order. A relation counts if
/// it has no type, or the type `blocks` whatever its case. It names the issue at its other end, or the
/// one it starts from where there is none: by id, identifier and state, as far as these are told.
pub proof fn lemma_blockers_of_an_issue(
    node: JsonView,
    relations: JsonView,
    items: Seq<JsonView>,
    relation: JsonView,
    issue: JsonView,
    state: JsonView,
    s: Seq<char>,
)
    ensures
        holds(node, "inverseRelations"@, relations) && holds(
            relations,
            "nodes"@,
            JsonView::Array(items),
        ) ==> issue_of(node).blocked_by == blockers_of(items),
        lacks(node, "inverseRelations"@) ==> issue_of(node).blocked_by.len() == 0,
        blockers_of(Seq::empty()).len() == 0,
        holds(relation, "type"@, JsonView::String(s)) && ascii_lowercase(s) != ascii_lowercase(
            "blocks"@,
        ) ==> blockers_of(items.push(relation)) == blockers_of(items),
        without_text(relation, "type"@) || (holds(
            relation,
            "type"@,
            JsonView::String(s),
        ) && ascii_lowercase(s) == ascii_lowercase("blocks"@)) ==> ({
            let all = blockers_of(items.push(relation));
            let named = (holds(relation, "issue"@, issue) && !(issue is Null)) || ((lacks(
                relation,
                "issue"@,
            ) || holds(relation, "issue"@, JsonView::Null)) && holds(
                relation,
                "sourceIssue"@,
                issue,
            ));
            &&& all.len() == blockers_of(items).len() + 1
            &&& all.drop_last() == blockers_of(items)
            &&& (lacks(relation, "issue"@) || holds(relation, "issue"@, JsonView::Null)) && lacks(
                relation,
                "sourceIssue"@,
            ) ==> all.last().id is None && all.last().identifier is None && all.last().state is None
            &&& named ==> {
                &&& forall|t: Seq<char>| #[trigger]
                    holds(issue, "id"@, JsonView::String(t)) ==> all.last().id == Some(t)
                &&& without_text(issue, "id"@) ==> all.last().id is None
                &&& forall|t: Seq<char>| #[trigger]
                    holds(issue, "identifier"@, JsonView::String(t)) ==> all.last().identifier
                        == Some(t)
                &&& without_text(issue, "identifier"@) ==> all.last().identifier is None
                &&& forall|t: Seq<char>|
                    holds(issue, "state"@, state) && #[trigger] holds(
                        state,
                        "name"@,
                        JsonView::String(t),
                    ) ==> all.last().state == Some(t)
                &&& lacks(issue, "state"@) || (holds(issue, "state"@, state) && without_text(
                    state,
                    "name"@,
                )) ==> all.last().state is None
            }
        }),
{
    lemma_two_keys(node, "inverseRelations"@, "nodes"@, relations, JsonView::Array(items));
    lemma_text(relation, "type"@, s);
    lemma_member(relation, "issue"@);
    lemma_member(relation, "sourceIssue"@);
    lemma_member(issue, "id"@);
    lemma_member(issue, "identifier"@);
    lemma_text(issue, "id"@, s);
    lemma_text(issue, "identifier"@, s);
    lemma_no_text_at(issue, "state"@, "name"@, state);
    assert(items.push(relation).drop_last() =~= items);
    let all = blockers_of(items.push(relation));
    assert forall|t: Seq<char>|
        holds(issue, "state"@, state) && #[trigger] holds(
            state,
            "name"@,
            JsonView::String(t),
        ) implies issue.at(seq!["state"@, "name"@]) == Some(JsonView::String(t)) by {
        lemma_two_keys(issue, "state"@, "name"@, state, JsonView::String(t));
    }
    lemma_two_keys(issue, "state"@, "name"@, state, JsonView::String(s));
    assert(JsonView::Null.at(seq!["state"@, "name"@]) is None);
    if all.len() == blockers_of(items).len() + 1 {
        assert(all.drop_last() =~= blockers_of(items));
    }
}

proof fn lemma_three_keys(
    node: JsonView,
    first: Seq<char>,
    second: Seq<char>,
    third: Seq<char>,
    a: JsonView,
    b: JsonView,
    last: JsonView,
)
    ensures
        holds(node, first, a) && holds(a, second, b) && holds(b, third, last) ==> node.at(
            seq![first, second, third],
        ) == Some(last),
        lacks(node, first) ==> node.at(seq![first, second, third]) is None,
        holds(node, first, a) && lacks(a, second) ==> node.at(seq![first, second, third]) is None,
        holds(node, first, a) && holds(a, second, b) && lacks(b, third) ==> node.at(
            seq![first, second, third],
        ) is None,
{
    lemma_path(node, first, a, seq![second, third]);
    lemma_two_keys(a, second, third, b, last);
    assert(seq![first] + seq![second, third] =~= seq![first, second, third]);
}

/// The issues of an answer are those of the nodes that it holds, one for each and in their order; without
/// nodes the answer is not understood.
pub proof fn lemma_issues_of_an_answer(
    response: JsonView,
    data: JsonView,
    issues: JsonView,
    nodes: Seq<JsonView>,
    other: JsonView,
)
    ensures
        holds(response, "data"@, data) && holds(data, "issues"@, issues) && holds(
            issues,
            "nodes"@,
            JsonView::Array(nodes),
        ) ==> ({
            let answer = answered_issues(response);
            &&& answer is Ok
            &&& answer->Ok_0.len() == nodes.len()
            &&& forall|i: int|
                0 <= i < nodes.len() ==> #[trigger] answer->Ok_0[i] == issue_of(nodes[i])
        }),
        lacks(response, "data"@) || (holds(response, "data"@, data) && lacks(data, "issues"@)) || (holds(
            response,
            "data"@,
            data,
        ) && holds(data, "issues"@, issues) && (lacks(issues, "nodes"@) || (holds(
            issues,
            "nodes"@,
            other,
        ) && !(other is Array)))) ==> answered_issues(response) == Err::<
            Seq<IssueView>,
            ErrorView,
        >(ErrorView::LinearUnknownPayload("missing issues.nodes"@)),
{
    lemma_three_keys(
        response,
        "data"@,
        "issues"@,
        "nodes"@,
        data,
        issues,
        JsonView::Array(nodes),
    );
    lemma_three_keys(response, "data"@, "issues"@, "nodes"@, data, issues, other);
}

/// A page holds the issues of its answer. It has a next page if and only if the answer says so, at the
/// cursor that it names; without a cursor, or without a word on pages, the answer is refused.
pub proof fn lemma_page_of_issues(
    response: JsonView,
    data: JsonView,
    issues: JsonView,
    nodes: Seq<JsonView>,
    info: JsonView,
    cursor: Seq<char>,
)
    requires
        holds(response, "data"@, data),
        holds(data, "issues"@, issues),
        holds(issues, "nodes"@, JsonView::Array(nodes)),
    ensures
        lacks(issues, "pageInfo"@) ==> answered_page(response) == Err::<
            (Seq<IssueView>, Option<Seq<char>>),
            ErrorView,
        >(ErrorView::LinearUnknownPayload("missing pageInfo"@)),
        holds(issues, "pageInfo"@, info) ==> {
            &&& holds(info, "hasNextPage"@, JsonView::Bool(true)) && holds(
                info,
                "endCursor"@,
                JsonView::String(cursor),
            ) ==> answered_page(response) is Ok && answered_page(response)->Ok_0.1 == Some(cursor)
            &&& holds(info, "hasNextPage"@, JsonView::Bool(true)) && without_text(
                info,
                "endCursor"@,
            ) ==> answered_page(response) == Err::<
                (Seq<IssueView>, Option<Seq<char>>),
                ErrorView,
            >(ErrorView::LinearMissingEndCursor)
            &&& !holds(info, "hasNextPage"@, JsonView::Bool(true)) ==> answered_page(response) is Ok
                && answered_page(response)->Ok_0.1 is None
            &&& answered_page(response) is Ok ==> {
                &&& answered_page(response)->Ok_0.0.len() == nodes.len()
                &&& forall|i: int|
                    0 <= i < nodes.len() ==> #[trigger] answered_page(response)->Ok_0.0[i]
                        == issue_of(nodes[i])
            }
        },
{
    lemma_issues_of_an_answer(response, data, issues, nodes, JsonView::Null);
    lemma_three_keys(response, "data"@, "issues"@, "pageInfo"@, data, issues, info);
    lemma_member(info, "hasNextPage"@);
    lemma_text(info, "endCursor"@, cursor);
}

/// Gathering begins with nothing, and is complete at once for no states. Each page adds its issues behind
/// those of the earlier ones, and gathering goes on from its cursor, or is complete where it has none.
pub proof fn lemma_gathering(
    pages: IssuePagesView,
    states: Seq<Seq<char>>,
    response: JsonView,
    project_slug: Seq<char>,
)
    ensures
        no_pages(states).issues.len() == 0,
        no_pages(states).after is None,
        no_pages(states).complete <==> states.len() == 0,
        answered_page(response) is Ok ==> ({
            let (issues, next) = answered_page(response)->Ok_0;
            let gathered = pages.with_page(response);
            &&& gathered is Ok
            &&& gathered->Ok_0.issues == pages.issues + issues
            &&& gathered->Ok_0.after == next
            &&& gathered->Ok_0.complete <==> next is None
        }),
        answered_page(response) is Err ==> pages.with_page(response) is Err && pages.with_page(
            response,
        )->Err_0 == answered_page(response)->Err_0,
        page_request(project_slug, states, pages.after) is Object,
{
}

/// A page is asked for with the project, the states, the size of a page and the cursor, under their
/// names.
pub proof fn lemma_page_request(
    project_slug: Seq<char>,
    states: Seq<Seq<char>>,
    after: Option<Seq<char>>,
)
    ensures
        ({
            let request = page_request(project_slug, states, after);
            &&& holds(request, "projectSlug"@, JsonView::String(project_slug))
            &&& holds(request, "first"@, JsonView::PosInt(50))
            &&& holds(
                request,
                "after"@,
                match after {
                    Some(cursor) => JsonView::String(cursor),
                    None => JsonView::Null,
                },
            )
            &&& exists|items: Seq<JsonView>|
                {
                    &&& #[trigger] holds(request, "states"@, JsonView::Array(items))
                    &&& items.len() == states.len()
                    &&& forall|i: int|
                        0 <= i < states.len() ==> #[trigger] items[i] == JsonView::String(states[i])
                }
        }),
{
    reveal_strlit("projectSlug");
    reveal_strlit("states");
    reveal_strlit("first");
    reveal_strlit("after");
    let request = page_request(project_slug, states, after);
    let members = request->Object_0;
    let items = states.map_values(|s: Seq<char>| JsonView::String(s));
    assert("projectSlug"@.len() == 11 && "states"@.len() == 6 && "first"@.len() == 5 && "after"@.len()
        == 5);
    assert("first"@[0] == 'f' && "after"@[0] == 'a');
    assert(members[0] == ("projectSlug"@, JsonView::String(project_slug)));
    assert(members[1] == ("states"@, JsonView::Array(items)));
    assert(members[2] == ("first"@, JsonView::PosInt(50)));
    assert(members[3].0 == "after"@);
    assert(holds(request, "states"@, JsonView::Array(items)));
}

/// An answer is what it holds, unless it tells of errors, which are then what is wrong, or cannot be
/// read.
pub proof fn lemma_graphql_answer(value: JsonView, errors: JsonView, message: Seq<char>)
    ensures
        lacks(value, "errors"@) ==> graphql_answer(Ok(value)) == Ok::<JsonView, ErrorView>(value),
        holds(value, "errors"@, errors) ==> graphql_answer(Ok(value)) == Err::<JsonView, ErrorView>(
            ErrorView::LinearGraphqlErrors(json_rendering(errors)),
        ),
        graphql_answer(Err(message)) == Err::<JsonView, ErrorView>(ErrorView::Json(message)),
{
    lemma_member(value, "errors"@);
}

/// A raw query is sent if and only if it can be read, holds exactly one operation, and its variables are
/// an object or missing; they are sent as they are, and as an empty object where they are missing.
pub proof fn lemma_raw_query(
    kinds: Seq<DefinitionKind>,
    first: int,
    second: int,
    variables: Option<JsonView>,
    message: Seq<char>,
)
    ensures
        raw_variables(Err(message), variables) == Err::<JsonView, ErrorView>(
            ErrorView::InvalidConfig("invalid graphql query: "@ + message),
        ),
        (forall|i: int| 0 <= i < kinds.len() ==> #[trigger] kinds[i] == DefinitionKind::Fragment)
            ==> raw_variables(Ok(kinds), variables) == Err::<JsonView, ErrorView>(
            ErrorView::InvalidConfig("query must contain exactly one GraphQL operation"@),
        ),
        0 <= first < second < kinds.len() && kinds[first] == DefinitionKind::Operation
            && kinds[second] == DefinitionKind::Operation ==> raw_variables(Ok(kinds), variables)
            == Err::<JsonView, ErrorView>(
            ErrorView::InvalidConfig("query must contain exactly one GraphQL operation"@),
        ),
        0 <= first < kinds.len() && kinds[first] == DefinitionKind::Operation && (forall|i: int|
            0 <= i < kinds.len() && i != first ==> #[trigger] kinds[i] == DefinitionKind::Fragment)
            ==> raw_variables(Ok(kinds), variables) == match variables {
            None => Ok::<JsonView, ErrorView>(JsonView::Object(Seq::empty())),
            Some(JsonView::Object(members)) => Ok(JsonView::Object(members)),
            Some(_) => Err(ErrorView::InvalidConfig("variables must be a JSON object"@)),
        },
{
    if forall|i: int| 0 <= i < kinds.len() ==> #[trigger] kinds[i] == DefinitionKind::Fragment {
        lemma_no_operation(kinds);
    }
    if 0 <= first < kinds.len() && kinds[first] == DefinitionKind::Operation {
        lemma_some_operation(kinds, first);
    }
}

proof fn lemma_last_operation(kinds: Seq<DefinitionKind>)
    requires
        kinds.len() > 0,
    ensures
        kinds.last() == DefinitionKind::Operation ==> operation_count(kinds) == operation_count(
            kinds.drop_last(),
        ) + 1,
        kinds.last() != DefinitionKind::Operation ==> operation_count(kinds) == operation_count(
            kinds.drop_last(),
        ),
{
    reveal(Seq::filter);
}

proof fn lemma_no_operation(kinds: Seq<DefinitionKind>)
    requires
        forall|i: int| 0 <= i < kinds.len() ==> #[trigger] kinds[i] == DefinitionKind::Fragment,
    ensures
        operation_count(kinds) == 0,
    decreases kinds.len(),
{
    if kinds.len() > 0 {
        lemma_last_operation(kinds);
        lemma_no_operation(kinds.drop_last());
    } else {
        reveal(Seq::filter);
    }
}

proof fn lemma_some_operation(kinds: Seq<DefinitionKind>, k: int)
    requires
        0 <= k < kinds.len(),
        kinds[k] == DefinitionKind::Operation,
    ensures
        operation_count(kinds) >= 1,
        forall|j: int|
            k < j < kinds.len() && #[trigger] kinds[j] == DefinitionKind::Operation
                ==> operation_count(kinds) >= 2,
        (forall|i: int|
            0 <= i < kinds.len() && i != k ==> #[trigger] kinds[i] == DefinitionKind::Fragment)
            ==> operation_count(kinds) == 1,
    decreases kinds.len(),
{
    let head = kinds.drop_last();
    lemma_last_operation(kinds);
    if k < head.len() {
        lemma_some_operation(head, k);
        assert forall|j: int|
            k < j < kinds.len() && #[trigger] kinds[j] == DefinitionKind::Operation implies
            operation_count(kinds) >= 2 by {
            if j < head.len() {
                assert(head[j] == kinds[j]);
            }
        }
        if forall|i: int|
            0 <= i < kinds.len() && i != k ==> #[trigger] kinds[i] == DefinitionKind::Fragment {
            assert(kinds[kinds.len() - 1] == DefinitionKind::Fragment);
            assert forall|i: int| 0 <= i < head.len() && i != k implies #[trigger] head[i]
                == DefinitionKind::Fragment by {
                assert(head[i] == kinds[i]);
            }
        }
    } else if forall|i: int|
        0 <= i < kinds.len() && i != k ==> #[trigger] kinds[i] == DefinitionKind::Fragment {
        lemma_no_operation(head);
    }
}

} // verus!
