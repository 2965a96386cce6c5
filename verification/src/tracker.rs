//! Linear: the queries that are sent to it, and the issues that its answers hold.
use vstd::prelude::*;

use crate::error::{ErrorView, SymphonyError};
use crate::json::{
    json_object, json_object_of_one, json_object_of_two, json_optional_string, json_reading,
    json_rendering, json_string, json_strings, optional_string_view, with_member, Json, JsonView,
};
use crate::text::{
    ascii_lowercase, char_is_white_space, chars_of, eq_ignore_ascii_case, find_text, first_occurrence,
    is_white_space, str_eq, to_lowercase, trim, trimmed, unicode_lowercase,
};
use crate::time::{chrono_rfc3339_reading, Timestamp};
use crate::types::{BlockerRef, BlockerRefView, EffectiveConfig, Issue, IssueView};

verus! {

/// How many issues are asked for at once.
pub const LINEAR_PAGE_SIZE: u64 = 50;

/// The query for the issues of a project in some states.
pub const ISSUE_COLLECTION_QUERY: &'static str = r#"
query SymphonyIssues($projectSlug: String!, $states: [String!], $first: Int!, $after: String) {
  issues(
    filter: {
      project: { slugId: { eq: $projectSlug } }
      state: { name: { in: $states } }
    }
    first: $first
    after: $after
  ) {
    nodes {
      id
      identifier
      title
      description
      priority
      branchName
      url
      createdAt
      updatedAt
      state { name }
      labels { nodes { name } }
      inverseRelations {
        nodes {
          type
          issue {
            id
            identifier
            state { name }
          }
          sourceIssue {
            id
            identifier
            state { name }
          }
        }
      }
    }
    pageInfo {
      hasNextPage
      endCursor
    }
  }
}
"#;

/// The query for some issues by their ids.
pub const ISSUE_STATE_QUERY: &'static str = r#"
query SymphonyIssueStates($ids: [ID!]) {
  issues(filter: { id: { in: $ids } }) {
    nodes {
      id
      identifier
      title
      description
      priority
      branchName
      url
      createdAt
      updatedAt
      state { name }
      labels { nodes { name } }
      inverseRelations {
        nodes {
          type
          issue {
            id
            identifier
            state { name }
          }
          sourceIssue {
            id
            identifier
            state { name }
          }
        }
      }
    }
  }
}
"#;

// ---------------------------------------------------------------------------
// Trackers
// ---------------------------------------------------------------------------

/// The trackers that are known.
#[derive(Clone, Copy, Debug, PartialEq, Eq)]
pub enum TrackerKind {
    Linear,
}

/// The tracker that is configured.
pub fn select_tracker(config: &EffectiveConfig) -> (r: Result<TrackerKind, SymphonyError>)
    ensures
        match r {
            Ok(kind) => config@.tracker.kind == "linear"@ && kind == TrackerKind::Linear,
            Err(error) => config@.tracker.kind != "linear"@ && error@
                == ErrorView::UnsupportedTrackerKind(config@.tracker.kind),
        },
{
    if str_eq(config.tracker.kind.as_str(), "linear") {
        Ok(TrackerKind::Linear)
    } else {
        Err(SymphonyError::UnsupportedTrackerKind(config.tracker.kind.clone()))
    }
}

// ---------------------------------------------------------------------------
// Issues
// ---------------------------------------------------------------------------

/// A text, empty where there is none.
pub open spec fn text_or_empty(text: Option<Seq<char>>) -> Seq<char> {
    match text {
        Some(text) => text,
        None => seq![],
    }
}

/// The names of labels, in lower case. A label without a name is left out.
pub open spec fn label_names(labels: Seq<JsonView>) -> Seq<Seq<char>>
    decreases labels.len(),
{
    if labels.len() == 0 {
        seq![]
    } else {
        let before = label_names(labels.drop_last());
        match labels.last().member_text("name"@) {
            Some(name) => before.push(unicode_lowercase(name)),
            None => before,
        }
    }
}

/// A relation by which one issue blocks another: one of the type `blocks`, whatever its case, or
/// without a type.
pub open spec fn is_blocking(relation: JsonView) -> bool {
    match relation.member_text("type"@) {
        Some(kind) => ascii_lowercase(kind) == ascii_lowercase("blocks"@),
        None => true,
    }
}

/// The issue at the other end of a relation.
pub open spec fn related_issue(relation: JsonView) -> JsonView {
    match relation.member("issue"@) {
        Some(issue) if !(issue is Null) => issue,
        _ => match relation.member("sourceIssue"@) {
            Some(issue) => issue,
            None => JsonView::Null,
        },
    }
}

/// The blocker that a relation names.
pub open spec fn blocker_of(relation: JsonView) -> BlockerRefView {
    let issue = related_issue(relation);
    BlockerRefView {
        id: issue.member_text("id"@),
        identifier: issue.member_text("identifier"@),
        state: issue.text_at(seq!["state"@, "name"@]),
    }
}

/// The blockers that relations name, in their order.
pub open spec fn blockers_of(relations: Seq<JsonView>) -> Seq<BlockerRefView>
    decreases relations.len(),
{
    if relations.len() == 0 {
        seq![]
    } else {
        let before = blockers_of(relations.drop_last());
        if is_blocking(relations.last()) {
            before.push(blocker_of(relations.last()))
        } else {
            before
        }
    }
}

/// The items of an array at the end of a path, none where there is no array.
pub open spec fn items_at(value: JsonView, path: Seq<Seq<char>>) -> Seq<JsonView> {
    match value.at(path) {
        Some(found) => match found.items() {
            Some(items) => items,
            None => seq![],
        },
        None => seq![],
    }
}

/// The point in time of a text.
pub open spec fn timestamp_of(value: Option<JsonView>) -> Option<Timestamp> {
    match value {
        Some(value) => match value.text() {
            Some(text) => chrono_rfc3339_reading(text),
            None => None,
        },
        None => None,
    }
}

/// The issue that a node of an answer stands for.
pub open spec fn issue_of(node: JsonView) -> IssueView {
    IssueView {
        id: text_or_empty(node.member_text("id"@)),
        identifier: text_or_empty(node.member_text("identifier"@)),
        title: text_or_empty(node.member_text("title"@)),
        description: node.member_text("description"@),
        priority: match node.member("priority"@) {
            Some(value) => value.signed(),
            None => None,
        },
        state: text_or_empty(node.text_at(seq!["state"@, "name"@])),
        branch_name: node.member_text("branchName"@),
        url: node.member_text("url"@),
        labels: label_names(items_at(node, seq!["labels"@, "nodes"@])),
        blocked_by: blockers_of(items_at(node, seq!["inverseRelations"@, "nodes"@])),
        created_at: timestamp_of(node.member("createdAt"@)),
        updated_at: timestamp_of(node.member("updatedAt"@)),
    }
}

fn take_text(text: Option<String>) -> (r: String)
    ensures
        r@ == text_or_empty(text.deep_view()),
{
    match text {
        Some(text) => text,
        None => {
            let r = String::new();
            proof {
                assert(r@ =~= seq![]);
            }
            r
        },
    }
}

fn state_name(value: &Json) -> (r: Option<String>)
    ensures
        r.deep_view() == value@.text_at(seq!["state"@, "name"@]),
{
    let path: [&str; 2] = ["state", "name"];
    proof {
        assert(path.deep_view() =~= seq!["state"@, "name"@]);
    }
    value.text_at(path.as_slice())
}

/// The point in time of a text.
pub fn parse_timestamp(value: Option<&Json>) -> (r: Option<Timestamp>)
    ensures
        r == timestamp_of(value.deep_view()),
{
    match value {
        Some(value) => match value.as_str() {
            Some(text) => Timestamp::parse_rfc3339(text),
            None => None,
        },
        None => None,
    }
}

fn normalize_labels(node: &Json) -> (r: Vec<String>)
    ensures
        r.deep_view() == label_names(items_at(node@, seq!["labels"@, "nodes"@])),
{
    let path: [&str; 2] = ["labels", "nodes"];
    proof {
        assert(path.deep_view() =~= seq!["labels"@, "nodes"@]);
    }
    let mut r: Vec<String> = Vec::new();
    proof {
        assert(r.deep_view() =~= seq![]);
    }
    match node.at(path.as_slice()) {
        Some(found) => match found.as_array() {
            Some(labels) => {
                let ghost views = labels.deep_view();
                for i in 0..labels.len()
                    invariant
                        views == labels.deep_view(),
                        r.deep_view() == label_names(views.take(i as int)),
                {
                    let ghost before = r.deep_view();
                    proof {
                        assert(views.take(i + 1).drop_last() =~= views.take(i as int));
                        assert(views.take(i + 1).last() == labels@[i as int]@);
                    }
                    match labels[i].member_text("name") {
                        Some(name) => {
                            let lower = to_lowercase(name.as_str());
                            let ghost lower_view = lower@;
                            r.push(lower);
                            proof {
                                assert(r.deep_view() =~= before.push(lower_view));
                            }
                        },
                        None => {},
                    }
                }
                proof {
                    assert(views.take(labels@.len() as int) =~= views);
                }
                r
            },
            None => r,
        },
        None => r,
    }
}

fn relation_is_blocking(relation: &Json) -> (r: bool)
    ensures
        r == is_blocking(relation@),
{
    match relation.member_text("type") {
        Some(kind) => eq_ignore_ascii_case(kind.as_str(), "blocks"),
        None => true,
    }
}

fn normalize_blocker(relation: &Json) -> (r: BlockerRef)
    ensures
        r@ == blocker_of(relation@),
{
    let own = match relation.get("issue") {
        Some(issue) => if issue.is_null() {
            None
        } else {
            Some(issue)
        },
        None => None,
    };
    let found = match own {
        Some(issue) => Some(issue),
        None => relation.get("sourceIssue"),
    };
    match found {
        Some(issue) => BlockerRef {
            id: issue.member_text("id"),
            identifier: issue.member_text("identifier"),
            state: state_name(issue),
        },
        None => BlockerRef {
            id: Json::Null.member_text("id"),
            identifier: Json::Null.member_text("identifier"),
            state: state_name(&Json::Null),
        },
    }
}

/// The blockers that the relations of a node name.
pub fn normalize_blockers(node: &Json) -> (r: Vec<BlockerRef>)
    ensures
        r.deep_view() == blockers_of(items_at(node@, seq!["inverseRelations"@, "nodes"@])),
{
    let path: [&str; 2] = ["inverseRelations", "nodes"];
    proof {
        assert(path.deep_view() =~= seq!["inverseRelations"@, "nodes"@]);
    }
    let mut r: Vec<BlockerRef> = Vec::new();
    proof {
        assert(r.deep_view() =~= seq![]);
    }
    match node.at(path.as_slice()) {
        Some(found) => match found.as_array() {
            Some(relations) => {
                let ghost views = relations.deep_view();
                for i in 0..relations.len()
                    invariant
                        views == relations.deep_view(),
                        r.deep_view() == blockers_of(views.take(i as int)),
                {
                    let ghost before = r.deep_view();
                    proof {
                        assert(views.take(i + 1).drop_last() =~= views.take(i as int));
                        assert(views.take(i + 1).last() == relations@[i as int]@);
                    }
                    if relation_is_blocking(&relations[i]) {
                        let blocker = normalize_blocker(&relations[i]);
                        let ghost blocker_view = blocker@;
                        r.push(blocker);
                        proof {
                            assert(r.deep_view() =~= before.push(blocker_view));
                        }
                    }
                }
                proof {
                    assert(views.take(relations@.len() as int) =~= views);
                }
                r
            },
            None => r,
        },
        None => r,
    }
}

/// The issue that a node of an answer stands for.
pub fn normalize_issue(node: &Json) -> (r: Issue)
    ensures
        r@ == issue_of(node@),
{
    Issue {
        id: take_text(node.member_text("id")),
        identifier: take_text(node.member_text("identifier")),
        title: take_text(node.member_text("title")),
        description: node.member_text("description"),
        priority: match node.get("priority") {
            Some(value) => value.as_i64(),
            None => None,
        },
        state: take_text(state_name(node)),
        branch_name: node.member_text("branchName"),
        url: node.member_text("url"),
        labels: normalize_labels(node),
        blocked_by: normalize_blockers(node),
        created_at: parse_timestamp(node.get("createdAt")),
        updated_at: parse_timestamp(node.get("updatedAt")),
    }
}

// ---------------------------------------------------------------------------
// Answers
// ---------------------------------------------------------------------------

/// The issues that the nodes of an answer stand for.
pub open spec fn answered_issues(response: JsonView) -> Result<Seq<IssueView>, ErrorView> {
    match response.at(seq!["data"@, "issues"@, "nodes"@]) {
        Some(nodes) => match nodes.items() {
            Some(items) => Ok(items.map_values(|node: JsonView| issue_of(node))),
            None => Err(ErrorView::LinearUnknownPayload("missing issues.nodes"@)),
        },
        None => Err(ErrorView::LinearUnknownPayload("missing issues.nodes"@)),
    }
}

/// The issues of a page, and the cursor of the next page where there is one.
pub open spec fn answered_page(response: JsonView) -> Result<
    (Seq<IssueView>, Option<Seq<char>>),
    ErrorView,
> {
    match answered_issues(response) {
        Err(error) => Err(error),
        Ok(issues) => match response.at(seq!["data"@, "issues"@, "pageInfo"@]) {
            None => Err(ErrorView::LinearUnknownPayload("missing pageInfo"@)),
            Some(info) => if info.member("hasNextPage"@) == Some(JsonView::Bool(true)) {
                match info.member_text("endCursor"@) {
                    Some(cursor) => Ok((issues, Some(cursor))),
                    None => Err(ErrorView::LinearMissingEndCursor),
                }
            } else {
                Ok((issues, None))
            },
        },
    }
}

/// The issues that the nodes of an answer stand for.
pub fn read_issues(response: &Json) -> (r: Result<Vec<Issue>, SymphonyError>)
    ensures
        match r {
            Ok(issues) => answered_issues(response@) == Ok::<Seq<IssueView>, ErrorView>(
                issues.deep_view(),
            ),
            Err(error) => answered_issues(response@) == Err::<Seq<IssueView>, ErrorView>(error@),
        },
{
    let path: [&str; 3] = ["data", "issues", "nodes"];
    proof {
        assert(path.deep_view() =~= seq!["data"@, "issues"@, "nodes"@]);
    }
    match response.at(path.as_slice()) {
        Some(found) => match found.as_array() {
            Some(nodes) => {
                let mut issues: Vec<Issue> = Vec::new();
                for i in 0..nodes.len()
                    invariant
                        issues@.len() == i,
                        forall|j: int|
                            0 <= j < i ==> (#[trigger] issues@[j])@ == issue_of(nodes@[j]@),
                {
                    issues.push(normalize_issue(&nodes[i]));
                }
                proof {
                    assert(issues.deep_view() =~= nodes.deep_view().map_values(
                        |node: JsonView| issue_of(node),
                    ));
                }
                Ok(issues)
            },
            None => Err(SymphonyError::LinearUnknownPayload("missing issues.nodes".to_owned())),
        },
        None => Err(SymphonyError::LinearUnknownPayload("missing issues.nodes".to_owned())),
    }
}

/// The issues of a page, and the cursor of the next page where there is one.
pub fn read_issue_page(response: &Json) -> (r: Result<(Vec<Issue>, Option<String>), SymphonyError>)
    ensures
        match r {
            Ok((issues, next)) => answered_page(response@) == Ok::<
                (Seq<IssueView>, Option<Seq<char>>),
                ErrorView,
            >((issues.deep_view(), next.deep_view())),
            Err(error) => answered_page(response@) == Err::<
                (Seq<IssueView>, Option<Seq<char>>),
                ErrorView,
            >(error@),
        },
{
    let issues = match read_issues(response) {
        Ok(issues) => issues,
        Err(error) => {
            return Err(error);
        },
    };
    let path: [&str; 3] = ["data", "issues", "pageInfo"];
    proof {
        assert(path.deep_view() =~= seq!["data"@, "issues"@, "pageInfo"@]);
    }
    match response.at(path.as_slice()) {
        None => Err(SymphonyError::LinearUnknownPayload("missing pageInfo".to_owned())),
        Some(info) => {
            let more = match info.get("hasNextPage") {
                Some(value) => match value.as_bool() {
                    Some(more) => more,
                    None => false,
                },
                None => false,
            };
            if more {
                match info.member_text("endCursor") {
                    Some(cursor) => Ok((issues, Some(cursor))),
                    None => Err(SymphonyError::LinearMissingEndCursor),
                }
            } else {
                Ok((issues, None))
            }
        },
    }
}

/// Issues that are gathered page by page.
#[derive(Debug, PartialEq)]
pub struct IssuePages {
    pub issues: Vec<Issue>,
    /// The cursor of the page to ask for next; none for the first page.
    pub after: Option<String>,
    /// There is no page to ask for.
    pub complete: bool,
}

/// The mathematical value of [`IssuePages`].
pub ghost struct IssuePagesView {
    pub issues: Seq<IssueView>,
    pub after: Option<Seq<char>>,
    pub complete: bool,
}

impl View for IssuePages {
    type V = IssuePagesView;

    open spec fn view(&self) -> IssuePagesView {
        IssuePagesView {
            issues: self.issues.deep_view(),
            after: self.after.deep_view(),
            complete: self.complete,
        }
    }
}

impl IssuePagesView {
    /// The issues after one more page.
    pub open spec fn with_page(self, response: JsonView) -> Result<IssuePagesView, ErrorView> {
        match answered_page(response) {
            Err(error) => Err(error),
            Ok((issues, next)) => Ok(
                IssuePagesView {
                    issues: self.issues + issues,
                    after: next,
                    complete: next is None,
                },
            ),
        }
    }
}

/// Nothing gathered yet. For no states there is nothing to ask for.
pub open spec fn no_pages(states: Seq<Seq<char>>) -> IssuePagesView {
    IssuePagesView { issues: seq![], after: None, complete: states.len() == 0 }
}

/// What the query for the issues of a project in some states is asked with.
pub open spec fn page_request(
    project_slug: Seq<char>,
    states: Seq<Seq<char>>,
    after: Option<Seq<char>>,
) -> JsonView {
    JsonView::Object(
        seq![
            ("projectSlug"@, JsonView::String(project_slug)),
            ("states"@, JsonView::Array(states.map_values(|s: Seq<char>| JsonView::String(s)))),
            ("first"@, JsonView::PosInt(LINEAR_PAGE_SIZE)),
            ("after"@, optional_string_view(after)),
        ],
    )
}

impl IssuePages {
    /// Begin to gather the issues in some states.
    pub fn new(states: &Vec<String>) -> (r: IssuePages)
        ensures
            r@ == no_pages(states.deep_view()),
    {
        let r = IssuePages { issues: Vec::new(), after: None, complete: states.len() == 0 };
        proof {
            assert(r@.issues =~= seq![]);
        }
        r
    }

    /// What the query for the next page is asked with.
    pub fn variables(&self, project_slug: &str, states: &Vec<String>) -> (r: Json)
        ensures
            r@ == page_request(project_slug@, states.deep_view(), self@.after),
    {
        let mut members = with_member(Vec::new(), "projectSlug", json_string(project_slug));
        members = with_member(members, "states", json_strings(states));
        members = with_member(members, "first", Json::PosInt(LINEAR_PAGE_SIZE));
        members = with_member(members, "after", json_optional_string(&self.after));
        proof {
            assert(members.deep_view() =~= page_request(
                project_slug@,
                states.deep_view(),
                self@.after,
            )->Object_0);
        }
        json_object(members)
    }

    /// Take in a page.
    pub fn absorb(&mut self, response: &Json) -> (r: Result<(), SymphonyError>)
        ensures
            match r {
                Ok(()) => old(self)@.with_page(response@) == Ok::<IssuePagesView, ErrorView>(
                    final(self)@,
                ),
                Err(error) => {
                    &&& old(self)@.with_page(response@) == Err::<IssuePagesView, ErrorView>(error@)
                    &&& final(self)@ == old(self)@
                },
            },
    {
        match read_issue_page(response) {
            Ok((issues, next)) => {
                let ghost before = self.issues.deep_view();
                let ghost page = issues.deep_view();
                let mut more = issues;
                self.issues.append(&mut more);
                self.complete = next.is_none();
                self.after = next;
                proof {
                    assert(self.issues.deep_view() =~= before + page);
                }
                Ok(())
            },
            Err(error) => Err(error),
        }
    }
}

/// What the query for some issues by their ids is asked with.
pub fn issue_state_variables(issue_ids: &Vec<String>) -> (r: Json)
    ensures
        r@ == JsonView::Object(
            seq![
                (
                    "ids"@,
                    JsonView::Array(
                        issue_ids.deep_view().map_values(|s: Seq<char>| JsonView::String(s)),
                    ),
                ),
            ],
        ),
{
    json_object_of_one("ids", json_strings(issue_ids))
}

/// What is posted for a query.
pub fn graphql_payload(query: &str, variables: Json) -> (r: Json)
    ensures
        r@ == JsonView::Object(
            seq![("query"@, JsonView::String(query@)), ("variables"@, variables@)],
        ),
{
    json_object_of_two("query", json_string(query), "variables", variables)
}

/// The key that a request is authorized with.
pub fn authorization(config: &EffectiveConfig) -> (r: String)
    ensures
        r@ == trimmed(config@.tracker.api_key),
{
    trim(config.tracker.api_key.as_str()).to_owned()
}

/// What an answer with this body says, given what the body reads as: the value that it holds, unless
/// that tells of errors.
pub open spec fn graphql_answer(reading: Result<JsonView, Seq<char>>) -> Result<
    JsonView,
    ErrorView,
> {
    match reading {
        Err(error) => Err(ErrorView::Json(error)),
        Ok(value) => match value.member("errors"@) {
            Some(errors) => Err(ErrorView::LinearGraphqlErrors(json_rendering(errors))),
            None => Ok(value),
        },
    }
}

/// What an answer says, by what its body reads as.
pub fn interpret_graphql_body(reading: Result<Json, String>) -> (r: Result<Json, SymphonyError>)
    ensures
        ({
            let answer = graphql_answer(
                match reading {
                    Ok(value) => Ok(value@),
                    Err(error) => Err(error@),
                },
            );
            match r {
                Ok(value) => answer == Ok::<JsonView, ErrorView>(value@),
                Err(error) => answer == Err::<JsonView, ErrorView>(error@),
            }
        }),
{
    match reading {
        Err(error) => Err(SymphonyError::Json(error)),
        Ok(value) => match value.get("errors") {
            Some(errors) => Err(SymphonyError::LinearGraphqlErrors(errors.to_text())),
            None => Ok(value),
        },
    }
}

/// What an answer says. Any status but 200 is an error, whatever the body.
pub fn read_graphql_response(status: u16, body: String) -> (r: Result<Json, SymphonyError>)
    ensures
        match r {
            Ok(value) => status == 200 && graphql_answer(json_reading(body@)) == Ok::<
                JsonView,
                ErrorView,
            >(value@),
            Err(error) => if status != 200 {
                error@ == (ErrorView::LinearApiStatus { status, body: body@ })
            } else {
                graphql_answer(json_reading(body@)) == Err::<JsonView, ErrorView>(error@)
            },
        },
{
    if status != 200 {
        return Err(SymphonyError::LinearApiStatus { status, body });
    }
    interpret_graphql_body(Json::parse(body.as_str()))
}

// ---------------------------------------------------------------------------
// Raw queries
// ---------------------------------------------------------------------------

/// What a definition of a GraphQL document defines.
#[derive(Clone, Copy, Debug, PartialEq, Eq)]
pub enum DefinitionKind {
    Operation,
    Fragment,
}

/// No line begins with white space other than that of ASCII; where `indented` does not hold, the text
/// goes on from the middle of a line.
pub open spec fn indents_plainly(text: Seq<char>, indented: bool) -> bool
    decreases text.len(),
{
    if text.len() == 0 {
        true
    } else if indented && is_white_space(text[0]) && text[0] as u32 >= 0x80 {
        false
    } else {
        indents_plainly(
            text.drop_first(),
            text[0] == '\n' || (indented && is_white_space(text[0])),
        )
    }
}

/// The query can be read: it holds no block string, or is indented with white space of ASCII alone.
/// `graphql_parser` cuts the lines of a block string by bytes.
pub open spec fn can_outline(query: Seq<char>) -> bool {
    first_occurrence(query, "\"\"\""@) is None || indents_plainly(query, true)
}

/// Whether a query can be read.
pub fn is_outlinable(query: &str) -> (r: bool)
    ensures
        r == can_outline(query@),
{
    let chars = chars_of(query);
    if find_text(&chars, &chars_of("\"\"\"")).is_none() {
        return true;
    }
    let mut indented = true;
    proof {
        assert(query@.skip(0) =~= query@);
    }
    for i in 0..chars.len()
        invariant
            chars@ == query@,
            first_occurrence(query@, "\"\"\""@) is Some,
            indents_plainly(query@, true) == indents_plainly(query@.skip(i as int), indented),
    {
        proof {
            assert(query@.skip(i as int)[0] == chars@[i as int]);
            assert(query@.skip(i as int).drop_first() =~= query@.skip(i + 1));
        }
        let c = chars[i];
        let blank = char_is_white_space(c);
        if indented && blank && c as u32 >= 0x80 {
            return false;
        }
        indented = c == '\n' || (indented && blank);
    }
    proof {
        assert(query@.skip(query@.len() as int).len() == 0);
    }
    true
}

/// The definitions that `graphql_parser` finds in a document, or the text of its error.
pub uninterp spec fn graphql_outline(query: Seq<char>) -> Result<Seq<DefinitionKind>, Seq<char>>;

/// `graphql_parser::parse_query` is a function of the text, in the definitions that it finds and in
/// the text of its error. It panics where it would have to cut a line of a block string within a
/// character.
#[verifier::external_body]
fn outline_query(query: &str) -> (r: Result<Vec<DefinitionKind>, String>)
    requires
        can_outline(query@),
    ensures
        match r {
            Ok(kinds) => graphql_outline(query@) == Ok::<Seq<DefinitionKind>, Seq<char>>(kinds@),
            Err(error) => graphql_outline(query@) == Err::<Seq<DefinitionKind>, Seq<char>>(error@),
        },
{
    let document = graphql_parser::parse_query::<String>(query).map_err(|error| error.to_string())?;
    Ok(document.definitions.iter().map(|definition| match definition {
        graphql_parser::query::Definition::Operation(_) => DefinitionKind::Operation,
        graphql_parser::query::Definition::Fragment(_) => DefinitionKind::Fragment,
    }).collect())
}

/// The number of operations among definitions.
pub open spec fn operation_count(kinds: Seq<DefinitionKind>) -> nat {
    kinds.filter(|kind: DefinitionKind| kind == DefinitionKind::Operation).len()
}

/// The variables to send with a raw query. The query must be a document with exactly one operation,
/// and the variables an object; without variables it is an empty one.
pub open spec fn raw_variables(
    outline: Result<Seq<DefinitionKind>, Seq<char>>,
    variables: Option<JsonView>,
) -> Result<JsonView, ErrorView> {
    match outline {
        Err(error) => Err(ErrorView::InvalidConfig("invalid graphql query: "@ + error)),
        Ok(kinds) => if operation_count(kinds) != 1 {
            Err(ErrorView::InvalidConfig("query must contain exactly one GraphQL operation"@))
        } else {
            match variables {
                None => Ok(JsonView::Object(seq![])),
                Some(value) => if value is Object {
                    Ok(value)
                } else {
                    Err(ErrorView::InvalidConfig("variables must be a JSON object"@))
                },
            }
        },
    }
}

fn count_operations(kinds: &Vec<DefinitionKind>) -> (r: usize)
    ensures
        r == operation_count(kinds@),
{
    let ghost pred = |kind: DefinitionKind| kind == DefinitionKind::Operation;
    let mut r: usize = 0;
    proof {
        reveal(Seq::filter);
        assert(kinds@.take(0).filter(pred).len() == 0);
    }
    for i in 0..kinds.len()
        invariant
            pred == (|kind: DefinitionKind| kind == DefinitionKind::Operation),
            r == kinds@.take(i as int).filter(pred).len(),
            r <= i,
    {
        proof {
            reveal(Seq::filter);
            assert(kinds@.take(i + 1).drop_last() =~= kinds@.take(i as int));
            assert(kinds@.take(i + 1).last() == kinds@[i as int]);
        }
        match kinds[i] {
            DefinitionKind::Operation => {
                r += 1;
            },
            DefinitionKind::Fragment => {},
        }
    }
    proof {
        assert(kinds@.take(kinds@.len() as int) =~= kinds@);
    }
    r
}

/// The variables to send with a raw query, by the definitions that it holds.
pub fn check_raw_graphql(
    outline: Result<Vec<DefinitionKind>, String>,
    variables: Option<Json>,
) -> (r: Result<Json, SymphonyError>)
    ensures
        ({
            let checked = raw_variables(
                match outline {
                    Ok(kinds) => Ok(kinds@),
                    Err(error) => Err(error@),
                },
                variables.deep_view(),
            );
            match r {
                Ok(value) => checked == Ok::<JsonView, ErrorView>(value@),
                Err(error) => checked == Err::<JsonView, ErrorView>(error@),
            }
        }),
{
    let kinds = match outline {
        Ok(kinds) => kinds,
        Err(error) => {
            let mut message = "invalid graphql query: ".to_owned();
            message.append(error.as_str());
            return Err(SymphonyError::InvalidConfig(message));
        },
    };
    if count_operations(&kinds) != 1 {
        return Err(
            SymphonyError::InvalidConfig(
                "query must contain exactly one GraphQL operation".to_owned(),
            ),
        );
    }
    match variables {
        None => {
            let members: Vec<(String, Json)> = Vec::new();
            proof {
                assert(members.deep_view() =~= seq![]);
            }
            Ok(json_object(members))
        },
        Some(value) => if value.is_object() {
            Ok(value)
        } else {
            Err(SymphonyError::InvalidConfig("variables must be a JSON object".to_owned()))
        },
    }
}

/// The variables to send with a raw query.
pub fn prepare_raw_graphql(query: &str, variables: Option<Json>) -> (r: Result<
    Json,
    SymphonyError,
>)
    requires
        can_outline(query@),
    ensures
        match r {
            Ok(value) => raw_variables(graphql_outline(query@), variables.deep_view()) == Ok::<
                JsonView,
                ErrorView,
            >(value@),
            Err(error) => raw_variables(graphql_outline(query@), variables.deep_view()) == Err::<
                JsonView,
                ErrorView,
            >(error@),
        },
{
    check_raw_graphql(outline_query(query), variables)
}

// ---------------------------------------------------------------------------
// Laws
// ---------------------------------------------------------------------------

/// The issues after some pages, where none of them is refused.
pub open spec fn with_pages(start: IssuePagesView, pages: Seq<JsonView>) -> Result<
    IssuePagesView,
    ErrorView,
>
    decreases pages.len(),
{
    if pages.len() == 0 {
        Ok(start)
    } else {
        match with_pages(start, pages.drop_last()) {
            Err(error) => Err(error),
            Ok(before) => before.with_page(pages.last()),
        }
    }
}

/// The issues of some pages, one page after the other.
pub open spec fn issues_of_pages(pages: Seq<JsonView>) -> Seq<IssueView>
    decreases pages.len(),
{
    if pages.len() == 0 {
        seq![]
    } else {
        issues_of_pages(pages.drop_last()) + (match answered_page(pages.last()) {
            Ok((issues, _)) => issues,
            Err(_) => seq![],
        })
    }
}

/// Gathering page by page loses and repeats nothing: the issues are those of the pages in the order
/// of the pages, and the cursor to go on from is that of the last page.
pub proof fn lemma_pages_concatenate(states: Seq<Seq<char>>, pages: Seq<JsonView>)
    requires
        with_pages(no_pages(states), pages) is Ok,
    ensures
        with_pages(no_pages(states), pages)->Ok_0.issues == issues_of_pages(pages),
        pages.len() > 0 ==> answered_page(pages.last()) is Ok && with_pages(
            no_pages(states),
            pages,
        )->Ok_0.after == answered_page(pages.last())->Ok_0.1,
    decreases pages.len(),
{
    if pages.len() > 0 {
        lemma_pages_concatenate(states, pages.drop_last());
    }
}

/// Some label has a name that is this one in lower case.
pub open spec fn names_label(labels: Seq<JsonView>, name: Seq<char>) -> bool {
    exists|i: int|
        0 <= i < labels.len() && match (#[trigger] labels[i]).member_text("name"@) {
            Some(own) => unicode_lowercase(own) == name,
            None => false,
        }
}

/// The labels of an issue are the names of its labels in lower case: each of them is one, and each
/// that a label has is among them.
pub proof fn lemma_labels_are_lowercase(labels: Seq<JsonView>)
    ensures
        forall|name: Seq<char>| label_names(labels).contains(name) == #[trigger] names_label(labels, name),
    decreases labels.len(),
{
    if labels.len() > 0 {
        let before = labels.drop_last();
        let last = labels.len() - 1;
        lemma_labels_are_lowercase(before);
        assert forall|name: Seq<char>| label_names(labels).contains(name) == #[trigger] names_label(
            labels,
            name,
        ) by {
            if label_names(labels).contains(name) {
                let i = choose|i: int|
                    0 <= i < label_names(labels).len() && label_names(labels)[i] == name;
                if i < label_names(before).len() {
                    assert(label_names(before)[i] == name);
                    assert(names_label(before, name));
                    let j = choose|j: int|
                        0 <= j < before.len() && match (#[trigger] before[j]).member_text("name"@) {
                            Some(own) => unicode_lowercase(own) == name,
                            None => false,
                        };
                    assert(labels[j] == before[j]);
                } else {
                    assert(labels[last].member_text("name"@) is Some);
                }
            }
            if names_label(labels, name) {
                let j = choose|j: int|
                    0 <= j < labels.len() && match (#[trigger] labels[j]).member_text("name"@) {
                        Some(own) => unicode_lowercase(own) == name,
                        None => false,
                    };
                if j < last {
                    assert(before[j] == labels[j]);
                    assert(names_label(before, name));
                    let i = choose|i: int|
                        0 <= i < label_names(before).len() && label_names(before)[i] == name;
                    assert(label_names(labels)[i] == name);
                } else {
                    let i = label_names(before).len() as int;
                    assert(label_names(labels)[i] == name);
                }
            }
        }
    } else {
        assert(label_names(labels) =~= seq![]);
    }
}

} // verus!
