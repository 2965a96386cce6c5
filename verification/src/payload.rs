//! What is read out of the payloads of the app-server protocol.
use vstd::prelude::*;

use crate::error::{ErrorView, SymphonyError};
use crate::json::{
    find_member, is_replaced, json_rendering, lemma_find_member, lemma_item_views,
    lemma_member_views, member_views, Json, JsonView,
};
use crate::text::{
    can_cut, chars_of, comes_before, is_blank, is_blank_text, is_cuttable, precedes, shorten, shortened, str_eq,
};
use crate::types::TokenUsage;

verus! {

/// The longest text of a payload that a summary repeats, in bytes.
pub const SUMMARY_BYTES: usize = 300;

// ---------------------------------------------------------------------------
// Text
// ---------------------------------------------------------------------------

/// The text at the end of the first of some paths at whose end a text stands.
pub open spec fn first_text(value: JsonView, paths: Seq<Seq<Seq<char>>>) -> Option<Seq<char>>
    decreases paths.len(),
{
    if paths.len() == 0 {
        None
    } else {
        match value.text_at(paths[0]) {
            Some(text) => Some(text),
            None => first_text(value, paths.drop_first()),
        }
    }
}

/// The text of the first of some keys under which an object holds a text.
pub open spec fn own_text(value: JsonView, keys: Seq<Seq<char>>) -> Option<Seq<char>>
    decreases keys.len(),
{
    if keys.len() == 0 {
        None
    } else {
        match value.member_text(keys[0]) {
            Some(text) => Some(text),
            None => own_text(value, keys.drop_first()),
        }
    }
}

/// The first text that stands under one of the keys, in the value itself or, where it has none,
/// somewhere within its parts.
pub open spec fn text_within(value: JsonView, keys: Seq<Seq<char>>) -> Option<Seq<char>>
    decreases value,
{
    match value {
        JsonView::Object(members) => match own_text(value, keys) {
            Some(text) => Some(text),
            None => match text_within_members(members, keys) {
                Some((_, text)) => Some(text),
                None => None,
            },
        },
        JsonView::Array(items) => text_within_items(items, keys),
        _ => None,
    }
}

/// The first text that stands under one of the keys within the members, in the order of their own
/// keys, and the key of the member that it is found in.
pub open spec fn text_within_members(
    members: Seq<(Seq<char>, JsonView)>,
    keys: Seq<Seq<char>>,
) -> Option<(Seq<char>, Seq<char>)>
    decreases members,
{
    if members.len() == 0 {
        None
    } else {
        let (key, value) = members[0];
        let rest = text_within_members(members.drop_first(), keys);
        match text_within(value, keys) {
            Some(text) => if is_replaced(members) || (rest matches Some((other, _)) && precedes(
                other,
                key,
            )) {
                rest
            } else {
                Some((key, text))
            },
            None => rest,
        }
    }
}

/// The first text that stands under one of the keys within the items, in their order.
pub open spec fn text_within_items(items: Seq<JsonView>, keys: Seq<Seq<char>>) -> Option<Seq<char>>
    decreases items,
{
    if items.len() == 0 {
        None
    } else {
        match text_within(items[0], keys) {
            Some(text) => Some(text),
            None => text_within_items(items.drop_first(), keys),
        }
    }
}

/// The keys under which a payload says what it is about.
pub open spec fn summary_keys() -> Seq<Seq<char>> {
    seq!["message"@, "text"@, "content"@, "reason"@, "summary"@]
}

/// What a payload is about: the text that it gives for that, or else its own text, shortened; there
/// is nothing to say about null.
pub open spec fn summary(value: JsonView) -> Option<Seq<char>> {
    match text_within(value, summary_keys()) {
        Some(text) => Some(text),
        None => if json_rendering(value) == "null"@ {
            None
        } else {
            Some(shortened(json_rendering(value), SUMMARY_BYTES as int))
        },
    }
}

/// The text of the payload is not needed, or can be cut where it has to be.
pub open spec fn has_summary(value: JsonView) -> bool {
    ||| text_within(value, summary_keys()) is Some
    ||| can_cut(json_rendering(value), SUMMARY_BYTES as int)
}

/// The text at the end of the first of some paths at whose end a text stands.
pub fn extract_string(value: &Json, paths: &[&[&str]]) -> (r: Option<String>)
    ensures
        r.deep_view() == first_text(value@, paths.deep_view()),
{
    let ghost all = paths.deep_view();
    proof {
        assert(all.skip(0) =~= all);
    }
    for i in 0..paths.len()
        invariant
            all == paths.deep_view(),
            all.len() == paths@.len(),
            first_text(value@, all) == first_text(value@, all.skip(i as int)),
    {
        proof {
            assert(all.skip(i as int)[0] == paths@[i as int].deep_view());
            assert(all.skip(i as int).drop_first() =~= all.skip(i + 1));
        }
        let found = value.text_at(paths[i]);
        if found.is_some() {
            return found;
        }
    }
    None
}

fn find_own_string(value: &Json, keys: &[&str]) -> (r: Option<String>)
    ensures
        r.deep_view() == own_text(value@, keys.deep_view()),
{
    let ghost all = keys.deep_view();
    proof {
        assert(all.skip(0) =~= all);
    }
    for i in 0..keys.len()
        invariant
            all == keys.deep_view(),
            all.len() == keys@.len(),
            own_text(value@, all) == own_text(value@, all.skip(i as int)),
    {
        proof {
            assert(all.skip(i as int)[0] == keys@[i as int]@);
            assert(all.skip(i as int).drop_first() =~= all.skip(i + 1));
        }
        let found = value.member_text(keys[i]);
        if found.is_some() {
            return found;
        }
    }
    None
}

fn has_later_member(members: &Vec<(String, Json)>, i: usize) -> (r: bool)
    requires
        i < members@.len(),
    ensures
        r == is_replaced(member_views(members@).skip(i as int)),
{
    let ghost views = member_views(members@).skip(i as int);
    proof {
        lemma_member_views(members@);
    }
    for j in i + 1..members.len()
        invariant
            i < members@.len(),
            views == member_views(members@).skip(i as int),
            views.len() == members@.len() - i,
            forall|k: int| 0 <= k < views.len() ==> (#[trigger] views[k]).0 == members@[i + k].0@,
            forall|k: int| 1 <= k < j - i ==> (#[trigger] views[k]).0 != views[0].0,
    {
        if str_eq(members[i].0.as_str(), members[j].0.as_str()) {
            assert(views[j - i].0 == views[0].0);
            return true;
        }
    }
    false
}

/// The first text that stands under one of the keys, in the value itself or within its parts.
pub fn find_string(value: &Json, keys: &[&str]) -> (r: Option<String>)
    ensures
        r.deep_view() == text_within(value@, keys.deep_view()),
    decreases value,
{
    match value {
        Json::Object(members) => {
            let own = find_own_string(value, keys);
            if own.is_some() {
                return own;
            }
            let ghost views = value@->Object_0;
            proof {
                lemma_member_views(members@);
            }
            let mut i = members.len();
            let mut best: Option<(usize, String)> = None;
            proof {
                assert(views.skip(0) =~= views);
            }
            while i > 0
                invariant
                    value matches Json::Object(own) && own == members,
                    i <= members@.len(),
                    views == value@->Object_0,
                    views.len() == members@.len(),
                    forall|j: int|
                        0 <= j < views.len() ==> #[trigger] views[j] == (
                            members@[j].0@,
                            members@[j].1@,
                        ),
                    match best {
                        Some((k, found)) => i <= k < members@.len() && text_within_members(views.skip(i as int), keys.deep_view()) == Some(
                            (members@[k as int].0@, found.deep_view()),
                        ),
                        None => text_within_members(views.skip(i as int), keys.deep_view()) is None,
                    },
                decreases i,
            {
                i -= 1;
                proof {
                    assert(views.skip(i as int)[0] == views[i as int]);
                    assert(views.skip(i as int).drop_first() =~= views.skip(i + 1));
                }
                match find_string(&members[i].1, keys) {
                    Some(found) => {
                        let later = match &best {
                            Some((k, _)) => comes_before(
                                members[*k].0.as_str(),
                                members[i].0.as_str(),
                            ),
                            None => false,
                        };
                        if !later && !has_later_member(members, i) {
                            best = Some((i, found));
                        }
                    },
                    None => {},
                }
            }
            match best {
                Some((_, found)) => Some(found),
                None => None,
            }
        },
        Json::Array(items) => {
            let ghost views = value@->Array_0;
            proof {
                lemma_item_views(items@);
                assert(views.skip(0) =~= views);
            }
            for i in 0..items.len()
                invariant
                    value matches Json::Array(own) && own == items,
                    views == value@->Array_0,
                    views.len() == items@.len(),
                    forall|j: int| 0 <= j < views.len() ==> #[trigger] views[j] == items@[j]@,
                    text_within(value@, keys.deep_view()) == text_within_items(
                        views.skip(i as int),
                        keys.deep_view(),
                    ),
            {
                proof {
                    assert(views.skip(i as int)[0] == views[i as int]);
                    assert(views.skip(i as int).drop_first() =~= views.skip(i + 1));
                }
                let found = find_string(&items[i], keys);
                if found.is_some() {
                    return found;
                }
            }
            None
        },
        _ => None,
    }
}

fn find_summary(value: &Json) -> (r: Option<String>)
    ensures
        r.deep_view() == text_within(value@, summary_keys()),
{
    let keys: [&str; 5] = ["message", "text", "content", "reason", "summary"];
    proof {
        assert(keys.deep_view() =~= summary_keys());
    }
    find_string(value, keys.as_slice())
}

/// What a payload is about.
pub fn summarize_value(value: &Json) -> (r: Option<String>)
    requires
        has_summary(value@),
    ensures
        r.deep_view() == summary(value@),
{
    let found = find_summary(value);
    if found.is_some() {
        return found;
    }
    let text = value.to_text();
    if value.is_null() {
        None
    } else {
        Some(shorten(text.as_str(), SUMMARY_BYTES))
    }
}

/// What a payload is about, or none where its text would have to be cut within a character.
pub fn try_summarize_value(value: &Json) -> (r: Option<Option<String>>)
    ensures
        match r {
            Some(text) => has_summary(value@) && text.deep_view() == summary(value@),
            None => !has_summary(value@),
        },
{
    let found = find_summary(value);
    if found.is_some() || is_cuttable(value.to_text().as_str(), SUMMARY_BYTES) {
        Some(summarize_value(value))
    } else {
        None
    }
}

// ---------------------------------------------------------------------------
// Tokens
// ---------------------------------------------------------------------------

/// Token counts, with a total of any size.
pub ghost struct Usage {
    pub input: u64,
    pub output: u64,
    pub total: nat,
}

/// The member under the first key, or under the second where there is none.
pub open spec fn either_member(value: JsonView, key: Seq<char>, other: Seq<char>) -> Option<
    JsonView,
> {
    match value.member(key) {
        Some(member) => Some(member),
        None => value.member(other),
    }
}

/// The count under the first key, or under the second where there is none.
pub open spec fn either_count(value: JsonView, key: Seq<char>, other: Seq<char>) -> Option<u64> {
    match either_member(value, key, other) {
        Some(member) => member.unsigned(),
        None => None,
    }
}

/// The counts that an object itself gives. A total that is not given is the sum of input and
/// output, where both are.
pub open spec fn own_usage(value: JsonView) -> Option<Usage> {
    let input = either_count(value, "input_tokens"@, "inputTokens"@);
    let output = either_count(value, "output_tokens"@, "outputTokens"@);
    let total: Option<nat> = match either_count(value, "total_tokens"@, "totalTokens"@) {
        Some(total) => Some(total as nat),
        None => match (input, output) {
            (Some(input), Some(output)) => Some((input + output) as nat),
            _ => None,
        },
    };
    if input is None && output is None && total is None {
        None
    } else {
        Some(
            Usage {
                input: input.unwrap_or(0),
                output: output.unwrap_or(0),
                total: total.unwrap_or(0),
            },
        )
    }
}

/// The token counts of a payload: those of a total that it names, else its own, else the first that
/// are found within its parts.
pub open spec fn usage_within(value: JsonView) -> Option<Usage>
    decreases value,
{
    match value {
        JsonView::Object(members) => match either_member(
            value,
            "total_token_usage"@,
            "totalTokenUsage"@,
        ) {
            Some(total) => {
                proof {
                    lemma_find_member(members, "total_token_usage"@);
                    lemma_find_member(members, "totalTokenUsage"@);
                    let i = choose|i: int|
                        0 <= i < members.len() && (#[trigger] members[i]).1 == total;
                    assert(decreases_to!(members => members[i]));
                }
                usage_within(total)
            },
            None => match own_usage(value) {
                Some(usage) => Some(usage),
                None => match usage_within_members(members) {
                    Some((_, usage)) => Some(usage),
                    None => None,
                },
            },
        },
        JsonView::Array(items) => usage_within_items(items),
        _ => None,
    }
}

/// The first token counts within the members, in the order of their keys, and the key of the member
/// that they are found in.
pub open spec fn usage_within_members(members: Seq<(Seq<char>, JsonView)>) -> Option<
    (Seq<char>, Usage),
>
    decreases members,
{
    if members.len() == 0 {
        None
    } else {
        let (key, value) = members[0];
        let rest = usage_within_members(members.drop_first());
        match usage_within(value) {
            Some(usage) => if is_replaced(members) || (rest matches Some((other, _)) && precedes(
                other,
                key,
            )) {
                rest
            } else {
                Some((key, usage))
            },
            None => rest,
        }
    }
}

/// The first token counts within the items, in their order.
pub open spec fn usage_within_items(items: Seq<JsonView>) -> Option<Usage>
    decreases items,
{
    if items.len() == 0 {
        None
    } else {
        match usage_within(items[0]) {
            Some(usage) => Some(usage),
            None => usage_within_items(items.drop_first()),
        }
    }
}

/// The total of the token counts, where there are any, fits in 64 bits.
pub open spec fn usage_fits(value: JsonView) -> bool {
    match usage_within(value) {
        Some(usage) => usage.total <= u64::MAX,
        None => true,
    }
}

/// The token counts of a payload in 64 bits.
pub open spec fn token_usage(value: JsonView) -> Option<TokenUsage> {
    match usage_within(value) {
        Some(usage) => Some(
            TokenUsage {
                input_tokens: usage.input,
                output_tokens: usage.output,
                total_tokens: usage.total as u64,
            },
        ),
        None => None,
    }
}

/// Token counts, with room for the sum of two of them.
struct WideUsage {
    input: u64,
    output: u64,
    total: u128,
}

impl DeepView for WideUsage {
    type V = Usage;

    closed spec fn deep_view(&self) -> Usage {
        Usage { input: self.input, output: self.output, total: self.total as nat }
    }
}

fn get_either<'a>(value: &'a Json, key: &str, other: &str) -> (r: Option<&'a Json>)
    ensures
        r.deep_view() == either_member(value@, key@, other@),
        r matches Some(member) ==> decreases_to!(value => member),
{
    let found = value.get(key);
    if found.is_some() {
        found
    } else {
        value.get(other)
    }
}

fn count_either(value: &Json, key: &str, other: &str) -> (r: Option<u64>)
    ensures
        r == either_count(value@, key@, other@),
{
    match get_either(value, key, other) {
        Some(member) => member.as_u64(),
        None => None,
    }
}

fn count_own(value: &Json) -> (r: Option<WideUsage>)
    ensures
        r.deep_view() == own_usage(value@),
{
    let input = count_either(value, "input_tokens", "inputTokens");
    let output = count_either(value, "output_tokens", "outputTokens");
    let total: Option<u128> = match count_either(value, "total_tokens", "totalTokens") {
        Some(total) => Some(total as u128),
        None => match (input, output) {
            (Some(input), Some(output)) => Some(input as u128 + output as u128),
            _ => None,
        },
    };
    if input.is_none() && output.is_none() && total.is_none() {
        None
    } else {
        Some(
            WideUsage {
                input: input.unwrap_or(0),
                output: output.unwrap_or(0),
                total: total.unwrap_or(0),
            },
        )
    }
}

fn count_tokens(value: &Json) -> (r: Option<WideUsage>)
    ensures
        r.deep_view() == usage_within(value@),
    decreases value,
{
    match value {
        Json::Object(members) => {
            match get_either(value, "total_token_usage", "totalTokenUsage") {
                Some(total) => {
                    return count_tokens(total);
                },
                None => {},
            }
            let own = count_own(value);
            if own.is_some() {
                return own;
            }
            let ghost views = value@->Object_0;
            proof {
                lemma_member_views(members@);
            }
            let mut i = members.len();
            let mut best: Option<(usize, WideUsage)> = None;
            proof {
                assert(views.skip(0) =~= views);
            }
            while i > 0
                invariant
                    value matches Json::Object(own) && own == members,
                    i <= members@.len(),
                    views == value@->Object_0,
                    views.len() == members@.len(),
                    forall|j: int|
                        0 <= j < views.len() ==> #[trigger] views[j] == (
                            members@[j].0@,
                            members@[j].1@,
                        ),
                    match best {
                        Some((k, found)) => i <= k < members@.len() && usage_within_members(views.skip(i as int)) == Some(
                            (members@[k as int].0@, found.deep_view()),
                        ),
                        None => usage_within_members(views.skip(i as int)) is None,
                    },
                decreases i,
            {
                i -= 1;
                proof {
                    assert(views.skip(i as int)[0] == views[i as int]);
                    assert(views.skip(i as int).drop_first() =~= views.skip(i + 1));
                }
                match count_tokens(&members[i].1) {
                    Some(found) => {
                        let later = match &best {
                            Some((k, _)) => comes_before(
                                members[*k].0.as_str(),
                                members[i].0.as_str(),
                            ),
                            None => false,
                        };
                        if !later && !has_later_member(members, i) {
                            best = Some((i, found));
                        }
                    },
                    None => {},
                }
            }
            match best {
                Some((_, found)) => Some(found),
                None => None,
            }
        },
        Json::Array(items) => {
            let ghost views = value@->Array_0;
            proof {
                lemma_item_views(items@);
                assert(views.skip(0) =~= views);
            }
            for i in 0..items.len()
                invariant
                    value matches Json::Array(own) && own == items,
                    views == value@->Array_0,
                    views.len() == items@.len(),
                    forall|j: int| 0 <= j < views.len() ==> #[trigger] views[j] == items@[j]@,
                    usage_within(value@) == usage_within_items(views.skip(i as int)),
            {
                proof {
                    assert(views.skip(i as int)[0] == views[i as int]);
                    assert(views.skip(i as int).drop_first() =~= views.skip(i + 1));
                }
                let found = count_tokens(&items[i]);
                if found.is_some() {
                    return found;
                }
            }
            None
        },
        _ => None,
    }
}

/// Whether the token counts of a payload fit in 64 bits.
pub fn token_usage_fits(value: &Json) -> (r: bool)
    ensures
        r == usage_fits(value@),
{
    match count_tokens(value) {
        Some(usage) => usage.total <= u64::MAX as u128,
        None => true,
    }
}

/// The token counts of a payload.
pub fn extract_token_usage(value: &Json) -> (r: Option<TokenUsage>)
    requires
        usage_fits(value@),
    ensures
        r == token_usage(value@),
{
    match count_tokens(value) {
        Some(usage) => Some(
            TokenUsage {
                input_tokens: usage.input,
                output_tokens: usage.output,
                total_tokens: usage.total as u64,
            },
        ),
        None => None,
    }
}

// ---------------------------------------------------------------------------
// Arguments of the GraphQL tool
// ---------------------------------------------------------------------------

/// The query and the variables that the arguments of a call of the GraphQL tool name: a query
/// alone, which is not blank, or an object that holds a query, which is not empty, and may hold an
/// object of variables.
pub open spec fn graphql_arguments(arguments: Option<JsonView>) -> Result<
    (Seq<char>, Option<JsonView>),
    ErrorView,
> {
    match arguments {
        Some(JsonView::String(query)) if !is_blank(query) => Ok((query, None)),
        Some(JsonView::Object(members)) => match JsonView::Object(members).member_text("query"@) {
            Some(query) if query.len() > 0 => match find_member(members, "variables"@) {
                Some(JsonView::Object(variables)) => Ok((query, Some(JsonView::Object(variables)))),
                Some(_) => Err(ErrorView::InvalidConfig("variables must be an object"@)),
                None => Ok((query, None)),
            },
            _ => Err(ErrorView::InvalidConfig("query must be a non-empty string"@)),
        },
        _ => Err(ErrorView::InvalidConfig("arguments must be a query string or object"@)),
    }
}

/// The query and the variables that the arguments of a call of the GraphQL tool name.
pub fn parse_linear_graphql_arguments(arguments: Option<&Json>) -> (r: Result<
    (String, Option<Json>),
    SymphonyError,
>)
    ensures
        match r {
            Ok((query, variables)) => graphql_arguments(arguments.deep_view()) == Ok::<
                (Seq<char>, Option<JsonView>),
                ErrorView,
            >((query@, variables.deep_view())),
            Err(error) => graphql_arguments(arguments.deep_view()) == Err::<
                (Seq<char>, Option<JsonView>),
                ErrorView,
            >(error@),
        },
{
    match arguments {
        Some(value) => match value {
            Json::String(query) => if !is_blank_text(query.as_str()) {
                Ok((query.clone(), None))
            } else {
                Err(
                    SymphonyError::InvalidConfig(
                        "arguments must be a query string or object".to_owned(),
                    ),
                )
            },
            Json::Object(_) => {
                let query = match value.member_text("query") {
                    Some(query) => if chars_of(query.as_str()).len() > 0 {
                        query
                    } else {
                        return Err(
                            SymphonyError::InvalidConfig(
                                "query must be a non-empty string".to_owned(),
                            ),
                        );
                    },
                    None => {
                        return Err(
                            SymphonyError::InvalidConfig(
                                "query must be a non-empty string".to_owned(),
                            ),
                        );
                    },
                };
                match value.get("variables") {
                    Some(variables) => if variables.is_object() {
                        Ok((query, Some(variables.clone())))
                    } else {
                        Err(SymphonyError::InvalidConfig("variables must be an object".to_owned()))
                    },
                    None => Ok((query, None)),
                }
            },
            _ => Err(
                SymphonyError::InvalidConfig(
                    "arguments must be a query string or object".to_owned(),
                ),
            ),
        },
        None => Err(
            SymphonyError::InvalidConfig("arguments must be a query string or object".to_owned()),
        ),
    }
}

} // verus!
