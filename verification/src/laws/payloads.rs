//! What is taken out of the payloads of the app-server.
use vstd::prelude::*;
use vstd::utf8::{encode_utf8, is_char_boundary};

use crate::error::ErrorView;
use crate::json::{is_replaced, json_rendering, JsonView};
use crate::laws::values::{holds, lacks, lemma_member};
use crate::payload::{
    either_count, first_text, graphql_arguments, has_summary, own_text, own_usage, summary,
    summary_keys, text_within, text_within_items, text_within_members, token_usage, usage_fits,
    usage_within, usage_within_items, usage_within_members,
};
use crate::text::{byte_head, lemma_precedes_total, precedes, trimmed};
use crate::types::TokenUsage;

verus! {

// ---------------------------------------------------------------------------
// Text
// ---------------------------------------------------------------------------

/// The member at the place is the last under its key, and there is something within it.
pub open spec fn offers_text(members: Seq<(Seq<char>, JsonView)>, keys: Seq<Seq<char>>, i: int) -> bool {
    &&& 0 <= i < members.len()
    &&& text_within(members[i].1, keys) is Some
    &&& forall|j: int| i < j < members.len() ==> (#[trigger] members[j]).0 != members[i].0
}

proof fn lemma_found_text(members: Seq<(Seq<char>, JsonView)>, keys: Seq<Seq<char>>) -> (i: int)
    requires
        text_within_members(members, keys) is Some,
    ensures
        offers_text(members, keys, i),
        text_within_members(members, keys) == Some((members[i].0, text_within(members[i].1, keys).unwrap())),
    decreases members.len(),
{
    let tail = members.drop_first();
    let rest = text_within_members(tail, keys);
    if text_within_members(members, keys) == rest {
        let k = lemma_found_text(tail, keys);
        assert(tail[k] == members[k + 1]);
        assert forall|j: int| k + 1 < j < members.len() implies (#[trigger] members[j]).0
            != members[k + 1].0 by {
            assert(tail[j - 1] == members[j]);
        }
        k + 1
    } else {
        assert(!is_replaced(members));
        0
    }
}

proof fn lemma_first_text(members: Seq<(Seq<char>, JsonView)>, keys: Seq<Seq<char>>, i: int)
    requires
        offers_text(members, keys, i),
        forall|j: int|
            j != i && #[trigger] offers_text(members, keys, j) ==> precedes(members[i].0, members[j].0),
    ensures
        text_within_members(members, keys) == Some((members[i].0, text_within(members[i].1, keys).unwrap())),
    decreases members.len(),
{
    let tail = members.drop_first();
    let rest = text_within_members(tail, keys);
    assert forall|j: int| #[trigger] offers_text(tail, keys, j) implies offers_text(members, keys, j + 1) by {
        assert(tail[j] == members[j + 1]);
        assert forall|k: int| j + 1 < k < members.len() implies (#[trigger] members[k]).0
            != members[j + 1].0 by {
            assert(tail[k - 1] == members[k]);
        }
    }
    if i == 0 {
        assert(!is_replaced(members));
        if rest is Some {
            let k = lemma_found_text(tail, keys);
            assert(offers_text(members, keys, k + 1));
            assert(tail[k] == members[k + 1]);
            lemma_precedes_total(members[0].0, members[k + 1].0);
        }
    } else {
        assert(tail[i - 1] == members[i]);
        assert(offers_text(tail, keys, i - 1)) by {
            assert forall|k: int| i - 1 < k < tail.len() implies (#[trigger] tail[k]).0
                != tail[i - 1].0 by {
                assert(tail[k] == members[k + 1]);
            }
        }
        assert forall|j: int| j != i - 1 && #[trigger] offers_text(tail, keys, j) implies precedes(
            tail[i - 1].0,
            tail[j].0,
        ) by {
            assert(offers_text(members, keys, j + 1));
            assert(tail[j] == members[j + 1]);
        }
        lemma_first_text(tail, keys, i - 1);
        if !is_replaced(members) && text_within(members[0].1, keys) is Some {
            assert(offers_text(members, keys, 0));
        }
    }
}

proof fn lemma_first_item_with_text(items: Seq<JsonView>, keys: Seq<Seq<char>>, i: int)
    requires
        0 <= i < items.len(),
        text_within(items[i], keys) is Some,
        forall|j: int| 0 <= j < i ==> text_within((#[trigger] items[j]), keys) is None,
    ensures
        text_within_items(items, keys) == text_within(items[i], keys),
    decreases items.len(),
{
    if i > 0 {
        let tail = items.drop_first();
        assert(tail[i - 1] == items[i]);
        assert(items[0] == items[0]);
        assert forall|j: int| 0 <= j < i - 1 implies text_within((#[trigger] tail[j]), keys) is None by {
            assert(tail[j] == items[j + 1]);
        }
        lemma_first_item_with_text(tail, keys, i - 1);
    }
}

proof fn lemma_no_item_with_text(items: Seq<JsonView>, keys: Seq<Seq<char>>)
    requires
        forall|j: int| 0 <= j < items.len() ==> text_within((#[trigger] items[j]), keys) is None,
    ensures
        text_within_items(items, keys) is None,
    decreases items.len(),
{
    if items.len() > 0 {
        let tail = items.drop_first();
        assert(items[0] == items[0]);
        assert forall|j: int| 0 <= j < tail.len() implies text_within((#[trigger] tail[j]), keys) is None by {
            assert(tail[j] == items[j + 1]);
        }
        lemma_no_item_with_text(tail, keys);
    }
}

/// An object holds no text under the key.
pub open spec fn without_text(value: JsonView, key: Seq<char>) -> bool {
    forall|s: Seq<char>| !#[trigger] holds(value, key, JsonView::String(s))
}

proof fn lemma_own_text(value: JsonView, keys: Seq<Seq<char>>, i: int)
    requires
        0 <= i <= keys.len(),
        forall|j: int| 0 <= j < i ==> value.member_text(#[trigger] keys[j]) is None,
    ensures
        i < keys.len() && value.member_text(keys[i]) is Some ==> own_text(value, keys)
            == value.member_text(keys[i]),
        i == keys.len() ==> own_text(value, keys) is None,
    decreases keys.len(),
{
    if i > 0 {
        let tail = keys.drop_first();
        assert(value.member_text(keys[0]) is None);
        assert forall|j: int| 0 <= j < i - 1 implies value.member_text(#[trigger] tail[j])
            is None by {
            assert(tail[j] == keys[j + 1]);
        }
        lemma_own_text(value, tail, i - 1);
    }
}

/// What an object is about is the text that it holds under `message`, `text`, `content`, `reason` or
/// `summary`, the first of these under which it holds one.
pub proof fn lemma_own_summary(value: JsonView, s: Seq<char>)
    ensures
        holds(value, "message"@, JsonView::String(s)) ==> summary(value) == Some(s),
        without_text(value, "message"@) ==> {
            &&& holds(value, "text"@, JsonView::String(s)) ==> summary(value) == Some(s)
            &&& without_text(value, "text"@) ==> {
                &&& holds(value, "content"@, JsonView::String(s)) ==> summary(value) == Some(s)
                &&& without_text(value, "content"@) ==> {
                    &&& holds(value, "reason"@, JsonView::String(s)) ==> summary(value) == Some(s)
                    &&& without_text(value, "reason"@) && holds(
                        value,
                        "summary"@,
                        JsonView::String(s),
                    ) ==> summary(value) == Some(s)
                }
            }
        },
{
    let keys = summary_keys();
    assert forall|i: int| 0 <= i < 5 && without_text(value, #[trigger] keys[i]) implies value.member_text(
        keys[i],
    ) is None by {
        lemma_member(value, keys[i]);
        if let Some(t) = value.member_text(keys[i]) {
            assert(holds(value, keys[i], JsonView::String(t)));
        }
    }
    assert forall|i: int|
        0 <= i < 5 && holds(value, #[trigger] keys[i], JsonView::String(s)) implies value.member_text(
        keys[i],
    ) == Some(s) by {
        lemma_member(value, keys[i]);
    }
    assert(keys[0] == "message"@ && keys[1] == "text"@ && keys[2] == "content"@ && keys[3]
        == "reason"@ && keys[4] == "summary"@);
    lemma_own_text(value, keys, 0);
    if without_text(value, keys[0]) {
        lemma_own_text(value, keys, 1);
        if without_text(value, keys[1]) {
            lemma_own_text(value, keys, 2);
            if without_text(value, keys[2]) {
                lemma_own_text(value, keys, 3);
                if without_text(value, keys[3]) {
                    lemma_own_text(value, keys, 4);
                }
            }
        }
    }
}

/// A text is looked for in the object itself, then in its members by the order of their keys, of which the
/// first counts that has one; in the items of an array by their order; and nowhere else.
pub proof fn lemma_search_for_text(value: JsonView, keys: Seq<Seq<char>>, i: int)
    ensures
        value is Object && (forall|k: int|
            0 <= k < keys.len() ==> without_text(value, #[trigger] keys[k])) ==> {
            let members = value->Object_0;
            &&& offers_text(members, keys, i) && (forall|j: int|
                j != i && #[trigger] offers_text(members, keys, j) ==> precedes(
                    members[i].0,
                    members[j].0,
                )) ==> text_within(value, keys) == text_within(members[i].1, keys)
            &&& (forall|j: int| !#[trigger] offers_text(members, keys, j)) ==> text_within(
                value,
                keys,
            ) is None
        },
        value is Array ==> {
            let items = value->Array_0;
            &&& 0 <= i < items.len() && text_within(items[i], keys) is Some && (forall|j: int|
                0 <= j < i ==> text_within((#[trigger] items[j]), keys) is None) ==> text_within(
                value,
                keys,
            ) == text_within(items[i], keys)
            &&& (forall|j: int| 0 <= j < items.len() ==> text_within((#[trigger] items[j]), keys) is None)
                ==> text_within(value, keys) is None
        },
        !(value is Object) && !(value is Array) ==> text_within(value, keys) is None,
{
    if value is Object && (forall|k: int|
        0 <= k < keys.len() ==> without_text(value, #[trigger] keys[k])) {
        let members = value->Object_0;
        assert forall|k: int| 0 <= k < keys.len() implies value.member_text(#[trigger] keys[k])
            is None by {
            lemma_member(value, keys[k]);
            if let Some(t) = value.member_text(keys[k]) {
                assert(holds(value, keys[k], JsonView::String(t)));
            }
        }
        lemma_own_text(value, keys, keys.len() as int);
        if offers_text(members, keys, i) && (forall|j: int|
            j != i && #[trigger] offers_text(members, keys, j) ==> precedes(
                members[i].0,
                members[j].0,
            )) {
            lemma_first_text(members, keys, i);
        }
        if forall|j: int| !#[trigger] offers_text(members, keys, j) {
            if text_within_members(members, keys) is Some {
                let k = lemma_found_text(members, keys);
            }
        }
    }
    if value is Array {
        let items = value->Array_0;
        if 0 <= i < items.len() && text_within(items[i], keys) is Some && (forall|j: int|
            0 <= j < i ==> text_within((#[trigger] items[j]), keys) is None) {
            lemma_first_item_with_text(items, keys, i);
        }
        if forall|j: int| 0 <= j < items.len() ==> text_within((#[trigger] items[j]), keys) is None {
            lemma_no_item_with_text(items, keys);
        }
    }
}

/// What is found of the five keys anywhere is what a payload is about. A payload in which nothing is found
/// is shown itself, up to 300 bytes, unless it is null.
pub proof fn lemma_summary(value: JsonView)
    ensures
        ({
            let keys = seq!["message"@, "text"@, "content"@, "reason"@, "summary"@];
            let shown = json_rendering(value);
            &&& text_within(value, keys) is Some ==> summary(value) == text_within(value, keys)
            &&& text_within(value, keys) is None && shown == "null"@ ==> summary(value) is None
            &&& text_within(value, keys) is None && shown != "null"@ && encode_utf8(shown).len()
                <= 300 ==> summary(value) == Some(shown)
            &&& text_within(value, keys) is None && shown != "null"@ && encode_utf8(shown).len() > 300
                ==> summary(value) == Some(byte_head(shown, 300) + "..."@)
        }),
{
}

/// A payload can be told of if a text is found in it, or if it is shown in at most 300 bytes, or if the
/// first 300 are those of whole characters.
pub proof fn lemma_payloads_that_can_be_told(value: JsonView)
    ensures
        has_summary(value) <==> {
            let keys = seq!["message"@, "text"@, "content"@, "reason"@, "summary"@];
            let bytes = encode_utf8(json_rendering(value));
            text_within(value, keys) is Some || bytes.len() <= 300 || is_char_boundary(bytes, 300)
        },
        usage_fits(value) <==> match usage_within(value) {
            Some(usage) => usage.total <= u64::MAX,
            None => true,
        },
{
}

/// Of two places the text at the first counts, if there is one, and else the one at the second.
pub proof fn lemma_first_of_two_places(value: JsonView, first: Seq<Seq<char>>, second: Seq<Seq<char>>)
    ensures
        value.at(first) matches Some(JsonView::String(s)) ==> first_text(value, seq![first, second])
            == Some(s),
        !(value.at(first) is Some && value.at(first).unwrap() is String) ==> {
            &&& value.at(second) matches Some(JsonView::String(s)) ==> first_text(
                value,
                seq![first, second],
            ) == Some(s)
            &&& !(value.at(second) is Some && value.at(second).unwrap() is String) ==> first_text(
                value,
                seq![first, second],
            ) is None
        },
{
    reveal_with_fuel(first_text, 3);
    let paths = seq![first, second];
    assert(paths.drop_first()[0] == second);
    assert(paths.drop_first().drop_first().len() == 0);
}

// ---------------------------------------------------------------------------
// Tokens
// ---------------------------------------------------------------------------

/// The member at the place is the last under its key, and there is something within it.
pub open spec fn offers_usage(members: Seq<(Seq<char>, JsonView)>, i: int) -> bool {
    &&& 0 <= i < members.len()
    &&& usage_within(members[i].1) is Some
    &&& forall|j: int| i < j < members.len() ==> (#[trigger] members[j]).0 != members[i].0
}

proof fn lemma_found_usage(members: Seq<(Seq<char>, JsonView)>) -> (i: int)
    requires
        usage_within_members(members) is Some,
    ensures
        offers_usage(members, i),
        usage_within_members(members) == Some((members[i].0, usage_within(members[i].1).unwrap())),
    decreases members.len(),
{
    let tail = members.drop_first();
    let rest = usage_within_members(tail);
    if usage_within_members(members) == rest {
        let k = lemma_found_usage(tail);
        assert(tail[k] == members[k + 1]);
        assert forall|j: int| k + 1 < j < members.len() implies (#[trigger] members[j]).0
            != members[k + 1].0 by {
            assert(tail[j - 1] == members[j]);
        }
        k + 1
    } else {
        assert(!is_replaced(members));
        0
    }
}

proof fn lemma_first_usage(members: Seq<(Seq<char>, JsonView)>, i: int)
    requires
        offers_usage(members, i),
        forall|j: int|
            j != i && #[trigger] offers_usage(members, j) ==> precedes(members[i].0, members[j].0),
    ensures
        usage_within_members(members) == Some((members[i].0, usage_within(members[i].1).unwrap())),
    decreases members.len(),
{
    let tail = members.drop_first();
    let rest = usage_within_members(tail);
    assert forall|j: int| #[trigger] offers_usage(tail, j) implies offers_usage(members, j + 1) by {
        assert(tail[j] == members[j + 1]);
        assert forall|k: int| j + 1 < k < members.len() implies (#[trigger] members[k]).0
            != members[j + 1].0 by {
            assert(tail[k - 1] == members[k]);
        }
    }
    if i == 0 {
        assert(!is_replaced(members));
        if rest is Some {
            let k = lemma_found_usage(tail);
            assert(offers_usage(members, k + 1));
            assert(tail[k] == members[k + 1]);
            lemma_precedes_total(members[0].0, members[k + 1].0);
        }
    } else {
        assert(tail[i - 1] == members[i]);
        assert(offers_usage(tail, i - 1)) by {
            assert forall|k: int| i - 1 < k < tail.len() implies (#[trigger] tail[k]).0
                != tail[i - 1].0 by {
                assert(tail[k] == members[k + 1]);
            }
        }
        assert forall|j: int| j != i - 1 && #[trigger] offers_usage(tail, j) implies precedes(
            tail[i - 1].0,
            tail[j].0,
        ) by {
            assert(offers_usage(members, j + 1));
            assert(tail[j] == members[j + 1]);
        }
        lemma_first_usage(tail, i - 1);
        if !is_replaced(members) && usage_within(members[0].1) is Some {
            assert(offers_usage(members, 0));
        }
    }
}

proof fn lemma_first_item_with_usage(items: Seq<JsonView>, i: int)
    requires
        0 <= i < items.len(),
        usage_within(items[i]) is Some,
        forall|j: int| 0 <= j < i ==> usage_within((#[trigger] items[j])) is None,
    ensures
        usage_within_items(items) == usage_within(items[i]),
    decreases items.len(),
{
    if i > 0 {
        let tail = items.drop_first();
        assert(tail[i - 1] == items[i]);
        assert(items[0] == items[0]);
        assert forall|j: int| 0 <= j < i - 1 implies usage_within((#[trigger] tail[j])) is None by {
            assert(tail[j] == items[j + 1]);
        }
        lemma_first_item_with_usage(tail, i - 1);
    }
}

proof fn lemma_no_item_with_usage(items: Seq<JsonView>)
    requires
        forall|j: int| 0 <= j < items.len() ==> usage_within((#[trigger] items[j])) is None,
    ensures
        usage_within_items(items) is None,
    decreases items.len(),
{
    if items.len() > 0 {
        let tail = items.drop_first();
        assert(items[0] == items[0]);
        assert forall|j: int| 0 <= j < tail.len() implies usage_within((#[trigger] tail[j])) is None by {
            assert(tail[j] == items[j + 1]);
        }
        lemma_no_item_with_usage(tail);
    }
}

/// The object tells a count, under the first key or, where it has nothing there, under the second.
pub open spec fn tells_count(value: JsonView, key: Seq<char>, other: Seq<char>, n: u64) -> bool {
    holds(value, key, JsonView::PosInt(n)) || (lacks(value, key) && holds(
        value,
        other,
        JsonView::PosInt(n),
    ))
}

/// The object tells this count, or none.
pub open spec fn tells(value: JsonView, key: Seq<char>, other: Seq<char>, count: Option<u64>) -> bool {
    match count {
        Some(n) => tells_count(value, key, other, n),
        None => forall|n: u64| !#[trigger] tells_count(value, key, other, n),
    }
}

proof fn lemma_tells(value: JsonView, key: Seq<char>, other: Seq<char>, count: Option<u64>)
    requires
        tells(value, key, other, count),
    ensures
        either_count(value, key, other) == count,
{
    lemma_member(value, key);
    lemma_member(value, other);
    if let Some(n) = either_count(value, key, other) {
        assert(tells_count(value, key, other, n));
    }
}

/// The counts that an object tells are taken over; a total that it does not tell is the sum of the other
/// two, where it tells both. One that it does not tell is otherwise zero, if it tells any.
pub proof fn lemma_own_usage(
    value: JsonView,
    input: Option<u64>,
    output: Option<u64>,
    total: Option<u64>,
)
    requires
        tells(value, "input_tokens"@, "inputTokens"@, input),
        tells(value, "output_tokens"@, "outputTokens"@, output),
        tells(value, "total_tokens"@, "totalTokens"@, total),
    ensures
        input is None && output is None && total is None <==> own_usage(value) is None,
        own_usage(value) matches Some(usage) ==> {
            &&& input is Some ==> usage.input == input.unwrap()
            &&& input is None ==> usage.input == 0
            &&& output is Some ==> usage.output == output.unwrap()
            &&& output is None ==> usage.output == 0
            &&& total is Some ==> usage.total == total.unwrap()
            &&& total is None && input is Some && output is Some ==> usage.total == input.unwrap()
                + output.unwrap()
            &&& total is None && (input is None || output is None) ==> usage.total == 0
        },
{
    lemma_tells(value, "input_tokens"@, "inputTokens"@, input);
    lemma_tells(value, "output_tokens"@, "outputTokens"@, output);
    lemma_tells(value, "total_tokens"@, "totalTokens"@, total);
}

/// Counts are looked for in the total that an object names; without one in the object itself, then in its
/// members by the order of their keys, of which the first counts that has some; in the items of an array by
/// their order; and nowhere else.
pub proof fn lemma_search_for_usage(value: JsonView, total: JsonView, i: int)
    ensures
        holds(value, "total_token_usage"@, total) ==> usage_within(value) == usage_within(total),
        lacks(value, "total_token_usage"@) && holds(value, "totalTokenUsage"@, total)
            ==> usage_within(value) == usage_within(total),
        value is Object && lacks(value, "total_token_usage"@) && lacks(value, "totalTokenUsage"@) ==> {
            let members = value->Object_0;
            &&& own_usage(value) is Some ==> usage_within(value) == own_usage(value)
            &&& own_usage(value) is None && offers_usage(members, i) && (forall|j: int|
                j != i && #[trigger] offers_usage(members, j) ==> precedes(
                    members[i].0,
                    members[j].0,
                )) ==> usage_within(value) == usage_within(members[i].1)
            &&& own_usage(value) is None && (forall|j: int| !#[trigger] offers_usage(members, j))
                ==> usage_within(value) is None
        },
        value is Array ==> {
            let items = value->Array_0;
            &&& 0 <= i < items.len() && usage_within(items[i]) is Some && (forall|j: int|
                0 <= j < i ==> usage_within((#[trigger] items[j])) is None) ==> usage_within(value)
                == usage_within(items[i])
            &&& (forall|j: int| 0 <= j < items.len() ==> usage_within((#[trigger] items[j])) is None)
                ==> usage_within(value) is None
        },
        !(value is Object) && !(value is Array) ==> usage_within(value) is None,
{
    lemma_member(value, "total_token_usage"@);
    lemma_member(value, "totalTokenUsage"@);
    if value is Object {
        let members = value->Object_0;
        if offers_usage(members, i) && (forall|j: int|
            j != i && #[trigger] offers_usage(members, j) ==> precedes(members[i].0, members[j].0)) {
            lemma_first_usage(members, i);
        }
        if forall|j: int| !#[trigger] offers_usage(members, j) {
            if usage_within_members(members) is Some {
                let k = lemma_found_usage(members);
            }
        }
    }
    if value is Array {
        let items = value->Array_0;
        if 0 <= i < items.len() && usage_within(items[i]) is Some && (forall|j: int|
            0 <= j < i ==> usage_within((#[trigger] items[j])) is None) {
            lemma_first_item_with_usage(items, i);
        }
        if forall|j: int| 0 <= j < items.len() ==> usage_within((#[trigger] items[j])) is None {
            lemma_no_item_with_usage(items);
        }
    }
}

/// The counts of a payload are those that are found in it, where their total fits in 64 bits.
pub proof fn lemma_token_usage(value: JsonView)
    ensures
        usage_within(value) is None ==> token_usage(value) is None,
        usage_within(value) matches Some(usage) ==> usage.total <= u64::MAX ==> token_usage(value)
            == Some(
            (TokenUsage {
                input_tokens: usage.input,
                output_tokens: usage.output,
                total_tokens: usage.total as u64,
            }),
        ),
{
}

/// One text comes before another if it is a proper beginning of it, or has the lower character where they
/// first differ.
pub proof fn lemma_precedes(a: Seq<char>, b: Seq<char>)
    ensures
        precedes(a, b) <==> exists|i: int|
            {
                &&& 0 <= i < b.len()
                &&& i <= a.len()
                &&& #[trigger] a.take(i) == b.take(i)
                &&& i == a.len() || a[i] < b[i]
            },
    decreases a.len(),
{
    if b.len() > 0 {
        if a.len() == 0 || a[0] != b[0] {
            assert(a.take(0) =~= b.take(0));
            if exists|i: int|
                {
                    &&& 0 <= i < b.len()
                    &&& i <= a.len()
                    &&& #[trigger] a.take(i) == b.take(i)
                    &&& i == a.len() || a[i] < b[i]
                } {
                let i = choose|i: int|
                    {
                        &&& 0 <= i < b.len()
                        &&& i <= a.len()
                        &&& #[trigger] a.take(i) == b.take(i)
                        &&& i == a.len() || a[i] < b[i]
                    };
                if i > 0 {
                    assert(a.take(i)[0] == a[0]);
                    assert(b.take(i)[0] == b[0]);
                }
            }
        } else {
            let x = a.drop_first();
            let y = b.drop_first();
            lemma_precedes(x, y);
            if precedes(x, y) {
                let i = choose|i: int|
                    {
                        &&& 0 <= i < y.len()
                        &&& i <= x.len()
                        &&& #[trigger] x.take(i) == y.take(i)
                        &&& i == x.len() || x[i] < y[i]
                    };
                assert forall|k: int| 0 <= k < i + 1 implies a[k] == b[k] by {
                    if k > 0 {
                        assert(x.take(i)[k - 1] == y.take(i)[k - 1]);
                    }
                }
                assert(a.take(i + 1) =~= b.take(i + 1));
            }
            if exists|i: int|
                {
                    &&& 0 <= i < b.len()
                    &&& i <= a.len()
                    &&& #[trigger] a.take(i) == b.take(i)
                    &&& i == a.len() || a[i] < b[i]
                } {
                let i = choose|i: int|
                    {
                        &&& 0 <= i < b.len()
                        &&& i <= a.len()
                        &&& #[trigger] a.take(i) == b.take(i)
                        &&& i == a.len() || a[i] < b[i]
                    };
                assert(i > 0);
                assert forall|k: int| 0 <= k < i - 1 implies x[k] == y[k] by {
                    assert(a.take(i)[k + 1] == b.take(i)[k + 1]);
                }
                assert(x.take(i - 1) =~= y.take(i - 1));
            }
        }
    }
}

// ---------------------------------------------------------------------------
// Arguments of the GraphQL tool
// ---------------------------------------------------------------------------

/// A call of the GraphQL tool names a query, either alone, if that is not blank, or in an object, if that is
/// not empty; and variables only in such an object, and only as an object.
pub proof fn lemma_graphql_arguments(value: JsonView, query: Seq<char>, variables: JsonView)
    ensures
        graphql_arguments(None) == Err::<(Seq<char>, Option<JsonView>), ErrorView>(
            ErrorView::InvalidConfig("arguments must be a query string or object"@),
        ),
        trimmed(query).len() > 0 ==> graphql_arguments(Some(JsonView::String(query))) == Ok::<
            (Seq<char>, Option<JsonView>),
            ErrorView,
        >((query, None)),
        (value is String && trimmed(value->String_0).len() == 0) || !(value is String || value is Object)
            ==> graphql_arguments(Some(value)) == Err::<(Seq<char>, Option<JsonView>), ErrorView>(
            ErrorView::InvalidConfig("arguments must be a query string or object"@),
        ),
        holds(value, "query"@, JsonView::String(query)) && query.len() > 0 ==> {
            &&& lacks(value, "variables"@) ==> graphql_arguments(Some(value)) == Ok::<
                (Seq<char>, Option<JsonView>),
                ErrorView,
            >((query, None))
            &&& holds(value, "variables"@, variables) && variables is Object ==> graphql_arguments(
                Some(value),
            ) == Ok::<(Seq<char>, Option<JsonView>), ErrorView>((query, Some(variables)))
            &&& holds(value, "variables"@, variables) && !(variables is Object) ==> graphql_arguments(
                Some(value),
            ) == Err::<(Seq<char>, Option<JsonView>), ErrorView>(
                ErrorView::InvalidConfig("variables must be an object"@),
            )
        },
        value is Object && (without_text(value, "query"@) || holds(
            value,
            "query"@,
            JsonView::String(Seq::empty()),
        )) ==> graphql_arguments(Some(value)) == Err::<(Seq<char>, Option<JsonView>), ErrorView>(
            ErrorView::InvalidConfig("query must be a non-empty string"@),
        ),
{
    lemma_member(value, "query"@);
    lemma_member(value, "variables"@);
    if value is Object && without_text(value, "query"@) {
        if let Some(t) = value.member_text("query"@) {
            assert(holds(value, "query"@, JsonView::String(t)));
        }
    }
}

} // verus!
