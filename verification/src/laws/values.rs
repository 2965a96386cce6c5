//! What texts and JSON values are read as.
use vstd::prelude::*;
use vstd::utf8::{encode_utf8, encode_utf8_decode_utf8};

use crate::json::{find_member, JsonView};
use crate::text::{
    ascii_lowercase, byte_head, is_blank, is_white_space, lemma_length_before, length_before,
    list_items, shortened, trimmed, trimmed_end, trimmed_start, unix_newlines,
};
use crate::time::Timestamp;
use crate::types::{
    no_blocker_ref, no_hook_settings, no_issue, no_log_debug_info, no_workflow_definition,
};

verus! {

// ---------------------------------------------------------------------------
// JSON
// ---------------------------------------------------------------------------

/// Among the members this one is the last under its key.
pub open spec fn is_last(members: Seq<(Seq<char>, JsonView)>, key: Seq<char>, member: JsonView) -> bool {
    exists|i: int|
        0 <= i < members.len() && (#[trigger] members[i]) == (key, member) && forall|j: int|
            i < j < members.len() ==> (#[trigger] members[j]).0 != key
}

/// None of the members stands under the key.
pub open spec fn has_none(members: Seq<(Seq<char>, JsonView)>, key: Seq<char>) -> bool {
    forall|j: int| 0 <= j < members.len() ==> (#[trigger] members[j]).0 != key
}

/// The value is an object that holds this member under the key; of two under one key the later holds.
pub open spec fn holds(value: JsonView, key: Seq<char>, member: JsonView) -> bool {
    value is Object && is_last(value->Object_0, key, member)
}

/// The value is no object, or one that holds nothing under the key.
pub open spec fn lacks(value: JsonView, key: Seq<char>) -> bool {
    !(value is Object) || has_none(value->Object_0, key)
}

proof fn lemma_find_member(members: Seq<(Seq<char>, JsonView)>, key: Seq<char>)
    ensures
        match find_member(members, key) {
            Some(member) => is_last(members, key, member),
            None => has_none(members, key),
        },
    decreases members.len(),
{
    if members.len() > 0 {
        let last = members.len() - 1;
        if members[last].0 == key {
            assert(members[last] == (key, members[last].1));
        } else {
            let head = members.drop_last();
            lemma_find_member(head, key);
            match find_member(head, key) {
                Some(member) => {
                    assert(is_last(head, key, member));
                    let i = choose|i: int|
                        0 <= i < head.len() && (#[trigger] head[i]) == (key, member) && forall|
                            j: int,
                        |
                            i < j < head.len() ==> (#[trigger] head[j]).0 != key;
                    assert(members[i] == (key, member));
                    assert forall|j: int| i < j < members.len() implies (#[trigger] members[j]).0
                        != key by {
                        if j < head.len() {
                            assert(members[j] == head[j]);
                        }
                    }
                },
                None => {
                    assert(has_none(head, key));
                    assert forall|j: int| 0 <= j < members.len() implies (#[trigger] members[j]).0
                        != key by {
                        if j < head.len() {
                            assert(members[j] == head[j]);
                        }
                    }
                },
            }
        }
    }
}

/// The member of a value under a key is the one that it holds there, and there is none where it lacks
/// it.
pub proof fn lemma_member(value: JsonView, key: Seq<char>)
    ensures
        forall|member: JsonView| #[trigger]
            holds(value, key, member) <==> value.member(key) == Some(member),
        lacks(value, key) <==> value.member(key) is None,
{
    if let JsonView::Object(members) = value {
        lemma_find_member(members, key);
        assert forall|member: JsonView| #[trigger] holds(value, key, member) implies value.member(key)
            == Some(member) by {
            let i = choose|i: int|
                0 <= i < members.len() && (#[trigger] members[i]) == (key, member) && forall|j: int|
                    i < j < members.len() ==> (#[trigger] members[j]).0 != key;
            match find_member(members, key) {
                Some(found) => {
                    let k = choose|k: int|
                        0 <= k < members.len() && (#[trigger] members[k]) == (key, found) && forall|
                            j: int,
                        |
                            k < j < members.len() ==> (#[trigger] members[j]).0 != key;
                    if k < i {
                        assert(members[i].0 != key);
                    } else if i < k {
                        assert(members[k].0 != key);
                    }
                },
                None => {
                    assert(members[i].0 != key);
                },
            }
        }
        if lacks(value, key) {
            if let Some(found) = find_member(members, key) {
                let k = choose|k: int|
                    0 <= k < members.len() && (#[trigger] members[k]) == (key, found) && forall|
                        j: int,
                    |
                        k < j < members.len() ==> (#[trigger] members[j]).0 != key;
                assert(members[k].0 != key);
            }
        }
    }
}

/// A path leads through the members under its keys, one within the other.
pub proof fn lemma_path(
    value: JsonView,
    key: Seq<char>,
    next: JsonView,
    path: Seq<Seq<char>>,
)
    ensures
        value.at(Seq::empty()) == Some(value),
        holds(value, key, next) ==> value.at(seq![key] + path) == next.at(path),
        lacks(value, key) ==> value.at(seq![key] + path) is None,
{
    lemma_member(value, key);
    let whole = seq![key] + path;
    assert(whole[0] == key);
    assert(whole.drop_first() =~= path);
}

/// Each kind of value reads as what it is, and as nothing else. An integer is read with a sign where it
/// fits in 64 bits with one.
pub proof fn lemma_readings(n: u64, m: i64, b: bool, s: Seq<char>, items: Seq<JsonView>)
    ensures
        n <= i64::MAX ==> JsonView::PosInt(n).signed() == Some(n as i64),
        n > i64::MAX ==> JsonView::PosInt(n).signed() is None,
        JsonView::NegInt(m).signed() == Some(m),
        JsonView::PosInt(n).unsigned() == Some(n),
        JsonView::NegInt(m).unsigned() is None,
        JsonView::Bool(b).truth() == Some(b),
        JsonView::String(s).text() == Some(s),
        JsonView::Array(items).items() == Some(items),
        JsonView::Null.text() is None && JsonView::Null.signed() is None && JsonView::Null.unsigned()
            is None && JsonView::Null.truth() is None && JsonView::Null.items() is None,
        JsonView::PosInt(n).text() is None && JsonView::Bool(b).text() is None,
        JsonView::String(s).signed() is None && JsonView::String(s).unsigned() is None,
        JsonView::String(s).items() is None && JsonView::String(s).truth() is None,
        JsonView::Array(items).text() is None && JsonView::PosInt(n).truth() is None,
{
}

/// No value reads as what it is not.
pub proof fn lemma_other_readings(value: JsonView)
    ensures
        value.text() is Some <==> value is String,
        value.truth() is Some <==> value is Bool,
        value.unsigned() is Some <==> value is PosInt,
        value.signed() is Some ==> value is PosInt || value is NegInt,
        value.items() is Some <==> value is Array,
{
}

// ---------------------------------------------------------------------------
// Text
// ---------------------------------------------------------------------------

/// A trimmed text is what is left of a text when white space is taken from both of its ends: a part of
/// it that neither begins nor ends with white space, with nothing but white space around it.
pub proof fn lemma_trimmed(s: Seq<char>)
    ensures
        exists|i: int, j: int|
            0 <= i <= j <= s.len() && trimmed(s) == #[trigger] s.subrange(i, j) && (forall|k: int|
                0 <= k < i || j <= k < s.len() ==> is_white_space(#[trigger] s[k])),
        trimmed(s).len() > 0 ==> !is_white_space(trimmed(s)[0]) && !is_white_space(
            trimmed(s)[trimmed(s).len() - 1],
        ),
        is_blank(s) <==> forall|k: int| 0 <= k < s.len() ==> is_white_space(#[trigger] s[k]),
{
    let i = lemma_trimmed_start(s);
    let head = s.skip(i);
    let j = lemma_trimmed_end(head);
    assert(trimmed(s) =~= s.subrange(i, i + j));
    assert forall|k: int| 0 <= k < i || i + j <= k < s.len() implies is_white_space(
        #[trigger] s[k],
    ) by {
        if k >= i + j {
            assert(head[k - i] == s[k]);
        }
    }
    if trimmed(s).len() > 0 {
        assert(trimmed(s)[0] == head[0]);
        assert(!is_white_space(s[i]));
    }
    if forall|k: int| 0 <= k < s.len() ==> is_white_space(#[trigger] s[k]) {
        if trimmed(s).len() > 0 {
            assert(is_white_space(s[i]));
        }
    }
}

proof fn lemma_trimmed_start(s: Seq<char>) -> (i: int)
    ensures
        0 <= i <= s.len(),
        trimmed_start(s) == s.skip(i),
        forall|k: int| 0 <= k < i ==> is_white_space(#[trigger] s[k]),
        i < s.len() ==> !is_white_space(s[i]),
    decreases s.len(),
{
    if s.len() > 0 && is_white_space(s.first()) {
        let tail = s.drop_first();
        let i = lemma_trimmed_start(tail);
        assert(tail.skip(i) =~= s.skip(i + 1));
        assert forall|k: int| 0 <= k < i + 1 implies is_white_space(#[trigger] s[k]) by {
            if k > 0 {
                assert(tail[k - 1] == s[k]);
            }
        }
        if i + 1 < s.len() {
            assert(tail[i] == s[i + 1]);
        }
        i + 1
    } else {
        assert(s.skip(0) =~= s);
        0
    }
}

proof fn lemma_trimmed_end(s: Seq<char>) -> (j: int)
    ensures
        0 <= j <= s.len(),
        trimmed_end(s) == s.take(j),
        forall|k: int| j <= k < s.len() ==> is_white_space(#[trigger] s[k]),
        j > 0 ==> !is_white_space(s[j - 1]),
    decreases s.len(),
{
    if s.len() > 0 && is_white_space(s.last()) {
        let head = s.drop_last();
        let j = lemma_trimmed_end(head);
        assert(head.take(j) =~= s.take(j));
        assert forall|k: int| j <= k < s.len() implies is_white_space(#[trigger] s[k]) by {
            if k < head.len() {
                assert(head[k] == s[k]);
            }
        }
        if j > 0 {
            assert(head[j - 1] == s[j - 1]);
        }
        j
    } else {
        assert(s.take(s.len() as int) =~= s);
        s.len() as int
    }
}

/// A list with commas holds what stands between them, trimmed, where that is not blank.
pub proof fn lemma_comma_list(item: Seq<char>, rest: Seq<char>)
    requires
        forall|i: int| 0 <= i < item.len() ==> (#[trigger] item[i]) != ',',
    ensures
        list_items(item) == if trimmed(item).len() == 0 {
            Seq::<Seq<char>>::empty()
        } else {
            seq![trimmed(item)]
        },
        list_items(item + seq![','] + rest) == list_items(item) + list_items(rest),
{
    lemma_no_separator(item);
    assert(item.take(item.len() as int) =~= item);
    let whole = item + seq![','] + rest;
    lemma_length_before(whole, ',');
    let n = length_before(whole, ',') as int;
    assert(n == item.len()) by {
        if n > item.len() {
            assert(whole[item.len() as int] == ',');
        } else if n < item.len() {
            assert(whole[n] == item[n]);
        }
    }
    assert(whole.take(n) =~= item);
    assert(whole.skip(n + 1) =~= rest);
    if trimmed(item).len() == 0 {
        assert(list_items(item) + list_items(rest) =~= list_items(rest));
    } else {
        assert(seq![trimmed(item)] + Seq::<Seq<char>>::empty() =~= seq![trimmed(item)]);
    }
}

proof fn lemma_no_separator(item: Seq<char>)
    requires
        forall|i: int| 0 <= i < item.len() ==> (#[trigger] item[i]) != ',',
    ensures
        length_before(item, ',') == item.len(),
{
    lemma_length_before(item, ',');
    let n = length_before(item, ',') as int;
    if n < item.len() {
        assert(item[n] == ',');
    }
}

/// Lower case in ASCII changes the letters from A to Z alone, each to the letter 32 places further.
pub proof fn lemma_ascii_lowercase(s: Seq<char>, i: int)
    requires
        0 <= i < s.len(),
    ensures
        ascii_lowercase(s).len() == s.len(),
        'A' <= s[i] <= 'Z' ==> ascii_lowercase(s)[i] as u32 == s[i] as u32 + 32,
        !('A' <= s[i] <= 'Z') ==> ascii_lowercase(s)[i] == s[i],
{
}

/// A text that is not too long is kept as it is, and one that is too long ends in three dots.
pub proof fn lemma_shortened(s: Seq<char>, n: int)
    ensures
        encode_utf8(s).len() <= n ==> shortened(s, n) == s,
        encode_utf8(s).len() > n ==> shortened(s, n).len() >= 3 && shortened(s, n).skip(
            shortened(s, n).len() - 3,
        ) == "..."@,
{
    reveal_strlit("...");
    if encode_utf8(s).len() > n {
        let r = shortened(s, n);
        assert(r.skip(r.len() - 3) =~= "..."@);
    }
}

proof fn lemma_bytes_of_two(a: Seq<char>, b: Seq<char>)
    ensures
        encode_utf8(a + b) == encode_utf8(a) + encode_utf8(b),
    decreases a.len(),
{
    if a.len() == 0 {
        assert(a + b =~= b);
        assert(encode_utf8(a) + encode_utf8(b) =~= encode_utf8(b));
    } else {
        assert((a + b).drop_first() =~= a.drop_first() + b);
        assert((a + b)[0] == a[0]);
        lemma_bytes_of_two(a.drop_first(), b);
        assert(encode_utf8(a + b) =~= encode_utf8(a) + encode_utf8(b));
    }
}

/// A text is cut behind the characters that take up the bytes that are allowed.
pub proof fn lemma_cut(head: Seq<char>, tail: Seq<char>)
    requires
        encode_utf8(tail).len() > 0,
    ensures
        shortened(head + tail, encode_utf8(head).len() as int) == head + "..."@,
        byte_head(head + tail, encode_utf8(head).len() as int) == head,
{
    let n = encode_utf8(head).len() as int;
    lemma_bytes_of_two(head, tail);
    assert(encode_utf8(head + tail).subrange(0, n) =~= encode_utf8(head));
    encode_utf8_decode_utf8(head);
}

/// White space are the characters from tab to carriage return, the blank, and these of higher code points.
pub proof fn lemma_white_space(c: char)
    ensures
        is_white_space(c) <==> {
            ||| c == '\t' || c == '\n' || c == '\u{b}' || c == '\u{c}' || c == '\r' || c == ' '
            ||| c == '\u{85}' || c == '\u{a0}' || c == '\u{1680}'
            ||| '\u{2000}' <= c <= '\u{200a}'
            ||| c == '\u{2028}' || c == '\u{2029}' || c == '\u{202f}' || c == '\u{205f}'
            ||| c == '\u{3000}'
        },
{
}

/// A carriage return goes where a line feed follows it, and nothing else does.
pub proof fn lemma_unix_newlines(s: Seq<char>)
    ensures
        s.len() == 0 ==> unix_newlines(s).len() == 0,
        s.len() > 0 ==> unix_newlines(s) == if s.len() > 1 && s[0] == '\r' && s[1] == '\n' {
            seq!['\n'] + unix_newlines(s.skip(2))
        } else {
            seq![s[0]] + unix_newlines(s.skip(1))
        },
{
}

// ---------------------------------------------------------------------------
// Points in time
// ---------------------------------------------------------------------------

/// Of two points in time the one with more seconds is not the earlier one in milliseconds, nor is, with as
/// many, the one with more nanoseconds; and milliseconds count whole thousandths.
pub proof fn lemma_milliseconds(a: Timestamp, b: Timestamp)
    requires
        a.subsec() < 2_000_000_000,
        b.subsec() < 2_000_000_000,
    ensures
        a.epoch_millis() * 1_000_000 <= a.total_nanos() < (a.epoch_millis() + 1) * 1_000_000,
        a.total_nanos() <= b.total_nanos() ==> a.epoch_millis() <= b.epoch_millis(),
        a.total_nanos() == a.secs() * 1_000_000_000 + a.subsec(),
        a.is_leap() <==> a.subsec() >= 1_000_000_000,
{
}

/// Milliseconds can be added as long as the sum is within what can be named; a leap second that is left takes
/// no time.
pub proof fn lemma_room_in_time(a: Timestamp, millis: i64)
    ensures
        a.can_add_millis(millis) <==> {
            let sum = a.total_nanos() + millis * 1_000_000;
            &&& millis != i64::MIN
            &&& sum >= -8_334_601_228_800 * 1_000_000_000
            &&& a.subsec() < 1_000_000_000 ==> sum < 8_210_266_876_800 * 1_000_000_000
            &&& a.subsec() >= 1_000_000_000 ==> sum < 8_210_266_876_801 * 1_000_000_000
        },
{
}

/// A point in time has its seconds, within what can be named, and less than a second of nanoseconds; or up to
/// two in the last second of a minute.
pub proof fn lemma_instants(seconds: i64, nanos: u32, at: Option<Timestamp>)
    requires
        call_ensures(Timestamp::new, (seconds, nanos), at),
    ensures
        at is Some <==> -8_334_601_228_800 <= seconds <= 8_210_266_876_799 && (nanos
            < 1_000_000_000 || (nanos < 2_000_000_000 && seconds % 60 == 59)),
        at is Some ==> at.unwrap().secs() == seconds && at.unwrap().subsec() == nanos,
{
}

// ---------------------------------------------------------------------------
// Values that hold nothing
// ---------------------------------------------------------------------------

/// What is made by default holds nothing.
pub proof fn lemma_nothing()
    ensures
        no_issue().id.len() == 0 && no_issue().identifier.len() == 0 && no_issue().title.len() == 0,
        no_issue().state.len() == 0 && no_issue().labels.len() == 0 && no_issue().blocked_by.len() == 0,
        no_issue().description is None && no_issue().priority is None && no_issue().url is None,
        no_issue().branch_name is None && no_issue().created_at is None && no_issue().updated_at is None,
        no_blocker_ref().id is None && no_blocker_ref().identifier is None && no_blocker_ref().state
            is None,
        no_workflow_definition().config.len() == 0,
        no_workflow_definition().prompt_template.len() == 0,
        no_hook_settings().after_create is None && no_hook_settings().before_run is None,
        no_hook_settings().after_run is None && no_hook_settings().before_remove is None,
        no_hook_settings().timeout_ms == 0,
        no_log_debug_info().codex_session_logs.len() == 0,
{
}

} // verus!
