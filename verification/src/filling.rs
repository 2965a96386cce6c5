//! What `liquid` makes of templates that only name values.
use vstd::prelude::*;

use crate::rendering::{argument_at, can_render, is_settled};
use crate::template::{
    can_try, chain_end, content_at, fraction_at, integer_at, is_at, is_here, is_name, left_behind,
    literal_at, measure_fraction, measure_integer, measure_literal, measure_name, name_at, opens_tag,
    past_spaces, quoted_at, sign_at, skip_spaces, tag_end, tag_start, tags_read,
};
use crate::text::{decimal, i64_literal, parse_integer, str_eq, string_of};
use crate::workflow::{
    lemma_liquid_item_views, lemma_liquid_member_views, liquid_member_views, LiquidValue, LiquidView,
};

verus! {

/// What comes of filling a template with values.
pub ghost enum Filling {
    /// A text.
    Text(Seq<char>),
    /// An error: a tag names what is not there.
    Fails,
    /// Something that the tags do not show.
    Unclear,
}

/// What a name leads to.
pub ghost enum Lookup {
    /// A value; what names it ends at this place.
    Found(LiquidView, nat),
    Missing,
    /// Something that the name does not show.
    Unclear,
}

/// The decimal digits of an integer, behind a minus where it is negative.
pub open spec fn integer_text(n: i64) -> Seq<char> {
    if n < 0 {
        seq!['-'] + decimal((-n) as nat)
    } else {
        decimal(n as nat)
    }
}

/// The value of the last member with a key.
pub open spec fn last_value(members: Seq<(Seq<char>, LiquidView)>, key: Seq<char>) -> Option<
    LiquidView,
>
    decreases members.len(),
{
    if members.len() == 0 {
        None
    } else if members.last().0 == key {
        Some(members.last().1)
    } else {
        last_value(members.drop_last(), key)
    }
}

/// What the keys and the numbers in brackets that begin at a place lead to, from a value on.
pub open spec fn followed(text: Seq<char>, at: nat, value: LiquidView) -> Lookup
    decreases left_behind(text, at),
{
    let key_end = at + 1 + name_at(text, at + 1);
    let first = past_spaces(text, at + 1);
    let last = first + integer_at(text, first);
    if is_at(text, at, '.') && key_end > at + 1 {
        let key = text.subrange(at as int + 1, key_end as int);
        match value {
            LiquidView::Object(members) => match last_value(members, key) {
                Some(member) => followed(text, key_end, member),
                None => if key == "size"@ {
                    Lookup::Unclear
                } else {
                    Lookup::Missing
                },
            },
            _ => Lookup::Unclear,
        }
    } else if is_at(text, at, '[') {
        if last == first || sign_at(text, first) > 0 || fraction_at(text, last) > 0 || !is_at(
            text,
            past_spaces(text, last),
            ']',
        ) {
            Lookup::Unclear
        } else {
            match (value, i64_literal(text.subrange(first as int, last as int))) {
                (LiquidView::Array(items), Some(i)) => if i < items.len() {
                    followed(text, past_spaces(text, last) + 1, items[i as int])
                } else {
                    Lookup::Missing
                },
                _ => Lookup::Unclear,
            }
        }
    } else {
        Lookup::Found(value, at)
    }
}

/// What the name that begins at a place leads to.
pub open spec fn looked_up(
    text: Seq<char>,
    at: nat,
    globals: Seq<(Seq<char>, LiquidView)>,
) -> Lookup {
    let end = at + name_at(text, at);
    if literal_at(text, at) > 0 || end == at {
        Lookup::Unclear
    } else {
        match last_value(globals, text.subrange(at as int, end as int)) {
            Some(value) => followed(text, end, value),
            None => Lookup::Missing,
        }
    }
}

/// A text and an integer are shown as they are, and nil as nothing.
pub open spec fn shown(value: LiquidView) -> Filling {
    match value {
        LiquidView::Str(s) => Filling::Text(s),
        LiquidView::Integer(n) => Filling::Text(integer_text(n)),
        LiquidView::Nil => Filling::Text(seq![]),
        _ => Filling::Unclear,
    }
}

/// The quoted text or the integer that begins at a place.
pub open spec fn literal_value(text: Seq<char>, at: nat) -> Option<LiquidView> {
    let quoted = at + quoted_at(text, at);
    let integer = at + integer_at(text, at);
    if quoted > at {
        Some(LiquidView::Str(text.subrange(at as int + 1, quoted - 1)))
    } else if integer > at && fraction_at(text, integer) == 0 {
        match i64_literal(text.subrange(at as int, integer as int)) {
            Some(n) => Some(LiquidView::Integer(n)),
            None => None,
        }
    } else {
        None
    }
}

/// What is shown of a value behind which, at a place, stands what is to stand in for it: that, in place
/// of nil and of an empty text.
pub open spec fn shown_or_default(text: Seq<char>, at: nat, value: LiquidView) -> Filling {
    let bar = past_spaces(text, at);
    let name = past_spaces(text, bar + 1);
    let stands_in = literal_value(text, argument_at(text, name));
    if !is_at(text, bar, '|') || !is_name(text, name, "default"@) {
        Filling::Unclear
    } else {
        match (value, stands_in) {
            (LiquidView::Nil, Some(other)) => shown(other),
            (LiquidView::Str(s), Some(other)) => if s.len() == 0 {
                shown(other)
            } else {
                shown(value)
            },
            (LiquidView::Integer(_), Some(_)) => shown(value),
            _ => Filling::Unclear,
        }
    }
}

/// What the tag shows whose content begins at a place.
pub open spec fn tag_filling(
    text: Seq<char>,
    at: nat,
    globals: Seq<(Seq<char>, LiquidView)>,
) -> Filling {
    match looked_up(text, at, globals) {
        Lookup::Missing => Filling::Fails,
        Lookup::Unclear => Filling::Unclear,
        Lookup::Found(value, end) => {
            let argument = argument_at(
                text,
                past_spaces(text, past_spaces(text, end) + 1),
            );
            if chain_end(text, at) == Some(end) {
                shown(value)
            } else if chain_end(text, at) == Some(argument + literal_at(text, argument)) {
                shown_or_default(text, end, value)
            } else {
                Filling::Unclear
            }
        },
    }
}

/// A text, and behind it what comes of filling the rest.
pub open spec fn behind(text: Seq<char>, rest: Filling) -> Filling {
    match rest {
        Filling::Text(more) => Filling::Text(text + more),
        _ => rest,
    }
}

/// What comes of filling a template with values, from a place on: the text outside tags stays as it is,
/// and in place of each tag that names a value stands that value, or what stands in for it. Where a
/// tag names what is not there, filling fails. What comes of other tags is left open.
pub open spec fn filling(
    template: Seq<char>,
    at: nat,
    globals: Seq<(Seq<char>, LiquidView)>,
) -> Filling
    decreases left_behind(template, at),
{
    let start = tag_start(template, at) as int;
    if at >= template.len() {
        Filling::Text(seq![])
    } else if !opens_tag(template, start) {
        behind(seq![template[at as int]], filling(template, at + 1, globals))
    } else {
        match tag_end(template, start) {
            Some(end) => if template[start + 1] != '{' || end <= at {
                Filling::Unclear
            } else {
                match tag_filling(template, content_at(template, start), globals) {
                    Filling::Text(value) => behind(value, filling(template, end, globals)),
                    other => other,
                }
            },
            None => Filling::Unclear,
        }
    }
}

// ---------------------------------------------------------------------------
// Looking up
// ---------------------------------------------------------------------------

/// What a name leads to.
pub enum Looked<'a> {
    /// A value; what names it ends at this place.
    Found(&'a LiquidValue, usize),
    Missing,
    /// Something that the name does not show.
    Unclear,
}

impl<'a> View for Looked<'a> {
    type V = Lookup;

    open spec fn view(&self) -> Lookup {
        match *self {
            Looked::Found(value, end) => Lookup::Found(value@, end as nat),
            Looked::Missing => Lookup::Missing,
            Looked::Unclear => Lookup::Unclear,
        }
    }
}

fn find_last<'a>(members: &'a Vec<(String, LiquidValue)>, key: &str) -> (r: Option<&'a LiquidValue>)
    ensures
        match r {
            Some(value) => last_value(liquid_member_views(members@), key@) == Some(value@),
            None => last_value(liquid_member_views(members@), key@) is None,
        },
{
    let ghost views = liquid_member_views(members@);
    proof {
        lemma_liquid_member_views(members@);
        assert(views.take(views.len() as int) =~= views);
    }
    let mut i = members.len();
    while i > 0
        invariant
            i <= members@.len(),
            views == liquid_member_views(members@),
            views.len() == members@.len(),
            forall|j: int|
                0 <= j < views.len() ==> #[trigger] views[j] == (members@[j].0@, members@[j].1@),
            last_value(views, key@) == last_value(views.take(i as int), key@),
        decreases i,
    {
        proof {
            assert(views.take(i as int).last() == views[i - 1]);
            assert(views.take(i as int).drop_last() =~= views.take(i - 1));
        }
        i -= 1;
        if str_eq(members[i].0.as_str(), key) {
            return Some(&members[i].1);
        }
    }
    None
}

fn follow<'a>(text: &Vec<char>, from: usize, start: &'a LiquidValue) -> (r: Looked<'a>)
    requires
        from <= text@.len(),
    ensures
        r@ == followed(text@, from as nat, start@),
        r matches Looked::Found(_, end) ==> from <= end <= text@.len(),
{
    let length = text.len();
    let mut at = from;
    let mut value = start;
    loop
        invariant
            length == text@.len(),
            from <= at <= length,
            followed(text@, from as nat, start@) == followed(text@, at as nat, value@),
        decreases length - at,
    {
        if is_here(text, at, '.') && measure_name(text, at + 1) > 0 {
            let end = at + 1 + measure_name(text, at + 1);
            let key = string_of(text, at + 1, end);
            match value {
                LiquidValue::Object(members) => match find_last(members, key.as_str()) {
                    Some(member) => {
                        value = member;
                        at = end;
                    },
                    None => {
                        return if str_eq(key.as_str(), "size") {
                            Looked::Unclear
                        } else {
                            Looked::Missing
                        };
                    },
                },
                _ => {
                    return Looked::Unclear;
                },
            }
        } else if is_here(text, at, '[') {
            let first = skip_spaces(text, at + 1);
            let n = measure_integer(text, first);
            let last = first + n;
            let close = skip_spaces(text, last);
            if n == 0 || is_here(text, first, '-') || is_here(text, first, '+') || measure_fraction(
                text,
                last,
            ) > 0 || !is_here(text, close, ']') {
                return Looked::Unclear;
            }
            match (value, parse_integer(string_of(text, first, last).as_str())) {
                (LiquidValue::Array(items), Some(i)) => {
                    proof {
                        lemma_liquid_item_views(items@);
                        lemma_unsigned(text@, first as nat, n as nat);
                    }
                    if (i as u64) < items.len() as u64 {
                        value = &items[i as usize];
                        at = close + 1;
                    } else {
                        return Looked::Missing;
                    }
                },
                _ => {
                    return Looked::Unclear;
                },
            }
        } else {
            return Looked::Found(value, at);
        }
    }
}

proof fn lemma_unsigned(text: Seq<char>, at: nat, n: nat)
    requires
        n == integer_at(text, at),
        n > 0,
        sign_at(text, at) == 0,
        at + n <= text.len(),
    ensures
        i64_literal(text.subrange(at as int, (at + n) as int)) matches Some(i) ==> i >= 0,
{
    let part = text.subrange(at as int, (at + n) as int);
    assert(part[0] == text[at as int]);
}

/// What the name that begins at a place leads to.
pub(crate) fn look_up<'a>(
    text: &Vec<char>,
    at: usize,
    globals: &'a Vec<(String, LiquidValue)>,
) -> (r: Looked<'a>)
    requires
        at <= text@.len(),
    ensures
        r@ == looked_up(text@, at as nat, globals.deep_view()),
{
    let n = measure_name(text, at);
    if measure_literal(text, at) > 0 || n == 0 {
        return Looked::Unclear;
    }
    proof {
        lemma_liquid_member_views(globals@);
        assert(globals.deep_view() =~= liquid_member_views(globals@));
    }
    match find_last(globals, string_of(text, at, at + n).as_str()) {
        Some(value) => follow(text, at + n, value),
        None => Looked::Missing,
    }
}

// ---------------------------------------------------------------------------
// Laws
// ---------------------------------------------------------------------------

proof fn lemma_no_tags_from(template: Seq<char>, at: nat, globals: Seq<(Seq<char>, LiquidView)>)
    requires
        forall|i: int| !opens_tag(template, i),
        at <= template.len(),
    ensures
        tags_read(template, at, seq![], false) == Some(Seq::<nat>::empty()),
        filling(template, at, globals) == Filling::Text(template.skip(at as int)),
    decreases template.len() - at,
{
    if at < template.len() {
        lemma_no_tags_from(template, at + 1, globals);
        assert(seq![template[at as int]] + template.skip(at as int + 1) =~= template.skip(at as int));
    } else {
        assert(template.skip(at as int) =~= seq![]);
    }
}

/// A template without tags can be parsed and rendered, and is its own text, whatever the values are.
pub proof fn lemma_text_without_tags_is_kept(
    template: Seq<char>,
    globals: Seq<(Seq<char>, LiquidView)>,
)
    requires
        forall|i: int| !opens_tag(template, i),
    ensures
        can_try(template),
        can_render(template, globals),
        is_settled(template),
        filling(template, 0, globals) == Filling::Text(template),
{
    lemma_no_tags_from(template, 0, globals);
    assert(template.skip(0) =~= template);
}

} // verus!
