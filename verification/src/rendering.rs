//! Which templates `liquid` can render with which values.
use vstd::prelude::*;

use crate::filling::{literal_value, look_up, looked_up, Looked, Lookup};
use crate::template::{
    argument_end, closes_tag, content_at, count_digits, digits_from, ends_tag, filter_end,
    find_content, find_tags, has_name, has_tag_name, is_at, is_digit, is_here, is_name, is_tag,
    left_behind, literal_at, measure_fraction, measure_integer, measure_literal, measure_name,
    measure_piece, measure_quoted, name_at, naturals, opens_tag, past_spaces, piece_at, read_argument, read_filter,
    read_value, skip_spaces, tags_read, value_end,
};
use crate::text::{chars_of, i64_literal, parse_integer, string_of};
use crate::workflow::{
    lemma_liquid_item_views, lemma_liquid_member_views, LiquidValue, LiquidView,
};

verus! {

/// More than any list has items and any text has bytes: no machine holds as many.
pub const ROOM: i128 = 4503599627370496;

/// How many numbers a range may go through. `liquid` holds all of them at once.
pub const RANGE_ITEMS: i128 = 1000000;

/// How many digits the width of a part of a date may have.
pub const WIDTH_DIGITS: usize = 3;

// ---------------------------------------------------------------------------
// What values read as
// ---------------------------------------------------------------------------

/// The integers that a value may read as: those from `lo` to `hi`, and none where `hi` is less.
pub ghost struct Reach {
    pub lo: int,
    pub hi: int,
}

impl Reach {
    /// A value that reads as no integer.
    pub open spec fn none() -> Reach {
        Reach { lo: 1, hi: 0 }
    }

    /// A value that reads as one integer.
    pub open spec fn one(n: int) -> Reach {
        Reach { lo: n, hi: n }
    }

    /// Any value.
    pub open spec fn any() -> Reach {
        Reach { lo: i64::MIN as int, hi: i64::MAX as int }
    }

    /// A number of parts.
    pub open spec fn count() -> Reach {
        Reach { lo: 0, hi: ROOM as int }
    }

    /// The value reads as no integer.
    pub open spec fn is_empty(self) -> bool {
        self.hi < self.lo
    }

    /// How far the integers are from zero at most.
    pub open spec fn size(self) -> int {
        let below = if self.lo < 0 {
            -self.lo
        } else {
            self.lo
        };
        let above = if self.hi < 0 {
            -self.hi
        } else {
            self.hi
        };
        if below < above {
            above
        } else {
            below
        }
    }

    /// The integers, where they have 64 bits.
    pub open spec fn in_bits(self) -> Option<Reach> {
        if i64::MIN <= self.lo && self.hi <= i64::MAX {
            Some(self)
        } else {
            None
        }
    }

    /// The integers of either of two values.
    pub open spec fn or(self, other: Reach) -> Reach {
        Reach {
            lo: if self.lo < other.lo {
                self.lo
            } else {
                other.lo
            },
            hi: if self.hi < other.hi {
                other.hi
            } else {
                self.hi
            },
        }
    }
}

/// The integer that a value reads as: that of an integer, or of a text that spells one.
pub open spec fn reads_as(value: LiquidView) -> Reach {
    match value {
        LiquidView::Integer(n) => Reach::one(n as int),
        LiquidView::Str(s) => match i64_literal(s) {
            Some(n) => Reach::one(n as int),
            None => Reach::none(),
        },
        _ => Reach::none(),
    }
}

/// What a list holds.
#[derive(Clone, Copy, Debug, PartialEq, Eq, Structural)]
pub enum ListKind {
    /// Texts and nils, or it is no list.
    Texts,
    /// Objects that hold texts and nils.
    Records,
    /// Anything.
    Mixed,
}

/// A text or nil.
pub open spec fn is_text(value: LiquidView) -> bool {
    value is Str || value is Nil
}

/// Members that are texts and nils.
pub open spec fn are_texts(members: Seq<(Seq<char>, LiquidView)>) -> bool {
    forall|i: int| 0 <= i < members.len() ==> #[trigger] is_text(members[i].1)
}

/// An object that holds texts and nils.
pub open spec fn is_record(value: LiquidView) -> bool {
    match value {
        LiquidView::Object(members) => are_texts(members),
        _ => false,
    }
}

/// What a value holds, where it is a list.
pub open spec fn list_kind(value: LiquidView) -> ListKind {
    match value {
        LiquidView::Array(items) => if forall|i: int|
            0 <= i < items.len() ==> is_text(#[trigger] items[i]) {
            ListKind::Texts
        } else if forall|i: int| 0 <= i < items.len() ==> is_record(#[trigger] items[i]) {
            ListKind::Records
        } else {
            ListKind::Mixed
        },
        _ => ListKind::Texts,
    }
}

/// What the value is that stands at a place. The names of a prompt's values mean these values, where
/// they are `kept` for them. A constant or a fraction, which reads as no integer and is no text, is taken
/// for a truth value.
pub open spec fn known_at(
    text: Seq<char>,
    at: nat,
    kept: bool,
    globals: Seq<(Seq<char>, LiquidView)>,
) -> Lookup {
    if literal_at(text, at) > 0 {
        Lookup::Found(
            match literal_value(text, at) {
                Some(value) => value,
                None => LiquidView::Bool(false),
            },
            at + literal_at(text, at),
        )
    } else if kept && (is_name(text, at, "issue"@) || is_name(text, at, "attempt"@)) {
        looked_up(text, at, globals)
    } else {
        Lookup::Unclear
    }
}

/// The integers that the value at a place may read as.
pub open spec fn reach_at(
    text: Seq<char>,
    at: nat,
    kept: bool,
    globals: Seq<(Seq<char>, LiquidView)>,
) -> Reach {
    match known_at(text, at, kept, globals) {
        Lookup::Found(value, _) => reads_as(value),
        Lookup::Missing => Reach::none(),
        Lookup::Unclear => if kept && is_name(text, at, "forloop"@) {
            Reach::count()
        } else {
            Reach::any()
        },
    }
}

/// What the value at a place holds, where it is a list.
pub open spec fn list_at(
    text: Seq<char>,
    at: nat,
    kept: bool,
    globals: Seq<(Seq<char>, LiquidView)>,
) -> ListKind {
    match known_at(text, at, kept, globals) {
        Lookup::Found(value, _) => list_kind(value),
        Lookup::Missing => ListKind::Texts,
        Lookup::Unclear => ListKind::Mixed,
    }
}

// ---------------------------------------------------------------------------
// Filters
// ---------------------------------------------------------------------------

/// What a filter does.
#[derive(Clone, Copy, Debug, PartialEq, Eq, Structural)]
pub enum FilterKind {
    Plus,
    Minus,
    Times,
    /// It divides, or gives what a division leaves.
    Divide,
    Abs,
    /// It counts the parts of a value.
    Count,
    /// It gives the value or its argument.
    Choose,
    Slice,
    Date,
    Sort,
    /// It gives a list of texts.
    Split,
    /// It gives a list of what the objects of a list hold under a key.
    Pluck,
    /// It gives a list of items of the list.
    Pick,
    Other,
}

/// What the filter does whose name begins at a place.
pub open spec fn filter_kind(text: Seq<char>, name: nat) -> FilterKind {
    if is_name(text, name, "plus"@) {
        FilterKind::Plus
    } else if is_name(text, name, "minus"@) {
        FilterKind::Minus
    } else if is_name(text, name, "times"@) {
        FilterKind::Times
    } else if is_name(text, name, "divided_by"@) || is_name(text, name, "modulo"@) {
        FilterKind::Divide
    } else if is_name(text, name, "abs"@) {
        FilterKind::Abs
    } else if is_name(text, name, "size"@) {
        FilterKind::Count
    } else if is_name(text, name, "default"@) || is_name(text, name, "at_least"@) || is_name(
        text,
        name,
        "at_most"@,
    ) {
        FilterKind::Choose
    } else if is_name(text, name, "slice"@) {
        FilterKind::Slice
    } else if is_name(text, name, "date"@) {
        FilterKind::Date
    } else if is_name(text, name, "sort"@) {
        FilterKind::Sort
    } else if is_name(text, name, "split"@) {
        FilterKind::Split
    } else if is_name(text, name, "map"@) {
        FilterKind::Pluck
    } else if is_name(text, name, "reverse"@) || is_name(text, name, "uniq"@) || is_name(
        text,
        name,
        "compact"@,
    ) || is_name(text, name, "sort_natural"@) || is_name(text, name, "where"@) {
        FilterKind::Pick
    } else {
        FilterKind::Other
    }
}

/// The integers that come of a filter, from those of the value and of its argument; none where they
/// may leave 64 bits. It calculates with integers only where both are.
pub open spec fn calculated(kind: FilterKind, value: Reach, argument: Reach) -> Option<Reach> {
    let idle = value.is_empty() || argument.is_empty();
    match kind {
        FilterKind::Plus => if idle {
            Some(Reach::none())
        } else {
            (Reach { lo: value.lo + argument.lo, hi: value.hi + argument.hi }).in_bits()
        },
        FilterKind::Minus => if idle {
            Some(Reach::none())
        } else {
            (Reach { lo: value.lo - argument.hi, hi: value.hi - argument.lo }).in_bits()
        },
        FilterKind::Times => if idle {
            Some(Reach::none())
        } else {
            (Reach {
                lo: -(value.size() * argument.size()),
                hi: value.size() * argument.size(),
            }).in_bits()
        },
        FilterKind::Divide => if idle {
            Some(Reach::none())
        } else if value.lo == i64::MIN && argument.lo <= -1 <= argument.hi {
            None
        } else {
            Some(Reach { lo: -value.size(), hi: value.size() })
        },
        FilterKind::Abs => if value.is_empty() {
            Some(Reach::none())
        } else if value.lo == i64::MIN {
            None
        } else {
            Some(Reach { lo: 0, hi: value.size() })
        },
        FilterKind::Count => Some(Reach::count()),
        FilterKind::Choose => Some(value.or(argument)),
        _ => Some(Reach::any()),
    }
}

/// What the list holds that comes of a filter.
pub open spec fn listed(kind: FilterKind, list: ListKind) -> ListKind {
    match kind {
        FilterKind::Split => ListKind::Texts,
        FilterKind::Pluck => if list == ListKind::Mixed {
            ListKind::Mixed
        } else {
            ListKind::Texts
        },
        FilterKind::Pick | FilterKind::Sort | FilterKind::Slice => list,
        _ => ListKind::Mixed,
    }
}

/// Where the first argument of the filter begins whose name begins at a place; the end of the text
/// where it has none.
pub open spec fn argument_at(text: Seq<char>, name: nat) -> nat {
    let colon = past_spaces(text, name + name_at(text, name));
    if is_at(text, colon, ':') {
        past_spaces(text, colon + 1)
    } else {
        text.len()
    }
}

/// The part that a filter cuts out, whose first argument begins at a place, is not too long: its length
/// and its place can be added up.
pub open spec fn slice_fits(
    text: Seq<char>,
    first: nat,
    kept: bool,
    globals: Seq<(Seq<char>, LiquidView)>,
) -> bool {
    argument_end(text, first) matches Some(end) ==> (is_at(text, past_spaces(text, end), ',')
        ==> reach_at(
        text,
        past_spaces(text, past_spaces(text, end) + 1),
        kept,
        globals,
    ).hi <= ROOM)
}

/// A character that a part of the format of a date may begin with or go on with.
pub open spec fn is_format_mark(c: char) -> bool {
    c == '%' || c == '-' || c == '_' || c == '^' || c == '#' || c == ':' || c == 'E' || c == 'O'
        || is_digit(c)
}

/// A format of a date in which no width is too large, and every part ends with a character of ASCII.
pub open spec fn is_plain_format(format: Seq<char>) -> bool {
    forall|i: int|
        #![trigger format[i]]
        0 <= i < format.len() ==> digits_from(format, i as nat) <= WIDTH_DIGITS && (format[i] as u32
            > 127 && i > 0 ==> !is_format_mark(format[i - 1]))
}

/// The format at a place, in which a filter writes a date, is plain.
pub open spec fn date_fits(
    text: Seq<char>,
    first: nat,
    kept: bool,
    globals: Seq<(Seq<char>, LiquidView)>,
) -> bool {
    known_at(text, first, kept, globals) matches Lookup::Found(LiquidView::Str(format), _)
        && is_plain_format(format)
}

/// The filters that begin at a place can be applied, one behind the other, to a value that may read as
/// some integers and may be a list. Those that calculate can leave 64 bits, and so can one that cuts
/// out a part; the width of a part of a date can be too large; and what is sorted needs an order, which
/// texts have, and objects by a key under which they hold texts.
pub open spec fn filters_fit(
    text: Seq<char>,
    at: nat,
    value: Reach,
    list: ListKind,
    kept: bool,
    globals: Seq<(Seq<char>, LiquidView)>,
) -> bool
    decreases left_behind(text, at),
{
    let bar = past_spaces(text, at);
    let name = past_spaces(text, bar + 1);
    let first = argument_at(text, name);
    let kind = filter_kind(text, name);
    if !is_at(text, bar, '|') {
        true
    } else {
        match filter_end(text, name) {
            None => true,
            Some(end) => {
                &&& kind == FilterKind::Slice ==> slice_fits(text, first, kept, globals)
                &&& kind == FilterKind::Date ==> date_fits(text, first, kept, globals)
                &&& kind == FilterKind::Sort ==> list == ListKind::Texts || (list
                    == ListKind::Records && first < text.len())
                &&& calculated(kind, value, reach_at(text, first, kept, globals)) matches Some(next)
                    && (bar < end ==> filters_fit(
                    text,
                    end,
                    next,
                    listed(kind, list),
                    kept,
                    globals,
                ))
            },
        }
    }
}

/// The filters of the value that begins at a place can be applied to it.
pub open spec fn chain_fits(
    text: Seq<char>,
    at: nat,
    kept: bool,
    globals: Seq<(Seq<char>, LiquidView)>,
) -> bool {
    value_end(text, at) matches Some(end) ==> filters_fit(
        text,
        end,
        reach_at(text, at, kept, globals),
        list_at(text, at, kept, globals),
        kept,
        globals,
    )
}

// ---------------------------------------------------------------------------
// Tags
// ---------------------------------------------------------------------------

/// The range that begins at a place is not too long.
pub open spec fn range_fits(
    text: Seq<char>,
    at: nat,
    kept: bool,
    globals: Seq<(Seq<char>, LiquidView)>,
) -> bool {
    let first = past_spaces(text, at + 1);
    match value_end(text, first) {
        Some(end) => {
            let last = past_spaces(text, past_spaces(text, end) + 2);
            let from = reach_at(text, first, kept, globals);
            let to = reach_at(text, last, kept, globals);
            from.is_empty() || to.is_empty() || to.hi - from.lo <= RANGE_ITEMS
        },
        None => true,
    }
}

/// No range in a tag, from a place inside it to its end, is too long.
pub open spec fn ranges_fit(
    text: Seq<char>,
    at: nat,
    kept: bool,
    globals: Seq<(Seq<char>, LiquidView)>,
) -> bool
    decreases left_behind(text, at),
{
    if at >= text.len() || closes_tag(text, at) {
        true
    } else {
        &&& text[at as int] == '(' ==> range_fits(text, at, kept, globals)
        &&& ranges_fit(text, at + piece_at(text, at), kept, globals)
    }
}

/// Wherever a tag names the number of columns, from a place inside it to its end, there is at least
/// one.
pub open spec fn columns_fit(
    text: Seq<char>,
    at: nat,
    kept: bool,
    globals: Seq<(Seq<char>, LiquidView)>,
) -> bool
    decreases left_behind(text, at),
{
    let columns = reach_at(text, argument_at(text, at), kept, globals);
    if at >= text.len() || closes_tag(text, at) {
        true
    } else {
        &&& is_name(text, at, "cols"@) ==> columns.is_empty() || columns.lo >= 1
        &&& columns_fit(text, at + piece_at(text, at), kept, globals)
    }
}

/// A tag that goes round some values has one: behind the name that it gives to the round, or at its
/// beginning.
pub open spec fn round_fits(text: Seq<char>, at: nat) -> bool {
    value_end(text, at) matches Some(end) && (is_at(text, past_spaces(text, end), ':')
        ==> value_end(text, past_spaces(text, past_spaces(text, end) + 1)) is Some)
}

/// Where what stands behind the name of the tag at a place begins.
pub open spec fn first_part_at(text: Seq<char>, place: nat) -> nat {
    let content = content_at(text, place as int);
    past_spaces(text, content + name_at(text, content))
}

/// The tag that begins at a place gives a name to a value.
pub open spec fn gives_name(text: Seq<char>, place: nat) -> bool {
    ||| is_tag(text, place as int, "assign"@)
    ||| is_tag(text, place as int, "capture"@)
    ||| is_tag(text, place as int, "for"@)
    ||| is_tag(text, place as int, "tablerow"@)
    ||| is_tag(text, place as int, "increment"@)
    ||| is_tag(text, place as int, "decrement"@)
}

/// The tag that begins at a place gives another value one of the names that have one.
pub open spec fn renames(text: Seq<char>, place: nat) -> bool {
    &&& gives_name(text, place)
    &&& {
        ||| is_name(text, first_part_at(text, place), "issue"@)
        ||| is_name(text, first_part_at(text, place), "attempt"@)
        ||| is_name(text, first_part_at(text, place), "forloop"@)
    }
}

/// No tag of those at some places gives another value one of the names that have one.
pub open spec fn keep_names(text: Seq<char>, places: Seq<nat>) -> bool {
    forall|i: int| 0 <= i < places.len() ==> !#[trigger] renames(text, places[i])
}

/// Where the value begins that the tag at a place shows or gives a name to, with its filters.
pub open spec fn value_at(text: Seq<char>, place: nat) -> Option<nat> {
    let name = first_part_at(text, place);
    let equals = past_spaces(text, name + name_at(text, name));
    if text[place as int + 1] == '{' {
        Some(content_at(text, place as int))
    } else if is_tag(text, place as int, "assign"@) && is_at(text, equals, '=') {
        Some(past_spaces(text, equals + 1))
    } else {
        None
    }
}

/// `liquid` can render the tag that begins at a place.
pub open spec fn tag_fits(
    text: Seq<char>,
    place: nat,
    kept: bool,
    globals: Seq<(Seq<char>, LiquidView)>,
) -> bool {
    let content = content_at(text, place as int);
    &&& is_tag(text, place as int, "tablerow"@) ==> columns_fit(text, content, kept, globals)
    &&& is_tag(text, place as int, "cycle"@) ==> round_fits(text, first_part_at(text, place))
    &&& ranges_fit(text, content, kept, globals)
    &&& value_at(text, place) matches Some(value) ==> chain_fits(text, value, kept, globals)
}

/// `liquid` can render the tags that begin at some places.
pub open spec fn tags_fit(
    text: Seq<char>,
    places: Seq<nat>,
    kept: bool,
    globals: Seq<(Seq<char>, LiquidView)>,
) -> bool {
    forall|i: int| 0 <= i < places.len() ==> #[trigger] tag_fits(text, places[i], kept, globals)
}

/// `liquid` can render the template with the values of a prompt.
pub open spec fn can_render(template: Seq<char>, globals: Seq<(Seq<char>, LiquidView)>) -> bool {
    tags_read(template, 0, seq![], false) matches Some(places) && tags_fit(
        template,
        places,
        keep_names(template, places),
        globals,
    )
}

// ---------------------------------------------------------------------------
// What depends on the values alone
// ---------------------------------------------------------------------------

/// A key of an issue that holds no object stands at a place.
pub open spec fn is_field(text: Seq<char>, at: nat) -> bool {
    ||| is_name(text, at, "id"@)
    ||| is_name(text, at, "identifier"@)
    ||| is_name(text, at, "title"@)
    ||| is_name(text, at, "description"@)
    ||| is_name(text, at, "priority"@)
    ||| is_name(text, at, "state"@)
    ||| is_name(text, at, "branch_name"@)
    ||| is_name(text, at, "url"@)
    ||| is_name(text, at, "labels"@)
    ||| is_name(text, at, "created_at"@)
    ||| is_name(text, at, "updated_at"@)
}

/// A dot and a key of a blocker stand at a place.
pub open spec fn is_blocker_field(text: Seq<char>, dot: nat) -> bool {
    &&& is_at(text, dot, '.')
    &&& {
        ||| is_name(text, dot + 1, "id"@)
        ||| is_name(text, dot + 1, "identifier"@)
        ||| is_name(text, dot + 1, "state"@)
    }
}

/// The list of blockers is named at a place.
pub open spec fn names_blockers(text: Seq<char>, at: nat) -> bool {
    is_name(text, at, "issue"@) && is_at(text, at + "issue"@.len(), '.') && is_name(
        text,
        at + "issue."@.len(),
        "blocked_by"@,
    )
}

/// Where the name of the list of blockers ends that begins at a place.
pub open spec fn blockers_end(at: nat) -> nat {
    at + "issue.blocked_by"@.len()
}

/// A field of one of the blockers, or their number, stands behind the name of their list, which ends at
/// a place.
pub open spec fn picks_from_blockers(text: Seq<char>, at: nat) -> bool {
    ||| is_at(text, at, '.') && is_name(text, at + 1, "size"@)
    ||| is_at(text, at, '[') && (value_end(text, past_spaces(text, at + 1)) matches Some(end)
        && is_at(text, past_spaces(text, end), ']') && is_blocker_field(
        text,
        past_spaces(text, end) + 1,
    ))
}

/// Where the list begins that the tag at a place goes through.
pub open spec fn list_place(text: Seq<char>, place: nat) -> nat {
    let name = first_part_at(text, place);
    let word = past_spaces(text, name + name_at(text, name));
    past_spaces(text, word + name_at(text, word))
}

/// The tag that begins at a place goes through the blockers.
pub open spec fn goes_through_blockers(text: Seq<char>, place: nat) -> bool {
    let list = list_place(text, place);
    is_tag(text, place as int, "for"@) && names_blockers(text, list) && value_end(text, list)
        == Some(blockers_end(list))
}

/// The name that stands at a place is given to a blocker by one of the tags at some places.
pub open spec fn names_blocker(text: Seq<char>, places: Seq<nat>, at: nat) -> bool {
    exists|i: int|
        0 <= i < places.len() && #[trigger] goes_through_blockers(text, places[i]) && is_name(
            text,
            at,
            text.subrange(
                first_part_at(text, places[i]) as int,
                (first_part_at(text, places[i]) + name_at(text, first_part_at(text, places[i]))) as int,
            ),
        )
}

/// A tag shows no object, from a place inside it to its end, and asks for no date. Of the issue it names
/// what holds no object, and of a blocker its fields.
pub open spec fn is_steady(text: Seq<char>, places: Seq<nat>, at: nat) -> bool
    decreases left_behind(text, at),
{
    let end = at + name_at(text, at);
    if at >= text.len() || closes_tag(text, at) {
        true
    } else if text[at as int] == '|' {
        !is_name(text, past_spaces(text, at + 1), "date"@) && is_steady(text, places, at + 1)
    } else {
        &&& is_name(text, at, "issue"@) ==> {
            ||| is_at(text, end, '.') && is_field(text, end + 1)
            ||| names_blockers(text, at) && picks_from_blockers(text, blockers_end(at))
        }
        &&& names_blocker(text, places, at) ==> is_blocker_field(text, end)
        &&& is_steady(text, places, at + piece_at(text, at))
    }
}

/// Where what the tag at a place holds is to be looked at: behind the list of blockers, where the tag
/// goes through them, and behind the date of an issue and the filter that writes it, where the tag shows
/// that or gives it a name.
pub open spec fn steady_from(text: Seq<char>, place: nat) -> nat {
    let content = content_at(text, place as int);
    match value_at(text, place) {
        Some(value) => {
            let key = value + "issue."@.len();
            let bar = past_spaces(text, key + name_at(text, key));
            let name = past_spaces(text, bar + 1);
            if is_name(text, value, "issue"@) && is_at(text, value + "issue"@.len(), '.') && (is_name(
                text,
                key,
                "created_at"@,
            ) || is_name(text, key, "updated_at"@)) && is_at(text, bar, '|') && is_name(
                text,
                name,
                "date"@,
            ) {
                name + "date"@.len()
            } else {
                content
            }
        },
        None => if goes_through_blockers(text, place) {
            blockers_end(list_place(text, place))
        } else {
            content
        },
    }
}

/// What rendering the template gives depends on the values of a prompt alone: it asks for no date but
/// those of the issue, since another may be that of today, and shows no object, whose members come in
/// any order.
pub open spec fn is_settled(template: Seq<char>) -> bool {
    tags_read(template, 0, seq![], false) matches Some(places) && keep_names(template, places)
        && forall|i: int|
        0 <= i < places.len() ==> #[trigger] is_steady(
            template,
            places,
            steady_from(template, places[i]),
        )
}

// ---------------------------------------------------------------------------
// Deciding
// ---------------------------------------------------------------------------

/// The integers that a value may read as.
#[derive(Clone, Copy)]
struct Span {
    lo: i128,
    hi: i128,
}

impl View for Span {
    type V = Reach;

    closed spec fn view(&self) -> Reach {
        Reach { lo: self.lo as int, hi: self.hi as int }
    }
}

impl Span {
    spec fn is_small(self) -> bool {
        i64::MIN <= self.lo && self.lo <= 0x8000_0000_0000_0000 && i64::MIN <= self.hi && self.hi
            <= 0x8000_0000_0000_0000
    }

    fn none() -> (r: Span)
        ensures
            r@ == Reach::none(),
            r.is_small(),
    {
        Span { lo: 1, hi: 0 }
    }

    fn one(n: i64) -> (r: Span)
        ensures
            r@ == Reach::one(n as int),
            r.is_small(),
    {
        Span { lo: n as i128, hi: n as i128 }
    }

    fn any() -> (r: Span)
        ensures
            r@ == Reach::any(),
            r.is_small(),
    {
        Span { lo: i64::MIN as i128, hi: i64::MAX as i128 }
    }

    fn count() -> (r: Span)
        ensures
            r@ == Reach::count(),
            r.is_small(),
    {
        Span { lo: 0, hi: ROOM }
    }

    fn is_empty(&self) -> (r: bool)
        ensures
            r == self@.is_empty(),
    {
        self.hi < self.lo
    }

    fn size(&self) -> (r: i128)
        requires
            self.is_small(),
        ensures
            r == self@.size(),
            0 <= r <= 0x8000_0000_0000_0000,
    {
        let below = if self.lo < 0 {
            -self.lo
        } else {
            self.lo
        };
        let above = if self.hi < 0 {
            -self.hi
        } else {
            self.hi
        };
        if below < above {
            above
        } else {
            below
        }
    }

    fn or(&self, other: &Span) -> (r: Span)
        requires
            self.is_small(),
            other.is_small(),
        ensures
            r@ == self@.or(other@),
            r.is_small(),
    {
        Span {
            lo: if self.lo < other.lo {
                self.lo
            } else {
                other.lo
            },
            hi: if self.hi < other.hi {
                other.hi
            } else {
                self.hi
            },
        }
    }
}

fn in_bits(lo: i128, hi: i128) -> (r: Option<Span>)
    requires
        lo <= hi,
    ensures
        match r {
            Some(span) => (Reach { lo: lo as int, hi: hi as int }).in_bits() == Some(span@)
                && span.is_small(),
            None => (Reach { lo: lo as int, hi: hi as int }).in_bits() is None,
        },
{
    if i64::MIN as i128 <= lo && hi <= i64::MAX as i128 {
        Some(Span { lo, hi })
    } else {
        None
    }
}

fn calculate(kind: FilterKind, value: Span, argument: Span) -> (r: Option<Span>)
    requires
        value.is_small(),
        argument.is_small(),
    ensures
        match r {
            Some(span) => calculated(kind, value@, argument@) == Some(span@) && span.is_small(),
            None => calculated(kind, value@, argument@) is None,
        },
{
    let idle = value.is_empty() || argument.is_empty();
    match kind {
        FilterKind::Plus => if idle {
            Some(Span::none())
        } else {
            in_bits(value.lo + argument.lo, value.hi + argument.hi)
        },
        FilterKind::Minus => if idle {
            Some(Span::none())
        } else {
            in_bits(value.lo - argument.hi, value.hi - argument.lo)
        },
        FilterKind::Times => if idle {
            Some(Span::none())
        } else {
            let a = value.size();
            let b = argument.size();
            proof {
                assert(0 <= a * b <= 0x8000_0000_0000_0000 * 0x8000_0000_0000_0000) by (nonlinear_arith)
                    requires
                        0 <= a <= 0x8000_0000_0000_0000,
                        0 <= b <= 0x8000_0000_0000_0000,
                ;
            }
            in_bits(-(a * b), a * b)
        },
        FilterKind::Divide => if idle {
            Some(Span::none())
        } else if value.lo == i64::MIN as i128 && argument.lo <= -1 && -1 <= argument.hi {
            None
        } else {
            Some(Span { lo: -value.size(), hi: value.size() })
        },
        FilterKind::Abs => if value.is_empty() {
            Some(Span::none())
        } else if value.lo == i64::MIN as i128 {
            None
        } else {
            Some(Span { lo: 0, hi: value.size() })
        },
        FilterKind::Count => Some(Span::count()),
        FilterKind::Choose => Some(value.or(&argument)),
        _ => Some(Span::any()),
    }
}

fn read_text(chars: &Vec<char>, from: usize, to: usize) -> (r: Span)
    requires
        from <= to <= chars@.len(),
    ensures
        r@ == reads_as(LiquidView::Str(chars@.subrange(from as int, to as int))),
        r.is_small(),
{
    match parse_integer(string_of(chars, from, to).as_str()) {
        Some(n) => Span::one(n),
        None => Span::none(),
    }
}

fn read_as(value: &LiquidValue) -> (r: Span)
    ensures
        r@ == reads_as(value@),
        r.is_small(),
{
    match value {
        LiquidValue::Integer(n) => Span::one(*n),
        LiquidValue::Str(s) => match parse_integer(s.as_str()) {
            Some(n) => Span::one(n),
            None => Span::none(),
        },
        _ => Span::none(),
    }
}

fn holds_text(value: &LiquidValue) -> (r: bool)
    ensures
        r == is_text(value@),
{
    match value {
        LiquidValue::Str(_) | LiquidValue::Nil => true,
        _ => false,
    }
}

fn holds_record(value: &LiquidValue) -> (r: bool)
    ensures
        r == is_record(value@),
{
    match value {
        LiquidValue::Object(members) => {
            let ghost views = value@->Object_0;
            proof {
                lemma_liquid_member_views(members@);
            }
            for i in 0..members.len()
                invariant
                    value@ == LiquidView::Object(views),
                    views.len() == members@.len(),
                    forall|j: int|
                        0 <= j < views.len() ==> #[trigger] views[j] == (
                            members@[j].0@,
                            members@[j].1@,
                        ),
                    forall|j: int| 0 <= j < i ==> #[trigger] is_text(views[j].1),
            {
                if !holds_text(&members[i].1) {
                    assert(!is_text(views[i as int].1));
                    assert(!are_texts(views));
                    return false;
                }
            }
            true
        },
        _ => false,
    }
}

fn find_list_kind(value: &LiquidValue) -> (r: ListKind)
    ensures
        r == list_kind(value@),
{
    match value {
        LiquidValue::Array(items) => {
            let ghost views = value@->Array_0;
            proof {
                lemma_liquid_item_views(items@);
            }
            let mut texts = true;
            let mut records = true;
            for i in 0..items.len()
                invariant
                    value@ == LiquidView::Array(views),
                    views.len() == items@.len(),
                    forall|j: int| 0 <= j < views.len() ==> #[trigger] views[j] == items@[j]@,
                    texts == forall|j: int| 0 <= j < i ==> is_text(#[trigger] views[j]),
                    records == forall|j: int| 0 <= j < i ==> is_record(#[trigger] views[j]),
            {
                let text = holds_text(&items[i]);
                let record = holds_record(&items[i]);
                assert(text == is_text(views[i as int]));
                assert(record == is_record(views[i as int]));
                texts = texts && text;
                records = records && record;
            }
            if texts {
                ListKind::Texts
            } else if records {
                ListKind::Records
            } else {
                ListKind::Mixed
            }
        },
        _ => ListKind::Texts,
    }
}

fn is_kept_name(text: &Vec<char>, at: usize, kept: bool) -> (r: bool)
    requires
        at <= text@.len(),
    ensures
        r == (kept && (is_name(text@, at as nat, "issue"@) || is_name(text@, at as nat, "attempt"@))),
{
    kept && (has_name(text, at, "issue") || has_name(text, at, "attempt"))
}

fn find_reach(
    text: &Vec<char>,
    at: usize,
    kept: bool,
    globals: &Vec<(String, LiquidValue)>,
) -> (r: Span)
    requires
        at <= text@.len(),
    ensures
        r@ == reach_at(text@, at as nat, kept, globals.deep_view()),
        r.is_small(),
{
    let length = text.len();
    let literal = measure_literal(text, at);
    if literal > 0 {
        let quoted = measure_quoted(text, at);
        if quoted > 0 {
            return read_text(text, at + 1, at + quoted - 1);
        }
        let n = measure_integer(text, at);
        if n > 0 && measure_fraction(text, at + n) == 0 {
            return read_text(text, at, at + n);
        }
        return Span::none();
    }
    if is_kept_name(text, at, kept) {
        match look_up(text, at, globals) {
            Looked::Found(value, _) => {
                return read_as(value);
            },
            Looked::Missing => {
                return Span::none();
            },
            Looked::Unclear => {},
        }
    }
    if kept && has_name(text, at, "forloop") {
        Span::count()
    } else {
        Span::any()
    }
}

fn find_list(
    text: &Vec<char>,
    at: usize,
    kept: bool,
    globals: &Vec<(String, LiquidValue)>,
) -> (r: ListKind)
    requires
        at <= text@.len(),
    ensures
        r == list_at(text@, at as nat, kept, globals.deep_view()),
{
    if measure_literal(text, at) > 0 {
        return ListKind::Texts;
    }
    if is_kept_name(text, at, kept) {
        match look_up(text, at, globals) {
            Looked::Found(value, _) => find_list_kind(value),
            Looked::Missing => ListKind::Texts,
            Looked::Unclear => ListKind::Mixed,
        }
    } else {
        ListKind::Mixed
    }
}

fn find_filter_kind(text: &Vec<char>, name: usize) -> (r: FilterKind)
    requires
        name <= text@.len(),
    ensures
        r == filter_kind(text@, name as nat),
{
    if has_name(text, name, "plus") {
        FilterKind::Plus
    } else if has_name(text, name, "minus") {
        FilterKind::Minus
    } else if has_name(text, name, "times") {
        FilterKind::Times
    } else if has_name(text, name, "divided_by") || has_name(text, name, "modulo") {
        FilterKind::Divide
    } else if has_name(text, name, "abs") {
        FilterKind::Abs
    } else if has_name(text, name, "size") {
        FilterKind::Count
    } else if has_name(text, name, "default") || has_name(text, name, "at_least") || has_name(
        text,
        name,
        "at_most",
    ) {
        FilterKind::Choose
    } else if has_name(text, name, "slice") {
        FilterKind::Slice
    } else if has_name(text, name, "date") {
        FilterKind::Date
    } else if has_name(text, name, "sort") {
        FilterKind::Sort
    } else if has_name(text, name, "split") {
        FilterKind::Split
    } else if has_name(text, name, "map") {
        FilterKind::Pluck
    } else if has_name(text, name, "reverse") || has_name(text, name, "uniq") || has_name(
        text,
        name,
        "compact",
    ) || has_name(text, name, "sort_natural") || has_name(text, name, "where") {
        FilterKind::Pick
    } else {
        FilterKind::Other
    }
}

fn find_listed(kind: FilterKind, list: ListKind) -> (r: ListKind)
    ensures
        r == listed(kind, list),
{
    match kind {
        FilterKind::Split => ListKind::Texts,
        FilterKind::Pluck => if list == ListKind::Mixed {
            ListKind::Mixed
        } else {
            ListKind::Texts
        },
        FilterKind::Pick | FilterKind::Sort | FilterKind::Slice => list,
        _ => ListKind::Mixed,
    }
}

fn find_argument(text: &Vec<char>, name: usize) -> (r: usize)
    requires
        name <= text@.len(),
    ensures
        r == argument_at(text@, name as nat),
        name <= r <= text@.len(),
{
    let n = measure_name(text, name);
    let colon = skip_spaces(text, name + n);
    if is_here(text, colon, ':') {
        skip_spaces(text, colon + 1)
    } else {
        text.len()
    }
}

fn check_slice(
    text: &Vec<char>,
    first: usize,
    kept: bool,
    globals: &Vec<(String, LiquidValue)>,
) -> (r: bool)
    requires
        first <= text@.len(),
    ensures
        r == slice_fits(text@, first as nat, kept, globals.deep_view()),
{
    match read_argument(text, first) {
        Some(end) => {
            let comma = skip_spaces(text, end);
            !is_here(text, comma, ',') || find_reach(
                text,
                skip_spaces(text, comma + 1),
                kept,
                globals,
            ).hi <= ROOM
        },
        None => true,
    }
}

fn is_mark(c: char) -> (r: bool)
    ensures
        r == is_format_mark(c),
{
    c == '%' || c == '-' || c == '_' || c == '^' || c == '#' || c == ':' || c == 'E' || c == 'O' || (
    '0' <= c && c <= '9')
}

fn check_format(format: &Vec<char>) -> (r: bool)
    ensures
        r == is_plain_format(format@),
{
    for i in 0..format.len()
        invariant
            forall|j: int|
                #![trigger format@[j]]
                0 <= j < i ==> digits_from(format@, j as nat) <= WIDTH_DIGITS && (format@[j] as u32
                    > 127 && j > 0 ==> !is_format_mark(format@[j - 1])),
    {
        if count_digits(format, i) > WIDTH_DIGITS || (format[i] as u32 > 127 && i > 0 && is_mark(
            format[i - 1],
        )) {
            assert(format@[i as int] == format@[i as int]);
            return false;
        }
    }
    true
}

fn check_date(
    text: &Vec<char>,
    first: usize,
    kept: bool,
    globals: &Vec<(String, LiquidValue)>,
) -> (r: bool)
    requires
        first <= text@.len(),
    ensures
        r == date_fits(text@, first as nat, kept, globals.deep_view()),
{
    let length = text.len();
    if measure_literal(text, first) > 0 {
        let quoted = measure_quoted(text, first);
        return quoted > 0 && check_format(
            &chars_of(string_of(text, first + 1, first + quoted - 1).as_str()),
        );
    }
    if is_kept_name(text, first, kept) {
        match look_up(text, first, globals) {
            Looked::Found(LiquidValue::Str(format), _) => check_format(&chars_of(format.as_str())),
            _ => false,
        }
    } else {
        false
    }
}

fn check_filters(
    text: &Vec<char>,
    from: usize,
    value: Span,
    list: ListKind,
    kept: bool,
    globals: &Vec<(String, LiquidValue)>,
) -> (r: bool)
    requires
        from <= text@.len(),
        value.is_small(),
    ensures
        r == filters_fit(text@, from as nat, value@, list, kept, globals.deep_view()),
{
    let ghost views = globals.deep_view();
    let mut at = from;
    let mut current = value;
    let mut kind_of_list = list;
    loop
        invariant
            from <= at <= text@.len(),
            current.is_small(),
            views == globals.deep_view(),
            filters_fit(text@, from as nat, value@, list, kept, views) == filters_fit(
                text@,
                at as nat,
                current@,
                kind_of_list,
                kept,
                views,
            ),
        decreases text@.len() - at,
    {
        let bar = skip_spaces(text, at);
        if !is_here(text, bar, '|') {
            return true;
        }
        let name = skip_spaces(text, bar + 1);
        let end = match read_filter(text, name) {
            Some(end) => end,
            None => {
                return true;
            },
        };
        let first = find_argument(text, name);
        let kind = find_filter_kind(text, name);
        if kind == FilterKind::Slice && !check_slice(text, first, kept, globals) {
            return false;
        }
        if kind == FilterKind::Date && !check_date(text, first, kept, globals) {
            return false;
        }
        if kind == FilterKind::Sort && !(kind_of_list == ListKind::Texts || (kind_of_list
            == ListKind::Records && first < text.len())) {
            return false;
        }
        match calculate(kind, current, find_reach(text, first, kept, globals)) {
            Some(next) => {
                current = next;
                kind_of_list = find_listed(kind, kind_of_list);
                at = end;
            },
            None => {
                return false;
            },
        }
    }
}

fn check_chain(
    text: &Vec<char>,
    at: usize,
    kept: bool,
    globals: &Vec<(String, LiquidValue)>,
) -> (r: bool)
    requires
        at <= text@.len(),
    ensures
        r == chain_fits(text@, at as nat, kept, globals.deep_view()),
{
    match read_value(text, at) {
        Some(end) => check_filters(
            text,
            end,
            find_reach(text, at, kept, globals),
            find_list(text, at, kept, globals),
            kept,
            globals,
        ),
        None => true,
    }
}

fn check_range(
    text: &Vec<char>,
    at: usize,
    kept: bool,
    globals: &Vec<(String, LiquidValue)>,
) -> (r: bool)
    requires
        at < text@.len(),
    ensures
        r == range_fits(text@, at as nat, kept, globals.deep_view()),
{
    let length = text.len();
    let first = skip_spaces(text, at + 1);
    match read_value(text, first) {
        Some(end) => {
            let dots = skip_spaces(text, end);
            let from = find_reach(text, first, kept, globals);
            if length - dots < 2 {
                proof {
                    lemma_nothing_known(
                        text@,
                        past_spaces(text@, dots as nat + 2),
                        kept,
                        globals.deep_view(),
                    );
                }
                return from.is_empty() || i64::MAX as i128 - from.lo <= RANGE_ITEMS;
            }
            let to = find_reach(text, skip_spaces(text, dots + 2), kept, globals);
            from.is_empty() || to.is_empty() || to.hi - from.lo <= RANGE_ITEMS
        },
        None => true,
    }
}

proof fn lemma_nothing_known(
    text: Seq<char>,
    at: nat,
    kept: bool,
    globals: Seq<(Seq<char>, LiquidView)>,
)
    requires
        at > text.len(),
    ensures
        reach_at(text, at, kept, globals) == Reach::any(),
{
}

fn check_ranges(
    text: &Vec<char>,
    from: usize,
    kept: bool,
    globals: &Vec<(String, LiquidValue)>,
) -> (r: bool)
    requires
        from <= text@.len(),
    ensures
        r == ranges_fit(text@, from as nat, kept, globals.deep_view()),
{
    let ghost views = globals.deep_view();
    let mut at = from;
    while at < text.len()
        invariant
            at <= text@.len(),
            views == globals.deep_view(),
            ranges_fit(text@, from as nat, kept, views) == ranges_fit(text@, at as nat, kept, views),
        decreases text@.len() - at,
    {
        if ends_tag(text, at) {
            return true;
        }
        if text[at] == '(' && !check_range(text, at, kept, globals) {
            return false;
        }
        at += measure_piece(text, at);
    }
    true
}

fn check_columns(
    text: &Vec<char>,
    from: usize,
    kept: bool,
    globals: &Vec<(String, LiquidValue)>,
) -> (r: bool)
    requires
        from <= text@.len(),
    ensures
        r == columns_fit(text@, from as nat, kept, globals.deep_view()),
{
    let ghost views = globals.deep_view();
    let mut at = from;
    while at < text.len()
        invariant
            at <= text@.len(),
            views == globals.deep_view(),
            columns_fit(text@, from as nat, kept, views) == columns_fit(
                text@,
                at as nat,
                kept,
                views,
            ),
        decreases text@.len() - at,
    {
        if ends_tag(text, at) {
            return true;
        }
        if has_name(text, at, "cols") {
            let columns = find_reach(text, find_argument(text, at), kept, globals);
            if !columns.is_empty() && columns.lo < 1 {
                return false;
            }
        }
        at += measure_piece(text, at);
    }
    true
}

fn check_round(text: &Vec<char>, at: usize) -> (r: bool)
    requires
        at <= text@.len(),
    ensures
        r == round_fits(text@, at as nat),
{
    match read_value(text, at) {
        Some(end) => {
            let colon = skip_spaces(text, end);
            !is_here(text, colon, ':') || read_value(text, skip_spaces(text, colon + 1)).is_some()
        },
        None => false,
    }
}

fn find_first_part(text: &Vec<char>, place: usize) -> (r: usize)
    requires
        opens_tag(text@, place as int),
    ensures
        r == first_part_at(text@, place as nat),
        place <= r <= text@.len(),
{
    let content = find_content(text, place);
    let n = measure_name(text, content);
    skip_spaces(text, content + n)
}

fn does_rename(text: &Vec<char>, place: usize) -> (r: bool)
    requires
        opens_tag(text@, place as int),
    ensures
        r == renames(text@, place as nat),
{
    let gives = has_tag_name(text, place, "assign") || has_tag_name(text, place, "capture")
        || has_tag_name(text, place, "for") || has_tag_name(text, place, "tablerow") || has_tag_name(
        text,
        place,
        "increment",
    ) || has_tag_name(text, place, "decrement");
    let first = find_first_part(text, place);
    gives && (has_name(text, first, "issue") || has_name(text, first, "attempt") || has_name(
        text,
        first,
        "forloop",
    ))
}

fn check_names(text: &Vec<char>, places: &Vec<usize>) -> (r: bool)
    requires
        forall|i: int| 0 <= i < places@.len() ==> opens_tag(text@, #[trigger] places@[i] as int),
    ensures
        r == keep_names(text@, naturals(places@)),
{
    let ghost found = naturals(places@);
    for i in 0..places.len()
        invariant
            found == naturals(places@),
            forall|i: int|
                0 <= i < places@.len() ==> opens_tag(text@, #[trigger] places@[i] as int),
            forall|j: int| 0 <= j < i ==> !#[trigger] renames(text@, found[j]),
    {
        let renamed = does_rename(text, places[i]);
        assert(renamed == renames(text@, found[i as int]));
        if renamed {
            return false;
        }
    }
    true
}

fn find_value(text: &Vec<char>, place: usize) -> (r: Option<usize>)
    requires
        opens_tag(text@, place as int),
    ensures
        match r {
            Some(at) => value_at(text@, place as nat) == Some(at as nat) && at <= text@.len(),
            None => value_at(text@, place as nat) is None,
        },
{
    let length = text.len();
    if text[place + 1] == '{' {
        return Some(find_content(text, place));
    }
    let name = find_first_part(text, place);
    let n = measure_name(text, name);
    let equals = skip_spaces(text, name + n);
    if has_tag_name(text, place, "assign") && is_here(text, equals, '=') {
        Some(skip_spaces(text, equals + 1))
    } else {
        None
    }
}

fn check_tag(
    text: &Vec<char>,
    place: usize,
    kept: bool,
    globals: &Vec<(String, LiquidValue)>,
) -> (r: bool)
    requires
        opens_tag(text@, place as int),
    ensures
        r == tag_fits(text@, place as nat, kept, globals.deep_view()),
{
    let content = find_content(text, place);
    if has_tag_name(text, place, "tablerow") && !check_columns(text, content, kept, globals) {
        return false;
    }
    if has_tag_name(text, place, "cycle") && !check_round(text, find_first_part(text, place)) {
        return false;
    }
    if !check_ranges(text, content, kept, globals) {
        return false;
    }
    match find_value(text, place) {
        Some(value) => check_chain(text, value, kept, globals),
        None => true,
    }
}

fn check_tags(
    text: &Vec<char>,
    places: &Vec<usize>,
    kept: bool,
    globals: &Vec<(String, LiquidValue)>,
) -> (r: bool)
    requires
        forall|i: int| 0 <= i < places@.len() ==> opens_tag(text@, #[trigger] places@[i] as int),
    ensures
        r == tags_fit(text@, naturals(places@), kept, globals.deep_view()),
{
    let ghost found = naturals(places@);
    let ghost views = globals.deep_view();
    for i in 0..places.len()
        invariant
            found == naturals(places@),
            views == globals.deep_view(),
            forall|i: int|
                0 <= i < places@.len() ==> opens_tag(text@, #[trigger] places@[i] as int),
            forall|j: int| 0 <= j < i ==> #[trigger] tag_fits(text@, found[j], kept, views),
    {
        let fits = check_tag(text, places[i], kept, globals);
        assert(fits == tag_fits(text@, found[i as int], kept, views));
        if !fits {
            return false;
        }
    }
    true
}

/// Whether `liquid` can render a template with the values of a prompt.
pub(crate) fn is_safe_to_render(template: &Vec<char>, globals: &Vec<(String, LiquidValue)>) -> (r:
    bool)
    ensures
        r == can_render(template@, globals.deep_view()),
{
    match find_tags(template) {
        Some(places) => {
            let kept = check_names(template, &places);
            check_tags(template, &places, kept, globals)
        },
        None => false,
    }
}

} // verus!
