//! How `liquid` reads a template, and which templates it can be given.
use vstd::prelude::*;

use crate::text::{
    chars_of, find_text, first_occurrence, i64_literal, occurs_at, parse_integer, string_of,
};

verus! {

/// How deep the indexes of a value may nest. What `liquid` reads within another thing it reads on
/// the stack, which a template must not use up.
pub const MAX_INDEXES: usize = 100;

/// How deep blocks may nest.
pub const MAX_BLOCKS: usize = 64;

/// How many tags of a template may be an `elsif`, each of which `liquid` reads within the one before.
pub const MAX_ELSIFS: usize = 64;

/// How many conditions a tag may join, each of which `liquid` holds within the one before.
pub const MAX_JOINS: usize = 256;

// ---------------------------------------------------------------------------
// Words, numbers and texts
// ---------------------------------------------------------------------------

/// A decimal digit of ASCII.
pub open spec fn is_digit(c: char) -> bool {
    '0' <= c <= '9'
}

/// How many digits follow one another from a place on.
pub open spec fn digits_from(text: Seq<char>, at: nat) -> nat
    decreases text.len() - at,
{
    if at < text.len() && is_digit(text[at as int]) {
        1 + digits_from(text, at + 1)
    } else {
        0
    }
}

/// How many characters other than the quote follow one another from a place on.
pub open spec fn unquoted_from(text: Seq<char>, at: nat, quote: char) -> nat
    decreases text.len() - at,
{
    if at < text.len() && text[at as int] != quote {
        1 + unquoted_from(text, at + 1, quote)
    } else {
        0
    }
}

/// How many blanks and ends of lines follow one another from a place on.
pub open spec fn spaces_from(text: Seq<char>, at: nat) -> nat
    decreases text.len() - at,
{
    if at < text.len() && (text[at as int] == ' ' || text[at as int] == '\n' || text[at as int]
        == '\r') {
        1 + spaces_from(text, at + 1)
    } else {
        0
    }
}

/// A character that begins and ends a quoted text.
pub open spec fn is_quote(c: char) -> bool {
    c == '"' || c == '\''
}

/// A tag of a template begins at a place.
pub open spec fn opens_tag(text: Seq<char>, at: int) -> bool {
    0 <= at && at + 1 < text.len() && text[at] == '{' && (text[at + 1] == '{' || text[at + 1]
        == '%')
}

/// Where the inside of a tag that begins at a place begins.
pub open spec fn tag_inside(text: Seq<char>, at: int) -> nat {
    if at + 2 < text.len() && text[at + 2] == '-' {
        (at + 3) as nat
    } else {
        (at + 2) as nat
    }
}

/// A tag of a template ends at a place.
pub open spec fn closes_tag(text: Seq<char>, at: nat) -> bool {
    at + 1 < text.len() && text[at as int + 1] == '}' && (text[at as int] == '}' || text[at as int]
        == '%')
}

/// A hyphen that belongs to the end of a tag stands at a place.
pub open spec fn is_closing_hyphen(text: Seq<char>, at: nat) -> bool {
    at < text.len() && text[at as int] == '-' && closes_tag(text, at + 1)
}

/// A character that goes on a name stands at a place.
pub open spec fn goes_on_name(text: Seq<char>, at: nat) -> bool {
    at < text.len() && ({
        let c = text[at as int];
        is_digit(c) || 'a' <= c <= 'z' || 'A' <= c <= 'Z' || c == '_' || (c == '-'
            && !is_closing_hyphen(text, at))
    })
}

/// How many characters of a name follow one another from a place on.
pub open spec fn name_from(text: Seq<char>, at: nat) -> nat
    decreases text.len() - at,
{
    if goes_on_name(text, at) {
        1 + name_from(text, at + 1)
    } else {
        0
    }
}

/// The length of the name that stands at a place, where there is one.
pub open spec fn name_at(text: Seq<char>, at: nat) -> nat {
    if at < text.len() && is_digit(text[at as int]) {
        0
    } else {
        name_from(text, at)
    }
}

/// A certain name stands at a place.
pub open spec fn is_name(text: Seq<char>, at: nat, name: Seq<char>) -> bool {
    occurs_at(text, name, at as int) && name_at(text, at) == name.len()
}

/// The length of the name of a value that stands at a place, where there is one.
pub open spec fn constant_at(text: Seq<char>, at: nat) -> nat {
    if occurs_at(text, "nil"@, at as int) {
        "nil"@.len()
    } else if occurs_at(text, "null"@, at as int) {
        "null"@.len()
    } else if occurs_at(text, "empty"@, at as int) {
        "empty"@.len()
    } else if occurs_at(text, "blank"@, at as int) {
        "blank"@.len()
    } else if occurs_at(text, "true"@, at as int) {
        "true"@.len()
    } else if occurs_at(text, "false"@, at as int) {
        "false"@.len()
    } else {
        0
    }
}

/// The length of the sign that stands at a place, where there is one.
pub open spec fn sign_at(text: Seq<char>, at: nat) -> nat {
    if at < text.len() && (text[at as int] == '-' || text[at as int] == '+') {
        1
    } else {
        0
    }
}

/// The length of the integer that stands at a place, where there is one.
pub open spec fn integer_at(text: Seq<char>, at: nat) -> nat {
    let digits = digits_from(text, at + sign_at(text, at));
    if digits > 0 {
        sign_at(text, at) + digits
    } else {
        0
    }
}

/// The length of the fraction behind an integer that ends at a place, where there is one.
pub open spec fn fraction_at(text: Seq<char>, at: nat) -> nat {
    if at < text.len() && text[at as int] == '.' && digits_from(text, at + 1) > 0 {
        1 + digits_from(text, at + 1)
    } else {
        0
    }
}

/// The length of the number that stands at a place, where there is one.
pub open spec fn number_at(text: Seq<char>, at: nat) -> nat {
    let n = integer_at(text, at);
    if n > 0 {
        n + fraction_at(text, at + n)
    } else {
        0
    }
}

/// The length of the quoted text that stands at a place, where there is one.
pub open spec fn quoted_at(text: Seq<char>, at: nat) -> nat {
    if at < text.len() && is_quote(text[at as int]) && at + 1 + unquoted_from(
        text,
        at + 1,
        text[at as int],
    ) < text.len() {
        2 + unquoted_from(text, at + 1, text[at as int])
    } else {
        0
    }
}

/// The length of the constant, quoted text or number that stands at a place, where there is one.
pub open spec fn literal_at(text: Seq<char>, at: nat) -> nat {
    if constant_at(text, at) > 0 {
        constant_at(text, at)
    } else if quoted_at(text, at) > 0 {
        quoted_at(text, at)
    } else {
        number_at(text, at)
    }
}

// ---------------------------------------------------------------------------
// The grammar of a tag
// ---------------------------------------------------------------------------

/// How much of a text is left behind a place.
pub open spec fn left_behind(text: Seq<char>, at: nat) -> nat {
    if at < text.len() {
        (text.len() - at) as nat
    } else {
        0
    }
}

/// The place behind blanks and ends of lines.
pub open spec fn past_spaces(text: Seq<char>, at: nat) -> nat {
    at + spaces_from(text, at)
}

/// A certain character stands at a place.
pub open spec fn is_at(text: Seq<char>, at: nat, c: char) -> bool {
    at < text.len() && text[at as int] == c
}

/// Where a value ends that begins at a place.
pub open spec fn value_end(text: Seq<char>, at: nat) -> Option<nat>
    decreases left_behind(text, at), 1nat,
{
    if literal_at(text, at) > 0 {
        Some(at + literal_at(text, at))
    } else if at < text.len() && name_at(text, at) > 0 {
        Some(path_end(text, at + name_at(text, at)))
    } else {
        None
    }
}

/// Where the keys and indexes end that begin at a place behind the name of a value.
pub open spec fn path_end(text: Seq<char>, at: nat) -> nat
    decreases left_behind(text, at), 0nat,
{
    if is_at(text, at, '.') && name_at(text, at + 1) > 0 {
        path_end(text, at + 1 + name_at(text, at + 1))
    } else if is_at(text, at, '[') {
        match value_end(text, past_spaces(text, at + 1)) {
            Some(end) => if at < end && is_at(text, past_spaces(text, end), ']') {
                path_end(text, past_spaces(text, end) + 1)
            } else {
                at
            },
            None => at,
        }
    } else {
        at
    }
}

/// Where the argument of a filter ends that begins at a place.
pub open spec fn argument_end(text: Seq<char>, at: nat) -> Option<nat> {
    let colon = past_spaces(text, at + name_at(text, at));
    let value = value_end(text, past_spaces(text, colon + 1));
    if name_at(text, at) > 0 && is_at(text, colon, ':') && value is Some {
        value
    } else {
        value_end(text, at)
    }
}

/// Where the arguments of a filter end of which one ends at a place.
pub open spec fn arguments_end(text: Seq<char>, at: nat) -> nat
    decreases left_behind(text, at),
{
    let comma = past_spaces(text, at);
    if is_at(text, comma, ',') {
        match argument_end(text, past_spaces(text, comma + 1)) {
            Some(end) => if comma < end {
                arguments_end(text, end)
            } else {
                at
            },
            None => at,
        }
    } else {
        at
    }
}

/// Where a filter ends that begins at a place.
pub open spec fn filter_end(text: Seq<char>, at: nat) -> Option<nat> {
    let name_end = at + name_at(text, at);
    let colon = past_spaces(text, name_end);
    if name_at(text, at) == 0 {
        None
    } else if is_at(text, colon, ':') {
        match argument_end(text, past_spaces(text, colon + 1)) {
            Some(end) => Some(arguments_end(text, end)),
            None => Some(name_end),
        }
    } else {
        Some(name_end)
    }
}

/// Where the filters end that begin at a place behind a value.
pub open spec fn filters_end(text: Seq<char>, at: nat) -> nat
    decreases left_behind(text, at),
{
    let bar = past_spaces(text, at);
    if is_at(text, bar, '|') {
        match filter_end(text, past_spaces(text, bar + 1)) {
            Some(end) => if bar < end {
                filters_end(text, end)
            } else {
                at
            },
            None => at,
        }
    } else {
        at
    }
}

/// Where a value with its filters ends that begins at a place.
pub open spec fn chain_end(text: Seq<char>, at: nat) -> Option<nat> {
    match value_end(text, at) {
        Some(end) => Some(filters_end(text, end)),
        None => None,
    }
}

/// Where a range ends that begins at a place.
pub open spec fn range_end(text: Seq<char>, at: nat) -> Option<nat> {
    if !is_at(text, at, '(') {
        None
    } else {
        match value_end(text, past_spaces(text, at + 1)) {
            Some(first) => {
                let dots = past_spaces(text, first);
                if !is_at(text, dots, '.') || !is_at(text, dots + 1, '.') {
                    None
                } else {
                    match value_end(text, past_spaces(text, dots + 2)) {
                        Some(last) => if is_at(text, past_spaces(text, last), ')') {
                            Some(past_spaces(text, last) + 1)
                        } else {
                            None
                        },
                        None => None,
                    }
                }
            },
            None => None,
        }
    }
}

/// The length of the sign of a comparison, an assignment or a list that stands at a place, where
/// there is one.
pub open spec fn symbol_at(text: Seq<char>, at: nat) -> nat {
    let equals = is_at(text, at + 1, '=');
    if at >= text.len() {
        0
    } else if text[at as int] == '!' {
        if equals {
            2
        } else {
            0
        }
    } else if text[at as int] == '=' || text[at as int] == '>' {
        if equals {
            2
        } else {
            1
        }
    } else if text[at as int] == '<' {
        if equals || is_at(text, at + 1, '>') {
            2
        } else {
            1
        }
    } else if text[at as int] == ',' || text[at as int] == ':' {
        1
    } else {
        0
    }
}

/// Where a part of a tag ends that begins at a place.
pub open spec fn part_end(text: Seq<char>, at: nat) -> Option<nat> {
    match range_end(text, at) {
        Some(end) => Some(end),
        None => match chain_end(text, at) {
            Some(end) => Some(end),
            None => if symbol_at(text, at) > 0 {
                Some(at + symbol_at(text, at))
            } else {
                None
            },
        },
    }
}

/// Where the parts of a tag end that follow a place.
pub open spec fn parts_end(text: Seq<char>, at: nat) -> nat
    decreases left_behind(text, at),
{
    match part_end(text, past_spaces(text, at)) {
        Some(end) => if at < end && at < text.len() {
            parts_end(text, end)
        } else {
            at
        },
        None => at,
    }
}

/// Where a tag ends whose inside ends at a place.
pub open spec fn closing_end(text: Seq<char>, at: nat, mark: char) -> Option<nat> {
    let here = past_spaces(text, at);
    if is_at(text, here, '-') && is_at(text, here + 1, mark) && is_at(text, here + 2, '}') {
        Some(past_spaces(text, here + 3))
    } else if is_at(text, here, mark) && is_at(text, here + 1, '}') {
        Some(here + 2)
    } else {
        None
    }
}

/// Where the name or the value of the tag that begins at a place begins.
pub open spec fn content_at(text: Seq<char>, at: int) -> nat {
    past_spaces(text, tag_inside(text, at))
}

/// Where the tag ends that begins at a place, where `liquid` can read it.
pub open spec fn tag_end(text: Seq<char>, at: int) -> Option<nat> {
    let content = content_at(text, at);
    if text[at + 1] == '{' {
        match chain_end(text, content) {
            Some(end) => closing_end(text, end, '}'),
            None => None,
        }
    } else if name_at(text, content) > 0 {
        closing_end(text, parts_end(text, content + name_at(text, content)), '%')
    } else {
        None
    }
}

/// A tag begins at a place that has a certain name.
pub open spec fn is_tag(text: Seq<char>, at: int, name: Seq<char>) -> bool {
    text[at + 1] == '%' && is_name(text, content_at(text, at), name)
}

/// The tag that begins at a place has nothing behind its name.
pub open spec fn is_bare(text: Seq<char>, at: int) -> bool {
    let end = content_at(text, at) + name_at(text, content_at(text, at));
    parts_end(text, end) == end
}

// ---------------------------------------------------------------------------
// Tags that cannot be read
// ---------------------------------------------------------------------------

/// How many bytes a character takes up in UTF-8.
pub open spec fn width(c: char) -> nat {
    if c as u32 <= 0x7f {
        1
    } else if c as u32 <= 0x7ff {
        2
    } else if c as u32 <= 0xffff {
        3
    } else {
        4
    }
}

/// Where the line begins that a place is in.
pub open spec fn line_start(text: Seq<char>, at: nat) -> nat
    decreases at,
{
    if at == 0 || text[at - 1] == '\n' {
        at
    } else {
        line_start(text, (at - 1) as nat)
    }
}

/// Where as many characters end, from a place on, as so many bytes hold.
pub open spec fn bytes_end(text: Seq<char>, at: nat, bytes: nat) -> nat
    decreases text.len() - at,
{
    if at < text.len() && width(text[at as int]) <= bytes {
        bytes_end(text, at + 1, (bytes - width(text[at as int])) as nat)
    } else {
        at
    }
}

/// `liquid` can read every tag of a text, from a place on.
pub open spec fn reads_through(text: Seq<char>, at: nat) -> bool
    decreases left_behind(text, at),
{
    let start = tag_start(text, at) as int;
    if at >= text.len() {
        true
    } else if !opens_tag(text, start) {
        reads_through(text, at + 1)
    } else {
        match tag_end(text, start) {
            Some(end) => at < end && reads_through(text, end),
            None => false,
        }
    }
}

/// What `liquid` reads again, to say what is wrong with a tag at a place: what stands before it in its
/// line, of which it counts the characters and takes as many bytes, and what follows.
pub open spec fn second_reading(text: Seq<char>, at: nat) -> Seq<char> {
    let start = line_start(text, at);
    let end = bytes_end(text, start, (at - start) as nat);
    text.subrange(start as int, end as int) + text.skip(at as int)
}

/// The tag at a place, which `liquid` cannot read, can be read with a part of its line before it.
/// `liquid` does not survive that.
pub open spec fn is_ambiguous(text: Seq<char>, at: nat) -> bool {
    reads_through(second_reading(text, at), 0)
}

// ---------------------------------------------------------------------------
// Blocks
// ---------------------------------------------------------------------------

/// A block other than one that is not read at all.
#[derive(Clone, Copy, Debug, PartialEq, Eq, Structural)]
pub enum Block {
    Comment,
    If,
    Unless,
    IfChanged,
    For,
    TableRow,
    Capture,
    Case,
}

/// The block that the tag at a place begins.
pub open spec fn block_at(text: Seq<char>, at: int) -> Option<Block> {
    if is_tag(text, at, "comment"@) {
        if is_bare(text, at) {
            Some(Block::Comment)
        } else {
            None
        }
    } else if is_tag(text, at, "if"@) {
        Some(Block::If)
    } else if is_tag(text, at, "unless"@) {
        Some(Block::Unless)
    } else if is_tag(text, at, "ifchanged"@) {
        Some(Block::IfChanged)
    } else if is_tag(text, at, "for"@) {
        Some(Block::For)
    } else if is_tag(text, at, "tablerow"@) {
        Some(Block::TableRow)
    } else if is_tag(text, at, "capture"@) {
        Some(Block::Capture)
    } else if is_tag(text, at, "case"@) {
        Some(Block::Case)
    } else {
        None
    }
}

/// The name of the tag that ends a block.
pub open spec fn end_name(block: Block) -> Seq<char> {
    match block {
        Block::Comment => "endcomment"@,
        Block::If => "endif"@,
        Block::Unless => "endunless"@,
        Block::IfChanged => "endifchanged"@,
        Block::For => "endfor"@,
        Block::TableRow => "endtablerow"@,
        Block::Capture => "endcapture"@,
        Block::Case => "endcase"@,
    }
}

/// The blocks that are open behind the tag at a place, of those that are open before it.
pub open spec fn open_behind(text: Seq<char>, at: int, open: Seq<Block>) -> Seq<Block> {
    if open.len() > 0 && is_tag(text, at, end_name(open.last())) {
        open.drop_last()
    } else {
        match block_at(text, at) {
            Some(block) => open.push(block),
            None => open,
        }
    }
}

/// One of the open blocks is a comment.
pub open spec fn is_commented(open: Seq<Block>) -> bool {
    exists|i: int| 0 <= i < open.len() && open[i] == Block::Comment
}

/// The innermost of the open blocks is a comment.
pub open spec fn is_comment_innermost(open: Seq<Block>) -> bool {
    open.len() > 0 && open.last() == Block::Comment
}

/// The template may end while blocks are open, and in a block that is not read at all, where
/// `unread` is set. In a comment `liquid` passes over what is wrong with a block, and does not survive
/// that the template ended in it.
pub open spec fn may_end(open: Seq<Block>, unread: bool) -> bool {
    if unread {
        !is_commented(open)
    } else {
        forall|i: int, j: int|
            0 <= i < j < open.len() && open[i] == Block::Comment ==> open[j] == Block::Comment
    }
}

/// Where a value ends that begins at a place and has no filters.
pub open spec fn plain_end(text: Seq<char>, at: nat) -> Option<nat> {
    if chain_end(text, at) == value_end(text, at) {
        value_end(text, at)
    } else {
        None
    }
}

/// A value without filters is all that stands in a tag from a place on.
pub open spec fn is_plain_value(text: Seq<char>, at: nat) -> bool {
    plain_end(text, at) matches Some(end) && parts_end(text, end) == end
}

/// The tag at a place begins a block that depends on a plain value, or goes through one.
pub open spec fn begins_plainly(text: Seq<char>, at: int) -> bool {
    let content = content_at(text, at);
    let first = past_spaces(text, content + name_at(text, content));
    let word = past_spaces(text, first + name_at(text, first));
    let last = past_spaces(text, word + name_at(text, word));
    if is_tag(text, at, "for"@) {
        &&& literal_at(text, first) == 0 && name_at(text, first) > 0
        &&& plain_end(text, first) == Some(first + name_at(text, first))
        &&& is_name(text, word, "in"@)
        &&& is_plain_value(text, last)
    } else {
        (is_tag(text, at, "if"@) || is_tag(text, at, "unless"@)) && is_plain_value(text, first)
    }
}

/// It is certain what `liquid` makes of the tag at a place, where a comment is open. There it passes
/// over what is wrong with a tag, and leaves the blocks that the tag is in; what is wrong with a comment
/// it does not pass over.
pub open spec fn is_certain(text: Seq<char>, at: int, open: Seq<Block>) -> bool {
    if text[at + 1] == '{' {
        is_comment_innermost(open) || plain_end(text, content_at(text, at)) is Some
    } else if is_tag(text, at, "comment"@) || (open.len() > 0 && is_tag(
        text,
        at,
        end_name(open.last()),
    )) {
        is_bare(text, at)
    } else if block_at(text, at) is Some {
        begins_plainly(text, at)
    } else {
        is_comment_innermost(open) || (is_tag(text, at, "raw"@) && is_bare(text, at))
    }
}

/// Where a tag begins whose blanks and ends of lines before it begin at a place. They belong to a tag
/// that begins with a hyphen.
pub open spec fn tag_start(text: Seq<char>, at: nat) -> nat {
    let start = past_spaces(text, at);
    if opens_tag(text, start as int) && is_at(text, start + 2, '-') {
        start
    } else {
        at
    }
}

/// A place before other places.
pub open spec fn before(at: nat, places: Option<Seq<nat>>) -> Option<Seq<nat>> {
    match places {
        Some(places) => Some(seq![at] + places),
        None => None,
    }
}

/// The places of the tags that `liquid` reads from a place on, where blocks are open and the place may
/// be in a block that is not read at all; none where `liquid` may not survive the template. `liquid`
/// leaves the tags of a raw block unread, and the values in a comment. It stops at a tag that it
/// cannot read; in a block in a comment it runs over the end of the template then.
pub open spec fn tags_read(text: Seq<char>, at: nat, open: Seq<Block>, unread: bool) -> Option<
    Seq<nat>,
>
    decreases left_behind(text, at),
{
    let start = tag_start(text, at);
    if open.len() > MAX_BLOCKS {
        None
    } else if at >= text.len() {
        if may_end(open, unread) {
            Some(seq![])
        } else {
            None
        }
    } else if !opens_tag(text, start as int) {
        tags_read(text, at + 1, open, unread)
    } else {
        match tag_end(text, start as int) {
            Some(end) => if end <= at {
                None
            } else if unread {
                tags_read(
                    text,
                    end,
                    open,
                    !(is_tag(text, start as int, "endraw"@) && is_bare(text, start as int)),
                )
            } else if is_commented(open) && !is_certain(text, start as int, open) {
                None
            } else if text[start as int + 1] == '{' {
                if is_comment_innermost(open) {
                    tags_read(text, end, open, false)
                } else {
                    before(start, tags_read(text, end, open, false))
                }
            } else {
                before(
                    start,
                    tags_read(
                        text,
                        end,
                        open_behind(text, start as int, open),
                        is_tag(text, start as int, "raw"@) && is_bare(text, start as int),
                    ),
                )
            },
            None => if unread || is_comment_innermost(open) {
                tags_read(text, at + 1, open, unread)
            } else if is_commented(open) || is_ambiguous(text, at) {
                None
            } else {
                Some(seq![])
            },
        }
    }
}

// ---------------------------------------------------------------------------
// What a tag holds
// ---------------------------------------------------------------------------

/// The length of what stands at a place in a tag: a literal, a name, a key behind its dot, or a
/// single character.
pub open spec fn piece_at(text: Seq<char>, at: nat) -> nat {
    if literal_at(text, at) > 0 {
        literal_at(text, at)
    } else if name_at(text, at) > 0 {
        name_at(text, at)
    } else if is_at(text, at, '.') {
        1 + name_at(text, at + 1)
    } else {
        1
    }
}

/// The indexes of a value nest no deeper than is allowed, from a place in a tag to its end, where
/// some are open.
pub open spec fn indexes_nest(text: Seq<char>, at: nat, open: nat) -> bool
    decreases left_behind(text, at),
{
    if at >= text.len() || closes_tag(text, at) || is_at(text, at, '{') {
        true
    } else if is_quote(text[at as int]) {
        indexes_nest(text, at + 1 + unquoted_from(text, at + 1, text[at as int]) + 1, open)
    } else if text[at as int] == '[' {
        open < MAX_INDEXES && indexes_nest(text, at + 1, open + 1)
    } else if text[at as int] == ']' && open > 0 {
        indexes_nest(text, at + 1, (open - 1) as nat)
    } else {
        indexes_nest(text, at + 1, open)
    }
}

/// Every integer in a tag, from a place inside it to its end, fits in 64 bits with a sign. `liquid`
/// does not survive one that does not.
pub open spec fn integers_fit(text: Seq<char>, at: nat) -> bool
    decreases left_behind(text, at),
{
    let n = integer_at(text, at);
    if at >= text.len() || closes_tag(text, at) {
        true
    } else {
        &&& n > 0 && fraction_at(text, at + n) == 0 && constant_at(text, at) == 0 ==> i64_literal(
            text.subrange(at as int, (at + n) as int),
        ) is Some
        &&& integers_fit(text, at + piece_at(text, at))
    }
}

/// How often a tag joins conditions, from a place inside it to its end.
pub open spec fn joins(text: Seq<char>, at: nat) -> nat
    decreases left_behind(text, at),
{
    if at >= text.len() || closes_tag(text, at) {
        0
    } else {
        joins(text, at + piece_at(text, at)) + if is_name(text, at, "and"@) || is_name(
            text,
            at,
            "or"@,
        ) {
            1nat
        } else {
            0
        }
    }
}

/// How many of the tags at some places are an `elsif`.
pub open spec fn elsifs(text: Seq<char>, places: Seq<nat>) -> nat
    decreases places.len(),
{
    if places.len() == 0 {
        0
    } else {
        elsifs(text, places.drop_last()) + if is_tag(text, places.last() as int, "elsif"@) {
            1nat
        } else {
            0
        }
    }
}

/// `liquid` can read what the tag at a place holds.
pub open spec fn is_bounded(text: Seq<char>, place: nat) -> bool {
    let inside = tag_inside(text, place as int);
    integers_fit(text, inside) && joins(text, inside) <= MAX_JOINS
}

/// `liquid` can try to parse the template.
pub open spec fn can_try(template: Seq<char>) -> bool {
    &&& forall|at: int| #[trigger]
        opens_tag(template, at) ==> indexes_nest(template, tag_inside(template, at), 0)
    &&& tags_read(template, 0, seq![], false) matches Some(places) && {
        &&& forall|i: int| 0 <= i < places.len() ==> #[trigger] is_bounded(template, places[i])
        &&& elsifs(template, places) <= MAX_ELSIFS
    }
}

// ---------------------------------------------------------------------------
// Reading
// ---------------------------------------------------------------------------

fn char_is_digit(c: char) -> (r: bool)
    ensures
        r == is_digit(c),
{
    '0' <= c && c <= '9'
}

pub(crate) fn is_here(text: &Vec<char>, at: usize, c: char) -> (r: bool)
    ensures
        text@.len() <= usize::MAX,
        r == is_at(text@, at as nat, c),
{
    at < text.len() && text[at] == c
}

fn is_ahead(text: &Vec<char>, at: usize, c: char) -> (r: bool)
    requires
        at < text@.len(),
    ensures
        text@.len() <= usize::MAX,
        r == is_at(text@, at as nat + 1, c),
{
    text.len() - at > 1 && text[at + 1] == c
}

pub(crate) fn count_digits(text: &Vec<char>, at: usize) -> (r: usize)
    requires
        at <= text@.len(),
    ensures
        r == digits_from(text@, at as nat),
        at + r <= text@.len(),
{
    let mut end = at;
    while end < text.len() && char_is_digit(text[end])
        invariant
            at <= end <= text@.len(),
            digits_from(text@, at as nat) == end - at + digits_from(text@, end as nat),
        decreases text@.len() - end,
    {
        end += 1;
    }
    end - at
}

pub(crate) fn ends_tag(text: &Vec<char>, at: usize) -> (r: bool)
    requires
        at <= text@.len(),
    ensures
        r == closes_tag(text@, at as nat),
{
    text.len() - at > 1 && text[at + 1] == '}' && (text[at] == '}' || text[at] == '%')
}

fn is_in_name(text: &Vec<char>, at: usize) -> (r: bool)
    requires
        at < text@.len(),
    ensures
        r == goes_on_name(text@, at as nat),
{
    let n = text.len();
    let c = text[at];
    char_is_digit(c) || ('a' <= c && c <= 'z') || ('A' <= c && c <= 'Z') || c == '_' || (c == '-'
        && !ends_tag(text, at + 1))
}

pub(crate) fn measure_name(text: &Vec<char>, at: usize) -> (r: usize)
    requires
        at <= text@.len(),
    ensures
        text@.len() <= usize::MAX,
        r == name_at(text@, at as nat),
        at + r <= text@.len(),
{
    if at < text.len() && char_is_digit(text[at]) {
        return 0;
    }
    let mut end = at;
    while end < text.len() && is_in_name(text, end)
        invariant
            at <= end <= text@.len(),
            name_from(text@, at as nat) == end - at + name_from(text@, end as nat),
        decreases text@.len() - end,
    {
        end += 1;
    }
    end - at
}

fn count_unquoted(text: &Vec<char>, at: usize, quote: char) -> (r: usize)
    requires
        at <= text@.len(),
    ensures
        text@.len() <= usize::MAX,
        r == unquoted_from(text@, at as nat, quote),
        at + r <= text@.len(),
{
    let mut end = at;
    while end < text.len() && text[end] != quote
        invariant
            at <= end <= text@.len(),
            unquoted_from(text@, at as nat, quote) == end - at + unquoted_from(
                text@,
                end as nat,
                quote,
            ),
        decreases text@.len() - end,
    {
        end += 1;
    }
    end - at
}

pub(crate) fn skip_spaces(text: &Vec<char>, at: usize) -> (r: usize)
    requires
        at <= text@.len(),
    ensures
        text@.len() <= usize::MAX,
        r == past_spaces(text@, at as nat),
        at <= r <= text@.len(),
{
    let mut end = at;
    while end < text.len() && (text[end] == ' ' || text[end] == '\n' || text[end] == '\r')
        invariant
            at <= end <= text@.len(),
            spaces_from(text@, at as nat) == end - at + spaces_from(text@, end as nat),
        decreases text@.len() - end,
    {
        end += 1;
    }
    end
}

fn stands_at(text: &Vec<char>, pattern: &str, at: usize) -> (r: bool)
    requires
        at <= text@.len(),
    ensures
        r == occurs_at(text@, pattern@, at as int),
{
    let pattern = chars_of(pattern);
    let n = text.len();
    if n - at < pattern.len() {
        return false;
    }
    let mut k: usize = 0;
    while k < pattern.len() && pattern[k] == text[at + k]
        invariant
            n == text@.len(),
            k <= pattern@.len(),
            at + pattern@.len() <= n,
            forall|j: int| 0 <= j < k ==> pattern@[j] == text@[at + j],
        decreases pattern@.len() - k,
    {
        k += 1;
    }
    proof {
        let part = text@.subrange(at as int, at + pattern@.len());
        if k == pattern@.len() {
            assert(part =~= pattern@);
        } else {
            assert(part[k as int] == text@[at + k]);
        }
    }
    k == pattern.len()
}

pub(crate) fn has_name(text: &Vec<char>, at: usize, name: &str) -> (r: bool)
    requires
        at <= text@.len(),
    ensures
        r == is_name(text@, at as nat, name@),
{
    stands_at(text, name, at) && measure_name(text, at) == chars_of(name).len()
}

fn measure_constant(text: &Vec<char>, at: usize) -> (r: usize)
    requires
        at <= text@.len(),
    ensures
        r == constant_at(text@, at as nat),
        at + r <= text@.len(),
{
    proof {
        reveal_strlit("nil");
        reveal_strlit("null");
        reveal_strlit("empty");
        reveal_strlit("blank");
        reveal_strlit("true");
        reveal_strlit("false");
    }
    if stands_at(text, "nil", at) {
        3
    } else if stands_at(text, "null", at) {
        4
    } else if stands_at(text, "empty", at) || stands_at(text, "blank", at) {
        5
    } else if stands_at(text, "true", at) {
        4
    } else if stands_at(text, "false", at) {
        5
    } else {
        0
    }
}

pub(crate) fn measure_integer(text: &Vec<char>, at: usize) -> (r: usize)
    requires
        at <= text@.len(),
    ensures
        text@.len() <= usize::MAX,
        r == integer_at(text@, at as nat),
        at + r <= text@.len(),
{
    let sign: usize = if is_here(text, at, '-') || is_here(text, at, '+') {
        1
    } else {
        0
    };
    let digits = count_digits(text, at + sign);
    if digits > 0 {
        sign + digits
    } else {
        0
    }
}

pub(crate) fn measure_fraction(text: &Vec<char>, at: usize) -> (r: usize)
    requires
        at <= text@.len(),
    ensures
        r == fraction_at(text@, at as nat),
        at + r <= text@.len(),
{
    if is_here(text, at, '.') {
        let digits = count_digits(text, at + 1);
        if digits > 0 {
            return 1 + digits;
        }
    }
    0
}

pub(crate) fn measure_quoted(text: &Vec<char>, at: usize) -> (r: usize)
    requires
        at <= text@.len(),
    ensures
        text@.len() <= usize::MAX,
        r == quoted_at(text@, at as nat),
        at + r <= text@.len(),
        r == 0 || r >= 2,
{
    let n = text.len();
    if at < n && (text[at] == '"' || text[at] == '\'') {
        let inside = count_unquoted(text, at + 1, text[at]);
        if inside < n - at - 1 {
            return 2 + inside;
        }
    }
    0
}

pub(crate) fn measure_literal(text: &Vec<char>, at: usize) -> (r: usize)
    requires
        at <= text@.len(),
    ensures
        text@.len() <= usize::MAX,
        r == literal_at(text@, at as nat),
        at + r <= text@.len(),
{
    let n = text.len();
    let constant = measure_constant(text, at);
    if constant > 0 {
        return constant;
    }
    let quoted = measure_quoted(text, at);
    if quoted > 0 {
        return quoted;
    }
    let integer = measure_integer(text, at);
    if integer > 0 {
        integer + measure_fraction(text, at + integer)
    } else {
        0
    }
}

pub(crate) fn read_value(text: &Vec<char>, at: usize) -> (r: Option<usize>)
    requires
        at <= text@.len(),
    ensures
        match r {
            Some(end) => value_end(text@, at as nat) == Some(end as nat) && at < end <= text@.len(),
            None => value_end(text@, at as nat) is None,
        },
    decreases text@.len() - at, 1nat,
{
    let literal = measure_literal(text, at);
    if literal > 0 {
        return Some(at + literal);
    }
    let name = measure_name(text, at);
    if name > 0 {
        Some(read_path(text, at + name))
    } else {
        None
    }
}

fn read_path(text: &Vec<char>, from: usize) -> (r: usize)
    requires
        from <= text@.len(),
    ensures
        r == path_end(text@, from as nat),
        from <= r <= text@.len(),
    decreases text@.len() - from, 0nat,
{
    let mut at = from;
    loop
        invariant
            from <= at <= text@.len(),
            path_end(text@, from as nat) == path_end(text@, at as nat),
        decreases text@.len() - at,
    {
        if is_here(text, at, '.') && measure_name(text, at + 1) > 0 {
            at = at + 1 + measure_name(text, at + 1);
        } else if is_here(text, at, '[') {
            match read_value(text, skip_spaces(text, at + 1)) {
                Some(end) => {
                    let close = skip_spaces(text, end);
                    if !is_here(text, close, ']') {
                        return at;
                    }
                    at = close + 1;
                },
                None => {
                    return at;
                },
            }
        } else {
            return at;
        }
    }
}

pub(crate) fn read_argument(text: &Vec<char>, at: usize) -> (r: Option<usize>)
    requires
        at <= text@.len(),
    ensures
        match r {
            Some(end) => argument_end(text@, at as nat) == Some(end as nat) && at < end
                <= text@.len(),
            None => argument_end(text@, at as nat) is None,
        },
{
    let name = measure_name(text, at);
    let colon = skip_spaces(text, at + name);
    if name > 0 && is_here(text, colon, ':') {
        match read_value(text, skip_spaces(text, colon + 1)) {
            Some(end) => {
                return Some(end);
            },
            None => {},
        }
    }
    read_value(text, at)
}

fn read_arguments(text: &Vec<char>, from: usize) -> (r: usize)
    requires
        from <= text@.len(),
    ensures
        r == arguments_end(text@, from as nat),
        from <= r <= text@.len(),
{
    let mut at = from;
    loop
        invariant
            from <= at <= text@.len(),
            arguments_end(text@, from as nat) == arguments_end(text@, at as nat),
        decreases text@.len() - at,
    {
        let comma = skip_spaces(text, at);
        if !is_here(text, comma, ',') {
            return at;
        }
        match read_argument(text, skip_spaces(text, comma + 1)) {
            Some(end) => {
                at = end;
            },
            None => {
                return at;
            },
        }
    }
}

pub(crate) fn read_filter(text: &Vec<char>, at: usize) -> (r: Option<usize>)
    requires
        at <= text@.len(),
    ensures
        match r {
            Some(end) => filter_end(text@, at as nat) == Some(end as nat) && at < end <= text@.len(),
            None => filter_end(text@, at as nat) is None,
        },
{
    let name = measure_name(text, at);
    if name == 0 {
        return None;
    }
    let colon = skip_spaces(text, at + name);
    if is_here(text, colon, ':') {
        match read_argument(text, skip_spaces(text, colon + 1)) {
            Some(end) => {
                return Some(read_arguments(text, end));
            },
            None => {},
        }
    }
    Some(at + name)
}

fn read_chain(text: &Vec<char>, from: usize) -> (r: Option<usize>)
    requires
        from <= text@.len(),
    ensures
        match r {
            Some(end) => chain_end(text@, from as nat) == Some(end as nat) && from < end
                <= text@.len(),
            None => chain_end(text@, from as nat) is None,
        },
{
    let first = match read_value(text, from) {
        Some(end) => end,
        None => {
            return None;
        },
    };
    let mut at = first;
    loop
        invariant
            from < first <= at <= text@.len(),
            chain_end(text@, from as nat) == Some(filters_end(text@, first as nat)),
            filters_end(text@, first as nat) == filters_end(text@, at as nat),
        decreases text@.len() - at,
    {
        let bar = skip_spaces(text, at);
        if !is_here(text, bar, '|') {
            return Some(at);
        }
        match read_filter(text, skip_spaces(text, bar + 1)) {
            Some(end) => {
                at = end;
            },
            None => {
                return Some(at);
            },
        }
    }
}

fn read_range(text: &Vec<char>, at: usize) -> (r: Option<usize>)
    requires
        at <= text@.len(),
    ensures
        match r {
            Some(end) => range_end(text@, at as nat) == Some(end as nat) && at < end <= text@.len(),
            None => range_end(text@, at as nat) is None,
        },
{
    if !is_here(text, at, '(') {
        return None;
    }
    let first = match read_value(text, skip_spaces(text, at + 1)) {
        Some(end) => end,
        None => {
            return None;
        },
    };
    let dots = skip_spaces(text, first);
    if !is_here(text, dots, '.') || !is_ahead(text, dots, '.') {
        return None;
    }
    match read_value(text, skip_spaces(text, dots + 2)) {
        Some(last) => {
            let close = skip_spaces(text, last);
            if is_here(text, close, ')') {
                Some(close + 1)
            } else {
                None
            }
        },
        None => None,
    }
}

fn measure_symbol(text: &Vec<char>, at: usize) -> (r: usize)
    requires
        at <= text@.len(),
    ensures
        text@.len() <= usize::MAX,
        r == symbol_at(text@, at as nat),
        at + r <= text@.len(),
{
    if at == text.len() {
        return 0;
    }
    let c = text[at];
    let equals = is_ahead(text, at, '=');
    if c == '!' {
        if equals {
            2
        } else {
            0
        }
    } else if c == '=' || c == '>' {
        if equals {
            2
        } else {
            1
        }
    } else if c == '<' {
        if equals || is_ahead(text, at, '>') {
            2
        } else {
            1
        }
    } else if c == ',' || c == ':' {
        1
    } else {
        0
    }
}

fn read_part(text: &Vec<char>, at: usize) -> (r: Option<usize>)
    requires
        at <= text@.len(),
    ensures
        match r {
            Some(end) => part_end(text@, at as nat) == Some(end as nat) && at < end <= text@.len(),
            None => part_end(text@, at as nat) is None,
        },
{
    match read_range(text, at) {
        Some(end) => Some(end),
        None => match read_chain(text, at) {
            Some(end) => Some(end),
            None => {
                let symbol = measure_symbol(text, at);
                if symbol > 0 {
                    Some(at + symbol)
                } else {
                    None
                }
            },
        },
    }
}

fn read_parts(text: &Vec<char>, from: usize) -> (r: usize)
    requires
        from <= text@.len(),
    ensures
        r == parts_end(text@, from as nat),
        from <= r <= text@.len(),
{
    let mut at = from;
    loop
        invariant
            from <= at <= text@.len(),
            parts_end(text@, from as nat) == parts_end(text@, at as nat),
        decreases text@.len() - at,
    {
        match read_part(text, skip_spaces(text, at)) {
            Some(end) => {
                at = end;
            },
            None => {
                return at;
            },
        }
    }
}

fn read_closing(text: &Vec<char>, at: usize, mark: char) -> (r: Option<usize>)
    requires
        at <= text@.len(),
    ensures
        match r {
            Some(end) => closing_end(text@, at as nat, mark) == Some(end as nat) && at < end
                <= text@.len(),
            None => closing_end(text@, at as nat, mark) is None,
        },
{
    let here = skip_spaces(text, at);
    if is_here(text, here, '-') && is_here(text, here + 1, mark) && is_ahead(text, here + 1, '}') {
        Some(skip_spaces(text, here + 3))
    } else if is_here(text, here, mark) && is_ahead(text, here, '}') {
        Some(here + 2)
    } else {
        None
    }
}

fn begins_tag(text: &Vec<char>, at: usize) -> (r: bool)
    requires
        at <= text@.len(),
    ensures
        text@.len() <= usize::MAX,
        r == opens_tag(text@, at as int),
{
    text.len() - at > 1 && text[at] == '{' && (text[at + 1] == '{' || text[at + 1] == '%')
}

pub(crate) fn find_inside(text: &Vec<char>, at: usize) -> (r: usize)
    requires
        opens_tag(text@, at as int),
    ensures
        text@.len() <= usize::MAX,
        r == tag_inside(text@, at as int),
        at + 2 <= r <= text@.len(),
{
    if text.len() - at > 2 && text[at + 2] == '-' {
        at + 3
    } else {
        at + 2
    }
}

pub(crate) fn find_content(text: &Vec<char>, at: usize) -> (r: usize)
    requires
        opens_tag(text@, at as int),
    ensures
        text@.len() <= usize::MAX,
        r == content_at(text@, at as int),
        at + 2 <= r <= text@.len(),
{
    skip_spaces(text, find_inside(text, at))
}

fn read_tag(text: &Vec<char>, at: usize) -> (r: Option<usize>)
    requires
        opens_tag(text@, at as int),
    ensures
        match r {
            Some(end) => tag_end(text@, at as int) == Some(end as nat) && at < end <= text@.len(),
            None => tag_end(text@, at as int) is None,
        },
{
    let n = text.len();
    let content = find_content(text, at);
    if text[at + 1] == '{' {
        match read_chain(text, content) {
            Some(end) => read_closing(text, end, '}'),
            None => None,
        }
    } else {
        let name = measure_name(text, content);
        if name > 0 {
            read_closing(text, read_parts(text, content + name), '%')
        } else {
            None
        }
    }
}

pub(crate) fn has_tag_name(text: &Vec<char>, at: usize, name: &str) -> (r: bool)
    requires
        opens_tag(text@, at as int),
    ensures
        r == is_tag(text@, at as int, name@),
{
    let n = text.len();
    text[at + 1] == '%' && has_name(text, find_content(text, at), name)
}

fn has_bare_name(text: &Vec<char>, at: usize) -> (r: bool)
    requires
        opens_tag(text@, at as int),
    ensures
        r == is_bare(text@, at as int),
{
    let content = find_content(text, at);
    let end = content + measure_name(text, content);
    read_parts(text, end) == end
}

fn find_block(text: &Vec<char>, at: usize) -> (r: Option<Block>)
    requires
        opens_tag(text@, at as int),
    ensures
        r == block_at(text@, at as int),
{
    if has_tag_name(text, at, "comment") {
        if has_bare_name(text, at) {
            Some(Block::Comment)
        } else {
            None
        }
    } else if has_tag_name(text, at, "if") {
        Some(Block::If)
    } else if has_tag_name(text, at, "unless") {
        Some(Block::Unless)
    } else if has_tag_name(text, at, "ifchanged") {
        Some(Block::IfChanged)
    } else if has_tag_name(text, at, "for") {
        Some(Block::For)
    } else if has_tag_name(text, at, "tablerow") {
        Some(Block::TableRow)
    } else if has_tag_name(text, at, "capture") {
        Some(Block::Capture)
    } else if has_tag_name(text, at, "case") {
        Some(Block::Case)
    } else {
        None
    }
}

fn name_of_end(block: Block) -> (r: &'static str)
    ensures
        r@ == end_name(block),
{
    match block {
        Block::Comment => "endcomment",
        Block::If => "endif",
        Block::Unless => "endunless",
        Block::IfChanged => "endifchanged",
        Block::For => "endfor",
        Block::TableRow => "endtablerow",
        Block::Capture => "endcapture",
        Block::Case => "endcase",
    }
}

fn pass_tag(text: &Vec<char>, at: usize, open: &mut Vec<Block>)
    requires
        opens_tag(text@, at as int),
    ensures
        final(open)@ == open_behind(text@, at as int, old(open)@),
{
    if open.len() > 0 && has_tag_name(text, at, name_of_end(open[open.len() - 1])) {
        open.pop();
    } else {
        match find_block(text, at) {
            Some(block) => {
                open.push(block);
            },
            None => {},
        }
    }
}

fn holds_comment(open: &Vec<Block>) -> (r: bool)
    ensures
        r == is_commented(open@),
{
    for i in 0..open.len()
        invariant
            forall|j: int| 0 <= j < i ==> open@[j] != Block::Comment,
    {
        if open[i] == Block::Comment {
            return true;
        }
    }
    false
}

fn ends_in_comment(open: &Vec<Block>) -> (r: bool)
    ensures
        r == is_comment_innermost(open@),
{
    open.len() > 0 && open[open.len() - 1] == Block::Comment
}

fn can_end(open: &Vec<Block>, unread: bool) -> (r: bool)
    ensures
        r == may_end(open@, unread),
{
    if unread {
        return !holds_comment(open);
    }
    let mut commented = false;
    for i in 0..open.len()
        invariant
            commented == exists|j: int| 0 <= j < i && open@[j] == Block::Comment,
            forall|j: int, k: int|
                0 <= j < k < i && open@[j] == Block::Comment ==> open@[k] == Block::Comment,
    {
        if open[i] == Block::Comment {
            commented = true;
        } else if commented {
            return false;
        }
    }
    true
}

fn find_start(text: &Vec<char>, at: usize) -> (r: usize)
    requires
        at <= text@.len(),
    ensures
        r == tag_start(text@, at as nat),
        at <= r <= text@.len(),
{
    let start = skip_spaces(text, at);
    if begins_tag(text, start) && is_ahead(text, start + 1, '-') {
        start
    } else {
        at
    }
}

fn measure_width(c: char) -> (r: usize)
    ensures
        r == width(c),
{
    let n = c as u32;
    if n <= 0x7f {
        1
    } else if n <= 0x7ff {
        2
    } else if n <= 0xffff {
        3
    } else {
        4
    }
}

fn find_line_start(text: &Vec<char>, at: usize) -> (r: usize)
    requires
        at <= text@.len(),
    ensures
        r == line_start(text@, at as nat),
        r <= at,
{
    let mut start = at;
    while start > 0 && text[start - 1] != '\n'
        invariant
            start <= at <= text@.len(),
            line_start(text@, at as nat) == line_start(text@, start as nat),
        decreases start,
    {
        start -= 1;
    }
    start
}

fn find_bytes_end(text: &Vec<char>, from: usize, bytes: usize) -> (r: usize)
    requires
        from <= text@.len(),
    ensures
        r == bytes_end(text@, from as nat, bytes as nat),
        from <= r <= text@.len(),
{
    let mut at = from;
    let mut left = bytes;
    while at < text.len() && measure_width(text[at]) <= left
        invariant
            from <= at <= text@.len(),
            bytes_end(text@, from as nat, bytes as nat) == bytes_end(text@, at as nat, left as nat),
        decreases text@.len() - at,
    {
        left -= measure_width(text[at]);
        at += 1;
    }
    at
}

fn check_through(text: &Vec<char>) -> (r: bool)
    ensures
        r == reads_through(text@, 0),
{
    let mut at: usize = 0;
    while at < text.len()
        invariant
            at <= text@.len(),
            reads_through(text@, 0) == reads_through(text@, at as nat),
        decreases text@.len() - at,
    {
        let start = find_start(text, at);
        if !begins_tag(text, start) {
            at += 1;
        } else {
            match read_tag(text, start) {
                Some(end) => {
                    at = end;
                },
                None => {
                    return false;
                },
            }
        }
    }
    true
}

fn check_ambiguous(text: &Vec<char>, at: usize) -> (r: bool)
    requires
        at <= text@.len(),
    ensures
        r == is_ambiguous(text@, at as nat),
{
    let start = find_line_start(text, at);
    let end = find_bytes_end(text, start, at - start);
    let mut again: Vec<char> = Vec::new();
    for i in start..end
        invariant
            start <= end <= text@.len(),
            again@ == text@.subrange(start as int, i as int),
    {
        again.push(text[i]);
        assert(again@ =~= text@.subrange(start as int, i + 1));
    }
    let ghost line = text@.subrange(start as int, end as int);
    for i in at..text.len()
        invariant
            at <= text@.len(),
            again@ == line + text@.subrange(at as int, i as int),
    {
        again.push(text[i]);
        assert(again@ =~= line + text@.subrange(at as int, i + 1));
    }
    assert(again@ =~= second_reading(text@, at as nat));
    check_through(&again)
}

fn find_plain_end(text: &Vec<char>, at: usize) -> (r: Option<usize>)
    requires
        at <= text@.len(),
    ensures
        match r {
            Some(end) => plain_end(text@, at as nat) == Some(end as nat) && at < end <= text@.len(),
            None => plain_end(text@, at as nat) is None,
        },
{
    match (read_value(text, at), read_chain(text, at)) {
        (Some(end), Some(chain)) => if end == chain {
            Some(end)
        } else {
            None
        },
        _ => None,
    }
}

fn has_plain_value(text: &Vec<char>, at: usize) -> (r: bool)
    requires
        at <= text@.len(),
    ensures
        r == is_plain_value(text@, at as nat),
{
    match find_plain_end(text, at) {
        Some(end) => read_parts(text, end) == end,
        None => false,
    }
}

fn check_beginning(text: &Vec<char>, at: usize) -> (r: bool)
    requires
        opens_tag(text@, at as int),
    ensures
        r == begins_plainly(text@, at as int),
{
    let content = find_content(text, at);
    let name = measure_name(text, content);
    let first = skip_spaces(text, content + name);
    if !has_tag_name(text, at, "for") {
        return (has_tag_name(text, at, "if") || has_tag_name(text, at, "unless"))
            && has_plain_value(text, first);
    }
    let name = measure_name(text, first);
    let word = skip_spaces(text, first + name);
    let next = measure_name(text, word);
    let last = skip_spaces(text, word + next);
    let named = match find_plain_end(text, first) {
        Some(end) => end == first + name,
        None => false,
    };
    measure_literal(text, first) == 0 && name > 0 && named && has_name(text, word, "in")
        && has_plain_value(text, last)
}

fn check_certain(text: &Vec<char>, at: usize, open: &Vec<Block>) -> (r: bool)
    requires
        opens_tag(text@, at as int),
    ensures
        r == is_certain(text@, at as int, open@),
{
    let n = text.len();
    if text[at + 1] == '{' {
        ends_in_comment(open) || find_plain_end(text, find_content(text, at)).is_some()
    } else if has_tag_name(text, at, "comment") || (open.len() > 0 && has_tag_name(
        text,
        at,
        name_of_end(open[open.len() - 1]),
    )) {
        has_bare_name(text, at)
    } else if find_block(text, at).is_some() {
        check_beginning(text, at)
    } else {
        ends_in_comment(open) || (has_tag_name(text, at, "raw") && has_bare_name(text, at))
    }
}

/// Places as natural numbers.
pub open spec fn naturals(places: Seq<usize>) -> Seq<nat> {
    places.map(|_i, place: usize| place as nat)
}

/// Some places, and behind them others.
pub open spec fn all_before(places: Seq<nat>, more: Option<Seq<nat>>) -> Option<Seq<nat>> {
    match more {
        Some(more) => Some(places + more),
        None => None,
    }
}

proof fn lemma_one_more(places: Seq<usize>, place: usize, more: Option<Seq<nat>>)
    ensures
        all_before(naturals(places), before(place as nat, more)) == all_before(
            naturals(places.push(place)),
            more,
        ),
{
    assert(naturals(places.push(place)) =~= naturals(places).push(place as nat));
    match more {
        Some(more) => {
            assert(naturals(places) + (seq![place as nat] + more) =~= naturals(places.push(place))
                + more);
        },
        None => {},
    }
}

/// Where the tags of a template begin that `liquid` reads.
#[verifier::rlimit(60)]
pub(crate) fn find_tags(text: &Vec<char>) -> (r: Option<Vec<usize>>)
    ensures
        match r {
            Some(places) => tags_read(text@, 0, seq![], false) == Some(naturals(places@)) && forall|
                i: int,
            |
                0 <= i < places@.len() ==> opens_tag(text@, #[trigger] places@[i] as int),
            None => tags_read(text@, 0, seq![], false) is None,
        },
{
    let n = text.len();
    let mut at: usize = 0;
    let mut open: Vec<Block> = Vec::new();
    let mut unread = false;
    let mut places: Vec<usize> = Vec::new();
    proof {
        assert(open@ =~= seq![]);
        assert(naturals(places@) =~= seq![]);
        assert(tags_read(text@, 0, seq![], false) =~= all_before(
            naturals(places@),
            tags_read(text@, 0, open@, false),
        )) by {
            match tags_read(text@, 0, open@, false) {
                Some(more) => {
                    assert(naturals(places@) + more =~= more);
                },
                None => {},
            }
        }
    }
    loop
        invariant
            n == text@.len(),
            at <= n,
            tags_read(text@, 0, seq![], false) == all_before(
                naturals(places@),
                tags_read(text@, at as nat, open@, unread),
            ),
            forall|i: int|
                0 <= i < places@.len() ==> opens_tag(text@, #[trigger] places@[i] as int),
        decreases n - at,
    {
        proof {
            assert(naturals(places@) + seq![] =~= naturals(places@));
        }
        if open.len() > MAX_BLOCKS {
            return None;
        }
        if at == n {
            return if can_end(&open, unread) {
                Some(places)
            } else {
                None
            };
        }
        let start = find_start(text, at);
        if !begins_tag(text, start) {
            at += 1;
            continue;
        }
        match read_tag(text, start) {
            Some(end) => {
                if unread {
                    unread = !(has_tag_name(text, start, "endraw") && has_bare_name(text, start));
                } else if holds_comment(&open) && !check_certain(text, start, &open) {
                    return None;
                } else if text[start + 1] == '{' && ends_in_comment(&open) {
                } else {
                    let ghost earlier = places@;
                    places.push(start);
                    if text[start + 1] != '{' {
                        pass_tag(text, start, &mut open);
                        unread = has_tag_name(text, start, "raw") && has_bare_name(text, start);
                    }
                    proof {
                        lemma_one_more(
                            earlier,
                            start,
                            tags_read(text@, end as nat, open@, unread),
                        );
                    }
                }
                at = end;
            },
            None => {
                if unread || ends_in_comment(&open) {
                    at += 1;
                } else if holds_comment(&open) || check_ambiguous(text, at) {
                    return None;
                } else {
                    return Some(places);
                }
            },
        }
    }
}

pub(crate) fn measure_piece(text: &Vec<char>, at: usize) -> (r: usize)
    requires
        at < text@.len(),
    ensures
        r == piece_at(text@, at as nat),
        0 < r,
        at + r <= text@.len(),
{
    let literal = measure_literal(text, at);
    if literal > 0 {
        return literal;
    }
    let name = measure_name(text, at);
    if name > 0 {
        return name;
    }
    if text[at] == '.' {
        1 + measure_name(text, at + 1)
    } else {
        1
    }
}

fn check_indexes(text: &Vec<char>, from: usize) -> (r: bool)
    requires
        from <= text@.len(),
    ensures
        r == indexes_nest(text@, from as nat, 0),
{
    let n = text.len();
    let mut at = from;
    let mut open: usize = 0;
    while at < n
        invariant
            n == text@.len(),
            at <= n,
            open <= MAX_INDEXES,
            indexes_nest(text@, from as nat, 0) == indexes_nest(text@, at as nat, open as nat),
        decreases n - at,
    {
        let c = text[at];
        if ends_tag(text, at) || c == '{' {
            return true;
        }
        if c == '"' || c == '\'' {
            let end = at + 1 + count_unquoted(text, at + 1, c);
            if end == n {
                assert(indexes_nest(text@, end as nat + 1, open as nat));
                return true;
            }
            at = end + 1;
        } else {
            if c == '[' {
                if open >= MAX_INDEXES {
                    return false;
                }
                open += 1;
            } else if c == ']' && open > 0 {
                open -= 1;
            }
            at += 1;
        }
    }
    true
}

fn check_every_index(text: &Vec<char>) -> (r: bool)
    ensures
        r == forall|at: int| #[trigger]
            opens_tag(text@, at) ==> indexes_nest(text@, tag_inside(text@, at), 0),
{
    for i in 0..text.len()
        invariant
            forall|at: int|
                0 <= at < i && #[trigger] opens_tag(text@, at) ==> indexes_nest(
                    text@,
                    tag_inside(text@, at),
                    0,
                ),
    {
        if begins_tag(text, i) && !check_indexes(text, find_inside(text, i)) {
            return false;
        }
    }
    true
}

fn check_integers(text: &Vec<char>, from: usize) -> (r: bool)
    requires
        from <= text@.len(),
    ensures
        r == integers_fit(text@, from as nat),
{
    let mut at = from;
    while at < text.len()
        invariant
            at <= text@.len(),
            integers_fit(text@, from as nat) == integers_fit(text@, at as nat),
        decreases text@.len() - at,
    {
        if ends_tag(text, at) {
            return true;
        }
        let n = measure_integer(text, at);
        if n > 0 && measure_fraction(text, at + n) == 0 && measure_constant(text, at) == 0
            && parse_integer(string_of(text, at, at + n).as_str()).is_none() {
            return false;
        }
        at += measure_piece(text, at);
    }
    true
}

fn check_joins(text: &Vec<char>, from: usize) -> (r: bool)
    requires
        from <= text@.len(),
    ensures
        r == (joins(text@, from as nat) <= MAX_JOINS),
{
    let mut at = from;
    let mut count: usize = 0;
    while at < text.len() && !ends_tag(text, at)
        invariant
            at <= text@.len(),
            count <= MAX_JOINS,
            joins(text@, from as nat) == count + joins(text@, at as nat),
        decreases text@.len() - at,
    {
        if has_name(text, at, "and") || has_name(text, at, "or") {
            if count == MAX_JOINS {
                return false;
            }
            count += 1;
        }
        at += measure_piece(text, at);
    }
    true
}

proof fn lemma_elsifs_bound(text: Seq<char>, places: Seq<nat>, n: int)
    requires
        0 <= n <= places.len(),
    ensures
        elsifs(text, places.take(n)) <= elsifs(text, places),
    decreases places.len() - n,
{
    if n < places.len() {
        lemma_elsifs_bound(text, places, n + 1);
        assert(places.take(n + 1).drop_last() =~= places.take(n));
    } else {
        assert(places.take(n) =~= places);
    }
}

fn check_elsifs(text: &Vec<char>, places: &Vec<usize>) -> (r: bool)
    requires
        forall|i: int| 0 <= i < places@.len() ==> opens_tag(text@, #[trigger] places@[i] as int),
    ensures
        r == (elsifs(text@, naturals(places@)) <= MAX_ELSIFS),
{
    let mut count: usize = 0;
    for i in 0..places.len()
        invariant
            count <= MAX_ELSIFS,
            count == elsifs(text@, naturals(places@).take(i as int)),
            forall|i: int|
                0 <= i < places@.len() ==> opens_tag(text@, #[trigger] places@[i] as int),
    {
        proof {
            let taken = naturals(places@).take(i + 1);
            assert(taken.drop_last() =~= naturals(places@).take(i as int));
            assert(taken.last() == places@[i as int]);
            lemma_elsifs_bound(text@, naturals(places@), i + 1);
        }
        if has_tag_name(text, places[i], "elsif") {
            if count == MAX_ELSIFS {
                return false;
            }
            count += 1;
        }
    }
    proof {
        assert(naturals(places@).take(places@.len() as int) =~= naturals(places@));
    }
    true
}

fn check_each_tag(text: &Vec<char>, places: &Vec<usize>) -> (r: bool)
    requires
        forall|i: int| 0 <= i < places@.len() ==> opens_tag(text@, #[trigger] places@[i] as int),
    ensures
        r == forall|i: int|
            0 <= i < places@.len() ==> #[trigger] is_bounded(text@, naturals(places@)[i]),
{
    let ghost found = naturals(places@);
    for i in 0..places.len()
        invariant
            found == naturals(places@),
            forall|i: int|
                0 <= i < places@.len() ==> opens_tag(text@, #[trigger] places@[i] as int),
            forall|j: int| 0 <= j < i ==> #[trigger] is_bounded(text@, found[j]),
    {
        let inside = find_inside(text, places[i]);
        let bounded = check_integers(text, inside) && check_joins(text, inside);
        assert(bounded == is_bounded(text@, found[i as int]));
        if !bounded {
            return false;
        }
    }
    true
}

/// Whether `liquid` can try to parse a template.
pub fn is_triable(template: &Vec<char>) -> (r: bool)
    ensures
        r == can_try(template@),
{
    if !check_every_index(template) {
        return false;
    }
    let places = match find_tags(template) {
        Some(places) => places,
        None => {
            return false;
        },
    };
    check_each_tag(template, &places) && check_elsifs(template, &places)
}

} // verus!
