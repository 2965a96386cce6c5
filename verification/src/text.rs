//! Text: the string operations that the rest of the library is stated over.
//!
//! A string is modelled by the sequence of its characters.
use vstd::prelude::*;
use vstd::string::*;
use vstd::utf8::*;

verus! {

// ---------------------------------------------------------------------------
// Models
// ---------------------------------------------------------------------------

/// A character with the Unicode property `White_Space`.
pub open spec fn is_white_space(c: char) -> bool {
    let n = c as u32;
    ||| 0x09 <= n <= 0x0d
    ||| n == 0x20
    ||| n == 0x85
    ||| n == 0xa0
    ||| n == 0x1680
    ||| 0x2000 <= n <= 0x200a
    ||| n == 0x2028
    ||| n == 0x2029
    ||| n == 0x202f
    ||| n == 0x205f
    ||| n == 0x3000
}

/// `s` without its leading white space.
pub open spec fn trimmed_start(s: Seq<char>) -> Seq<char>
    decreases s.len(),
{
    if s.len() > 0 && is_white_space(s.first()) {
        trimmed_start(s.drop_first())
    } else {
        s
    }
}

/// `s` without its trailing white space.
pub open spec fn trimmed_end(s: Seq<char>) -> Seq<char>
    decreases s.len(),
{
    if s.len() > 0 && is_white_space(s.last()) {
        trimmed_end(s.drop_last())
    } else {
        s
    }
}

/// `s` without leading and trailing white space.
pub open spec fn trimmed(s: Seq<char>) -> Seq<char> {
    trimmed_end(trimmed_start(s))
}

/// `s` holds nothing but white space.
pub open spec fn is_blank(s: Seq<char>) -> bool {
    trimmed(s).len() == 0
}

/// What `str::to_lowercase` makes of `s`.
pub uninterp spec fn unicode_lowercase(s: Seq<char>) -> Seq<char>;

/// What `String::from_utf8_lossy` makes of bytes.
pub uninterp spec fn utf8_lossy(bytes: Seq<u8>) -> Seq<char>;

/// The lower-case letter of an ASCII capital; every other character itself.
pub open spec fn ascii_lower(c: char) -> char {
    if 'A' <= c <= 'Z' {
        (c as u32 + 32) as char
    } else {
        c
    }
}

/// `s` with its ASCII capitals in lower case.
pub open spec fn ascii_lowercase(s: Seq<char>) -> Seq<char> {
    s.map_values(|c: char| ascii_lower(c))
}

/// The character of a decimal digit.
pub open spec fn digit(n: nat) -> char {
    (('0' as u32) + n) as char
}

/// The decimal digits of `n`, without leading zeros.
pub open spec fn decimal(n: nat) -> Seq<char>
    decreases n,
{
    if n < 10 {
        seq![digit(n)]
    } else {
        decimal(n / 10).push(digit(n % 10))
    }
}

/// Every character of `s` is a decimal digit.
pub open spec fn all_digits(s: Seq<char>) -> bool {
    forall|i: int| 0 <= i < s.len() ==> '0' <= #[trigger] s[i] <= '9'
}

/// The number that a run of decimal digits spells.
pub open spec fn digits_value(s: Seq<char>) -> nat
    decreases s.len(),
{
    if s.len() == 0 {
        0
    } else {
        digits_value(s.drop_last()) * 10 + (s.last() as u32 - '0' as u32) as nat
    }
}

/// The integer that `s` spells: an optional sign, then decimal digits and nothing else.
pub open spec fn integer_literal(s: Seq<char>) -> Option<int> {
    let signed = s.len() > 0 && (s[0] == '-' || s[0] == '+');
    let digits = if signed {
        s.drop_first()
    } else {
        s
    };
    if digits.len() == 0 || !all_digits(digits) {
        None
    } else if s[0] == '-' {
        Some(-digits_value(digits))
    } else {
        Some(digits_value(digits) as int)
    }
}

/// The 64-bit integer that `s` spells, where it spells one.
pub open spec fn i64_literal(s: Seq<char>) -> Option<i64> {
    match integer_literal(s) {
        Some(n) => if i64::MIN <= n <= i64::MAX {
            Some(n as i64)
        } else {
            None
        },
        None => None,
    }
}

/// `a` comes before `b` in the order of their code points.
pub open spec fn precedes(a: Seq<char>, b: Seq<char>) -> bool
    decreases a.len(),
{
    if b.len() == 0 {
        false
    } else if a.len() == 0 {
        true
    } else if a[0] != b[0] {
        a[0] < b[0]
    } else {
        precedes(a.drop_first(), b.drop_first())
    }
}

/// `s` with every carriage return that a line feed follows taken out.
pub open spec fn unix_newlines(s: Seq<char>) -> Seq<char>
    decreases s.len(),
{
    if s.len() == 0 {
        s
    } else if s.len() >= 2 && s[0] == '\r' && s[1] == '\n' {
        seq!['\n'] + unix_newlines(s.skip(2))
    } else {
        seq![s[0]] + unix_newlines(s.skip(1))
    }
}

/// `pattern` occurs in `s` at position `i`.
pub open spec fn occurs_at(s: Seq<char>, pattern: Seq<char>, i: int) -> bool {
    0 <= i && i + pattern.len() <= s.len() && s.subrange(i, i + pattern.len()) == pattern
}

/// `i` is the first position at which `pattern` occurs in `s`.
pub open spec fn is_first_occurrence(s: Seq<char>, pattern: Seq<char>, i: int) -> bool {
    occurs_at(s, pattern, i) && forall|j: int| 0 <= j < i ==> !#[trigger] occurs_at(s, pattern, j)
}

/// `pattern` occurs nowhere in `s`.
pub open spec fn is_absent(s: Seq<char>, pattern: Seq<char>) -> bool {
    forall|j: int| !#[trigger] occurs_at(s, pattern, j)
}

/// The first position at which `pattern` occurs in `s`, where there is one.
pub open spec fn first_occurrence(s: Seq<char>, pattern: Seq<char>) -> Option<int> {
    if is_absent(s, pattern) {
        None
    } else {
        Some(choose|i: int| is_first_occurrence(s, pattern, i))
    }
}

/// The length of the part of `s` before the first `c`, of all of `s` where there is none.
pub open spec fn length_before(s: Seq<char>, c: char) -> nat
    decreases s.len(),
{
    if s.len() == 0 || s[0] == c {
        0
    } else {
        1 + length_before(s.drop_first(), c)
    }
}

/// The items of a comma-separated list: what stands between the commas, without surrounding
/// white space, leaving out what is then empty.
pub open spec fn list_items(s: Seq<char>) -> Seq<Seq<char>>
    decreases s.len(),
    via list_items_decreases
{
    let n = length_before(s, ',') as int;
    let item = trimmed(s.take(n));
    let rest = if n < s.len() {
        list_items(s.skip(n + 1))
    } else {
        Seq::empty()
    };
    if item.len() == 0 {
        rest
    } else {
        seq![item] + rest
    }
}

#[via_fn]
proof fn list_items_decreases(s: Seq<char>) {
    lemma_length_before(s, ',');
}

/// The characters whose encoding is the first `n` bytes of the UTF-8 encoding of `s`.
pub open spec fn byte_head(s: Seq<char>, n: int) -> Seq<char> {
    decode_utf8(encode_utf8(s).subrange(0, n))
}

/// `s` can be cut after `n` bytes of its UTF-8 encoding, or is not longer than that.
pub open spec fn can_cut(s: Seq<char>, n: int) -> bool {
    encode_utf8(s).len() > n ==> is_char_boundary(encode_utf8(s), n)
}

/// `s`, or its first `n` bytes and three dots where it is longer.
pub open spec fn shortened(s: Seq<char>, n: int) -> Seq<char> {
    if encode_utf8(s).len() > n {
        byte_head(s, n) + "..."@
    } else {
        s
    }
}

// ---------------------------------------------------------------------------
// Operations of the standard library
// ---------------------------------------------------------------------------

/// `String::push` appends one character.
pub assume_specification[ std::string::String::push ](s: &mut std::string::String, c: char)
    ensures
        final(s)@ == old(s)@.push(c),
;

/// `==` on string slices compares their characters.
#[verifier::external_body]
pub(crate) fn str_eq(a: &str, b: &str) -> (r: bool)
    ensures
        r == (a@ == b@),
{
    a == b
}

/// `str::trim` takes leading and trailing white space away.
#[verifier::external_body]
pub(crate) fn trim(s: &str) -> (r: &str)
    ensures
        r@ == trimmed(s@),
{
    s.trim()
}

/// `str::to_lowercase` is a function of the text; on ASCII text it puts each capital in lower
/// case and leaves the rest.
#[verifier::external_body]
pub(crate) fn to_lowercase(s: &str) -> (r: String)
    ensures
        r@ == unicode_lowercase(s@),
        is_ascii_chars(s@) ==> r@ == ascii_lowercase(s@),
{
    s.to_lowercase()
}

/// `str::parse::<i64>` reads an optional sign and decimal digits, and nothing else, in range.
#[verifier::external_body]
pub(crate) fn parse_integer(s: &str) -> (r: Option<i64>)
    ensures
        r == i64_literal(s@),
{
    s.parse::<i64>().ok()
}

/// `u64::to_string` writes the decimal digits.
#[verifier::external_body]
pub(crate) fn decimal_text(n: u64) -> (r: String)
    ensures
        r@ == decimal(n as nat),
{
    n.to_string()
}

/// `String::from_utf8_lossy` is a function of the bytes; valid UTF-8 it decodes.
#[verifier::external_body]
pub(crate) fn from_utf8_lossy(bytes: &Vec<u8>) -> (r: String)
    ensures
        r@ == utf8_lossy(bytes@),
        valid_utf8(bytes@) ==> r@ == decode_utf8(bytes@),
{
    String::from_utf8_lossy(bytes).into_owned()
}

// ---------------------------------------------------------------------------
// Functions
// ---------------------------------------------------------------------------

/// The characters of a string.
pub fn chars_of(s: &str) -> (r: Vec<char>)
    ensures
        r@ == s@,
{
    let mut r: Vec<char> = Vec::new();
    for c in it: s.chars()
        invariant
            r@ == it.seq().take(it.index() as int),
            it.seq() == s@,
    {
        r.push(c);
    }
    r
}

/// The string of the characters from position `from` up to position `to`.
pub fn string_of(chars: &Vec<char>, from: usize, to: usize) -> (r: String)
    requires
        from <= to <= chars@.len(),
    ensures
        r@ == chars@.subrange(from as int, to as int),
{
    let mut r = String::new();
    for i in from..to
        invariant
            from <= i <= to <= chars@.len(),
            r@ == chars@.subrange(from as int, i as int),
    {
        r.push(chars[i]);
    }
    r
}

/// Whether a character has the Unicode property `White_Space`.
pub fn char_is_white_space(c: char) -> (r: bool)
    ensures
        r == is_white_space(c),
{
    let n: u32 = c as u32;
    (0x09 <= n && n <= 0x0d) || n == 0x20 || n == 0x85 || n == 0xa0 || n == 0x1680 || (0x2000 <= n
        && n <= 0x200a) || n == 0x2028 || n == 0x2029 || n == 0x202f || n == 0x205f || n == 0x3000
}

/// Whether a string holds nothing but white space.
pub fn is_blank_text(s: &str) -> (r: bool)
    ensures
        r == is_blank(s@),
{
    trim(s).is_empty()
}

/// The lower-case letter of an ASCII capital; every other character itself.
fn lower_ascii_char(c: char) -> (r: char)
    ensures
        r == ascii_lower(c),
{
    if 'A' <= c && c <= 'Z' {
        ((c as u8) + 32) as char
    } else {
        c
    }
}

/// Whether two strings differ at most in the case of ASCII letters.
pub fn eq_ignore_ascii_case(a: &str, b: &str) -> (r: bool)
    ensures
        r == (ascii_lowercase(a@) == ascii_lowercase(b@)),
{
    let left = chars_of(a);
    let right = chars_of(b);
    if left.len() != right.len() {
        assert(ascii_lowercase(a@).len() != ascii_lowercase(b@).len());
        return false;
    }
    for i in 0..left.len()
        invariant
            left@ == a@,
            right@ == b@,
            left@.len() == right@.len(),
            forall|j: int|
                0 <= j < i ==> ascii_lowercase(a@)[j] == ascii_lowercase(b@)[j],
    {
        if lower_ascii_char(left[i]) != lower_ascii_char(right[i]) {
            assert(ascii_lowercase(a@)[i as int] != ascii_lowercase(b@)[i as int]);
            return false;
        }
    }
    assert(ascii_lowercase(a@) =~= ascii_lowercase(b@));
    true
}

/// Whether `a` comes before `b` in the order of their code points.
pub fn comes_before(a: &str, b: &str) -> (r: bool)
    ensures
        r == precedes(a@, b@),
{
    let left = chars_of(a);
    let right = chars_of(b);
    let mut i: usize = 0;
    assert(a@.skip(0) =~= a@);
    assert(b@.skip(0) =~= b@);
    while i < left.len() && i < right.len()
        invariant
            left@ == a@,
            right@ == b@,
            i <= left@.len(),
            i <= right@.len(),
            precedes(a@, b@) == precedes(a@.skip(i as int), b@.skip(i as int)),
        decreases left@.len() - i,
    {
        assert(a@.skip(i as int)[0] == a@[i as int]);
        assert(b@.skip(i as int)[0] == b@[i as int]);
        if left[i] != right[i] {
            return left[i] < right[i];
        }
        assert(a@.skip(i as int).drop_first() =~= a@.skip(i + 1));
        assert(b@.skip(i as int).drop_first() =~= b@.skip(i + 1));
        i += 1;
    }
    i < right.len()
}

/// Whether a text begins with another.
pub fn begins_with(s: &Vec<char>, prefix: &Vec<char>) -> (r: bool)
    ensures
        r == prefix@.is_prefix_of(s@),
{
    if prefix.len() > s.len() {
        return false;
    }
    for i in 0..prefix.len()
        invariant
            prefix@.len() <= s@.len(),
            forall|j: int| 0 <= j < i ==> prefix@[j] == s@[j],
    {
        if prefix[i] != s[i] {
            assert(prefix@[i as int] != s@.subrange(0, prefix@.len() as int)[i as int]);
            return false;
        }
    }
    assert(prefix@ =~= s@.subrange(0, prefix@.len() as int));
    true
}

/// The first position of a pattern in a text.
pub fn find_text(s: &Vec<char>, pattern: &Vec<char>) -> (r: Option<usize>)
    ensures
        match r {
            Some(i) => is_first_occurrence(s@, pattern@, i as int) && first_occurrence(s@, pattern@)
                == Some(i as int),
            None => first_occurrence(s@, pattern@) is None,
        },
{
    if pattern.len() > s.len() {
        return None;
    }
    let length = s.len();
    let last = length - pattern.len();
    let mut i: usize = 0;
    loop
        invariant
            length == s@.len(),
            last == s@.len() - pattern@.len(),
            i <= last,
            last <= s@.len(),
            forall|j: int| 0 <= j < i ==> !#[trigger] occurs_at(s@, pattern@, j),
        decreases last - i,
    {
        let mut k: usize = 0;
        while k < pattern.len() && pattern[k] == s[i + k]
            invariant
                length == s@.len(),
                last == s@.len() - pattern@.len(),
                i <= last,
                k <= pattern@.len(),
                forall|j: int| 0 <= j < k ==> pattern@[j] == s@[i + j],
            decreases pattern@.len() - k,
        {
            k += 1;
        }
        if k == pattern.len() {
            proof {
                assert(s@.subrange(i as int, i + pattern@.len()) =~= pattern@);
                assert(occurs_at(s@, pattern@, i as int));
                assert(is_first_occurrence(s@, pattern@, i as int));
                lemma_first_occurrence(s@, pattern@, i as int);
            }
            return Some(i);
        }
        assert(!occurs_at(s@, pattern@, i as int)) by {
            if occurs_at(s@, pattern@, i as int) {
                assert(s@.subrange(i as int, i + pattern@.len())[k as int] == s@[i + k]);
            }
        }
        if i == last {
            assert forall|j: int| !#[trigger] occurs_at(s@, pattern@, j) by {}
            return None;
        }
        i += 1;
    }
}

/// A text with every carriage return that a line feed follows taken out.
pub fn with_unix_newlines(s: &Vec<char>) -> (r: Vec<char>)
    ensures
        r@ == unix_newlines(s@),
{
    let mut r: Vec<char> = Vec::new();
    let mut i: usize = 0;
    assert(s@.skip(0) =~= s@);
    while i < s.len()
        invariant
            i <= s@.len(),
            unix_newlines(s@) == r@ + unix_newlines(s@.skip(i as int)),
        decreases s@.len() - i,
    {
        let ghost rest = s@.skip(i as int);
        if s[i] == '\r' && i + 1 < s.len() && s[i + 1] == '\n' {
            assert(rest.skip(2) =~= s@.skip(i + 2));
            assert(r@ + (seq!['\n'] + unix_newlines(s@.skip(i + 2))) =~= r@.push('\n')
                + unix_newlines(s@.skip(i + 2)));
            r.push('\n');
            i += 2;
        } else {
            let c = s[i];
            assert(rest.skip(1) =~= s@.skip(i + 1));
            assert(r@ + (seq![c] + unix_newlines(s@.skip(i + 1))) =~= r@.push(c) + unix_newlines(
                s@.skip(i + 1),
            ));
            r.push(c);
            i += 1;
        }
    }
    assert(s@.skip(i as int).len() == 0);
    assert(r@ + unix_newlines(s@.skip(i as int)) =~= r@);
    r
}

/// The items of a comma-separated list.
pub fn split_list(s: &str) -> (r: Vec<String>)
    ensures
        r.deep_view() == list_items(s@),
{
    let chars = chars_of(s);
    let mut r: Vec<String> = Vec::new();
    let mut start: usize = 0;
    assert(s@.skip(0) =~= s@);
    assert(r.deep_view() + list_items(s@) =~= list_items(s@));
    loop
        invariant
            chars@ == s@,
            start <= s@.len(),
            list_items(s@) == r.deep_view() + list_items(s@.skip(start as int)),
        decreases s@.len() - start,
    {
        let ghost rest = s@.skip(start as int);
        let mut end: usize = start;
        while end < chars.len() && chars[end] != ','
            invariant
                chars@ == s@,
                start <= end <= s@.len(),
                rest == s@.skip(start as int),
                length_before(rest, ',') == end - start + length_before(s@.skip(end as int), ','),
            decreases s@.len() - end,
        {
            assert(s@.skip(end as int).drop_first() =~= s@.skip(end + 1));
            end += 1;
        }
        assert(length_before(rest, ',') == end - start);
        let piece = string_of(&chars, start, end);
        assert(piece@ =~= rest.take(end - start));
        let item = trim(piece.as_str());
        let ghost before = r.deep_view();
        let ghost tail = if end - start < rest.len() {
            list_items(rest.skip(end - start + 1))
        } else {
            Seq::empty()
        };
        if !item.is_empty() {
            let kept = item.to_owned();
            r.push(kept);
            assert(r.deep_view() =~= before.push(item@));
            assert(before + (seq![item@] + tail) =~= r.deep_view() + tail);
        }
        assert(list_items(s@) == r.deep_view() + tail);
        if end == chars.len() {
            assert(r.deep_view() + tail =~= r.deep_view());
            return r;
        }
        assert(rest.skip(end - start + 1) =~= s@.skip(end + 1));
        start = end + 1;
    }
}

/// The first `n` bytes of a string that can be cut there.
pub fn first_bytes(s: &str, n: usize) -> (r: &str)
    requires
        encode_utf8(s@).len() > n,
        is_char_boundary(encode_utf8(s@), n as int),
    ensures
        r@ == byte_head(s@, n as int),
{
    let (head, _tail) = s.split_at(n);
    proof {
        encode_utf8_decode_utf8(head@);
    }
    head
}

/// The number of bytes of the UTF-8 encoding of a string.
fn byte_length(s: &str) -> (r: usize)
    ensures
        r == encode_utf8(s@).len(),
{
    s.as_bytes().len()
}

/// Whether a string can be cut after `n` bytes, or is not longer than that.
pub fn is_cuttable(s: &str, n: usize) -> (r: bool)
    ensures
        r == can_cut(s@, n as int),
{
    byte_length(s) <= n || s.is_char_boundary(n)
}

/// A string, or its first `n` bytes and three dots where it is longer.
pub fn shorten(s: &str, n: usize) -> (r: String)
    requires
        can_cut(s@, n as int),
    ensures
        r@ == shortened(s@, n as int),
{
    if byte_length(s) > n {
        let mut r = first_bytes(s, n).to_owned();
        r.append("...");
        r
    } else {
        s.to_owned()
    }
}

// ---------------------------------------------------------------------------
// Facts
// ---------------------------------------------------------------------------

/// The part before a separator is no longer than the text, ends at a separator or at the end,
/// and holds none.
pub proof fn lemma_length_before(s: Seq<char>, c: char)
    ensures
        length_before(s, c) <= s.len(),
        length_before(s, c) < s.len() ==> s[length_before(s, c) as int] == c,
        forall|i: int| 0 <= i < length_before(s, c) ==> s[i] != c,
    decreases s.len(),
{
    if s.len() != 0 && s[0] != c {
        lemma_length_before(s.drop_first(), c);
        assert forall|i: int| 0 <= i < length_before(s, c) implies s[i] != c by {
            if i > 0 {
                assert(s[i] == s.drop_first()[i - 1]);
            }
        }
    }
}

/// There is one first occurrence at most.
pub proof fn lemma_first_occurrence(s: Seq<char>, pattern: Seq<char>, i: int)
    requires
        is_first_occurrence(s, pattern, i),
    ensures
        first_occurrence(s, pattern) == Some(i),
{
    let other = choose|j: int| is_first_occurrence(s, pattern, j);
    assert(is_first_occurrence(s, pattern, other));
    assert(occurs_at(s, pattern, other));
}

/// Of two different texts exactly one comes before the other, and none comes before itself.
pub proof fn lemma_precedes_total(a: Seq<char>, b: Seq<char>)
    ensures
        a == b ==> !precedes(a, b),
        a != b ==> precedes(a, b) != precedes(b, a),
    decreases a.len(),
{
    if a.len() > 0 && b.len() > 0 {
        lemma_precedes_total(a.drop_first(), b.drop_first());
        if a[0] == b[0] {
            if a.drop_first() == b.drop_first() {
                assert(a =~= seq![a[0]] + a.drop_first());
                assert(b =~= seq![b[0]] + b.drop_first());
            }
        }
    } else if a.len() == 0 && b.len() == 0 {
        assert(a =~= b);
    }
}

/// The order of texts is transitive.
pub proof fn lemma_precedes_transitive(a: Seq<char>, b: Seq<char>, c: Seq<char>)
    requires
        precedes(a, b),
        precedes(b, c),
    ensures
        precedes(a, c),
    decreases a.len(),
{
    if a.len() > 0 && a[0] == b[0] && b[0] == c[0] {
        lemma_precedes_transitive(a.drop_first(), b.drop_first(), c.drop_first());
    }
}

} // verus!
