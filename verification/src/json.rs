//! JSON values, and the text that they are read from and written to.
use serde_json::Value;
use vstd::prelude::*;

use crate::text::str_eq;

verus! {

/// A number of `serde_json`; the library only carries it.
#[verifier::external_type_specification]
#[verifier::external_body]
pub struct ExNumber(serde_json::Number);

/// A value of `serde_json`, on its way from or to a [`Json`].
#[verifier::external_type_specification]
#[verifier::external_body]
pub struct ExValue(Value);

/// A JSON value.
///
/// An object may hold its members in any order; they are walked in the order of their keys. Where two
/// have the same key, the later one takes the place of the earlier.
#[derive(Debug, PartialEq)]
pub enum Json {
    Null,
    Bool(bool),
    /// An integer that is not negative.
    PosInt(u64),
    /// An integer below zero.
    NegInt(i64),
    /// A number that no 64-bit integer holds.
    Float(serde_json::Number),
    String(String),
    Array(Vec<Json>),
    Object(Vec<(String, Json)>),
}

/// The mathematical value of a [`Json`].
pub ghost enum JsonView {
    Null,
    Bool(bool),
    PosInt(u64),
    NegInt(i64),
    Float(serde_json::Number),
    String(Seq<char>),
    Array(Seq<JsonView>),
    Object(Seq<(Seq<char>, JsonView)>),
}

/// The value of a [`Json`].
pub open spec fn json_view(value: Json) -> JsonView
    decreases value,
{
    match value {
        Json::Null => JsonView::Null,
        Json::Bool(b) => JsonView::Bool(b),
        Json::PosInt(n) => JsonView::PosInt(n),
        Json::NegInt(n) => JsonView::NegInt(n),
        Json::Float(n) => JsonView::Float(n),
        Json::String(s) => JsonView::String(s@),
        Json::Array(items) => JsonView::Array(item_views(items@)),
        Json::Object(members) => JsonView::Object(member_views(members@)),
    }
}

/// The values of the items of an array.
pub open spec fn item_views(items: Seq<Json>) -> Seq<JsonView>
    decreases items,
{
    if items.len() == 0 {
        Seq::empty()
    } else {
        item_views(items.drop_last()).push(json_view(items.last()))
    }
}

/// The keys and values of the members of an object.
pub open spec fn member_views(members: Seq<(String, Json)>) -> Seq<(Seq<char>, JsonView)>
    decreases members,
{
    if members.len() == 0 {
        Seq::empty()
    } else {
        member_views(members.drop_last()).push(
            (members.last().0@, json_view(members.last().1)),
        )
    }
}

impl View for Json {
    type V = JsonView;

    open spec fn view(&self) -> JsonView {
        json_view(*self)
    }
}

/// The values of the items, position by position.
pub proof fn lemma_item_views(items: Seq<Json>)
    ensures
        item_views(items).len() == items.len(),
        forall|i: int| 0 <= i < items.len() ==> #[trigger] item_views(items)[i] == items[i]@,
    decreases items.len(),
{
    if items.len() > 0 {
        lemma_item_views(items.drop_last());
    }
}

/// The keys and values of the members, position by position.
pub proof fn lemma_member_views(members: Seq<(String, Json)>)
    ensures
        member_views(members).len() == members.len(),
        forall|i: int|
            0 <= i < members.len() ==> #[trigger] member_views(members)[i] == (
                members[i].0@,
                members[i].1@,
            ),
    decreases members.len(),
{
    if members.len() > 0 {
        lemma_member_views(members.drop_last());
    }
}

impl DeepView for Json {
    type V = JsonView;

    open spec fn deep_view(&self) -> JsonView {
        self@
    }
}

/// The value of a key: that of the last member with it.
pub open spec fn find_member(members: Seq<(Seq<char>, JsonView)>, key: Seq<char>) -> Option<
    JsonView,
>
    decreases members.len(),
{
    if members.len() == 0 {
        None
    } else if members.last().0 == key {
        Some(members.last().1)
    } else {
        find_member(members.drop_last(), key)
    }
}

/// A member is a part of the members that it is found in.
pub proof fn lemma_find_member(members: Seq<(Seq<char>, JsonView)>, key: Seq<char>)
    ensures
        find_member(members, key) matches Some(value) ==> exists|i: int|
            0 <= i < members.len() && (#[trigger] members[i]).0 == key && members[i].1 == value,
    decreases members.len(),
{
    if members.len() > 0 && members.last().0 != key {
        lemma_find_member(members.drop_last(), key);
        if let Some(value) = find_member(members, key) {
            let i = choose|i: int|
                0 <= i < members.drop_last().len() && (#[trigger] members.drop_last()[i]).0 == key
                    && members.drop_last()[i].1 == value;
            assert(members[i] == members.drop_last()[i]);
        }
    }
}

/// The first of some members has the key of a later one, which takes its place.
pub open spec fn is_replaced(members: Seq<(Seq<char>, JsonView)>) -> bool {
    exists|i: int| 1 <= i < members.len() && (#[trigger] members[i]).0 == members[0].0
}

impl JsonView {
    /// The member of an object.
    pub open spec fn member(self, key: Seq<char>) -> Option<JsonView> {
        match self {
            JsonView::Object(members) => find_member(members, key),
            _ => None,
        }
    }

    /// The value at the end of a path of object keys.
    pub open spec fn at(self, path: Seq<Seq<char>>) -> Option<JsonView>
        decreases path.len(),
    {
        if path.len() == 0 {
            Some(self)
        } else {
            match self.member(path[0]) {
                Some(next) => next.at(path.drop_first()),
                None => None,
            }
        }
    }

    /// The text of a string.
    pub open spec fn text(self) -> Option<Seq<char>> {
        match self {
            JsonView::String(s) => Some(s),
            _ => None,
        }
    }

    /// The value of a truth value.
    pub open spec fn truth(self) -> Option<bool> {
        match self {
            JsonView::Bool(b) => Some(b),
            _ => None,
        }
    }

    /// The value of an integer that is not negative.
    pub open spec fn unsigned(self) -> Option<u64> {
        match self {
            JsonView::PosInt(n) => Some(n),
            _ => None,
        }
    }

    /// The value of an integer that fits in 64 bits with a sign.
    pub open spec fn signed(self) -> Option<i64> {
        match self {
            JsonView::PosInt(n) => if n <= i64::MAX {
                Some(n as i64)
            } else {
                None
            },
            JsonView::NegInt(n) => Some(n),
            _ => None,
        }
    }

    /// The items of an array.
    pub open spec fn items(self) -> Option<Seq<JsonView>> {
        match self {
            JsonView::Array(items) => Some(items),
            _ => None,
        }
    }

    /// The text of a member that is a string.
    pub open spec fn member_text(self, key: Seq<char>) -> Option<Seq<char>> {
        match self.member(key) {
            Some(value) => value.text(),
            None => None,
        }
    }

    /// The text at the end of a path of object keys, where a string stands there.
    pub open spec fn text_at(self, path: Seq<Seq<char>>) -> Option<Seq<char>> {
        match self.at(path) {
            Some(value) => value.text(),
            None => None,
        }
    }
}

/// What `serde_json` reads from a text: a value, or the text of its error.
pub uninterp spec fn json_reading(text: Seq<char>) -> Result<JsonView, Seq<char>>;

/// What `serde_json` writes for a value, without white space between its parts.
pub uninterp spec fn json_rendering(value: JsonView) -> Seq<char>;

/// A value of `serde_json` as a [`Json`], part for part.
#[verifier::external_body]
pub(crate) fn from_outside(value: Value) -> Json {
    match value {
        Value::Null => Json::Null,
        Value::Bool(b) => Json::Bool(b),
        Value::Number(n) => match (n.as_u64(), n.as_i64()) {
            (Some(n), _) => Json::PosInt(n),
            (None, Some(n)) => Json::NegInt(n),
            (None, None) => Json::Float(n),
        },
        Value::String(s) => Json::String(s),
        Value::Array(items) => Json::Array(items.into_iter().map(from_outside).collect()),
        Value::Object(members) => Json::Object(
            members.into_iter().map(|(key, value)| (key, from_outside(value))).collect(),
        ),
    }
}

/// A [`Json`] as a value of `serde_json`, part for part.
#[verifier::external_body]
pub(crate) fn to_outside(value: &Json) -> Value {
    match value {
        Json::Null => Value::Null,
        Json::Bool(b) => Value::Bool(*b),
        Json::PosInt(n) => Value::from(*n),
        Json::NegInt(n) => Value::from(*n),
        Json::Float(n) => Value::Number(n.clone()),
        Json::String(s) => Value::String(s.clone()),
        Json::Array(items) => Value::Array(items.iter().map(to_outside).collect()),
        Json::Object(members) => Value::Object(
            members.iter().map(|(key, value)| (key.clone(), to_outside(value))).collect(),
        ),
    }
}

/// `serde_json::from_str` is a function of the text, in the value that it reads and in the text of
/// its error.
#[verifier::external_body]
pub(crate) fn read_json(text: &str) -> (r: Result<Json, String>)
    ensures
        match r {
            Ok(value) => json_reading(text@) == Ok::<JsonView, Seq<char>>(value@),
            Err(error) => json_reading(text@) == Err::<JsonView, Seq<char>>(error@),
        },
{
    serde_json::from_str::<Value>(text).map(from_outside).map_err(|error| error.to_string())
}

/// `serde_json::Value::to_string` is a function of the value. It writes `null` for null and for
/// nothing else, and it writes no line feed.
#[verifier::external_body]
pub(crate) fn render_json(value: &Json) -> (r: String)
    ensures
        r@ == json_rendering(value@),
        (r@ == "null"@) == (value@ is Null),
        !r@.contains('\n'),
{
    to_outside(value).to_string()
}

/// `serde_json::Number::clone` copies the number.
#[verifier::external_body]
pub(crate) fn copy_number(n: &serde_json::Number) -> (r: serde_json::Number)
    ensures
        r == *n,
{
    n.clone()
}

/// An array of values.
pub fn json_array(items: Vec<Json>) -> (r: Json)
    ensures
        r@ == JsonView::Array(items.deep_view()),
{
    let ghost views = items.deep_view();
    let r = Json::Array(items);
    proof {
        lemma_item_views(r->Array_0@);
        assert(r@->Array_0 =~= views);
    }
    r
}

/// An object with the given members.
pub fn json_object(members: Vec<(String, Json)>) -> (r: Json)
    ensures
        r@ == JsonView::Object(members.deep_view()),
{
    let ghost views = members.deep_view();
    let r = Json::Object(members);
    proof {
        lemma_member_views(r->Object_0@);
        assert(r@->Object_0 =~= views);
    }
    r
}

/// An object with one member.
pub fn json_object_of_one(key: &str, value: Json) -> (r: Json)
    ensures
        r@ == JsonView::Object(seq![(key@, value@)]),
{
    let ghost view = value@;
    let members = with_member(Vec::new(), key, value);
    proof {
        assert(members.deep_view() =~= seq![(key@, view)]);
    }
    json_object(members)
}

/// An object with two members.
pub fn json_object_of_two(key: &str, value: Json, other: &str, other_value: Json) -> (r: Json)
    ensures
        r@ == JsonView::Object(seq![(key@, value@), (other@, other_value@)]),
{
    let ghost view = value@;
    let ghost other_view = other_value@;
    let members = with_member(with_member(Vec::new(), key, value), other, other_value);
    proof {
        assert(members.deep_view() =~= seq![(key@, view), (other@, other_view)]);
    }
    json_object(members)
}

/// An array with one item.
pub fn json_array_of_one(value: Json) -> (r: Json)
    ensures
        r@ == JsonView::Array(seq![value@]),
{
    let ghost view = value@;
    let items = with_item(Vec::new(), value);
    proof {
        assert(items.deep_view() =~= seq![view]);
    }
    json_array(items)
}

/// A string.
pub fn json_string(text: &str) -> (r: Json)
    ensures
        r@ == JsonView::String(text@),
{
    Json::String(text.to_owned())
}

/// The members of an object under construction, with one more at the end.
pub fn with_member(members: Vec<(String, Json)>, key: &str, value: Json) -> (r: Vec<(String, Json)>)
    ensures
        r.deep_view() == members.deep_view().push((key@, value@)),
{
    let ghost before = members.deep_view();
    let mut r = members;
    r.push((key.to_owned(), value));
    proof {
        assert(r.deep_view() =~= before.push((key@, value@)));
    }
    r
}

/// Values, with one more at the end.
pub fn with_item(items: Vec<Json>, value: Json) -> (r: Vec<Json>)
    ensures
        r.deep_view() == items.deep_view().push(value@),
{
    let ghost before = items.deep_view();
    let mut r = items;
    r.push(value);
    proof {
        assert(r.deep_view() =~= before.push(value@));
    }
    r
}

/// The strings of a list as an array.
pub fn json_strings(texts: &Vec<String>) -> (r: Json)
    ensures
        r@ == JsonView::Array(texts.deep_view().map_values(|s: Seq<char>| JsonView::String(s))),
{
    let mut items: Vec<Json> = Vec::new();
    for i in 0..texts.len()
        invariant
            items@.len() == i,
            forall|j: int| 0 <= j < i ==> (#[trigger] items@[j])@ == JsonView::String(texts@[j]@),
    {
        items.push(json_string(texts[i].as_str()));
    }
    proof {
        assert(items.deep_view() =~= texts.deep_view().map_values(
            |s: Seq<char>| JsonView::String(s),
        ));
    }
    json_array(items)
}

/// A string, or null.
pub fn json_optional_string(text: &Option<String>) -> (r: Json)
    ensures
        r@ == optional_string_view(text.deep_view()),
{
    match text {
        Some(text) => json_string(text.as_str()),
        None => Json::Null,
    }
}

/// A string, or null.
pub open spec fn optional_string_view(text: Option<Seq<char>>) -> JsonView {
    match text {
        Some(text) => JsonView::String(text),
        None => JsonView::Null,
    }
}

impl Clone for Json {
    fn clone(&self) -> (r: Self)
        ensures
            r@ == self@,
        decreases self,
    {
        match self {
            Json::Null => Json::Null,
            Json::Bool(b) => Json::Bool(*b),
            Json::PosInt(n) => Json::PosInt(*n),
            Json::NegInt(n) => Json::NegInt(*n),
            Json::Float(n) => Json::Float(copy_number(n)),
            Json::String(s) => Json::String(s.clone()),
            Json::Array(items) => {
                let mut copy: Vec<Json> = Vec::new();
                for i in 0..items.len()
                    invariant
                        self matches Json::Array(own) && own == items,
                        copy@.len() == i,
                        forall|j: int| 0 <= j < i ==> (#[trigger] copy@[j])@ == items@[j]@,
                {
                    copy.push(items[i].clone());
                }
                let r = Json::Array(copy);
                proof {
                    lemma_item_views(r->Array_0@);
                    lemma_item_views(items@);
                    assert(r@->Array_0 =~= self@->Array_0);
                }
                r
            },
            Json::Object(members) => {
                let mut copy: Vec<(String, Json)> = Vec::new();
                for i in 0..members.len()
                    invariant
                        self matches Json::Object(own) && own == members,
                        copy@.len() == i,
                        forall|j: int|
                            0 <= j < i ==> (#[trigger] copy@[j]).0@ == members@[j].0@
                                && copy@[j].1@ == members@[j].1@,
                {
                    copy.push((members[i].0.clone(), members[i].1.clone()));
                }
                let r = Json::Object(copy);
                proof {
                    lemma_member_views(r->Object_0@);
                    lemma_member_views(members@);
                    assert(r@->Object_0 =~= self@->Object_0);
                }
                r
            },
        }
    }
}

impl Json {
    /// Read a value from text; the error is the text of the reader's.
    pub fn parse(text: &str) -> (r: Result<Json, String>)
        ensures
            match r {
                Ok(value) => json_reading(text@) == Ok::<JsonView, Seq<char>>(value@),
                Err(error) => json_reading(text@) == Err::<JsonView, Seq<char>>(error@),
            },
    {
        read_json(text)
    }

    /// The text of a value, on one line.
    pub fn to_text(&self) -> (r: String)
        ensures
            r@ == json_rendering(self@),
            (r@ == "null"@) == (self@ is Null),
            !r@.contains('\n'),
    {
        render_json(self)
    }

    /// The member of an object.
    pub fn get(&self, key: &str) -> (r: Option<&Json>)
        ensures
            r.deep_view() == self@.member(key@),
            r matches Some(member) ==> decreases_to!(self => member),
    {
        match self {
            Json::Object(members) => {
                let ghost views = self@->Object_0;
                proof {
                    lemma_member_views(members@);
                    assert(views.take(views.len() as int) =~= views);
                }
                let mut i = members.len();
                while i > 0
                    invariant
                        self matches Json::Object(own) && own == members,
                        i <= members@.len(),
                        views == self@->Object_0,
                        views.len() == members@.len(),
                        forall|j: int|
                            0 <= j < views.len() ==> #[trigger] views[j] == (
                                members@[j].0@,
                                members@[j].1@,
                            ),
                        find_member(views, key@) == find_member(views.take(i as int), key@),
                    decreases i,
                {
                    proof {
                        assert(views.take(i as int).last() == views[i - 1]);
                        assert(views.take(i as int).drop_last() =~= views.take(i - 1));
                    }
                    i -= 1;
                    if str_eq(members[i].0.as_str(), key) {
                        return Some(&members[i].1);
                    }
                }
                None
            },
            _ => None,
        }
    }

    /// The value at the end of a path of object keys.
    pub fn at(&self, path: &[&str]) -> (r: Option<&Json>)
        ensures
            r.deep_view() == self@.at(path.deep_view()),
    {
        let ghost keys = path.deep_view();
        let mut current: &Json = self;
        proof {
            assert(keys.skip(0) =~= keys);
        }
        for i in 0..path.len()
            invariant
                keys == path.deep_view(),
                keys.len() == path@.len(),
                self@.at(keys) == current@.at(keys.skip(i as int)),
        {
            proof {
                assert(keys.skip(i as int)[0] == path@[i as int]@);
                assert(keys.skip(i as int).drop_first() =~= keys.skip(i + 1));
            }
            match current.get(path[i]) {
                Some(next) => {
                    current = next;
                },
                None => {
                    return None;
                },
            }
        }
        Some(current)
    }

    /// The text of a string.
    pub fn as_str(&self) -> (r: Option<&str>)
        ensures
            r.deep_view() == self@.text(),
    {
        match self {
            Json::String(s) => Some(s.as_str()),
            _ => None,
        }
    }

    /// The value of a truth value.
    pub fn as_bool(&self) -> (r: Option<bool>)
        ensures
            r == self@.truth(),
    {
        match self {
            Json::Bool(b) => Some(*b),
            _ => None,
        }
    }

    /// The value of an integer that is not negative.
    pub fn as_u64(&self) -> (r: Option<u64>)
        ensures
            r == self@.unsigned(),
    {
        match self {
            Json::PosInt(n) => Some(*n),
            _ => None,
        }
    }

    /// The value of an integer that fits in 64 bits with a sign.
    pub fn as_i64(&self) -> (r: Option<i64>)
        ensures
            r == self@.signed(),
    {
        match self {
            Json::PosInt(n) => if *n <= i64::MAX as u64 {
                Some(*n as i64)
            } else {
                None
            },
            Json::NegInt(n) => Some(*n),
            _ => None,
        }
    }

    /// The items of an array.
    pub fn as_array(&self) -> (r: Option<&Vec<Json>>)
        ensures
            r.deep_view() == self@.items(),
    {
        match self {
            Json::Array(items) => {
                proof {
                    lemma_item_views(items@);
                    assert(self@->Array_0 =~= items.deep_view());
                }
                Some(items)
            },
            _ => None,
        }
    }

    /// Whether the value is an object.
    pub fn is_object(&self) -> (r: bool)
        ensures
            r == (self@ is Object),
    {
        match self {
            Json::Object(_) => true,
            _ => false,
        }
    }

    /// Whether the value is null.
    pub fn is_null(&self) -> (r: bool)
        ensures
            r == (self@ is Null),
    {
        match self {
            Json::Null => true,
            _ => false,
        }
    }

    /// The text of a member that is a string.
    pub fn member_text(&self, key: &str) -> (r: Option<String>)
        ensures
            r.deep_view() == self@.member_text(key@),
    {
        match self.get(key) {
            Some(value) => match value.as_str() {
                Some(text) => Some(text.to_owned()),
                None => None,
            },
            None => None,
        }
    }

    /// The text at the end of a path of object keys, where a string stands there.
    pub fn text_at(&self, path: &[&str]) -> (r: Option<String>)
        ensures
            r.deep_view() == self@.text_at(path.deep_view()),
    {
        match self.at(path) {
            Some(value) => match value.as_str() {
                Some(text) => Some(text.to_owned()),
                None => None,
            },
            None => None,
        }
    }
}

} // verus!
