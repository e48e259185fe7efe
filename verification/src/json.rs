//! JSON values, as far as the server looks into them.

use serde_json::Value;
use vstd::prelude::*;
use vstd::string::*;

use crate::model::{opt_view, views, Duplicate};
use crate::table::named_order;
use crate::text::{opt_text, signed_decimal, texts};

verus! {

/// `serde_json::Value`, opaque.
#[verifier::external_type_specification]
#[verifier::external_body]
pub struct ExValue(Value);

/// What a JSON value holds. A number is a whole number, or any other, which is known by its text; an
/// object has one value under each name.
#[verifier::ext_equal]
pub enum JsonView {
    Null,
    Bool(bool),
    Integer(int),
    Decimal(Seq<char>),
    Str(Seq<char>),
    Array(Seq<JsonView>),
    Object(Map<Seq<char>, JsonView>),
}

/// What a value of `serde_json` holds.
pub uninterp spec fn held(value: Value) -> JsonView;

/// What a text reads as in JSON, or the message of the error that it gives.
pub uninterp spec fn json_parsed(text: Seq<char>) -> Result<JsonView, Seq<char>>;

/// The members of the object that a text reads as in JSON, or the message of the error that it gives.
pub uninterp spec fn options_parsed(text: Seq<char>) -> Result<
    Map<Seq<char>, JsonView>,
    Seq<char>,
>;

/// A JSON value as compact JSON text.
pub uninterp spec fn json_text(value: JsonView) -> Seq<char>;

impl JsonView {
    /// The characters of a string value.
    pub open spec fn as_str(self) -> Option<Seq<char>> {
        match self {
            JsonView::Str(s) => Some(s),
            _ => None,
        }
    }

    /// The member `field` of an object. Other values have no members.
    pub open spec fn get(self, field: Seq<char>) -> Option<JsonView> {
        match self {
            JsonView::Object(members) => if members.contains_key(field) {
                Some(members[field])
            } else {
                None
            },
            _ => None,
        }
    }

    /// The member `field`, where it is a string.
    pub open spec fn get_str(self, field: Seq<char>) -> Option<Seq<char>> {
        match self.get(field) {
            Some(v) => v.as_str(),
            None => None,
        }
    }

    /// The value of a truth value.
    pub open spec fn as_bool(self) -> Option<bool> {
        match self {
            JsonView::Bool(b) => Some(b),
            _ => None,
        }
    }

    /// The number, where it is whole and not negative, and fits.
    pub open spec fn as_u64(self) -> Option<u64> {
        match self {
            JsonView::Integer(n) => if 0 <= n <= u64::MAX {
                Some(n as u64)
            } else {
                None
            },
            _ => None,
        }
    }

    /// Whether the value is a whole number that fits.
    pub open spec fn is_i64(self) -> bool {
        self matches JsonView::Integer(n) && i64::MIN <= n <= i64::MAX
    }

    /// Whether the value is a number.
    pub open spec fn is_number(self) -> bool {
        self is Integer || self is Decimal
    }

    /// The text of a number.
    pub open spec fn digits(self) -> Seq<char> {
        match self {
            JsonView::Integer(n) => signed_decimal(n),
            JsonView::Decimal(text) => text,
            _ => Seq::empty(),
        }
    }

    /// The elements of an array.
    pub open spec fn elements(self) -> Option<Seq<JsonView>> {
        match self {
            JsonView::Array(list) => Some(list),
            _ => None,
        }
    }

    /// The value as compact JSON text.
    pub open spec fn text(self) -> Seq<char> {
        json_text(self)
    }

    /// What is counted as the payload of the value: the string itself, or the JSON text.
    pub open spec fn payload(self) -> Seq<char> {
        match self {
            JsonView::Str(s) => s,
            other => json_text(other),
        }
    }
}

/// `serde_json::from_str` into a `serde_json::Value`: the value that the text reads as, or the
/// error's message. Only the text decides.
#[verifier::external_body]
fn value_of(text: &str) -> (r: Result<Value, String>)
    ensures
        match r {
            Ok(v) => json_parsed(text@) == Ok::<JsonView, Seq<char>>(held(v)),
            Err(m) => json_parsed(text@) == Err::<JsonView, Seq<char>>(m@),
        },
{
    serde_json::from_str(text).map_err(|e| e.to_string())
}

/// `serde_json::from_str` into a `serde_json::Map`, as a value: the object that the text reads as, or
/// the error's message. Only the text decides.
#[verifier::external_body]
fn options_of(text: &str) -> (r: Result<Value, String>)
    ensures
        match r {
            Ok(v) => held(v) is Object && options_parsed(text@) == Ok::<
                Map<Seq<char>, JsonView>,
                Seq<char>,
            >(held(v)->Object_0),
            Err(m) => options_parsed(text@) == Err::<Map<Seq<char>, JsonView>, Seq<char>>(m@),
        },
{
    match serde_json::from_str::<serde_json::Map<String, Value>>(text) {
        Ok(members) => Ok(Value::Object(members)),
        Err(e) => Err(e.to_string()),
    }
}

/// `serde_json::Map::keys` of the members of an object: the name of each member once. In which order
/// they come is left open.
#[verifier::external_body]
fn names_in(value: &Value) -> (r: Vec<String>)
    requires
        held(*value) is Object,
    ensures
        named_order(texts(r@), held(*value)->Object_0.dom()),
{
    value.as_object().expect("the value is an object").keys().cloned().collect()
}

/// `serde_json::Value::as_bool`: the truth value, where the value is one.
#[verifier::external_body]
fn bool_in(value: &Value) -> (r: Option<bool>)
    ensures
        r == held(*value).as_bool(),
{
    value.as_bool()
}

/// `serde_json::Value::as_u64`: the number, where it is whole and not negative, and fits.
#[verifier::external_body]
fn natural_in(value: &Value) -> (r: Option<u64>)
    ensures
        r == held(*value).as_u64(),
{
    value.as_u64()
}

/// `serde_json::Value::is_i64`: whether the value is a whole number that fits.
#[verifier::external_body]
fn is_signed(value: &Value) -> (r: bool)
    ensures
        r == held(*value).is_i64(),
{
    value.is_i64()
}

/// `serde_json::Value::is_number`: whether the value is a number.
#[verifier::external_body]
fn is_numeric(value: &Value) -> (r: bool)
    ensures
        r == held(*value).is_number(),
{
    value.is_number()
}

/// `serde_json::Value::as_array`: the elements, where the value is an array.
#[verifier::external_body]
fn elements_in(value: &Value) -> (r: Option<&Vec<Value>>)
    ensures
        match r {
            Some(list) => held(*value) == JsonView::Array(
                list@.map_values(|element: Value| held(element)),
            ),
            None => held(*value).elements() is None,
        },
{
    value.as_array()
}

/// `serde_json::Value::get` by a name: the member of an object under that name, where it has one. A
/// value that is no object has none.
#[verifier::external_body]
fn member_of<'a>(value: &'a Value, field: &str) -> (r: Option<&'a Value>)
    ensures
        match r {
            Some(v) => held(*value).get(field@) == Some(held(*v)),
            None => held(*value).get(field@) == None::<JsonView>,
        },
{
    value.get(field)
}

/// `serde_json::Value::as_str`: the string, where the value is one.
#[verifier::external_body]
fn string_in(value: &Value) -> (r: Option<&str>)
    ensures
        match r {
            Some(s) => held(*value) == JsonView::Str(s@),
            None => held(*value).as_str() is None,
        },
{
    value.as_str()
}

/// `serde_json::Value::to_string`: the value as compact JSON text, which depends on nothing else. That
/// of a number are its digits.
#[verifier::external_body]
fn text_of(value: &Value) -> (r: String)
    ensures
        r@ == json_text(held(*value)),
        held(*value).is_number() ==> r@ == held(*value).digits(),
{
    value.to_string()
}

/// `serde_json::Value::clone`: a value that holds the same.
#[verifier::external_body]
fn copy_of(value: &Value) -> (r: Value)
    ensures
        held(r) == held(*value),
{
    value.clone()
}

/// `serde_json::Value::Null`: the null.
#[verifier::external_body]
fn null_value() -> (r: Value)
    ensures
        held(r) == JsonView::Null,
{
    Value::Null
}

/// `serde_json::Value::String`: a string.
#[verifier::external_body]
fn string_value(s: String) -> (r: Value)
    ensures
        held(r) == JsonView::Str(s@),
{
    Value::String(s)
}

/// `serde_json::Value::Bool`: a boolean.
#[verifier::external_body]
fn bool_value(b: bool) -> (r: Value)
    ensures
        held(r) == JsonView::Bool(b),
{
    Value::Bool(b)
}

/// `serde_json::Value::from` a `u64`: the number.
#[verifier::external_body]
fn number_value(n: u64) -> (r: Value)
    ensures
        held(r) == JsonView::Integer(n as int),
{
    Value::from(n)
}

/// `serde_json::Map::new`, as a value: an object without members.
#[verifier::external_body]
fn object_value() -> (r: Value)
    ensures
        held(r) == JsonView::Object(Map::empty()),
{
    Value::Object(serde_json::Map::new())
}

/// `serde_json::Map::insert` on the members of an object: the member under `name` becomes `member`,
/// whether or not there was one.
#[verifier::external_body]
fn set_member(object: &mut Value, name: String, member: Value)
    requires
        held(*old(object)) is Object,
    ensures
        held(*final(object)) == JsonView::Object(
            held(*old(object))->Object_0.insert(name@, held(member)),
        ),
{
    object.as_object_mut().expect("the value is an object").insert(name, member);
}

/// A JSON value.
#[derive(Debug)]
pub struct Json {
    value: Value,
}

impl View for Json {
    type V = JsonView;

    closed spec fn view(&self) -> JsonView {
        held(self.value)
    }
}

impl Duplicate for Json {
    fn duplicate(&self) -> (r: Self) {
        Json { value: copy_of(&self.value) }
    }
}

impl Clone for Json {
    fn clone(&self) -> (r: Self)
        ensures
            r@ == self@,
    {
        self.duplicate()
    }
}

impl Json {
    /// Reads a JSON text.
    pub fn parse(text: &str) -> (r: Result<Json, String>)
        ensures
            match r {
                Ok(v) => json_parsed(text@) == Ok::<JsonView, Seq<char>>(v@),
                Err(m) => json_parsed(text@) == Err::<JsonView, Seq<char>>(m@),
            },
    {
        match value_of(text) {
            Ok(value) => Ok(Json { value }),
            Err(message) => Err(message),
        }
    }

    /// A value of `serde_json`.
    pub fn from_value(value: Value) -> (r: Json)
        ensures
            r@ == held(value),
    {
        Json { value }
    }

    /// The value as one of `serde_json`.
    pub fn value(&self) -> (r: &Value)
        ensures
            held(*r) == self@,
    {
        &self.value
    }

    /// The JSON null.
    pub fn null() -> (r: Json)
        ensures
            r@ == JsonView::Null,
    {
        Json { value: null_value() }
    }

    /// A string.
    pub fn string(s: String) -> (r: Json)
        ensures
            r@ == JsonView::Str(s@),
    {
        Json { value: string_value(s) }
    }

    /// A boolean.
    pub fn boolean(b: bool) -> (r: Json)
        ensures
            r@ == JsonView::Bool(b),
    {
        Json { value: bool_value(b) }
    }

    /// A whole number.
    pub fn number(n: u64) -> (r: Json)
        ensures
            r@ == JsonView::Integer(n as int),
    {
        Json { value: number_value(n) }
    }

    /// An object with one member.
    pub fn object(name: &str, member: Json) -> (r: Json)
        ensures
            r@ == JsonView::Object(Map::empty().insert(name@, member@)),
    {
        let mut value = object_value();
        set_member(&mut value, name.to_string(), member.value);
        Json { value }
    }

    /// An object with two members; of two with one name the second counts.
    pub fn pair(first: &str, one: Json, second: &str, two: Json) -> (r: Json)
        ensures
            r@ == JsonView::Object(Map::empty().insert(first@, one@).insert(second@, two@)),
    {
        let mut value = object_value();
        set_member(&mut value, first.to_string(), one.value);
        set_member(&mut value, second.to_string(), two.value);
        Json { value }
    }

    /// The string, where the value is one.
    pub fn as_str(&self) -> (r: Option<String>)
        ensures
            opt_text(r) == self@.as_str(),
    {
        match string_in(&self.value) {
            Some(s) => Some(s.to_string()),
            None => None,
        }
    }

    /// The member `field`, where the value is an object that has one.
    pub fn get(&self, field: &str) -> (r: Option<Json>)
        ensures
            opt_view(r) == self@.get(field@),
    {
        match member_of(&self.value, field) {
            Some(value) => Some(Json { value: copy_of(value) }),
            None => None,
        }
    }

    /// The member `field`, where it is a string.
    pub fn get_str(&self, field: &str) -> (r: Option<String>)
        ensures
            opt_text(r) == self@.get_str(field@),
    {
        match self.get(field) {
            Some(v) => v.as_str(),
            None => None,
        }
    }

    /// The truth value, where the value is one.
    pub fn as_bool(&self) -> (r: Option<bool>)
        ensures
            r == self@.as_bool(),
    {
        bool_in(&self.value)
    }

    /// The number, where it is whole and not negative, and fits.
    pub fn as_u64(&self) -> (r: Option<u64>)
        ensures
            r == self@.as_u64(),
    {
        natural_in(&self.value)
    }

    /// Whether the value is a whole number that fits.
    pub fn is_i64(&self) -> (r: bool)
        ensures
            r == self@.is_i64(),
    {
        is_signed(&self.value)
    }

    /// The text of the number, where the value is one.
    pub fn number_text(&self) -> (r: Option<String>)
        ensures
            opt_text(r) == if self@.is_number() {
                Some(self@.digits())
            } else {
                None::<Seq<char>>
            },
    {
        if is_numeric(&self.value) {
            Some(text_of(&self.value))
        } else {
            None
        }
    }

    /// The elements, where the value is an array.
    pub fn elements(&self) -> (r: Option<Vec<Json>>)
        ensures
            match r {
                Some(list) => self@ == JsonView::Array(views(list@)),
                None => self@.elements() is None,
            },
    {
        match elements_in(&self.value) {
            Some(values) => {
                let ghost all = values@.map_values(|element: Value| held(element));
                let mut list: Vec<Json> = Vec::new();
                let mut i: usize = 0;
                assert(views(list@) =~= all.take(0));
                while i < values.len()
                    invariant
                        i <= values@.len(),
                        all == values@.map_values(|element: Value| held(element)),
                        views(list@) == all.take(i as int),
                    decreases values@.len() - i,
                {
                    let ghost before = list@;
                    let element = Json { value: copy_of(&values[i]) };
                    list.push(element);
                    proof {
                        assert(views(list@) =~= views(before).push(element@));
                        assert(all.take(i + 1) =~= all.take(i as int).push(all[i as int]));
                    }
                    i = i + 1;
                }
                assert(all.take(i as int) =~= all);
                Some(list)
            },
            None => None,
        }
    }

    /// The value as compact JSON text.
    pub fn text(&self) -> (r: String)
        ensures
            r@ == self@.text(),
    {
        text_of(&self.value)
    }

    /// What is counted as the payload of the value.
    pub fn payload(&self) -> (r: String)
        ensures
            r@ == self@.payload(),
    {
        match self.as_str() {
            Some(s) => s,
            None => self.text(),
        }
    }
}

/// Whether a list holds every member of an object once, with its name, in some order.
pub open spec fn lists_options(list: Seq<(String, Json)>, members: Map<Seq<char>, JsonView>) -> bool {
    &&& named_order(list.map_values(|option: (String, Json)| option.0@), members.dom())
    &&& forall|i: int|
        0 <= i < list.len() ==> (#[trigger] list[i]).1@ == members[list[i].0@]
}

/// Reads options from a JSON text: the members of the object that it holds, in no particular order.
pub fn read_options(contents: &str) -> (r: Result<Vec<(String, Json)>, String>)
    ensures
        match (r, options_parsed(contents@)) {
            (Ok(list), Ok(members)) => lists_options(list@, members),
            (Err(m), Err(message)) => m@ == message,
            _ => false,
        },
{
    let value = match options_of(contents) {
        Ok(value) => value,
        Err(message) => return Err(message),
    };
    let names = names_in(&value);
    let ghost members = held(value)->Object_0;
    let ghost name_of = |option: (String, Json)| option.0@;
    let mut list: Vec<(String, Json)> = Vec::new();
    let mut i: usize = 0;
    assert(list@.map_values(name_of) =~= texts(names@).take(0));
    while i < names.len()
        invariant
            i <= names@.len(),
            name_of == (|option: (String, Json)| option.0@),
            held(value) == JsonView::Object(members),
            named_order(texts(names@), members.dom()),
            list@.map_values(name_of) == texts(names@).take(i as int),
            forall|j: int| 0 <= j < list@.len() ==> (#[trigger] list@[j]).1@ == members[list@[j].0@],
        decreases names@.len() - i,
    {
        let ghost before = list@;
        proof {
            assert(texts(names@)[i as int] == names@[i as int]@);
            assert(texts(names@).to_set().contains(names@[i as int]@));
        }
        match member_of(&value, names[i].as_str()) {
            Some(member) => {
                list.push((names[i].clone(), Json { value: copy_of(member) }));
            },
            None => {},
        }
        proof {
            assert(list@.map_values(name_of) =~= before.map_values(name_of).push(
                names@[i as int]@,
            ));
            assert(texts(names@).take(i + 1) =~= texts(names@).take(i as int).push(
                names@[i as int]@,
            ));
        }
        i = i + 1;
    }
    assert(texts(names@).take(i as int) =~= texts(names@));
    Ok(list)
}

/// The options that are read are the members of the object, each once, with its value.
pub proof fn each_member_is_an_option(
    list: Seq<(String, Json)>,
    members: Map<Seq<char>, JsonView>,
    name: Seq<char>,
    i: int,
)
    requires
        lists_options(list, members),
    ensures
        members.contains_key(name) ==> exists|j: int|
            0 <= j < list.len() && (#[trigger] list[j]).0@ == name && list[j].1@ == members[name],
        0 <= i < list.len() ==> members.contains_key(list[i].0@) && list[i].1@
            == members[list[i].0@],
        forall|j: int|
            0 <= j < list.len() && 0 <= i < list.len() && (#[trigger] list[j]).0@ == list[i].0@
                ==> j == i,
{
    let names = list.map_values(|option: (String, Json)| option.0@);
    if members.contains_key(name) {
        assert(members.dom().contains(name));
        assert(names.to_set().contains(name));
        let j = choose|j: int| 0 <= j < names.len() && names[j] == name;
        assert(list[j].0@ == name);
    }
    if 0 <= i < list.len() {
        assert(names[i] == list[i].0@);
        assert(names.to_set().contains(list[i].0@));
        assert(members.dom().contains(list[i].0@));
        assert forall|j: int| 0 <= j < list.len() && (#[trigger] list[j]).0@ == list[i].0@ implies j
            == i by {
            assert(names[j] == names[i]);
        }
    }
}

/// What is read of a JSON value: the members of an object, and nothing of any other value; a text of
/// a string only, a truth value of one only, and a whole number that is not negative of one that fits.
pub proof fn value_is_read_as_what_it_is(
    members: Map<Seq<char>, JsonView>,
    field: Seq<char>,
    s: Seq<char>,
    b: bool,
    n: int,
    list: Seq<JsonView>,
)
    ensures
        members.contains_key(field) ==> JsonView::Object(members).get(field) == Some(
            members[field],
        ),
        !members.contains_key(field) ==> JsonView::Object(members).get(field) is None,
        JsonView::Str(s).get(field) is None && JsonView::Array(list).get(field) is None
            && JsonView::Null.get(field) is None && JsonView::Bool(b).get(field) is None
            && JsonView::Integer(n).get(field) is None && JsonView::Decimal(s).get(field) is None,
        JsonView::Str(s).as_str() == Some(s),
        JsonView::Bool(b).as_bool() == Some(b),
        JsonView::Array(list).elements() == Some(list),
        JsonView::Null.as_str() is None && JsonView::Bool(b).as_str() is None
            && JsonView::Integer(n).as_str() is None && JsonView::Decimal(s).as_str() is None
            && JsonView::Array(list).as_str() is None && JsonView::Object(members).as_str() is None,
        JsonView::Str(s).as_bool() is None && JsonView::Null.as_bool() is None
            && JsonView::Integer(n).as_bool() is None,
        0 <= n < 0x1_0000_0000_0000_0000 ==> JsonView::Integer(n).as_u64() == Some(n as u64),
        n < 0 || n >= 0x1_0000_0000_0000_0000 ==> JsonView::Integer(n).as_u64() is None,
        JsonView::Decimal(s).as_u64() is None && JsonView::Str(s).as_u64() is None
            && JsonView::Bool(b).as_u64() is None && JsonView::Null.as_u64() is None,
        members.contains_key(field) && members[field] == JsonView::Str(s) ==> JsonView::Object(
            members,
        ).get_str(field) == Some(s),
        members.contains_key(field) && !(members[field] is Str) ==> JsonView::Object(
            members,
        ).get_str(field) is None,
{
}

} // verus!
