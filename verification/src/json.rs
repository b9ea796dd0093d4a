//! Values of a JSON document, as far as they are read here.
use vstd::prelude::*;
use crate::search::{find_first, find_from, select};
use crate::text::{group_views, str_eq, views};

verus! {

broadcast use group_views;

/// A value: a text, a list, an object with its members in order, or anything else.
#[derive(Debug, PartialEq, Eq)]
pub enum Json {
    Other,
    Text(String),
    List(Vec<Json>),
    Object(Vec<Member>),
}

/// A member of an object.
#[derive(Debug, PartialEq, Eq)]
pub struct Member {
    pub name: String,
    pub value: Json,
}

impl View for Json {
    type V = Json;

    open spec fn view(&self) -> Json {
        *self
    }
}

/// A value as `serde_json` holds it.
#[verifier::external_type_specification]
#[verifier::external_body]
pub struct ExternalValue(serde_json::Value);

/// What `serde_json::from_str` reads in a text; nothing where the text is not one JSON document.
/// The members of an object come in the order in which `serde_json::Map` holds them.
pub uninterp spec fn document(raw: Seq<char>) -> Option<Json>;

/// Takes a `serde_json::Value` over, value for value and member for member. What is neither a text
/// nor a list nor an object becomes [`Json::Other`]. Of the result nothing is claimed here: it is
/// part of what [`document`] names.
#[verifier::external_body]
fn converted(value: serde_json::Value) -> (r: Json) {
    match value {
        serde_json::Value::String(text) => Json::Text(text),
        serde_json::Value::Array(items) => Json::List(items.into_iter().map(converted).collect()),
        serde_json::Value::Object(members) => Json::Object(
            members.into_iter().map(
                |(name, value)| Member { name, value: converted(value) },
            ).collect(),
        ),
        serde_json::Value::Null => Json::Other,
        serde_json::Value::Bool(_) => Json::Other,
        serde_json::Value::Number(_) => Json::Other,
    }
}

/// Reads a text with `serde_json::from_str`. Whether it is a document, and which, depends on the
/// text alone; the grammar is left to `serde_json`.
#[verifier::external_body]
pub(crate) fn parse_document(raw: &str) -> (r: Option<Json>)
    ensures
        r == document(raw@),
{
    serde_json::from_str::<serde_json::Value>(raw).ok().map(converted)
}

/// Members with a name.
pub open spec fn member_named(name: Seq<char>) -> spec_fn(Member) -> bool {
    |m: Member| m.name@ == name
}

/// The member of an object with a name.
pub open spec fn get(value: Json, name: Seq<char>) -> Option<Json> {
    match value {
        Json::Object(members) => match find_first(members@, member_named(name)) {
            Some(m) => Some(m.value),
            None => None,
        },
        _ => None,
    }
}

/// The member with a name of the member with a name.
pub open spec fn get_in(value: Json, outer: Seq<char>, name: Seq<char>) -> Option<Json> {
    match get(value, outer) {
        Some(inner) => get(inner, name),
        None => None,
    }
}

/// The text that a value is.
pub open spec fn as_text(value: Json) -> Option<Seq<char>> {
    match value {
        Json::Text(text) => Some(text@),
        _ => None,
    }
}

/// The text of a member.
pub open spec fn text_field(value: Json, name: Seq<char>) -> Option<Seq<char>> {
    match get(value, name) {
        Some(member) => as_text(member),
        None => None,
    }
}

/// The text of a member, or another one if there is none.
pub open spec fn text_or(value: Json, name: Seq<char>, other: Seq<char>) -> Seq<char> {
    match text_field(value, name) {
        Some(text) => text,
        None => other,
    }
}

/// The items of a member that is a list.
pub open spec fn items(value: Json, name: Seq<char>) -> Seq<Json> {
    match get(value, name) {
        Some(Json::List(list)) => list@,
        _ => Seq::empty(),
    }
}

/// The values of a member that is an object.
pub open spec fn entries(value: Json, name: Seq<char>) -> Seq<Json> {
    match get(value, name) {
        Some(Json::Object(members)) => Seq::new(members@.len(), |i: int| members@[i].value),
        _ => Seq::empty(),
    }
}

/// Those of the first `n` values that are texts.
pub open spec fn texts_among(list: Seq<Json>, n: int) -> Seq<Seq<char>>
    decreases n,
{
    if n <= 0 {
        Seq::empty()
    } else {
        match as_text(list[n - 1]) {
            Some(text) => texts_among(list, n - 1).push(text),
            None => texts_among(list, n - 1),
        }
    }
}

/// The texts in a member that is a list.
pub open spec fn texts(value: Json, name: Seq<char>) -> Seq<Seq<char>> {
    texts_among(items(value, name), items(value, name).len() as int)
}

/// What an optional reference refers to.
pub open spec fn opt_ref(o: Option<&Json>) -> Option<Json> {
    match o {
        Some(value) => Some(*value),
        None => None,
    }
}

/// What an optional text holds.
pub open spec fn opt_text(o: Option<&str>) -> Option<Seq<char>> {
    match o {
        Some(text) => Some(text@),
        None => None,
    }
}

impl Json {
    /// The member with a name.
    pub fn get(&self, name: &str) -> (r: Option<&Json>)
        ensures
            opt_ref(r) == get(*self, name@),
    {
        match self {
            Json::Object(members) => {
                let mut i: usize = 0;
                while i < members.len()
                    invariant
                        i <= members@.len(),
                        *self == Json::Object(*members),
                        find_from(members@, member_named(name@), 0) == find_from(
                            members@,
                            member_named(name@),
                            i as int,
                        ),
                    decreases members@.len() - i,
                {
                    if str_eq(members[i].name.as_str(), name) {
                        return Some(&members[i].value);
                    }
                    i = i + 1;
                }
                None
            },
            _ => None,
        }
    }

    /// The member with a name of the member with a name.
    pub fn get_in(&self, outer: &str, name: &str) -> (r: Option<&Json>)
        ensures
            opt_ref(r) == get_in(*self, outer@, name@),
    {
        match self.get(outer) {
            Some(inner) => inner.get(name),
            None => None,
        }
    }

    /// The text of a member.
    pub fn text_field(&self, name: &str) -> (r: Option<&str>)
        ensures
            opt_text(r) == text_field(*self, name@),
    {
        match self.get(name) {
            Some(Json::Text(text)) => Some(text.as_str()),
            _ => None,
        }
    }

    /// The text of a member, or another one if there is none.
    pub fn text_or<'a>(&'a self, name: &str, other: &'a str) -> (r: &'a str)
        ensures
            r@ == text_or(*self, name@, other@),
    {
        match self.text_field(name) {
            Some(text) => text,
            None => other,
        }
    }

    /// Whether a member is the given text.
    pub fn field_is(&self, name: &str, text: &str) -> (r: bool)
        ensures
            r == (text_field(*self, name@) == Some(text@)),
    {
        match self.text_field(name) {
            Some(held) => str_eq(held, text),
            None => false,
        }
    }

    /// The items of a member that is a list.
    pub fn items(&self, name: &str) -> (r: Vec<&Json>)
        ensures
            views(r@) == items(*self, name@),
    {
        let mut r: Vec<&Json> = Vec::new();
        if let Some(Json::List(list)) = self.get(name) {
            let mut i: usize = 0;
            while i < list.len()
                invariant
                    i <= list@.len(),
                    views(r@) == list@.take(i as int),
                decreases list@.len() - i,
            {
                r.push(&list[i]);
                i = i + 1;
                assert(views(r@) =~= list@.take(i as int));
            }
            assert(list@.take(i as int) =~= list@);
        }
        r
    }

    /// The values of a member that is an object.
    pub fn entries(&self, name: &str) -> (r: Vec<&Json>)
        ensures
            views(r@) == entries(*self, name@),
    {
        let mut r: Vec<&Json> = Vec::new();
        if let Some(Json::Object(members)) = self.get(name) {
            let ghost all = entries(*self, name@);
            let mut i: usize = 0;
            while i < members.len()
                invariant
                    i <= members@.len(),
                    all == Seq::new(members@.len(), |k: int| members@[k].value),
                    views(r@) == all.take(i as int),
                decreases members@.len() - i,
            {
                r.push(&members[i].value);
                i = i + 1;
                assert(views(r@) =~= all.take(i as int));
            }
            assert(all.take(i as int) =~= all);
        }
        r
    }

    /// The texts in a member that is a list.
    pub fn texts(&self, name: &str) -> (r: Vec<&str>)
        ensures
            views(r@) == texts(*self, name@),
    {
        let list = self.items(name);
        let mut r: Vec<&str> = Vec::new();
        let mut i: usize = 0;
        while i < list.len()
            invariant
                i <= list@.len(),
                views(r@) == texts_among(views(list@), i as int),
            decreases list@.len() - i,
        {
            if let Json::Text(text) = list[i] {
                r.push(text.as_str());
            }
            i = i + 1;
        }
        r
    }
}

/// Those of the values that satisfy `f`, which decides `p`.
pub(crate) fn filter_values<'a, F: Fn(&Json) -> bool>(
    list: &Vec<&'a Json>,
    f: F,
    Ghost(p): Ghost<spec_fn(Json) -> bool>,
) -> (r: Vec<&'a Json>)
    requires
        forall|x: &Json| #[trigger] call_requires(f, (x,)),
        forall|x: &Json, b: bool| #[trigger] call_ensures(f, (x,), b) ==> b == p(*x),
    ensures
        views(r@) == select(views(list@), p),
{
    let mut r: Vec<&Json> = Vec::new();
    let mut i: usize = 0;
    while i < list.len()
        invariant
            i <= list@.len(),
            forall|x: &Json| #[trigger] call_requires(f, (x,)),
            forall|x: &Json, b: bool| #[trigger] call_ensures(f, (x,), b) ==> b == p(*x),
            views(r@) == crate::search::kept(views(list@), p, i as int),
        decreases list@.len() - i,
    {
        if f(list[i]) {
            r.push(list[i]);
        }
        i = i + 1;
    }
    r
}

/// The first of the values that satisfies `f`, which decides `p`.
pub(crate) fn find_value<'a, F: Fn(&Json) -> bool>(
    list: &Vec<&'a Json>,
    f: F,
    Ghost(p): Ghost<spec_fn(Json) -> bool>,
) -> (r: Option<&'a Json>)
    requires
        forall|x: &Json| #[trigger] call_requires(f, (x,)),
        forall|x: &Json, b: bool| #[trigger] call_ensures(f, (x,), b) ==> b == p(*x),
    ensures
        opt_ref(r) == find_first(views(list@), p),
{
    let mut i: usize = 0;
    while i < list.len()
        invariant
            i <= list@.len(),
            forall|x: &Json| #[trigger] call_requires(f, (x,)),
            forall|x: &Json, b: bool| #[trigger] call_ensures(f, (x,), b) ==> b == p(*x),
            find_from(views(list@), p, 0) == find_from(views(list@), p, i as int),
        decreases list@.len() - i,
    {
        if f(list[i]) {
            return Some(list[i]);
        }
        i = i + 1;
    }
    None
}

} // verus!
