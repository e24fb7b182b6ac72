//! JSON values.
use crate::text::same_text;
use vstd::prelude::*;

verus! {

/// A JSON number: an integer, or the bit pattern of a double.
#[derive(Clone, Copy, Debug, PartialEq, Eq, Structural)]
pub enum JsonNumber {
    Unsigned(u64),
    Negative(i64),
    Double(u64),
}

/// A JSON value. An object keeps its entries in order.
#[derive(Debug)]
pub enum Json {
    Null,
    Bool(bool),
    Number(JsonNumber),
    Text(String),
    Array(Vec<Json>),
    Object(Vec<(String, Json)>),
}

/// The contents of a [`Json`] value.
pub enum JsonView {
    Null,
    Bool(bool),
    Number(JsonNumber),
    Text(Seq<char>),
    Array(Seq<JsonView>),
    Object(Seq<(Seq<char>, JsonView)>),
}

impl Json {
    pub open spec fn contents(self) -> JsonView
        decreases self,
    {
        match self {
            Json::Null => JsonView::Null,
            Json::Bool(value) => JsonView::Bool(value),
            Json::Number(number) => JsonView::Number(number),
            Json::Text(text) => JsonView::Text(text@),
            Json::Array(items) => JsonView::Array(
                Seq::new(
                    items@.len(),
                    |i: int|
                        if 0 <= i < items@.len() {
                            items@[i].contents()
                        } else {
                            JsonView::Null
                        },
                ),
            ),
            Json::Object(entries) => JsonView::Object(
                Seq::new(
                    entries@.len(),
                    |i: int|
                        if 0 <= i < entries@.len() {
                            (entries@[i].0@, entries@[i].1.contents())
                        } else {
                            (Seq::empty(), JsonView::Null)
                        },
                ),
            ),
        }
    }
}

impl View for Json {
    type V = JsonView;

    open spec fn view(&self) -> JsonView {
        self.contents()
    }
}

/// The contents of an object's entries.
pub open spec fn entry_views(entries: Seq<(String, Json)>) -> Seq<(Seq<char>, JsonView)> {
    Seq::new(entries.len(), |i: int| (entries[i].0@, entries[i].1@))
}

/// Entry `i` is the first one with this key.
pub open spec fn keyed(entries: Seq<(Seq<char>, JsonView)>, key: Seq<char>, i: int) -> bool {
    &&& 0 <= i < entries.len()
    &&& entries[i].0 == key
    &&& forall|j: int| 0 <= j < i ==> (#[trigger] entries[j]).0 != key
}

pub proof fn lemma_keyed_unique(
    entries: Seq<(Seq<char>, JsonView)>,
    key: Seq<char>,
    i: int,
    j: int,
)
    requires
        keyed(entries, key, i),
        keyed(entries, key, j),
    ensures
        i == j,
{
    if i < j {
        assert(entries[i].0 != key);
    } else if j < i {
        assert(entries[j].0 != key);
    }
}

impl JsonView {
    /// The value under a key, for an object that has the key.
    pub open spec fn get(self, key: Seq<char>) -> Option<JsonView> {
        match self {
            JsonView::Object(entries) => if exists|i: int| keyed(entries, key, i) {
                Some(entries[choose|i: int| keyed(entries, key, i)].1)
            } else {
                None
            },
            _ => None,
        }
    }

    /// The number, if it is one that an unsigned 64-bit integer holds.
    pub open spec fn as_u64(self) -> Option<u64> {
        match self {
            JsonView::Number(JsonNumber::Unsigned(n)) => Some(n),
            _ => None,
        }
    }

    /// The number, if it is one that a signed 64-bit integer holds.
    pub open spec fn as_i64(self) -> Option<i64> {
        match self {
            JsonView::Number(JsonNumber::Unsigned(n)) => if n <= i64::MAX {
                Some(n as i64)
            } else {
                None
            },
            JsonView::Number(JsonNumber::Negative(n)) => Some(n),
            _ => None,
        }
    }

    pub open spec fn as_text(self) -> Option<Seq<char>> {
        match self {
            JsonView::Text(text) => Some(text),
            _ => None,
        }
    }
}

/// The index of the first entry with a key.
pub fn find_key(entries: &Vec<(String, Json)>, key: &str) -> (found: Option<usize>)
    ensures
        match found {
            Some(i) => keyed(entry_views(entries@), key@, i as int),
            None => forall|i: int| !keyed(entry_views(entries@), key@, i),
        },
{
    let ghost views = entry_views(entries@);
    let mut i: usize = 0;
    while i < entries.len()
        invariant
            i <= entries.len(),
            views == entry_views(entries@),
            forall|j: int| 0 <= j < i ==> (#[trigger] views[j]).0 != key@,
        decreases entries.len() - i,
    {
        if same_text(entries[i].0.as_str(), key) {
            assert(keyed(views, key@, i as int));
            return Some(i);
        }
        i = i + 1;
    }
    None
}

impl Json {
    /// The value under a key, for an object that has the key.
    pub fn get(&self, key: &str) -> (value: Option<&Json>)
        ensures
            match self@.get(key@) {
                Some(view) => value matches Some(value) && value@ == view,
                None => value is None,
            },
    {
        match self {
            Json::Object(entries) => {
                assert(self@->Object_0 =~= entry_views(entries@));
                match find_key(entries, key) {
                    Some(i) => {
                        let ghost views = entry_views(entries@);
                        proof {
                            let found = choose|i: int| keyed(views, key@, i);
                            lemma_keyed_unique(views, key@, i as int, found);
                        }
                        Some(&entries[i].1)
                    },
                    None => None,
                }
            },
            _ => None,
        }
    }

    /// The number, if it is one that an unsigned 64-bit integer holds.
    pub fn as_u64(&self) -> (number: Option<u64>)
        ensures
            number == self@.as_u64(),
    {
        match self {
            Json::Number(JsonNumber::Unsigned(n)) => Some(*n),
            _ => None,
        }
    }

    /// The number, if it is one that a signed 64-bit integer holds.
    pub fn as_i64(&self) -> (number: Option<i64>)
        ensures
            number == self@.as_i64(),
    {
        match self {
            Json::Number(JsonNumber::Unsigned(n)) => {
                if *n <= 0x7fff_ffff_ffff_ffff {
                    Some(*n as i64)
                } else {
                    None
                }
            },
            Json::Number(JsonNumber::Negative(n)) => Some(*n),
            _ => None,
        }
    }

    /// The text, if the value is one.
    pub fn as_text(&self) -> (text: Option<&String>)
        ensures
            match self@.as_text() {
                Some(view) => text matches Some(text) && text@ == view,
                None => text is None,
            },
    {
        match self {
            Json::Text(text) => Some(text),
            _ => None,
        }
    }

    pub fn is_null(&self) -> (null: bool)
        ensures
            null == (self@ is Null),
    {
        match self {
            Json::Null => true,
            _ => false,
        }
    }

    pub fn is_array(&self) -> (array: bool)
        ensures
            array == (self@ is Array),
    {
        match self {
            Json::Array(_) => true,
            _ => false,
        }
    }
}

/// Replacing the value under a key changes what is found under that key, and
/// nothing else.
pub proof fn lemma_replaced(
    entries: Seq<(Seq<char>, JsonView)>,
    key: Seq<char>,
    i: int,
    value: JsonView,
    other: Seq<char>,
)
    requires
        keyed(entries, key, i),
    ensures
        JsonView::Object(entries.update(i, (key, value))).get(other) == if other == key {
            Some(value)
        } else {
            JsonView::Object(entries).get(other)
        },
{
    let after = entries.update(i, (key, value));
    assert forall|j: int| keyed(entries, other, j) implies keyed(after, other, j) by {
        assert forall|k: int| 0 <= k < j implies (#[trigger] after[k]).0 != other by {
            assert(entries[k].0 != other);
        }
    }
    assert forall|j: int| keyed(after, other, j) implies keyed(entries, other, j) by {
        assert forall|k: int| 0 <= k < j implies (#[trigger] entries[k]).0 != other by {
            assert(after[k].0 != other);
        }
    }
    if exists|j: int| keyed(entries, other, j) {
        let j = choose|j: int| keyed(entries, other, j);
        assert(keyed(after, other, j));
        let k = choose|k: int| keyed(after, other, k);
        lemma_keyed_unique(after, other, j, k);
        if other == key {
            lemma_keyed_unique(entries, key, i, j);
        } else {
            assert(entries[i].0 != entries[j].0);
        }
    } else if other == key {
        assert(keyed(entries, other, i));
    }
}

/// What is found under a key of an object is the value of the first entry that has
/// it; nothing else has values under keys.
pub proof fn the_first_entry_of_a_key_counts(
    json: Json,
    key: &str,
    value: Option<&Json>,
    entries: Vec<(String, Json)>,
    i: int,
)
    requires
        call_ensures(Json::get, (&json, key), value),
        json == Json::Object(entries),
    ensures
        0 <= i < entries@.len() && entries@[i].0@ == key@ && (forall|k: int|
            0 <= k < i ==> (#[trigger] entries@[k]).0@ != key@) ==> (value matches Some(value)
            && value@ == entries@[i].1@),
        (forall|k: int| 0 <= k < entries@.len() ==> (#[trigger] entries@[k]).0@ != key@) ==> value
            is None,
{
    let views = entry_views(entries@);
    assert(json@->Object_0 =~= views);
    if 0 <= i < entries@.len() && entries@[i].0@ == key@ && (forall|k: int|
        0 <= k < i ==> (#[trigger] entries@[k]).0@ != key@) {
        assert forall|j: int| 0 <= j < i implies (#[trigger] views[j]).0 != key@ by {
            assert(entries@[j].0@ != key@);
        }
        assert(keyed(views, key@, i));
        let found = choose|i: int| keyed(views, key@, i);
        lemma_keyed_unique(views, key@, i, found);
        assert(views[i].1 == entries@[i].1@);
    }
    if forall|k: int| 0 <= k < entries@.len() ==> (#[trigger] entries@[k]).0@ != key@ {
        if exists|j: int| keyed(views, key@, j) {
            let j = choose|j: int| keyed(views, key@, j);
            assert(entries@[j].0@ != key@);
        }
    }
}

/// A number is read as an integer where it is one that fits, and what is no number
/// never is; texts are read as texts alone.
pub proof fn numbers_and_texts_are_read_as_they_are(
    json: Json,
    unsigned: Option<u64>,
    signed: Option<i64>,
    text: Option<&String>,
)
    requires
        call_ensures(Json::as_u64, (&json,), unsigned),
        call_ensures(Json::as_i64, (&json,), signed),
        call_ensures(Json::as_text, (&json,), text),
    ensures
        match json {
            Json::Number(JsonNumber::Unsigned(n)) => {
                &&& unsigned == Some(n)
                &&& (n <= i64::MAX ==> (signed matches Some(m) && m == n))
                &&& (n > i64::MAX ==> signed is None)
            },
            Json::Number(JsonNumber::Negative(n)) => unsigned is None && signed == Some(n),
            _ => unsigned is None && signed is None,
        },
        match json {
            Json::Text(own) => text matches Some(text) && text@ == own@,
            _ => text is None,
        },
{
}

/// Null and lists are told by what the value is, whatever they hold.
pub proof fn nulls_and_lists_are_told(value: Json, null: bool, array: bool)
    requires
        call_ensures(Json::is_null, (&value,), null),
        call_ensures(Json::is_array, (&value,), array),
    ensures
        null <==> value@ == JsonView::Null,
        array <==> value@ matches JsonView::Array(_),
{
}

} // verus!
