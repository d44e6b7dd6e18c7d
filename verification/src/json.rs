//! JSON values as the request bodies of this client build them.

use vstd::prelude::*;

verus! {

/// A JSON value under construction.
pub enum JsonValue {
    /// `true` or `false`.
    Bool(bool),
    /// An unsigned integer.
    Integer(u64),
    /// A string.
    Text(String),
    /// A value given already encoded as JSON text (a number, or a value taken
    /// from a JSON argument), sent as that text encodes it.
    Encoded(String),
    /// An array.
    Array(Vec<JsonValue>),
    /// An object.
    Object(JsonObject),
}

/// A JSON object: members in insertion order, where a later member replaces an
/// earlier one with the same key.
pub struct JsonObject {
    /// The members, in insertion order.
    pub entries: Vec<(String, JsonValue)>,
}

/// The meaning of a JSON value.
pub enum Json {
    Bool(bool),
    Integer(u64),
    Text(Seq<char>),
    Encoded(Seq<char>),
    Array(Seq<Json>),
    Object(Map<Seq<char>, Json>),
}

/// The meaning of a value.
pub open spec fn model(v: JsonValue) -> Json
    decreases v,
{
    match v {
        JsonValue::Bool(b) => Json::Bool(b),
        JsonValue::Integer(n) => Json::Integer(n),
        JsonValue::Text(s) => Json::Text(s@),
        JsonValue::Encoded(s) => Json::Encoded(s@),
        JsonValue::Array(items) => Json::Array(models(items@)),
        JsonValue::Object(o) => Json::Object(members(o.entries@)),
    }
}

/// The meanings of a list of values.
pub open spec fn models(items: Seq<JsonValue>) -> Seq<Json>
    decreases items,
{
    if items.len() == 0 {
        seq![]
    } else {
        models(items.drop_last()).push(model(items.last()))
    }
}

/// The members of an object: each key with the value inserted last.
pub open spec fn members(es: Seq<(String, JsonValue)>) -> Map<Seq<char>, Json>
    decreases es,
{
    if es.len() == 0 {
        Map::empty()
    } else {
        members(es.drop_last()).insert(es.last().0@, model(es.last().1))
    }
}

impl View for JsonValue {
    type V = Json;

    open spec fn view(&self) -> Json {
        model(*self)
    }
}

impl View for JsonObject {
    type V = Map<Seq<char>, Json>;

    open spec fn view(&self) -> Map<Seq<char>, Json> {
        members(self.entries@)
    }
}

proof fn lemma_models_len(items: Seq<JsonValue>)
    ensures
        models(items).len() == items.len(),
        forall|i: int| 0 <= i < items.len() ==> #[trigger] models(items)[i] == model(items[i]),
    decreases items.len(),
{
    if items.len() > 0 {
        lemma_models_len(items.drop_last());
        assert forall|i: int| 0 <= i < items.len() implies #[trigger] models(items)[i] == model(
            items[i],
        ) by {
            if i < items.len() - 1 {
                assert(items.drop_last()[i] == items[i]);
            }
        }
    }
}

/// The members of a concatenation: the second list's members win.
proof fn lemma_members_append(a: Seq<(String, JsonValue)>, b: Seq<(String, JsonValue)>)
    ensures
        members(a + b) == members(a).union_prefer_right(members(b)),
    decreases b.len(),
{
    if b.len() == 0 {
        assert(a + b =~= a);
        assert(members(a).union_prefer_right(members(b)) =~= members(a));
    } else {
        lemma_members_append(a, b.drop_last());
        assert((a + b).drop_last() =~= a + b.drop_last());
        assert((a + b).last() == b.last());
        assert(members(a + b) =~= members(a).union_prefer_right(members(b)));
    }
}

/// An array of values.
pub fn json_array(items: Vec<JsonValue>) -> (v: JsonValue)
    ensures
        v@ == Json::Array(Seq::new(items@.len(), |i: int| items@[i]@)),
{
    proof {
        lemma_models_len(items@);
    }
    let v = JsonValue::Array(items);
    assert(models(items@) =~= Seq::new(items@.len(), |i: int| items@[i]@));
    v
}

impl JsonObject {
    /// An object without members.
    pub fn new() -> (o: JsonObject)
        ensures
            o@ == Map::<Seq<char>, Json>::empty(),
    {
        JsonObject { entries: Vec::new() }
    }

    /// Sets `key` to `value`, replacing any earlier value.
    pub fn insert(&mut self, key: String, value: JsonValue)
        ensures
            final(self)@ == old(self)@.insert(key@, value@),
    {
        let ghost before = self.entries@;
        self.entries.push((key, value));
        assert(self.entries@.drop_last() =~= before);
    }

    /// Whether the object has no members.
    pub fn is_empty(&self) -> (b: bool)
        ensures
            b == (self@ == Map::<Seq<char>, Json>::empty()),
    {
        if self.entries.len() == 0 {
            true
        } else {
            assert(self@.dom().contains(self.entries@.last().0@));
            false
        }
    }

    /// Adds every member of `other`, replacing earlier values of the same keys.
    pub fn extend(&mut self, other: JsonObject)
        ensures
            final(self)@ == old(self)@.union_prefer_right(other@),
    {
        let ghost a = self.entries@;
        let ghost b = other.entries@;
        let mut rest = other.entries;
        self.entries.append(&mut rest);
        assert(self.entries@ =~= a + b);
        proof {
            lemma_members_append(a, b);
        }
    }
}

/// Entries after `i` do not have key `k`, so the members of `es` and of its
/// first `i` entries agree on `k`.
proof fn lemma_members_take(es: Seq<(String, JsonValue)>, i: int, k: Seq<char>)
    requires
        0 <= i <= es.len(),
        forall|j: int| i <= j < es.len() ==> (#[trigger] es[j]).0@ != k,
    ensures
        members(es).contains_key(k) == members(es.take(i)).contains_key(k),
        members(es).contains_key(k) ==> members(es)[k] == members(es.take(i))[k],
    decreases es.len() - i,
{
    if i < es.len() {
        assert(es.drop_last().take(i) =~= es.take(i));
        lemma_members_take(es.drop_last(), i, k);
        assert(es.last().0@ != k);
    } else {
        assert(es.take(i) =~= es);
    }
}

impl JsonObject {
    /// The value of `key`, if the object has one.
    pub fn get(&self, key: &str) -> (r: Option<&JsonValue>)
        ensures
            match r {
                Some(v) => self@.contains_key(key@) && self@[key@] == v@,
                None => !self@.contains_key(key@),
            },
    {
        let ghost es = self.entries@;
        let mut i = self.entries.len();
        while i > 0
            invariant
                i <= es.len(),
                es == self.entries@,
                forall|j: int| i <= j < es.len() ==> (#[trigger] es[j]).0@ != key@,
            decreases i,
        {
            if self.entries[i - 1].0 == key.to_owned() {
                proof {
                    lemma_members_take(es, i as int, key@);
                    assert(es.take(i as int).drop_last() =~= es.take(i - 1));
                    assert(es.take(i as int).last() == es[i - 1]);
                }
                return Some(&self.entries[i - 1].1);
            }
            i -= 1;
        }
        proof {
            lemma_members_take(es, 0, key@);
            assert(es.take(0) =~= Seq::<(String, JsonValue)>::empty());
        }
        None
    }
}

impl JsonValue {
    /// The string this value is, if it is one.
    pub fn as_text(&self) -> (r: Option<&String>)
        ensures
            match r {
                Some(s) => self@ == Json::Text(s@),
                None => !(self@ is Text),
            },
    {
        match self {
            JsonValue::Text(s) => Some(s),
            _ => None,
        }
    }

    /// The encoded text this value holds, if it holds one.
    pub fn as_encoded(&self) -> (r: Option<&String>)
        ensures
            match r {
                Some(s) => self@ == Json::Encoded(s@),
                None => !(self@ is Encoded),
            },
    {
        match self {
            JsonValue::Encoded(s) => Some(s),
            _ => None,
        }
    }

    /// The boolean this value is, if it is one.
    pub fn as_bool(&self) -> (r: Option<bool>)
        ensures
            match r {
                Some(b) => self@ == Json::Bool(b),
                None => !(self@ is Bool),
            },
    {
        match self {
            JsonValue::Bool(b) => Some(*b),
            _ => None,
        }
    }

    /// The integer this value is, if it is one.
    pub fn as_integer(&self) -> (r: Option<u64>)
        ensures
            match r {
                Some(n) => self@ == Json::Integer(n),
                None => !(self@ is Integer),
            },
    {
        match self {
            JsonValue::Integer(n) => Some(*n),
            _ => None,
        }
    }

    /// The object this value is, if it is one.
    pub fn as_object(&self) -> (r: Option<&JsonObject>)
        ensures
            match r {
                Some(o) => self@ == Json::Object(o@),
                None => !(self@ is Object),
            },
    {
        match self {
            JsonValue::Object(o) => Some(o),
            _ => None,
        }
    }

    /// The elements of this value, if it is an array.
    pub fn as_array(&self) -> (r: Option<&Vec<JsonValue>>)
        ensures
            match r {
                Some(items) => self@ == Json::Array(Seq::new(items@.len(), |i: int| items@[i]@)),
                None => !(self@ is Array),
            },
    {
        match self {
            JsonValue::Array(items) => {
                proof {
                    lemma_models_len(items@);
                    assert(models(items@) =~= Seq::new(items@.len(), |i: int| items@[i]@));
                }
                Some(items)
            },
            _ => None,
        }
    }

    /// The value of `key`, if this value is an object that has one.
    pub fn get(&self, key: &str) -> (r: Option<&JsonValue>)
        ensures
            match r {
                Some(v) => self@ matches Json::Object(m) && m.contains_key(key@) && m[key@] == v@,
                None => !(self@ matches Json::Object(m) && m.contains_key(key@)),
            },
    {
        match self {
            JsonValue::Object(o) => o.get(key),
            _ => None,
        }
    }

    /// The `i`-th element, if this value is an array that long.
    pub fn at(&self, i: usize) -> (r: Option<&JsonValue>)
        ensures
            match r {
                Some(v) => self@ matches Json::Array(items) && i < items.len() && items[i as int]
                    == v@,
                None => !(self@ matches Json::Array(items) && i < items.len()),
            },
    {
        match self {
            JsonValue::Array(items) => {
                proof {
                    lemma_models_len(items@);
                }
                if i < items.len() {
                    Some(&items[i])
                } else {
                    None
                }
            },
            _ => None,
        }
    }
}

} // verus!
