//! Model configurations: JSON documents and what is read from them.

use crate::text;
use vstd::prelude::*;

verus! {

/// A number in a configuration, as each of the types it can be read as. A double-precision
/// number is held as its IEEE 754 bit pattern.
#[derive(Debug, Clone, Copy, PartialEq, Eq, Structural)]
pub struct ConfigNumber {
    pub unsigned: Option<u64>,
    pub signed: Option<i64>,
    pub double: Option<u64>,
}

/// A JSON value.
#[derive(Debug)]
pub enum ConfigValue {
    Null,
    Bool(bool),
    Number(ConfigNumber),
    String(String),
    Array(Vec<ConfigValue>),
    Object(Vec<(String, ConfigValue)>),
}

/// The mathematical content of a JSON value.
#[verifier::ext_equal]
pub enum Json {
    Null,
    Bool(bool),
    Number(ConfigNumber),
    String(Seq<char>),
    Array(Seq<Json>),
    Object(Seq<(Seq<char>, Json)>),
}

impl View for ConfigValue {
    type V = Json;

    open spec fn view(&self) -> Json {
        self.model()
    }
}

impl ConfigValue {
    /// The content of the value.
    pub open spec fn model(self) -> Json
        decreases self,
    {
        match self {
            ConfigValue::Null => Json::Null,
            ConfigValue::Bool(b) => Json::Bool(b),
            ConfigValue::Number(n) => Json::Number(n),
            ConfigValue::String(s) => Json::String(s@),
            ConfigValue::Array(items) => Json::Array(
                Seq::new(
                    items@.len(),
                    |i: int|
                        if 0 <= i < items@.len() {
                            items@[i].model()
                        } else {
                            arbitrary()
                        },
                ),
            ),
            ConfigValue::Object(members) => Json::Object(
                Seq::new(
                    members@.len(),
                    |i: int|
                        if 0 <= i < members@.len() {
                            (members@[i].0@, members@[i].1.model())
                        } else {
                            arbitrary()
                        },
                ),
            ),
        }
    }
}

/// The contents of several values.
pub open spec fn models(items: Seq<ConfigValue>) -> Seq<Json> {
    Seq::new(items.len(), |i: int| items[i]@)
}

/// The contents of several members of an object.
pub open spec fn member_models(members: Seq<(String, ConfigValue)>) -> Seq<(Seq<char>, Json)> {
    Seq::new(members.len(), |i: int| (members[i].0@, members[i].1@))
}

/// The content of an array is that of its elements.
pub proof fn lemma_array_view(items: Vec<ConfigValue>)
    ensures
        ConfigValue::Array(items)@ == Json::Array(models(items@)),
{
    let v = ConfigValue::Array(items);
    assert(v@->Array_0 =~= models(items@));
}

/// The content of an object is that of its members.
pub proof fn lemma_object_view(members: Vec<(String, ConfigValue)>)
    ensures
        ConfigValue::Object(members)@ == Json::Object(member_models(members@)),
{
    let v = ConfigValue::Object(members);
    assert(v@->Object_0 =~= member_models(members@));
}

/// The value of the first member with the name `key`.
pub open spec fn find_member(members: Seq<(Seq<char>, Json)>, key: Seq<char>) -> Option<Json>
    decreases members.len(),
{
    if members.len() == 0 {
        None
    } else if members[0].0 == key {
        Some(members[0].1)
    } else {
        find_member(members.drop_first(), key)
    }
}

impl Json {
    /// The member `key` of an object; nothing of any other value.
    pub open spec fn get(self, key: Seq<char>) -> Option<Json> {
        match self {
            Json::Object(members) => find_member(members, key),
            _ => None,
        }
    }

    /// The first element of an array that has one.
    pub open spec fn first(self) -> Option<Json> {
        match self {
            Json::Array(items) => if items.len() > 0 {
                Some(items[0])
            } else {
                None
            },
            _ => None,
        }
    }

    /// The text of a string.
    pub open spec fn as_str(self) -> Option<Seq<char>> {
        match self {
            Json::String(s) => Some(s),
            _ => None,
        }
    }

    /// The number as an unsigned one.
    pub open spec fn as_u64(self) -> Option<u64> {
        match self {
            Json::Number(n) => n.unsigned,
            _ => None,
        }
    }

    /// The number as a signed one.
    pub open spec fn as_i64(self) -> Option<i64> {
        match self {
            Json::Number(n) => n.signed,
            _ => None,
        }
    }

    /// The number as a double-precision bit pattern.
    pub open spec fn as_double(self) -> Option<u64> {
        match self {
            Json::Number(n) => n.double,
            _ => None,
        }
    }
}

impl ConfigValue {
    /// The member `key` of an object; nothing of any other value.
    pub fn get(&self, key: &str) -> (r: Option<&ConfigValue>)
        ensures
            self@.get(key@) == match r {
                Some(v) => Some(v@),
                None => None,
            },
    {
        match self {
            ConfigValue::Object(members) => {
                proof {
                    lemma_object_view(*members);
                }
                let ghost all = member_models(members@);
                assert(all.skip(0) =~= all);
                let mut i: usize = 0;
                while i < members.len()
                    invariant
                        i <= members@.len(),
                        *self == ConfigValue::Object(*members),
                        all == member_models(members@),
                        self@ == Json::Object(all),
                        find_member(all, key@) == find_member(all.skip(i as int), key@),
                    decreases members@.len() - i,
                {
                    proof {
                        assert(all.skip(i as int)[0] == all[i as int]);
                        assert(all.skip(i as int).drop_first() =~= all.skip(i + 1));
                    }
                    if text::same_text(members[i].0.as_str(), key) {
                        return Some(&members[i].1);
                    }
                    i = i + 1;
                }
                None
            },
            _ => None,
        }
    }

    /// The first element of an array that has one.
    pub fn first(&self) -> (r: Option<&ConfigValue>)
        ensures
            self@.first() == match r {
                Some(v) => Some(v@),
                None => None,
            },
    {
        match self {
            ConfigValue::Array(items) => {
                proof {
                    lemma_array_view(*items);
                }
                if items.len() > 0 {
                    Some(&items[0])
                } else {
                    None
                }
            },
            _ => None,
        }
    }

    /// The text of a string.
    pub fn as_str(&self) -> (r: Option<&str>)
        ensures
            self@.as_str() == match r {
                Some(s) => Some(s@),
                None => None,
            },
    {
        match self {
            ConfigValue::String(s) => Some(s.as_str()),
            _ => None,
        }
    }

    /// The number as an unsigned one.
    pub fn as_u64(&self) -> (r: Option<u64>)
        ensures
            r == self@.as_u64(),
    {
        match self {
            ConfigValue::Number(n) => n.unsigned,
            _ => None,
        }
    }

    /// The number as a signed one.
    pub fn as_i64(&self) -> (r: Option<i64>)
        ensures
            r == self@.as_i64(),
    {
        match self {
            ConfigValue::Number(n) => n.signed,
            _ => None,
        }
    }

    /// The number as a double-precision bit pattern.
    pub fn as_double(&self) -> (r: Option<u64>)
        ensures
            r == self@.as_double(),
    {
        match self {
            ConfigValue::Number(n) => n.double,
            _ => None,
        }
    }

    /// Whether the value is null.
    pub fn is_null(&self) -> (r: bool)
        ensures
            r == (self@ is Null),
    {
        match self {
            ConfigValue::Null => true,
            _ => false,
        }
    }
}

impl Clone for ConfigValue {
    /// A value with the same content.
    fn clone(&self) -> (r: ConfigValue)
        ensures
            r@ == self@,
        decreases self,
    {
        match self {
            ConfigValue::Null => ConfigValue::Null,
            ConfigValue::Bool(b) => ConfigValue::Bool(*b),
            ConfigValue::Number(n) => ConfigValue::Number(*n),
            ConfigValue::String(s) => ConfigValue::String(s.clone()),
            ConfigValue::Array(items) => {
                let mut copy: Vec<ConfigValue> = Vec::new();
                let mut i: usize = 0;
                while i < items.len()
                    invariant
                        i <= items@.len(),
                        copy@.len() == i,
                        self matches ConfigValue::Array(v) && v == items,
                        forall|j: int| 0 <= j < i ==> #[trigger] copy@[j]@ == items@[j]@,
                    decreases items@.len() - i,
                {
                    let item = items[i].clone();
                    copy.push(item);
                    i = i + 1;
                }
                proof {
                    lemma_array_view(copy);
                    lemma_array_view(*items);
                    assert(models(copy@) =~= models(items@));
                }
                ConfigValue::Array(copy)
            },
            ConfigValue::Object(members) => {
                let mut copy: Vec<(String, ConfigValue)> = Vec::new();
                let mut i: usize = 0;
                while i < members.len()
                    invariant
                        i <= members@.len(),
                        copy@.len() == i,
                        self matches ConfigValue::Object(v) && v == members,
                        forall|j: int|
                            0 <= j < i ==> (#[trigger] copy@[j]).0@ == members@[j].0@
                                && copy@[j].1@ == members@[j].1@,
                    decreases members@.len() - i,
                {
                    let name = members[i].0.clone();
                    let value = members[i].1.clone();
                    copy.push((name, value));
                    i = i + 1;
                }
                proof {
                    lemma_object_view(copy);
                    lemma_object_view(*members);
                    assert(member_models(copy@) =~= member_models(members@));
                }
                ConfigValue::Object(copy)
            },
        }
    }
}

/// The content of a value is the value itself.
pub proof fn law_config_contents(v: ConfigValue)
    ensures
        match v {
            ConfigValue::Null => v@ == Json::Null,
            ConfigValue::Bool(b) => v@ == Json::Bool(b),
            ConfigValue::Number(n) => v@ == Json::Number(n),
            ConfigValue::String(s) => v@ == Json::String(s@),
            ConfigValue::Array(items) => {
                &&& v@ matches Json::Array(contents)
                &&& contents.len() == items@.len()
                &&& forall|i: int| 0 <= i < items@.len() ==> #[trigger] contents[i] == items@[i]@
            },
            ConfigValue::Object(members) => {
                &&& v@ matches Json::Object(contents)
                &&& contents.len() == members@.len()
                &&& forall|i: int|
                    0 <= i < members@.len() ==> (#[trigger] contents[i]).0 == members@[i].0@
                        && contents[i].1 == members@[i].1@
            },
        },
{
    if let ConfigValue::Array(items) = v {
        lemma_array_view(items);
    }
    if let ConfigValue::Object(members) = v {
        lemma_object_view(members);
    }
}

/// Looking a name up in an object gives the value of the first member with that name, and nothing
/// where no member has it. Any other value has no members.
pub proof fn law_first_member_is_found(members: Seq<(Seq<char>, Json)>, key: Seq<char>, i: int)
    ensures
        0 <= i < members.len() && members[i].0 == key && (forall|j: int|
            0 <= j < i ==> (#[trigger] members[j]).0 != key) ==> Json::Object(members).get(key)
            == Some(members[i].1),
        (forall|j: int| 0 <= j < members.len() ==> (#[trigger] members[j]).0 != key)
            ==> Json::Object(members).get(key) is None,
    decreases members.len(),
{
    if members.len() > 0 {
        let rest = members.drop_first();
        law_first_member_is_found(rest, key, i - 1);
        assert forall|j: int| 0 <= j < rest.len() implies (#[trigger] rest[j]) == members[j + 1] by {
        }
        if members[0].0 != key {
            assert(Json::Object(members).get(key) == Json::Object(rest).get(key));
            if 0 <= i < members.len() && members[i].0 == key && (forall|j: int|
                0 <= j < i ==> (#[trigger] members[j]).0 != key) {
                assert(i > 0);
                assert forall|j: int| 0 <= j < i - 1 implies (#[trigger] rest[j]).0 != key by {
                    assert(rest[j] == members[j + 1]);
                }
            }
        } else if 0 <= i < members.len() && (forall|j: int|
            0 <= j < i ==> (#[trigger] members[j]).0 != key) {
            assert(i == 0 || members[0].0 != key);
        }
        if forall|j: int| 0 <= j < members.len() ==> (#[trigger] members[j]).0 != key {
            assert(members[0].0 != key);
            assert forall|j: int| 0 <= j < rest.len() implies (#[trigger] rest[j]).0 != key by {
                assert(rest[j] == members[j + 1]);
            }
        }
    }
}

/// Only an object has members, only an array has a first element, only a string is a text, and
/// only a number can be read as one, each as what it is.
pub proof fn law_readings(v: Json, key: Seq<char>)
    ensures
        v !is Object ==> v.get(key) is None,
        match v {
            Json::Array(items) => v.first() == if items.len() > 0 {
                Some(items[0])
            } else {
                None
            },
            _ => v.first() is None,
        },
        match v {
            Json::String(s) => v.as_str() == Some(s),
            _ => v.as_str() is None,
        },
        match v {
            Json::Number(n) => v.as_u64() == n.unsigned && v.as_i64() == n.signed && v.as_double()
                == n.double,
            _ => v.as_u64() is None && v.as_i64() is None && v.as_double() is None,
        },
{
}

} // verus!
