//! A parsed JSON value.

use vstd::prelude::*;

use crate::decimal;
use crate::decimal::Decimal;
use crate::text;

verus! {

/// A JSON value. A number is kept as it was written, and the members of an object stand in the
/// order in which they are to be visited.
#[derive(Debug)]
pub enum Json {
    Null,
    Bool(bool),
    Number(String),
    Text(String),
    Array(Vec<Json>),
    Object(Vec<(String, Json)>),
}

impl Json {
    /// The place of the first member called `key`.
    pub open spec fn member_place(members: Seq<(String, Json)>, key: Seq<char>, i: int) -> bool {
        &&& 0 <= i < members.len()
        &&& members[i].0@ == key
        &&& forall|j: int| 0 <= j < i ==> (#[trigger] members[j]).0@ != key
    }

    /// The member called `key`, where the value is an object that has one.
    pub open spec fn member(self, key: Seq<char>) -> Option<Json> {
        match self {
            Json::Object(members) => if exists|i: int|
                Json::member_place(members@, key, i) {
                Some(members@[choose|i: int| Json::member_place(members@, key, i)].1)
            } else {
                None
            },
            _ => None,
        }
    }

    /// The text, where the value is one.
    pub open spec fn text_of(self) -> Option<Seq<char>> {
        match self {
            Json::Text(s) => Some(s@),
            _ => None,
        }
    }

    /// The whole number, where the value is one or the text of one.
    pub open spec fn number(self) -> Option<u64> {
        match self {
            Json::Number(s) => match text::number_upto(s@, u64::MAX as nat) {
                Some(n) => Some(n as u64),
                None => None,
            },
            Json::Text(s) => text::number_in(s@),
            _ => None,
        }
    }

    /// The decimal, where the value is one or the text of one.
    pub open spec fn decimal_of(self) -> Option<Decimal> {
        match self {
            Json::Number(s) => decimal::decimal_parsed(s@),
            Json::Text(s) => decimal::decimal_parsed(text::trimmed(s@)),
            _ => None,
        }
    }

    /// The whole number, where the value is one or the text of one.
    pub fn as_u64(&self) -> (r: Option<u64>)
        ensures
            r == self.number(),
    {
        match self {
            Json::Number(s) => text::parse_plain_number(s.as_str()),
            Json::Text(s) => text::parse_number(s.as_str()),
            _ => None,
        }
    }

    /// The decimal, where the value is one or the text of one. No digit is lost.
    pub fn as_decimal(&self) -> (r: Option<Decimal>)
        ensures
            r == self.decimal_of(),
    {
        match self {
            Json::Number(s) => Decimal::parse(s.as_str()),
            Json::Text(s) => Decimal::parse(text::trim(s.as_str())),
            _ => None,
        }
    }

    /// The member called `key`, where the value is an object that has one.
    pub fn get(&self, key: &str) -> (r: Option<&Json>)
        ensures
            r matches Some(v) ==> self.member(key@) == Some(*v),
            r is None ==> self.member(key@) is None,
    {
        match self {
            Json::Object(members) => {
                let n: usize = members.len();
                let mut i: usize = 0;
                while i < n
                    invariant
                        i <= n,
                        n == members@.len(),
                        *self == Json::Object(*members),
                        forall|j: int| 0 <= j < i ==> (#[trigger] members@[j]).0@ != key@,
                    decreases n - i,
                {
                    if text::same_text(members[i].0.as_str(), key) {
                        proof {
                            assert(Json::member_place(members@, key@, i as int));
                            let c = choose|c: int| Json::member_place(members@, key@, c);
                            assert(c == i);
                        }
                        return Some(&members[i].1);
                    }
                    i += 1;
                }
                None
            },
            _ => None,
        }
    }

    /// Whether the value is an object.
    pub fn is_object(&self) -> (r: bool)
        ensures
            r == (self is Object),
    {
        matches!(self, Json::Object(_))
    }

    /// The text, where the value is one.
    pub fn as_text(&self) -> (r: Option<&String>)
        ensures
            r matches Some(s) ==> self.text_of() == Some(s@),
            r is None ==> self.text_of() is None,
    {
        match self {
            Json::Text(s) => Some(s),
            _ => None,
        }
    }
}

/// A member is found by its name wherever it stands; of several with one name it is the first. There is
/// none where no member has the name, and none in what is no object.
pub proof fn law_members_are_found_by_name(members: Vec<(String, Json)>, key: Seq<char>, i: int)
    ensures
        0 <= i < members@.len() && members@[i].0@ == key && (forall|j: int|
            0 <= j < i ==> (#[trigger] members@[j]).0@ != key) ==> Json::Object(members).member(key)
            == Some(members@[i].1),
        (forall|j: int| 0 <= j < members@.len() ==> (#[trigger] members@[j]).0@ != key)
            ==> Json::Object(members).member(key) is None,
        Json::Null.member(key) is None,
{
    if 0 <= i < members@.len() && members@[i].0@ == key && (forall|j: int|
        0 <= j < i ==> (#[trigger] members@[j]).0@ != key) {
        assert(Json::member_place(members@, key, i));
        let k = choose|k: int| Json::member_place(members@, key, k);
        assert(members@[k].0@ == key);
        assert(members@[i].0@ == key);
        assert(k == i);
    }
}

/// A whole number is read the same whether it is written as a number or as text, with white space
/// around its digits or without.
pub proof fn law_numbers_are_read_either_way(
    n: u64,
    plain: String,
    quoted: String,
    before: Seq<char>,
    after: Seq<char>,
)
    requires
        plain@ == text::digits(n as nat),
        quoted@ == before + text::digits(n as nat) + after,
        text::all_white(before),
        text::all_white(after),
    ensures
        Json::Number(plain).number() == Some(n),
        Json::Text(quoted).number() == Some(n),
{
    text::lemma_digits(n as nat);
    assert(text::is_digit(plain@[0]));
    text::law_number_is_read_back(n, before, after);
}

} // verus!
