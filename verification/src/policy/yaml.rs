//! YAML documents as plain values.
use vstd::prelude::*;

use crate::text;

verus! {

/// A YAML value.
#[derive(Debug)]
pub enum Yaml {
    Null,
    Bool(bool),
    /// A number: as an unsigned 64-bit integer, where one holds it, and as it is written.
    Number(Option<u64>, String),
    Text(String),
    List(Vec<Yaml>),
    Mapping(Vec<(Yaml, Yaml)>),
    /// A value with a tag before it.
    Tagged(String, Box<Yaml>),
}

/// `serde_yaml::Value`, the tree that its reader builds.
#[verifier::external_type_specification]
#[verifier::external_body]
pub struct ExValue(serde_yaml::Value);

/// The plain value that a `serde_yaml::Value` holds.
pub uninterp spec fn yaml_contents(v: serde_yaml::Value) -> Yaml;

/// What `serde_yaml::from_str` makes of a text: the value, or the sentence by which its error
/// describes itself.
pub uninterp spec fn parsed_yaml(s: Seq<char>) -> Result<Yaml, Seq<char>>;

/// What the reader returned, as plain values.
pub open spec fn value_view(r: Result<serde_yaml::Value, String>) -> Result<Yaml, Seq<char>> {
    match r {
        Ok(v) => Ok(yaml_contents(v)),
        Err(m) => Err(m@),
    }
}

/// A plain value or the text of an error.
pub open spec fn yaml_view(r: Result<Yaml, String>) -> Result<Yaml, Seq<char>> {
    match r {
        Ok(v) => Ok(v),
        Err(m) => Err(m@),
    }
}

/// `serde_yaml::from_str` into a `serde_yaml::Value`. What the grammar makes of a text is left
/// to that crate; the value, or the error's sentence, depends on the text alone.
#[verifier::external_body]
fn parse_yaml(s: &str) -> (r: Result<serde_yaml::Value, String>)
    ensures
        value_view(r) == parsed_yaml(s@),
{
    serde_yaml::from_str(s).map_err(|e: serde_yaml::Error| e.to_string())
}

/// A `serde_yaml::Value`, variant for variant. A number is kept as `Number::as_u64` gives it and as
/// its `Display` writes it, a tag as its `Display` writes it.
#[verifier::external_body]
fn plain_value(v: serde_yaml::Value) -> (r: Yaml)
    ensures
        r == yaml_contents(v),
{
    match v {
        serde_yaml::Value::Null => Yaml::Null,
        serde_yaml::Value::Bool(b) => Yaml::Bool(b),
        serde_yaml::Value::Number(n) => Yaml::Number(n.as_u64(), n.to_string()),
        serde_yaml::Value::String(s) => Yaml::Text(s),
        serde_yaml::Value::Sequence(s) => Yaml::List(s.into_iter().map(plain_value).collect()),
        serde_yaml::Value::Mapping(m) => {
            Yaml::Mapping(m.into_iter().map(|(k, v)| (plain_value(k), plain_value(v))).collect())
        }
        serde_yaml::Value::Tagged(t) => Yaml::Tagged(t.tag.to_string(), Box::new(plain_value(t.value))),
    }
}

/// Reads a YAML text.
pub fn read_yaml(s: &str) -> (r: Result<Yaml, String>)
    ensures
        yaml_view(r) == parsed_yaml(s@),
{
    match parse_yaml(s) {
        Ok(v) => Ok(plain_value(v)),
        Err(m) => Err(m),
    }
}

/// A value without the tags before it.
pub open spec fn untagged(y: Yaml) -> Yaml
    decreases y,
{
    match y {
        Yaml::Tagged(_, inner) => untagged(*inner),
        _ => y,
    }
}

/// The value behind the first entry of a mapping whose key is the text `key`.
pub open spec fn entry(m: Seq<(Yaml, Yaml)>, key: Seq<char>) -> Option<Yaml>
    decreases m.len(),
{
    if m.len() == 0 {
        None
    } else if m[0].0 matches Yaml::Text(k) && k@ == key {
        Some(m[0].1)
    } else {
        entry(m.skip(1), key)
    }
}

/// The value that `y` holds under `key`, where it is a mapping with such an entry.
pub open spec fn field(y: Yaml, key: Seq<char>) -> Option<Yaml> {
    match untagged(y) {
        Yaml::Mapping(m) => entry(m@, key),
        _ => None,
    }
}

/// The value that `y` holds under `key`, or null.
pub open spec fn at(y: Yaml, key: Seq<char>) -> Yaml {
    match field(y, key) {
        Some(v) => v,
        None => Yaml::Null,
    }
}

/// The text that `y` is.
pub open spec fn as_text(y: Yaml) -> Option<Seq<char>> {
    match untagged(y) {
        Yaml::Text(s) => Some(s@),
        _ => None,
    }
}

/// The truth value that `y` is.
pub open spec fn as_truth(y: Yaml) -> Option<bool> {
    match untagged(y) {
        Yaml::Bool(b) => Some(b),
        _ => None,
    }
}

/// The unsigned number that `y` is.
pub open spec fn as_number(y: Yaml) -> Option<u64> {
    match untagged(y) {
        Yaml::Number(n, _) => n,
        _ => None,
    }
}

/// The elements of the list that `y` is.
pub open spec fn as_list(y: Yaml) -> Option<Seq<Yaml>> {
    match untagged(y) {
        Yaml::List(v) => Some(v@),
        _ => None,
    }
}

/// The texts among the elements of a list, in order.
pub open spec fn texts_among(list: Seq<Yaml>) -> Seq<Seq<char>>
    decreases list.len(),
{
    if list.len() == 0 {
        Seq::empty()
    } else {
        let before = texts_among(list.drop_last());
        match as_text(list.last()) {
            Some(s) => before.push(s),
            None => before,
        }
    }
}

/// The texts of the list under `key`, or none where there is no list.
pub open spec fn texts_at(y: Yaml, key: Seq<char>) -> Seq<Seq<char>> {
    match as_list(at(y, key)) {
        Some(list) => texts_among(list),
        None => Seq::empty(),
    }
}

impl Yaml {
    /// The value without the tags before it.
    pub fn untag(&self) -> (r: &Yaml)
        ensures
            *r == untagged(*self),
        decreases self,
    {
        match self {
            Yaml::Tagged(_, inner) => inner.untag(),
            _ => self,
        }
    }

    /// The value under `key`.
    pub fn get(&self, key: &str) -> (r: Option<&Yaml>)
        ensures
            r is Some <==> field(*self, key@) is Some,
            r matches Some(v) ==> field(*self, key@) == Some(*v),
    {
        match self.untag() {
            Yaml::Mapping(m) => {
                let mut i: usize = 0;
                proof {
                    assert(m@.skip(0) =~= m@);
                }
                while i < m.len()
                    invariant
                        i <= m@.len(),
                        untagged(*self) == Yaml::Mapping(*m),
                        entry(m@, key@) == entry(m@.skip(i as int), key@),
                    decreases m@.len() - i,
                {
                    let ghost rest = m@.skip(i as int);
                    let here = match &m[i].0 {
                        Yaml::Text(k) => text::same(k.as_str(), key),
                        _ => false,
                    };
                    proof {
                        assert(rest[0] == m@[i as int]);
                        assert(rest.skip(1) =~= m@.skip(i + 1));
                    }
                    if here {
                        return Some(&m[i].1);
                    }
                    i = i + 1;
                }
                None
            },
            _ => None,
        }
    }

    /// The text that the value under `key` is.
    pub fn text_at(&self, key: &str) -> (r: Option<String>)
        ensures
            text::opt(r) == as_text(at(*self, key@)),
    {
        match self.get(key) {
            Some(v) => match v.untag() {
                Yaml::Text(s) => Some(s.clone()),
                _ => None,
            },
            None => None,
        }
    }

    /// The truth value that the value under `key` is.
    pub fn truth_at(&self, key: &str) -> (r: Option<bool>)
        ensures
            r == as_truth(at(*self, key@)),
    {
        match self.get(key) {
            Some(v) => match v.untag() {
                Yaml::Bool(b) => Some(*b),
                _ => None,
            },
            None => None,
        }
    }

    /// The unsigned number that the value under `key` is.
    pub fn number_at(&self, key: &str) -> (r: Option<u64>)
        ensures
            r == as_number(at(*self, key@)),
    {
        match self.get(key) {
            Some(v) => match v.untag() {
                Yaml::Number(n, _) => *n,
                _ => None,
            },
            None => None,
        }
    }

    /// The list that the value under `key` is.
    pub fn list_at(&self, key: &str) -> (r: Option<&Vec<Yaml>>)
        ensures
            r is Some <==> as_list(at(*self, key@)) is Some,
            r matches Some(v) ==> as_list(at(*self, key@)) == Some(v@),
    {
        match self.get(key) {
            Some(v) => match v.untag() {
                Yaml::List(list) => Some(list),
                _ => None,
            },
            None => None,
        }
    }

    /// The texts of the list under `key`.
    pub fn strings_at(&self, key: &str) -> (r: Vec<String>)
        ensures
            text::texts(r@) == texts_at(*self, key@),
    {
        let mut out: Vec<String> = Vec::new();
        proof {
            assert(text::texts(out@) =~= Seq::<Seq<char>>::empty());
        }
        if let Some(list) = self.list_at(key) {
            let mut i: usize = 0;
            while i < list.len()
                invariant
                    i <= list@.len(),
                    text::texts(out@) == texts_among(list@.take(i as int)),
                decreases list@.len() - i,
            {
                let ghost done = text::texts(out@);
                proof {
                    assert(list@.take(i + 1).drop_last() =~= list@.take(i as int));
                }
                if let Yaml::Text(s) = list[i].untag() {
                    out.push(s.clone());
                    proof {
                        assert(text::texts(out@) =~= done.push(s@));
                    }
                }
                i = i + 1;
            }
            proof {
                assert(list@.take(i as int) =~= list@);
            }
        }
        out
    }
}

} // verus!
