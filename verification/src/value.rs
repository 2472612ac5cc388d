//! The packet data model: tagged parameter values, an insertion-ordered
//! parameter mapping with unique keys, and the action packet itself.

use vstd::prelude::*;

use crate::floattext::{float_canon, float_token_canon, is_float_syntax};
use crate::number::{parse_int, parse_int_spec};
use crate::text::{chars_of, string_of};

verus! {

/// The mathematical model of a parameter value.
pub enum SpecValue {
    Int(int),
    Float(Seq<char>),
    Text(Seq<char>),
}

/// A parameter value: an integer, numeric decimal-fraction text in canonical
/// form, or plain text.
#[derive(Debug, PartialEq, Eq)]
pub enum Value {
    Int(i64),
    Float(String),
    Text(String),
}

impl View for Value {
    type V = SpecValue;

    open spec fn view(&self) -> SpecValue {
        match self {
            Value::Int(i) => SpecValue::Int(*i as int),
            Value::Float(s) => SpecValue::Float(s@),
            Value::Text(s) => SpecValue::Text(s@),
        }
    }
}

/// What coercing a textual argument yields: an integer when the token parses
/// as one, else canonical float text when the token has float syntax, else
/// the token itself.
pub open spec fn coerce_spec(t: Seq<char>) -> SpecValue {
    if parse_int_spec(t) is Some {
        SpecValue::Int(parse_int_spec(t).unwrap() as int)
    } else if is_float_syntax(t) {
        SpecValue::Float(float_canon(t))
    } else {
        SpecValue::Text(t)
    }
}

/// Coerces a textual argument in numeric-then-text order, exactly as
/// `coerce_spec` describes.
pub fn coerce(tok: &str) -> (v: Value)
    ensures
        v@ == coerce_spec(tok@),
{
    let cs = chars_of(tok);
    match parse_int(cs.as_slice()) {
        Some(i) => Value::Int(i),
        None => match float_token_canon(cs.as_slice()) {
            Some(c) => Value::Float(string_of(&c)),
            None => Value::Text(tok.to_owned()),
        },
    }
}

/// The model of a parameter mapping: key-value pairs in insertion order.
pub type SpecParams = Seq<(Seq<char>, SpecValue)>;

/// The index of the first entry with key `k`, or `s.len()` if none.
pub open spec fn key_idx(s: SpecParams, k: Seq<char>) -> int
    decreases s.len(),
{
    if s.len() == 0 {
        0
    } else if s[0].0 == k {
        0
    } else {
        1 + key_idx(s.drop_first(), k)
    }
}

/// Whether some entry has key `k`.
pub open spec fn has_key(s: SpecParams, k: Seq<char>) -> bool {
    key_idx(s, k) < s.len()
}

/// The value of the first entry with key `k`.
pub open spec fn lookup(s: SpecParams, k: Seq<char>) -> SpecValue {
    s[key_idx(s, k)].1
}

/// Inserting binds `k` to `v`: in place when `k` is present, at the end
/// otherwise.
pub open spec fn map_insert(s: SpecParams, k: Seq<char>, v: SpecValue) -> SpecParams {
    if has_key(s, k) {
        s.update(key_idx(s, k), (k, v))
    } else {
        s.push((k, v))
    }
}

/// Inserting a default binds `k` to `v` only when `k` is absent.
pub open spec fn insert_absent(s: SpecParams, k: Seq<char>, v: SpecValue) -> SpecParams {
    if has_key(s, k) {
        s
    } else {
        s.push((k, v))
    }
}

/// All keys are distinct.
pub open spec fn unique_keys(s: SpecParams) -> bool {
    forall|i: int, j: int| 0 <= i < j < s.len() ==> s[i].0 != s[j].0
}

/// The first-index function points at `k` and nothing before it does.
pub proof fn lemma_key_idx(s: SpecParams, k: Seq<char>)
    ensures
        0 <= key_idx(s, k) <= s.len(),
        key_idx(s, k) < s.len() ==> s[key_idx(s, k)].0 == k,
        forall|j: int| 0 <= j < key_idx(s, k) && j < s.len() ==> s[j].0 != k,
    decreases s.len(),
{
    if s.len() == 0 {
    } else if s[0].0 == k {
    } else {
        lemma_key_idx(s.drop_first(), k);
        assert forall|j: int| 0 <= j < key_idx(s, k) && j < s.len() implies s[j].0 != k by {
            if j > 0 {
                assert(s[j].0 == s.drop_first()[j - 1].0);
            }
        }
    }
}

/// Where the first occurrence of `k` is known, `key_idx` finds it.
pub proof fn lemma_key_idx_is(s: SpecParams, k: Seq<char>, i: int)
    requires
        0 <= i <= s.len(),
        forall|j: int| 0 <= j < i ==> s[j].0 != k,
        i < s.len() ==> s[i].0 == k,
    ensures
        key_idx(s, k) == i,
    decreases s.len(),
{
    if s.len() == 0 {
    } else if i == 0 {
    } else {
        lemma_key_idx_is(s.drop_first(), k, i - 1);
    }
}

/// Appending an entry does not disturb the first occurrence of a present key.
pub proof fn lemma_key_idx_push(s: SpecParams, k: Seq<char>, e: (Seq<char>, SpecValue))
    requires
        has_key(s, k),
    ensures
        key_idx(s.push(e), k) == key_idx(s, k),
    decreases s.len(),
{
    lemma_key_idx(s, k);
    lemma_key_idx_is(s.push(e), k, key_idx(s, k));
}

/// A present key keeps its value when another entry is appended.
pub proof fn lemma_lookup_push(s: SpecParams, k: Seq<char>, e: (Seq<char>, SpecValue))
    requires
        has_key(s, k),
    ensures
        has_key(s.push(e), k),
        lookup(s.push(e), k) == lookup(s, k),
{
    lemma_key_idx(s, k);
    lemma_key_idx_push(s, k, e);
    assert(s.push(e)[key_idx(s, k)] == s[key_idx(s, k)]);
}

/// Appending an entry with an absent key binds exactly that key.
pub proof fn lemma_lookup_push_new(s: SpecParams, k: Seq<char>, v: SpecValue)
    requires
        !has_key(s, k),
    ensures
        has_key(s.push((k, v)), k),
        lookup(s.push((k, v)), k) == v,
{
    lemma_key_idx(s, k);
    lemma_key_idx_is(s.push((k, v)), k, s.len() as int);
}

/// Appending an entry with a different key affects neither presence nor
/// value of `k`.
pub proof fn lemma_has_key_push_other(s: SpecParams, k: Seq<char>, e: (Seq<char>, SpecValue))
    requires
        e.0 != k,
    ensures
        has_key(s.push(e), k) == has_key(s, k),
        has_key(s, k) ==> lookup(s.push(e), k) == lookup(s, k),
{
    lemma_key_idx(s, k);
    if has_key(s, k) {
        lemma_lookup_push(s, k, e);
    } else {
        lemma_key_idx_is(s.push(e), k, s.len() as int + 1);
    }
}

/// Insertion preserves key uniqueness.
pub proof fn lemma_insert_unique(s: SpecParams, k: Seq<char>, v: SpecValue)
    requires
        unique_keys(s),
    ensures
        unique_keys(map_insert(s, k, v)),
        unique_keys(insert_absent(s, k, v)),
{
    lemma_key_idx(s, k);
    if has_key(s, k) {
        let t = s.update(key_idx(s, k), (k, v));
        assert forall|i: int, j: int| 0 <= i < j < t.len() implies t[i].0 != t[j].0 by {
            assert(t[i].0 == s[i].0);
            assert(t[j].0 == s[j].0);
        }
    } else {
        let t = s.push((k, v));
        assert forall|i: int, j: int| 0 <= i < j < t.len() implies t[i].0 != t[j].0 by {
            if j < s.len() {
            } else {
                assert(t[i].0 == s[i].0);
                assert(t[j].0 == k);
            }
        }
    }
}

/// An insertion-ordered mapping from parameter names to values, with unique
/// keys.
#[derive(Debug)]
pub struct ParamMap {
    entries: Vec<(String, Value)>,
}

impl View for ParamMap {
    type V = SpecParams;

    closed spec fn view(&self) -> SpecParams {
        self.entries@.map_values(|e: (String, Value)| (e.0@, e.1@))
    }
}

impl ParamMap {
    /// The well-formedness invariant: no key occurs twice.
    pub open spec fn wf(&self) -> bool {
        unique_keys(self@)
    }

    /// Creates an empty mapping.
    pub fn new() -> (r: ParamMap)
        ensures
            r@ == Seq::<(Seq<char>, SpecValue)>::empty(),
            r.wf(),
    {
        let r = ParamMap { entries: Vec::new() };
        proof {
            assert(r@ =~= Seq::<(Seq<char>, SpecValue)>::empty());
        }
        r
    }

    /// The number of entries.
    pub fn len(&self) -> (r: usize)
        ensures
            r == self@.len(),
    {
        self.entries.len()
    }

    /// The entry at position `i`, in insertion order.
    pub fn entry_at(&self, i: usize) -> (r: &(String, Value))
        requires
            i < self@.len(),
        ensures
            (r.0@, r.1@) == self@[i as int],
    {
        &self.entries[i]
    }

    /// Finds the position of the first entry whose key is `k`.
    fn find(&self, k: &str) -> (r: usize)
        ensures
            r == key_idx(self@, k@),
    {
        let n = self.entries.len();
        let mut i: usize = 0;
        while i < n
            invariant
                i <= n == self.entries@.len(),
                forall|j: int| 0 <= j < i ==> self@[j].0 != k@,
            decreases n - i,
        {
            let cs = chars_of(self.entries[i].0.as_str());
            let kc = chars_of(k);
            if crate::text::chars_eq(cs.as_slice(), kc.as_slice()) {
                proof {
                    lemma_key_idx_is(self@, k@, i as int);
                }
                return i;
            }
            i = i + 1;
        }
        proof {
            lemma_key_idx_is(self@, k@, i as int);
        }
        i
    }

    /// Whether `k` is bound.
    pub fn contains_key(&self, k: &str) -> (r: bool)
        ensures
            r == has_key(self@, k@),
    {
        let i = self.find(k);
        i < self.entries.len()
    }

    /// The value bound to `k`, if any.
    pub fn get(&self, k: &str) -> (r: Option<&Value>)
        ensures
            match r {
                Some(v) => has_key(self@, k@) && v@ == lookup(self@, k@),
                None => !has_key(self@, k@),
            },
    {
        let i = self.find(k);
        if i < self.entries.len() {
            Some(&self.entries[i].1)
        } else {
            None
        }
    }

    /// Binds `k` to `v`: in place when `k` is present, appended otherwise.
    pub fn insert(&mut self, k: String, v: Value)
        ensures
            final(self)@ == map_insert(old(self)@, k@, v@),
            old(self).wf() ==> final(self).wf(),
    {
        proof {
            if unique_keys(self@) {
                lemma_insert_unique(self@, k@, v@);
            }
        }
        let i = self.find(k.as_str());
        if i < self.entries.len() {
            self.entries.remove(i);
            self.entries.insert(i, (k, v));
            proof {
                assert(self@ =~= map_insert(old(self)@, k@, v@));
            }
        } else {
            self.entries.push((k, v));
            proof {
                assert(self@ =~= map_insert(old(self)@, k@, v@));
            }
        }
    }

    /// Binds `k` to `v` only when `k` is absent: how defaults are merged.
    pub fn insert_default(&mut self, k: String, v: Value)
        ensures
            final(self)@ == insert_absent(old(self)@, k@, v@),
            old(self).wf() ==> final(self).wf(),
    {
        proof {
            if unique_keys(self@) {
                lemma_insert_unique(self@, k@, v@);
            }
        }
        let i = self.find(k.as_str());
        if i >= self.entries.len() {
            self.entries.push((k, v));
            proof {
                assert(self@ =~= insert_absent(old(self)@, k@, v@));
            }
        }
    }
}

/// The mathematical model of an action packet.
pub struct PacketModel {
    pub command: Seq<char>,
    pub params: SpecParams,
}

/// A parsed command, ready for encoding: a command tag and its parameters.
#[derive(Debug)]
pub struct ActionPacket {
    pub command: String,
    pub params: ParamMap,
}

impl View for ActionPacket {
    type V = PacketModel;

    open spec fn view(&self) -> PacketModel {
        PacketModel { command: self.command@, params: self.params@ }
    }
}

impl ActionPacket {
    /// The well-formedness invariant: parameter keys are unique.
    pub open spec fn wf(&self) -> bool {
        self.params.wf()
    }
}

} // verus!
