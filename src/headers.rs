//! The header map kept beside each cached body, and its JSON object form.
use vstd::prelude::*;
use vstd::string::StringExecFns;
use vstd::utf8::encode_utf8;
use std::collections::BTreeMap;
use crate::error::CacheError;

verus! {

#[verifier::external_type_specification]
#[verifier::external_body]
pub struct ExJsonError(serde_json::Error);

/// A header name and value, as character sequences.
pub type PairView = (Seq<char>, Seq<char>);

/// The members of a JSON object whose values are all strings, each key
/// once, in ascending key order; nothing when the bytes are not such an
/// object.
pub uninterp spec fn decoded_headers(b: Seq<u8>) -> Option<Seq<PairView>>;

/// The JSON object text written for the map that the pairs describe.
pub uninterp spec fn headers_json_of(s: Seq<PairView>) -> Seq<char>;

/// Relies on `serde_json::to_string` on a `BTreeMap<&str, &str>` of the pairs
/// (a later pair wins): writing strings into memory cannot fail, and
/// `serde_json::from_slice` reads the text back as the same map.
#[verifier::external_body]
fn map_to_json(p: &Vec<(String, String)>) -> (r: Result<String, serde_json::Error>)
    ensures
        r is Ok,
        r->Ok_0@ == headers_json_of(pairs_view(p@)),
        decoded_headers(encode_utf8(r->Ok_0@)) is Some,
        map_of(decoded_headers(encode_utf8(r->Ok_0@))->0) == map_of(pairs_view(p@)),
{
    let m: BTreeMap<&str, &str> = p.iter().map(|e| (e.0.as_str(), e.1.as_str())).collect();
    serde_json::to_string(&m)
}

/// Relies on `serde_json::from_slice` into a `BTreeMap<String, String>`: the
/// object's members, each key once, in ascending key order.
#[verifier::external_body]
fn json_object_members(b: &[u8]) -> (r: Result<Vec<(String, String)>, serde_json::Error>)
    ensures
        r is Ok ==> decoded_headers(b@) == Some(pairs_view(r->Ok_0@)),
        r is Err ==> decoded_headers(b@) is None,
        r is Ok ==> keys_unique(pairs_view(r->Ok_0@)),
{
    let m = serde_json::from_slice::<std::collections::BTreeMap<String, String>>(b);
    m.map(|m| m.into_iter().collect())
}

/// The views of a sequence of string pairs.
pub open spec fn pairs_view(v: Seq<(String, String)>) -> Seq<PairView> {
    v.map_values(|p: (String, String)| (p.0@, p.1@))
}

/// No key occurs twice.
pub open spec fn keys_unique(s: Seq<PairView>) -> bool {
    forall|i: int, j: int| 0 <= i < j < s.len() ==> s[i].0 != s[j].0
}

/// The map that a sequence of pairs describes; a later pair wins.
pub open spec fn map_of(s: Seq<PairView>) -> Map<Seq<char>, Seq<char>>
    decreases s.len(),
{
    if s.len() == 0 {
        Map::empty()
    } else {
        map_of(s.drop_last()).insert(s.last().0, s.last().1)
    }
}

/// The bytes decode as a JSON object of strings describing the map.
pub open spec fn decodes_to(b: Seq<u8>, m: Map<Seq<char>, Seq<char>>) -> bool {
    &&& decoded_headers(b) is Some
    &&& map_of(decoded_headers(b)->0) == m
}

/// A key is in the map exactly when some pair carries it.
pub proof fn lemma_map_of_dom(s: Seq<PairView>, k: Seq<char>)
    ensures
        map_of(s).contains_key(k) <==> exists|i: int| 0 <= i < s.len() && s[i].0 == k,
    decreases s.len(),
{
    if s.len() > 0 {
        lemma_map_of_dom(s.drop_last(), k);
        if map_of(s.drop_last()).contains_key(k) {
            let i = choose|i: int| 0 <= i < s.drop_last().len() && s.drop_last()[i].0 == k;
            assert(s[i].0 == k);
        }
        if exists|i: int| 0 <= i < s.len() && s[i].0 == k {
            let i = choose|i: int| 0 <= i < s.len() && s[i].0 == k;
            if i < s.len() - 1 {
                assert(s.drop_last()[i].0 == k);
            }
        }
    }
}

/// With unique keys, the map gives each pair's value for its key.
pub proof fn lemma_map_of_value(s: Seq<PairView>, i: int)
    requires
        keys_unique(s),
        0 <= i < s.len(),
    ensures
        map_of(s).contains_key(s[i].0),
        map_of(s)[s[i].0] == s[i].1,
    decreases s.len(),
{
    if i < s.len() - 1 {
        let t = s.drop_last();
        assert(t[i] == s[i]);
        assert(keys_unique(t));
        lemma_map_of_value(t, i);
    }
}

/// Replacing the value of a present key changes the map at that key alone.
pub proof fn lemma_map_of_update(s: Seq<PairView>, i: int, p: PairView)
    requires
        keys_unique(s),
        0 <= i < s.len(),
        s[i].0 == p.0,
    ensures
        keys_unique(s.update(i, p)),
        map_of(s.update(i, p)) == map_of(s).insert(p.0, p.1),
{
    let t = s.update(i, p);
    assert forall|k: Seq<char>| #[trigger] map_of(t).contains_key(k) == map_of(s).insert(p.0, p.1).contains_key(k)
    by {
        lemma_map_of_dom(s, k);
        lemma_map_of_dom(t, k);
        if map_of(s).contains_key(k) {
            let j = choose|j: int| 0 <= j < s.len() && s[j].0 == k;
            assert(t[j].0 == k);
        }
        if map_of(t).contains_key(k) {
            let j = choose|j: int| 0 <= j < t.len() && t[j].0 == k;
            assert(s[j].0 == k);
        }
        if k == p.0 {
            assert(t[i].0 == k);
        }
    }
    assert forall|k: Seq<char>| #[trigger] map_of(t).contains_key(k) implies
        map_of(t)[k] == map_of(s).insert(p.0, p.1)[k]
    by {
        lemma_map_of_dom(t, k);
        let j = choose|j: int| 0 <= j < t.len() && t[j].0 == k;
        lemma_map_of_value(t, j);
        if j != i {
            lemma_map_of_value(s, j);
        }
    }
    assert(map_of(t) =~= map_of(s).insert(p.0, p.1));
}

/// A key that no pair carries is absent from the map: the map holds no key
/// beyond those it was given.
pub proof fn lemma_absent_key(s: Seq<PairView>, k: Seq<char>)
    requires
        forall|i: int| 0 <= i < s.len() ==> s[i].0 != k,
    ensures
        !map_of(s).contains_key(k),
{
    lemma_map_of_dom(s, k);
}

/// A map from header names to header values, each name once.
pub struct HeadersMap {
    entries: Vec<(String, String)>,
}

impl HeadersMap {
    /// The pairs, in the order they are kept.
    pub closed spec fn pairs(&self) -> Seq<PairView> {
        pairs_view(self.entries@)
    }

    /// Each name occurs once.
    pub open spec fn wf(&self) -> bool {
        keys_unique(self.pairs())
    }

    /// The map that the pairs describe.
    pub open spec fn view(&self) -> Map<Seq<char>, Seq<char>> {
        map_of(self.pairs())
    }

    /// An empty map.
    pub fn new() -> (r: HeadersMap)
        ensures
            r.wf(),
            r.view() == Map::<Seq<char>, Seq<char>>::empty(),
    {
        let r = HeadersMap { entries: Vec::new() };
        assert(r.pairs() =~= Seq::<PairView>::empty());
        r
    }

    fn find(&self, key: &str) -> (r: Option<usize>)
        ensures
            match r {
                Some(i) => i < self.pairs().len() && self.pairs()[i as int].0 == key@,
                None => forall|i: int| 0 <= i < self.pairs().len() ==> self.pairs()[i].0 != key@,
            },
    {
        let k = String::from_str(key);
        let mut i: usize = 0;
        while i < self.entries.len()
            invariant
                i <= self.entries@.len(),
                k@ == key@,
                self.pairs().len() == self.entries@.len(),
                forall|j: int| 0 <= j < i ==> self.pairs()[j].0 != key@,
            decreases self.entries@.len() - i,
        {
            assert(self.pairs()[i as int] == (self.entries@[i as int].0@, self.entries@[i as int].1@));
            if self.entries[i].0 == k {
                return Some(i);
            }
            i = i + 1;
        }
        None
    }

    /// The value of a header, if it is present.
    pub fn get(&self, key: &str) -> (r: Option<String>)
        requires
            self.wf(),
        ensures
            r is Some <==> self.view().contains_key(key@),
            r is Some ==> r->0@ == self.view()[key@],
    {
        proof { lemma_map_of_dom(self.pairs(), key@); }
        match self.find(key) {
            Some(i) => {
                proof { lemma_map_of_value(self.pairs(), i as int); }
                Some(self.entries[i].1.clone())
            },
            None => None,
        }
    }

    /// Sets a header, replacing its earlier value if it had one.
    pub fn insert(&mut self, key: String, value: String)
        requires
            old(self).wf(),
        ensures
            final(self).wf(),
            final(self).view() == old(self).view().insert(key@, value@),
    {
        let ghost old_pairs = self.pairs();
        match self.find(key.as_str()) {
            Some(i) => {
                self.entries.set(i, (key, value));
                assert(self.pairs() =~= old_pairs.update(i as int, (key@, value@)));
                proof { lemma_map_of_update(old_pairs, i as int, (key@, value@)); }
            },
            None => {
                self.entries.push((key, value));
                assert(self.pairs() =~= old_pairs.push((key@, value@)));
                assert(self.pairs().drop_last() =~= old_pairs);
            },
        }
        assert(self.view() =~= old(self).view().insert(key@, value@));
    }

    /// The headers as a JSON object whose values are strings. The text
    /// decodes back to the same map.
    pub fn to_json(&self) -> (r: Result<String, CacheError>)
        ensures
            r is Ok,
            r->Ok_0@ == headers_json_of(self.pairs()),
            decodes_to(encode_utf8(r->Ok_0@), self.view()),
    {
        match map_to_json(&self.entries) {
            Ok(t) => Ok(t),
            Err(_) => Err(CacheError::SerializationError),
        }
    }

    /// Reads headers from a JSON object whose values are all strings.
    pub fn from_json(text: &[u8]) -> (r: Result<HeadersMap, CacheError>)
        ensures
            decoded_headers(text@) is None ==> r == Err::<HeadersMap, CacheError>(
                CacheError::ParseError,
            ),
            decoded_headers(text@) is Some ==> r is Ok && r->Ok_0.wf() && r->Ok_0.pairs()
                == decoded_headers(text@)->0,
            r is Ok ==> decodes_to(text@, r->Ok_0.view()),
    {
        match json_object_members(text) {
            Ok(entries) => Ok(HeadersMap { entries }),
            Err(_) => Err(CacheError::ParseError),
        }
    }
}

} // verus!