//! A station as the station list describes it: each child element's tag
//! name mapped to its text.
use vstd::prelude::*;

verus! {

/// The fields are kept in the order they were written; a later field
/// overrides an earlier one of the same name.
pub struct StationRecord {
    fields: Vec<(String, String)>,
}

/// The map that a list of (name, text) pairs describes, later pairs winning.
pub open spec fn pairs_map(pairs: Seq<(String, String)>) -> Map<Seq<char>, Seq<char>>
    decreases pairs.len(),
{
    if pairs.len() == 0 {
        Map::empty()
    } else {
        pairs_map(pairs.drop_last()).insert(pairs.last().0@, pairs.last().1@)
    }
}

impl View for StationRecord {
    type V = Map<Seq<char>, Seq<char>>;

    closed spec fn view(&self) -> Map<Seq<char>, Seq<char>> {
        pairs_map(self.fields@)
    }
}

/// Where no pair from `from` on has the key, the map of the first `from`
/// pairs and that of all pairs agree on it.
proof fn lemma_pairs_map_suffix(pairs: Seq<(String, String)>, from: int, key: Seq<char>)
    requires
        0 <= from <= pairs.len(),
        forall|j: int| from <= j < pairs.len() ==> pairs[j].0@ != key,
    ensures
        pairs_map(pairs).contains_key(key) == pairs_map(pairs.take(from)).contains_key(key),
        pairs_map(pairs).contains_key(key) ==> pairs_map(pairs)[key] == pairs_map(pairs.take(from))[key],
    decreases pairs.len() - from,
{
    if from == pairs.len() {
        assert(pairs.take(from) =~= pairs);
    } else {
        lemma_pairs_map_suffix(pairs.drop_last(), from, key);
        assert(pairs.drop_last().take(from) =~= pairs.take(from));
    }
}

impl StationRecord {
    /// A record without fields.
    pub fn new() -> (record: Self)
        ensures
            record@ == Map::<Seq<char>, Seq<char>>::empty(),
    {
        StationRecord { fields: Vec::new() }
    }

    /// Sets the field `key` to `value`.
    pub fn insert(&mut self, key: String, value: String)
        ensures
            final(self)@ == old(self)@.insert(key@, value@),
    {
        let ghost before = self.fields@;
        self.fields.push((key, value));
        assert(self.fields@.drop_last() =~= before);
    }

    /// The text of the field `key`, if the record has one.
    pub fn get(&self, key: &str) -> (value: Option<&String>)
        ensures
            match value {
                Some(v) => self@.contains_key(key@) && self@[key@] == v@,
                None => !self@.contains_key(key@),
            },
            field(self@, key@) == match value {
                Some(v) => Some(v@),
                None => None,
            },
    {
        let mut i = self.fields.len();
        while i > 0
            invariant
                i <= self.fields@.len(),
                forall|j: int| i <= j < self.fields@.len() ==> self.fields@[j].0@ != key@,
            decreases i,
        {
            let k = i - 1;
            if same_text(self.fields[k].0.as_str(), key) {
                proof {
                    lemma_pairs_map_suffix(self.fields@, k + 1, key@);
                    assert(self.fields@.take(k + 1).drop_last() =~= self.fields@.take(k as int));
                }
                return Some(&self.fields[k].1);
            }
            i = k;
        }
        proof {
            lemma_pairs_map_suffix(self.fields@, 0, key@);
        }
        None
    }
}

/// The text of the field `key` of a record's fields, as [`StationRecord::get`] reads it.
pub open spec fn field(fields: Map<Seq<char>, Seq<char>>, key: Seq<char>) -> Option<Seq<char>> {
    if fields.contains_key(key) { Some(fields[key]) } else { None }
}

/// A record after [`StationRecord::insert`] of `value` under `key` reads
/// back `value` there, and every other field as before.
pub proof fn lemma_read_after_write(
    before: StationRecord,
    after: StationRecord,
    key: Seq<char>,
    value: Seq<char>,
    other: Seq<char>,
)
    requires
        after@ == before@.insert(key, value),
    ensures
        field(after@, key) == Some(value),
        other != key ==> field(after@, other) == field(before@, other),
{
}

/// Whether two strings hold the same characters.
pub fn same_text(a: &str, b: &str) -> (same: bool)
    ensures
        same == (a@ == b@),
{
    a.to_owned() == b.to_owned()
}

} // verus!
