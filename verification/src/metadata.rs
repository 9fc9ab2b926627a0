//! A small insertion-ordered map from text to text, attached to change
//! records as free-form metadata.

use vstd::prelude::*;
use crate::text::same_text;

verus! {

/// A mapping from keys to values in which every key occurs once; entries keep
/// the order in which their keys were first inserted.
#[derive(Debug)]
pub struct Metadata {
    entries: Vec<(String, String)>,
}

/// The value that the first entry with key `key` among `entries[from..]`
/// holds.
pub open spec fn lookup_from(entries: Seq<(Seq<char>, Seq<char>)>, key: Seq<char>, from: int) -> Option<
    Seq<char>,
>
    decreases entries.len() - from,
{
    if from < 0 || from >= entries.len() {
        None
    } else if entries[from].0 == key {
        Some(entries[from].1)
    } else {
        lookup_from(entries, key, from + 1)
    }
}

/// The value stored under `key`, if any.
pub open spec fn lookup(entries: Seq<(Seq<char>, Seq<char>)>, key: Seq<char>) -> Option<Seq<char>> {
    lookup_from(entries, key, 0)
}

/// No key occurs in two entries.
pub open spec fn distinct_keys(entries: Seq<(Seq<char>, Seq<char>)>) -> bool {
    forall|i: int, j: int| 0 <= i < j < entries.len() ==> entries[i].0 != entries[j].0
}

/// `entries` with `value` stored under `key`: in place where the key is
/// present, at the end where it is not.
pub open spec fn stored(entries: Seq<(Seq<char>, Seq<char>)>, key: Seq<char>, value: Seq<char>) -> Seq<
    (Seq<char>, Seq<char>),
>
    decreases entries.len(),
{
    if entries.len() == 0 {
        seq![(key, value)]
    } else if entries[0].0 == key {
        seq![(key, value)] + entries.drop_first()
    } else {
        seq![entries[0]] + stored(entries.drop_first(), key, value)
    }
}

/// Storing keeps keys distinct, binds the key to the value and leaves every
/// other key as it was.
pub proof fn lemma_stored(entries: Seq<(Seq<char>, Seq<char>)>, key: Seq<char>, value: Seq<char>)
    requires
        distinct_keys(entries),
    ensures
        distinct_keys(stored(entries, key, value)),
        lookup(stored(entries, key, value), key) == Some(value),
        forall|k: Seq<char>| k != key ==> lookup(stored(entries, key, value), k) == lookup(entries, k),
        forall|i: int|
            0 <= i < stored(entries, key, value).len() ==> #[trigger] stored(entries, key, value)[i].0
                == key || exists|j: int|
                0 <= j < entries.len() && entries[j].0 == stored(entries, key, value)[i].0,
        stored(entries, key, value).len() >= 1,
    decreases entries.len(),
{
    let out = stored(entries, key, value);
    if entries.len() == 0 {
        assert(lookup_from(out, key, 0) == Some(value));
        assert forall|k: Seq<char>| k != key implies lookup(out, k) == lookup(entries, k) by {
            assert(lookup_from(out, k, 1) == None::<Seq<char>>);
        }
    } else if entries[0].0 == key {
        assert forall|k: Seq<char>| k != key implies lookup(out, k) == lookup(entries, k) by {
            lemma_lookup_shift(out, entries, k, 1);
        }
        assert forall|i: int| 0 <= i < out.len() implies #[trigger] out[i].0 == key || exists|j: int|
            0 <= j < entries.len() && entries[j].0 == out[i].0 by {
            if i > 0 {
                assert(out[i] == entries[i]);
            }
        }
    } else {
        let rest = entries.drop_first();
        assert(distinct_keys(rest)) by {
            assert forall|i: int, j: int| 0 <= i < j < rest.len() implies rest[i].0 != rest[j].0 by {
                assert(rest[i] == entries[i + 1] && rest[j] == entries[j + 1]);
            }
        }
        lemma_stored(rest, key, value);
        let tail = stored(rest, key, value);
        assert(out.drop_first() =~= tail);
        assert forall|i: int| 0 <= i < out.len() implies #[trigger] out[i].0 == key || exists|j: int|
            0 <= j < entries.len() && entries[j].0 == out[i].0 by {
            if i > 0 {
                assert(out[i] == tail[i - 1]);
                if tail[i - 1].0 != key {
                    let j = choose|j: int| 0 <= j < rest.len() && rest[j].0 == tail[i - 1].0;
                    assert(entries[j + 1] == rest[j]);
                }
            } else {
                assert(entries[0].0 == out[0].0);
            }
        }
        assert(distinct_keys(out)) by {
            assert forall|i: int, j: int| 0 <= i < j < out.len() implies out[i].0 != out[j].0 by {
                assert(out[j] == tail[j - 1]);
                if i == 0 {
                    if tail[j - 1].0 != key {
                        let m = choose|m: int| 0 <= m < rest.len() && rest[m].0 == tail[j - 1].0;
                        assert(entries[m + 1] == rest[m]);
                    }
                } else {
                    assert(out[i] == tail[i - 1]);
                }
            }
        }
        lemma_lookup_drop_first(out, key);
        lemma_lookup_tail(out, tail, key);
        assert forall|k: Seq<char>| k != key implies lookup(out, k) == lookup(entries, k) by {
            lemma_lookup_tail(out, tail, k);
            lemma_lookup_tail(entries, rest, k);
        }
    }
}

/// Two lists that agree from `from` on look up alike from there.
proof fn lemma_lookup_shift(
    a: Seq<(Seq<char>, Seq<char>)>,
    b: Seq<(Seq<char>, Seq<char>)>,
    key: Seq<char>,
    from: int,
)
    requires
        a.len() == b.len(),
        0 <= from,
        forall|i: int| from <= i < a.len() ==> a[i] == b[i],
    ensures
        lookup_from(a, key, from) == lookup_from(b, key, from),
    decreases a.len() - from,
{
    if from < a.len() {
        lemma_lookup_shift(a, b, key, from + 1);
    }
}

/// Looking up in a list's tail from `from` is looking up in the list from
/// `from + 1`.
proof fn lemma_lookup_offset(
    a: Seq<(Seq<char>, Seq<char>)>,
    tail: Seq<(Seq<char>, Seq<char>)>,
    key: Seq<char>,
    from: int,
)
    requires
        a.len() > 0,
        tail == a.drop_first(),
        0 <= from,
    ensures
        lookup_from(tail, key, from) == lookup_from(a, key, from + 1),
    decreases tail.len() - from,
{
    if from < tail.len() {
        assert(tail[from] == a[from + 1]);
        lemma_lookup_offset(a, tail, key, from + 1);
    }
}

proof fn lemma_lookup_drop_first(a: Seq<(Seq<char>, Seq<char>)>, key: Seq<char>)
    requires
        a.len() > 0,
    ensures
        lookup(a, key) == if a[0].0 == key {
            Some(a[0].1)
        } else {
            lookup(a.drop_first(), key)
        },
{
    lemma_lookup_offset(a, a.drop_first(), key, 0);
}

proof fn lemma_lookup_tail(a: Seq<(Seq<char>, Seq<char>)>, tail: Seq<(Seq<char>, Seq<char>)>, key: Seq<char>)
    requires
        a.len() > 0,
        tail == a.drop_first(),
    ensures
        lookup(a, key) == if a[0].0 == key {
            Some(a[0].1)
        } else {
            lookup(tail, key)
        },
{
    lemma_lookup_drop_first(a, key);
}

/// The texts of a list of entries.
pub open spec fn pairs(entries: Seq<(String, String)>) -> Seq<(Seq<char>, Seq<char>)> {
    entries.map_values(|e: (String, String)| (e.0@, e.1@))
}

impl View for Metadata {
    type V = Seq<(Seq<char>, Seq<char>)>;

    closed spec fn view(&self) -> Seq<(Seq<char>, Seq<char>)> {
        pairs(self.entries@)
    }
}

/// A copy of a list of entries.
fn copy_entries(entries: &Vec<(String, String)>) -> (r: Vec<(String, String)>)
    ensures
        pairs(r@) == pairs(entries@),
{
    let mut r: Vec<(String, String)> = Vec::new();
    let mut i: usize = 0;
    while i < entries.len()
        invariant
            i <= entries.len(),
            r.len() == i,
            forall|j: int| 0 <= j < i ==> r@[j].0@ == entries@[j].0@ && r@[j].1@ == entries@[j].1@,
        decreases entries.len() - i,
    {
        r.push((entries[i].0.clone(), entries[i].1.clone()));
        i += 1;
    }
    assert(pairs(r@) =~= pairs(entries@));
    r
}

/// `entries` with `value` stored under `key`.
fn store(list: Vec<(String, String)>, key: String, value: String) -> (r: Vec<(String, String)>)
    ensures
        pairs(r@) == stored(pairs(list@), key@, value@),
{
    let ghost before = pairs(list@);
    let mut entries = list;
    let ghost k = key@;
    let ghost v = value@;
    let n = entries.len();
    let mut i: usize = 0;
    assert(before.take(0) =~= Seq::empty());
    assert(before.skip(0) =~= before);
    assert(Seq::empty() + stored(before, k, v) =~= stored(before, k, v));
    while i < n
        invariant
            i <= n,
            n == entries.len(),
            pairs(entries@) == before,
            before == pairs(list@),
            k == key@ && v == value@,
            stored(before, k, v) == before.take(i as int) + stored(before.skip(i as int), k, v),
        decreases n - i,
    {
        let ghost rest = before.skip(i as int);
        assert(rest[0] == before[i as int]);
        assert(rest.drop_first() =~= before.skip(i + 1));
        assert(before[i as int] == (entries@[i as int].0@, entries@[i as int].1@));
        if same_text(entries[i].0.as_str(), key.as_str()) {
            assert(stored(rest, k, v) == seq![(k, v)] + rest.drop_first());
            let ghost ent = entries@;
            assert forall|j: int| 0 <= j < ent.len() implies before[j] == (ent[j].0@, ent[j].1@) by {
                assert(pairs(ent)[j] == (ent[j].0@, ent[j].1@));
            }
            entries.set(i, (key, value));
            assert(pairs(entries@) =~= before.take(i as int) + (seq![(k, v)] + rest.drop_first())) by {
                let target = before.take(i as int) + (seq![(k, v)] + rest.drop_first());
                assert(pairs(entries@).len() == target.len());
                assert forall|j: int| 0 <= j < target.len() implies pairs(entries@)[j] == target[j] by {
                    if j != i {
                        assert(entries@[j] == ent[j]);
                    }
                    if j > i {
                        assert(rest.drop_first()[j - i - 1] == before[j]);
                    }
                }
            }
            return entries;
        }
        assert(before.take(i + 1) =~= before.take(i as int) + seq![rest[0]]);
        assert(before.take(i as int) + (seq![rest[0]] + stored(rest.drop_first(), k, v))
            =~= before.take(i + 1) + stored(before.skip(i + 1), k, v));
        i += 1;
    }
    assert(before.skip(n as int) =~= Seq::empty());
    assert(before.take(n as int) =~= before);
    entries.push((key, value));
    assert(pairs(entries@) =~= before + seq![(k, v)]);
    entries
}

impl Metadata {
    /// Every key occurs once.
    #[verifier::type_invariant]
    closed spec fn keys_occur_once(&self) -> bool {
        distinct_keys(pairs(self.entries@))
    }

    /// The empty mapping.
    pub fn new() -> (m: Metadata)
        ensures
            m@ == Seq::<(Seq<char>, Seq<char>)>::empty(),
    {
        let entries: Vec<(String, String)> = Vec::new();
        assert(pairs(entries@) =~= Seq::empty());
        Metadata { entries }
    }

    /// The number of entries.
    pub fn len(&self) -> (n: usize)
        ensures
            n == self@.len(),
    {
        self.entries.len()
    }

    /// Stores `value` under `key`: in the entry that has the key already,
    /// or else in a new entry at the end. Every other key keeps its value.
    pub fn insert(&mut self, key: String, value: String)
        ensures
            final(self)@ == stored(old(self)@, key@, value@),
            distinct_keys(old(self)@) && distinct_keys(final(self)@),
            lookup(final(self)@, key@) == Some(value@),
            forall|k: Seq<char>| k != key@ ==> lookup(final(self)@, k) == lookup(old(self)@, k),
    {
        proof {
            use_type_invariant(&*self);
            lemma_stored(self@, key@, value@);
        }
        let entries = store(copy_entries(&self.entries), key, value);
        self.entries = entries;
    }

    /// The entries, in the order in which their keys were first inserted.
    pub fn entries(&self) -> (r: Vec<(String, String)>)
        ensures
            pairs(r@) == self@,
            distinct_keys(self@),
    {
        proof {
            use_type_invariant(self);
        }
        copy_entries(&self.entries)
    }

    /// The value stored under `key`, if any.
    pub fn get(&self, key: &str) -> (r: Option<String>)
        ensures
            match r {
                Some(v) => lookup(self@, key@) == Some(v@),
                None => lookup(self@, key@) is None,
            },
    {
        let mut i: usize = 0;
        while i < self.entries.len()
            invariant
                i <= self.entries.len(),
                lookup(self@, key@) == lookup_from(self@, key@, i as int),
            decreases self.entries.len() - i,
        {
            assert(self@[i as int] == (self.entries@[i as int].0@, self.entries@[i as int].1@));
            if same_text(self.entries[i].0.as_str(), key) {
                return Some(self.entries[i].1.clone());
            }
            i += 1;
        }
        None
    }
}

impl Clone for Metadata {
    fn clone(&self) -> (r: Metadata)
        ensures
            r@ == self@,
    {
        proof {
            use_type_invariant(self);
        }
        Metadata { entries: copy_entries(&self.entries) }
    }
}

} // verus!
