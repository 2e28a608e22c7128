//! Entity tags: a string map kept as `(key, value)` pairs in ascending key order.

use vstd::prelude::*;

use crate::text::{str_eq, to_chars};

verus! {

/// Whether key `a` sorts before key `b`: the order of `String`, which compares the UTF-8 bytes
/// and so the characters, first difference deciding and a proper prefix coming first.
pub open spec fn key_lt(a: Seq<char>, b: Seq<char>) -> bool
    decreases a.len(),
{
    if a.len() == 0 {
        b.len() > 0
    } else if b.len() == 0 {
        false
    } else if a[0] != b[0] {
        a[0] < b[0]
    } else {
        key_lt(a.drop_first(), b.drop_first())
    }
}

/// Whether the keys of `s` strictly ascend, so that no key occurs twice.
pub open spec fn keys_ascending(s: Seq<(String, String)>) -> bool {
    forall|i: int, j: int| 0 <= i < j < s.len() ==> key_lt(#[trigger] s[i].0@, #[trigger] s[j].0@)
}

/// The map that `(key, value)` pairs build when a later pair overwrites an earlier one of the
/// same key, as collecting them into a `BTreeMap` does.
pub open spec fn pairs_map(s: Seq<(String, String)>) -> Map<Seq<char>, Seq<char>>
    decreases s.len(),
{
    if s.len() == 0 {
        Map::empty()
    } else {
        pairs_map(s.drop_last()).insert(s.last().0@, s.last().1@)
    }
}

proof fn lemma_key_lt_irreflexive(a: Seq<char>)
    ensures
        !key_lt(a, a),
    decreases a.len(),
{
    if a.len() > 0 {
        lemma_key_lt_irreflexive(a.drop_first());
    }
}

proof fn lemma_key_lt_transitive(a: Seq<char>, b: Seq<char>, c: Seq<char>)
    requires
        key_lt(a, b),
        key_lt(b, c),
    ensures
        key_lt(a, c),
    decreases a.len(),
{
    if a.len() > 0 && b.len() > 0 && c.len() > 0 && a[0] == b[0] && b[0] == c[0] {
        lemma_key_lt_transitive(a.drop_first(), b.drop_first(), c.drop_first());
    }
}

proof fn lemma_key_lt_total(a: Seq<char>, b: Seq<char>)
    requires
        a != b,
    ensures
        key_lt(a, b) || key_lt(b, a),
    decreases a.len(),
{
    if a.len() > 0 && b.len() > 0 {
        if a[0] == b[0] {
            if a.drop_first() == b.drop_first() {
                assert(a =~= seq![a[0]] + a.drop_first());
                assert(b =~= seq![b[0]] + b.drop_first());
            }
            lemma_key_lt_total(a.drop_first(), b.drop_first());
        }
    } else if a.len() == 0 && b.len() == 0 {
        assert(a =~= b);
    }
}

/// On pairs whose keys ascend, the map holds exactly their keys, each with its own value.
proof fn lemma_pairs_map_of_ascending(s: Seq<(String, String)>)
    requires
        keys_ascending(s),
    ensures
        forall|k: Seq<char>|
            #[trigger] pairs_map(s).contains_key(k) <==> exists|i: int| 0 <= i < s.len() && s[i].0@ == k,
        forall|i: int| 0 <= i < s.len() ==> #[trigger] pairs_map(s)[s[i].0@] == s[i].1@,
    decreases s.len(),
{
    if s.len() > 0 {
        let d = s.drop_last();
        assert(keys_ascending(d)) by {
            assert forall|i: int, j: int| 0 <= i < j < d.len() implies key_lt(#[trigger] d[i].0@, #[trigger] d[j].0@) by {
                assert(s[i] == d[i] && s[j] == d[j]);
            }
        }
        lemma_pairs_map_of_ascending(d);
        assert forall|k: Seq<char>| #[trigger] pairs_map(s).contains_key(k) <==> exists|i: int| 0 <= i < s.len() && s[i].0@ == k by {
            if pairs_map(s).contains_key(k) && k != s.last().0@ {
                assert(pairs_map(d).contains_key(k));
                let i = choose|i: int| 0 <= i < d.len() && d[i].0@ == k;
                assert(s[i] == d[i]);
            }
            if exists|i: int| 0 <= i < s.len() && s[i].0@ == k {
                let i = choose|i: int| 0 <= i < s.len() && s[i].0@ == k;
                if i < d.len() {
                    assert(s[i] == d[i]);
                    assert(pairs_map(d).contains_key(k));
                }
            }
        }
        assert forall|i: int| 0 <= i < s.len() implies #[trigger] pairs_map(s)[s[i].0@] == s[i].1@ by {
            if i < d.len() {
                assert(s[i] == d[i]);
                assert(pairs_map(d)[d[i].0@] == d[i].1@);
                assert(key_lt(s[i].0@, s[s.len() - 1].0@));
                lemma_key_lt_irreflexive(s[i].0@);
            }
        }
    }
}

/// Whether key `a` sorts before key `b`.
fn key_less(a: &str, b: &str) -> (r: bool)
    ensures
        r == key_lt(a@, b@),
{
    let x = to_chars(a);
    let y = to_chars(b);
    let mut i: usize = 0;
    assert(x@.skip(0) =~= x@ && y@.skip(0) =~= y@);
    while i < x.len() && i < y.len() && x[i] == y[i]
        invariant
            i <= x@.len(),
            i <= y@.len(),
            key_lt(a@, b@) == key_lt(x@.skip(i as int), y@.skip(i as int)),
            x@ == a@,
            y@ == b@,
        decreases x@.len() - i,
    {
        assert(x@.skip(i as int).drop_first() =~= x@.skip(i + 1));
        assert(y@.skip(i as int).drop_first() =~= y@.skip(i + 1));
        i += 1;
    }
    if i == x.len() {
        i < y.len()
    } else if i == y.len() {
        false
    } else {
        x[i] < y[i]
    }
}

/// Entity tags: `(key, value)` pairs with distinct keys in ascending key order, the contents
/// of a `BTreeMap<String, String>` in its iteration order.
#[derive(Debug)]
pub struct Tags {
    entries: Vec<(String, String)>,
}

impl View for Tags {
    type V = Seq<(String, String)>;

    closed spec fn view(&self) -> Seq<(String, String)> {
        self.entries@
    }
}

impl Clone for Tags {
    fn clone(&self) -> (r: Tags)
        ensures
            r@ == self@,
    {
        self.duplicate()
    }
}

impl Tags {
    #[verifier::type_invariant]
    spec fn wf(self) -> bool {
        keys_ascending(self.entries@)
    }

    /// No tags.
    pub fn new() -> (r: Tags)
        ensures
            r@ == Seq::<(String, String)>::empty(),
    {
        Tags { entries: Vec::new() }
    }

    /// The tags that `pairs` build, a later pair overwriting an earlier one of the same key.
    pub fn from_pairs(pairs: Vec<(String, String)>) -> (r: Tags)
        ensures
            keys_ascending(r@),
            pairs_map(r@) == pairs_map(pairs@),
    {
        let mut out: Vec<(String, String)> = Vec::new();
        let mut i: usize = 0;
        while i < pairs.len()
            invariant
                i <= pairs@.len(),
                keys_ascending(out@),
                pairs_map(out@) == pairs_map(pairs@.take(i as int)),
            decreases pairs@.len() - i,
        {
            let (k, v) = &pairs[i];
            insert_entry(&mut out, k.clone(), v.clone());
            proof {
                assert(pairs@.take(i + 1).drop_last() =~= pairs@.take(i as int));
            }
            i += 1;
        }
        assert(pairs@.take(i as int) =~= pairs@);
        Tags { entries: out }
    }

    /// The pairs, in ascending key order.
    pub fn entries(&self) -> (r: &Vec<(String, String)>)
        ensures
            r@ == self@,
            keys_ascending(self@),
    {
        proof {
            use_type_invariant(self);
        }
        &self.entries
    }

    /// The pairs, in ascending key order.
    pub fn into_entries(self) -> (r: Vec<(String, String)>)
        ensures
            r@ == self@,
            keys_ascending(self@),
    {
        proof {
            use_type_invariant(&self);
        }
        self.entries
    }

    /// The number of tags.
    pub fn len(&self) -> (r: usize)
        ensures
            r == self@.len(),
    {
        self.entries.len()
    }

    /// Whether there are no tags.
    pub fn is_empty(&self) -> (r: bool)
        ensures
            r == (self@.len() == 0),
    {
        self.entries.len() == 0
    }

    /// A copy of the tags.
    pub fn duplicate(&self) -> (r: Tags)
        ensures
            r@ == self@,
    {
        proof {
            use_type_invariant(self);
        }
        let mut out: Vec<(String, String)> = Vec::new();
        let mut i: usize = 0;
        while i < self.entries.len()
            invariant
                i <= self.entries@.len(),
                out@ == self.entries@.take(i as int),
            decreases self.entries@.len() - i,
        {
            let (k, v) = &self.entries[i];
            out.push((k.clone(), v.clone()));
            proof {
                assert(self.entries@.take(i + 1) =~= self.entries@.take(i as int).push(self.entries@[i as int]));
            }
            i += 1;
        }
        assert(self.entries@.take(i as int) =~= self.entries@);
        Tags { entries: out }
    }
}

/// Puts `(k, v)` into ascending pairs, replacing the pair of key `k` if there is one.
fn insert_entry(out: &mut Vec<(String, String)>, k: String, v: String)
    requires
        keys_ascending(old(out)@),
    ensures
        keys_ascending(final(out)@),
        pairs_map(final(out)@) == pairs_map(old(out)@).insert(k@, v@),
{
    let ghost s = out@;
    let mut j: usize = 0;
    while j < out.len() && key_less(out[j].0.as_str(), k.as_str())
        invariant
            j <= out@.len(),
            out@ == s,
            keys_ascending(s),
            forall|a: int| 0 <= a < j ==> key_lt(#[trigger] s[a].0@, k@),
        decreases out@.len() - j,
    {
        j += 1;
    }
    proof {
        lemma_pairs_map_of_ascending(s);
    }
    if j < out.len() && str_eq(out[j].0.as_str(), k.as_str()) {
        let ghost kv = (k, v);
        out.set(j, (k, v));
        proof {
            let t = out@;
            assert forall|a: int, b: int| 0 <= a < b < t.len() implies key_lt(#[trigger] t[a].0@, #[trigger] t[b].0@) by {
                assert(key_lt(s[a].0@, s[b].0@));
            }
            lemma_pairs_map_of_ascending(t);
            let m = pairs_map(s).insert(kv.0@, kv.1@);
            assert(t[j as int] == kv);
            assert forall|x: Seq<char>| #[trigger] pairs_map(t).contains_key(x) <==> m.contains_key(x) by {
                if m.contains_key(x) {
                    if x == kv.0@ {
                        assert(t[j as int].0@ == x);
                    } else {
                        let i = choose|i: int| 0 <= i < s.len() && s[i].0@ == x;
                        assert(i != j);
                        assert(t[i] == s[i]);
                        assert(t[i].0@ == x);
                    }
                }
                if pairs_map(t).contains_key(x) && x != kv.0@ {
                    let i = choose|i: int| 0 <= i < t.len() && t[i].0@ == x;
                    assert(i != j);
                    assert(t[i] == s[i]);
                    assert(s[i].0@ == x);
                }
            }
            assert forall|x: Seq<char>| #[trigger] pairs_map(t).contains_key(x) implies pairs_map(t)[x] == m[x] by {
                let i = choose|i: int| 0 <= i < t.len() && t[i].0@ == x;
                if i != j {
                    assert(t[i] == s[i]);
                    if x == kv.0@ {
                        if i < j {
                            assert(key_lt(s[i].0@, s[j as int].0@));
                        } else {
                            assert(key_lt(s[j as int].0@, s[i].0@));
                        }
                        lemma_key_lt_irreflexive(x);
                    }
                }
            }
            assert(pairs_map(t) =~= m);
        }
    } else {
        let ghost kv = (k, v);
        proof {
            if j < s.len() {
                lemma_key_lt_total(s[j as int].0@, k@);
            }
        }
        out.insert(j, (k, v));
        proof {
            let t = out@;
            assert forall|a: int, b: int| 0 <= a < b < t.len() implies key_lt(#[trigger] t[a].0@, #[trigger] t[b].0@) by {
                if b < j {
                    assert(t[a] == s[a] && t[b] == s[b]);
                } else if b == j {
                    assert(t[a] == s[a]);
                } else if a < j {
                    assert(t[a] == s[a] && t[b] == s[b - 1]);
                    assert(key_lt(s[a].0@, kv.0@));
                    assert(key_lt(kv.0@, s[j as int].0@));
                    if b - 1 > j {
                        lemma_key_lt_transitive(kv.0@, s[j as int].0@, s[b - 1].0@);
                    }
                    lemma_key_lt_transitive(s[a].0@, kv.0@, s[b - 1].0@);
                } else if a == j {
                    assert(t[b] == s[b - 1]);
                    if b - 1 > j {
                        assert(key_lt(s[j as int].0@, s[b - 1].0@));
                        lemma_key_lt_transitive(kv.0@, s[j as int].0@, s[b - 1].0@);
                    }
                } else {
                    assert(t[a] == s[a - 1] && t[b] == s[b - 1]);
                }
            }
            lemma_pairs_map_of_ascending(t);
            let m = pairs_map(s).insert(kv.0@, kv.1@);
            assert forall|x: Seq<char>| #[trigger] pairs_map(t).contains_key(x) <==> m.contains_key(x) by {
                if m.contains_key(x) && x != kv.0@ {
                    let i = choose|i: int| 0 <= i < s.len() && s[i].0@ == x;
                    if i < j {
                        assert(t[i] == s[i]);
                    } else {
                        assert(t[i + 1] == s[i]);
                    }
                }
                if x == kv.0@ {
                    assert(t[j as int] == kv);
                }
                if pairs_map(t).contains_key(x) && x != kv.0@ {
                    let i = choose|i: int| 0 <= i < t.len() && t[i].0@ == x;
                    if i < j {
                        assert(s[i] == t[i]);
                    } else if i > j {
                        assert(s[i - 1] == t[i]);
                    }
                }
            }
            assert forall|x: Seq<char>| #[trigger] pairs_map(t).contains_key(x) implies pairs_map(t)[x] == m[x] by {
                let i = choose|i: int| 0 <= i < t.len() && t[i].0@ == x;
                if i < j {
                    assert(t[i] == s[i]);
                    lemma_key_lt_irreflexive(x);
                } else if i > j {
                    assert(t[i] == s[i - 1]);
                    assert(t[j as int] == kv);
                    assert(key_lt(t[j as int].0@, t[i].0@));
                    assert(key_lt(kv.0@, x));
                    lemma_key_lt_irreflexive(x);
                } else {
                    assert(t[i] == kv);
                }
            }
            assert(pairs_map(t) =~= m);
        }
    }
}

} // verus!
