//! Request parameters and their canonical query string.

use vstd::prelude::*;
use vstd::string::*;
use crate::text::{key_compare, key_less, lemma_key_less_irreflexive, lemma_key_less_total, lemma_key_less_transitive};

verus! {

broadcast use vstd::string::group_string_axioms;

/// One parameter as text: its name and its value.
pub type Pair = (Seq<char>, Seq<char>);

/// Keys in strictly ascending lexical order; in particular unique.
pub open spec fn sorted_keys(s: Seq<Pair>) -> bool {
    forall|i: int, j: int| 0 <= i < j < s.len() ==> key_less(#[trigger] s[i].0, #[trigger] s[j].0)
}

/// The mapping from name to value that a sequence of pairs describes; the
/// first pair of a name wins.
pub open spec fn pairs_map(s: Seq<Pair>) -> Map<Seq<char>, Seq<char>>
    decreases s.len(),
{
    if s.len() == 0 {
        Map::empty()
    } else {
        pairs_map(s.drop_first()).insert(s[0].0, s[0].1)
    }
}

/// The pairs of a mapping in ascending key order: the one sorted sequence
/// that describes it.
pub open spec fn canonical(m: Map<Seq<char>, Seq<char>>) -> Seq<Pair> {
    choose|s: Seq<Pair>| sorted_keys(s) && pairs_map(s) == m
}

/// `name=value`.
pub open spec fn pair_text(p: Pair) -> Seq<char> {
    p.0 + seq!['='] + p.1
}

/// The pairs as `name=value`, joined by `&`, with no trailing separator.
pub open spec fn query_text(s: Seq<Pair>) -> Seq<char>
    decreases s.len(),
{
    if s.len() == 0 {
        Seq::empty()
    } else if s.len() == 1 {
        pair_text(s[0])
    } else {
        query_text(s.drop_last()) + seq!['&'] + pair_text(s.last())
    }
}

/// The query string of a mapping: its pairs in ascending key order.
pub open spec fn query_of(m: Map<Seq<char>, Seq<char>>) -> Seq<char> {
    query_text(canonical(m))
}

/// A set of named request parameters, kept in ascending key order with
/// unique keys.
pub struct ParameterSet {
    entries: Vec<(String, String)>,
}

impl View for ParameterSet {
    type V = Seq<Pair>;

    closed spec fn view(&self) -> Seq<Pair> {
        self.entries@.map_values(|p: (String, String)| (p.0@, p.1@))
    }
}

impl ParameterSet {
    /// Well-formed: keys strictly ascending.
    pub open spec fn wf(&self) -> bool {
        sorted_keys(self@)
    }

    /// The parameters as a mapping from name to value.
    pub open spec fn map(&self) -> Map<Seq<char>, Seq<char>> {
        pairs_map(self@)
    }

    /// An empty set of parameters.
    pub fn new() -> (r: ParameterSet)
        ensures
            r.wf(),
            r@ == Seq::<Pair>::empty(),
            r.map() == Map::<Seq<char>, Seq<char>>::empty(),
    {
        let r = ParameterSet { entries: Vec::new() };
        assert(r@ =~= Seq::<Pair>::empty());
        r
    }

    /// The number of parameters.
    pub fn len(&self) -> (r: usize)
        ensures
            r == self@.len(),
    {
        self.entries.len()
    }

    /// The parameter at position `i` in ascending key order.
    pub fn entry(&self, i: usize) -> (r: (&String, &String))
        requires
            i < self@.len(),
        ensures
            (r.0@, r.1@) == self@[i as int],
    {
        (&self.entries[i].0, &self.entries[i].1)
    }

    /// Sets `key` to `value`, replacing an earlier value of the same key.
    pub fn insert(&mut self, key: String, value: String)
        requires
            old(self).wf(),
        ensures
            final(self).wf(),
            final(self).map() == old(self).map().insert(key@, value@),
    {
        let ghost s = self@;
        let n = self.entries.len();
        let mut i: usize = 0;
        while i < n && key_compare(&self.entries[i].0, &key) < 0
            invariant
                n == self.entries.len(),
                self@ == s,
                sorted_keys(s),
                i <= n,
                forall|j: int| 0 <= j < i ==> key_less(#[trigger] s[j].0, key@),
            decreases n - i,
        {
            i = i + 1;
        }
        if i < n && key_compare(&self.entries[i].0, &key) == 0 {
            proof {
                lemma_pairs_map_update(s, i as int, key@, value@);
            }
            self.entries.set(i, (key, value));
            assert(self@ =~= s.update(i as int, (key@, value@)));
            assert forall|a: int, b: int| 0 <= a < b < self@.len() implies key_less(
                #[trigger] self@[a].0,
                #[trigger] self@[b].0,
            ) by {
                assert(key_less(s[a].0, s[b].0));
            }
        } else {
            proof {
                if i < n {
                    lemma_key_less_total(s[i as int].0, key@);
                }
                assert forall|j: int| i <= j < s.len() implies key_less(key@, #[trigger] s[j].0) by {
                    if j > i {
                        lemma_key_less_transitive(key@, s[i as int].0, s[j].0);
                    }
                }
                lemma_pairs_map_insert(s, i as int, key@, value@);
            }
            let ghost k = key@;
            let ghost v = value@;
            self.entries.insert(i, (key, value));
            assert(self@ =~= s.insert(i as int, (k, v)));
            assert forall|a: int, b: int| 0 <= a < b < self@.len() implies key_less(
                #[trigger] self@[a].0,
                #[trigger] self@[b].0,
            ) by {
                if a < i && b > i {
                    lemma_key_less_transitive(s[a].0, k, s[b - 1].0);
                }
            }
        }
    }
}

proof fn lemma_pairs_map_update(s: Seq<Pair>, i: int, k: Seq<char>, v: Seq<char>)
    requires
        sorted_keys(s),
        0 <= i < s.len(),
        s[i].0 == k,
    ensures
        pairs_map(s.update(i, (k, v))) == pairs_map(s).insert(k, v),
    decreases s.len(),
{
    let t = s.update(i, (k, v));
    if i == 0 {
        assert(t.drop_first() =~= s.drop_first());
        assert(pairs_map(t) =~= pairs_map(s).insert(k, v));
    } else {
        assert(t.drop_first() =~= s.drop_first().update(i - 1, (k, v)));
        lemma_pairs_map_update(s.drop_first(), i - 1, k, v);
        assert(key_less(s[0].0, s[i].0));
        lemma_key_less_irreflexive(k);
        assert(pairs_map(t) =~= pairs_map(s).insert(k, v));
    }
}

proof fn lemma_pairs_map_insert(s: Seq<Pair>, i: int, k: Seq<char>, v: Seq<char>)
    requires
        0 <= i <= s.len(),
        forall|j: int| 0 <= j < i ==> key_less(#[trigger] s[j].0, k),
    ensures
        pairs_map(s.insert(i, (k, v))) == pairs_map(s).insert(k, v),
    decreases s.len(),
{
    let t = s.insert(i, (k, v));
    if i == 0 {
        assert(t.drop_first() =~= s);
    } else {
        assert(t.drop_first() =~= s.drop_first().insert(i - 1, (k, v)));
        assert forall|j: int| 0 <= j < i - 1 implies key_less(#[trigger] s.drop_first()[j].0, k) by {
            assert(s.drop_first()[j] == s[j + 1]);
        }
        lemma_pairs_map_insert(s.drop_first(), i - 1, k, v);
        assert(key_less(s[0].0, k));
        lemma_key_less_irreflexive(k);
        assert(pairs_map(t) =~= pairs_map(s).insert(k, v));
    }
}

proof fn lemma_pairs_map_domain(s: Seq<Pair>, k: Seq<char>)
    ensures
        pairs_map(s).contains_key(k) <==> exists|i: int| 0 <= i < s.len() && s[i].0 == k,
    decreases s.len(),
{
    if s.len() > 0 {
        lemma_pairs_map_domain(s.drop_first(), k);
        if pairs_map(s.drop_first()).contains_key(k) {
            let i = choose|i: int| 0 <= i < s.drop_first().len() && s.drop_first()[i].0 == k;
            assert(s[i + 1].0 == k);
        }
        if exists|i: int| 0 <= i < s.len() && s[i].0 == k {
            let i = choose|i: int| 0 <= i < s.len() && s[i].0 == k;
            if i > 0 {
                assert(s.drop_first()[i - 1].0 == k);
            }
        }
    }
}

proof fn lemma_pairs_map_value(s: Seq<Pair>, i: int)
    requires
        sorted_keys(s),
        0 <= i < s.len(),
    ensures
        pairs_map(s).contains_key(s[i].0),
        pairs_map(s)[s[i].0] == s[i].1,
    decreases s.len(),
{
    if i > 0 {
        assert(s.drop_first()[i - 1] == s[i]);
        lemma_pairs_map_value(s.drop_first(), i - 1);
        assert(key_less(s[0].0, s[i].0));
        lemma_key_less_irreflexive(s[i].0);
    }
}

/// Two sorted sequences of pairs that describe the same mapping are equal.
proof fn lemma_sorted_unique(s: Seq<Pair>, t: Seq<Pair>)
    requires
        sorted_keys(s),
        sorted_keys(t),
        pairs_map(s) == pairs_map(t),
    ensures
        s == t,
    decreases s.len(),
{
    if s.len() == 0 {
        if t.len() > 0 {
            lemma_pairs_map_value(t, 0);
        }
        assert(s =~= t);
    } else if t.len() == 0 {
        lemma_pairs_map_value(s, 0);
    } else {
        let ks = s[0].0;
        let kt = t[0].0;
        lemma_pairs_map_value(s, 0);
        lemma_pairs_map_value(t, 0);
        lemma_pairs_map_domain(s, kt);
        lemma_pairs_map_domain(t, ks);
        let i = choose|i: int| 0 <= i < s.len() && s[i].0 == kt;
        let j = choose|j: int| 0 <= j < t.len() && t[j].0 == ks;
        if ks != kt {
            assert(i > 0 && j > 0);
            assert(key_less(ks, kt));
            assert(key_less(kt, ks));
            lemma_key_less_transitive(ks, kt, ks);
            lemma_key_less_irreflexive(ks);
        }
        assert(s[0] == t[0]);
        let s1 = s.drop_first();
        let t1 = t.drop_first();
        assert forall|k: Seq<char>| #[trigger] pairs_map(s1).contains_key(k) implies k != ks by {
            lemma_pairs_map_domain(s1, k);
            let a = choose|a: int| 0 <= a < s1.len() && s1[a].0 == k;
            assert(key_less(s[0].0, s[a + 1].0));
            lemma_key_less_irreflexive(ks);
        }
        assert forall|k: Seq<char>| #[trigger] pairs_map(t1).contains_key(k) implies k != ks by {
            lemma_pairs_map_domain(t1, k);
            let a = choose|a: int| 0 <= a < t1.len() && t1[a].0 == k;
            assert(key_less(t[0].0, t[a + 1].0));
            lemma_key_less_irreflexive(ks);
        }
        assert(pairs_map(s1) =~= pairs_map(s).remove(ks));
        assert(pairs_map(t1) =~= pairs_map(t).remove(ks));
        lemma_sorted_unique(s1, t1);
        assert(s =~= seq![s[0]] + s1);
        assert(t =~= seq![t[0]] + t1);
    }
}

/// The canonical sequence of a sorted sequence's mapping is that sequence.
proof fn lemma_canonical(s: Seq<Pair>)
    requires
        sorted_keys(s),
    ensures
        canonical(pairs_map(s)) == s,
{
    let m = pairs_map(s);
    assert(sorted_keys(s) && pairs_map(s) == m);
    let c = canonical(m);
    lemma_sorted_unique(c, s);
}

/// Parameter sets that hold the same names and values are the same
/// sequence, whatever order they were filled in, so they give the same
/// query string.
pub proof fn lemma_same_parameters_same_query(p: ParameterSet, q: ParameterSet)
    requires
        p.wf(),
        q.wf(),
        p.map() == q.map(),
    ensures
        p@ == q@,
        query_text(p@) == query_text(q@),
        query_text(p@) == query_of(p.map()),
{
    lemma_sorted_unique(p@, q@);
    lemma_canonical(p@);
}

} // verus!
