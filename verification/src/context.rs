//! The fact store: a mapping from string field names to values.  Rules read
//! it when conditions are evaluated and mutate it when actions execute.

use vstd::prelude::*;

use crate::value::Value;

verus! {

/// A mutable store of named facts.  Abstractly it is a finite map from field
/// names (character sequences) to values; its view is that map.
pub struct DataContext {
    facts: Vec<(String, Value)>,
}

/// The map an entry sequence stands for; a later entry overwrites an earlier
/// one with the same name.
pub open spec fn map_of(s: Seq<(String, Value)>) -> Map<Seq<char>, Value>
    decreases s.len(),
{
    if s.len() == 0 {
        Map::empty()
    } else {
        map_of(s.drop_last()).insert(s.last().0@, s.last().1)
    }
}

/// A key appears in `map_of(s)` exactly when some entry carries it.
proof fn lemma_map_of_contains(s: Seq<(String, Value)>, k: Seq<char>)
    ensures
        map_of(s).contains_key(k) <==> exists|i: int| 0 <= i < s.len() && s[i].0@ == k,
    decreases s.len(),
{
    if s.len() > 0 {
        lemma_map_of_contains(s.drop_last(), k);
        if map_of(s).contains_key(k) {
            if s.last().0@ != k {
                let i = choose|i: int| 0 <= i < s.drop_last().len() && s.drop_last()[i].0@ == k;
                assert(s[i].0@ == k);
            }
        } else {
            assert(forall|i: int| 0 <= i < s.len() - 1 ==> s.drop_last()[i] == s[i]);
        }
    }
}

/// The last entry that carries a key gives that key's value in the map.
proof fn lemma_map_of_last_match(s: Seq<(String, Value)>, j: int)
    requires
        0 <= j < s.len(),
        forall|m: int| j < m < s.len() ==> s[m].0@ != s[j].0@,
    ensures
        map_of(s).contains_key(s[j].0@),
        map_of(s)[s[j].0@] == s[j].1,
    decreases s.len(),
{
    if j < s.len() - 1 {
        assert(s.drop_last()[j] == s[j]);
        lemma_map_of_last_match(s.drop_last(), j);
        assert(s.last().0@ != s[j].0@);
    }
}

/// Replacing the last entry that carries a key updates the map at that key
/// alone.
proof fn lemma_map_of_update_last(s: Seq<(String, Value)>, j: int, p: (String, Value))
    requires
        0 <= j < s.len(),
        p.0@ == s[j].0@,
        forall|m: int| j < m < s.len() ==> s[m].0@ != s[j].0@,
    ensures
        map_of(s.update(j, p)) =~= map_of(s).insert(p.0@, p.1),
    decreases s.len(),
{
    let t = s.update(j, p);
    if j == s.len() - 1 {
        assert(t.drop_last() =~= s.drop_last());
    } else {
        assert(t.drop_last() =~= s.drop_last().update(j, p));
        assert(s.drop_last()[j] == s[j]);
        lemma_map_of_update_last(s.drop_last(), j, p);
        assert(s.last().0@ != p.0@);
    }
}

impl View for DataContext {
    type V = Map<Seq<char>, Value>;

    closed spec fn view(&self) -> Map<Seq<char>, Value> {
        map_of(self.facts@)
    }
}

impl DataContext {
    /// An empty fact store.
    pub fn new() -> (ctx: DataContext)
        ensures
            ctx@ == Map::<Seq<char>, Value>::empty(),
    {
        let ctx = DataContext { facts: Vec::new() };
        proof {
            assert(ctx@ =~= Map::<Seq<char>, Value>::empty());
        }
        ctx
    }

    /// Bind `name` to `value`, overwriting any previous binding.
    pub fn set(&mut self, name: String, value: Value)
        ensures
            final(self)@ == old(self)@.insert(name@, value),
    {
        let ghost s0 = self.facts@;
        let mut i: usize = self.facts.len();
        while i > 0
            invariant
                0 <= i <= self.facts@.len(),
                self.facts@ == s0,
                old(self).facts@ == s0,
                forall|m: int| i <= m < s0.len() ==> s0[m].0@ != name@,
            decreases i,
        {
            i -= 1;
            if self.facts[i].0 == name {
                self.facts[i] = (name, value);
                proof {
                    lemma_map_of_update_last(s0, i as int, self.facts@[i as int]);
                }
                return ;
            }
        }
        self.facts.push((name, value));
        proof {
            assert(self.facts@.drop_last() =~= s0);
        }
    }

    /// Bind `name` to `value`; today identical to `set`.
    pub fn add(&mut self, name: String, value: Value)
        ensures
            final(self)@ == old(self)@.insert(name@, value),
    {
        self.set(name, value);
    }

    /// Look the field `name` up, returning its value or `None` when no fact
    /// carries that name.
    pub fn get(&self, name: String) -> (r: Option<&Value>)
        ensures
            match r {
                Some(v) => self@.contains_key(name@) && *v == self@[name@],
                None => !self@.contains_key(name@),
            },
    {
        let mut i: usize = self.facts.len();
        while i > 0
            invariant
                0 <= i <= self.facts@.len(),
                forall|m: int| i <= m < self.facts@.len() ==> self.facts@[m].0@ != name@,
            decreases i,
        {
            i -= 1;
            if self.facts[i].0 == name {
                proof {
                    lemma_map_of_last_match(self.facts@, i as int);
                }
                return Some(&self.facts[i].1);
            }
        }
        proof {
            lemma_map_of_contains(self.facts@, name@);
        }
        None
    }
}

} // verus!
