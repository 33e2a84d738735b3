use vstd::prelude::*;
use crate::expr::{Expr, ExprView};

verus! {

/// The map an entry sequence denotes: entries are read oldest first, so a
/// later entry under the same name overwrites an earlier one.
pub open spec fn env_map(s: Seq<(String, Expr)>) -> Map<Seq<char>, ExprView>
    decreases s.len(),
{
    if s.len() == 0 {
        Map::empty()
    } else {
        env_map(s.drop_last()).insert(s.last().0@, s.last().1@)
    }
}

/// Reading a key that the entries above `j` never mention is the same as
/// reading it from the first `j` entries alone.
proof fn lemma_env_map_skip(s: Seq<(String, Expr)>, k: Seq<char>, j: int)
    requires
        0 <= j <= s.len(),
        forall|m: int| j <= m < s.len() ==> s[m].0@ != k,
    ensures
        env_map(s).contains_key(k) == env_map(s.take(j)).contains_key(k),
        env_map(s).contains_key(k) ==> env_map(s)[k] == env_map(s.take(j))[k],
    decreases s.len() - j,
{
    if j == s.len() {
        assert(s.take(j) =~= s);
    } else {
        let front = s.drop_last();
        assert(front.take(j) =~= s.take(j));
        lemma_env_map_skip(front, k, j);
    }
}

/// The session environment: a mapping from binding name to its fully
/// reduced value, owned by one evaluation session. It is seeded with the
/// standard combinators, only ever grown or overwritten, never deleted
/// from.
pub struct Env {
    pub entries: Vec<(String, Expr)>,
}

impl View for Env {
    type V = Map<Seq<char>, ExprView>;

    open spec fn view(&self) -> Map<Seq<char>, ExprView> {
        env_map(self.entries@)
    }
}

impl Env {
    /// An environment with no bindings at all.
    pub fn new() -> (e: Env)
        ensures
            e@ == Map::<Seq<char>, ExprView>::empty(),
    {
        Env { entries: Vec::new() }
    }

    /// The current value bound under `name`, if any: the latest entry wins.
    pub fn get(&self, name: &String) -> (r: Option<&Expr>)
        ensures
            match r {
                Some(e) => self@.contains_key(name@) && e@ == self@[name@],
                None => !self@.contains_key(name@),
            },
    {
        let ghost s = self.entries@;
        let mut i: usize = self.entries.len();
        while i > 0
            invariant
                i <= s.len(),
                s == self.entries@,
                forall|m: int| i <= m < s.len() ==> s[m].0@ != name@,
            decreases i,
        {
            i = i - 1;
            if self.entries[i].0 == *name {
                proof {
                    lemma_env_map_skip(s, name@, i + 1);
                    assert(s.take(i + 1).drop_last() =~= s.take(i as int));
                    assert(s.take(i + 1).last() == s[i as int]);
                }
                return Some(&self.entries[i].1);
            }
        }
        proof {
            lemma_env_map_skip(s, name@, 0);
            assert(s.take(0) =~= Seq::<(String, Expr)>::empty());
        }
        None
    }

    /// Store `value` under `name`, overwriting any earlier binding of the
    /// same name.
    pub fn insert(&mut self, name: String, value: Expr)
        ensures
            final(self)@ == old(self)@.insert(name@, value@),
    {
        let ghost s = self.entries@;
        let ghost k = name@;
        let ghost v = value@;
        self.entries.push((name, value));
        proof {
            assert(self.entries@.drop_last() =~= s);
        }
    }
}

/// The set a name sequence denotes.
pub open spec fn name_set(s: Seq<String>) -> Set<Seq<char>>
    decreases s.len(),
{
    if s.len() == 0 {
        Set::empty()
    } else {
        name_set(s.drop_last()).insert(s.last()@)
    }
}

/// Membership in the denoted set is witnessed by an entry.
proof fn lemma_name_set_contains(s: Seq<String>, k: Seq<char>)
    ensures
        name_set(s).contains(k) <==> exists|i: int| 0 <= i < s.len() && s[i]@ == k,
    decreases s.len(),
{
    if s.len() > 0 {
        lemma_name_set_contains(s.drop_last(), k);
        if s.last()@ == k {
            assert(s[s.len() - 1]@ == k);
        } else if name_set(s).contains(k) {
            let i = choose|i: int| 0 <= i < s.drop_last().len() && s.drop_last()[i]@ == k;
            assert(s[i]@ == k);
        } else if exists|i: int| 0 <= i < s.len() && s[i]@ == k {
            let i = choose|i: int| 0 <= i < s.len() && s[i]@ == k;
            assert(s.drop_last()[i]@ == k);
        }
    }
}

/// The used-name set: every identifier visible in the expression under
/// evaluation, reset at the start of each top-level evaluation, grown during
/// expansion and by fresh-name generation so renamed binders never collide
/// with a visible name.
pub struct NameSet {
    pub items: Vec<String>,
}

impl View for NameSet {
    type V = Set<Seq<char>>;

    open spec fn view(&self) -> Set<Seq<char>> {
        name_set(self.items@)
    }
}

impl NameSet {
    /// An empty set.
    pub fn new() -> (s: NameSet)
        ensures
            s@ == Set::<Seq<char>>::empty(),
    {
        NameSet { items: Vec::new() }
    }

    /// Forget every name.
    pub fn clear(&mut self)
        ensures
            final(self)@ == Set::<Seq<char>>::empty(),
    {
        self.items = Vec::new();
    }

    /// Is `name` in the set?
    pub fn contains(&self, name: &String) -> (r: bool)
        ensures
            r == self@.contains(name@),
    {
        let mut i: usize = 0;
        while i < self.items.len()
            invariant
                i <= self.items@.len(),
                forall|m: int| 0 <= m < i ==> self.items@[m]@ != name@,
            decreases self.items@.len() - i,
        {
            if self.items[i] == *name {
                proof {
                    lemma_name_set_contains(self.items@, name@);
                    assert(self.items@[i as int]@ == name@);
                }
                return true;
            }
            i = i + 1;
        }
        proof {
            lemma_name_set_contains(self.items@, name@);
        }
        false
    }

    /// Put `name` in the set.
    pub fn insert(&mut self, name: String)
        ensures
            final(self)@ == old(self)@.insert(name@),
    {
        let ghost s = self.items@;
        if self.contains(&name) {
            proof {
                assert(old(self)@.insert(name@) =~= old(self)@);
            }
        } else {
            self.items.push(name);
            proof {
                assert(self.items@.drop_last() =~= s);
            }
        }
    }
}

} // verus!
