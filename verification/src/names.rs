//! Sets of names.
use vstd::prelude::*;
use vstd::string::*;
use crate::text::{same, views, group_views};

verus! {

broadcast use group_views;

/// A set of names.
pub struct NameSet {
    names: Vec<String>,
}

impl View for NameSet {
    type V = Set<Seq<char>>;

    closed spec fn view(&self) -> Set<Seq<char>> {
        Set::new(|x: Seq<char>| views(self.names@).contains(x))
    }
}

impl NameSet {
    pub fn new() -> (r: Self)
        ensures
            r@ == Set::<Seq<char>>::empty(),
    {
        let r = NameSet { names: Vec::new() };
        assert(r@ =~= Set::<Seq<char>>::empty());
        r
    }

    pub fn contains(&self, name: &str) -> (r: bool)
        ensures
            r == self@.contains(name@),
    {
        let mut i: usize = 0;
        while i < self.names.len()
            invariant
                i <= self.names@.len(),
                forall|k: int| 0 <= k < i ==> views(self.names@)[k] != name@,
            decreases self.names@.len() - i,
        {
            if same(self.names[i].as_str(), name) {
                assert(views(self.names@)[i as int] == name@);
                return true;
            }
            i += 1;
        }
        false
    }

    pub fn insert(&mut self, name: String)
        ensures
            final(self)@ == old(self)@.insert(name@),
    {
        let ghost before = views(self.names@);
        let ghost v = name@;
        if !self.contains(name.as_str()) {
            self.names.push(name);
            assert(views(self.names@) == before.push(v));
            assert forall|x: Seq<char>| views(self.names@).contains(x) <==> before.contains(x)
                || x == v by {
                if before.contains(x) {
                    let k = choose|k: int| 0 <= k < before.len() && before[k] == x;
                    assert(before.push(v)[k] == x);
                }
                assert(before.push(v)[before.len() as int] == v);
            }
        }
        assert(self@ =~= old(self)@.insert(v));
    }

    /// Takes a name out; says whether it was in.
    pub fn remove(&mut self, name: &str) -> (r: bool)
        ensures
            r == old(self)@.contains(name@),
            final(self)@ == old(self)@.remove(name@),
    {
        let found = self.contains(name);
        let mut kept: Vec<String> = Vec::new();
        let mut i: usize = 0;
        while i < self.names.len()
            invariant
                i <= self.names@.len(),
                self.names@ == old(self).names@,
                forall|x: Seq<char>|
                    #![trigger views(kept@).contains(x)]
                    views(kept@).contains(x) <==> x != name@ && exists|k: int|
                        0 <= k < i && views(self.names@)[k] == x,
            decreases self.names@.len() - i,
        {
            let ghost before = views(kept@);
            let ghost all = views(self.names@);
            if !same(self.names[i].as_str(), name) {
                kept.push(self.names[i].clone());
                assert(views(kept@) == before.push(all[i as int]));
                assert forall|x: Seq<char>| views(kept@).contains(x) <==> x != name@ && exists|
                    k: int,
                |
                    0 <= k < i + 1 && all[k] == x by {
                    let now = views(kept@);
                    if now.contains(x) {
                        let j = choose|j: int| 0 <= j < now.len() && now[j] == x;
                        if j < before.len() {
                            assert(before[j] == x);
                            assert(before.contains(x));
                        } else {
                            assert(all[i as int] == x);
                        }
                    }
                    if x != name@ && exists|k: int| 0 <= k < i + 1 && all[k] == x {
                        let k = choose|k: int| 0 <= k < i + 1 && all[k] == x;
                        if k < i {
                            assert(before.contains(x));
                            let j = choose|j: int| 0 <= j < before.len() && before[j] == x;
                            assert(now[j] == x);
                        } else {
                            assert(now[before.len() as int] == x);
                        }
                    }
                }
            }
            i += 1;
        }
        self.names = kept;
        assert(self@ =~= old(self)@.remove(name@));
        found
    }
}

} // verus!
