//! The per-request context: an immutable bag of identifying attributes.
//!
//! A context maps identifier kinds (`user_id`, `device_id`, arbitrary
//! custom keys) to string values. It is built once by the embedding
//! caller, read by the decision strategies, and never mutated afterwards.
//! A missing kind is a normal outcome, not an error: strategies that need
//! an absent identifier simply decline to decide.

use vstd::prelude::*;

verus! {

/// A request context: identifier kind to identifier value.
///
/// Abstractly a map from key to value; a kind present in the context maps
/// to exactly one value. Entries are kept newest first, and the newest
/// entry for a kind is the one the map holds.
pub struct Context {
    entries: Vec<(String, String)>,
}

/// The value of the first entry whose key reads `kind`, if any.
spec fn lookup(entries: Seq<(String, String)>, kind: Seq<char>) -> Option<Seq<char>>
    decreases entries.len(),
{
    if entries.len() == 0 {
        None
    } else if entries[0].0@ == kind {
        Some(entries[0].1@)
    } else {
        lookup(entries.drop_first(), kind)
    }
}

impl View for Context {
    type V = Map<Seq<char>, Seq<char>>;

    closed spec fn view(&self) -> Map<Seq<char>, Seq<char>> {
        Map::new(
            |kind: Seq<char>| lookup(self.entries@, kind) is Some,
            |kind: Seq<char>| lookup(self.entries@, kind)->Some_0,
        )
    }
}

impl Context {
    /// An empty context: no identifier of any kind.
    pub fn new() -> (r: Context)
        ensures
            r@ == Map::<Seq<char>, Seq<char>>::empty(),
    {
        let r = Context { entries: Vec::new() };
        proof {
            assert(r@ =~= Map::<Seq<char>, Seq<char>>::empty());
        }
        r
    }

    /// Bind `kind` to `value`, replacing any earlier binding of `kind`.
    pub fn set(&mut self, kind: String, value: String)
        ensures
            final(self)@ == old(self)@.insert(kind@, value@),
    {
        self.entries.insert(0, (kind, value));
        proof {
            assert(self.entries@.drop_first() =~= old(self).entries@);
            assert forall|q: Seq<char>| #![auto] true implies lookup(self.entries@, q) == (
            if q == self.entries@[0].0@ {
                Some(self.entries@[0].1@)
            } else {
                lookup(old(self).entries@, q)
            }) by {
            }
            assert(self@ =~= old(self)@.insert(self.entries@[0].0@, self.entries@[0].1@));
        }
    }

    /// Look the identifier of kind `kind` up.
    ///
    /// Returns the bound value, or `None` when the context holds no
    /// identifier of that kind.
    pub fn get(&self, kind: &String) -> (r: Option<&String>)
        ensures
            match r {
                Some(v) => self@.contains_key(kind@) && v@ == self@[kind@],
                None => !self@.contains_key(kind@),
            },
    {
        let n = self.entries.len();
        let mut i: usize = 0;
        proof {
            assert(self.entries@.skip(0) =~= self.entries@);
        }
        while i < n
            invariant
                i <= n,
                n == self.entries@.len(),
                lookup(self.entries@, kind@) == lookup(self.entries@.skip(i as int), kind@),
            decreases n - i,
        {
            proof {
                assert(self.entries@.skip(i as int)[0] == self.entries@[i as int]);
                assert(self.entries@.skip(i as int).drop_first() =~= self.entries@.skip(
                    i + 1 as int,
                ));
            }
            if self.entries[i].0 == *kind {
                return Some(&self.entries[i].1);
            }
            i = i + 1;
        }
        proof {
            assert(self.entries@.skip(n as int) =~= Seq::<(String, String)>::empty());
        }
        None
    }
}

} // verus!
