//! The parameter map: report-level named display strings, looked up by name
//! when `$P{name}` placeholders are substituted.

use vstd::prelude::*;

verus! {

/// First-match lookup in an association list of (name, display string).
pub open spec fn spec_lookup(s: Seq<(Seq<char>, Seq<char>)>, key: Seq<char>) -> Option<Seq<char>>
    decreases s.len(),
{
    if s.len() == 0 {
        None
    } else if s[0].0 == key {
        Some(s[0].1)
    } else {
        spec_lookup(s.drop_first(), key)
    }
}

/// The map an association list denotes (first match wins).
pub open spec fn assoc_map(s: Seq<(Seq<char>, Seq<char>)>) -> Map<Seq<char>, Seq<char>> {
    Map::new(|k: Seq<char>| spec_lookup(s, k) is Some, |k: Seq<char>| spec_lookup(s, k)->Some_0)
}

/// A mapping from parameter name to display string, built once per compile
/// from the payload's `params` object. Keys are unique there (a JSON object
/// cannot repeat a key); order is irrelevant.
pub struct ParamMap {
    pub entries: Vec<(String, String)>,
}

impl ParamMap {
    /// The map this parameter list denotes.
    pub open spec fn as_map(&self) -> Map<Seq<char>, Seq<char>> {
        assoc_map(self.entries.deep_view())
    }

    /// An empty parameter map.
    pub fn new() -> (r: ParamMap)
        ensures
            r.entries@.len() == 0,
            r.as_map() == Map::<Seq<char>, Seq<char>>::empty(),
    {
        let r = ParamMap { entries: Vec::new() };
        proof {
            assert(r.as_map() =~= Map::<Seq<char>, Seq<char>>::empty());
        }
        r
    }

    /// Looks a parameter up by name.
    pub fn get(&self, key: &str) -> (r: Option<&String>)
        ensures
            match r {
                Some(v) => spec_lookup(self.entries.deep_view(), key@) == Some(v@),
                None => spec_lookup(self.entries.deep_view(), key@) is None,
            },
            match r {
                Some(v) => self.as_map().contains_key(key@) && self.as_map()[key@] == v@,
                None => !self.as_map().contains_key(key@),
            },
    {
        let ghost entriesv = self.entries.deep_view();
        let key_string = String::from_str(key);
        let n = self.entries.len();
        let mut i: usize = 0;
        proof {
            assert(entriesv.skip(0) =~= entriesv);
        }
        while i < n
            invariant
                i <= n,
                n == self.entries@.len(),
                key_string@ == key@,
                entriesv == self.entries.deep_view(),
                entriesv.len() == n,
                forall|k: int| 0 <= k < n ==> entriesv[k] == (
                    #[trigger] self.entries@[k].0@,
                    self.entries@[k].1@,
                ),
                spec_lookup(entriesv.skip(i as int), key@) == spec_lookup(entriesv, key@),
            decreases n - i,
        {
            proof {
                assert(entriesv.skip(i as int)[0] == entriesv[i as int]);
                assert(entriesv.skip(i as int).drop_first() =~= entriesv.skip(i as int + 1));
            }
            if self.entries[i].0 == key_string {
                return Some(&self.entries[i].1);
            }
            i = i + 1;
        }
        proof {
            assert(entriesv.skip(n as int).len() == 0);
        }
        None
    }
}

} // verus!
