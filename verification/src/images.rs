//! The image map: raw image bytes supplied by the caller under logical
//! names. An `image` node under `title` names its bytes through its `src`
//! attribute, which is looked up here; a missing entry is a fatal error for
//! the compile (no partial document with a placeholder image).

use vstd::prelude::*;

verus! {

/// First-match lookup of image bytes by name.
pub open spec fn spec_image_lookup(s: Seq<(Seq<char>, Seq<u8>)>, key: Seq<char>) -> Option<
    Seq<u8>,
>
    decreases s.len(),
{
    if s.len() == 0 {
        None
    } else if s[0].0 == key {
        Some(s[0].1)
    } else {
        spec_image_lookup(s.drop_first(), key)
    }
}

/// A mapping from logical image name to raw bytes, supplied by the caller.
pub struct ImageMap {
    pub entries: Vec<(String, Vec<u8>)>,
}

impl ImageMap {
    /// An empty image map.
    pub fn new() -> (r: ImageMap)
        ensures
            r.entries@.len() == 0,
            r.entries.deep_view() =~= Seq::<(Seq<char>, Seq<u8>)>::empty(),
    {
        ImageMap { entries: Vec::new() }
    }

    /// Looks image bytes up by name.
    pub fn get(&self, key: &str) -> (r: Option<&Vec<u8>>)
        ensures
            match r {
                Some(bytes) => spec_image_lookup(self.entries.deep_view(), key@) == Some(bytes@),
                None => spec_image_lookup(self.entries.deep_view(), key@) is None,
            },
    {
        let ghost entriesv = self.entries.deep_view();
        let key_string = String::from_str(key);
        let n = self.entries.len();
        let mut i: usize = 0;
        proof {
            assert(entriesv.skip(0) =~= entriesv);
        }
        while i < n
            invariant
                i <= n,
                n == self.entries@.len(),
                key_string@ == key@,
                entriesv == self.entries.deep_view(),
                entriesv.len() == n,
                forall|k: int| 0 <= k < n ==> entriesv[k] == (
                    #[trigger] self.entries@[k].0@,
                    self.entries@[k].1@,
                ),
                spec_image_lookup(entriesv.skip(i as int), key@) == spec_image_lookup(
                    entriesv,
                    key@,
                ),
            decreases n - i,
        {
            proof {
                assert(entriesv.skip(i as int)[0] == entriesv[i as int]);
                assert(entriesv.skip(i as int).drop_first() =~= entriesv.skip(i as int + 1));
            }
            if self.entries[i].0 == key_string {
                return Some(&self.entries[i].1);
            }
            i = i + 1;
        }
        proof {
            assert(entriesv.skip(n as int).len() == 0);
        }
        None
    }
}

} // verus!
