//! The body-file cache: basename to file contents, settled once per key.
//!
//! The first successful load of a name stores its contents; every later load
//! of the same name returns the stored string without another read, so the
//! value under a key never changes while the process runs.

use crate::error::Error;
use vstd::prelude::*;

verus! {

/// First-match lookup over the cache's entry sequence.
pub open spec fn spec_lookup(s: Seq<(String, String)>, name: Seq<char>) -> Option<Seq<char>>
    decreases s.len(),
{
    if s.len() == 0 {
        None
    } else if s[0].0@ == name {
        Some(s[0].1@)
    } else {
        spec_lookup(s.drop_first(), name)
    }
}

/// Appending an entry changes a lookup only for a key not yet present.
pub proof fn lemma_lookup_push(s: Seq<(String, String)>, p: (String, String), name: Seq<char>)
    ensures
        spec_lookup(s.push(p), name) == match spec_lookup(s, name) {
            Some(v) => Some(v),
            None => if p.0@ == name {
                Some(p.1@)
            } else {
                None
            },
        },
    decreases s.len(),
{
    if s.len() == 0 {
        assert(s.push(p)[0] == p);
        assert(s.push(p).drop_first() =~= Seq::<(String, String)>::empty());
        assert(spec_lookup(s.push(p).drop_first(), name) is None);
    } else {
        assert(s.push(p)[0] == s[0]);
        assert(s.push(p).drop_first() =~= s.drop_first().push(p));
        if s[0].0@ == name {
            assert(spec_lookup(s, name) == Some(s[0].1@));
            assert(spec_lookup(s.push(p), name) == Some(s[0].1@));
        } else {
            lemma_lookup_push(s.drop_first(), p, name);
            assert(spec_lookup(s, name) == spec_lookup(s.drop_first(), name));
            assert(spec_lookup(s.push(p), name) == spec_lookup(s.drop_first().push(p), name));
        }
    }
}

/// The process-wide cache of body files, keyed by basename.
#[derive(Debug)]
pub struct BodyFileCache {
    entries: Vec<(String, String)>,
}

impl View for BodyFileCache {
    type V = Seq<(String, String)>;

    closed spec fn view(&self) -> Seq<(String, String)> {
        self.entries@
    }
}

impl BodyFileCache {
    /// The contents stored under `name`, if any.
    pub open spec fn lookup(&self, name: Seq<char>) -> Option<Seq<char>> {
        spec_lookup(self@, name)
    }

    /// An empty cache.
    pub fn new() -> (r: Self)
        ensures
            r@ =~= Seq::<(String, String)>::empty(),
    {
        BodyFileCache { entries: Vec::new() }
    }

    /// The cached contents for `name`, if the name has been loaded before.
    pub fn get(&self, name: &str) -> (r: Option<&String>)
        ensures
            match r {
                Some(v) => self.lookup(name@) == Some(v@),
                None => self.lookup(name@) is None,
            },
    {
        let n = self.entries.len();
        let mut i: usize = 0;
        proof {
            assert(self@.skip(0) =~= self@);
        }
        while i < n
            invariant
                n == self@.len(),
                i <= n,
                spec_lookup(self@.skip(i as int), name@) == spec_lookup(self@, name@),
            decreases n - i,
        {
            proof {
                assert(self@.skip(i as int)[0] == self@[i as int]);
                assert(self@.skip(i as int).drop_first() =~= self@.skip(i + 1));
            }
            if crate::message::str_eq(self.entries[i].0.as_str(), name) {
                return Some(&self.entries[i].1);
            }
            i += 1;
        }
        proof {
            assert(self@.skip(n as int) =~= Seq::<(String, String)>::empty());
        }
        None
    }

    /// Resolve `name` against the cache, with `fetched` standing for what a
    /// fresh read under the files root produced on a miss. A hit returns the
    /// settled contents and changes nothing — later reads can never displace
    /// the first. A miss stores and returns `fetched` when the read
    /// succeeded, and reports the missing file otherwise.
    pub fn settle(&mut self, name: &str, fetched: Option<String>) -> (r: Result<String, Error>)
        ensures
            old(self).lookup(name@) matches Some(v) ==> {
                &&& r matches Ok(c) && c@ == v
                &&& final(self)@ == old(self)@
            },
            old(self).lookup(name@) is None ==> match fetched {
                Some(f) => {
                    &&& r matches Ok(c) && c@ == f@
                    &&& final(self)@.len() == old(self)@.len() + 1
                    &&& final(self)@.drop_last() =~= old(self)@
                    &&& final(self)@.last().0@ == name@
                    &&& final(self)@.last().1@ == f@
                    &&& final(self).lookup(name@) == Some(f@)
                },
                None => {
                    &&& r matches Err(e) && e is BodyFileMissing
                    &&& final(self)@ == old(self)@
                },
            },
    {
        let cached = match self.get(name) {
            Some(v) => Some(v.clone()),
            None => None,
        };
        match cached {
            Some(v) => Ok(v),
            None => match fetched {
                Some(f) => {
                    let entry = (name.to_owned(), f.clone());
                    proof {
                        lemma_lookup_push(self@, entry, name@);
                    }
                    self.entries.push(entry);
                    Ok(f)
                },
                None => Err(Error::BodyFileMissing),
            },
        }
    }
}

} // verus!
