//! A small string-keyed header map with verified lookup, insert and removal.
//! Entries keep insertion order; keys are unique. This is the store behind a
//! response preamble's non-reserved headers.

use vstd::prelude::*;

verus! {

/// One header entry at the spec level: key characters and value characters.
pub type HeaderEntry = (Seq<char>, Seq<char>);

/// Lookup in a sequence of header entries: the first entry whose key is `k`.
pub open spec fn seq_get(s: Seq<HeaderEntry>, k: Seq<char>) -> Option<Seq<char>>
    decreases s.len(),
{
    if s.len() == 0 {
        None
    } else if s[0].0 == k {
        Some(s[0].1)
    } else {
        seq_get(s.drop_first(), k)
    }
}

/// Lookup after appending an entry: an existing binding wins; a fresh key
/// finds the new entry.
proof fn lemma_seq_get_push(s: Seq<HeaderEntry>, k: Seq<char>, v: Seq<char>, key: Seq<char>)
    ensures
        seq_get(s.push((k, v)), key) == (if seq_get(s, key) is Some {
            seq_get(s, key)
        } else if key == k {
            Some(v)
        } else {
            None::<Seq<char>>
        }),
    decreases s.len(),
{
    if s.len() == 0 {
        assert(s.push((k, v)).drop_first() =~= Seq::<HeaderEntry>::empty());
    } else {
        assert(s.push((k, v)).drop_first() =~= s.drop_first().push((k, v)));
        lemma_seq_get_push(s.drop_first(), k, v, key);
    }
}

/// Lookup after removing the entry at `i`: its key is gone; when keys are
/// unique, every other key is untouched.
proof fn lemma_seq_get_remove(s: Seq<HeaderEntry>, i: int, key: Seq<char>)
    requires
        0 <= i < s.len(),
        forall|p: int, q: int| 0 <= p < q < s.len() ==> s[p].0 != s[q].0,
    ensures
        seq_get(s.remove(i), key) == (if key == s[i].0 {
            None::<Seq<char>>
        } else {
            seq_get(s, key)
        }),
    decreases s.len(),
{
    if i == 0 {
        assert(s.remove(0) =~= s.drop_first());
        if key == s[0].0 {
            lemma_seq_get_absent(s.drop_first(), key);
        }
    } else {
        assert(s.remove(i).drop_first() =~= s.drop_first().remove(i - 1));
        lemma_seq_get_remove(s.drop_first(), i - 1, key);
    }
}

/// A key that no entry carries is not found.
proof fn lemma_seq_get_absent(s: Seq<HeaderEntry>, key: Seq<char>)
    requires
        forall|p: int| 0 <= p < s.len() ==> s[p].0 != key,
    ensures
        seq_get(s, key) is None,
    decreases s.len(),
{
    if s.len() > 0 {
        lemma_seq_get_absent(s.drop_first(), key);
    }
}

/// A key found at index `i` is what lookup returns, when keys are unique.
proof fn lemma_seq_get_at(s: Seq<HeaderEntry>, i: int)
    requires
        0 <= i < s.len(),
        forall|p: int, q: int| 0 <= p < q < s.len() ==> s[p].0 != s[q].0,
    ensures
        seq_get(s, s[i].0) == Some(s[i].1),
    decreases s.len(),
{
    if i > 0 {
        lemma_seq_get_at(s.drop_first(), i - 1);
    }
}

/// An insertion-ordered map from header names to header values.
#[derive(Debug, Clone, PartialEq)]
pub struct Headers {
    entries: Vec<(String, String)>,
}

impl Headers {
    /// The entries, keys and values as character sequences, in order.
    pub closed spec fn entries_view(self) -> Seq<HeaderEntry> {
        self.entries@.map(|i: int, e: (String, String)| (e.0@, e.1@))
    }

    /// The binding of key `k`, if any.
    pub open spec fn spec_get(self, k: Seq<char>) -> Option<Seq<char>> {
        seq_get(self.entries_view(), k)
    }

    /// True when `k` is bound.
    pub open spec fn spec_contains(self, k: Seq<char>) -> bool {
        self.spec_get(k) is Some
    }

    /// Keys are pairwise distinct.
    pub open spec fn wf(self) -> bool {
        forall|p: int, q: int|
            0 <= p < q < self.entries_view().len() ==> self.entries_view()[p].0
                != self.entries_view()[q].0
    }

    /// An empty header map.
    pub fn new() -> (r: Headers)
        ensures
            r.wf(),
            r.entries_view() =~= Seq::<HeaderEntry>::empty(),
    {
        let r = Headers { entries: Vec::new() };
        proof {
            assert(r.entries_view() =~= Seq::<HeaderEntry>::empty());
        }
        r
    }

    /// Number of entries.
    pub fn len(&self) -> (n: usize)
        ensures
            n == self.entries_view().len(),
    {
        self.entries.len()
    }

    /// The header name at position `i`.
    pub fn name_at(&self, i: usize) -> (r: &String)
        requires
            i < self.entries_view().len(),
        ensures
            r@ == self.entries_view()[i as int].0,
    {
        &self.entries[i].0
    }

    /// The header value at position `i`.
    pub fn value_at(&self, i: usize) -> (r: &String)
        requires
            i < self.entries_view().len(),
        ensures
            r@ == self.entries_view()[i as int].1,
    {
        &self.entries[i].1
    }

    /// Position of the entry with key `k`, if any.
    fn find(&self, k: &String) -> (r: Option<usize>)
        requires
            self.wf(),
        ensures
            match r {
                Some(i) => i < self.entries_view().len() && self.entries_view()[i as int].0 == k@
                    && self.spec_get(k@) == Some(self.entries_view()[i as int].1),
                None => self.spec_get(k@) is None,
            },
    {
        let n = self.entries.len();
        let mut i: usize = 0;
        while i < n
            invariant
                self.wf(),
                n == self.entries_view().len(),
                i <= n,
                forall|p: int| 0 <= p < i ==> self.entries_view()[p].0 != k@,
            decreases n - i,
        {
            if self.entries[i].0 == *k {
                proof {
                    lemma_seq_get_at(self.entries_view(), i as int);
                }
                return Some(i);
            }
            i = i + 1;
        }
        proof {
            lemma_seq_get_absent(self.entries_view(), k@);
        }
        None
    }

    /// True when `k` is bound.
    pub fn contains_key(&self, k: &String) -> (r: bool)
        requires
            self.wf(),
        ensures
            r == self.spec_contains(k@),
    {
        self.find(k).is_some()
    }

    /// The value bound to `k`, if any.
    pub fn get(&self, k: &String) -> (r: Option<&String>)
        requires
            self.wf(),
        ensures
            match r {
                Some(v) => self.spec_get(k@) == Some(v@),
                None => self.spec_get(k@) is None,
            },
    {
        match self.find(k) {
            Some(i) => Some(&self.entries[i].1),
            None => None,
        }
    }

    /// Bind `k` to `v`, replacing any earlier binding.
    pub fn insert(&mut self, k: String, v: String)
        requires
            old(self).wf(),
        ensures
            final(self).wf(),
            final(self).spec_get(k@) == Some(v@),
            forall|other: Seq<char>|
                other != k@ ==> final(self).spec_get(other) == old(self).spec_get(other),
            old(self).spec_get(k@) is None ==> final(self).entries_view() == old(
                self,
            ).entries_view().push((k@, v@)),
    {
        let found = self.find(&k);
        let ghost pre = self.entries_view();
        match found {
            Some(i) => {
                self.entries.remove(i);
                proof {
                    assert(self.entries_view() =~= pre.remove(i as int));
                    assert forall|key: Seq<char>| true implies seq_get(
                        self.entries_view(),
                        key,
                    ) == (if key == k@ {
                        None::<Seq<char>>
                    } else {
                        seq_get(pre, key)
                    }) by {
                        lemma_seq_get_remove(pre, i as int, key);
                    }
                }
            },
            None => {},
        }
        let ghost mid = self.entries_view();
        assert(seq_get(mid, k@) is None);
        assert(self.wf());
        proof {
            assert forall|p: int| 0 <= p < mid.len() implies mid[p].0 != k@ by {
                if mid[p].0 == k@ {
                    lemma_seq_get_at(mid, p);
                }
            }
        }
        self.entries.push((k, v));
        proof {
            let post = self.entries_view();
            assert(post =~= mid.push((k@, v@)));
            assert forall|p: int, q: int| 0 <= p < q < post.len() implies post[p].0 != post[q].0 by {
                if q < mid.len() {
                    assert(post[p] == mid[p] && post[q] == mid[q]);
                } else {
                    assert(post[q] == (k@, v@) && post[p] == mid[p]);
                }
            }
        }
        proof {
            assert(self.entries_view() =~= mid.push((k@, v@)));
            assert forall|key: Seq<char>| true implies seq_get(self.entries_view(), key) == (
            if seq_get(mid, key) is Some {
                seq_get(mid, key)
            } else if key == k@ {
                Some(v@)
            } else {
                None::<Seq<char>>
            }) by {
                lemma_seq_get_push(mid, k@, v@, key);
            }
        }
    }

    /// Drop the binding of `k`, if there is one.
    pub fn remove(&mut self, k: &String)
        requires
            old(self).wf(),
        ensures
            final(self).wf(),
            final(self).spec_get(k@) is None,
            forall|other: Seq<char>|
                other != k@ ==> final(self).spec_get(other) == old(self).spec_get(other),
    {
        let found = self.find(k);
        let ghost pre = self.entries_view();
        match found {
            Some(i) => {
                self.entries.remove(i);
                proof {
                    assert(self.entries_view() =~= pre.remove(i as int));
                    assert forall|key: Seq<char>| true implies seq_get(
                        self.entries_view(),
                        key,
                    ) == (if key == k@ {
                        None::<Seq<char>>
                    } else {
                        seq_get(pre, key)
                    }) by {
                        lemma_seq_get_remove(pre, i as int, key);
                    }
                }
            },
            None => {},
        }
    }
}

} // verus!
