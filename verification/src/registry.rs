//! Registry of effect views, keyed by window label.
//!
//! The registry is the bookkeeping half of the lifecycle manager: one entry
//! per window that currently carries an effect, holding the primary view
//! handle and, on the fallback path, the tint overlay handle. Its abstract
//! value is a map from label to entry.

use vstd::prelude::*;

use crate::error::{Error, Result};

verus! {

/// An opaque, copyable token standing in for a native view reference.
///
/// A handle carries no ownership; it is only meaningful to the host layer,
/// which binds it to a native object and dereferences it on the UI thread.
#[derive(Clone, Copy, Debug, PartialEq, Eq, Structural)]
pub struct ViewHandle(pub usize);

impl ViewHandle {
    /// The raw token value.
    pub open spec fn raw_id(self) -> usize {
        self.0
    }

    /// Wrap a raw token value.
    pub fn new(raw: usize) -> (h: ViewHandle)
        ensures
            h.raw_id() == raw,
    {
        ViewHandle(raw)
    }

    /// The raw token value, for the host layer's handle table.
    pub fn as_id(self) -> (raw: usize)
        ensures
            raw == self.raw_id(),
    {
        self.0
    }
}

/// Entry for one tracked effect view.
#[derive(Clone, Copy, Debug)]
pub struct GlassViewEntry {
    pub glass_view: ViewHandle,
    /// Tint overlay handle; present only when the fallback implementation
    /// emulates the tint with a sub-view.
    pub tint_overlay: Option<ViewHandle>,
}

/// Registry of created effect views, one per window label.
pub struct GlassViewRegistry {
    entries: Vec<(String, GlassViewEntry)>,
}

spec fn keys_unique(s: Seq<(String, GlassViewEntry)>) -> bool {
    forall|i: int, j: int| 0 <= i < j < s.len() ==> s[i].0@ != s[j].0@
}

spec fn map_of(s: Seq<(String, GlassViewEntry)>) -> Map<Seq<char>, GlassViewEntry>
    decreases s.len(),
{
    if s.len() == 0 {
        Map::empty()
    } else {
        map_of(s.drop_last()).insert(s.last().0@, s.last().1)
    }
}

impl View for GlassViewRegistry {
    type V = Map<Seq<char>, GlassViewEntry>;

    closed spec fn view(&self) -> Map<Seq<char>, GlassViewEntry> {
        map_of(self.entries@)
    }
}

proof fn lemma_map_of_contains(s: Seq<(String, GlassViewEntry)>, k: Seq<char>)
    ensures
        map_of(s).contains_key(k) <==> (exists|i: int|
            0 <= i < s.len() && #[trigger] s[i].0@ == k),
    decreases s.len(),
{
    if s.len() > 0 {
        let t = s.drop_last();
        lemma_map_of_contains(t, k);
        assert(forall|i: int| 0 <= i < t.len() ==> #[trigger] t[i] == s[i]);
        if map_of(s).contains_key(k) {
            if s.last().0@ == k {
                assert(s[s.len() - 1].0@ == k);
            } else {
                let i = choose|i: int| 0 <= i < t.len() && #[trigger] t[i].0@ == k;
                assert(s[i].0@ == k);
            }
        }
        if exists|i: int| 0 <= i < s.len() && #[trigger] s[i].0@ == k {
            let i = choose|i: int| 0 <= i < s.len() && #[trigger] s[i].0@ == k;
            if i == s.len() - 1 {
                assert(map_of(s).contains_key(k));
            } else {
                assert(t[i].0@ == k);
                assert(map_of(t).contains_key(k));
            }
        }
    }
}

proof fn lemma_map_of_finite(s: Seq<(String, GlassViewEntry)>)
    ensures
        map_of(s).dom().finite(),
    decreases s.len(),
{
    if s.len() > 0 {
        lemma_map_of_finite(s.drop_last());
    }
}

proof fn lemma_map_of_len(s: Seq<(String, GlassViewEntry)>)
    requires
        keys_unique(s),
    ensures
        map_of(s).dom().finite(),
        map_of(s).dom().len() == s.len(),
    decreases s.len(),
{
    if s.len() > 0 {
        let t = s.drop_last();
        assert(forall|i: int| 0 <= i < t.len() ==> #[trigger] t[i] == s[i]);
        lemma_map_of_len(t);
        lemma_map_of_contains(t, s.last().0@);
        assert(!map_of(t).contains_key(s.last().0@));
        assert(map_of(s).dom() =~= map_of(t).dom().insert(s.last().0@));
    }
}

proof fn lemma_map_of_get(s: Seq<(String, GlassViewEntry)>, i: int)
    requires
        keys_unique(s),
        0 <= i < s.len(),
    ensures
        map_of(s).contains_key(s[i].0@),
        map_of(s)[s[i].0@] == s[i].1,
    decreases s.len(),
{
    if i == s.len() - 1 {
    } else {
        let t = s.drop_last();
        assert(forall|j: int| 0 <= j < t.len() ==> #[trigger] t[j] == s[j]);
        lemma_map_of_get(t, i);
        assert(s.last().0@ != s[i].0@);
    }
}

proof fn lemma_map_of_update(s: Seq<(String, GlassViewEntry)>, i: int, e: GlassViewEntry)
    requires
        keys_unique(s),
        0 <= i < s.len(),
    ensures
        map_of(s.update(i, (s[i].0, e))) == map_of(s).insert(s[i].0@, e),
    decreases s.len(),
{
    let u = s.update(i, (s[i].0, e));
    if i == s.len() - 1 {
        assert(u.drop_last() =~= s.drop_last());
        assert(map_of(u) =~= map_of(s).insert(s[i].0@, e));
    } else {
        let t = s.drop_last();
        assert(forall|j: int| 0 <= j < t.len() ==> #[trigger] t[j] == s[j]);
        lemma_map_of_update(t, i, e);
        assert(u.drop_last() =~= t.update(i, (s[i].0, e)));
        assert(u.last() == s.last());
        assert(s.last().0@ != s[i].0@);
        assert(map_of(u) =~= map_of(s).insert(s[i].0@, e));
    }
}

proof fn lemma_map_of_remove(s: Seq<(String, GlassViewEntry)>, i: int)
    requires
        keys_unique(s),
        0 <= i < s.len(),
    ensures
        map_of(s.remove(i)) == map_of(s).remove(s[i].0@),
    decreases s.len(),
{
    if i == s.len() - 1 {
        assert(s.remove(i) =~= s.drop_last());
        lemma_map_of_contains(s.drop_last(), s[i].0@);
        assert(forall|j: int|
            0 <= j < s.len() - 1 ==> #[trigger] s.drop_last()[j] == s[j]);
        assert(!map_of(s.drop_last()).contains_key(s[i].0@));
        assert(map_of(s.remove(i)) =~= map_of(s).remove(s[i].0@));
    } else {
        let t = s.drop_last();
        assert(forall|j: int| 0 <= j < t.len() ==> #[trigger] t[j] == s[j]);
        lemma_map_of_remove(t, i);
        assert(s.remove(i).drop_last() =~= t.remove(i));
        assert(s.remove(i).last() == s.last());
        assert(s.last().0@ != s[i].0@);
        assert(map_of(s.remove(i)) =~= map_of(s).remove(s[i].0@));
    }
}

impl Default for GlassViewRegistry {
    /// An empty registry.
    fn default() -> (r: Self)
        ensures
            r@ == Map::<Seq<char>, GlassViewEntry>::empty(),
            r.wf(),
    {
        GlassViewRegistry { entries: Vec::new() }
    }
}

impl GlassViewRegistry {
    /// Well-formedness: no label occurs twice.
    pub closed spec fn wf(&self) -> bool {
        keys_unique(self.entries@)
    }

    fn index_of(&self, label: &String) -> (r: Option<usize>)
        ensures
            match r {
                Some(i) => i < self.entries@.len() && self.entries@[i as int].0@ == label@,
                None => forall|j: int|
                    0 <= j < self.entries@.len() ==> #[trigger] self.entries@[j].0@ != label@,
            },
    {
        let mut i: usize = 0;
        while i < self.entries.len()
            invariant
                i <= self.entries@.len(),
                forall|j: int| 0 <= j < i ==> #[trigger] self.entries@[j].0@ != label@,
            decreases self.entries@.len() - i,
        {
            if self.entries[i].0 == *label {
                return Some(i);
            }
            i = i + 1;
        }
        None
    }

    /// Whether a window label has a registered effect view.
    pub fn contains(&self, label: &str) -> (r: Result<bool>)
        requires
            self.wf(),
        ensures
            r == Ok::<bool, Error>(self@.contains_key(label@)),
    {
        let owned: String = label.to_owned();
        let found = self.index_of(&owned);
        proof {
            lemma_map_of_contains(self.entries@, label@);
        }
        match found {
            Some(_) => Ok(true),
            None => Ok(false),
        }
    }

    /// Insert a new entry, overwriting any existing entry for the label.
    pub fn insert(
        &mut self,
        label: String,
        glass_view: ViewHandle,
        tint_overlay: Option<ViewHandle>,
    ) -> (r: Result<()>)
        requires
            old(self).wf(),
        ensures
            final(self).wf(),
            final(self)@ == old(self)@.insert(
                label@,
                (GlassViewEntry { glass_view, tint_overlay }),
            ),
            r is Ok,
    {
        let entry = GlassViewEntry { glass_view, tint_overlay };
        let found = self.index_of(&label);
        match found {
            Some(i) => {
                proof {
                    lemma_map_of_update(self.entries@, i as int, entry);
                }
                self.entries[i].1 = entry;
                assert(self.entries@ =~= old(self).entries@.update(
                    i as int,
                    (old(self).entries@[i as int].0, entry),
                ));
                Ok(())
            },
            None => {
                self.entries.push((label, entry));
                proof {
                    assert(self.entries@.drop_last() =~= old(self).entries@);
                    assert(map_of(self.entries@) =~= old(self)@.insert(
                        self.entries@.last().0@,
                        entry,
                    ));
                }
                Ok(())
            },
        }
    }

    /// Look up the handles registered for a label.
    pub fn get(&self, label: &str) -> (r: Result<Option<(ViewHandle, Option<ViewHandle>)>>)
        requires
            self.wf(),
        ensures
            r == Ok::<Option<(ViewHandle, Option<ViewHandle>)>, Error>(
                if self@.contains_key(label@) {
                    Some((self@[label@].glass_view, self@[label@].tint_overlay))
                } else {
                    None
                },
            ),
    {
        let owned: String = label.to_owned();
        let found = self.index_of(&owned);
        proof {
            lemma_map_of_contains(self.entries@, label@);
        }
        match found {
            Some(i) => {
                proof {
                    lemma_map_of_get(self.entries@, i as int);
                }
                let e = &self.entries[i].1;
                Ok(Some((e.glass_view, e.tint_overlay)))
            },
            None => Ok(None),
        }
    }

    /// Remove and return the entry for a label; `None` if it has none.
    pub fn remove(&mut self, label: &str) -> (r: Result<Option<(ViewHandle, Option<ViewHandle>)>>)
        requires
            old(self).wf(),
        ensures
            final(self).wf(),
            final(self)@ == old(self)@.remove(label@),
            r == Ok::<Option<(ViewHandle, Option<ViewHandle>)>, Error>(
                if old(self)@.contains_key(label@) {
                    Some((old(self)@[label@].glass_view, old(self)@[label@].tint_overlay))
                } else {
                    None
                },
            ),
    {
        let owned: String = label.to_owned();
        let found = self.index_of(&owned);
        proof {
            lemma_map_of_contains(self.entries@, label@);
        }
        match found {
            Some(i) => {
                proof {
                    lemma_map_of_get(self.entries@, i as int);
                    lemma_map_of_remove(self.entries@, i as int);
                }
                let (_, e) = self.entries.remove(i);
                Ok(Some((e.glass_view, e.tint_overlay)))
            },
            None => {
                proof {
                    assert(old(self)@ =~= old(self)@.remove(label@));
                }
                Ok(None)
            },
        }
    }

    /// Replace only the overlay handle of an existing entry; no-op when the
    /// label has no entry.
    pub fn update_tint(&mut self, label: &str, tint: Option<ViewHandle>) -> (r: Result<()>)
        requires
            old(self).wf(),
        ensures
            final(self).wf(),
            final(self)@ == if old(self)@.contains_key(label@) {
                old(self)@.insert(
                    label@,
                    (GlassViewEntry {
                        glass_view: old(self)@[label@].glass_view,
                        tint_overlay: tint,
                    }),
                )
            } else {
                old(self)@
            },
            r is Ok,
    {
        let owned: String = label.to_owned();
        let found = self.index_of(&owned);
        proof {
            lemma_map_of_contains(self.entries@, label@);
        }
        match found {
            Some(i) => {
                proof {
                    lemma_map_of_get(self.entries@, i as int);
                }
                let entry = GlassViewEntry {
                    glass_view: self.entries[i].1.glass_view,
                    tint_overlay: tint,
                };
                proof {
                    lemma_map_of_update(self.entries@, i as int, entry);
                }
                self.entries[i].1 = entry;
                assert(self.entries@ =~= old(self).entries@.update(
                    i as int,
                    (old(self).entries@[i as int].0, entry),
                ));
                Ok(())
            },
            None => Ok(()),
        }
    }

    /// How many labels currently carry an effect.
    pub fn len(&self) -> (n: usize)
        requires
            self.wf(),
        ensures
            n == self@.dom().len(),
    {
        proof {
            lemma_map_of_len(self.entries@);
        }
        self.entries.len()
    }
}

} // verus!
