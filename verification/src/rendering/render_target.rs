use crate::assoc::{
    entries_distinct, entries_insert, entries_map, entry_index, lemma_entries_map_at,
    lemma_entries_map_push, lemma_entries_map_update,
};
use crate::gfx::framebuffer::{kinds_alike, law_kind_keys_tell_kinds_apart, RenderTargetKind};
use vstd::prelude::*;

verus! {

/// The render targets of a renderer, one per kind, each a frame buffer of type `F`.
pub struct RenderTargetManager<F> {
    targets: Vec<(RenderTargetKind, F)>,
}

impl<F> RenderTargetManager<F> {
    /// The targets in storage order, each under its kind's key.
    pub closed spec fn entries(self) -> Seq<((int, Seq<char>), F)> {
        Seq::new(self.targets@.len(), |i: int| (self.targets@[i].0.key(), self.targets@[i].1))
    }

    /// The targets by kind.
    pub open spec fn as_map(self) -> Map<(int, Seq<char>), F> {
        entries_map(self.entries())
    }

    /// No kind has two targets.
    pub closed spec fn wf(self) -> bool {
        forall|i: int, j: int|
            0 <= i < self.targets@.len() && 0 <= j < self.targets@.len() && i != j
                ==> #[trigger] self.targets@[i].0.key() != #[trigger] self.targets@[j].0.key()
    }

    proof fn lemma_wf_distinct(self)
        requires
            self.wf(),
        ensures
            entries_distinct(self.entries()),
    {
        let s = self.entries();
        assert forall|i: int, j: int|
            0 <= i < s.len() && 0 <= j < s.len() && i != j implies #[trigger] s[i].0 != #[trigger] s[j].0 by {
            assert(s[i].0 == self.targets@[i].0.key());
            assert(s[j].0 == self.targets@[j].0.key());
        }
    }

    pub fn new() -> (r: Self)
        ensures
            r.wf(),
            r.as_map() == Map::<(int, Seq<char>), F>::empty(),
    {
        let r = Self { targets: Vec::new() };
        assert(r.as_map() =~= Map::<(int, Seq<char>), F>::empty());
        r
    }

    fn find(&self, kind: &RenderTargetKind) -> (r: Option<usize>)
        requires
            self.wf(),
        ensures
            (r is Some) == self.as_map().contains_key(kind.key()),
            r matches Some(i) ==> i < self.entries().len() && i == entry_index(
                self.entries(),
                kind.key(),
            ),
    {
        proof {
            self.lemma_wf_distinct();
        }
        let n = self.targets.len();
        let mut i: usize = 0;
        while i < n
            invariant
                self.wf(),
                entries_distinct(self.entries()),
                n == self.targets@.len(),
                i <= n,
                forall|j: int| 0 <= j < i ==> #[trigger] self.entries()[j].0 != kind.key(),
            decreases n - i,
        {
            if self.targets[i].0.same_kind(kind) {
                proof {
                    lemma_entries_map_at(self.entries(), i as int);
                    let j = entry_index(self.entries(), kind.key());
                    assert(0 <= j < self.entries().len() && self.entries()[j].0 == kind.key());
                }
                return Some(i);
            }
            i += 1;
        }
        None
    }

    /// Files `fb` as the target of `kind`, replacing the one it had.
    pub fn insert(&mut self, fb: F, kind: RenderTargetKind)
        requires
            old(self).wf(),
        ensures
            final(self).wf(),
            final(self).as_map() == old(self).as_map().insert(kind.key(), fb),
    {
        let ghost s = self.entries();
        proof {
            self.lemma_wf_distinct();
        }
        match self.find(&kind) {
            Some(i) => {
                proof {
                    lemma_entries_map_update(s, i as int, fb);
                }
                self.targets.set(i, (kind, fb));
                proof {
                    assert(self.entries() =~= s.update(i as int, (kind.key(), fb)));
                    assert forall|a: int, b: int|
                        0 <= a < self.targets@.len() && 0 <= b < self.targets@.len() && a != b implies #[trigger] self.targets@[a].0.key()
                        != #[trigger] self.targets@[b].0.key() by {
                        assert(self.entries()[a].0 == self.targets@[a].0.key());
                        assert(self.entries()[b].0 == self.targets@[b].0.key());
                    }
                }
            },
            None => {
                proof {
                    lemma_entries_map_push(s, kind.key(), fb);
                }
                self.targets.push((kind, fb));
                proof {
                    assert(self.entries() =~= s.push((kind.key(), fb)));
                    assert forall|a: int, b: int|
                        0 <= a < self.targets@.len() && 0 <= b < self.targets@.len() && a != b implies #[trigger] self.targets@[a].0.key()
                        != #[trigger] self.targets@[b].0.key() by {
                        assert(self.entries()[a].0 == self.targets@[a].0.key());
                        assert(self.entries()[b].0 == self.targets@[b].0.key());
                    }
                }
            },
        }
    }

    /// The target of `kind`, if there is one.
    pub fn get(&self, kind: &RenderTargetKind) -> (r: Option<&F>)
        requires
            self.wf(),
        ensures
            r == (if self.as_map().contains_key(kind.key()) {
                Some(&self.as_map()[kind.key()])
            } else {
                None
            }),
    {
        proof {
            self.lemma_wf_distinct();
        }
        match self.find(kind) {
            Some(i) => {
                proof {
                    lemma_entries_map_at(self.entries(), i as int);
                }
                Some(&self.targets[i].1)
            },
            None => None,
        }
    }

    /// A mutable borrow of the target of `kind`, if there is one.
    pub fn get_mut(&mut self, kind: &RenderTargetKind) -> (r: Option<&mut F>)
        requires
            old(self).wf(),
        ensures
            (r is Some) == old(self).as_map().contains_key(kind.key()),
            r is None ==> *final(self) == *old(self),
            r matches Some(v) ==> *v == old(self).as_map()[kind.key()],
            r matches Some(v) ==> final(self).wf(),
            r matches Some(v) ==> final(self).entries() == entries_insert(
                old(self).entries(),
                kind.key(),
                *final(v),
            ),
    {
        proof {
            self.lemma_wf_distinct();
        }
        let i = match self.find(kind) {
            Some(i) => i,
            None => return None,
        };
        proof {
            let s = self.entries();
            let k = kind.key();
            lemma_entries_map_at(s, i as int);
            assert forall|c: F|
                #![trigger entries_insert(s, k, c)]
                entries_insert(s, k, c) == s.update(i as int, (k, c)) && entries_distinct(
                    entries_insert(s, k, c),
                ) by {
                lemma_entries_map_update(s, i as int, c);
            }
        }
        Some(&mut self.targets[i].1)
    }

    /// The kinds that have a target, in storage order.
    pub fn kinds(&self) -> (r: Vec<RenderTargetKind>)
        ensures
            r@.len() == self.entries().len(),
            forall|i: int| 0 <= i < r@.len() ==> #[trigger] r@[i].key() == self.entries()[i].0,
    {
        let mut out: Vec<RenderTargetKind> = Vec::new();
        let n = self.targets.len();
        let mut i: usize = 0;
        while i < n
            invariant
                n == self.targets@.len(),
                i <= n,
                out@.len() == i,
                forall|j: int| 0 <= j < i ==> #[trigger] out@[j].key() == self.entries()[j].0,
            decreases n - i,
        {
            out.push(self.targets[i].0);
            i += 1;
        }
        out
    }
}

/// Filing a target under one kind leaves the target of every other kind as it was: after
/// `insert(fb, a)`, `get(b)` for a kind `b` that is not `a` gives what it gave before, and
/// `get(a)` gives `fb`.
pub proof fn law_insert_keeps_other_kinds<F>(
    m: RenderTargetManager<F>,
    fb: F,
    a: RenderTargetKind,
    b: RenderTargetKind,
)
    requires
        !kinds_alike(a, b),
    ensures
        ({
            let after = m.as_map().insert(a.key(), fb);
            &&& after.contains_key(a.key()) && after[a.key()] == fb
            &&& after.contains_key(b.key()) == m.as_map().contains_key(b.key())
            &&& m.as_map().contains_key(b.key()) ==> after[b.key()] == m.as_map()[b.key()]
        }),
{
    law_kind_keys_tell_kinds_apart(a, b);
}

} // verus!
