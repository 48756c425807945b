//! The device registry: one handle per device identity.
//!
//! The registry is the single source of truth for which devices are open. It
//! is generic over the handle type so that the same verified logic serves the
//! real drivers and test doubles; sharing it between tasks (a reader/writer
//! lock around it) is left to the caller.

use vstd::prelude::*;

use crate::text::str_eq;

verus! {

/// Whether a list of entries files something under identity `k`.
pub open spec fn lists<H>(entries: Seq<(String, H)>, k: Seq<char>) -> bool {
    exists|i: int| 0 <= i < entries.len() && (#[trigger] entries[i]).0@ == k
}

/// Whether a list of identities names `k`.
pub open spec fn names(ids: Seq<String>, k: Seq<char>) -> bool {
    exists|i: int| 0 <= i < ids.len() && (#[trigger] ids[i])@ == k
}

/// No identity is filed twice.
pub open spec fn unique_keys<H>(entries: Seq<(String, H)>) -> bool {
    forall|i: int, j: int|
        0 <= i < entries.len() && 0 <= j < entries.len() && i != j ==> (#[trigger] entries[i]).0@
            != (#[trigger] entries[j]).0@
}

/// The handle filed under `k`: the first one, where a list files several.
pub open spec fn handle_in<H>(entries: Seq<(String, H)>, k: Seq<char>) -> H
    decreases entries.len(),
{
    if entries.len() == 0 {
        arbitrary()
    } else if entries[0].0@ == k {
        entries[0].1
    } else {
        handle_in(entries.drop_first(), k)
    }
}

/// Shared registry of open devices, keyed by identity.
pub struct DisplayManager<H> {
    entries: Vec<(String, H)>,
}

impl<H> DisplayManager<H> {
    /// The entries, in the order they were added.
    pub closed spec fn view(&self) -> Seq<(String, H)> {
        self.entries@
    }

    /// Whether `k` is held.
    pub open spec fn holds(&self, k: Seq<char>) -> bool {
        lists(self@, k)
    }

    /// The handle held for `k`.
    pub open spec fn handle(&self, k: Seq<char>) -> H {
        handle_in(self@, k)
    }

    /// The registry never holds two handles for one identity.
    pub open spec fn wf(&self) -> bool {
        unique_keys(self@)
    }

    /// An empty registry.
    pub fn new() -> (r: Self)
        ensures
            r@.len() == 0,
            r.wf(),
    {
        DisplayManager { entries: Vec::new() }
    }

    /// The handle held for `id`, if any.
    pub fn get(&self, id: &str) -> (r: Option<&H>)
        requires
            self.wf(),
        ensures
            r.is_some() == self.holds(id@),
            r matches Some(h) ==> *h == self.handle(id@),
    {
        let i = index_of(&self.entries, id);
        match i {
            Some(i) => {
                proof {
                    lemma_handle_at(self@, i as int);
                }
                Some(&self.entries[i].1)
            },
            None => None,
        }
    }

    /// All identities held, in the order they were added.
    pub fn get_all_ids(&self) -> (r: Vec<String>)
        ensures
            r@.len() == self@.len(),
            forall|i: int| 0 <= i < r@.len() ==> r@[i] == (#[trigger] self@[i]).0,
    {
        let mut r: Vec<String> = Vec::new();
        let mut i: usize = 0;
        while i < self.entries.len()
            invariant
                i <= self@.len(),
                r@.len() == i,
                forall|j: int| 0 <= j < i ==> r@[j] == (#[trigger] self@[j]).0,
            decreases self.entries.len() - i,
        {
            r.push(self.entries[i].0.clone());
            i = i + 1;
        }
        r
    }

    /// Number of handles held.
    pub fn count(&self) -> (r: usize)
        ensures
            r == self@.len(),
    {
        self.entries.len()
    }

    /// Drops every handle.
    pub fn clear(&mut self)
        ensures
            final(self)@.len() == 0,
            final(self).wf(),
    {
        self.entries = Vec::new();
    }

    /// Adds a handle under an identity that is not yet held.
    fn insert_absent(&mut self, id: String, handle: H)
        requires
            old(self).wf(),
            !old(self).holds(id@),
        ensures
            final(self)@ == old(self)@.push((id, handle)),
            final(self).wf(),
    {
        self.entries.push((id, handle));
    }

    /// Merges a freshly probed set of handles into the registry.
    ///
    /// An identity stays when it is in `new` or in `keep`; every other one is
    /// dropped. A handle already held is never replaced: for an identity in
    /// both the registry and `new`, the registry's handle stays and the new
    /// one is dropped. An identity of `new` not yet held gets the first handle
    /// that `new` lists for it.
    pub fn merge(&mut self, new: Vec<(String, H)>, keep: &Vec<String>)
        requires
            old(self).wf(),
        ensures
            merged(*old(self), *final(self), new@, keep@),
    {
        let ghost orig = self@;
        let ghost newv = new@;
        let mut rest: Vec<(String, H)> = Vec::new();
        std::mem::swap(&mut self.entries, &mut rest);
        // Keep the held entries that `new` or `keep` names.
        while rest.len() > 0
            invariant
                unique_keys(orig),
                rest@ == orig.take(rest@.len() as int),
                rest@.len() <= orig.len(),
                newv == new@,
                self.wf(),
                forall|k: Seq<char>|
                    self.holds(k) <==> kept_from(orig, rest@.len() as int, k, newv, keep@),
                forall|k: Seq<char>| self.holds(k) ==> self.handle(k) == handle_in(orig, k),
            decreases rest.len(),
        {
            let e = rest.pop().unwrap();
            let ghost n = rest@.len() as int;
            let ghost k = e.0@;
            assert(orig[n] == e);
            if index_of(&new, e.0.as_str()).is_some() || names_id(keep, e.0.as_str()) {
                let ghost before = self@;
                proof {
                    if self.holds(k) {
                        let j = choose|j: int|
                            n + 1 <= j < orig.len() && (#[trigger] orig[j]).0@ == k && (lists(
                                newv,
                                k,
                            ) || names(keep@, k));
                        assert(orig[j].0@ == orig[n].0@);
                    }
                    lemma_handle_at(orig, n);
                    assert forall|k2: Seq<char>|
                        #[trigger] lists(before, k2) == kept_from(orig, n + 1, k2, newv, keep@) by {
                        assert(self.holds(k2) == kept_from(orig, n + 1, k2, newv, keep@));
                    }
                }
                self.insert_absent(e.0, e.1);
                proof {
                    assert(self@[before.len() as int] == e);
                    assert forall|k2: Seq<char>| self.holds(k2) implies self.handle(k2)
                        == handle_in(orig, k2) by {
                        lemma_handle_push(before, e, k2);
                        lemma_lists_push(before, e, k2);
                    }
                    assert forall|k2: Seq<char>|
                        self.holds(k2) <==> kept_from(orig, n, k2, newv, keep@) by {
                        lemma_lists_push(before, e, k2);
                        if k2 == k {
                            assert(orig[n].0@ == k2);
                            assert(lists(newv, k) || names(keep@, k));
                        }
                        if k2 != k && lists(before, k2) {
                            assert(kept_from(orig, n + 1, k2, newv, keep@));
                            let j = choose|j: int|
                                n + 1 <= j < orig.len() && (#[trigger] orig[j]).0@ == k2 && (lists(
                                    newv,
                                    k2,
                                ) || names(keep@, k2));
                            assert(n <= j);
                        }
                        if kept_from(orig, n, k2, newv, keep@) && k2 != k {
                            let j = choose|j: int|
                                n <= j < orig.len() && (#[trigger] orig[j]).0@ == k2 && (lists(
                                    newv,
                                    k2,
                                ) || names(keep@, k2));
                            assert(j != n);
                            assert(kept_from(orig, n + 1, k2, newv, keep@));
                            assert(lists(before, k2));
                        }
                    }
                }
            } else {
                proof {
                    assert forall|k2: Seq<char>|
                        self.holds(k2) <==> kept_from(orig, n, k2, newv, keep@) by {
                        if kept_from(orig, n, k2, newv, keep@) && k2 != k {
                            let j = choose|j: int|
                                n <= j < orig.len() && (#[trigger] orig[j]).0@ == k2 && (lists(
                                    newv,
                                    k2,
                                ) || names(keep@, k2));
                            assert(j != n);
                        }
                        if kept_from(orig, n + 1, k2, newv, keep@) {
                            let j = choose|j: int|
                                n + 1 <= j < orig.len() && (#[trigger] orig[j]).0@ == k2 && (lists(
                                    newv,
                                    k2,
                                ) || names(keep@, k2));
                            assert(n <= j);
                        }
                    }
                }
            }
        }
        proof {
            assert forall|k: Seq<char>|
                self.holds(k) <==> lists(orig, k) && (lists(newv, k) || names(keep@, k)) by {
                if lists(orig, k) && (lists(newv, k) || names(keep@, k)) {
                    let j = choose|j: int| 0 <= j < orig.len() && (#[trigger] orig[j]).0@ == k;
                    assert(kept_from(orig, 0, k, newv, keep@));
                }
            }
        }
        // Add the identities of `new` that are not held yet.
        let ghost mut m: int = 0;
        let mut pending = new;
        while pending.len() > 0
            invariant
                0 <= m <= newv.len(),
                pending@ == newv.skip(m),
                unique_keys(orig),
                self.wf(),
                forall|k: Seq<char>|
                    self.holds(k) <==> (lists(orig, k) && (lists(newv, k) || names(keep@, k)))
                        || lists(newv.take(m), k),
                forall|k: Seq<char>|
                    self.holds(k) && lists(orig, k) ==> self.handle(k) == handle_in(orig, k),
                forall|k: Seq<char>|
                    self.holds(k) && !lists(orig, k) ==> self.handle(k) == handle_in(newv, k),
            decreases pending.len(),
        {
            let e = pending.remove(0);
            let ghost k = e.0@;
            proof {
                assert(newv[m] == e);
                assert(newv.take(m + 1) =~= newv.take(m).push(e));
                assert forall|k2: Seq<char>| lists(newv.take(m + 1), k2) <==> lists(newv.take(m), k2) || k2 == k by {
                    lemma_lists_push(newv.take(m), e, k2);
                }
            }
            if index_of(&self.entries, e.0.as_str()).is_none() {
                let ghost before = self@;
                proof {
                    if !lists(orig, k) {
                        lemma_handle_first(newv, m, k);
                    }
                }
                self.insert_absent(e.0, e.1);
                proof {
                    assert(self@[before.len() as int] == e);
                    assert forall|k2: Seq<char>| self.holds(k2) <==> lists(before, k2) || k2 == k by {
                        lemma_lists_push(before, e, k2);
                    }
                    assert forall|k2: Seq<char>| #[trigger] lists(before, k2) implies self.handle(k2) == handle_in(before, k2) by {
                        lemma_handle_push(before, e, k2);
                    }
                    lemma_handle_push(before, e, k);
                    if lists(orig, k) {
                        assert(lists(newv, k)) by {
                            assert(newv[m].0@ == k);
                        }
                    }
                }
            }
            proof {
                m = m + 1;
                assert(pending@ =~= newv.skip(m));
            }
        }
        proof {
            assert(newv.take(m) =~= newv);
        }
    }

    /// Whether `id` is held.
    pub fn contains(&self, id: &str) -> (r: bool)
        ensures
            r == self.holds(id@),
    {
        index_of(&self.entries, id).is_some()
    }

    /// Appends to `out` the items of `items` whose identity is held here and
    /// not yet listed in `out`, in order; for an identity that `items` lists
    /// twice, the first one.
    pub fn select_held<X>(&self, out: &mut Vec<(String, X)>, items: Vec<(String, X)>)
        requires
            unique_keys(old(out)@),
        ensures
            unique_keys(final(out)@),
            forall|k: Seq<char>|
                #[trigger] lists(final(out)@, k) <==> lists(old(out)@, k) || (self.holds(k) && lists(
                    items@,
                    k,
                )),
            forall|k: Seq<char>|
                lists(old(out)@, k) ==> #[trigger] handle_in(final(out)@, k) == handle_in(old(out)@, k),
            forall|k: Seq<char>|
                !lists(old(out)@, k) && self.holds(k) && lists(items@, k) ==> #[trigger] handle_in(
                    final(out)@,
                    k,
                ) == handle_in(items@, k),
    {
        let ghost start = out@;
        let ghost itemv = items@;
        let ghost mut m: int = 0;
        let mut pending = items;
        while pending.len() > 0
            invariant
                0 <= m <= itemv.len(),
                pending@ == itemv.skip(m),
                unique_keys(out@),
                forall|k: Seq<char>|
                    lists(out@, k) <==> lists(start, k) || (self.holds(k) && lists(itemv.take(m), k)),
                forall|k: Seq<char>| lists(start, k) ==> handle_in(out@, k) == handle_in(start, k),
                forall|k: Seq<char>|
                    !lists(start, k) && lists(out@, k) ==> handle_in(out@, k) == handle_in(itemv, k),
            decreases pending.len(),
        {
            let e = pending.remove(0);
            let ghost k = e.0@;
            proof {
                assert(itemv[m] == e);
                assert(itemv.take(m + 1) =~= itemv.take(m).push(e));
                assert forall|k2: Seq<char>|
                    lists(itemv.take(m + 1), k2) <==> lists(itemv.take(m), k2) || k2 == k by {
                    lemma_lists_push(itemv.take(m), e, k2);
                }
            }
            if self.contains(e.0.as_str()) && index_of(out, e.0.as_str()).is_none() {
                let ghost before = out@;
                proof {
                    if !lists(start, k) {
                        lemma_handle_first(itemv, m, k);
                    }
                }
                out.push(e);
                proof {
                    assert(out@ == before.push(e));
                    assert(unique_keys(out@)) by {
                        assert forall|a: int, b: int|
                            0 <= a < out@.len() && 0 <= b < out@.len() && a != b implies (
                            #[trigger] out@[a]).0@ != (#[trigger] out@[b]).0@ by {
                            if a < before.len() && b < before.len() {
                                assert(out@[a] == before[a] && out@[b] == before[b]);
                            } else if a < before.len() {
                                assert(out@[a] == before[a]);
                            } else if b < before.len() {
                                assert(out@[b] == before[b]);
                            }
                        }
                    }
                    assert forall|k2: Seq<char>| lists(out@, k2) <==> lists(before, k2) || k2 == k by {
                        lemma_lists_push(before, e, k2);
                    }
                    assert forall|k2: Seq<char>| #[trigger] lists(before, k2) implies handle_in(out@, k2)
                        == handle_in(before, k2) by {
                        lemma_handle_push(before, e, k2);
                    }
                    lemma_handle_push(before, e, k);
                }
            }
            proof {
                m = m + 1;
                assert(pending@ =~= itemv.skip(m));
            }
        }
        proof {
            assert(itemv.take(m) =~= itemv);
        }
    }

    /// Replaces the set of held identities by those of `new`: identities
    /// absent from `new` are dropped, those not yet held are added, and a
    /// handle already held for an identity of `new` is kept.
    pub fn update_displays(&mut self, new: Vec<(String, H)>)
        requires
            old(self).wf(),
        ensures
            merged(*old(self), *final(self), new@, Seq::empty()),
    {
        let keep: Vec<String> = Vec::new();
        self.merge(new, &keep);
    }
}

/// Whether the identity `k` of the held list `orig` survives the first step
/// of a merge, judged on the entries from index `n` on.
pub open spec fn kept_from<H>(
    orig: Seq<(String, H)>,
    n: int,
    k: Seq<char>,
    new: Seq<(String, H)>,
    keep: Seq<String>,
) -> bool {
    exists|j: int|
        n <= j < orig.len() && (#[trigger] orig[j]).0@ == k && (lists(new, k) || names(keep, k))
}

/// What a merge of `new`, keeping `keep`, makes of the registry `before`.
pub open spec fn merged<H>(
    before: DisplayManager<H>,
    after: DisplayManager<H>,
    new: Seq<(String, H)>,
    keep: Seq<String>,
) -> bool {
    &&& after.wf()
    &&& forall|k: Seq<char>|
        #[trigger] after.holds(k) <==> (lists(new, k) || (before.holds(k) && names(keep, k)))
    &&& forall|k: Seq<char>|
        before.holds(k) && #[trigger] after.holds(k) ==> after.handle(k) == before.handle(k)
    &&& forall|k: Seq<char>|
        !before.holds(k) && lists(new, k) ==> #[trigger] after.handle(k) == handle_in(new, k)
}

/// After a merge, the identities held are exactly those of `new` together
/// with those that were held before and are named by `keep`; every other
/// identity is gone, and each identity is held once.
pub proof fn lemma_merge_identities<H>(
    before: DisplayManager<H>,
    after: DisplayManager<H>,
    new: Seq<(String, H)>,
    keep: Seq<String>,
    k: Seq<char>,
)
    requires
        merged(before, after, new, keep),
    ensures
        after.holds(k) == (lists(new, k) || (before.holds(k) && names(keep, k))),
        !lists(new, k) && !names(keep, k) ==> !after.holds(k),
        forall|i: int, j: int|
            0 <= i < after@.len() && 0 <= j < after@.len() && after@[i].0@ == k && after@[j].0@ == k
                ==> i == j,
{
    assert(after.holds(k) == (lists(new, k) || (before.holds(k) && names(keep, k))));
    assert forall|i: int, j: int|
        0 <= i < after@.len() && 0 <= j < after@.len() && after@[i].0@ == k && after@[j].0@ == k
            implies i == j by {
        if i != j {
            assert(after@[i].0@ != after@[j].0@);
        }
    }
}

/// Where a list files `id`, the index of the first entry for it.
fn index_of<H>(entries: &Vec<(String, H)>, id: &str) -> (r: Option<usize>)
    ensures
        r.is_some() == lists(entries@, id@),
        r matches Some(i) ==> i < entries@.len() && entries@[i as int].0@ == id@,
{
    let mut i: usize = 0;
    while i < entries.len()
        invariant
            i <= entries@.len(),
            forall|j: int| 0 <= j < i ==> (#[trigger] entries@[j]).0@ != id@,
        decreases entries.len() - i,
    {
        if str_eq(entries[i].0.as_str(), id) {
            return Some(i);
        }
        i = i + 1;
    }
    None
}

/// Whether a list of identities names `id`.
pub fn names_id(ids: &Vec<String>, id: &str) -> (r: bool)
    ensures
        r == names(ids@, id@),
{
    let mut i: usize = 0;
    while i < ids.len()
        invariant
            i <= ids@.len(),
            forall|j: int| 0 <= j < i ==> (#[trigger] ids@[j])@ != id@,
        decreases ids.len() - i,
    {
        if str_eq(ids[i].as_str(), id) {
            return true;
        }
        i = i + 1;
    }
    false
}

/// In a list with unique identities, the handle filed under the identity of
/// entry `i` is that entry's handle.
proof fn lemma_handle_at<H>(entries: Seq<(String, H)>, i: int)
    requires
        unique_keys(entries),
        0 <= i < entries.len(),
    ensures
        handle_in(entries, entries[i].0@) == entries[i].1,
    decreases i,
{
    if i > 0 {
        assert(entries[0].0@ != entries[i].0@);
        let rest = entries.drop_first();
        assert(rest[i - 1] == entries[i]);
        assert forall|a: int, b: int|
            0 <= a < rest.len() && 0 <= b < rest.len() && a != b implies (#[trigger] rest[a]).0@
            != (#[trigger] rest[b]).0@ by {
            assert(rest[a] == entries[a + 1] && rest[b] == entries[b + 1]);
        }
        lemma_handle_at(rest, i - 1);
    }
}

/// Appending an entry files one more identity.
proof fn lemma_lists_push<H>(s: Seq<(String, H)>, e: (String, H), k: Seq<char>)
    ensures
        lists(s.push(e), k) == (lists(s, k) || e.0@ == k),
{
    if lists(s, k) {
        let i = choose|i: int| 0 <= i < s.len() && (#[trigger] s[i]).0@ == k;
        assert(s.push(e)[i] == s[i]);
    }
    if e.0@ == k {
        assert(s.push(e)[s.len() as int] == e);
    }
    if lists(s.push(e), k) {
        let i = choose|i: int| 0 <= i < s.push(e).len() && (#[trigger] s.push(e)[i]).0@ == k;
        if i < s.len() {
            assert(s.push(e)[i] == s[i]);
        }
    }
}

/// Appending an entry leaves the handles of the identities already listed
/// unchanged, and files the new handle under a new identity.
proof fn lemma_handle_push<H>(s: Seq<(String, H)>, e: (String, H), k: Seq<char>)
    ensures
        lists(s, k) ==> handle_in(s.push(e), k) == handle_in(s, k),
        !lists(s, k) && e.0@ == k ==> handle_in(s.push(e), k) == e.1,
    decreases s.len(),
{
    if s.len() == 0 {
        assert(s.push(e)[0] == e);
    } else {
        assert(s.push(e)[0] == s[0]);
        assert(s.push(e).drop_first() =~= s.drop_first().push(e));
        if s[0].0@ != k {
            if lists(s, k) {
                let i = choose|i: int| 0 <= i < s.len() && (#[trigger] s[i]).0@ == k;
                assert(s.drop_first()[i - 1] == s[i]);
            }
            if lists(s.drop_first(), k) {
                let i = choose|i: int| 0 <= i < s.drop_first().len() && (#[trigger] s.drop_first()[i]).0@ == k;
                assert(s.drop_first()[i] == s[i + 1]);
            }
            lemma_handle_push(s.drop_first(), e, k);
        }
    }
}

/// The handle filed under `k` is that of the first entry listing `k`.
proof fn lemma_handle_first<H>(s: Seq<(String, H)>, m: int, k: Seq<char>)
    requires
        0 <= m < s.len(),
        s[m].0@ == k,
        !lists(s.take(m), k),
    ensures
        handle_in(s, k) == s[m].1,
    decreases m,
{
    if m > 0 {
        assert(s.take(m)[0] == s[0]);
        let t = s.drop_first();
        assert(t[m - 1] == s[m]);
        if lists(t.take(m - 1), k) {
            let i = choose|i: int| 0 <= i < t.take(m - 1).len() && (#[trigger] t.take(m - 1)[i]).0@ == k;
            assert(t.take(m - 1)[i] == s.take(m)[i + 1]);
        }
        lemma_handle_first(t, m - 1, k);
    }
}

} // verus!
