//! An ordered list of processor handles addressed by stable identifiers.
//!
//! Every insertion draws a fresh identifier that is never handed out again, so
//! an identifier stays valid until its own element is removed, and a stale
//! identifier never reaches another element.
use vstd::prelude::*;

verus! {

/// Stable identifier of an element of a [`HandleList`].
#[derive(Clone, Copy, Debug, PartialEq, Eq, Structural)]
pub struct Ptr {
    pub id: u64,
}

/// Model of a list: its entries front first, each an identifier and an element.
pub type Entries<T> = Seq<(u64, T)>;

/// The identifiers of a model are pairwise distinct.
pub open spec fn ids_unique<T>(s: Entries<T>) -> bool {
    forall|i: int, j: int| 0 <= i < s.len() && 0 <= j < s.len() && i != j ==> s[i].0 != s[j].0
}

/// Some entry of the model carries `id`.
pub open spec fn has_id<T>(s: Entries<T>, id: u64) -> bool {
    exists|i: int| 0 <= i < s.len() && s[i].0 == id
}

/// The element that `id` dereferences to, if any.
pub open spec fn lookup<T>(s: Entries<T>, id: u64) -> Option<T> {
    if has_id(s, id) {
        let i = choose|i: int| 0 <= i < s.len() && s[i].0 == id;
        Some(s[i].1)
    } else {
        None
    }
}

/// The model after inserting `x` under `id` at the front.
pub open spec fn push_entry<T>(s: Entries<T>, id: u64, x: T) -> Entries<T> {
    seq![(id, x)] + s
}

/// The model after dropping the entry that carries `id`, if there is one.
pub open spec fn remove_entry<T>(s: Entries<T>, id: u64) -> Entries<T> {
    if has_id(s, id) {
        let i = choose|i: int| 0 <= i < s.len() && s[i].0 == id;
        s.remove(i)
    } else {
        s
    }
}

/// The entry at `i` is the one that carries `id`.
proof fn lemma_index_of_id<T>(s: Entries<T>, id: u64, i: int)
    requires
        ids_unique(s),
        0 <= i < s.len(),
        s[i].0 == id,
    ensures
        lookup(s, id) == Some(s[i].1),
        remove_entry(s, id) == s.remove(i),
{
    let j = choose|j: int| 0 <= j < s.len() && s[j].0 == id;
    assert(j == i);
}

/// An id returned by an insertion dereferences to the inserted element;
/// insertions and removals under other ids change nothing for it, and the
/// removal of that id ends it.
pub proof fn lemma_id_stability<T>(s: Entries<T>, id: u64, x: T, other: u64)
    requires
        ids_unique(s),
        !has_id(s, id),
        other != id,
    ensures
        lookup(push_entry(s, id, x), id) == Some(x),
        ids_unique(push_entry(s, id, x)),
        lookup(push_entry(s, id, x), other) == lookup(s, other),
        lookup(remove_entry(s, other), id) == lookup(s, id),
        lookup(remove_entry(push_entry(s, id, x), other), id) == Some(x),
        !has_id(remove_entry(push_entry(s, id, x), id), id),
{
    let t = push_entry(s, id, x);
    lemma_push_unique(s, id, x);
    lemma_index_of_id(t, id, 0);
    if has_id(s, other) {
        let k = choose|k: int| 0 <= k < s.len() && s[k].0 == other;
        lemma_index_of_id(s, other, k);
        assert(t[k + 1] == s[k]);
        lemma_index_of_id(t, other, k + 1);
    } else {
        assert(!has_id(t, other)) by {
            if has_id(t, other) {
                let k = choose|k: int| 0 <= k < t.len() && t[k].0 == other;
                assert(t[k] == s[k - 1]);
            }
        }
    }
    lemma_remove_keeps_others(s, other, id);
    lemma_remove_keeps_others(t, other, id);
    lemma_remove_drops(t, id);
}

/// Inserting under a fresh id keeps the ids distinct.
proof fn lemma_push_unique<T>(s: Entries<T>, id: u64, x: T)
    requires
        ids_unique(s),
        !has_id(s, id),
    ensures
        ids_unique(push_entry(s, id, x)),
{
    let t = push_entry(s, id, x);
    assert forall|i: int, j: int| 0 <= i < t.len() && 0 <= j < t.len() && i != j
        implies t[i].0 != t[j].0 by {
        if i == 0 {
            assert(t[j] == s[j - 1]);
        } else if j == 0 {
            assert(t[i] == s[i - 1]);
        } else {
            assert(t[i] == s[i - 1] && t[j] == s[j - 1]);
        }
    }
}

/// Removing `other` changes nothing for any different id.
proof fn lemma_remove_keeps_others<T>(s: Entries<T>, other: u64, id: u64)
    requires
        ids_unique(s),
        other != id,
    ensures
        lookup(remove_entry(s, other), id) == lookup(s, id),
        ids_unique(remove_entry(s, other)),
{
    if has_id(s, other) {
        let k = choose|k: int| 0 <= k < s.len() && s[k].0 == other;
        let r = s.remove(k);
        assert(remove_entry(s, other) == r);
        assert forall|i: int, j: int| 0 <= i < r.len() && 0 <= j < r.len() && i != j
            implies r[i].0 != r[j].0 by {
            let si = if i < k { i } else { i + 1 };
            let sj = if j < k { j } else { j + 1 };
            assert(r[i] == s[si] && r[j] == s[sj]);
        }
        if has_id(s, id) {
            let i = choose|i: int| 0 <= i < s.len() && s[i].0 == id;
            lemma_index_of_id(s, id, i);
            let ri = if i < k { i } else { i - 1 };
            assert(r[ri] == s[i]);
            lemma_index_of_id(r, id, ri);
        } else {
            assert(!has_id(r, id)) by {
                if has_id(r, id) {
                    let ri = choose|ri: int| 0 <= ri < r.len() && r[ri].0 == id;
                    let si = if ri < k { ri } else { ri + 1 };
                    assert(r[ri] == s[si]);
                }
            }
        }
    }
}

/// After its removal, an id is carried by no entry.
proof fn lemma_remove_drops<T>(s: Entries<T>, id: u64)
    requires
        ids_unique(s),
    ensures
        !has_id(remove_entry(s, id), id),
        ids_unique(remove_entry(s, id)),
        has_id(s, id) ==> remove_entry(s, id).len() + 1 == s.len(),
        !has_id(s, id) ==> remove_entry(s, id) == s,
{
    if has_id(s, id) {
        let k = choose|k: int| 0 <= k < s.len() && s[k].0 == id;
        let r = s.remove(k);
        assert forall|i: int, j: int| 0 <= i < r.len() && 0 <= j < r.len() && i != j
            implies r[i].0 != r[j].0 by {
            let si = if i < k { i } else { i + 1 };
            let sj = if j < k { j } else { j + 1 };
            assert(r[i] == s[si] && r[j] == s[sj]);
        }
        assert(!has_id(r, id)) by {
            if has_id(r, id) {
                let ri = choose|ri: int| 0 <= ri < r.len() && r[ri].0 == id;
                let si = if ri < k { ri } else { ri + 1 };
                assert(r[ri] == s[si]);
            }
        }
    }
}

/// Inserting an element under a fresh id and then removing that id gives the
/// list back as it was; in particular its length is unchanged.
pub proof fn lemma_push_then_remove<T>(s: Entries<T>, id: u64, x: T)
    requires
        ids_unique(s),
        !has_id(s, id),
    ensures
        remove_entry(push_entry(s, id, x), id) == s,
        remove_entry(push_entry(s, id, x), id).len() == s.len(),
{
    let t = push_entry(s, id, x);
    lemma_push_unique(s, id, x);
    lemma_index_of_id(t, id, 0);
    assert(t.remove(0) =~= s);
}

/// One operation on a list model.
pub enum Step<T> {
    /// Insert an element at the front under an id.
    Push(u64, T),
    /// Remove the entry that carries an id.
    Remove(u64),
}

/// The model after one operation.
pub open spec fn apply_step<T>(s: Entries<T>, step: Step<T>) -> Entries<T> {
    match step {
        Step::Push(id, x) => push_entry(s, id, x),
        Step::Remove(id) => remove_entry(s, id),
    }
}

/// The model after a sequence of operations, first to last.
pub open spec fn run_steps<T>(s: Entries<T>, steps: Seq<Step<T>>) -> Entries<T>
    decreases steps.len(),
{
    if steps.len() == 0 {
        s
    } else {
        run_steps(apply_step(s, steps[0]), steps.drop_first())
    }
}

/// Every insertion of the sequence uses an id that no entry carries at that
/// point, as `push_front` guarantees.
pub open spec fn pushes_fresh<T>(s: Entries<T>, steps: Seq<Step<T>>) -> bool
    decreases steps.len(),
{
    if steps.len() == 0 {
        true
    } else {
        &&& (steps[0] matches Step::Push(id, _) ==> !has_id(s, id))
        &&& pushes_fresh(apply_step(s, steps[0]), steps.drop_first())
    }
}

/// Over any sequence of insertions under fresh ids and removals, an id keeps
/// dereferencing to its element as long as no removal of that id is issued.
pub proof fn lemma_id_stable_over_steps<T>(s: Entries<T>, steps: Seq<Step<T>>, id: u64, x: T)
    requires
        ids_unique(s),
        pushes_fresh(s, steps),
        lookup(s, id) == Some(x),
        forall|i: int| 0 <= i < steps.len() ==> !(#[trigger] steps[i] matches Step::Remove(r) && r == id),
    ensures
        lookup(run_steps(s, steps), id) == Some(x),
        ids_unique(run_steps(s, steps)),
    decreases steps.len(),
{
    if steps.len() > 0 {
        let s1 = apply_step(s, steps[0]);
        match steps[0] {
            Step::Push(j, y) => {
                assert(j != id);
                lemma_id_stability(s, j, y, id);
            },
            Step::Remove(k) => {
                assert(k != id) by {
                    assert(!(steps[0] matches Step::Remove(r) && r == id));
                }
                lemma_remove_keeps_others(s, k, id);
            },
        }
        let rest = steps.drop_first();
        assert forall|i: int| 0 <= i < rest.len() implies !(#[trigger] rest[i] matches Step::Remove(
            r,
        ) && r == id) by {
            assert(rest[i] == steps[i + 1]);
        }
        lemma_id_stable_over_steps(s1, rest, id, x);
    }
}

struct Entry<T> {
    id: u64,
    data: T,
}

/// Ordered container of handles, front first, with stable identifiers.
pub struct HandleList<T> {
    entries: Vec<Entry<T>>,
    next_id: u64,
}

impl<T> View for HandleList<T> {
    type V = Entries<T>;

    closed spec fn view(&self) -> Entries<T> {
        self.entries@.map_values(|e: Entry<T>| (e.id, e.data))
    }
}

impl<T> HandleList<T> {
    /// The identifier that the next insertion will hand out.
    pub closed spec fn next_id(&self) -> u64 {
        self.next_id
    }

    /// Identifiers are distinct and all below the next one to be handed out.
    pub open spec fn wf(&self) -> bool {
        &&& ids_unique(self@)
        &&& forall|i: int| 0 <= i < self@.len() ==> #[trigger] self@[i].0 < self.next_id()
    }

    /// An empty list.
    pub fn new() -> (r: Self)
        ensures
            r.wf(),
            r@ == Seq::<(u64, T)>::empty(),
            r.next_id() == 0,
    {
        HandleList { entries: Vec::new(), next_id: 0 }
    }

    /// Number of elements.
    pub fn len(&self) -> (r: usize)
        ensures
            r == self@.len(),
    {
        self.entries.len()
    }

    /// Inserts `x` at the front and returns its identifier; `None`, with the
    /// list unchanged, once every identifier has been handed out.
    pub fn push_front(&mut self, x: T) -> (r: Option<Ptr>)
        requires
            old(self).wf(),
        ensures
            final(self).wf(),
            old(self).next_id() < u64::MAX <==> r is Some,
            r matches Some(p) ==> {
                &&& !has_id(old(self)@, p.id)
                &&& final(self)@ == push_entry(old(self)@, p.id, x)
                &&& final(self).next_id() == old(self).next_id() + 1
            },
            r is None ==> final(self)@ == old(self)@ && final(self).next_id() == old(self).next_id(),
    {
        if self.next_id == u64::MAX {
            return None;
        }
        let id = self.next_id;
        proof {
            assert(!has_id(self@, id)) by {
                if has_id(self@, id) {
                    let i = choose|i: int| 0 <= i < self@.len() && self@[i].0 == id;
                    assert(self@[i].0 < self.next_id);
                }
            }
            lemma_push_unique(self@, id, x);
        }
        let ghost before = self@;
        self.entries.insert(0, Entry { id, data: x });
        self.next_id = id + 1;
        proof {
            assert(self@ =~= push_entry(before, id, x));
        }
        Some(Ptr { id })
    }

    /// Identifier of the front element, if any.
    pub fn front(&self) -> (r: Option<Ptr>)
        ensures
            self@.len() == 0 <==> r is None,
            r matches Some(p) ==> p.id == self@[0].0,
    {
        if self.entries.len() == 0 {
            None
        } else {
            Some(Ptr { id: self.entries[0].id })
        }
    }

    /// Position of the entry that carries `p`, if any.
    fn position(&self, p: Ptr) -> (r: Option<usize>)
        ensures
            has_id(self@, p.id) <==> r is Some,
            r matches Some(i) ==> i < self@.len() && self@[i as int].0 == p.id,
    {
        let mut i: usize = 0;
        while i < self.entries.len()
            invariant
                i <= self@.len(),
                forall|k: int| 0 <= k < i ==> self@[k].0 != p.id,
            decreases self@.len() - i,
        {
            assert(self@[i as int].0 == self.entries@[i as int].id);
            if self.entries[i].id == p.id {
                return Some(i);
            }
            i = i + 1;
        }
        None
    }

    /// The element that `p` refers to; `None` once it has been removed.
    pub fn get(&self, p: Ptr) -> (r: Option<&T>)
        requires
            self.wf(),
        ensures
            r is Some <==> lookup(self@, p.id) is Some,
            r matches Some(v) ==> lookup(self@, p.id) == Some(*v),
    {
        match self.position(p) {
            Some(i) => {
                proof {
                    lemma_index_of_id(self@, p.id, i as int);
                }
                Some(&self.entries[i].data)
            },
            None => None,
        }
    }

    /// Removes the element that `p` refers to and hands it back; other
    /// identifiers are unaffected.
    pub fn remove_at(&mut self, p: Ptr) -> (r: Option<T>)
        requires
            old(self).wf(),
        ensures
            final(self).wf(),
            final(self)@ == remove_entry(old(self)@, p.id),
            final(self).next_id() == old(self).next_id(),
            r == lookup(old(self)@, p.id),
    {
        let ghost before = self@;
        proof {
            lemma_remove_drops(before, p.id);
        }
        match self.position(p) {
            Some(i) => {
                proof {
                    lemma_index_of_id(before, p.id, i as int);
                }
                let e = self.entries.remove(i);
                proof {
                    assert(self@ =~= before.remove(i as int));
                    assert forall|k: int| 0 <= k < self@.len() implies #[trigger] self@[k].0
                        < self.next_id() by {
                        if k < i {
                            assert(self@[k] == before[k]);
                        } else {
                            assert(self@[k] == before[k + 1]);
                        }
                    }
                }
                Some(e.data)
            },
            None => None,
        }
    }
}

} // verus!
