//! The table of live connections that both transports are built on.
//!
//! A registry is a list of `(identifier, handle)` pairs in the order in which
//! the connections were registered; no identifier occurs twice. Its model is the
//! sequence of those pairs.

use vstd::prelude::*;
use crate::net::{NetIdGen, UserNetId, ID_SPACE};

verus! {

/// Some entry of `live` carries `id`.
pub open spec fn has_id<T>(live: Seq<(UserNetId, T)>, id: UserNetId) -> bool {
    exists|i: int| 0 <= i < live.len() && (#[trigger] live[i]).0 == id
}

/// No identifier occurs in two entries of `live`.
pub open spec fn distinct_ids<T>(live: Seq<(UserNetId, T)>) -> bool {
    forall|i: int, j: int| 0 <= i < j < live.len() ==> (#[trigger] live[i]).0 != (#[trigger] live[j]).0
}

/// The entries of `live` whose identifier is not in `bad`, in their order.
pub open spec fn retain_good<T>(live: Seq<(UserNetId, T)>, bad: Seq<UserNetId>) -> Seq<
    (UserNetId, T),
>
    decreases live.len(),
{
    if live.len() == 0 {
        live
    } else if bad.contains(live.last().0) {
        retain_good(live.drop_last(), bad)
    } else {
        retain_good(live.drop_last(), bad).push(live.last())
    }
}

/// The identifier that a newcomer to `live` receives from a generator that
/// has issued `issued` identifiers: the next one, unless the generator is
/// spent or that identifier is already live.
pub open spec fn fresh_id<T>(live: Seq<(UserNetId, T)>, issued: nat) -> Option<UserNetId> {
    if issued < ID_SPACE && !has_id(live, UserNetId(issued as u32)) {
        Some(UserNetId(issued as u32))
    } else {
        None
    }
}

/// The generator's count after one draw from it.
pub open spec fn drawn(issued: nat) -> nat {
    if issued < ID_SPACE {
        issued + 1
    } else {
        issued
    }
}

/// `live` after a newcomer with `handle` asked to join.
pub open spec fn registered<T>(live: Seq<(UserNetId, T)>, issued: nat, handle: T) -> Seq<
    (UserNetId, T),
> {
    match fresh_id(live, issued) {
        Some(id) => live.push((id, handle)),
        None => live,
    }
}

/// Every live identifier was issued by a generator whose count is `issued`.
pub open spec fn ids_below<T>(live: Seq<(UserNetId, T)>, issued: nat) -> bool {
    forall|i: int| 0 <= i < live.len() ==> (#[trigger] live[i]).0@ < issued
}

/// Sweeping keeps an entry exactly if it was there and its identifier is not bad.
pub proof fn lemma_retain_contains<T>(live: Seq<(UserNetId, T)>, bad: Seq<UserNetId>, e: (UserNetId, T))
    ensures
        retain_good(live, bad).contains(e) <==> live.contains(e) && !bad.contains(e.0),
    decreases live.len(),
{
    if live.len() > 0 {
        let front = live.drop_last();
        lemma_retain_contains(front, bad, e);
        let kept = retain_good(front, bad);
        if live.contains(e) {
            let i = choose|i: int| 0 <= i < live.len() && live[i] == e;
            if i < live.len() - 1 {
                assert(front[i] == e);
            }
        }
        if front.contains(e) {
            let i = choose|i: int| 0 <= i < front.len() && front[i] == e;
            assert(live[i] == e);
        }
        if !bad.contains(live.last().0) {
            let all = kept.push(live.last());
            assert(all[kept.len() as int] == live.last());
            if kept.contains(e) {
                let i = choose|i: int| 0 <= i < kept.len() && kept[i] == e;
                assert(all[i] == e);
            }
            if all.contains(e) {
                let i = choose|i: int| 0 <= i < all.len() && all[i] == e;
                if i < kept.len() {
                    assert(kept[i] == e);
                }
            }
        }
        assert(live[live.len() - 1] == live.last());
    }
}

/// After a sweep an identifier is live exactly if it was live and is not bad.
pub proof fn lemma_retain_has_id<T>(live: Seq<(UserNetId, T)>, bad: Seq<UserNetId>, id: UserNetId)
    ensures
        has_id(retain_good(live, bad), id) <==> has_id(live, id) && !bad.contains(id),
{
    let kept = retain_good(live, bad);
    if has_id(kept, id) {
        let i = choose|i: int| 0 <= i < kept.len() && (#[trigger] kept[i]).0 == id;
        lemma_retain_contains(live, bad, kept[i]);
        assert(kept.contains(kept[i]));
        let j = choose|j: int| 0 <= j < live.len() && live[j] == kept[i];
        assert(live[j].0 == id);
    }
    if has_id(live, id) && !bad.contains(id) {
        let i = choose|i: int| 0 <= i < live.len() && (#[trigger] live[i]).0 == id;
        lemma_retain_contains(live, bad, live[i]);
        assert(live.contains(live[i]));
        let j = choose|j: int| 0 <= j < kept.len() && kept[j] == live[i];
        assert(kept[j].0 == id);
    }
}

/// A sweep keeps identifiers distinct.
pub proof fn lemma_retain_distinct<T>(live: Seq<(UserNetId, T)>, bad: Seq<UserNetId>)
    requires
        distinct_ids(live),
    ensures
        distinct_ids(retain_good(live, bad)),
    decreases live.len(),
{
    if live.len() > 0 {
        let front = live.drop_last();
        assert forall|i: int, j: int| 0 <= i < j < front.len() implies (#[trigger] front[i]).0 != (
        #[trigger] front[j]).0 by {
            assert(front[i] == live[i] && front[j] == live[j]);
        }
        lemma_retain_distinct(front, bad);
        let kept = retain_good(front, bad);
        if !bad.contains(live.last().0) {
            let all = kept.push(live.last());
            assert forall|i: int, j: int| 0 <= i < j < all.len() implies (#[trigger] all[i]).0 != (
            #[trigger] all[j]).0 by {
                if j == kept.len() {
                    lemma_retain_contains(front, bad, kept[i]);
                    assert(kept.contains(kept[i]));
                    let k = choose|k: int| 0 <= k < front.len() && front[k] == kept[i];
                    assert(live[k] == kept[i]);
                    assert(live[live.len() - 1] == live.last());
                } else {
                    assert(all[i] == kept[i] && all[j] == kept[j]);
                }
            }
        }
    }
}

/// A sweep with no bad identifier among the live ones changes nothing.
pub proof fn lemma_retain_all<T>(live: Seq<(UserNetId, T)>, bad: Seq<UserNetId>)
    requires
        forall|i: int| 0 <= i < live.len() ==> !bad.contains((#[trigger] live[i]).0),
    ensures
        retain_good(live, bad) == live,
    decreases live.len(),
{
    if live.len() > 0 {
        let front = live.drop_last();
        assert forall|i: int| 0 <= i < front.len() implies !bad.contains((#[trigger] front[i]).0) by {
            assert(front[i] == live[i]);
        }
        lemma_retain_all(front, bad);
        assert(live[live.len() - 1] == live.last());
        assert(front.push(live.last()) =~= live);
    }
}

/// No handle occurs in two entries of `live`.
pub open spec fn distinct_handles<T>(live: Seq<(UserNetId, T)>) -> bool {
    forall|i: int, j: int| 0 <= i < j < live.len() ==> (#[trigger] live[i]).1 != (#[trigger] live[j]).1
}

/// A sweep keeps handles distinct.
pub proof fn lemma_retain_distinct_handles<T>(live: Seq<(UserNetId, T)>, bad: Seq<UserNetId>)
    requires
        distinct_handles(live),
    ensures
        distinct_handles(retain_good(live, bad)),
    decreases live.len(),
{
    if live.len() > 0 {
        let front = live.drop_last();
        assert forall|i: int, j: int| 0 <= i < j < front.len() implies (#[trigger] front[i]).1 != (
        #[trigger] front[j]).1 by {
            assert(front[i] == live[i] && front[j] == live[j]);
        }
        lemma_retain_distinct_handles(front, bad);
        let kept = retain_good(front, bad);
        if !bad.contains(live.last().0) {
            let all = kept.push(live.last());
            assert forall|i: int, j: int| 0 <= i < j < all.len() implies (#[trigger] all[i]).1 != (
            #[trigger] all[j]).1 by {
                if j == kept.len() {
                    lemma_retain_contains(front, bad, kept[i]);
                    assert(kept.contains(kept[i]));
                    let k = choose|k: int| 0 <= k < front.len() && front[k] == kept[i];
                    assert(live[k] == kept[i]);
                    assert(live[live.len() - 1] == live.last());
                } else {
                    assert(all[i] == kept[i] && all[j] == kept[j]);
                }
            }
        }
    }
}

/// Sweeping one more entry: it stays exactly if its identifier is not bad.
pub proof fn lemma_retain_push<T>(live: Seq<(UserNetId, T)>, bad: Seq<UserNetId>, e: (UserNetId, T))
    ensures
        retain_good(live.push(e), bad) == if bad.contains(e.0) {
            retain_good(live, bad)
        } else {
            retain_good(live, bad).push(e)
        },
{
    assert(live.push(e).drop_last() =~= live);
    assert(live.push(e).last() == e);
}

/// Registration keeps identifiers distinct.
pub proof fn lemma_registered_distinct<T>(live: Seq<(UserNetId, T)>, issued: nat, handle: T)
    requires
        distinct_ids(live),
    ensures
        distinct_ids(registered(live, issued, handle)),
{
    if let Some(id) = fresh_id(live, issued) {
        let all = live.push((id, handle));
        assert forall|i: int, j: int| 0 <= i < j < all.len() implies (#[trigger] all[i]).0 != (
        #[trigger] all[j]).0 by {
            if j == live.len() {
                assert(all[i] == live[i]);
            } else {
                assert(all[i] == live[i] && all[j] == live[j]);
            }
        }
    }
}

/// While every live identifier came from the generator, a newcomer is turned
/// away only when the generator is spent, and afterwards every live
/// identifier still came from the generator.
pub proof fn lemma_registered_below<T>(live: Seq<(UserNetId, T)>, issued: nat, handle: T)
    requires
        ids_below(live, issued),
    ensures
        ids_below(registered(live, issued, handle), drawn(issued)),
        issued < ID_SPACE ==> fresh_id(live, issued) == Some(UserNetId(issued as u32)),
{
    if issued < ID_SPACE {
        let id = UserNetId(issued as u32);
        if has_id(live, id) {
            let i = choose|i: int| 0 <= i < live.len() && (#[trigger] live[i]).0 == id;
            assert(live[i].0@ < issued);
        }
        let all = live.push((id, handle));
        assert forall|i: int| 0 <= i < all.len() implies (#[trigger] all[i]).0@ < issued + 1 by {
            if i < live.len() {
                assert(all[i] == live[i]);
            }
        }
    }
}

/// An identifier is never issued twice: the one that a newcomer receives is
/// live in no table whose identifiers came from the same generator, and was
/// not issued before.
pub proof fn lemma_fresh_id_is_new<T, U>(
    live: Seq<(UserNetId, T)>,
    other: Seq<(UserNetId, U)>,
    issued: nat,
)
    requires
        ids_below(other, issued),
        fresh_id(live, issued) is Some,
    ensures
        !has_id(other, fresh_id(live, issued)->0),
        fresh_id(live, issued)->0@ == issued,
{
    let id = fresh_id(live, issued)->0;
    if has_id(other, id) {
        let i = choose|i: int| 0 <= i < other.len() && (#[trigger] other[i]).0 == id;
        assert(other[i].0@ < issued);
    }
}

/// A sweep leaves only identifiers that were live before.
pub proof fn lemma_retain_below<T>(live: Seq<(UserNetId, T)>, bad: Seq<UserNetId>, issued: nat)
    requires
        ids_below(live, issued),
    ensures
        ids_below(retain_good(live, bad), issued),
{
    let kept = retain_good(live, bad);
    assert forall|i: int| 0 <= i < kept.len() implies (#[trigger] kept[i]).0@ < issued by {
        lemma_retain_contains(live, bad, kept[i]);
        assert(kept.contains(kept[i]));
        let j = choose|j: int| 0 <= j < live.len() && live[j] == kept[i];
        assert(live[j].0@ < issued);
    }
}

/// The live connections of one transport.
pub struct Registry<T> {
    entries: Vec<(UserNetId, T)>,
}

impl<T> View for Registry<T> {
    type V = Seq<(UserNetId, T)>;

    closed spec fn view(&self) -> Seq<(UserNetId, T)> {
        self.entries@
    }
}

/// `id` occurs in `bad`.
pub fn contains_id(bad: &Vec<UserNetId>, id: UserNetId) -> (r: bool)
    ensures
        r == bad@.contains(id),
{
    let mut i: usize = 0;
    while i < bad.len()
        invariant
            i <= bad.len(),
            forall|k: int| 0 <= k < i ==> bad@[k] != id,
        decreases bad.len() - i,
    {
        if bad[i] == id {
            return true;
        }
        i = i + 1;
    }
    false
}

impl<T> Registry<T> {
    /// No identifier is registered twice.
    pub open spec fn wf(&self) -> bool {
        distinct_ids(self@)
    }

    /// A registry without connections.
    pub fn new() -> (r: Self)
        ensures
            r@ == Seq::<(UserNetId, T)>::empty(),
            r.wf(),
    {
        Registry { entries: Vec::new() }
    }

    /// Number of live connections.
    pub fn len(&self) -> (n: usize)
        ensures
            n == self@.len(),
    {
        self.entries.len()
    }

    /// Identifier of the connection at position `i`.
    pub fn id_at(&self, i: usize) -> (id: UserNetId)
        requires
            i < self@.len(),
        ensures
            id == self@[i as int].0,
    {
        self.entries[i].0
    }

    /// Handle of the connection at position `i`.
    pub fn handle_at(&self, i: usize) -> (h: &T)
        requires
            i < self@.len(),
        ensures
            *h == self@[i as int].1,
    {
        &self.entries[i].1
    }

    /// Handle of the connection at position `i`, to work on. The identifiers
    /// and every other handle stay as they are.
    pub fn handle_mut(&mut self, i: usize) -> (h: &mut T)
        requires
            i < old(self)@.len(),
        ensures
            *h == old(self)@[i as int].1,
            final(self)@ == old(self)@.update(i as int, (old(self)@[i as int].0, *final(h))),
    {
        &mut self.entries[i].1
    }

    /// Position of the connection that carries `id`, if it is live.
    pub fn position(&self, id: UserNetId) -> (r: Option<usize>)
        ensures
            match r {
                Some(i) => i < self@.len() && self@[i as int].0 == id,
                None => !has_id(self@, id),
            },
    {
        let mut i: usize = 0;
        while i < self.entries.len()
            invariant
                i <= self.entries.len(),
                forall|k: int| 0 <= k < i ==> (#[trigger] self@[k]).0 != id,
            decreases self.entries.len() - i,
        {
            if self.entries[i].0 == id {
                return Some(i);
            }
            i = i + 1;
        }
        None
    }

    /// Registers a newcomer: draws the next identifier and registers `handle`
    /// under it. Nothing is registered, and `None` comes back, when the
    /// generator is spent or the identifier drawn is already live here.
    pub fn register(&mut self, ids: &mut NetIdGen, handle: T) -> (r: Option<UserNetId>)
        requires
            old(self).wf(),
            old(ids).wf(),
        ensures
            final(self).wf(),
            final(ids).wf(),
            r == fresh_id(old(self)@, old(ids).issued()),
            final(self)@ == registered(old(self)@, old(ids).issued(), handle),
            final(ids).issued() == drawn(old(ids).issued()),
    {
        proof {
            lemma_registered_distinct(self@, ids.issued(), handle);
        }
        match UserNetId::next(ids) {
            None => None,
            Some(id) => {
                match self.position(id) {
                    Some(i) => {
                        assert(self@[i as int].0 == id);
                        None
                    },
                    None => {
                        self.entries.push((id, handle));
                        Some(id)
                    },
                }
            },
        }
    }

    /// Removes every connection whose identifier is in `bad`; the others keep
    /// their order and their handles.
    pub fn sweep(&mut self, bad: &Vec<UserNetId>)
        requires
            old(self).wf(),
        ensures
            final(self).wf(),
            final(self)@ == retain_good(old(self)@, bad@),
            forall|id: UserNetId| #[trigger]
                has_id(final(self)@, id) <==> has_id(old(self)@, id) && !bad@.contains(id),
    {
        let mut before: Vec<(UserNetId, T)> = Vec::new();
        std::mem::swap(&mut self.entries, &mut before);
        let ghost all = before@;
        assert(retain_good(all.take(0), bad@) =~= Seq::<(UserNetId, T)>::empty());
        for entry in it: before
            invariant
                it.seq() == all,
                self.entries@ == retain_good(all.take(it.index() as int), bad@),
        {
            proof {
                lemma_retain_push(all.take(it.index() as int), bad@, entry);
                assert(all.take(it.index() + 1) =~= all.take(it.index() as int).push(entry));
            }
            if !contains_id(bad, entry.0) {
                self.entries.push(entry);
            }
        }
        proof {
            assert(all.take(all.len() as int) =~= all);
            lemma_retain_distinct(all, bad@);
            assert forall|id: UserNetId| #[trigger]
                has_id(self@, id) <==> has_id(all, id) && !bad@.contains(id) by {
                lemma_retain_has_id(all, bad@, id);
            }
        }
    }
}

} // verus!
