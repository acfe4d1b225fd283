//! The uniform set abstraction: membership, insertion and removal over a key
//! domain, stated against a mathematical set of keys. Range-based
//! implementations translate keys through an `Indexer` into boolean storage;
//! the hashed implementation delegates to a general hash table.

use vstd::prelude::*;

verus! {

/// Abstract set, either general or over a contiguous key range. Every
/// operation is specified against `key_set`, the mathematical set of keys
/// held; `can_hold` delimits the keys an instance can represent (the whole
/// domain for hashed sets, the configured range for range-indexed ones), and
/// `can_mutate` whether the backing storage accepts writes.
pub trait SetOps<T: Copy>: Sized {
    /// Well-formedness of the container's internal representation.
    spec fn wf(&self) -> bool;

    /// The keys this instance can store or test.
    spec fn can_hold(&self, value: T) -> bool;

    /// Whether the backing storage permits mutation.
    spec fn can_mutate(&self) -> bool;

    /// The mathematical set of keys currently held.
    spec fn key_set(&self) -> Set<T>;

    /// Whether `value` is a member.
    fn contains(&self, value: &T) -> (r: bool)
        requires
            self.wf(),
            self.can_hold(*value),
        ensures
            r == self.key_set().contains(*value),
    ;

    /// Add `value`; true iff it was not yet a member.
    fn insert(&mut self, value: T) -> (r: bool)
        requires
            old(self).wf(),
            old(self).can_hold(value),
            old(self).can_mutate(),
        ensures
            final(self).wf(),
            final(self).key_set() == old(self).key_set().insert(value),
            r == !old(self).key_set().contains(value),
            final(self).can_mutate(),
            forall|k: T| #[trigger] final(self).can_hold(k) <==> old(self).can_hold(k),
    ;

    /// Remove `value`; true iff it was a member.
    fn remove(&mut self, value: &T) -> (r: bool)
        requires
            old(self).wf(),
            old(self).can_hold(*value),
            old(self).can_mutate(),
        ensures
            final(self).wf(),
            final(self).key_set() == old(self).key_set().remove(*value),
            r == old(self).key_set().contains(*value),
            final(self).can_mutate(),
            forall|k: T| #[trigger] final(self).can_hold(k) <==> old(self).can_hold(k),
    ;

    /// Add every key of `values`, ignoring the individual membership
    /// results.
    fn insert_all(&mut self, values: &Vec<T>)
        requires
            old(self).wf(),
            old(self).can_mutate(),
            forall|i: int| 0 <= i < values@.len() ==> old(self).can_hold(#[trigger] values@[i]),
        ensures
            final(self).wf(),
            final(self).key_set() == old(self).key_set().union(values@.to_set()),
            final(self).can_mutate(),
            forall|k: T| #[trigger] final(self).can_hold(k) <==> old(self).can_hold(k),
    ;

    /// Whether this implementation offers reference-yielding iteration.
    fn supports_iter_ref() -> bool;
}

/// Extending a prefix of a sequence by one element adds exactly that element
/// to the prefix's set of values.
pub proof fn lemma_subrange_to_set_step<T>(s: Seq<T>, i: int)
    requires
        0 <= i < s.len(),
    ensures
        s.subrange(0, i + 1).to_set() == s.subrange(0, i).to_set().insert(s[i]),
{
    let shorter = s.subrange(0, i);
    let longer = s.subrange(0, i + 1);
    assert forall|x: T| longer.to_set().contains(x) implies shorter.to_set().insert(
        s[i],
    ).contains(x) by {
        let j = choose|j: int| 0 <= j < longer.len() && longer[j] == x;
        if j < i {
            assert(shorter[j] == x);
            assert(shorter.contains(x));
        }
    }
    assert forall|x: T| shorter.to_set().insert(s[i]).contains(x) implies longer.to_set().contains(
        x,
    ) by {
        if shorter.to_set().contains(x) {
            let j = choose|j: int| 0 <= j < shorter.len() && shorter[j] == x;
            assert(longer[j] == x);
            assert(longer.contains(x));
        } else {
            assert(longer[i] == x);
            assert(longer.contains(x));
        }
    }
    assert(longer.to_set() =~= shorter.to_set().insert(s[i]));
}

/// A sequence's whole prefix holds exactly the sequence's values; the base
/// and conclusion that `insert_all` loops step through.
pub proof fn lemma_subrange_to_set_full<T>(s: Seq<T>)
    ensures
        s.subrange(0, s.len() as int).to_set() == s.to_set(),
        s.subrange(0, 0).to_set() == Set::<T>::empty(),
{
    assert(s.subrange(0, s.len() as int) =~= s);
    assert(s.subrange(0, 0) =~= Seq::<T>::empty());
    assert(Seq::<T>::empty().to_set() =~= Set::<T>::empty());
}

/// A non-empty sequence's set of values is its first element together with
/// the set of values of the rest.
pub proof fn lemma_to_set_drop_first<T>(s: Seq<T>)
    requires
        s.len() > 0,
    ensures
        s.to_set() == s.drop_first().to_set().insert(s[0]),
{
    let rest = s.drop_first();
    assert forall|x: T| s.to_set().contains(x) implies rest.to_set().insert(s[0]).contains(x) by {
        let j = choose|j: int| 0 <= j < s.len() && s[j] == x;
        if j > 0 {
            assert(rest[j - 1] == x);
            assert(rest.contains(x));
        }
    }
    assert forall|x: T| rest.to_set().insert(s[0]).contains(x) implies s.to_set().contains(x) by {
        if rest.to_set().contains(x) {
            let j = choose|j: int| 0 <= j < rest.len() && rest[j] == x;
            assert(s[j + 1] == x);
            assert(s.contains(x));
        } else {
            assert(s.contains(x));
        }
    }
    assert(s.to_set() =~= rest.to_set().insert(s[0]));
}

} // verus!
