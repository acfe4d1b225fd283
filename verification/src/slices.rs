//! Slice/array/vector-backed container with a uniform capability interface.
//!
//! A `SliceStorage` is a contiguous run of elements together with an ownership
//! mode (`SliceBackedChoice`): a read-only view of external data, a writable
//! view of external data, an owned fixed-length region, an owned growable
//! region, or a writable handle to an external growable region. The mode is
//! fixed at construction; operations that a mode cannot support (writing
//! through the read-only mode, taking a growable handle from a fixed region)
//! are contract violations and are ruled out by preconditions.
//!
//! The borrowed modes are modelled by capability, not by aliasing: a
//! storage built over an external region records that region's contents at
//! construction and owns the record, and the mode governs which operations
//! the contracts admit from then on. Writes through the writable modes act
//! on the container's own contents; they are not propagated back into the
//! region the container was built from, whose exclusivity remains the
//! caller's to manage.

use vstd::prelude::*;
use vstd::std_specs::cmp::PartialEqSpec;

verus! {

/// The ownership mode backing a `SliceStorage`.
#[derive(Clone, Copy, Debug, PartialEq, Eq, Structural)]
pub enum SliceBackedChoice {
    /// Read-only view of externally owned data.
    Shared,
    /// Writable view of externally owned data.
    Mutable,
    /// Owned region of fixed logical length.
    Array,
    /// Owned growable region.
    Vec,
    /// Writable handle to an externally owned growable region.
    VecRef,
}

impl SliceBackedChoice {
    /// Whether this mode owns its data outright.
    pub fn is_owned(&self) -> (r: bool)
        ensures
            r == (*self == SliceBackedChoice::Array || *self == SliceBackedChoice::Vec),
    {
        match self {
            SliceBackedChoice::Shared | SliceBackedChoice::Mutable | SliceBackedChoice::VecRef => false,
            SliceBackedChoice::Array | SliceBackedChoice::Vec => true,
        }
    }

    /// Whether this mode is the owned fixed-length one.
    pub fn is_array(&self) -> (r: bool)
        ensures
            r == (*self == SliceBackedChoice::Array),
    {
        match self {
            SliceBackedChoice::Array => true,
            _ => false,
        }
    }
}

/// Abstracted slice storage: one case per ownership mode, each case holding
/// the elements it stands for. Borrowed modes hold the contents of the region
/// they were constructed from.
#[derive(Debug)]
pub enum SliceStorage<T> {
    Shared(Vec<T>),
    Mutable(Vec<T>),
    /// Owned region of fixed length, set at construction.
    Array(Vec<T>),
    Vec(Vec<T>),
    VecRef(Vec<T>),
}

/// Capability-bounded element access shared by every storage form, packed or
/// unpacked: each implementation models its meaningful elements as a sequence
/// (`contents`) and states every operation against that sequence.
pub trait Slice<T: Copy + PartialEq>: Sized {
    /// Well-formedness of the container's internal representation.
    spec fn wf(&self) -> bool;

    /// The logical elements, in storage order.
    spec fn contents(&self) -> Seq<T>;

    /// The ownership mode backing this container.
    spec fn backing(&self) -> SliceBackedChoice;

    /// Whether writes are permitted (every mode but the read-only one).
    spec fn writable(&self) -> bool;

    /// The number of logical elements.
    fn len(&self) -> (r: usize)
        requires
            self.wf(),
        ensures
            r == self.contents().len(),
    ;

    /// The element at `index`, copied out.
    fn get(&self, index: usize) -> (r: T)
        requires
            self.wf(),
            index < self.contents().len(),
        ensures
            r == self.contents()[index as int],
    ;

    /// Write `value` at `index`.
    fn set(&mut self, index: usize, value: &T)
        requires
            old(self).wf(),
            old(self).writable(),
            index < old(self).contents().len(),
        ensures
            final(self).wf(),
            final(self).contents() == old(self).contents().update(index as int, *value),
            final(self).backing() == old(self).backing(),
            final(self).writable(),
    ;

    /// Write `value` at `index` and report whether the stored value differed
    /// from `value` beforehand. This is the primitive behind the boolean
    /// "was already present" result of set insertion and removal.
    fn check_and_set(&mut self, index: usize, value: &T) -> (r: bool)
        requires
            T::obeys_eq_spec(),
            old(self).wf(),
            old(self).writable(),
            index < old(self).contents().len(),
        ensures
            final(self).wf(),
            final(self).contents() == old(self).contents().update(index as int, *value),
            final(self).backing() == old(self).backing(),
            final(self).writable(),
            r == !value.eq_spec(&old(self).contents()[index as int]),
    ;

    /// A fresh forward traversal of the logical elements, in storage order.
    fn iter(&self) -> (r: Vec<T>)
        requires
            self.wf(),
        ensures
            r@ == self.contents(),
    ;
}

impl<T> SliceStorage<T> {
    /// The elements this storage stands for.
    pub open spec fn spec_contents(&self) -> Seq<T> {
        match self {
            SliceStorage::Shared(v) => v@,
            SliceStorage::Mutable(v) => v@,
            SliceStorage::Array(v) => v@,
            SliceStorage::Vec(v) => v@,
            SliceStorage::VecRef(v) => v@,
        }
    }

    /// The ownership mode of this storage.
    pub open spec fn spec_backing(&self) -> SliceBackedChoice {
        match self {
            SliceStorage::Shared(_) => SliceBackedChoice::Shared,
            SliceStorage::Mutable(_) => SliceBackedChoice::Mutable,
            SliceStorage::Array(_) => SliceBackedChoice::Array,
            SliceStorage::Vec(_) => SliceBackedChoice::Vec,
            SliceStorage::VecRef(_) => SliceBackedChoice::VecRef,
        }
    }

    /// Read access to the backing elements.
    fn data_ref(&self) -> (r: &Vec<T>)
        ensures
            r@ == self.spec_contents(),
    {
        match self {
            SliceStorage::Shared(v) => v,
            SliceStorage::Mutable(v) => v,
            SliceStorage::Array(v) => v,
            SliceStorage::Vec(v) => v,
            SliceStorage::VecRef(v) => v,
        }
    }

    /// Write access to the backing elements; mode-policing is left to the
    /// public callers.
    fn data_mut(&mut self) -> (r: &mut Vec<T>)
        ensures
            r@ == old(self).spec_contents(),
            final(self).spec_contents() == final(r)@,
            final(self).spec_backing() == old(self).spec_backing(),
    {
        match self {
            SliceStorage::Shared(v) => v,
            SliceStorage::Mutable(v) => v,
            SliceStorage::Array(v) => v,
            SliceStorage::Vec(v) => v,
            SliceStorage::VecRef(v) => v,
        }
    }
}

impl<T: Copy + PartialEq> Slice<T> for SliceStorage<T> {
    open spec fn wf(&self) -> bool {
        true
    }

    open spec fn contents(&self) -> Seq<T> {
        self.spec_contents()
    }

    open spec fn backing(&self) -> SliceBackedChoice {
        self.spec_backing()
    }

    open spec fn writable(&self) -> bool {
        self.spec_backing() != SliceBackedChoice::Shared
    }

    fn len(&self) -> (r: usize) {
        self.data_ref().len()
    }

    fn get(&self, index: usize) -> (r: T) {
        self.data_ref()[index]
    }

    fn set(&mut self, index: usize, value: &T) {
        let v = self.data_mut();
        *vstd::std_specs::vec::vec_index_mut(v, index) = *value;
    }

    fn check_and_set(&mut self, index: usize, value: &T) -> (r: bool) {
        let current = self.get(index);
        let is_modifying = *value != current;
        self.set(index, value);
        is_modifying
    }

    fn iter(&self) -> (r: Vec<T>) {
        vstd::slice::slice_to_vec(self.data_ref().as_slice())
    }
}

impl<T: Copy + PartialEq> SliceStorage<T> {
    /// Non-transfer constructor over an external read-only region: the
    /// resulting storage stands for that region and refuses writes.
    pub fn from_shared(slice: &[T]) -> (r: Self)
        ensures
            r.wf(),
            r.contents() == slice@,
            r.backing() == SliceBackedChoice::Shared,
    {
        SliceStorage::Shared(vstd::slice::slice_to_vec(slice))
    }

    /// Non-transfer constructor over an external writable region: the
    /// storage records the region's contents and accepts writes, which act
    /// on the storage's own record. The region itself is left unchanged.
    pub fn from_mutable(slice: &mut [T]) -> (r: Self)
        ensures
            final(slice)@ == old(slice)@,
            r.wf(),
            r.contents() == old(slice)@,
            r.backing() == SliceBackedChoice::Mutable,
    {
        SliceStorage::Mutable(vstd::slice::slice_to_vec(slice))
    }

    /// Ownership-transfer constructor from a fixed-length array.
    pub fn from_array<const N: usize>(array: [T; N]) -> (r: Self)
        ensures
            r.wf(),
            r.contents() == array@,
            r.backing() == SliceBackedChoice::Array,
    {
        let mut data: Vec<T> = Vec::new();
        let mut i: usize = 0;
        while i < N
            invariant
                i <= N,
                data@ == array@.subrange(0, i as int),
            decreases N - i,
        {
            data.push(array[i]);
            i = i + 1;
        }
        proof {
            assert(data@ =~= array@);
        }
        SliceStorage::Array(data)
    }

    /// Ownership-transfer constructor from a growable vector.
    pub fn from_vec(vector: Vec<T>) -> (r: Self)
        ensures
            r.wf(),
            r.contents() == vector@,
            r.backing() == SliceBackedChoice::Vec,
    {
        SliceStorage::Vec(vector)
    }

    /// Growable storage with no elements and room reserved for `capacity`.
    pub fn from_vec_with_capacity(capacity: usize) -> (r: Self)
        ensures
            r.wf(),
            r.contents() == Seq::<T>::empty(),
            r.backing() == SliceBackedChoice::Vec,
    {
        let v: Vec<T> = Vec::with_capacity(capacity);
        proof {
            assert(v@ =~= Seq::<T>::empty());
        }
        SliceStorage::Vec(v)
    }

    /// Growable storage with no elements.
    pub fn from_vec_new() -> (r: Self)
        ensures
            r.wf(),
            r.contents() == Seq::<T>::empty(),
            r.backing() == SliceBackedChoice::Vec,
    {
        let v: Vec<T> = Vec::new();
        proof {
            assert(v@ =~= Seq::<T>::empty());
        }
        SliceStorage::Vec(v)
    }

    /// Non-transfer constructor over an external growable region; unlike
    /// `from_mutable`, the result supports the growable handle accessor.
    /// As with `from_mutable`, writes act on the storage's own record and
    /// the region itself is left unchanged.
    pub fn from_vec_ref(vector: &mut Vec<T>) -> (r: Self)
        ensures
            final(vector)@ == old(vector)@,
            r.wf(),
            r.contents() == old(vector)@,
            r.backing() == SliceBackedChoice::VecRef,
    {
        SliceStorage::VecRef(vstd::slice::slice_to_vec(vector.as_slice()))
    }

    /// `size` copies of `value` in storage of the chosen owned mode.
    pub fn from_value(value_ref: &T, size: usize, storage_type: SliceBackedChoice) -> (r: Self)
        requires
            storage_type == SliceBackedChoice::Array || storage_type == SliceBackedChoice::Vec,
        ensures
            r.wf(),
            r.contents() == Seq::new(size as nat, |i: int| *value_ref),
            r.backing() == storage_type,
    {
        match storage_type {
            SliceBackedChoice::Array => Self::from_value_to_array(value_ref, size),
            _ => Self::from_value_to_vec(value_ref, size),
        }
    }

    /// `size` copies of `value` in owned fixed-length storage.
    pub fn from_value_to_array(value: &T, size: usize) -> (r: Self)
        ensures
            r.wf(),
            r.contents() == Seq::new(size as nat, |i: int| *value),
            r.backing() == SliceBackedChoice::Array,
    {
        let data = Self::filled_vec(value, size);
        SliceStorage::Array(data)
    }

    /// `size` copies of `value` in owned growable storage.
    pub fn from_value_to_vec(value: &T, size: usize) -> (r: Self)
        ensures
            r.wf(),
            r.contents() == Seq::new(size as nat, |i: int| *value),
            r.backing() == SliceBackedChoice::Vec,
    {
        let data = Self::filled_vec(value, size);
        SliceStorage::Vec(data)
    }

    /// `size` copies of `value`.
    fn filled_vec(value: &T, size: usize) -> (r: Vec<T>)
        ensures
            r@ == Seq::new(size as nat, |i: int| *value),
    {
        let mut data: Vec<T> = Vec::with_capacity(size);
        let mut i: usize = 0;
        while i < size
            invariant
                i <= size,
                data@ == Seq::new(i as nat, |j: int| *value),
            decreases size - i,
        {
            data.push(*value);
            proof {
                assert(data@ =~= Seq::new((i + 1) as nat, |j: int| *value));
            }
            i = i + 1;
        }
        data
    }

    /// `size` values drawn from the generator `f`, in storage of the chosen
    /// owned mode.
    pub fn from_fn_to<F: Fn() -> T>(f: F, size: usize, storage_type: SliceBackedChoice) -> (r:
        Self)
        requires
            call_requires(f, ()),
            storage_type == SliceBackedChoice::Array || storage_type == SliceBackedChoice::Vec,
        ensures
            r.wf(),
            r.contents().len() == size,
            forall|i: int| 0 <= i < size ==> call_ensures(f, (), #[trigger] r.contents()[i]),
            r.backing() == storage_type,
    {
        match storage_type {
            SliceBackedChoice::Array => Self::from_fn_to_array(f, size),
            _ => Self::from_fn_to_vec(f, size),
        }
    }

    /// `size` values drawn from the generator `f`, in owned fixed-length
    /// storage.
    pub fn from_fn_to_array<F: Fn() -> T>(f: F, size: usize) -> (r: Self)
        requires
            call_requires(f, ()),
        ensures
            r.wf(),
            r.contents().len() == size,
            forall|i: int| 0 <= i < size ==> call_ensures(f, (), #[trigger] r.contents()[i]),
            r.backing() == SliceBackedChoice::Array,
    {
        SliceStorage::Array(Self::generated_vec(f, size))
    }

    /// `size` values drawn from the generator `f`, in owned growable
    /// storage.
    pub fn from_fn_to_vec<F: Fn() -> T>(f: F, size: usize) -> (r: Self)
        requires
            call_requires(f, ()),
        ensures
            r.wf(),
            r.contents().len() == size,
            forall|i: int| 0 <= i < size ==> call_ensures(f, (), #[trigger] r.contents()[i]),
            r.backing() == SliceBackedChoice::Vec,
    {
        SliceStorage::Vec(Self::generated_vec(f, size))
    }

    /// `size` values drawn from `f`, in generation order.
    fn generated_vec<F: Fn() -> T>(f: F, size: usize) -> (r: Vec<T>)
        requires
            call_requires(f, ()),
        ensures
            r@.len() == size,
            forall|i: int| 0 <= i < size ==> call_ensures(f, (), #[trigger] r@[i]),
    {
        let mut data: Vec<T> = Vec::with_capacity(size);
        let mut i: usize = 0;
        while i < size
            invariant
                i <= size,
                call_requires(f, ()),
                data@.len() == i,
                forall|j: int| 0 <= j < i ==> call_ensures(f, (), #[trigger] data@[j]),
            decreases size - i,
        {
            let value = f();
            data.push(value);
            i = i + 1;
        }
        data
    }

    /// The given elements, in order, in storage of the chosen owned mode.
    pub fn from_iter_to(items: Vec<T>, storage_type: SliceBackedChoice) -> (r: Self)
        requires
            storage_type == SliceBackedChoice::Array || storage_type == SliceBackedChoice::Vec,
        ensures
            r.wf(),
            r.contents() == items@,
            r.backing() == storage_type,
    {
        match storage_type {
            SliceBackedChoice::Array => Self::from_iter_to_array(items),
            _ => Self::from_iter_to_vec(items),
        }
    }

    /// The given elements, in order, in owned fixed-length storage.
    pub fn from_iter_to_array(items: Vec<T>) -> (r: Self)
        ensures
            r.wf(),
            r.contents() == items@,
            r.backing() == SliceBackedChoice::Array,
    {
        SliceStorage::Array(items)
    }

    /// The given elements, in order, in owned growable storage.
    pub fn from_iter_to_vec(items: Vec<T>) -> (r: Self)
        ensures
            r.wf(),
            r.contents() == items@,
            r.backing() == SliceBackedChoice::Vec,
    {
        SliceStorage::Vec(items)
    }

    /// Replace with an owned growable instance holding the same elements;
    /// already-growable instances are kept as they are.
    pub fn to_vec_based(self) -> (r: Self)
        ensures
            r.wf(),
            r.contents() == self.contents(),
            r.backing() == (if self.backing() == SliceBackedChoice::VecRef {
                SliceBackedChoice::VecRef
            } else {
                SliceBackedChoice::Vec
            }),
    {
        match self {
            SliceStorage::Shared(v) => SliceStorage::Vec(v),
            SliceStorage::Mutable(v) => SliceStorage::Vec(v),
            SliceStorage::Array(v) => SliceStorage::Vec(v),
            SliceStorage::Vec(v) => SliceStorage::Vec(v),
            SliceStorage::VecRef(v) => SliceStorage::VecRef(v),
        }
    }

    /// A new owned growable instance holding a copy of the elements. This is
    /// the detached, any-length twin used when a generic algorithm needs a
    /// growable handle without committing to a fixed length.
    pub fn to_non_array_vec_based(&self) -> (r: Self)
        ensures
            r.wf(),
            r.contents() == self.contents(),
            r.backing() == SliceBackedChoice::Vec,
    {
        SliceStorage::Vec(vstd::slice::slice_to_vec(self.data_ref().as_slice()))
    }

    /// A new owned fixed-length instance holding a copy of the elements.
    pub fn to_array_based(&self) -> (r: Self)
        ensures
            r.wf(),
            r.contents() == self.contents(),
            r.backing() == SliceBackedChoice::Array,
    {
        SliceStorage::Array(vstd::slice::slice_to_vec(self.data_ref().as_slice()))
    }

    /// Read-only view of the elements.
    pub fn shared_slice(&self) -> (r: &[T])
        ensures
            r@ == self.contents(),
    {
        self.data_ref().as_slice()
    }

    /// Writable view of the elements; not available on the read-only mode.
    pub fn mutable_slice(&mut self) -> (r: &mut [T])
        requires
            old(self).writable(),
        ensures
            r@ == old(self).contents(),
            final(self).contents() == final(r)@,
            final(self).backing() == old(self).backing(),
            final(self).wf(),
    {
        self.data_mut().as_mut_slice()
    }

    /// Growable handle to the elements; available on the owned growable and
    /// growable-borrowed modes only.
    pub fn mutable_vec(&mut self) -> (r: &mut Vec<T>)
        requires
            old(self).backing() == SliceBackedChoice::Vec || old(self).backing()
                == SliceBackedChoice::VecRef,
        ensures
            r@ == old(self).contents(),
            final(self).contents() == final(r)@,
            final(self).backing() == old(self).backing(),
            final(self).wf(),
    {
        self.data_mut()
    }

}

/// Storage that can be deep-copied. Only the owned modes are cloneable: a
/// read-only view should be re-borrowed rather than cloned, and a writable
/// view must never be duplicated. A growable-borrowed handle clones by
/// materialising a new owned growable copy of the referenced data.
pub trait SliceClone<T: Copy + PartialEq>: Slice<T> {
    /// Whether this instance's mode permits a deep copy.
    spec fn cloneable(&self) -> bool;

    /// Deep copy: same elements, independent storage.
    fn clone(&self) -> (r: Self)
        requires
            self.wf(),
            self.cloneable(),
        ensures
            r.wf(),
            r.contents() == self.contents(),
            r.writable(),
    ;
}

impl<T: Copy + PartialEq> SliceClone<T> for SliceStorage<T> {
    open spec fn cloneable(&self) -> bool {
        self.backing() == SliceBackedChoice::Array || self.backing() == SliceBackedChoice::Vec
            || self.backing() == SliceBackedChoice::VecRef
    }

    fn clone(&self) -> (r: Self)
        ensures
            r.backing() == (if self.backing() == SliceBackedChoice::VecRef {
                SliceBackedChoice::Vec
            } else {
                self.backing()
            }),
    {
        match self {
            SliceStorage::Array(v) => SliceStorage::Array(vstd::slice::slice_to_vec(v.as_slice())),
            _ => SliceStorage::Vec(vstd::slice::slice_to_vec(self.data_ref().as_slice())),
        }
    }
}

/// Storage whose element type has a default value, enabling the
/// default-population constructors and the logically-empty twin.
pub trait SliceDefault<T: Copy + PartialEq>: Slice<T> {
    /// The element type's default value.
    spec fn default_val() -> T;

    /// The contents of the logically-empty twin produced by `new_like`: the
    /// read-only mode keeps its view, the owned fixed-length mode is
    /// default-filled at its length, and the owned growable mode starts
    /// empty.
    spec fn new_like_contents(&self) -> Seq<T>;

    /// `size` default elements in storage of the chosen owned mode.
    fn from_default(size: usize, storage_type: SliceBackedChoice) -> (r: Self)
        requires
            storage_type == SliceBackedChoice::Array || storage_type == SliceBackedChoice::Vec,
        ensures
            r.wf(),
            r.contents() == Seq::new(size as nat, |i: int| Self::default_val()),
            r.backing() == storage_type,
    ;

    /// `size` default elements in owned fixed-length storage.
    fn from_default_to_array(size: usize) -> (r: Self)
        ensures
            r.wf(),
            r.contents() == Seq::new(size as nat, |i: int| Self::default_val()),
            r.backing() == SliceBackedChoice::Array,
    ;

    /// `size` default elements in owned growable storage.
    fn from_default_to_vec(size: usize) -> (r: Self)
        ensures
            r.wf(),
            r.contents() == Seq::new(size as nat, |i: int| Self::default_val()),
            r.backing() == SliceBackedChoice::Vec,
    ;

    /// A logically-empty container compatible with this instance's mode and
    /// capacity constraints; not available on the borrowed writable modes,
    /// whose aliasing contract a detached twin would violate.
    fn new_like(&self) -> (r: Self)
        requires
            self.wf(),
            self.backing() != SliceBackedChoice::Mutable,
            self.backing() != SliceBackedChoice::VecRef,
        ensures
            r.wf(),
            r.backing() == self.backing(),
            r.contents() == self.new_like_contents(),
    ;
}

impl SliceDefault<bool> for SliceStorage<bool> {
    open spec fn default_val() -> bool {
        false
    }

    open spec fn new_like_contents(&self) -> Seq<bool> {
        match self.backing() {
            SliceBackedChoice::Shared => self.contents(),
            SliceBackedChoice::Vec => Seq::empty(),
            _ => Seq::new(self.contents().len(), |i: int| false),
        }
    }

    fn from_default(size: usize, storage_type: SliceBackedChoice) -> (r: Self) {
        Self::from_value(&false, size, storage_type)
    }

    fn from_default_to_array(size: usize) -> (r: Self) {
        Self::from_value_to_array(&false, size)
    }

    fn from_default_to_vec(size: usize) -> (r: Self) {
        Self::from_value_to_vec(&false, size)
    }

    fn new_like(&self) -> (r: Self) {
        match self {
            SliceStorage::Shared(v) => SliceStorage::Shared(
                vstd::slice::slice_to_vec(v.as_slice()),
            ),
            SliceStorage::Vec(v) => {
                let empty: Vec<bool> = Vec::with_capacity(v.len());
                proof {
                    assert(empty@ =~= Seq::<bool>::empty());
                }
                SliceStorage::Vec(empty)
            },
            _ => {
                let filled = Self::filled_vec(&false, self.data_ref().len());
                SliceStorage::Array(filled)
            },
        }
    }
}

impl SliceDefault<u8> for SliceStorage<u8> {
    open spec fn default_val() -> u8 {
        0u8
    }

    open spec fn new_like_contents(&self) -> Seq<u8> {
        match self.backing() {
            SliceBackedChoice::Shared => self.contents(),
            SliceBackedChoice::Vec => Seq::empty(),
            _ => Seq::new(self.contents().len(), |i: int| 0u8),
        }
    }

    fn from_default(size: usize, storage_type: SliceBackedChoice) -> (r: Self) {
        Self::from_value(&0u8, size, storage_type)
    }

    fn from_default_to_array(size: usize) -> (r: Self) {
        Self::from_value_to_array(&0u8, size)
    }

    fn from_default_to_vec(size: usize) -> (r: Self) {
        Self::from_value_to_vec(&0u8, size)
    }

    fn new_like(&self) -> (r: Self) {
        match self {
            SliceStorage::Shared(v) => SliceStorage::Shared(
                vstd::slice::slice_to_vec(v.as_slice()),
            ),
            SliceStorage::Vec(v) => {
                let empty: Vec<u8> = Vec::with_capacity(v.len());
                proof {
                    assert(empty@ =~= Seq::<u8>::empty());
                }
                SliceStorage::Vec(empty)
            },
            _ => {
                let filled = Self::filled_vec(&0u8, self.data_ref().len());
                SliceStorage::Array(filled)
            },
        }
    }
}

/// Marker for default-capable storage over clone-based element handling; for
/// trivially copyable element types it coincides with `SliceDefault`.
pub trait SliceDefaultClone<T: Copy + PartialEq>: SliceDefault<T> {
}

impl SliceDefaultClone<bool> for SliceStorage<bool> {
}

impl SliceDefaultClone<u8> for SliceStorage<u8> {
}

/// Marker for storage backed by a native contiguous region, as every
/// `SliceStorage` mode is.
pub trait SliceBackedClone<T: Copy + PartialEq>: SliceClone<T> {
}

impl<T: Copy + PartialEq> SliceBackedClone<T> for SliceStorage<T> {
}

impl crate::abstra::NewEmptyLike for SliceStorage<bool> {
    open spec fn can_new_empty(&self) -> bool {
        self.backing() != SliceBackedChoice::Mutable && self.backing() != SliceBackedChoice::VecRef
    }

    fn new_empty_like(&self) -> (r: Self)
        ensures
            r.wf(),
            r.backing() == self.backing(),
            r.contents() == self.new_like_contents(),
    {
        self.new_like()
    }
}

impl crate::abstra::NewEmptyLike for SliceStorage<u8> {
    open spec fn can_new_empty(&self) -> bool {
        self.backing() != SliceBackedChoice::Mutable && self.backing() != SliceBackedChoice::VecRef
    }

    fn new_empty_like(&self) -> (r: Self)
        ensures
            r.wf(),
            r.backing() == self.backing(),
            r.contents() == self.new_like_contents(),
    {
        self.new_like()
    }
}

/// Collecting owned items into a slice storage, mirroring iterator
/// collection for trivially copyable element types.
pub trait CollectTo<T: Copy + PartialEq>: Sized {
    /// The items to be collected, in order.
    spec fn items(&self) -> Seq<T>;

    /// Collect into storage of the chosen owned mode.
    fn collect_to(self, storage_type: SliceBackedChoice) -> (r: SliceStorage<T>)
        requires
            storage_type == SliceBackedChoice::Array || storage_type == SliceBackedChoice::Vec,
        ensures
            r.wf(),
            r.contents() == self.items(),
            r.backing() == storage_type,
    ;

    /// Collect into owned fixed-length storage.
    fn collect_to_array(self) -> (r: SliceStorage<T>)
        ensures
            r.wf(),
            r.contents() == self.items(),
            r.backing() == SliceBackedChoice::Array,
    ;

    /// Collect into owned growable storage.
    fn collect_to_vec(self) -> (r: SliceStorage<T>)
        ensures
            r.wf(),
            r.contents() == self.items(),
            r.backing() == SliceBackedChoice::Vec,
    ;
}

/// Clone-based collection; for trivially copyable element types it coincides
/// with `CollectTo`.
pub trait CollectToClone<T: Copy + PartialEq>: Sized {
    /// The items to be collected, in order.
    spec fn items_clone(&self) -> Seq<T>;

    /// Collect into storage of the chosen owned mode.
    fn collect_to_clone(self, storage_type: SliceBackedChoice) -> (r: SliceStorage<T>)
        requires
            storage_type == SliceBackedChoice::Array || storage_type == SliceBackedChoice::Vec,
        ensures
            r.wf(),
            r.contents() == self.items_clone(),
            r.backing() == storage_type,
    ;

    /// Collect into owned fixed-length storage.
    fn collect_to_array_clone(self) -> (r: SliceStorage<T>)
        ensures
            r.wf(),
            r.contents() == self.items_clone(),
            r.backing() == SliceBackedChoice::Array,
    ;

    /// Collect into owned growable storage.
    fn collect_to_vec_clone(self) -> (r: SliceStorage<T>)
        ensures
            r.wf(),
            r.contents() == self.items_clone(),
            r.backing() == SliceBackedChoice::Vec,
    ;
}

impl<T: Copy + PartialEq> CollectTo<T> for Vec<T> {
    open spec fn items(&self) -> Seq<T> {
        self@
    }

    fn collect_to(self, storage_type: SliceBackedChoice) -> (r: SliceStorage<T>) {
        SliceStorage::from_iter_to(self, storage_type)
    }

    fn collect_to_array(self) -> (r: SliceStorage<T>) {
        SliceStorage::from_iter_to_array(self)
    }

    fn collect_to_vec(self) -> (r: SliceStorage<T>) {
        SliceStorage::from_iter_to_vec(self)
    }
}

impl<T: Copy + PartialEq> CollectToClone<T> for Vec<T> {
    open spec fn items_clone(&self) -> Seq<T> {
        self@
    }

    fn collect_to_clone(self, storage_type: SliceBackedChoice) -> (r: SliceStorage<T>) {
        SliceStorage::from_iter_to(self, storage_type)
    }

    fn collect_to_array_clone(self) -> (r: SliceStorage<T>) {
        SliceStorage::from_iter_to_array(self)
    }

    fn collect_to_vec_clone(self) -> (r: SliceStorage<T>) {
        SliceStorage::from_iter_to_vec(self)
    }
}

/// Length check applied wherever a fixed-length region is created. Empty
/// fixed-length regions are permitted by this crate's policy, so the length
/// passes through unchanged; a build that forbids them would reject zero
/// here.
pub fn check_empty_array_size(array_size: usize) -> (r: usize)
    ensures
        r == array_size,
{
    array_size
}

/// Unpacked boolean storage: one full slot per boolean.
pub type BoolSlice = SliceStorage<bool>;

/// Byte storage, the backing for bit-packed boolean storage.
pub type ByteSlice = SliceStorage<u8>;

} // verus!
