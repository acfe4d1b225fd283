//! Bit-packed boolean storage and the bit codec it is built on: pure
//! functions mapping a (byte, bit position) pair to a boolean and back, plus
//! the byte-count-from-bit-count arithmetic. Bit 0 is the least significant
//! bit of a byte. Packing stores one boolean per bit instead of one per
//! storage slot: 8x less memory, and less cache and memory bandwidth.

use crate::abstra::NewEmptyLike;
use crate::slices::ByteSlice;
use crate::slices::Slice;
use crate::slices::SliceBackedChoice;
use crate::slices::SliceClone;
use crate::slices::SliceDefault;
use vstd::arithmetic::div_mod::lemma_div_is_ordered;
use vstd::arithmetic::div_mod::lemma_div_multiples_vanish;
use vstd::arithmetic::div_mod::lemma_fundamental_div_mod;
use vstd::prelude::*;

verus! {

/// Number of bytes needed to hold `num_bits` bits: `ceil(num_bits / 8)`.
pub open spec fn spec_num_bits_to_bytes(num_bits: nat) -> nat {
    (num_bits + 7) / 8
}

/// Whether bit `shift` (0 = least significant) of `byte` is set.
pub open spec fn spec_get_bit(byte: u8, shift: u8) -> bool
    recommends
        shift < 8,
{
    byte & (1u8 << shift) != 0
}

/// The byte obtained from `byte` by forcing bit `shift` to `value` and
/// leaving every other bit unchanged.
pub open spec fn spec_set_bit(byte: u8, shift: u8, value: bool) -> u8
    recommends
        shift < 8,
{
    if value {
        byte | (1u8 << shift)
    } else {
        byte & !(1u8 << shift)
    }
}

/// Given `num_bits`, return the number of bytes required to cover all those
/// bits.
pub fn num_bits_to_bytes(num_bits: usize) -> (r: usize)
    ensures
        r == spec_num_bits_to_bytes(num_bits as nat),
        8 * r >= num_bits,
        num_bits > 0 ==> 8 * (r - 1) < num_bits,
{
    let divided = num_bits / 8;
    if num_bits == divided * 8 {
        divided
    } else {
        divided + 1
    }
}

/// "one shifted": 1u8, shifted by `shift` places to the left. The set-mask
/// for bit `shift`, kept as a lookup over the eight positions rather than a
/// run-time shift.
pub(crate) fn os(shift: usize) -> (r: u8)
    requires
        shift < 8,
    ensures
        r == (1u8 << (shift as u8)),
        r != 0,
{
    let r: u8 = match shift {
        0 => 0x01,
        1 => 0x02,
        2 => 0x04,
        3 => 0x08,
        4 => 0x10,
        5 => 0x20,
        6 => 0x40,
        _ => 0x80,
    };
    proof {
        let s = shift as u8;
        assert(s < 8 ==> (1u8 << s) == (if s == 0 {
            0x01u8
        } else if s == 1 {
            0x02u8
        } else if s == 2 {
            0x04u8
        } else if s == 3 {
            0x08u8
        } else if s == 4 {
            0x10u8
        } else if s == 5 {
            0x20u8
        } else if s == 6 {
            0x40u8
        } else {
            0x80u8
        })) by (bit_vector);
    }
    r
}

/// "zero shifted": the clear-mask for bit `shift`; the negation of the
/// set-mask.
pub(crate) fn zs(shift: usize) -> (r: u8)
    requires
        shift < 8,
    ensures
        r == !(1u8 << (shift as u8)),
{
    !os(shift)
}

/// Whether bit `bit_subindex` of `byte` is set.
pub fn get_bit(byte: u8, bit_subindex: usize) -> (r: bool)
    requires
        bit_subindex < 8,
    ensures
        r == spec_get_bit(byte, bit_subindex as u8),
{
    let one_shifted = os(bit_subindex);
    (byte & one_shifted) != 0
}

/// Force bit `bit_subindex` of `byte` to `value`, leaving the other bits
/// unchanged.
pub fn set_bit(byte: u8, bit_subindex: usize, value: bool) -> (r: u8)
    requires
        bit_subindex < 8,
    ensures
        r == spec_set_bit(byte, bit_subindex as u8, value),
{
    if value {
        byte | os(bit_subindex)
    } else {
        byte & zs(bit_subindex)
    }
}

/// The bit written by `spec_set_bit` reads back as written, and every other
/// bit of the byte is unchanged.
pub proof fn lemma_bit_round_trip(byte: u8, shift: u8, value: bool)
    requires
        shift < 8,
    ensures
        spec_get_bit(spec_set_bit(byte, shift, value), shift) == value,
        forall|other: u8|
            other < 8 && other != shift ==> #[trigger] spec_get_bit(
                spec_set_bit(byte, shift, value),
                other,
            ) == spec_get_bit(byte, other),
{
    assert(((byte | (1u8 << shift)) & (1u8 << shift) != 0) == true) by (bit_vector)
        requires
            shift < 8,
    ;
    assert(((byte & !(1u8 << shift)) & (1u8 << shift) != 0) == false) by (bit_vector)
        requires
            shift < 8,
    ;
    assert forall|other: u8| other < 8 && other != shift implies #[trigger] spec_get_bit(
        spec_set_bit(byte, shift, value),
        other,
    ) == spec_get_bit(byte, other) by {
        assert(((byte | (1u8 << shift)) & (1u8 << other) != 0) == (byte & (1u8 << other) != 0))
            by (bit_vector)
            requires
                shift < 8,
                other < 8,
                other != shift,
        ;
        assert(((byte & !(1u8 << shift)) & (1u8 << other) != 0) == (byte & (1u8 << other) != 0))
            by (bit_vector)
            requires
                shift < 8,
                other < 8,
                other != shift,
        ;
    }
}

/// Setting a bit to the value it already has leaves the byte unchanged, and
/// changing it yields a different byte: the byte comparison in
/// `check_and_set` agrees with the bit comparison.
pub proof fn lemma_set_bit_changes(byte: u8, shift: u8, value: bool)
    requires
        shift < 8,
    ensures
        (spec_set_bit(byte, shift, value) != byte) == (spec_get_bit(byte, shift) != value),
{
    assert(((byte | (1u8 << shift)) != byte) == ((byte & (1u8 << shift) != 0) != true))
        by (bit_vector)
        requires
            shift < 8,
    ;
    assert(((byte & !(1u8 << shift)) != byte) == ((byte & (1u8 << shift) != 0) != false))
        by (bit_vector)
        requires
            shift < 8,
    ;
}

/// The boolean sequence that `bytes` packs, truncated to the `num_bits`
/// meaningful bits: the boolean at logical position `i` lives in byte
/// `i / 8`, bit `i % 8`.
pub open spec fn unpack_seq(bytes: Seq<u8>, num_bits: nat) -> Seq<bool> {
    Seq::new(num_bits, |i: int| spec_get_bit(bytes[i / 8], (i % 8) as u8))
}

/// A logical bit position within `num_bits` bits addresses a byte within the
/// `ceil(num_bits / 8)` packed bytes.
pub proof fn lemma_bit_index_bounds(i: int, num_bits: int)
    requires
        0 <= i < num_bits,
    ensures
        0 <= i / 8 < spec_num_bits_to_bytes(num_bits as nat),
        0 <= i % 8 < 8,
{
    lemma_fundamental_div_mod(i, 8);
    lemma_div_multiples_vanish(i / 8 + 1, 8);
    lemma_div_is_ordered(8 * (i / 8 + 1), num_bits + 7, 8);
}

/// Writing one bit of one packed byte updates exactly one position of the
/// unpacked boolean sequence: the packed update and the unpacked update
/// agree.
pub proof fn lemma_packed_update(bytes: Seq<u8>, num_bits: nat, i: int, value: bool)
    requires
        bytes.len() == spec_num_bits_to_bytes(num_bits),
        0 <= i < num_bits,
    ensures
        unpack_seq(
            bytes.update(i / 8, spec_set_bit(bytes[i / 8], (i % 8) as u8, value)),
            num_bits,
        ) == unpack_seq(bytes, num_bits).update(i, value),
{
    lemma_bit_index_bounds(i, num_bits as int);
    let updated = bytes.update(i / 8, spec_set_bit(bytes[i / 8], (i % 8) as u8, value));
    lemma_bit_round_trip(bytes[i / 8], (i % 8) as u8, value);
    assert forall|j: int| 0 <= j < num_bits && j != i implies unpack_seq(updated, num_bits)[j]
        == unpack_seq(bytes, num_bits)[j] by {
        lemma_bit_index_bounds(j, num_bits as int);
        if j / 8 == i / 8 {
            lemma_fundamental_div_mod(i, 8);
            lemma_fundamental_div_mod(j, 8);
            lemma_bit_round_trip(bytes[i / 8], (i % 8) as u8, value);
            assert(spec_get_bit(updated[j / 8], (j % 8) as u8) == spec_get_bit(
                bytes[j / 8],
                (j % 8) as u8,
            ));
        }
    }
    assert(unpack_seq(updated, num_bits) =~= unpack_seq(bytes, num_bits).update(i, value));
}

/// Every bit of a zero byte is clear.
pub proof fn lemma_zero_byte_bits(shift: u8)
    ensures
        !spec_get_bit(0u8, shift),
{
    assert((0u8 & (1u8 << shift)) == 0) by (bit_vector);
}

/// Zero-filled bytes unpack to all-false booleans.
pub proof fn lemma_unpack_zero(bytes: Seq<u8>, num_bits: nat)
    requires
        bytes.len() == spec_num_bits_to_bytes(num_bits),
        forall|i: int| 0 <= i < bytes.len() ==> bytes[i] == 0u8,
    ensures
        unpack_seq(bytes, num_bits) == Seq::new(num_bits, |i: int| false),
{
    assert forall|i: int| 0 <= i < num_bits implies !unpack_seq(bytes, num_bits)[i] by {
        lemma_bit_index_bounds(i, num_bits as int);
        lemma_zero_byte_bits((i % 8) as u8);
    }
    assert(unpack_seq(bytes, num_bits) =~= Seq::new(num_bits, |i: int| false));
}

/// "Packed" bit storage: bit-level access to booleans backed by byte-based
/// slice storage whose logical byte length is `ceil(num_bits / 8)`. The
/// unused high bits of the last byte carry no meaning: they are never read
/// through this interface and are never asserted to any particular value.
///
/// There are deliberately no constructors over raw boolean regions
/// (a shared, mutable or owned run of `bool`): packed storage cannot alias
/// externally owned boolean memory, since the representations differ, so
/// such requests are refused at the interface rather than silently copied.
#[derive(Debug)]
pub struct ByteSliceBoolStorage {
    byte_slice: ByteSlice,
    /// The number of meaningful bits; authoritative for every access.
    num_bits: usize,
}

impl ByteSliceBoolStorage {
    /// The packed bytes this storage reads and writes through.
    pub closed spec fn byte_contents(&self) -> Seq<u8> {
        self.byte_slice.contents()
    }

    /// The number of meaningful bits.
    pub closed spec fn spec_num_bits(&self) -> nat {
        self.num_bits as nat
    }

    /// Return `(byte_index, old_byte, new_byte)` for writing `value` at bit
    /// position `index`, without writing anything.
    fn dry_run_set(&self, index: usize, value: &bool) -> (r: (usize, u8, u8))
        requires
            self.wf(),
            index < self.spec_num_bits(),
        ensures
            r.0 == index as int / 8,
            r.1 == self.byte_contents()[index as int / 8],
            r.2 == spec_set_bit(r.1, (index as int % 8) as u8, *value),
    {
        proof {
            lemma_bit_index_bounds(index as int, self.spec_num_bits() as int);
        }
        let byte_index = index / 8;
        let bit_subindex = index % 8;
        let old_byte = self.byte_slice.get(index / 8);
        let new_byte = set_bit(old_byte, bit_subindex, *value);
        (byte_index, old_byte, new_byte)
    }
}

impl Slice<bool> for ByteSliceBoolStorage {
    closed spec fn wf(&self) -> bool {
        self.byte_slice.wf() && self.byte_slice.contents().len() == spec_num_bits_to_bytes(
            self.num_bits as nat,
        )
    }

    closed spec fn contents(&self) -> Seq<bool> {
        unpack_seq(self.byte_slice.contents(), self.num_bits as nat)
    }

    closed spec fn backing(&self) -> SliceBackedChoice {
        self.byte_slice.backing()
    }

    open spec fn writable(&self) -> bool {
        self.backing() != SliceBackedChoice::Shared
    }

    fn len(&self) -> (r: usize) {
        self.num_bits
    }

    fn get(&self, index: usize) -> (r: bool) {
        proof {
            lemma_bit_index_bounds(index as int, self.spec_num_bits() as int);
        }
        let byte = self.byte_slice.get(index / 8);
        get_bit(byte, index % 8)
    }

    fn set(&mut self, index: usize, value: &bool) {
        let (byte_index, _, new_byte) = self.dry_run_set(index, value);
        proof {
            lemma_packed_update(self.byte_contents(), self.spec_num_bits(), index as int, *value);
        }
        self.byte_slice.set(byte_index, &new_byte);
    }

    fn check_and_set(&mut self, index: usize, value: &bool) -> (r: bool) {
        let (byte_index, old_byte, new_byte) = self.dry_run_set(index, value);
        proof {
            lemma_packed_update(self.byte_contents(), self.spec_num_bits(), index as int, *value);
            lemma_set_bit_changes(old_byte, (index as int % 8) as u8, *value);
        }
        self.byte_slice.set(byte_index, &new_byte);
        old_byte != new_byte
    }

    fn iter(&self) -> (r: Vec<bool>) {
        let mut bits: Vec<bool> = Vec::with_capacity(self.num_bits);
        let mut i: usize = 0;
        while i < self.num_bits
            invariant
                self.wf(),
                i <= self.spec_num_bits(),
                bits@ == self.contents().subrange(0, i as int),
            decreases self.num_bits - i,
        {
            let b = self.get(i);
            bits.push(b);
            proof {
                assert(bits@ =~= self.contents().subrange(0, i + 1));
            }
            i = i + 1;
        }
        proof {
            assert(bits@ =~= self.contents());
        }
        bits
    }
}

impl SliceDefault<bool> for ByteSliceBoolStorage {
    open spec fn default_val() -> bool {
        false
    }

    open spec fn new_like_contents(&self) -> Seq<bool> {
        match self.backing() {
            SliceBackedChoice::Shared => self.contents(),
            SliceBackedChoice::Vec => Seq::empty(),
            _ => Seq::new(self.contents().len(), |i: int| false),
        }
    }

    fn from_default(size: usize, storage_type: SliceBackedChoice) -> (r: Self) {
        let byte_slice = ByteSlice::from_default(num_bits_to_bytes(size), storage_type);
        let r = ByteSliceBoolStorage { byte_slice, num_bits: size };
        proof {
            lemma_unpack_zero(r.byte_contents(), size as nat);
        }
        r
    }

    fn from_default_to_array(size: usize) -> (r: Self) {
        let byte_slice = ByteSlice::from_default_to_array(num_bits_to_bytes(size));
        let r = ByteSliceBoolStorage { byte_slice, num_bits: size };
        proof {
            lemma_unpack_zero(r.byte_contents(), size as nat);
        }
        r
    }

    fn from_default_to_vec(size: usize) -> (r: Self) {
        let byte_slice = ByteSlice::from_default_to_vec(num_bits_to_bytes(size));
        let r = ByteSliceBoolStorage { byte_slice, num_bits: size };
        proof {
            lemma_unpack_zero(r.byte_contents(), size as nat);
        }
        r
    }

    fn new_like(&self) -> (r: Self) {
        let byte_slice = self.byte_slice.new_like();
        let num_bits: usize = match byte_slice {
            crate::slices::SliceStorage::Vec(_) => 0,
            _ => self.num_bits,
        };
        let r = ByteSliceBoolStorage { byte_slice, num_bits };
        proof {
            if r.backing() != SliceBackedChoice::Shared && r.backing() != SliceBackedChoice::Vec {
                lemma_unpack_zero(r.byte_contents(), r.spec_num_bits());
            }
            assert(r.contents() =~= self.new_like_contents());
        }
        r
    }
}

impl SliceClone<bool> for ByteSliceBoolStorage {
    closed spec fn cloneable(&self) -> bool {
        self.byte_slice.cloneable()
    }

    fn clone(&self) -> (r: Self) {
        ByteSliceBoolStorage { byte_slice: self.byte_slice.clone(), num_bits: self.num_bits }
    }
}

impl crate::slices::SliceDefaultClone<bool> for ByteSliceBoolStorage {
}

impl ByteSliceBoolStorage {
    /// A new owned growable instance packing the same bits: the detached,
    /// any-length twin of this storage.
    pub fn to_non_array_vec_based(&self) -> (r: Self)
        requires
            self.wf(),
        ensures
            r.wf(),
            r.contents() == self.contents(),
            r.backing() == SliceBackedChoice::Vec,
    {
        ByteSliceBoolStorage {
            byte_slice: self.byte_slice.to_non_array_vec_based(),
            num_bits: self.num_bits,
        }
    }
}

impl NewEmptyLike for ByteSliceBoolStorage {
    open spec fn can_new_empty(&self) -> bool {
        self.wf() && self.backing() != SliceBackedChoice::Mutable && self.backing()
            != SliceBackedChoice::VecRef
    }

    fn new_empty_like(&self) -> (r: Self)
        ensures
            r.wf(),
            r.backing() == self.backing(),
            r.contents() == self.new_like_contents(),
    {
        self.new_like()
    }
}

/// Forward traversal of a packed storage's meaningful bits, unpacking one
/// byte at a time. The logical bit length is authoritative: a traversal over
/// 9 bits yields 9 booleans, never the padding bits of the final byte.
#[derive(Debug)]
pub struct ByteSliceBoolIter {
    bytes: Vec<u8>,
    num_bits: usize,
    /// Next logical bit position; byte `bit_index / 8`, bit `bit_index % 8`.
    bit_index: usize,
}

impl ByteSliceBoolIter {
    /// Internal consistency: the byte snapshot covers every meaningful bit.
    pub closed spec fn wf(&self) -> bool {
        self.bytes@.len() == spec_num_bits_to_bytes(self.num_bits as nat) && self.bit_index
            <= self.num_bits
    }

    /// The booleans this traversal has yet to yield, in order.
    pub closed spec fn remaining(&self) -> Seq<bool> {
        unpack_seq(self.bytes@, self.num_bits as nat).subrange(
            self.bit_index as int,
            self.num_bits as int,
        )
    }

    /// A fresh traversal over the meaningful bits of `storage`.
    pub fn new(storage: &ByteSliceBoolStorage) -> (r: Self)
        requires
            storage.wf(),
        ensures
            r.wf(),
            r.remaining() == storage.contents(),
    {
        let num_bits = storage.len();
        let bytes = storage.byte_slice.iter();
        let r = ByteSliceBoolIter { bytes, num_bits, bit_index: 0 };
        proof {
            assert(r.remaining() =~= storage.contents());
        }
        r
    }

    /// The next meaningful bit, or nothing once all `num_bits` bits have
    /// been yielded.
    pub fn next(&mut self) -> (r: Option<bool>)
        requires
            old(self).wf(),
        ensures
            final(self).wf(),
            old(self).remaining().len() > 0 ==> r == Some(old(self).remaining()[0])
                && final(self).remaining() == old(self).remaining().drop_first(),
            old(self).remaining().len() == 0 ==> r is None && final(self).remaining() == old(
                self,
            ).remaining(),
    {
        let ghost pre = *self;
        if self.bit_index < self.num_bits {
            proof {
                lemma_bit_index_bounds(self.bit_index as int, self.num_bits as int);
            }
            let byte = self.bytes[self.bit_index / 8];
            let result = get_bit(byte, self.bit_index % 8);
            self.bit_index = self.bit_index + 1;
            proof {
                assert(self.remaining() =~= pre.remaining().drop_first());
            }
            Some(result)
        } else {
            None
        }
    }
}

} // verus!
