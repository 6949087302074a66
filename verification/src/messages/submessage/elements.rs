//! Component elements of a submessage.

use std::collections::BTreeSet;
use vstd::prelude::*;
use vstd::std_specs::cmp::PartialEqSpecImpl;

verus! {

/// The largest offset a [`SequenceNumberSet`] can hold.
pub const MAX_OFFSET: u8 = 255;

/// Mathematical model of a [`SequenceNumberSet`]: a base and the set of
/// offsets from it.
pub struct SequenceNumberSetView {
    /// Lower bound of every sequence number in the set. Positive in every
    /// set that exists at run time.
    pub base: u64,
    /// Distances from `base` of the sequence numbers in the set.
    pub offsets: Set<u8>,
}

/// The largest member of `offsets` strictly below `bound`, or 0 if there is
/// none.
pub open spec fn largest_below(offsets: Set<u8>, bound: nat) -> u8
    decreases bound,
{
    if bound == 0 || bound > 256 {
        0
    } else if offsets.contains((bound - 1) as u8) {
        (bound - 1) as u8
    } else {
        largest_below(offsets, (bound - 1) as nat)
    }
}

/// Whether each element of `s` is smaller than the one after it.
pub open spec fn ascending(s: Seq<int>) -> bool {
    forall|i: int, j: int| 0 <= i < j < s.len() ==> s[i] < s[j]
}

impl SequenceNumberSetView {
    /// Whether the absolute sequence number `value` is in the set.
    pub open spec fn contains(self, value: u64) -> bool {
        &&& self.base <= value
        &&& value - self.base <= MAX_OFFSET
        &&& self.offsets.contains((value - self.base) as u8)
    }

    /// The largest offset in the set, or 0 if the set is empty.
    pub open spec fn max_offset(self) -> u8 {
        largest_below(self.offsets, 256)
    }

    /// The same set with `offset` added.
    pub open spec fn with_offset(self, offset: u8) -> Self {
        SequenceNumberSetView { base: self.base, offsets: self.offsets.insert(offset) }
    }
}

/// `largest_below` is a member below the bound that no other member below
/// the bound exceeds; without such a member it is 0.
pub proof fn lemma_largest_below(offsets: Set<u8>, bound: nat)
    requires
        bound <= 256,
    ensures
        forall|o: u8| offsets.contains(o) && o < bound ==> o <= largest_below(offsets, bound),
        (exists|o: u8| offsets.contains(o) && o < bound) ==> offsets.contains(
            largest_below(offsets, bound),
        ) && largest_below(offsets, bound) < bound,
        (forall|o: u8| offsets.contains(o) ==> o >= bound) ==> largest_below(offsets, bound) == 0,
    decreases bound,
{
    if bound > 0 {
        lemma_largest_below(offsets, (bound - 1) as nat);
        if !offsets.contains((bound - 1) as u8) {
            assert forall|o: u8| offsets.contains(o) && o < bound implies o < bound - 1 by {
                if o == bound - 1 {
                    assert(o == (bound - 1) as u8);
                }
            }
        }
    }
}

/// A set of sequence numbers within a window of 256 above a positive base,
/// held as the base and the offsets from it.
///
/// Submessages use it to report, one bit per sequence number, which
/// sequence numbers of a range a reader has or lacks.
#[derive(Debug)]
pub struct SequenceNumberSet {
    base: Base,
    offsets: BTreeSet<u8>,
}

/// The base of a set: an integer that is never zero.
#[derive(Debug, Clone, Copy)]
struct Base {
    value: u64,
}

impl Base {
    #[verifier::type_invariant]
    spec fn positive(self) -> bool {
        self.value > 0
    }
}

impl View for SequenceNumberSet {
    type V = SequenceNumberSetView;

    closed spec fn view(&self) -> SequenceNumberSetView {
        SequenceNumberSetView { base: self.base.value, offsets: self.offsets@ }
    }
}

impl Clone for SequenceNumberSet {
    fn clone(&self) -> (copy: Self)
        ensures
            copy@ == self@,
    {
        Self { base: self.base, offsets: self.offsets.clone() }
    }
}

impl PartialEq for SequenceNumberSet {
    /// Two sets are equal when they have the same base and the same offsets.
    fn eq(&self, other: &Self) -> (equal: bool) {
        if self.base.value != other.base.value {
            return false;
        }
        let mut next: u16 = 0;
        while next <= 255
            invariant
                next <= 256,
                forall|o: u8| o < next ==> (self@.offsets.contains(o) <==> other@.offsets.contains(o)),
            decreases 256 - next,
        {
            let offset = next as u8;
            if self.offsets.contains(&offset) != other.offsets.contains(&offset) {
                return false;
            }
            next = next + 1;
        }
        assert(self@.offsets =~= other@.offsets);
        true
    }
}

impl Eq for SequenceNumberSet {

}

impl PartialEqSpecImpl for SequenceNumberSet {
    open spec fn obeys_eq_spec() -> bool {
        true
    }

    open spec fn eq_spec(&self, other: &Self) -> bool {
        self@ == other@
    }
}

/// Errors that can occur when inserting a new value into a
/// [`SequenceNumberSet`].
#[derive(Debug, Clone, Copy, PartialEq, Eq, Structural)]
pub enum OutOfBoundsError {
    /// The value is smaller than the base. Every value is held as a
    /// non-negative offset from the base.
    LessThanBase,
    /// The value is more than 255 above the base.
    OffsetTooLarge,
}

impl OutOfBoundsError {
    /// The message that describes this error.
    pub fn message(&self) -> (text: &'static str)
        ensures
            text@ == match *self {
                OutOfBoundsError::LessThanBase =>
                    "the provided number is less than the base value of the set"@,
                OutOfBoundsError::OffsetTooLarge =>
                    "the provided number is too far from the offset"@,
            },
    {
        match self {
            OutOfBoundsError::LessThanBase =>
                "the provided number is less than the base value of the set",
            OutOfBoundsError::OffsetTooLarge => "the provided number is too far from the offset",
        }
    }
}

impl SequenceNumberSet {
    /// Creates an empty set above `base`.
    ///
    /// The base is a lower bound for all values in the set; a base of zero
    /// is not representable.
    #[must_use]
    pub fn new(base: u64) -> (set: Self)
        requires
            base > 0,
        ensures
            set@.base == base,
            set@.offsets == Set::<u8>::empty(),
            set@.max_offset() == 0,
            forall|value: u64| !set@.contains(value),
    {
        proof {
            lemma_largest_below(Set::<u8>::empty(), 256);
        }
        let offsets = BTreeSet::new();
        Self { base: Base { value: base }, offsets }
    }

    /// Returns the base of the set.
    #[must_use]
    pub fn base(&self) -> (base: u64)
        ensures
            base == self@.base,
            base > 0,
    {
        proof {
            use_type_invariant(&self.base);
        }
        self.base.value
    }

    /// Inserts a new offset into the set.
    ///
    /// Returns `true` if the set did not already contain the offset.
    pub fn insert_offset(&mut self, offset: u8) -> (inserted: bool)
        ensures
            final(self)@ == old(self)@.with_offset(offset),
            inserted == !old(self)@.offsets.contains(offset),
    {
        self.offsets.insert(offset)
    }

    /// Inserts the absolute sequence number `value` into the set.
    ///
    /// Returns `Ok(true)` if the set did not already contain the value.
    ///
    /// # Errors
    ///
    /// Fails with [`OutOfBoundsError::LessThanBase`] if `value` is below the
    /// base, and with [`OutOfBoundsError::OffsetTooLarge`] if it is more than
    /// 255 above it. The set is then unchanged.
    pub fn insert_value(&mut self, value: u64) -> (result: Result<bool, OutOfBoundsError>)
        ensures
            match result {
                Ok(inserted) => {
                    &&& old(self)@.base <= value <= old(self)@.base + MAX_OFFSET
                    &&& inserted == !old(self)@.contains(value)
                    &&& final(self)@ == old(self)@.with_offset((value - old(self)@.base) as u8)
                    &&& final(self)@.contains(value)
                },
                Err(OutOfBoundsError::LessThanBase) => {
                    &&& value < old(self)@.base
                    &&& final(self)@ == old(self)@
                },
                Err(OutOfBoundsError::OffsetTooLarge) => {
                    &&& value > old(self)@.base + MAX_OFFSET
                    &&& final(self)@ == old(self)@
                },
            },
    {
        let base = self.base();
        if value < base {
            return Err(OutOfBoundsError::LessThanBase);
        }
        let distance = value - base;
        if distance > 255 {
            return Err(OutOfBoundsError::OffsetTooLarge);
        }
        Ok(self.insert_offset(distance as u8))
    }

    /// Returns the offsets in this set, in ascending order.
    pub fn offsets(&self) -> (offsets: Vec<u8>)
        ensures
            ascending(offsets@.map_values(|o: u8| o as int)),
            forall|o: u8| offsets@.contains(o) <==> self@.offsets.contains(o),
    {
        let mut offsets: Vec<u8> = Vec::new();
        let mut next: u16 = 0;
        while next <= 255
            invariant
                next <= 256,
                forall|i: int| 0 <= i < offsets@.len() ==> offsets@[i] < next,
                forall|i: int, j: int| 0 <= i < j < offsets@.len() ==> offsets@[i] < offsets@[j],
                forall|o: u8| offsets@.contains(o) <==> o < next && self@.offsets.contains(o),
            decreases 256 - next,
        {
            let offset = next as u8;
            if self.offsets.contains(&offset) {
                let ghost before = offsets@;
                offsets.push(offset);
                assert forall|o: u8| offsets@.contains(o) <==> o < next + 1
                    && self@.offsets.contains(o) by {
                    if offsets@.contains(o) {
                        let i = choose|i: int| 0 <= i < offsets@.len() && offsets@[i] == o;
                        if i < before.len() {
                            assert(before.contains(o));
                        }
                    }
                    if o < next + 1 && self@.offsets.contains(o) {
                        if o == offset {
                            assert(offsets@[before.len() as int] == o);
                        } else {
                            assert(before.contains(o));
                            let i = choose|i: int| 0 <= i < before.len() && before[i] == o;
                            assert(offsets@[i] == o);
                        }
                    }
                }
            }
            next = next + 1;
        }
        offsets
    }

    /// Returns the sequence numbers in this set, in ascending order: the base
    /// plus each offset.
    pub fn values(&self) -> (values: Vec<u64>)
        requires
            self@.base + self@.max_offset() <= u64::MAX,
        ensures
            ascending(values@.map_values(|v: u64| v as int)),
            forall|v: u64| values@.contains(v) <==> self@.contains(v),
    {
        let base = self.base();
        let offsets = self.offsets();
        let mut values: Vec<u64> = Vec::new();
        proof {
            lemma_largest_below(self@.offsets, 256);
        }
        for i in 0..offsets.len()
            invariant
                base == self@.base,
                ascending(offsets@.map_values(|o: u8| o as int)),
                forall|o: u8| offsets@.contains(o) <==> self@.offsets.contains(o),
                forall|o: u8| self@.offsets.contains(o) ==> base + o <= u64::MAX,
                values@.len() == i,
                forall|k: int| 0 <= k < i ==> values@[k] == base + offsets@[k],
        {
            assert(offsets@.contains(offsets@[i as int]));
            values.push(base + offsets[i] as u64);
        }
        proof {
            let keys = offsets@.map_values(|o: u8| o as int);
            assert forall|i: int, j: int| 0 <= i < j < values@.len() implies values@[i]
                < values@[j] by {
                assert(keys[i] < keys[j]);
            }
            assert forall|v: u64| values@.contains(v) <==> self@.contains(v) by {
                if values@.contains(v) {
                    let k = choose|k: int| 0 <= k < values@.len() && values@[k] == v;
                    assert(offsets@.contains(offsets@[k]));
                }
                if self@.contains(v) {
                    let o = (v - base) as u8;
                    assert(offsets@.contains(o));
                    let k = choose|k: int| 0 <= k < offsets@.len() && offsets@[k] == o;
                    assert(values@[k] == v);
                }
            }
        }
        values
    }

    /// Returns the largest offset in the set, or 0 if the set is empty.
    ///
    /// An empty set and a set that holds only offset 0 give the same
    /// answer; [`SequenceNumberSet::is_empty`] tells them apart.
    #[must_use]
    pub fn max_offset(&self) -> (largest: u8)
        ensures
            largest == self@.max_offset(),
            self@.offsets.contains(largest) || (largest == 0 && self@.offsets == Set::<u8>::empty()),
            forall|o: u8| self@.offsets.contains(o) ==> o <= largest,
    {
        let mut bound: u16 = 256;
        while bound > 0
            invariant
                bound <= 256,
                largest_below(self@.offsets, 256) == largest_below(self@.offsets, bound as nat),
                forall|o: u8| o >= bound ==> !self@.offsets.contains(o),
            decreases bound,
        {
            let candidate = (bound - 1) as u8;
            if self.offsets.contains(&candidate) {
                proof {
                    lemma_largest_below(self@.offsets, 256);
                }
                return candidate;
            }
            bound = bound - 1;
        }
        proof {
            lemma_largest_below(self@.offsets, 256);
            assert(self@.offsets =~= Set::<u8>::empty());
        }
        0
    }

    /// Returns `true` if the set holds no sequence number.
    #[must_use]
    pub fn is_empty(&self) -> (empty: bool)
        ensures
            empty == (self@.offsets == Set::<u8>::empty()),
    {
        let empty = self.offsets.is_empty();
        proof {
            if empty {
                assert(self@.offsets =~= Set::<u8>::empty());
            }
        }
        empty
    }

    /// Returns `true` if the absolute sequence number `value` is in the set.
    #[must_use]
    pub fn contains(&self, value: u64) -> (found: bool)
        ensures
            found == self@.contains(value),
    {
        let base = self.base();
        if value < base {
            return false;
        }
        let distance = value - base;
        if distance > 255 {
            return false;
        }
        let offset = distance as u8;
        self.offsets.contains(&offset)
    }
}

} // verus!
