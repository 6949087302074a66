//! The history cache: an ordered store of changes to data objects, each
//! under a sequence number of its own.

use crate::structure::guid::Guid;
use vstd::prelude::*;

verus! {

/// What a [`Change`] did to a data object.
#[derive(Debug)]
pub enum Kind<Data> {
    /// The object has a new value.
    Alive(Data),
    /// The object has a new value, which a filter kept from this cache.
    AliveFiltered,
    /// The object was disposed of.
    NotAliveDisposed,
    /// The writer no longer writes the object.
    NotAliveUnregistered,
}

/// A change to the state of a data object.
#[derive(Debug)]
pub struct Change<Data> {
    /// What the change did. Only a change that leaves the object alive
    /// carries data.
    pub kind: Kind<Data>,
    /// The writer that made the change.
    pub writer_guid: Guid,
    /// The data object that was changed.
    pub instance_guid: Guid,
}

impl<Data> Change<Data> {
    /// Creates a change.
    #[must_use]
    pub fn new(kind: Kind<Data>, writer_guid: Guid, instance_guid: Guid) -> (change: Self)
        ensures
            change == (Change { kind, writer_guid, instance_guid }),
    {
        Self { kind, writer_guid, instance_guid }
    }
}

/// A store of changes, each kept under the sequence number that it was
/// given when it was added.
///
/// Sequence numbers only grow: a number once handed out is never handed out
/// again, also after its change was removed. No operation does I/O.
pub trait Cache<Data>: Sized {
    /// What tells the changes apart and orders them.
    type SqnN: Copy;

    /// Why a change could not be added.
    type AddErr;

    /// Why a change could not be removed.
    type RemErr;

    /// Where a sequence number stands among all sequence numbers.
    spec fn rank(number: Self::SqnN) -> int;

    /// The changes in the cache with their sequence numbers, oldest first.
    spec fn entries(&self) -> Seq<(Self::SqnN, Change<Data>)>;

    /// The bound below which every sequence number handed out so far
    /// stands.
    spec fn issued(&self) -> int;

    /// What holds of every cache: its entries stand in ascending order, below
    /// the bound.
    spec fn wf(&self) -> bool;

    /// Adds a change and returns the sequence number given to it, which is
    /// above every one given before.
    ///
    /// # Errors
    ///
    /// Why adding fails is up to the cache. A cache that fails is left as it
    /// was.
    fn add(&mut self, change: Change<Data>) -> (result: Result<Self::SqnN, Self::AddErr>)
        requires
            old(self).wf(),
        ensures
            final(self).wf(),
            match result {
                Ok(number) => {
                    &&& final(self).entries() == old(self).entries().push((number, change))
                    &&& old(self).issued() <= Self::rank(number) < final(self).issued()
                },
                Err(_) => {
                    &&& final(self).entries() == old(self).entries()
                    &&& final(self).issued() == old(self).issued()
                },
            },
    ;

    /// Takes the change with the given sequence number out of the cache.
    ///
    /// # Errors
    ///
    /// Fails if the cache holds no change under that number; it is then left
    /// as it was.
    fn remove(&mut self, sequence_number: Self::SqnN) -> (result: Result<
        Change<Data>,
        Self::RemErr,
    >)
        requires
            old(self).wf(),
        ensures
            final(self).wf(),
            final(self).issued() == old(self).issued(),
            match result {
                Ok(change) => exists|at: int|
                    {
                        &&& 0 <= at < old(self).entries().len()
                        &&& #[trigger] old(self).entries()[at] == (sequence_number, change)
                        &&& final(self).entries() == old(self).entries().remove(at)
                    },
                Err(_) => {
                    &&& final(self).entries() == old(self).entries()
                    &&& forall|at: int|
                        0 <= at < old(self).entries().len() ==> (
                        #[trigger] old(self).entries()[at]).0 != sequence_number
                },
            },
    ;

    /// Returns the largest sequence number in the cache, or `None` if the
    /// cache is empty.
    fn max_sequence_number(&self) -> (largest: Option<Self::SqnN>)
        requires
            self.wf(),
        ensures
            match largest {
                Some(number) => {
                    &&& self.entries().len() > 0
                    &&& number == self.entries().last().0
                    &&& forall|at: int|
                        0 <= at < self.entries().len() ==> Self::rank(
                            (#[trigger] self.entries()[at]).0,
                        ) <= Self::rank(number)
                },
                None => self.entries().len() == 0,
            },
    ;

    /// Returns the smallest sequence number in the cache, or `None` if the
    /// cache is empty.
    fn min_sequence_number(&self) -> (smallest: Option<Self::SqnN>)
        requires
            self.wf(),
        ensures
            match smallest {
                Some(number) => {
                    &&& self.entries().len() > 0
                    &&& number == self.entries().first().0
                    &&& forall|at: int|
                        0 <= at < self.entries().len() ==> Self::rank(number) <= Self::rank(
                            (#[trigger] self.entries()[at]).0,
                        )
                },
                None => self.entries().len() == 0,
            },
    ;
}

/// Why a [`HistoryCache`] could not add a change.
#[derive(Debug, Clone, Copy, PartialEq, Eq, Structural)]
pub enum AddError {
    /// The cache already holds as many changes as it may.
    Full,
    /// Every sequence number has been handed out.
    Exhausted,
}

/// Why a [`HistoryCache`] could not remove a change.
#[derive(Debug, Clone, Copy, PartialEq, Eq, Structural)]
pub enum RemoveError {
    /// The cache holds no change under the given sequence number.
    NotFound,
}

/// Mathematical model of a [`HistoryCache`].
pub struct HistoryCacheView<Data> {
    /// The changes with their sequence numbers, oldest first.
    pub entries: Seq<(u64, Change<Data>)>,
    /// The sequence number that the next change will get.
    pub next: u64,
    /// How many changes the cache may hold.
    pub limit: nat,
}

/// The index of the first entry with the given sequence number, or the
/// length of `entries` if there is none.
pub open spec fn position<Data>(entries: Seq<(u64, Change<Data>)>, number: u64) -> int
    decreases entries.len(),
{
    if entries.len() == 0 {
        0
    } else if entries.first().0 == number {
        0
    } else {
        1 + position(entries.drop_first(), number)
    }
}

impl<Data> HistoryCacheView<Data> {
    /// An empty cache that has handed out no sequence number.
    pub open spec fn fresh(limit: nat) -> Self {
        HistoryCacheView { entries: Seq::empty(), next: 1, limit }
    }

    /// What holds of every cache: sequence numbers are positive, ascend
    /// from one entry to the next and lie below the next one to hand out;
    /// the cache holds no more changes than it may.
    pub open spec fn wf(self) -> bool {
        &&& self.next >= 1
        &&& self.entries.len() <= self.limit
        &&& forall|at: int| 0 <= at < self.entries.len() ==> 1 <= (#[trigger] self.entries[at]).0 < self.next
        &&& forall|i: int, j: int|
            0 <= i < j < self.entries.len() ==> (#[trigger] self.entries[i]).0 < (
            #[trigger] self.entries[j]).0
    }

    /// Why a change cannot be added, if it cannot.
    pub open spec fn add_error(self) -> Option<AddError> {
        if self.entries.len() >= self.limit {
            Some(AddError::Full)
        } else if self.next == u64::MAX {
            Some(AddError::Exhausted)
        } else {
            None
        }
    }

    /// The cache after `change` was added under the next sequence number.
    pub open spec fn add(self, change: Change<Data>) -> Self {
        HistoryCacheView {
            entries: self.entries.push((self.next, change)),
            next: (self.next + 1) as u64,
            limit: self.limit,
        }
    }

    /// Whether the cache holds a change under `number`.
    pub open spec fn contains(self, number: u64) -> bool {
        position(self.entries, number) < self.entries.len()
    }

    /// The change held under `number`.
    pub open spec fn change(self, number: u64) -> Change<Data>
        recommends
            self.contains(number),
    {
        self.entries[position(self.entries, number)].1
    }

    /// The cache after the change under `number` was taken out.
    pub open spec fn remove(self, number: u64) -> Self
        recommends
            self.contains(number),
    {
        HistoryCacheView {
            entries: self.entries.remove(position(self.entries, number)),
            next: self.next,
            limit: self.limit,
        }
    }

    /// The smallest sequence number in the cache, if it holds any.
    pub open spec fn min_sequence_number(self) -> Option<u64> {
        if self.entries.len() == 0 {
            None
        } else {
            Some(self.entries.first().0)
        }
    }

    /// The largest sequence number in the cache, if it holds any.
    pub open spec fn max_sequence_number(self) -> Option<u64> {
        if self.entries.len() == 0 {
            None
        } else {
            Some(self.entries.last().0)
        }
    }
}

/// `position` finds the entry with the given number, if there is one.
pub proof fn lemma_position<Data>(entries: Seq<(u64, Change<Data>)>, number: u64)
    ensures
        0 <= position(entries, number) <= entries.len(),
        position(entries, number) < entries.len() ==> entries[position(entries, number)].0
            == number,
        forall|at: int| 0 <= at < position(entries, number) ==> (#[trigger] entries[at]).0 != number,
    decreases entries.len(),
{
    if entries.len() > 0 && entries.first().0 != number {
        let rest = entries.drop_first();
        lemma_position(rest, number);
        assert forall|at: int| 0 <= at < position(entries, number) implies (#[trigger] entries[at]).0
            != number by {
            if at > 0 {
                assert(entries[at] == rest[at - 1]);
            }
        }
    }
}

/// Adding a change keeps a cache well formed, and puts the change last,
/// under a number above all others in the cache.
pub proof fn lemma_add<Data>(cache: HistoryCacheView<Data>, change: Change<Data>)
    requires
        cache.wf(),
        cache.add_error() is None,
    ensures
        cache.add(change).wf(),
        cache.add(change).max_sequence_number() == Some(cache.next),
        cache.add(change).contains(cache.next),
        cache.add(change).change(cache.next) == change,
        cache.add(change).remove(cache.next).entries == cache.entries,
        forall|at: int|
            0 <= at < cache.entries.len() ==> (#[trigger] cache.entries[at]).0 < cache.next,
{
    let after = cache.add(change).entries;
    lemma_position(after, cache.next);
    let found = position(after, cache.next);
    if found < cache.entries.len() {
        assert(after[found] == cache.entries[found]);
    }
    assert(after.remove(found) =~= cache.entries);
}

/// Taking a change out keeps a cache well formed and leaves the other
/// changes as they were.
pub proof fn lemma_remove<Data>(cache: HistoryCacheView<Data>, number: u64)
    requires
        cache.wf(),
        cache.contains(number),
    ensures
        cache.remove(number).wf(),
        !cache.remove(number).contains(number),
        forall|other: u64|
            other != number ==> cache.remove(number).contains(other) == cache.contains(other),
{
    let at = position(cache.entries, number);
    let after = cache.remove(number).entries;
    lemma_position(cache.entries, number);
    lemma_position(after, number);
    assert forall|i: int| 0 <= i < after.len() implies after[i] == cache.entries[if i < at {
        i
    } else {
        i + 1
    }] by {}
    assert forall|i: int| 0 <= i < after.len() implies 1 <= (#[trigger] after[i]).0
        < cache.next by {
        assert(after[i] == cache.entries[if i < at { i } else { i + 1 }]);
    }
    assert forall|i: int, j: int| 0 <= i < j < after.len() implies (#[trigger] after[i]).0 < (
    #[trigger] after[j]).0 by {
        assert(after[i] == cache.entries[if i < at { i } else { i + 1 }]);
        assert(after[j] == cache.entries[if j < at { j } else { j + 1 }]);
    }
    if position(after, number) < after.len() {
        let i = position(after, number);
        assert(after[i] == cache.entries[if i < at { i } else { i + 1 }]);
    }
    assert forall|other: u64| other != number implies cache.remove(number).contains(other)
        == cache.contains(other) by {
        lemma_position(cache.entries, other);
        lemma_position(after, other);
        let before_at = position(cache.entries, other);
        let after_at = position(after, other);
        if before_at < cache.entries.len() {
            let moved = if before_at < at { before_at } else { before_at - 1 };
            assert(after[moved] == cache.entries[before_at]);
        }
        if after_at < after.len() {
            assert(after[after_at] == cache.entries[if after_at < at {
                after_at
            } else {
                after_at + 1
            }]);
        }
    }
}

/// In a cache that holds a change, the smallest sequence number is not
/// above the largest, and every change lies between them.
pub proof fn lemma_min_max<Data>(cache: HistoryCacheView<Data>)
    requires
        cache.wf(),
        cache.entries.len() > 0,
    ensures
        cache.min_sequence_number() is Some,
        cache.max_sequence_number() is Some,
        cache.min_sequence_number()->0 <= cache.max_sequence_number()->0,
        forall|at: int|
            0 <= at < cache.entries.len() ==> cache.min_sequence_number()->0 <= (
            #[trigger] cache.entries[at]).0 <= cache.max_sequence_number()->0,
{
    let first = cache.entries.first();
    let last = cache.entries.last();
    assert forall|at: int| 0 <= at < cache.entries.len() implies first.0 <= (
    #[trigger] cache.entries[at]).0 <= last.0 by {
        if 0 < at {
            assert(cache.entries[0].0 < cache.entries[at].0);
        }
        if at < cache.entries.len() - 1 {
            assert(cache.entries[at].0 < cache.entries[cache.entries.len() - 1].0);
        }
    }
}

/// Two changes added one after the other get growing sequence numbers;
/// once the second is taken out again, the first is the largest; and once
/// the first is taken out of a cache that was empty before, the cache is
/// empty again.
pub proof fn lemma_add_twice_remove<Data>(
    cache: HistoryCacheView<Data>,
    first: Change<Data>,
    second: Change<Data>,
)
    requires
        cache.wf(),
        cache.add_error() is None,
        cache.add(first).add_error() is None,
    ensures
        ({
            let first_number = cache.next;
            let second_number = cache.add(first).next;
            let both = cache.add(first).add(second);
            let one = both.remove(second_number);
            let none = one.remove(first_number);
            &&& first_number < second_number
            &&& both.wf()
            &&& both.max_sequence_number() == Some(second_number)
            &&& one.wf()
            &&& one.max_sequence_number() == Some(first_number)
            &&& none.wf()
            &&& none.entries == cache.entries
            &&& cache.entries.len() == 0 ==> none.min_sequence_number() is None
                && none.max_sequence_number() is None
        }),
{
    let with_first = cache.add(first);
    let both = with_first.add(second);
    lemma_add(cache, first);
    lemma_add(with_first, second);
    lemma_remove(both, with_first.next);
    let one = both.remove(with_first.next);
    assert(one.entries == with_first.entries);
    assert(one.contains(cache.next));
    lemma_remove(one, cache.next);
}

/// A cache of changes in memory, bounded in size, with sequence numbers
/// that start at 1 and grow by one with each change added.
#[derive(Debug)]
pub struct HistoryCache<Data> {
    entries: Vec<(u64, Change<Data>)>,
    next: u64,
    limit: usize,
}

impl<Data> View for HistoryCache<Data> {
    type V = HistoryCacheView<Data>;

    closed spec fn view(&self) -> HistoryCacheView<Data> {
        HistoryCacheView { entries: self.entries@, next: self.next, limit: self.limit as nat }
    }
}

impl<Data> HistoryCache<Data> {
    /// Creates an empty cache that may hold up to `limit` changes.
    #[must_use]
    pub fn new(limit: usize) -> (cache: Self)
        ensures
            cache@ == HistoryCacheView::<Data>::fresh(limit as nat),
            cache@.wf(),
    {
        Self { entries: Vec::new(), next: 1, limit }
    }

    /// Returns the number of changes in the cache.
    #[must_use]
    pub fn len(&self) -> (len: usize)
        ensures
            len == self@.entries.len(),
    {
        self.entries.len()
    }

    /// Returns `true` if the cache holds no change.
    #[must_use]
    pub fn is_empty(&self) -> (empty: bool)
        ensures
            empty == (self@.entries.len() == 0),
    {
        self.entries.len() == 0
    }
}

impl<Data> Cache<Data> for HistoryCache<Data> {
    type SqnN = u64;

    type AddErr = AddError;

    type RemErr = RemoveError;

    open spec fn rank(number: u64) -> int {
        number as int
    }

    open spec fn entries(&self) -> Seq<(u64, Change<Data>)> {
        self@.entries
    }

    open spec fn issued(&self) -> int {
        self@.next as int
    }

    open spec fn wf(&self) -> bool {
        self@.wf()
    }

    fn add(&mut self, change: Change<Data>) -> (result: Result<u64, AddError>)
        ensures
            match result {
                Ok(number) => {
                    &&& old(self)@.add_error() is None
                    &&& number == old(self)@.next
                    &&& final(self)@ == old(self)@.add(change)
                },
                Err(error) => {
                    &&& old(self)@.add_error() == Some(error)
                    &&& final(self)@ == old(self)@
                },
            },
    {
        if self.entries.len() >= self.limit {
            return Err(AddError::Full);
        }
        if self.next == u64::MAX {
            return Err(AddError::Exhausted);
        }
        let number = self.next;
        self.entries.push((number, change));
        self.next = number + 1;
        Ok(number)
    }

    fn remove(&mut self, sequence_number: u64) -> (result: Result<Change<Data>, RemoveError>)
        ensures
            match result {
                Ok(change) => {
                    &&& old(self)@.contains(sequence_number)
                    &&& change == old(self)@.change(sequence_number)
                    &&& final(self)@ == old(self)@.remove(sequence_number)
                },
                Err(error) => {
                    &&& !old(self)@.contains(sequence_number)
                    &&& error == RemoveError::NotFound
                    &&& final(self)@ == old(self)@
                },
            },
    {
        let ghost before = self@;
        proof {
            lemma_position(before.entries, sequence_number);
            assert(before.entries.skip(0) =~= before.entries);
        }
        let mut at: usize = 0;
        while at < self.entries.len()
            invariant
                self@ == before,
                before == old(self)@,
                before.wf(),
                at <= before.entries.len(),
                position(before.entries, sequence_number) == at + position(
                    before.entries.skip(at as int),
                    sequence_number,
                ),
            decreases before.entries.len() - at,
        {
            if self.entries[at].0 == sequence_number {
                let entry = self.entries.remove(at);
                proof {
                    let after = self@.entries;
                    assert(old(self).entries()[at as int] == (sequence_number, entry.1));
                    assert(self.entries() == old(self).entries().remove(at as int));
                    assert forall|i: int| 0 <= i < after.len() implies 1 <= (#[trigger] after[i]).0
                        < before.next by {
                        if i < at {
                            assert(after[i] == before.entries[i]);
                        } else {
                            assert(after[i] == before.entries[i + 1]);
                        }
                    }
                    assert forall|i: int, j: int| 0 <= i < j < after.len() implies (
                    #[trigger] after[i]).0 < (#[trigger] after[j]).0 by {
                        let from_i = if i < at { i } else { i + 1 };
                        let from_j = if j < at { j } else { j + 1 };
                        assert(after[i] == before.entries[from_i]);
                        assert(after[j] == before.entries[from_j]);
                    }
                }
                return Ok(entry.1);
            }
            assert(before.entries.skip(at as int).drop_first() =~= before.entries.skip(at + 1));
            at = at + 1;
        }
        Err(RemoveError::NotFound)
    }

    fn max_sequence_number(&self) -> (largest: Option<u64>)
        ensures
            largest == self@.max_sequence_number(),
    {
        let len = self.entries.len();
        if len == 0 {
            None
        } else {
            Some(self.entries[len - 1].0)
        }
    }

    fn min_sequence_number(&self) -> (smallest: Option<u64>)
        ensures
            smallest == self@.min_sequence_number(),
    {
        if self.entries.len() == 0 {
            None
        } else {
            Some(self.entries[0].0)
        }
    }
}

} // verus!
