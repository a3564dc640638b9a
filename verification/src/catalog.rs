//! The catalog: the ordered set of timeranges that the engine aggregates.

use vstd::prelude::*;
use crate::text::texts;
use crate::timerange::Timerange;

verus! {

/// Why a list of names is no catalog.
#[derive(Clone, Copy, Debug, PartialEq, Eq, Structural)]
pub enum CatalogError {
    /// The list is empty, so there is no base timerange.
    Empty,
    /// Some name stands for no supported timerange.
    UnknownName,
    /// Some timerange is named twice.
    Duplicate,
}

/// Every name stands for a timerange.
pub open spec fn all_named(names: Seq<Seq<char>>) -> bool {
    forall|i: int| 0 <= i < names.len() ==> (#[trigger] Timerange::named(names[i])) is Some
}

/// The timeranges that the names stand for, in the order of the names.
pub open spec fn timeranges_of(names: Seq<Seq<char>>) -> Seq<Timerange> {
    Seq::new(names.len(), |i: int| Timerange::named(names[i]).unwrap())
}

/// No timerange occurs twice.
pub open spec fn distinct(ranges: Seq<Timerange>) -> bool {
    forall|i: int, j: int| 0 <= i < j < ranges.len() ==> ranges[i] != ranges[j]
}

/// Index of the shortest timerange of a list, the first of them where
/// several are as short; `0` for an empty list.
pub open spec fn shortest_index(ranges: Seq<Timerange>) -> int
    decreases ranges.len(),
{
    if ranges.len() <= 1 {
        0
    } else {
        let before = shortest_index(ranges.drop_last());
        if ranges.last().duration_ms() < ranges[before].duration_ms() {
            ranges.len() - 1
        } else {
            before
        }
    }
}

/// Position of a timerange in a list that holds it.
pub open spec fn slot_of(ranges: Seq<Timerange>, timerange: Timerange) -> int {
    choose|i: int| 0 <= i < ranges.len() && ranges[i] == timerange
}

/// In a list without repetition every entry is found at its own position.
pub proof fn lemma_slot_of(ranges: Seq<Timerange>, i: int)
    requires
        distinct(ranges),
        0 <= i < ranges.len(),
    ensures
        slot_of(ranges, ranges[i]) == i,
{
}

/// What a list of names is as a catalog: its timeranges, or the reason why
/// it is none. An unknown name is reported before a duplicate.
pub open spec fn catalog_of(names: Seq<Seq<char>>) -> Result<Seq<Timerange>, CatalogError> {
    if names.len() == 0 {
        Err(CatalogError::Empty)
    } else if !all_named(names) {
        Err(CatalogError::UnknownName)
    } else if !distinct(timeranges_of(names)) {
        Err(CatalogError::Duplicate)
    } else {
        Ok(timeranges_of(names))
    }
}

/// The shortest timerange of a non-empty list is in the list and no longer
/// than any other entry.
pub proof fn lemma_shortest_index(ranges: Seq<Timerange>)
    requires
        ranges.len() > 0,
    ensures
        0 <= shortest_index(ranges) < ranges.len(),
        forall|j: int|
            0 <= j < ranges.len() ==> ranges[shortest_index(ranges)].duration_ms()
                <= (#[trigger] ranges[j]).duration_ms(),
    decreases ranges.len(),
{
    if ranges.len() > 1 {
        let front = ranges.drop_last();
        lemma_shortest_index(front);
        assert forall|j: int| 0 <= j < ranges.len() implies ranges[shortest_index(
            ranges,
        )].duration_ms() <= (#[trigger] ranges[j]).duration_ms() by {
            if j < front.len() {
                assert(front[j] == ranges[j]);
            }
        }
    }
}

/// A validated, ordered set of timeranges with its base timerange, the
/// shortest one, singled out.
pub struct TimerangeCatalog {
    ranges: Vec<Timerange>,
    base: usize,
}

impl View for TimerangeCatalog {
    type V = Seq<Timerange>;

    closed spec fn view(&self) -> Seq<Timerange> {
        self.ranges@
    }
}

impl TimerangeCatalog {
    /// The catalog is not empty, names no timerange twice and knows its base.
    pub closed spec fn wf(&self) -> bool {
        &&& self.ranges@.len() > 0
        &&& distinct(self.ranges@)
        &&& self.base == shortest_index(self.ranges@)
    }

    /// A valid catalog is not empty and names no timerange twice.
    pub proof fn lemma_wf(&self)
        requires
            self.wf(),
        ensures
            self@.len() > 0,
            distinct(self@),
            0 <= self.base_index() < self@.len(),
    {
        lemma_shortest_index(self.ranges@);
    }

    /// Index of the base timerange.
    pub open spec fn base_index(&self) -> int {
        shortest_index(self@)
    }

    /// Builds the catalog that a configured list of names describes.
    pub fn new(names: &Vec<String>) -> (made: Result<TimerangeCatalog, CatalogError>)
        ensures
            match made {
                Ok(catalog) => catalog.wf() && catalog_of(texts(names@)) == Ok::<
                    Seq<Timerange>,
                    CatalogError,
                >(catalog@),
                Err(error) => catalog_of(texts(names@)) == Err::<Seq<Timerange>, CatalogError>(
                    error,
                ),
            },
    {
        let ghost wanted = texts(names@);
        if names.len() == 0 {
            return Err(CatalogError::Empty);
        }
        let mut ranges: Vec<Timerange> = Vec::new();
        let mut i: usize = 0;
        while i < names.len()
            invariant
                i <= names.len(),
                wanted == texts(names@),
                ranges@.len() == i,
                forall|k: int| 0 <= k < i ==> Timerange::named(wanted[k]) == Some(#[trigger] ranges@[k]),
            decreases names.len() - i,
        {
            match Timerange::from_name(names[i].as_str()) {
                Some(found) => {
                    ranges.push(found);
                },
                None => {
                    assert(Timerange::named(wanted[i as int]) is None);
                    return Err(CatalogError::UnknownName);
                },
            }
            i += 1;
        }
        assert(all_named(wanted)) by {
            assert forall|k: int| 0 <= k < wanted.len() implies (#[trigger] Timerange::named(
                wanted[k],
            )) is Some by {
                assert(Timerange::named(wanted[k]) == Some(ranges@[k]));
            }
        }
        let mut j: usize = 1;
        while j < ranges.len()
            invariant
                1 <= j <= ranges.len(),
                wanted == texts(names@),
                wanted.len() > 0,
                all_named(wanted),
                ranges@ == timeranges_of(wanted),
                forall|a: int, b: int| 0 <= a < b < j ==> ranges@[a] != ranges@[b],
            decreases ranges.len() - j,
        {
            let mut k: usize = 0;
            while k < j
                invariant
                    k <= j < ranges.len(),
                    wanted == texts(names@),
                    wanted.len() > 0,
                    all_named(wanted),
                    ranges@ == timeranges_of(wanted),
                    forall|a: int| 0 <= a < k ==> ranges@[a] != ranges@[j as int],
                decreases j - k,
            {
                if ranges[k] == ranges[j] {
                    return Err(CatalogError::Duplicate);
                }
                k += 1;
            }
            j += 1;
        }
        let base = Self::find_shortest(&ranges);
        Ok(TimerangeCatalog { ranges, base })
    }

    fn find_shortest(ranges: &Vec<Timerange>) -> (base: usize)
        requires
            ranges@.len() > 0,
        ensures
            base == shortest_index(ranges@),
    {
        let mut base: usize = 0;
        let mut n: usize = 1;
        while n < ranges.len()
            invariant
                1 <= n <= ranges.len(),
                base == shortest_index(ranges@.take(n as int)),
                base < n,
            decreases ranges.len() - n,
        {
            let ghost upto = ranges@.take(n as int + 1);
            assert(upto.drop_last() =~= ranges@.take(n as int));
            if ranges[n].duration() < ranges[base].duration() {
                base = n;
            }
            n += 1;
        }
        assert(ranges@.take(ranges@.len() as int) =~= ranges@);
        base
    }

    /// Number of timeranges in the catalog.
    pub fn len(&self) -> (n: usize)
        ensures
            n == self@.len(),
    {
        self.ranges.len()
    }

    /// The timerange at a position of the catalog.
    pub fn get(&self, index: usize) -> (timerange: Timerange)
        requires
            index < self@.len(),
        ensures
            timerange == self@[index as int],
    {
        self.ranges[index]
    }

    /// Position of the base timerange, the shortest of the catalog.
    pub fn base(&self) -> (index: usize)
        requires
            self.wf(),
        ensures
            index == self.base_index(),
            index < self@.len(),
    {
        proof {
            lemma_shortest_index(self.ranges@);
        }
        self.base
    }

    /// Position of a timerange in the catalog, if it is there.
    pub fn position(&self, timerange: Timerange) -> (found: Option<usize>)
        ensures
            match found {
                Some(index) => index < self@.len() && self@[index as int] == timerange && forall|
                    k: int,
                |
                    0 <= k < index ==> self@[k] != timerange,
                None => !self@.contains(timerange),
            },
    {
        let mut i: usize = 0;
        while i < self.ranges.len()
            invariant
                i <= self.ranges@.len(),
                forall|k: int| 0 <= k < i ==> self.ranges@[k] != timerange,
            decreases self.ranges.len() - i,
        {
            if self.ranges[i] == timerange {
                return Some(i);
            }
            i += 1;
        }
        None
    }
}

} // verus!
