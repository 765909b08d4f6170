//! The layout tracker: the result of the sizing pass. It caches every
//! sector's absolute start offset and answers where a field inside a sector
//! lies relative to another sector's start.

use vstd::prelude::*;

use crate::builder::SerialBuilder;
use crate::error::{ErrorModel, SerialError};
use crate::key_model;
use crate::model::{
    fields_layout, graph_field_offset, graph_layout, layout_end, layout_ok, layout_starts,
    lemma_graph_index_of_absent, lemma_graph_index_of_unique, unique_keys,
};

verus! {

/// The start offsets as a finite map: entries later in the list win, though
/// a well-formed tracker never repeats a key.
pub open spec fn pairs_map<S>(pairs: Seq<(S, usize)>) -> Map<S, int>
    decreases pairs.len(),
{
    if pairs.len() == 0 {
        Map::empty()
    } else {
        pairs_map(pairs.drop_last()).insert(pairs.last().0, pairs.last().1 as int)
    }
}

/// With pairwise-distinct keys, every entry is in the map with its own
/// offset.
pub proof fn lemma_pairs_map_index<S>(pairs: Seq<(S, usize)>, i: int)
    requires
        unique_keys(pairs),
        0 <= i < pairs.len(),
    ensures
        pairs_map(pairs).contains_key(pairs[i].0),
        pairs_map(pairs)[pairs[i].0] == pairs[i].1 as int,
    decreases pairs.len(),
{
    if i < pairs.len() - 1 {
        assert(unique_keys(pairs.drop_last())) by {
            assert forall|x: int, y: int|
                0 <= x < y < pairs.drop_last().len() implies pairs.drop_last()[x].0
                != pairs.drop_last()[y].0 by {
                assert(pairs[x].0 != pairs[y].0);
            }
        }
        lemma_pairs_map_index(pairs.drop_last(), i);
        assert(pairs.last().0 != pairs[i].0);
    }
}

/// A key that matches no entry is not in the map.
pub proof fn lemma_pairs_map_absent<S>(pairs: Seq<(S, usize)>, key: S)
    requires
        forall|i: int| 0 <= i < pairs.len() ==> pairs[i].0 != key,
    ensures
        !pairs_map(pairs).contains_key(key),
    decreases pairs.len(),
{
    if pairs.len() > 0 {
        assert forall|i: int|
            0 <= i < pairs.drop_last().len() implies pairs.drop_last()[i].0 != key by {
            assert(pairs[i].0 != key);
        }
        lemma_pairs_map_absent(pairs.drop_last(), key);
    }
}

/// The cached absolute start offset of every sector, computed once per
/// build in insertion order.
#[derive(Debug, Clone)]
pub struct SerialTracker<S> {
    entries: Vec<(S, usize)>,
}

impl<S> View for SerialTracker<S> {
    type V = Map<S, int>;

    open spec fn view(&self) -> Map<S, int> {
        pairs_map(self.spec_entries())
    }
}

impl<S> SerialTracker<S> {
    /// The recorded (key, start offset) pairs, in insertion order.
    pub closed spec fn spec_entries(self) -> Seq<(S, usize)> {
        self.entries@
    }

    /// A tracker never records a key twice.
    pub open spec fn wf(self) -> bool {
        unique_keys(self.spec_entries())
    }
}

impl<S: PartialEq + Clone> SerialTracker<S> {
    /// Runs the sizing pass: walks every sector in insertion order, records
    /// each sector's absolute start offset, and advances a running offset by
    /// each field's size. A fill can only reference a sector recorded
    /// earlier, since its own sector's key is recorded after its fields.
    #[verifier::loop_isolation(false)]
    #[verifier::spinoff_prover]
    #[verifier::rlimit(60)]
    pub fn new(sectors: &SerialBuilder<S>) -> (r: Result<Self, SerialError<S>>)
        requires
            key_model::<S>(),
            sectors.wf(),
        ensures
            match r {
                Result::Ok(t) => {
                    &&& layout_ok(sectors@, sectors@.len() as int)
                    &&& t@ == layout_starts(sectors@, sectors@.len() as int)
                    &&& t.wf()
                    &&& t.spec_entries().len() == sectors@.len()
                    &&& forall|i: int|
                        0 <= i < sectors@.len() ==> (#[trigger] t.spec_entries()[i]).0
                            == sectors@[i].0
                    &&& forall|i: int|
                        0 <= i < sectors@.len() ==> (#[trigger] t.spec_entries()[i]).1 as int
                            == layout_end(sectors@, i)
                },
                Result::Err(e) => graph_layout(sectors@, sectors@.len() as int) == Err::<
                    (Map<S, int>, int),
                    ErrorModel<S>,
                >(e@),
            },
    {
        let mut tracker = SerialTracker { entries: Vec::new() };
        proof {
            assert(tracker.spec_entries() =~= Seq::<(S, usize)>::empty());
            assert(tracker@ =~= Map::<S, int>::empty());
        }
        let mut offset: usize = 0;
        let n = sectors.sectors.len();
        let mut i: usize = 0;
        while i < n
            invariant
                0 <= i <= n,
                tracker.wf(),
                tracker.spec_entries().len() == i,
                layout_ok(sectors@, i as int),
                tracker@ == layout_starts(sectors@, i as int),
                offset as int == layout_end(sectors@, i as int),
                forall|k: int|
                    0 <= k < i ==> (#[trigger] tracker.spec_entries()[k]).0 == sectors@[k].0,
                forall|k: int|
                    0 <= k < i ==> (#[trigger] tracker.spec_entries()[k]).1 as int == layout_end(
                        sectors@,
                        k,
                    ),
            decreases n - i,
        {
            let start = offset;
            let fields = &sectors.sectors[i].1;
            let ghost fm = sectors@[i as int].1;
            let m = fields.fields.len();
            let mut j: usize = 0;
            while j < m
                invariant
                    0 <= j <= m,
                    fm == fields@,
                    m == fm.len(),
                    fields_layout(fm, j as int, start as int, tracker@) == Ok::<int, ErrorModel<S>>(
                        offset as int,
                    ),
                decreases m - j,
            {
                let size = match fields.fields[j].calculate_size(offset, &tracker) {
                    Result::Ok(v) => v,
                    Result::Err(e) => {
                        proof {
                            crate::model::lemma_fields_layout_error(
                                fm,
                                j as int + 1,
                                fm.len() as int,
                                start as int,
                                tracker@,
                            );
                            crate::model::lemma_graph_layout_error(
                                sectors@,
                                i as int + 1,
                                sectors@.len() as int,
                            );
                        }
                        return Err(e);
                    },
                };
                offset = match offset.checked_add(size) {
                    Option::Some(v) => v,
                    Option::None => {
                        proof {
                            crate::model::lemma_fields_layout_error(
                                fm,
                                j as int + 1,
                                fm.len() as int,
                                start as int,
                                tracker@,
                            );
                            crate::model::lemma_graph_layout_error(
                                sectors@,
                                i as int + 1,
                                sectors@.len() as int,
                            );
                        }
                        return Err(SerialError::SizeOverflow);
                    },
                };
                j += 1;
            }
            let key = sectors.sectors[i].0.clone();
            proof {
                assert(vstd::pervasive::cloned(sectors@[i as int].0, key));
            }
            let ghost pre_entries = tracker.spec_entries();
            tracker.entries.push((key, start));
            proof {
                assert(tracker.spec_entries().drop_last() =~= pre_entries);
                assert forall|k: int|
                    0 <= k < i + 1 implies (#[trigger] tracker.spec_entries()[k]).1 as int
                    == layout_end(sectors@, k) by {
                    if k < i as int {
                        assert(tracker.spec_entries()[k] == pre_entries[k]);
                    } else {
                        assert(tracker.spec_entries()[k] == (key, start));
                    }
                }
                assert forall|x: int, y: int|
                    0 <= x < y < tracker.spec_entries().len() implies (
                tracker.spec_entries()[x]).0 != (tracker.spec_entries()[y]).0 by {
                    if y < i as int {
                        assert(pre_entries[x].0 != pre_entries[y].0);
                    } else {
                        assert(sectors@[x].0 != sectors@[i as int].0);
                    }
                }
            }
            i += 1;
        }
        Ok(tracker)
    }

    /// The absolute start offset of the given sector, or a missing-sector
    /// failure.
    #[verifier::loop_isolation(false)]
    pub fn offset_from_origin(&self, origin_sector: &S) -> (r: Result<usize, SerialError<S>>)
        requires
            key_model::<S>(),
            self.wf(),
        ensures
            match r {
                Result::Ok(offset) => self@.contains_key(*origin_sector) && offset as int
                    == self@[*origin_sector],
                Result::Err(e) => !self@.contains_key(*origin_sector) && e@
                    == ErrorModel::<S>::MissingSector(*origin_sector),
            },
    {
        let n = self.entries.len();
        let mut i: usize = 0;
        while i < n
            invariant
                key_model::<S>(),
                self.wf(),
                n == self.spec_entries().len(),
                0 <= i <= n,
                forall|j: int| 0 <= j < i ==> self.spec_entries()[j].0 != *origin_sector,
            decreases n - i,
        {
            if self.entries[i].0 == *origin_sector {
                proof {
                    lemma_pairs_map_index(self.spec_entries(), i as int);
                }
                return Ok(self.entries[i].1);
            }
            i += 1;
        }
        proof {
            lemma_pairs_map_absent(self.spec_entries(), *origin_sector);
        }
        let key = origin_sector.clone();
        proof {
            assert(vstd::pervasive::cloned(*origin_sector, key));
        }
        Err(SerialError::MissingSector(key))
    }

    /// The byte distance from the start of `from_sector` to the start of
    /// field `to_index` inside `to_sector`: the distance between the two
    /// sector starts plus the sizes of the target's fields before the index,
    /// accumulated with the running offset. The index may be zero even for
    /// an empty sector; otherwise it must be below the field count, and the
    /// target must not start before the origin.
    #[verifier::loop_isolation(false)]
    #[verifier::spinoff_prover]
    #[verifier::rlimit(60)]
    pub fn offset_field_from_sector(
        &self,
        from_sector: &S,
        to_sector: &S,
        to_index: usize,
        sectors: &SerialBuilder<S>,
        tracker: &SerialTracker<S>,
    ) -> (r: Result<usize, SerialError<S>>)
        requires
            key_model::<S>(),
            self.wf(),
            tracker.wf(),
            sectors.wf(),
        ensures
            match r {
                Result::Ok(v) => graph_field_offset(
                    self@,
                    *from_sector,
                    *to_sector,
                    to_index,
                    sectors@,
                    tracker@,
                ) == Ok::<int, ErrorModel<S>>(v as int),
                Result::Err(e) => graph_field_offset(
                    self@,
                    *from_sector,
                    *to_sector,
                    to_index,
                    sectors@,
                    tracker@,
                ) == Err::<int, ErrorModel<S>>(e@),
            },
    {
        let from_offset = match self.offset_from_origin(from_sector) {
            Result::Ok(v) => v,
            Result::Err(e) => {
                return Err(e);
            },
        };
        let to_offset = match self.offset_from_origin(to_sector) {
            Result::Ok(v) => v,
            Result::Err(e) => {
                return Err(e);
            },
        };
        if to_offset < from_offset {
            return Err(
                SerialError::OrderingViolation {
                    origin_start: from_offset,
                    target_start: to_offset,
                },
            );
        }
        let start = to_offset - from_offset;

        // Locate the target sector's fields.
        let n = sectors.sectors.len();
        let mut si: usize = 0;
        loop
            invariant
                key_model::<S>(),
                sectors.wf(),
                n == sectors@.len(),
                0 <= si <= n,
                forall|j: int| 0 <= j < si ==> sectors@[j].0 != *to_sector,
            decreases n - si,
        {
            if si == n {
                proof {
                    lemma_graph_index_of_absent(sectors@, *to_sector);
                }
                let key = to_sector.clone();
                proof {
                    assert(vstd::pervasive::cloned(*to_sector, key));
                }
                return Err(SerialError::MissingSector(key));
            }
            if sectors.sectors[si].0 == *to_sector {
                break ;
            }
            si += 1;
        }
        proof {
            lemma_graph_index_of_unique(sectors@, si as int);
        }
        let fields = &sectors.sectors[si].1;
        let ghost fm = sectors@[si as int].1;
        let len = fields.fields.len();
        if len <= to_index && to_index != 0 {
            return Err(SerialError::IndexOutOfRange { length: len, index: to_index });
        }

        // Sum the sizes of the fields before the index, at their running
        // offsets.
        let mut offset = start;
        let mut j: usize = 0;
        while j < to_index
            invariant
                key_model::<S>(),
                tracker.wf(),
                sectors.wf(),
                0 <= j <= to_index,
                to_index == 0 || to_index < len,
                len == fm.len(),
                fm == sectors@[si as int].1,
                0 <= si < sectors@.len(),
                fm == fields@,
                fields_layout(fm, j as int, start as int, tracker@) == Ok::<int, ErrorModel<S>>(
                    offset as int,
                ),
            decreases to_index - j,
        {
            let size = match fields.fields[j].calculate_size(offset, tracker) {
                Result::Ok(v) => v,
                Result::Err(e) => {
                    proof {
                        crate::model::lemma_fields_layout_error(
                            fm,
                            j as int + 1,
                            to_index as int,
                            start as int,
                            tracker@,
                        );
                    }
                    return Err(e);
                },
            };
            offset = match offset.checked_add(size) {
                Option::Some(v) => v,
                Option::None => {
                    proof {
                        crate::model::lemma_fields_layout_error(
                            fm,
                            j as int + 1,
                            to_index as int,
                            start as int,
                            tracker@,
                        );
                    }
                    return Err(SerialError::SizeOverflow);
                },
            };
            j += 1;
        }
        Ok(offset)
    }
}

} // verus!
