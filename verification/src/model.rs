//! The mathematical model of the two-pass layout. Every executable contract
//! in the crate is stated against the functions here: first a sizing pass
//! derives each sector's absolute start offset from field sizes alone, then
//! an emission pass produces the bytes with resolved pointer values.

use vstd::prelude::*;

use crate::encode::{le_bytes, pow256};
use crate::error::ErrorModel;
use crate::rounding::{spec_apply, Rounding};

verus! {

/// The abstract value of one field: the exact data a field contributes to
/// the layout, with byte payloads as sequences.
pub ghost enum FieldModel<S> {
    /// A pointer: the byte offset from `origin`'s start to the start of
    /// field `index` inside `sector`, divided by `scale` with `rounding`,
    /// written in `bytes` little-endian bytes.
    Dynamic { origin: S, sector: S, index: usize, scale: usize, rounding: Rounding, bytes: usize },
    /// A blob whose data arrives at emission; `size` is trusted during
    /// sizing and checked at emission.
    External { path: Seq<char>, size: usize },
    U8(u8),
    U16(u16),
    U24(int),
    U32(u32),
    U64(u64),
    /// UTF-8 bytes followed by one null byte.
    String(Seq<u8>),
    /// Raw opaque bytes.
    Bytes(Seq<u8>),
    /// Zero padding from the current position out to offset `fill` from
    /// `origin`'s start.
    Fill { origin: S, fill: usize },
}

/// An entire sector graph: sector keys with their fields, in insertion
/// order.
pub type GraphModel<S> = Seq<(S, Seq<FieldModel<S>>)>;

/// A field is sound when its scale cannot divide by zero.
pub open spec fn field_wf<S>(f: FieldModel<S>) -> bool {
    match f {
        FieldModel::Dynamic { scale, .. } => scale >= 1,
        _ => true,
    }
}

/// The size in bytes of one field placed at absolute offset `offset`, given
/// the start offsets in `starts`. Only a fill can fail: its origin must be
/// known and must not lie past the write position, and the fill target must
/// not already be passed. A string of the largest representable length
/// cannot hold its null terminator.
pub open spec fn field_size<S>(f: FieldModel<S>, offset: int, starts: Map<S, int>) -> Result<
    int,
    ErrorModel<S>,
> {
    match f {
        FieldModel::Dynamic { bytes, .. } => Ok(bytes as int),
        FieldModel::External { size, .. } => Ok(size as int),
        FieldModel::U8(_) => Ok(1),
        FieldModel::U16(_) => Ok(2),
        FieldModel::U24(_) => Ok(3),
        FieldModel::U32(_) => Ok(4),
        FieldModel::U64(_) => Ok(8),
        FieldModel::String(b) => if b.len() + 1 <= usize::MAX {
            Ok(b.len() as int + 1)
        } else {
            Err(ErrorModel::SizeOverflow)
        },
        FieldModel::Bytes(b) => Ok(b.len() as int),
        FieldModel::Fill { origin, fill } => if !starts.contains_key(origin) {
            Err(ErrorModel::MissingSector(origin))
        } else if offset < starts[origin] {
            Err(
                ErrorModel::LayoutUnderflow {
                    position: offset as usize,
                    origin_start: starts[origin] as usize,
                },
            )
        } else if offset - starts[origin] > fill {
            Err(
                ErrorModel::LayoutOverflow {
                    value: (offset - starts[origin]) as usize,
                    limit: fill,
                },
            )
        } else {
            Ok(starts[origin] + fill - offset)
        },
    }
}

/// The absolute offset after the first `n` fields of a sector that starts at
/// `start`: each field's size is taken at the running offset, and the
/// running offset must stay addressable.
pub open spec fn fields_layout<S>(
    fields: Seq<FieldModel<S>>,
    n: int,
    start: int,
    starts: Map<S, int>,
) -> Result<int, ErrorModel<S>>
    decreases n,
{
    if n <= 0 {
        Ok(start)
    } else {
        match fields_layout(fields, n - 1, start, starts) {
            Result::Err(e) => Err(e),
            Result::Ok(offset) => match field_size(fields[n - 1], offset, starts) {
                Result::Err(e) => Err(e),
                Result::Ok(size) => if offset + size > usize::MAX {
                    Err(ErrorModel::SizeOverflow)
                } else {
                    Ok(offset + size)
                },
            },
        }
    }
}

/// A sizing failure among the first `m` fields is the result for any longer
/// prefix as well.
pub proof fn lemma_fields_layout_error<S>(
    fields: Seq<FieldModel<S>>,
    m: int,
    n: int,
    start: int,
    starts: Map<S, int>,
)
    requires
        0 <= m <= n,
        fields_layout(fields, m, start, starts) is Err,
    ensures
        fields_layout(fields, n, start, starts) == fields_layout(fields, m, start, starts),
    decreases n,
{
    if n > m {
        lemma_fields_layout_error(fields, m, n - 1, start, starts);
    }
}

/// The sizing pass over the first `n` sectors: the start offsets recorded so
/// far and the running end offset. A sector's own key is recorded only after
/// its fields are sized, so a fill can only reference an earlier sector.
pub open spec fn graph_layout<S>(sectors: GraphModel<S>, n: int) -> Result<
    (Map<S, int>, int),
    ErrorModel<S>,
>
    decreases n,
{
    if n <= 0 {
        Ok((Map::empty(), 0))
    } else {
        match graph_layout(sectors, n - 1) {
            Result::Err(e) => Err(e),
            Result::Ok((starts, offset)) => match fields_layout(
                sectors[n - 1].1,
                sectors[n - 1].1.len() as int,
                offset,
                starts,
            ) {
                Result::Err(e) => Err(e),
                Result::Ok(end) => Ok((starts.insert(sectors[n - 1].0, offset), end)),
            },
        }
    }
}

/// Whether the keys of an association sequence are pairwise distinct.
pub open spec fn unique_keys<S, T>(entries: Seq<(S, T)>) -> bool {
    forall|i: int, j: int| 0 <= i < j < entries.len() ==> entries[i].0 != entries[j].0
}

/// Whether the sizing pass succeeds over the first `n` sectors.
pub open spec fn layout_ok<S>(sectors: GraphModel<S>, n: int) -> bool {
    graph_layout(sectors, n) is Ok
}

/// The start offsets recorded by a successful sizing pass over the first `n`
/// sectors.
pub open spec fn layout_starts<S>(sectors: GraphModel<S>, n: int) -> Map<S, int> {
    match graph_layout(sectors, n) {
        Result::Ok(p) => p.0,
        Result::Err(_) => Map::empty(),
    }
}

/// The running end offset of a successful sizing pass over the first `n`
/// sectors; equally, the start offset of sector `n`.
pub open spec fn layout_end<S>(sectors: GraphModel<S>, n: int) -> int {
    match graph_layout(sectors, n) {
        Result::Ok(p) => p.1,
        Result::Err(_) => 0,
    }
}

/// Whether sizing succeeds over the first `n` fields of a sector.
pub open spec fn fields_layout_ok<S>(
    fields: Seq<FieldModel<S>>,
    n: int,
    start: int,
    starts: Map<S, int>,
) -> bool {
    fields_layout(fields, n, start, starts) is Ok
}

/// The absolute offset after the first `n` fields of a sector, when sizing
/// succeeds.
pub open spec fn fields_end<S>(
    fields: Seq<FieldModel<S>>,
    n: int,
    start: int,
    starts: Map<S, int>,
) -> int {
    match fields_layout(fields, n, start, starts) {
        Result::Ok(end) => end,
        Result::Err(_) => 0,
    }
}

/// Every mapping of `a` also stands in `b`.
pub open spec fn starts_agree<S>(a: Map<S, int>, b: Map<S, int>) -> bool {
    forall|k: S| #[trigger] a.contains_key(k) ==> b.contains_key(k) && b[k] == a[k]
}

/// A fill sized against fewer sector starts keeps its size against more, and
/// every other field never reads them; offsets only grow along a sector.
pub proof fn lemma_fields_layout_agree<S>(
    fields: Seq<FieldModel<S>>,
    n: int,
    start: int,
    a: Map<S, int>,
    b: Map<S, int>,
)
    requires
        starts_agree(a, b),
        fields_layout_ok(fields, n, start, a),
        0 <= n,
    ensures
        fields_layout(fields, n, start, b) == fields_layout(fields, n, start, a),
    decreases n,
{
    if n > 0 {
        lemma_fields_layout_agree(fields, n - 1, start, a, b);
    }
}

/// Sizing only moves the offset forward.
pub proof fn lemma_fields_layout_monotone<S>(
    fields: Seq<FieldModel<S>>,
    n: int,
    start: int,
    starts: Map<S, int>,
)
    requires
        fields_layout_ok(fields, n, start, starts),
        0 <= n,
    ensures
        start <= fields_end(fields, n, start, starts),
        forall|m: int|
            0 <= m <= n ==> fields_layout_ok(fields, m, start, starts) && fields_end(
                fields,
                m,
                start,
                starts,
            ) <= fields_end(fields, n, start, starts),
    decreases n,
{
    if n > 0 {
        if fields_layout(fields, n - 1, start, starts) is Err {
            lemma_fields_layout_error(fields, n - 1, n, start, starts);
            assert(false);
        }
        lemma_fields_layout_monotone(fields, n - 1, start, starts);
        let prev = fields_end(fields, n - 1, start, starts);
        assert(field_size(fields[n - 1], prev, starts) matches Ok(v) && v >= 0);
        assert forall|m: int|
            0 <= m <= n implies fields_layout_ok(fields, m, start, starts) && fields_end(
            fields,
            m,
            start,
            starts,
        ) <= fields_end(fields, n, start, starts) by {
            if m < n {
                assert(fields_layout_ok(fields, m, start, starts));
                assert(fields_end(fields, m, start, starts) <= prev);
            }
        }
    }
}

/// A successful sizing pass succeeds on every shorter prefix, and its end
/// offsets only grow.
pub proof fn lemma_layout_prefix_ok<S>(sectors: GraphModel<S>, n: int)
    requires
        0 <= n <= sectors.len(),
        layout_ok(sectors, n),
    ensures
        forall|i: int| 0 <= i <= n ==> layout_ok(sectors, i),
        forall|i: int| 0 <= i <= n ==> layout_end(sectors, i) <= layout_end(sectors, n),
    decreases n,
{
    if n > 0 {
        if graph_layout(sectors, n - 1) is Err {
            lemma_graph_layout_error(sectors, n - 1, n);
            assert(false);
        }
        lemma_layout_prefix_ok(sectors, n - 1);
        let fields = sectors[n - 1].1;
        lemma_fields_layout_monotone(
            fields,
            fields.len() as int,
            layout_end(sectors, n - 1),
            layout_starts(sectors, n - 1),
        );
    }
}

/// A successful sizing pass records, for each sector seen, exactly its start
/// offset, and nothing else enters the map.
pub proof fn lemma_layout_starts_entries<S>(sectors: GraphModel<S>, n: int)
    requires
        unique_keys(sectors),
        0 <= n <= sectors.len(),
        layout_ok(sectors, n),
    ensures
        forall|i: int|
            0 <= i < n ==> layout_starts(sectors, n).contains_key(#[trigger] sectors[i].0)
                && layout_starts(sectors, n)[sectors[i].0] == layout_end(sectors, i),
        forall|k: S|
            layout_starts(sectors, n).contains_key(k) ==> exists|i: int|
                0 <= i < n && (#[trigger] sectors[i].0) == k,
    decreases n,
{
    if n > 0 {
        if graph_layout(sectors, n - 1) is Err {
            lemma_graph_layout_error(sectors, n - 1, n);
            assert(false);
        }
        lemma_layout_starts_entries(sectors, n - 1);
        assert forall|k: S| layout_starts(sectors, n).contains_key(k) implies exists|i: int|
            0 <= i < n && (#[trigger] sectors[i].0) == k by {
            if k == sectors[n - 1].0 {
                assert(0 <= n - 1 < n && sectors[n - 1].0 == k);
            } else {
                assert(layout_starts(sectors, n - 1).contains_key(k));
            }
        }
        assert forall|i: int|
            0 <= i < n implies layout_starts(sectors, n).contains_key(#[trigger] sectors[i].0)
            && layout_starts(sectors, n)[sectors[i].0] == layout_end(sectors, i) by {
            if i < n - 1 {
                assert(sectors[i].0 != sectors[n - 1].0);
            }
        }
    }
}

/// A key whose sector the sizing pass has not reached is not yet recorded.
pub proof fn lemma_layout_key_fresh<S>(sectors: GraphModel<S>, n: int, m: int)
    requires
        unique_keys(sectors),
        0 <= n <= m < sectors.len(),
        layout_ok(sectors, n),
    ensures
        !layout_starts(sectors, n).contains_key(sectors[m].0),
    decreases n,
{
    if n > 0 {
        if graph_layout(sectors, n - 1) is Err {
            lemma_graph_layout_error(sectors, n - 1, n);
            assert(false);
        }
        lemma_layout_key_fresh(sectors, n - 1, m);
        assert(sectors[n - 1].0 != sectors[m].0);
    }
}

/// The starts map of a shorter sizing pass agrees with a longer one: new
/// sectors only add keys.
pub proof fn lemma_layout_starts_agree<S>(sectors: GraphModel<S>, i: int, n: int)
    requires
        unique_keys(sectors),
        0 <= i <= n <= sectors.len(),
        layout_ok(sectors, n),
    ensures
        starts_agree(layout_starts(sectors, i), layout_starts(sectors, n)),
    decreases n,
{
    if i < n {
        if graph_layout(sectors, n - 1) is Err {
            lemma_graph_layout_error(sectors, n - 1, n);
            assert(false);
        }
        lemma_layout_starts_agree(sectors, i, n - 1);
        lemma_layout_key_fresh(sectors, n - 1, n - 1);
        assert forall|k: S|
            layout_starts(sectors, i).contains_key(k) implies layout_starts(
            sectors,
            n,
        ).contains_key(k) && layout_starts(sectors, n)[k] == layout_starts(sectors, i)[k] by {
            assert(layout_starts(sectors, n - 1).contains_key(k));
            assert(k != sectors[n - 1].0);
        }
    }
}

/// A sizing failure among the first `m` sectors is the result for any longer
/// prefix as well.
pub proof fn lemma_graph_layout_error<S>(sectors: GraphModel<S>, m: int, n: int)
    requires
        0 <= m <= n,
        graph_layout(sectors, m) is Err,
    ensures
        graph_layout(sectors, n) == graph_layout(sectors, m),
    decreases n,
{
    if n > m {
        lemma_graph_layout_error(sectors, m, n - 1);
    }
}

/// The position of the first entry with the given key, or `-1`.
pub open spec fn graph_index_of<S>(sectors: GraphModel<S>, key: S) -> int
    decreases sectors.len(),
{
    if sectors.len() == 0 {
        -1
    } else if sectors[0].0 == key {
        0
    } else {
        let r = graph_index_of(sectors.drop_first(), key);
        if r < 0 {
            -1
        } else {
            r + 1
        }
    }
}

pub open spec fn graph_contains<S>(sectors: GraphModel<S>, key: S) -> bool {
    graph_index_of(sectors, key) >= 0
}

/// The fields of the sector under the given key.
pub open spec fn graph_fields<S>(sectors: GraphModel<S>, key: S) -> Seq<FieldModel<S>>
    recommends
        graph_contains(sectors, key),
{
    sectors[graph_index_of(sectors, key)].1
}

/// The byte distance from the start of sector `from` to the start of field
/// `index` inside sector `to`: the distance between the sector starts plus
/// the sizes of the target's fields before `index`, accumulated with the
/// running offset starting at that distance. `index` may be `0` even for an
/// empty sector; otherwise it must be below the field count.
pub open spec fn graph_field_offset<S>(
    starts: Map<S, int>,
    from: S,
    to: S,
    index: usize,
    sectors: GraphModel<S>,
    fill_starts: Map<S, int>,
) -> Result<int, ErrorModel<S>> {
    if !starts.contains_key(from) {
        Err(ErrorModel::MissingSector(from))
    } else if !starts.contains_key(to) {
        Err(ErrorModel::MissingSector(to))
    } else if starts[to] < starts[from] {
        Err(
            ErrorModel::OrderingViolation {
                origin_start: starts[from] as usize,
                target_start: starts[to] as usize,
            },
        )
    } else if !graph_contains(sectors, to) {
        Err(ErrorModel::MissingSector(to))
    } else {
        let fields = graph_fields(sectors, to);
        if fields.len() <= index && index != 0 {
            Err(ErrorModel::IndexOutOfRange { length: fields.len() as usize, index })
        } else {
            fields_layout(fields, index as int, starts[to] - starts[from], fill_starts)
        }
    }
}

/// With pairwise-distinct keys, the entry at any index is the one its key
/// finds.
pub proof fn lemma_graph_index_of_unique<S>(sectors: GraphModel<S>, i: int)
    requires
        unique_keys(sectors),
        0 <= i < sectors.len(),
    ensures
        graph_index_of(sectors, sectors[i].0) == i,
    decreases sectors.len(),
{
    if i > 0 {
        assert(sectors[0].0 != sectors[i].0);
        assert(unique_keys(sectors.drop_first())) by {
            assert forall|x: int, y: int|
                0 <= x < y < sectors.drop_first().len() implies sectors.drop_first()[x].0
                != sectors.drop_first()[y].0 by {
                assert(sectors[x + 1].0 != sectors[y + 1].0);
            }
        }
        lemma_graph_index_of_unique(sectors.drop_first(), i - 1);
    }
}

/// A key that matches no entry is not found.
pub proof fn lemma_graph_index_of_absent<S>(sectors: GraphModel<S>, key: S)
    requires
        forall|i: int| 0 <= i < sectors.len() ==> sectors[i].0 != key,
    ensures
        graph_index_of(sectors, key) == -1,
    decreases sectors.len(),
{
    if sectors.len() > 0 {
        assert forall|i: int|
            0 <= i < sectors.drop_first().len() implies sectors.drop_first()[i].0 != key by {
            assert(sectors[i + 1].0 != key);
        }
        lemma_graph_index_of_absent(sectors.drop_first(), key);
    }
}

/// The largest value a little-endian encoding of `bytes` bytes can hold.
pub open spec fn width_limit(bytes: usize) -> int {
    pow256(bytes as nat) - 1
}

/// The first supplied data whose path matches.
pub open spec fn externals_find(
    externals: Seq<(Seq<char>, Seq<u8>)>,
    path: Seq<char>,
) -> Option<Seq<u8>>
    decreases externals.len(),
{
    if externals.len() == 0 {
        None
    } else if externals[0].0 == path {
        Some(externals[0].1)
    } else {
        externals_find(externals.drop_first(), path)
    }
}

/// A first match at position `i` is what the search returns.
pub proof fn lemma_externals_find_hit(
    externals: Seq<(Seq<char>, Seq<u8>)>,
    path: Seq<char>,
    i: int,
)
    requires
        0 <= i < externals.len(),
        externals[i].0 == path,
        forall|j: int| 0 <= j < i ==> externals[j].0 != path,
    ensures
        externals_find(externals, path) == Some(externals[i].1),
    decreases i,
{
    if i > 0 {
        assert forall|j: int|
            0 <= j < i - 1 implies externals.drop_first()[j].0 != path by {
            assert(externals[j + 1].0 != path);
        }
        lemma_externals_find_hit(externals.drop_first(), path, i - 1);
    }
}

/// A path that matches no entry is not found.
pub proof fn lemma_externals_find_miss(externals: Seq<(Seq<char>, Seq<u8>)>, path: Seq<char>)
    requires
        forall|i: int| 0 <= i < externals.len() ==> externals[i].0 != path,
    ensures
        externals_find(externals, path) is None,
    decreases externals.len(),
{
    if externals.len() > 0 {
        assert forall|i: int|
            0 <= i < externals.drop_first().len() implies externals.drop_first()[i].0 != path by {
            assert(externals[i + 1].0 != path);
        }
        lemma_externals_find_miss(externals.drop_first(), path);
    }
}

/// The bytes one field contributes when emitted at absolute `position`, with
/// the completed start offsets `starts` and the supplied external data.
pub open spec fn field_emit<S>(
    f: FieldModel<S>,
    position: int,
    starts: Map<S, int>,
    sectors: GraphModel<S>,
    externals: Seq<(Seq<char>, Seq<u8>)>,
) -> Result<Seq<u8>, ErrorModel<S>> {
    match f {
        FieldModel::U8(v) => Ok(le_bytes(v as int, 1)),
        FieldModel::U16(v) => Ok(le_bytes(v as int, 2)),
        FieldModel::U24(v) => Ok(le_bytes(v, 3)),
        FieldModel::U32(v) => Ok(le_bytes(v as int, 4)),
        FieldModel::U64(v) => Ok(le_bytes(v as int, 8)),
        FieldModel::String(b) => Ok(b + seq![0u8]),
        FieldModel::Bytes(b) => Ok(b),
        FieldModel::External { path, size } => match externals_find(externals, path) {
            Option::None => Err(ErrorModel::ExternalMissing { path }),
            Option::Some(data) => if data.len() != size {
                Err(
                    ErrorModel::ExternalMismatch {
                        path,
                        expected: size,
                        found: data.len() as usize,
                    },
                )
            } else {
                Ok(data)
            },
        },
        FieldModel::Dynamic { origin, sector, index, scale, rounding, bytes } => if !(1 <= bytes
            <= 4) {
            Err(ErrorModel::UnsupportedWidth { bytes })
        } else {
            match graph_field_offset(starts, origin, sector, index, sectors, starts) {
                Result::Err(e) => Err(e),
                Result::Ok(raw) => {
                    let scaled = spec_apply(rounding, raw, scale as int);
                    if scaled > width_limit(bytes) {
                        Err(
                            ErrorModel::LayoutOverflow {
                                value: raw as usize,
                                limit: width_limit(bytes) as usize,
                            },
                        )
                    } else {
                        Ok(le_bytes(scaled, bytes as nat))
                    }
                },
            }
        },
        FieldModel::Fill { .. } => match field_size(f, position, starts) {
            Result::Err(e) => Err(e),
            Result::Ok(n) => Ok(Seq::new(n as nat, |i| 0u8)),
        },
    }
}

/// The bytes the first `n` fields of one sector contribute, starting at
/// absolute `position`.
pub open spec fn fields_emit<S>(
    fields: Seq<FieldModel<S>>,
    n: int,
    position: int,
    starts: Map<S, int>,
    sectors: GraphModel<S>,
    externals: Seq<(Seq<char>, Seq<u8>)>,
) -> Result<Seq<u8>, ErrorModel<S>>
    decreases n,
{
    if n <= 0 {
        Ok(Seq::empty())
    } else {
        match fields_emit(fields, n - 1, position, starts, sectors, externals) {
            Result::Err(e) => Err(e),
            Result::Ok(bytes) => match field_emit(
                fields[n - 1],
                position + bytes.len(),
                starts,
                sectors,
                externals,
            ) {
                Result::Err(e) => Err(e),
                Result::Ok(b) => Ok(bytes + b),
            },
        }
    }
}

/// An emission failure among the first `m` fields is the result for any
/// longer prefix as well.
pub proof fn lemma_fields_emit_error<S>(
    fields: Seq<FieldModel<S>>,
    m: int,
    n: int,
    position: int,
    starts: Map<S, int>,
    sectors: GraphModel<S>,
    externals: Seq<(Seq<char>, Seq<u8>)>,
)
    requires
        0 <= m <= n,
        fields_emit(fields, m, position, starts, sectors, externals) is Err,
    ensures
        fields_emit(fields, n, position, starts, sectors, externals) == fields_emit(
            fields,
            m,
            position,
            starts,
            sectors,
            externals,
        ),
    decreases n,
{
    if n > m {
        lemma_fields_emit_error(fields, m, n - 1, position, starts, sectors, externals);
    }
}

/// The bytes the first `n` sectors contribute, emitted in insertion order
/// from position zero.
pub open spec fn graph_emit<S>(
    sectors: GraphModel<S>,
    n: int,
    starts: Map<S, int>,
    externals: Seq<(Seq<char>, Seq<u8>)>,
) -> Result<Seq<u8>, ErrorModel<S>>
    decreases n,
{
    if n <= 0 {
        Ok(Seq::empty())
    } else {
        match graph_emit(sectors, n - 1, starts, externals) {
            Result::Err(e) => Err(e),
            Result::Ok(bytes) => match fields_emit(
                sectors[n - 1].1,
                sectors[n - 1].1.len() as int,
                bytes.len() as int,
                starts,
                sectors,
                externals,
            ) {
                Result::Err(e) => Err(e),
                Result::Ok(b) => Ok(bytes + b),
            },
        }
    }
}

/// An emission failure among the first `m` sectors is the result for any
/// longer prefix as well.
pub proof fn lemma_graph_emit_error<S>(
    sectors: GraphModel<S>,
    m: int,
    n: int,
    starts: Map<S, int>,
    externals: Seq<(Seq<char>, Seq<u8>)>,
)
    requires
        0 <= m <= n,
        graph_emit(sectors, m, starts, externals) is Err,
    ensures
        graph_emit(sectors, n, starts, externals) == graph_emit(sectors, m, starts, externals),
    decreases n,
{
    if n > m {
        lemma_graph_emit_error(sectors, m, n - 1, starts, externals);
    }
}

/// Bytes of a shorter field prefix start off a longer one's.
pub proof fn lemma_fields_emit_prefix<S>(
    fields: Seq<FieldModel<S>>,
    m: int,
    n: int,
    position: int,
    starts: Map<S, int>,
    sectors: GraphModel<S>,
    externals: Seq<(Seq<char>, Seq<u8>)>,
)
    requires
        0 <= m <= n,
        fields_emit(fields, n, position, starts, sectors, externals) is Ok,
    ensures
        fields_emit(fields, m, position, starts, sectors, externals) matches Ok(bm) && (
        fields_emit(fields, n, position, starts, sectors, externals) matches Ok(b) && bm.len()
            <= b.len() && bm == b.take(bm.len() as int)),
    decreases n,
{
    if n == m {
        let b = match fields_emit(fields, n, position, starts, sectors, externals) {
            Result::Ok(b) => b,
            Result::Err(_) => Seq::empty(),
        };
        assert(b == b.take(b.len() as int));
    } else {
        if fields_emit(fields, n - 1, position, starts, sectors, externals) is Err {
            lemma_fields_emit_error(fields, n - 1, n, position, starts, sectors, externals);
            assert(false);
        }
        lemma_fields_emit_prefix(fields, m, n - 1, position, starts, sectors, externals);
        let bm = match fields_emit(fields, m, position, starts, sectors, externals) {
            Result::Ok(b) => b,
            Result::Err(_) => Seq::empty(),
        };
        let bp = match fields_emit(fields, n - 1, position, starts, sectors, externals) {
            Result::Ok(b) => b,
            Result::Err(_) => Seq::empty(),
        };
        let b = match fields_emit(fields, n, position, starts, sectors, externals) {
            Result::Ok(b) => b,
            Result::Err(_) => Seq::empty(),
        };
        assert(bm == bp.take(bm.len() as int));
        assert(bm == b.take(bm.len() as int)) by {
            assert(bm =~= b.take(bm.len() as int));
        }
    }
}

/// Bytes of a shorter sector prefix start off a longer one's.
pub proof fn lemma_graph_emit_prefix<S>(
    sectors: GraphModel<S>,
    m: int,
    n: int,
    starts: Map<S, int>,
    externals: Seq<(Seq<char>, Seq<u8>)>,
)
    requires
        0 <= m <= n,
        graph_emit(sectors, n, starts, externals) is Ok,
    ensures
        graph_emit(sectors, m, starts, externals) matches Ok(bm) && (graph_emit(
            sectors,
            n,
            starts,
            externals,
        ) matches Ok(b) && bm.len() <= b.len() && bm == b.take(bm.len() as int)),
    decreases n,
{
    if n == m {
        let b = match graph_emit(sectors, n, starts, externals) {
            Result::Ok(b) => b,
            Result::Err(_) => Seq::empty(),
        };
        assert(b == b.take(b.len() as int));
    } else {
        if graph_emit(sectors, n - 1, starts, externals) is Err {
            lemma_graph_emit_error(sectors, n - 1, n, starts, externals);
            assert(false);
        }
        lemma_graph_emit_prefix(sectors, m, n - 1, starts, externals);
        let bm = match graph_emit(sectors, m, starts, externals) {
            Result::Ok(b) => b,
            Result::Err(_) => Seq::empty(),
        };
        let bp = match graph_emit(sectors, n - 1, starts, externals) {
            Result::Ok(b) => b,
            Result::Err(_) => Seq::empty(),
        };
        let b = match graph_emit(sectors, n, starts, externals) {
            Result::Ok(b) => b,
            Result::Err(_) => Seq::empty(),
        };
        assert(bm == bp.take(bm.len() as int));
        assert(bm == b.take(bm.len() as int)) by {
            assert(bm =~= b.take(bm.len() as int));
        }
    }
}

/// The whole build: size every sector, then emit every field with the
/// completed start offsets.
pub open spec fn build_model<S>(
    sectors: GraphModel<S>,
    externals: Seq<(Seq<char>, Seq<u8>)>,
) -> Result<Seq<u8>, ErrorModel<S>> {
    match graph_layout(sectors, sectors.len() as int) {
        Result::Err(e) => Err(e),
        Result::Ok((starts, _end)) => graph_emit(sectors, sectors.len() as int, starts, externals),
    }
}

/// The absolute byte position at which field `j` of sector `i` is written in
/// a successful build: the length of all earlier sectors' bytes plus that of
/// the sector's earlier fields' bytes.
pub open spec fn field_position<S>(
    sectors: GraphModel<S>,
    externals: Seq<(Seq<char>, Seq<u8>)>,
    i: int,
    j: int,
) -> int {
    let starts = layout_starts(sectors, sectors.len() as int);
    match graph_emit(sectors, i, starts, externals) {
        Result::Ok(pre) => match fields_emit(
            sectors[i].1,
            j,
            pre.len() as int,
            starts,
            sectors,
            externals,
        ) {
            Result::Ok(seg) => pre.len() + seg.len() as int,
            Result::Err(_) => 0,
        },
        Result::Err(_) => 0,
    }
}

} // verus!
