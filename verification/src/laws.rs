//! The laws of the two-pass layout, proved over the model: the sizing pass
//! predicts exactly how many bytes emission produces, every field lands at
//! its computed offset, a plain pointer resolves to its target's offset, and
//! a fill advances the write position exactly to its target.

use vstd::prelude::*;

use crate::encode::{le_int, lemma_le_int_of_le_bytes};
use crate::error::ErrorModel;
use crate::model::{
    build_model, field_emit, field_position, field_size, fields_emit, fields_end, fields_layout,
    fields_layout_ok, graph_emit, graph_field_offset, graph_fields, layout_end, layout_ok,
    layout_starts, lemma_fields_emit_error, lemma_fields_emit_prefix, lemma_fields_layout_error,
    lemma_fields_layout_monotone, lemma_graph_emit_error, lemma_graph_emit_prefix,
    lemma_layout_prefix_ok, lemma_layout_starts_agree,
    lemma_layout_starts_entries, starts_agree, unique_keys, width_limit, FieldModel, GraphModel,
};
use crate::rounding::{spec_apply, Rounding};

verus! {

broadcast use crate::encode::lemma_le_bytes_len;

/// One field's emitted bytes occupy exactly the size the sizing pass gave
/// it, whichever of the two start maps each pass consulted.
proof fn lemma_field_emit_len<S>(
    f: FieldModel<S>,
    position: int,
    size_starts: Map<S, int>,
    emit_starts: Map<S, int>,
    sectors: GraphModel<S>,
    externals: Seq<(Seq<char>, Seq<u8>)>,
)
    requires
        starts_agree(size_starts, emit_starts),
        field_size(f, position, size_starts) is Ok,
        field_emit(f, position, emit_starts, sectors, externals) is Ok,
    ensures
        field_emit(f, position, emit_starts, sectors, externals) matches Ok(b) && (field_size(
            f,
            position,
            size_starts,
        ) matches Ok(sz) && b.len() == sz),
{
    match f {
        FieldModel::Fill { origin, fill } => {
            assert(size_starts.contains_key(origin));
            assert(emit_starts[origin] == size_starts[origin]);
        },
        _ => {},
    }
}

/// The bytes of a sector's first `n` fields span exactly from the sector's
/// start offset to the offset the sizing pass computed after them.
proof fn lemma_fields_emit_len<S>(
    fields: Seq<FieldModel<S>>,
    n: int,
    start: int,
    size_starts: Map<S, int>,
    emit_starts: Map<S, int>,
    sectors: GraphModel<S>,
    externals: Seq<(Seq<char>, Seq<u8>)>,
)
    requires
        starts_agree(size_starts, emit_starts),
        0 <= n,
        fields_layout_ok(fields, n, start, size_starts),
        fields_emit(fields, n, start, emit_starts, sectors, externals) is Ok,
    ensures
        fields_emit(fields, n, start, emit_starts, sectors, externals) matches Ok(b) && start
            + b.len() == fields_end(fields, n, start, size_starts),
    decreases n,
{
    if n > 0 {
        if fields_layout(fields, n - 1, start, size_starts) is Err {
            lemma_fields_layout_error(fields, n - 1, n, start, size_starts);
            assert(false);
        }
        if fields_emit(fields, n - 1, start, emit_starts, sectors, externals) is Err {
            lemma_fields_emit_error(fields, n - 1, n, start, emit_starts, sectors, externals);
            assert(false);
        }
        lemma_fields_emit_len(fields, n - 1, start, size_starts, emit_starts, sectors, externals);
        lemma_field_emit_len(
            fields[n - 1],
            fields_end(fields, n - 1, start, size_starts),
            size_starts,
            emit_starts,
            sectors,
            externals,
        );
    }
}

/// The bytes of the first `n` sectors span exactly from offset zero to the
/// end offset the sizing pass computed after them.
proof fn lemma_graph_emit_len<S>(sectors: GraphModel<S>, n: int, externals: Seq<(Seq<char>, Seq<u8>)>)
    requires
        unique_keys(sectors),
        0 <= n <= sectors.len(),
        layout_ok(sectors, sectors.len() as int),
        graph_emit(sectors, n, layout_starts(sectors, sectors.len() as int), externals) is Ok,
    ensures
        graph_emit(sectors, n, layout_starts(sectors, sectors.len() as int), externals) matches Ok(
            b,
        ) && b.len() == layout_end(sectors, n),
    decreases n,
{
    let full = layout_starts(sectors, sectors.len() as int);
    if n > 0 {
        if graph_emit(sectors, n - 1, full, externals) is Err {
            lemma_graph_emit_error(sectors, n - 1, n, full, externals);
            assert(false);
        }
        lemma_graph_emit_len(sectors, n - 1, externals);
        lemma_layout_prefix_ok(sectors, sectors.len() as int);
        assert(layout_ok(sectors, n - 1));
        assert(layout_ok(sectors, n));
        assert(fields_layout(
            sectors[n - 1].1,
            sectors[n - 1].1.len() as int,
            layout_end(sectors, n - 1),
            layout_starts(sectors, n - 1),
        ) is Ok);
        lemma_layout_starts_agree(sectors, n - 1, sectors.len() as int);
        lemma_fields_emit_len(
            sectors[n - 1].1,
            sectors[n - 1].1.len() as int,
            layout_end(sectors, n - 1),
            layout_starts(sectors, n - 1),
            full,
            sectors,
            externals,
        );
    }
}

/// Size equals emit: over every buildable sector graph, the sum of all field
/// sizes — the sizing pass's final offset — equals the number of bytes a
/// successful build writes.
pub proof fn lemma_size_equals_emit<S>(
    sectors: GraphModel<S>,
    externals: Seq<(Seq<char>, Seq<u8>)>,
    out: Seq<u8>,
)
    requires
        unique_keys(sectors),
        build_model(sectors, externals) == Ok::<Seq<u8>, ErrorModel<S>>(out),
    ensures
        layout_ok(sectors, sectors.len() as int),
        out.len() == layout_end(sectors, sectors.len() as int),
{
    lemma_graph_emit_len(sectors, sectors.len() as int, externals);
}

/// The emitted position of a field equals the offset the sizing pass
/// computed for it.
proof fn lemma_field_position_is_layout<S>(
    sectors: GraphModel<S>,
    externals: Seq<(Seq<char>, Seq<u8>)>,
    i: int,
    j: int,
)
    requires
        unique_keys(sectors),
        layout_ok(sectors, sectors.len() as int),
        graph_emit(sectors, sectors.len() as int, layout_starts(sectors, sectors.len() as int), externals) is Ok,
        0 <= i < sectors.len(),
        0 <= j <= sectors[i].1.len(),
    ensures
        field_position(sectors, externals, i, j) == fields_end(
            sectors[i].1,
            j,
            layout_end(sectors, i),
            layout_starts(sectors, i),
        ),
{
    let n = sectors.len() as int;
    let full = layout_starts(sectors, n);
    lemma_layout_prefix_ok(sectors, n);
    assert(layout_ok(sectors, i));
    assert(layout_ok(sectors, i + 1));
    lemma_layout_starts_agree(sectors, i, n);
    lemma_graph_emit_prefix(sectors, i + 1, n, full, externals);
    lemma_graph_emit_prefix(sectors, i, i + 1, full, externals);
    lemma_graph_emit_len(sectors, i, externals);
    let pre = match graph_emit(sectors, i, full, externals) {
        Result::Ok(b) => b,
        Result::Err(_) => Seq::empty(),
    };
    assert(fields_layout(
        sectors[i].1,
        sectors[i].1.len() as int,
        layout_end(sectors, i),
        layout_starts(sectors, i),
    ) is Ok);
    assert(fields_emit(sectors[i].1, sectors[i].1.len() as int, pre.len() as int, full, sectors, externals)
        is Ok);
    if fields_emit(sectors[i].1, j, pre.len() as int, full, sectors, externals) is Err {
        lemma_fields_emit_error(
            sectors[i].1,
            j,
            sectors[i].1.len() as int,
            pre.len() as int,
            full,
            sectors,
            externals,
        );
        assert(false);
    }
    lemma_fields_layout_monotone(
        sectors[i].1,
        sectors[i].1.len() as int,
        layout_end(sectors, i),
        layout_starts(sectors, i),
    );
    lemma_fields_emit_len(
        sectors[i].1,
        j,
        layout_end(sectors, i),
        layout_starts(sectors, i),
        full,
        sectors,
        externals,
    );
}

/// Offset stability: in a successful build, field `j` of sector `i` is
/// written at the byte offset the tracker gives for the sector plus the
/// sizes of the fields before it, as the sizing pass computed them.
pub proof fn lemma_offset_stability<S>(
    sectors: GraphModel<S>,
    externals: Seq<(Seq<char>, Seq<u8>)>,
    out: Seq<u8>,
    i: int,
    j: int,
)
    requires
        unique_keys(sectors),
        build_model(sectors, externals) == Ok::<Seq<u8>, ErrorModel<S>>(out),
        0 <= i < sectors.len(),
        0 <= j <= sectors[i].1.len(),
    ensures
        layout_starts(sectors, sectors.len() as int).contains_key(sectors[i].0),
        layout_starts(sectors, sectors.len() as int)[sectors[i].0] == layout_end(sectors, i),
        field_position(sectors, externals, i, j) == fields_end(
            sectors[i].1,
            j,
            layout_end(sectors, i),
            layout_starts(sectors, i),
        ),
{
    let n = sectors.len() as int;
    lemma_layout_starts_entries(sectors, n);
    lemma_field_position_is_layout(sectors, externals, i, j);
}

/// The fill law: after a fill toward offset `fill` from `origin`, the next
/// byte is written exactly at the origin's start plus `fill`.
pub proof fn lemma_fill_advances_to_target<S>(
    sectors: GraphModel<S>,
    externals: Seq<(Seq<char>, Seq<u8>)>,
    out: Seq<u8>,
    i: int,
    j: int,
    origin: S,
    fill: usize,
)
    requires
        unique_keys(sectors),
        build_model(sectors, externals) == Ok::<Seq<u8>, ErrorModel<S>>(out),
        0 <= i < sectors.len(),
        0 <= j < sectors[i].1.len(),
        sectors[i].1[j] == (FieldModel::Fill { origin, fill }),
    ensures
        layout_starts(sectors, sectors.len() as int).contains_key(origin),
        field_position(sectors, externals, i, j + 1) == layout_starts(
            sectors,
            sectors.len() as int,
        )[origin] + fill,
{
    let n = sectors.len() as int;
    let full = layout_starts(sectors, n);
    lemma_graph_emit_prefix(sectors, i, n, full, externals);
    lemma_graph_emit_prefix(sectors, i + 1, n, full, externals);
    let pre = match graph_emit(sectors, i, full, externals) {
        Result::Ok(b) => b,
        Result::Err(_) => Seq::empty(),
    };
    if fields_emit(sectors[i].1, j + 1, pre.len() as int, full, sectors, externals) is Err {
        lemma_fields_emit_error(
            sectors[i].1,
            j + 1,
            sectors[i].1.len() as int,
            pre.len() as int,
            full,
            sectors,
            externals,
        );
        assert(false);
    }
}

/// The pointer law: a pointer with scale one and floor rounding, in a
/// successful build, is written as the little-endian byte offset from its
/// origin sector's start to the start of the indexed field in its target
/// sector — the value `graph_field_offset` gives.
#[verifier::spinoff_prover]
#[verifier::rlimit(60)]
pub proof fn lemma_pointer_resolves<S>(
    sectors: GraphModel<S>,
    externals: Seq<(Seq<char>, Seq<u8>)>,
    out: Seq<u8>,
    i: int,
    j: int,
    origin: S,
    target: S,
    index: usize,
    width: usize,
)
    requires
        unique_keys(sectors),
        build_model(sectors, externals) == Ok::<Seq<u8>, ErrorModel<S>>(out),
        0 <= i < sectors.len(),
        0 <= j < sectors[i].1.len(),
        sectors[i].1[j] == (FieldModel::Dynamic {
            origin,
            sector: target,
            index,
            scale: 1,
            rounding: Rounding::Floor,
            bytes: width,
        }),
    ensures
        ({
            let starts = layout_starts(sectors, sectors.len() as int);
            let pos = field_position(sectors, externals, i, j);
            graph_field_offset(starts, origin, target, index, sectors, starts) matches Ok(raw)
                && le_int(out.subrange(pos, pos + width)) == raw
        }),
{
    let n = sectors.len() as int;
    let full = layout_starts(sectors, n);
    let fields = sectors[i].1;
    lemma_graph_emit_prefix(sectors, i, n, full, externals);
    lemma_graph_emit_prefix(sectors, i + 1, n, full, externals);
    let pre = match graph_emit(sectors, i, full, externals) {
        Result::Ok(b) => b,
        Result::Err(_) => Seq::empty(),
    };
    let whole = match fields_emit(
        fields,
        fields.len() as int,
        pre.len() as int,
        full,
        sectors,
        externals,
    ) {
        Result::Ok(b) => b,
        Result::Err(_) => Seq::empty(),
    };
    if fields_emit(fields, j + 1, pre.len() as int, full, sectors, externals) is Err {
        lemma_fields_emit_error(
            fields,
            j + 1,
            fields.len() as int,
            pre.len() as int,
            full,
            sectors,
            externals,
        );
        assert(false);
    }
    lemma_fields_emit_prefix(
        fields,
        j + 1,
        fields.len() as int,
        pre.len() as int,
        full,
        sectors,
        externals,
    );
    let seg = match fields_emit(fields, j, pre.len() as int, full, sectors, externals) {
        Result::Ok(b) => b,
        Result::Err(_) => Seq::empty(),
    };
    let seg1 = match fields_emit(fields, j + 1, pre.len() as int, full, sectors, externals) {
        Result::Ok(b) => b,
        Result::Err(_) => Seq::empty(),
    };
    let position = pre.len() + seg.len();
    let fb = match field_emit(fields[j], position as int, full, sectors, externals) {
        Result::Ok(b) => b,
        Result::Err(_) => Seq::empty(),
    };
    assert(seg1 == seg + fb);
    let raw = match graph_field_offset(full, origin, target, index, sectors, full) {
        Result::Ok(v) => v,
        Result::Err(_) => 0,
    };
    let scaled = spec_apply(Rounding::Floor, raw, 1);
    assert(scaled == raw) by {
        vstd::arithmetic::div_mod::lemma_div_basics(raw);
    }
    assert(fb == crate::encode::le_bytes(raw, width as nat));
    assert(0 <= raw <= width_limit(width)) by {
        assert(fields_layout(
            graph_fields(sectors, target),
            index as int,
            full[target] - full[origin],
            full,
        ) == Ok::<int, ErrorModel<S>>(raw)) by {
            assert(graph_field_offset(full, origin, target, index, sectors, full) == Ok::<
                int,
                ErrorModel<S>,
            >(raw));
        }
        lemma_fields_layout_monotone(
            graph_fields(sectors, target),
            index as int,
            full[target] - full[origin],
            full,
        );
    }
    lemma_le_int_of_le_bytes(raw, width as nat);
    // The pointer's bytes sit inside the whole output at its position.
    let pos = field_position(sectors, externals, i, j);
    assert(pos == position);
    let pre1 = match graph_emit(sectors, i + 1, full, externals) {
        Result::Ok(b) => b,
        Result::Err(_) => Seq::empty(),
    };
    assert(pre1 == pre + whole);
    assert(seg1 == whole.take(seg1.len() as int));
    assert(out.subrange(pos, pos + width) =~= fb) by {
        assert(pre1 == out.take(pre1.len() as int));
        assert forall|k: int| 0 <= k < width implies out[pos + k] == fb[k] by {
            assert(pos + k < pre1.len());
            assert(out[pos + k] == pre1[pos + k]);
            assert(pre1[pos + k] == whole[seg.len() + k]);
            assert(whole[seg.len() + k] == seg1[seg.len() + k]);
            assert(seg1[seg.len() + k] == fb[k]);
        }
    }
}

} // verus!
