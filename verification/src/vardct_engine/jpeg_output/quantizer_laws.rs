//! What the sources of quantization tables mean.

use crate::vardct_engine::jpeg::{JpegCoefficientLayout, LayoutView};
use crate::vardct_engine::jpeg_output::metadata::JpegReconstructionMetadata;
use crate::vardct_engine::jpeg_output::quantizers::{
    bind_sources, bound, components_bindings, markers_bindings,
    scan_bindings, source_base, Bindings,
};
use crate::vardct_engine::jpeg_output::segments::source_pairs;
use crate::vardct_engine::jpeg_output::table_laws::has_bit;
use crate::vardct_engine::jpeg_output::JpegReconstructionError;
use vstd::prelude::*;
use vstd::std_specs::bits::u32_trailing_zeros;

verus! {

/// Binding a channel sets its bit and no other.
proof fn lemma_bit_set(mask: u32, channel: u32, j: u32)
    requires
        channel < 32,
        j < 32,
    ensures
        has_bit(mask | (1u32 << channel), j) <==> has_bit(mask, j) || j == channel,
        !has_bit(0, j),
{
    assert(((mask | (1u32 << channel)) >> j) & 1 == 1 <==> (mask >> j) & 1 == 1 || j == channel)
        by (bit_vector)
        requires
            channel < 32,
            j < 32,
    ;
    assert((0u32 >> j) & 1 == 0) by (bit_vector);
}

/// Table `t` has bit `j` only for a component of that channel.
spec fn explained(layout: LayoutView, masks: Seq<u32>, t: int, j: u32) -> bool {
    has_bit(masks[t], j) ==> exists|i: int|
        0 <= i < layout.planes.len() && (#[trigger] layout.planes[i]).channel == j
}

/// What holds of the masks of bindings: every bit is that of a component, and every one of the first
/// `n` components has its bit in its declared table.
spec fn masks_good(
    header: &JpegReconstructionMetadata,
    layout: LayoutView,
    masks: Seq<u32>,
    n: int,
) -> bool {
    &&& masks.len() == header.quantization_tables@.len()
    &&& forall|t: int, j: u32|
        0 <= t < masks.len() && j < 32 ==> #[trigger] explained(layout, masks, t, j)
    &&& forall|i: int|
        0 <= i < n ==> {
            let component = #[trigger] header.components@[i];
            &&& component.quant < masks.len()
            &&& has_bit(masks[component.quant as int], layout.planes[i].channel as u32)
        }
}

/// One more channel keeps what holds of the masks.
proof fn lemma_bound_good(
    header: &JpegReconstructionMetadata,
    layout: LayoutView,
    bindings: Bindings,
    table: int,
    i: int,
    n: int,
)
    requires
        layout.wf(),
        header.components@.len() == layout.planes.len(),
        0 <= i < layout.planes.len(),
        0 <= table < bindings.masks.len(),
        0 <= n <= header.components@.len(),
        masks_good(header, layout, bindings.masks, n),
    ensures
        masks_good(header, layout, bound(bindings, layout, table, i).masks, n),
        has_bit(bound(bindings, layout, table, i).masks[table], layout.planes[i].channel as u32),
{
    assert(layout.plane_wf(i));
    let channel = layout.planes[i].channel as u32;
    let masks = bindings.masks;
    let after = bound(bindings, layout, table, i).masks;
    lemma_bit_set(masks[table], channel, channel);
    assert forall|t: int, j: u32| 0 <= t < after.len() && j < 32 implies #[trigger] explained(
        layout,
        after,
        t,
        j,
    ) by {
        lemma_bit_set(masks[table], channel, j);
        assert(explained(layout, masks, t, j));
        if t == table && j == channel {
            assert(layout.planes[i].channel == j);
        }
    }
    assert forall|k: int| 0 <= k < n implies ({
        let component = #[trigger] header.components@[k];
        &&& component.quant < after.len()
        &&& has_bit(after[component.quant as int], layout.planes[k].channel as u32)
    }) by {
        assert(layout.plane_wf(k));
        lemma_bit_set(masks[table], channel, layout.planes[k].channel as u32);
    }
}

/// Components are bound to their declared tables.
proof fn lemma_components_good(header: &JpegReconstructionMetadata, layout: LayoutView, n: int)
    requires
        layout.wf(),
        header.components@.len() == layout.planes.len(),
        0 <= n <= header.components@.len(),
        components_bindings(header, layout, n) is Ok,
    ensures
        masks_good(header, layout, components_bindings(header, layout, n)->Ok_0.masks, n),
    decreases n,
{
    if n > 0 {
        lemma_components_good(header, layout, n - 1);
        let before = components_bindings(header, layout, n - 1)->Ok_0;
        let table = header.components@[n - 1].quant as int;
        lemma_bound_good(header, layout, before, table, n - 1, n - 1);
    } else {
        let masks = components_bindings(header, layout, 0)->Ok_0.masks;
        assert forall|t: int, j: u32| 0 <= t < masks.len() && j < 32 implies #[trigger] explained(
            layout,
            masks,
            t,
            j,
        ) by {
            lemma_bit_set(0, 0, j);
        }
    }
}

/// A scan keeps what holds of the masks.
proof fn lemma_scan_good(
    header: &JpegReconstructionMetadata,
    layout: LayoutView,
    bindings: Bindings,
    n: int,
    all: int,
)
    requires
        layout.wf(),
        header.components@.len() == layout.planes.len() == all,
        0 <= n,
        masks_good(header, layout, bindings.masks, all),
        scan_bindings(header, layout, bindings, n) is Ok,
        forall|s: int|
            0 <= s < bindings.active.len() ==> (#[trigger] bindings.active[s] matches Some(t) ==> 0
                <= t < bindings.masks.len()),
        forall|i: int|
            0 <= i < header.quantization_tables@.len() ==> (
            #[trigger] header.quantization_tables@[i]).index < bindings.active.len(),
    ensures
        ({
            let after = scan_bindings(header, layout, bindings, n)->Ok_0;
            &&& masks_good(header, layout, after.masks, all)
            &&& after.active == bindings.active
        }),
    decreases n,
{
    if n > 0 {
        lemma_scan_good(header, layout, bindings, n - 1, all);
        let before = scan_bindings(header, layout, bindings, n - 1)->Ok_0;
        let i = header.scans@[bindings.scans].components@[n - 1].component as int;
        let quant = header.components@[i].quant as int;
        let declared = header.quantization_tables@[quant];
        let table = before.active[declared.index as int]->0;
        assert(bindings.active[declared.index as int] == Some(table));
        lemma_bound_good(header, layout, before, table, i, all);
    }
}

/// Tables in force are declared ones.
spec fn active_good(header: &JpegReconstructionMetadata, bindings: Bindings) -> bool {
    &&& bindings.active.len() == 4
    &&& 0 <= bindings.tables
    &&& forall|s: int|
        0 <= s < 4 ==> (#[trigger] bindings.active[s] matches Some(t) ==> 0 <= t
            < header.quantization_tables@.len())
}

/// Tables that come into force are declared ones.
proof fn lemma_activated_good(
    header: &JpegReconstructionMetadata,
    active: Seq<Option<int>>,
    from: int,
    to: int,
)
    requires
        header.declared(),
        0 <= from,
        to <= header.quantization_tables@.len(),
        active.len() == 4,
        forall|s: int|
            0 <= s < 4 ==> (#[trigger] active[s] matches Some(t) ==> 0 <= t
                < header.quantization_tables@.len()),
    ensures
        ({
            let after = crate::vardct_engine::jpeg_output::quantizers::activated(
                header.quantization_tables@,
                active,
                from,
                to,
            );
            &&& after.len() == 4
            &&& forall|s: int|
                0 <= s < 4 ==> (#[trigger] after[s] matches Some(t) ==> 0 <= t
                    < header.quantization_tables@.len())
        }),
    decreases to - from,
{
    if from < to {
        lemma_activated_good(header, active, from, to - 1);
        assert(crate::vardct_engine::jpeg_output::metadata::quantizer_declared(
            header.quantization_tables@[to - 1],
        ));
    }
}

/// Markers keep what holds of the masks.
proof fn lemma_markers_good(header: &JpegReconstructionMetadata, layout: LayoutView, n: int)
    requires
        header.declared(),
        layout.wf(),
        header.components@.len() == layout.planes.len(),
        0 <= n,
        markers_bindings(header, layout, n) is Ok,
    ensures
        ({
            let bindings = markers_bindings(header, layout, n)->Ok_0;
            &&& masks_good(header, layout, bindings.masks, header.components@.len() as int)
            &&& active_good(header, bindings)
        }),
    decreases n,
{
    let all = header.components@.len() as int;
    if n > 0 {
        lemma_markers_good(header, layout, n - 1);
        let before = markers_bindings(header, layout, n - 1)->Ok_0;
        let marker = header.markers@[n - 1];
        assert forall|i: int| 0 <= i < header.quantization_tables@.len() implies (
        #[trigger] header.quantization_tables@[i]).index < 4 by {
            assert(crate::vardct_engine::jpeg_output::metadata::quantizer_declared(
                header.quantization_tables@[i],
            ));
        }
        if marker == 0xda {
            let count = header.scans@[before.scans].components@.len() as int;
            assert(scan_bindings(header, layout, before, count) is Ok);
            lemma_scan_good(header, layout, before, count, all);
            lemma_scan_tables(header, layout, before, count);
        } else if marker == 0xdb {
            crate::vardct_engine::jpeg_output::framing_laws::lemma_quantizer_group(
                header.quantization_tables@,
                before.tables,
            );
            let end = crate::vardct_engine::jpeg_output::segments::quantizer_group_end(
                header.quantization_tables@,
                before.tables,
            )->0;
            lemma_activated_good(header, before.active, before.tables, end);
        }
    } else {
        lemma_components_good(header, layout, all);
        lemma_components_active(header, layout, all);
    }
}

/// A scan brings no table.
proof fn lemma_scan_tables(
    header: &JpegReconstructionMetadata,
    layout: LayoutView,
    bindings: Bindings,
    n: int,
)
    requires
        scan_bindings(header, layout, bindings, n) is Ok,
    ensures
        scan_bindings(header, layout, bindings, n)->Ok_0.tables == bindings.tables,
        scan_bindings(header, layout, bindings, n)->Ok_0.active == bindings.active,
    decreases n,
{
    if n > 0 {
        lemma_scan_tables(header, layout, bindings, n - 1);
    }
}

/// Before the first marker no table is in force.
proof fn lemma_components_active(header: &JpegReconstructionMetadata, layout: LayoutView, n: int)
    requires
        components_bindings(header, layout, n) is Ok,
    ensures
        active_good(header, components_bindings(header, layout, n)->Ok_0),
    decreases n,
{
    if n > 0 {
        lemma_components_active(header, layout, n - 1);
    }
}

/// The sources of the quantization tables. A table that channels use is filled from the quantizers of
/// the lowest of them, sixty-four words a channel; one that none uses from those of the table before
/// it, and the first one is used. Every component's channel uses its declared table, and no channel
/// uses a table that is not one of a component.
pub proof fn law_table_sources(
    room: Vec<[u32; 2]>,
    header: &JpegReconstructionMetadata,
    layout: &JpegCoefficientLayout,
    sources: Vec<[u32; 2]>,
    t: int,
    i: int,
    j: u32,
)
    requires
        room@.len() == 0,
        header.declared(),
        layout@.wf(),
        header.components@.len() == layout@.planes.len(),
        call_ensures(
            bind_sources,
            (room, header, layout),
            Ok::<Vec<[u32; 2]>, JpegReconstructionError>(sources),
        ),
        0 <= t < sources@.len(),
        0 <= i < header.components@.len(),
        j < 32,
    ensures
        sources@.len() == header.quantization_tables@.len(),
        ({
            let (base, mask) = (sources@[t]@[0], sources@[t]@[1]);
            &&& t == 0 ==> mask != 0
            &&& mask != 0 ==> {
                let lowest = (base / 64) as u32;
                &&& base % 64 == 0
                &&& lowest < 32
                &&& has_bit(mask, lowest)
                &&& j < lowest ==> !has_bit(mask, j)
            }
            &&& mask == 0 ==> t > 0 && base == sources@[t - 1]@[0]
            &&& has_bit(mask, j) ==> exists|k: int|
                0 <= k < layout@.planes.len() && (#[trigger] layout@.planes[k]).channel == j
        }),
        header.components@[i].quant < sources@.len(),
        has_bit(
            sources@[header.components@[i].quant as int]@[1],
            layout@.planes[i].channel as u32,
        ),
{
    let n = header.markers@.len() as int;
    let bindings = markers_bindings(header, layout@, n)->Ok_0;
    let masks = bindings.masks;
    lemma_markers_good(header, layout@, n);
    let pairs = source_pairs(sources@);
    assert(pairs[t] == (sources@[t][0], sources@[t][1]));
    assert(sources@[t]@[1] == masks[t]);
    vstd::std_specs::bits::axiom_u32_trailing_zeros(masks[t]);
    let quant = header.components@[i].quant as int;
    assert(pairs[quant] == (sources@[quant][0], sources@[quant][1]));
    assert(sources@[quant]@[1] == masks[quant]);
    assert(explained(layout@, masks, t, j));
    if masks[t] != 0 {
        let lowest = u32_trailing_zeros(masks[t]);
        assert(source_base(masks, t) == Some(lowest * 64));
    } else {
        assert(source_base(masks, t) == source_base(masks, t - 1));
        assert(pairs[t - 1] == (sources@[t - 1][0], sources@[t - 1][1]));
    }
}

} // verus!
