//! What the entropy tasks of a scan mean to the decoder that carries them out.

use crate::vardct_engine::jpeg::JpegCoefficientLayout;
use crate::vardct_engine::jpeg_output::metadata::{JpegReconstructionMetadata, JpegScan};
use crate::vardct_engine::jpeg_output::scan::{
    components_bound, extra_bound, reset_bound, scan_blocks, scan_units, unit_blocks, Geometry,
    GeometryView,
};
use crate::vardct_engine::jpeg_output::scan_plan::{
    build, charged, coefficient_of, component_grid, component_of, extra_runs, fill_tasks, law_blocks_inside_planes,
    layout_geometry, lemma_block_number, lemma_charged, lemma_coefficient, lemma_extra_ascend, lemma_extra_here, lemma_numbering, lemma_owned_within, lemma_places,
    lemma_segment_bound, lemma_segments, place_of, plane_resident, planned, predecessor, resident,
    restarts_before, segment_start, task_of, unit_of, unit_places, visits, Plan, ScanVisit,
};
use crate::vardct_engine::jpeg_output::scan_walk::walked;
use crate::vardct_engine::jpeg_output::{JpegReconstructionError, JpegReconstructionLimits};
use vstd::arithmetic::div_mod::{
    lemma_fundamental_div_mod, lemma_fundamental_div_mod_converse, lemma_mod_bound,
};
use vstd::prelude::*;

verus! {

/// A scan whose declaration was accepted for a geometry of whole units.
pub open spec fn codable(scan: &JpegScan, geometry: GeometryView, count: int) -> bool {
    &&& geometry.wf()
    &&& resident(geometry)
    &&& components_bound(scan.components@, geometry.components)
    &&& count == scan_blocks(scan, geometry)
    &&& count <= u32::MAX
    &&& forall|i: int| 0 <= i < scan.resets@.len() ==> #[trigger] reset_bound(scan.resets@, count, i)
    &&& forall|i: int|
        0 <= i < scan.extra_zeros@.len() ==> #[trigger] extra_bound(scan.extra_zeros@, count, i)
}

/// The planes of a geometry follow one another.
pub open spec fn planes_apart(geometry: GeometryView) -> bool {
    forall|i: int, j: int|
        0 <= i < j < geometry.planes.len() ==> (#[trigger] geometry.planes[i]).offset
            + geometry.planes[i].columns * geometry.planes[i].rows * 64 <= (
        #[trigger] geometry.planes[j]).offset
}

/// Coefficient word `word` belongs to component `c`.
pub open spec fn of_component(geometry: GeometryView, c: int, word: u32) -> bool {
    let plane = geometry.planes[c];
    plane.offset <= word < plane.offset + plane.columns * plane.rows * 64
}

/// Blocks that scan component `n` has in one unit of an interleaved scan.
pub open spec fn share(scan: &JpegScan, geometry: GeometryView, n: int) -> int {
    if n < scan.components@.len() {
        let plane = geometry.planes[scan.components@[n].component as int];
        plane.sampling.0 * plane.sampling.1
    } else {
        0
    }
}

/// Blocks in one unit of a scan: one of a component alone, all of a minimum coded unit otherwise.
pub open spec fn blocks_in_unit(scan: &JpegScan, geometry: GeometryView) -> int {
    if scan.components@.len() == 1 {
        1
    } else {
        share(scan, geometry, 0) + share(scan, geometry, 1) + share(scan, geometry, 2)
    }
}

/// No restart marker stands between blocks `p` and `o`.
pub open spec fn one_segment(blocks: int, interval: u16, p: int, o: int) -> bool {
    interval == 0 || p / blocks / interval as int == o / blocks / interval as int
}

/// Units hold the blocks of their components.
pub(crate) proof fn lemma_unit_blocks(scan: &JpegScan, geometry: GeometryView)
    requires
        geometry.wf(),
        resident(geometry),
        components_bound(scan.components@, geometry.components),
    ensures
        unit_blocks(scan, geometry) == blocks_in_unit(scan, geometry),
        1 <= blocks_in_unit(scan, geometry),
{
    reveal_with_fuel(crate::vardct_engine::jpeg_output::scan::interleaved_blocks, 4);
    lemma_places(scan, geometry, scan.components@.len() as int);
}

/// The component of a block is that of its coefficients.
proof fn lemma_component_words(scan: &JpegScan, geometry: GeometryView, o: int, c: int)
    requires
        geometry.wf(),
        resident(geometry),
        planes_apart(geometry),
        components_bound(scan.components@, geometry.components),
        0 <= o < scan_blocks(scan, geometry),
        0 <= c < geometry.components,
    ensures
        0 <= coefficient_of(scan, geometry, o) < u32::MAX,
        of_component(geometry, c, coefficient_of(scan, geometry, o) as u32) <==> component_of(
            scan,
            geometry,
            o,
        ) == c,
{
    law_blocks_inside_planes(scan, geometry, o);
    lemma_block_number(scan, geometry, o);
    lemma_coefficient(scan, geometry, unit_of(scan, geometry, o), o % unit_blocks(scan, geometry));
    let own = component_of(scan, geometry, o);
    assert(plane_resident(geometry, own));
    assert(plane_resident(geometry, c));
    if own < c {
        assert(geometry.planes[own].offset + geometry.planes[own].columns
            * geometry.planes[own].rows * 64 <= geometry.planes[c].offset);
    } else if c < own {
        assert(geometry.planes[c].offset + geometry.planes[c].columns * geometry.planes[c].rows * 64
            <= geometry.planes[own].offset);
    }
}

/// The last block of a component in front of another is its predecessor.
proof fn lemma_predecessor(
    scan: &JpegScan,
    geometry: GeometryView,
    component: int,
    start: int,
    o: int,
    p: int,
)
    requires
        start <= p < o,
        component_of(scan, geometry, p) == component,
        forall|q: int| p < q < o ==> #[trigger] component_of(scan, geometry, q) != component,
    ensures
        predecessor(scan, geometry, component, start, o) == coefficient_of(scan, geometry, p),
    decreases o - p,
{
    if p < o - 1 {
        lemma_predecessor(scan, geometry, component, start, o - 1, p);
    }
}

/// A block without another of its component in front of it has no predecessor.
proof fn lemma_no_predecessor(
    scan: &JpegScan,
    geometry: GeometryView,
    component: int,
    start: int,
    o: int,
)
    requires
        forall|q: int| start <= q < o ==> #[trigger] component_of(scan, geometry, q) != component,
    ensures
        predecessor(scan, geometry, component, start, o) == u32::MAX,
    decreases o - start,
{
    if start < o {
        lemma_no_predecessor(scan, geometry, component, start, o - 1);
    }
}

/// The blocks of a restart segment are those from its first one on.
proof fn lemma_segment_members(
    scan: &JpegScan,
    geometry: GeometryView,
    interval: u16,
    p: int,
    o: int,
)
    requires
        unit_blocks(scan, geometry) >= 1,
        0 <= p <= o,
    ensures
        one_segment(unit_blocks(scan, geometry), interval, p, o) <==> segment_start(
            scan,
            geometry,
            interval,
            o / unit_blocks(scan, geometry),
        ) <= p,
{
    let blocks = unit_blocks(scan, geometry);
    if interval != 0 {
        let i = interval as int;
        let (up, uo) = (p / blocks, o / blocks);
        let (sp, so) = (up / i, uo / i);
        lemma_fundamental_div_mod(p, blocks);
        lemma_mod_bound(p, blocks);
        lemma_fundamental_div_mod(o, blocks);
        lemma_mod_bound(o, blocks);
        lemma_fundamental_div_mod(up, i);
        lemma_mod_bound(up, i);
        lemma_fundamental_div_mod(uo, i);
        lemma_mod_bound(uo, i);
        vstd::arithmetic::div_mod::lemma_div_is_ordered(p, o, blocks);
        vstd::arithmetic::div_mod::lemma_div_is_ordered(up, uo, i);
        let first = so * i;
        assert(so * i == i * so && sp * i == i * sp) by (nonlinear_arith);
        if sp == so {
            assert(first <= up);
            assert(first * blocks <= p) by (nonlinear_arith)
                requires
                    first <= up,
                    p == blocks * up + p % blocks,
                    0 <= p % blocks,
                    blocks >= 1,
            ;
        } else {
            assert(up < first) by (nonlinear_arith)
                requires
                    sp < so,
                    up == i * sp + up % i,
                    up % i < i,
                    first == i * so,
                    i > 0,
            ;
            assert(p < first * blocks) by (nonlinear_arith)
                requires
                    up < first,
                    p == blocks * up + p % blocks,
                    p % blocks < blocks,
                    blocks >= 1,
            ;
        }
    } else {
        let restarts = restarts_before(interval, o / blocks);
        assert(restarts * interval * blocks == 0) by (nonlinear_arith)
            requires
                restarts == 0,
        ;
    }
}

/// The DC coefficient of a block is coded against that of the last block of its component in
/// the same restart segment: the second word of its task is the first word of that block's task.
/// Only a block without such a predecessor names none.
pub proof fn law_dc_predecessor(
    output: Vec<[u32; 12]>,
    scan: &JpegScan,
    geometry: &Geometry<'_>,
    interval: u16,
    count: u32,
    tasks: Vec<[u32; 12]>,
    c: int,
    o: int,
)
    requires
        codable(scan, geometry@, count as int),
        planes_apart(geometry@),
        call_ensures(fill_tasks, (output, scan, geometry, interval, count), tasks),
        0 <= c < geometry@.components,
        0 <= o < count,
        of_component(geometry@, c, tasks@[o]@[0]),
    ensures
        ({
            let blocks = blocks_in_unit(scan, geometry@);
            &&& forall|p: int|
                0 <= p < o && one_segment(blocks, interval, p, o) && of_component(
                    geometry@,
                    c,
                    (#[trigger] tasks@[p])@[0],
                ) && (forall|q: int|
                    p < q < o ==> !of_component(geometry@, c, (#[trigger] tasks@[q])@[0]))
                    ==> tasks@[o]@[1] == tasks@[p]@[0]
            &&& (forall|p: int|
                0 <= p < o && one_segment(blocks, interval, p, o) ==> !of_component(
                    geometry@,
                    c,
                    (#[trigger] tasks@[p])@[0],
                )) ==> tasks@[o]@[1] == u32::MAX
        }),
{
    let g = geometry@;
    let blocks = blocks_in_unit(scan, g);
    lemma_unit_blocks(scan, g);
    let start = segment_start(scan, g, interval, unit_of(scan, g, o));
    assert(tasks@[o]@ == task_of(scan, g, interval, o));
    lemma_component_words(scan, g, o, c);
    lemma_segment_bound(interval, unit_of(scan, g, o));
    lemma_segment_members(scan, g, interval, o, o);
    assert forall|p: int|
        0 <= p < o && one_segment(blocks, interval, p, o) && of_component(
            g,
            c,
            (#[trigger] tasks@[p])@[0],
        ) && (forall|q: int|
            p < q < o ==> !of_component(
                g,
                c,
                (#[trigger] tasks@[q])@[0],
            )) implies tasks@[o]@[1] == tasks@[p]@[0] by {
        assert(tasks@[p]@ == task_of(scan, g, interval, p));
        lemma_component_words(scan, g, p, c);
        lemma_segment_members(scan, g, interval, p, o);
        assert forall|q: int| p < q < o implies #[trigger] component_of(scan, g, q) != c by {
            assert(tasks@[q]@ == task_of(scan, g, interval, q));
            lemma_component_words(scan, g, q, c);
        }
        lemma_predecessor(scan, g, c, start, o, p);
    }
    if forall|p: int|
        0 <= p < o && one_segment(blocks, interval, p, o) ==> !of_component(
            g,
            c,
            (#[trigger] tasks@[p])@[0],
        ) {
        assert(0 <= start) by {
            lemma_block_number(scan, g, o);
            let first = restarts_before(interval, unit_of(scan, g, o)) * interval;
            assert(0 <= first * blocks) by (nonlinear_arith)
                requires
                    0 <= first,
                    1 <= blocks,
            ;
        }
        assert forall|q: int| start <= q < o implies #[trigger] component_of(scan, g, q) != c by {
            assert(tasks@[q]@ == task_of(scan, g, interval, q));
            lemma_component_words(scan, g, q, c);
            lemma_segment_members(scan, g, interval, q, o);
        }
        lemma_no_predecessor(scan, g, c, start, o);
    }
}

/// A restart marker follows every block with which a whole number of intervals ends, except the
/// last block of the scan. The markers count from zero to seven and start over; each starts a
/// segment at the next block, with the next number.
pub proof fn law_restart_segments(
    output: Vec<[u32; 12]>,
    scan: &JpegScan,
    geometry: &Geometry<'_>,
    interval: u16,
    count: u32,
    tasks: Vec<[u32; 12]>,
    o: int,
)
    requires
        codable(scan, geometry@, count as int),
        call_ensures(fill_tasks, (output, scan, geometry, interval, count), tasks),
        0 <= o < count,
    ensures
        ({
            let blocks = blocks_in_unit(scan, geometry@);
            let task = tasks@[o]@;
            let next = tasks@[o + 1]@;
            &&& o == 0 ==> task[6] == 0 && task[7] == 0
            &&& o + 1 == count ==> task[5] == 0
            &&& o + 1 < count ==> if interval != 0 && (o + 1) % (interval * blocks) == 0 {
                &&& task[5] == 0xd0 + task[7] % 8
                &&& next[6] == o + 1
                &&& next[7] == task[7] + 1
            } else {
                &&& task[5] == 0
                &&& next[6] == task[6]
                &&& next[7] == task[7]
            }
        }),
{
    let g = geometry@;
    let blocks = blocks_in_unit(scan, g);
    lemma_unit_blocks(scan, g);
    lemma_block_number(scan, g, o);
    let unit = unit_of(scan, g, o);
    assert(tasks@[o]@ == task_of(scan, g, interval, o));
    lemma_segment_bound(interval, unit);
    lemma_start_bound(scan, g, interval, o);
    if o == 0 {
        lemma_numbering(0, 0, 0, blocks);
        assert(unit == 0);
        if interval != 0 {
            lemma_fundamental_div_mod_converse(0, interval as int, 0, 0);
        }
        assert(segment_start(scan, g, interval, 0) == 0) by (nonlinear_arith)
            requires
                segment_start(scan, g, interval, 0) == restarts_before(interval, 0) * interval
                    * blocks,
                restarts_before(interval, 0) == 0,
        ;
    }
    if o + 1 < count {
        let t = o % blocks;
        assert(tasks@[o + 1]@ == task_of(scan, g, interval, o + 1));
        lemma_start_bound(scan, g, interval, o + 1);
        lemma_block_number(scan, g, o + 1);
        if t + 1 < blocks {
            lemma_numbering(o + 1, unit, t + 1, blocks);
        } else {
            assert(o + 1 == (unit + 1) * blocks + 0) by (nonlinear_arith)
                requires
                    o == unit * blocks + t,
                    t + 1 == blocks,
            ;
            lemma_numbering(o + 1, unit + 1, 0, blocks);
        }
        if interval != 0 {
            let i = interval as int;
            let whole = i * blocks;
            assert(whole >= 1) by (nonlinear_arith)
                requires
                    whole == i * blocks,
                    i >= 1,
                    blocks >= 1,
            ;
            let ends = t + 1 == blocks && (unit + 1) % i == 0;
            assert(ends <==> (o + 1) % whole == 0) by {
                if ends {
                    let k = (unit + 1) / i;
                    lemma_fundamental_div_mod(unit + 1, i);
                    assert(o + 1 == k * whole + 0) by (nonlinear_arith)
                        requires
                            o + 1 == (unit + 1) * blocks,
                            unit + 1 == i * k,
                            whole == i * blocks,
                    ;
                    lemma_fundamental_div_mod_converse(o + 1, whole, k, 0);
                }
                if (o + 1) % whole == 0 {
                    let k = (o + 1) / whole;
                    lemma_fundamental_div_mod(o + 1, whole);
                    assert(o + 1 == (i * k) * blocks + 0) by (nonlinear_arith)
                        requires
                            o + 1 == whole * k,
                            whole == i * blocks,
                    ;
                    lemma_numbering(o + 1, i * k, 0, blocks);
                    assert(i * k == k * i + 0) by (nonlinear_arith);
                    lemma_fundamental_div_mod_converse(i * k, i, k, 0);
                    if t + 1 < blocks {
                        lemma_numbering(o + 1, unit, t + 1, blocks);
                        assert(false);
                    }
                }
            }
            if t + 1 == blocks {
                lemma_segments(interval, unit + 1);
                if ends {
                    let q = unit / i;
                    lemma_fundamental_div_mod(unit, i);
                    lemma_mod_bound(unit, i);
                    lemma_fundamental_div_mod(unit + 1, i);
                    let k = (unit + 1) / i;
                    assert(k == q + 1) by (nonlinear_arith)
                        requires
                            unit + 1 == i * k,
                            unit == i * q + unit % i,
                            0 <= unit % i < i,
                    ;
                }
            }
        }
    }
}

/// Segments start at or before their blocks.
proof fn lemma_start_bound(scan: &JpegScan, geometry: GeometryView, interval: u16, o: int)
    requires
        codable(scan, geometry, scan_blocks(scan, geometry)),
        0 <= o < scan_blocks(scan, geometry),
    ensures
        0 <= segment_start(scan, geometry, interval, unit_of(scan, geometry, o)) <= o,
        0 <= restarts_before(interval, unit_of(scan, geometry, o)) <= o,
{
    lemma_block_number(scan, geometry, o);
    lemma_unit_blocks(scan, geometry);
    let unit = unit_of(scan, geometry, o);
    lemma_segment_bound(interval, unit);
    let first = restarts_before(interval, unit) * interval;
    let blocks = unit_blocks(scan, geometry);
    assert(0 <= first * blocks <= o && unit <= o) by (nonlinear_arith)
        requires
            0 <= first <= unit,
            blocks >= 1,
            0 <= o % blocks,
            o == unit * blocks + o % blocks,
    ;
}

/// A component alone is coded row by row over its real blocks. Several components are coded unit
/// by unit, units row by row, and each block of a unit lies in the unit's part of its plane:
/// components follow in the scan's order, and the blocks of one component from top to bottom and
/// from left to right.
pub proof fn law_block_order(
    output: Vec<[u32; 12]>,
    scan: &JpegScan,
    geometry: &Geometry<'_>,
    interval: u16,
    count: u32,
    tasks: Vec<[u32; 12]>,
    n: int,
    o: int,
)
    requires
        codable(scan, geometry@, count as int),
        planes_apart(geometry@),
        call_ensures(fill_tasks, (output, scan, geometry, interval, count), tasks),
        0 <= n < scan.components@.len(),
        0 <= o < count,
        of_component(geometry@, scan.components@[n].component as int, tasks@[o]@[0]),
    ensures
        ({
            let plane = geometry@.planes[scan.components@[n].component as int];
            let block = (tasks@[o]@[0] - plane.offset) / 64;
            let row = block / plane.columns;
            let column = block % plane.columns;
            let unit = o / blocks_in_unit(scan, geometry@);
            &&& (tasks@[o]@[0] - plane.offset) % 64 == 0
            &&& scan.components@.len() == 1 ==> {
                &&& row == o / plane.real.0
                &&& column == o % plane.real.0
                &&& row < plane.real.1
            }
            &&& scan.components@.len() > 1 ==> {
                &&& row / plane.sampling.1 == unit / geometry@.mcus.0
                &&& column / plane.sampling.0 == unit % geometry@.mcus.0
            }
        }),
        forall|m: int, p: int|
            0 <= m < scan.components@.len() && o < p < count && o / blocks_in_unit(scan, geometry@)
                == p / blocks_in_unit(scan, geometry@) && of_component(
                geometry@,
                (#[trigger] scan.components@[m]).component as int,
                (#[trigger] tasks@[p])@[0],
            ) ==> n <= m && (n == m ==> tasks@[o]@[0] < tasks@[p]@[0]),
{
    let g = geometry@;
    lemma_unit_blocks(scan, g);
    let blocks = blocks_in_unit(scan, g);
    lemma_place_words(scan, g, interval, o, n);
    assert(tasks@[o]@ == task_of(scan, g, interval, o));
    assert forall|m: int, p: int|
        0 <= m < scan.components@.len() && o < p < count && o / blocks == p / blocks
            && of_component(
            g,
            (#[trigger] scan.components@[m]).component as int,
            (#[trigger] tasks@[p])@[0],
        ) implies n <= m && (n == m ==> tasks@[o]@[0] < tasks@[p]@[0]) by {
        assert(tasks@[p]@ == task_of(scan, g, interval, p));
        lemma_place_words(scan, g, interval, p, m);
        lemma_block_number(scan, g, o);
        lemma_block_number(scan, g, p);
        lemma_places_ascend(scan, g, scan.components@.len() as int, o % blocks, p % blocks);
        if n == m {
            lemma_coefficient(scan, g, o / blocks, o % blocks);
            lemma_coefficient(scan, g, p / blocks, p % blocks);
            let plane = g.planes[scan.components@[n].component as int];
            let (across, down) = component_grid(scan, g, n);
            let units = scan_units(scan, g).0;
            let (a, b) = (place_of(scan, g, o), place_of(scan, g, p));
            let unit = o / blocks;
            let (top, left) = ((unit / units) * down, (unit % units) * across);
            let w = plane.columns;
            assert((top + a.row) * w + left + a.column < (top + b.row) * w + left + b.column)
                by (nonlinear_arith)
                requires
                    a.row < b.row || (a.row == b.row && a.column < b.column),
                    0 <= left + a.column < w,
                    0 <= left + b.column < w,
            ;
        }
    }
}

/// The row and column of a block, read from its first word.
proof fn lemma_place_words(
    scan: &JpegScan,
    geometry: GeometryView,
    interval: u16,
    o: int,
    n: int,
)
    requires
        codable(scan, geometry, scan_blocks(scan, geometry)),
        planes_apart(geometry),
        0 <= n < scan.components@.len(),
        0 <= o < scan_blocks(scan, geometry),
        of_component(
            geometry,
            scan.components@[n].component as int,
            coefficient_of(scan, geometry, o) as u32,
        ),
    ensures
        place_of(scan, geometry, o).component == n,
        0 <= coefficient_of(scan, geometry, o) < u32::MAX,
        ({
            let plane = geometry.planes[scan.components@[n].component as int];
            let block = (coefficient_of(scan, geometry, o) - plane.offset) / 64;
            let row = block / plane.columns;
            let column = block % plane.columns;
            let unit = o / blocks_in_unit(scan, geometry);
            &&& (coefficient_of(scan, geometry, o) - plane.offset) % 64 == 0
            &&& scan.components@.len() == 1 ==> {
                &&& row == o / plane.real.0
                &&& column == o % plane.real.0
                &&& row < plane.real.1
            }
            &&& scan.components@.len() > 1 ==> {
                &&& row / plane.sampling.1 == unit / geometry.mcus.0
                &&& column / plane.sampling.0 == unit % geometry.mcus.0
            }
        }),
{
    lemma_unit_blocks(scan, geometry);
    let blocks = unit_blocks(scan, geometry);
    lemma_block_number(scan, geometry, o);
    let unit = unit_of(scan, geometry, o);
    let t = o % blocks;
    lemma_coefficient(scan, geometry, unit, t);
    let place = place_of(scan, geometry, o);
    lemma_component_words(scan, geometry, o, scan.components@[n].component as int);
    if place.component < n {
        assert(scan.components@[place.component].component != scan.components@[n].component);
    } else if n < place.component {
        assert(scan.components@[n].component != scan.components@[place.component].component);
    }
    let plane = geometry.planes[scan.components@[n].component as int];
    let (across, down) = component_grid(scan, geometry, n);
    let (ux, uy) = scan_units(scan, geometry);
    let row = (unit / ux) * down + place.row;
    let column = (unit % ux) * across + place.column;
    let block = row * plane.columns + column;
    assert(coefficient_of(scan, geometry, o) - plane.offset == block * 64);
    lemma_fundamental_div_mod_converse(block, plane.columns, row, column);
    assert(block * 64 == 64 * block);
    lemma_fundamental_div_mod_converse(block * 64, 64, block, 0);
    lemma_fundamental_div_mod_converse(row, down, unit / ux, place.row);
    lemma_fundamental_div_mod_converse(column, across, unit % ux, place.column);
    if scan.components@.len() == 1 {
        assert(blocks == 1);
        lemma_fundamental_div_mod_converse(o, 1, o, 0);
        assert(across == 1 && down == 1);
        assert(place.row == 0 && place.column == 0);
        let (my, mx) = (unit / ux, unit % ux);
        assert(row == my && column == mx) by (nonlinear_arith)
            requires
                row == my * down + place.row,
                column == mx * across + place.column,
                across == 1,
                down == 1,
                place.row == 0,
                place.column == 0,
        ;
        assert(ux > 0) by (nonlinear_arith)
            requires
                0 <= unit < ux * uy,
                0 <= ux,
        ;
        crate::vardct_engine::jpeg_output::scan_plan::lemma_grid(unit, ux, uy);
    }
}

/// The places of a unit are ordered by component, row and column.
proof fn lemma_places_ascend(scan: &JpegScan, geometry: GeometryView, n: int, t: int, u: int)
    requires
        geometry.wf(),
        resident(geometry),
        components_bound(scan.components@, geometry.components),
        0 <= n <= scan.components@.len(),
        0 <= t < u < unit_places(scan, geometry, n).len(),
    ensures
        ({
            let a = unit_places(scan, geometry, n)[t];
            let b = unit_places(scan, geometry, n)[u];
            a.component < b.component || (a.component == b.component && (a.row < b.row || (a.row
                == b.row && a.column < b.column)))
        }),
    decreases n,
{
    if n > 0 {
        lemma_places(scan, geometry, n - 1);
        lemma_places(scan, geometry, n);
        let (across, down) = component_grid(scan, geometry, n - 1);
        assert(plane_resident(geometry, scan.components@[n - 1].component as int));
        let front = unit_places(scan, geometry, n - 1);
        let all = unit_places(scan, geometry, n);
        if u < front.len() {
            lemma_places_ascend(scan, geometry, n - 1, t, u);
            assert(all[t] == front[t] && all[u] == front[u]);
        } else if t < front.len() {
            assert(all[t] == front[t]);
            assert(all[u].component == n - 1);
        } else {
            let a = t - front.len();
            let b = u - front.len();
            assert(all[t].row == a / across && all[t].column == a % across);
            assert(all[u].row == b / across && all[u].column == b % across);
            assert(all[t].component == n - 1 && all[u].component == n - 1);
            lemma_fundamental_div_mod(a, across);
            lemma_fundamental_div_mod(b, across);
            vstd::arithmetic::div_mod::lemma_div_is_ordered(a, b, across);
        }
    }
}

/// The runs of a block are those of the one entry that names it.
proof fn lemma_extra_of(extra: Seq<(u32, u8)>, count: int, o: int, i: int)
    requires
        0 <= i < extra.len(),
        extra[i].0 == o,
        0 <= o < count <= u32::MAX,
        forall|k: int| 0 <= k < extra.len() ==> #[trigger] extra_bound(extra, count, k),
    ensures
        extra_runs(extra, o) == extra[i].1,
{
    assert forall|k: int| 0 <= k < i implies (#[trigger] extra[k]).0 < o by {
        lemma_extra_ascend(extra, count, k, i);
    }
    assert forall|k: int| i <= k < extra.len() implies (#[trigger] extra[k]).0 >= o by {
        if i < k {
            lemma_extra_ascend(extra, count, i, k);
        }
    }
    lemma_extra_here(extra, count, i, o);
}

/// A task selects the tables of its component among four DC and four AC tables of 256 words. It
/// carries the superfluous runs and the run reset that the scan declares for its block, and
/// nothing where none is declared.
pub proof fn law_task_selections(
    output: Vec<[u32; 12]>,
    scan: &JpegScan,
    geometry: &Geometry<'_>,
    interval: u16,
    count: u32,
    tasks: Vec<[u32; 12]>,
    n: int,
    o: int,
)
    requires
        codable(scan, geometry@, count as int),
        planes_apart(geometry@),
        call_ensures(fill_tasks, (output, scan, geometry, interval, count), tasks),
        0 <= n < scan.components@.len(),
        0 <= o < count,
        of_component(geometry@, scan.components@[n].component as int, tasks@[o]@[0]),
    ensures
        ({
            let task = tasks@[o]@;
            let component = scan.components@[n];
            &&& task[2] % 256 == 0 && task[2] / 256 == component.dc
            &&& task[3] % 256 == 0 && task[3] / 256 == 4 + component.ac
            &&& forall|i: int|
                0 <= i < scan.extra_zeros@.len() && (#[trigger] scan.extra_zeros@[i]).0 == o
                    ==> task[4] == scan.extra_zeros@[i].1
            &&& task[4] != 0 ==> exists|i: int|
                0 <= i < scan.extra_zeros@.len() && (#[trigger] scan.extra_zeros@[i]).0 == o
            &&& task[8] == 1 || task[8] == 0
            &&& task[8] == 1 <==> exists|i: int|
                0 <= i < scan.resets@.len() && #[trigger] scan.resets@[i] == o
            &&& task[9] == 0 && task[10] == 0 && task[11] == 0
        }),
{
    let g = geometry@;
    lemma_place_words(scan, g, interval, o, n);
    assert(tasks@[o]@ == task_of(scan, g, interval, o));
    let extra = scan.extra_zeros@;
    assert forall|i: int| 0 <= i < extra.len() && (#[trigger] extra[i]).0 == o implies extra_runs(
        extra,
        o,
    ) == extra[i].1 by {
        lemma_extra_of(extra, count as int, o, i);
    }
    if exists|i: int| 0 <= i < scan.resets@.len() && #[trigger] scan.resets@[i] == o {
        let i = choose|i: int| 0 <= i < scan.resets@.len() && #[trigger] scan.resets@[i] == o;
        assert(scan.resets@[i] == o as u32);
        assert(scan.resets@.contains(o as u32));
    }
}

/// Scans that the first `n` markers introduce.
pub open spec fn scans_among(markers: Seq<u8>, n: int) -> int
    decreases n,
{
    if n <= 0 {
        0
    } else {
        scans_among(markers, n - 1) + if markers[n - 1] == 0xda { 1int } else { 0 }
    }
}

/// A restart interval is declared among the first `n` markers.
pub open spec fn interval_among(markers: Seq<u8>, n: int) -> bool {
    exists|i: int| 0 <= i < n && #[trigger] markers[i] == 0xdd
}

/// What is in force behind the first markers.
proof fn lemma_walked(header: &JpegReconstructionMetadata, geometry: GeometryView, n: int)
    requires
        0 <= n,
        walked(header, geometry, n) is Ok,
    ensures
        walked(header, geometry, n)->Ok_0.scans == scans_among(header.markers@, n),
        visits(header, geometry, n).len() == scans_among(header.markers@, n),
        walked(header, geometry, n)->Ok_0.interval == if interval_among(header.markers@, n) {
            header.restart_interval
        } else {
            0
        },
        walked(header, geometry, n)->Ok_0.frame is Some <==> exists|i: int|
            0 <= i < n && 0xc0 <= #[trigger] header.markers@[i] <= 0xc2,
    decreases n,
{
    if n > 0 {
        lemma_walked(header, geometry, n - 1);
        if header.markers@[n - 1] == 0xdd {
            assert(interval_among(header.markers@, n));
        }
        if interval_among(header.markers@, n - 1) {
            let i = choose|i: int| 0 <= i < n - 1 && #[trigger] header.markers@[i] == 0xdd;
            assert(header.markers@[i] == 0xdd);
        }
        if exists|i: int| 0 <= i < n - 1 && 0xc0 <= #[trigger] header.markers@[i] <= 0xc2 {
            let i = choose|i: int| 0 <= i < n - 1 && 0xc0 <= #[trigger] header.markers@[i] <= 0xc2;
            assert(0xc0 <= header.markers@[i] <= 0xc2);
        }
        if 0xc0 <= header.markers@[n - 1] <= 0xc2 {
            assert(exists|i: int| 0 <= i < n && 0xc0 <= #[trigger] header.markers@[i] <= 0xc2);
        }
    }
}

/// A scan is visited with what is in force at its marker.
proof fn lemma_visit(header: &JpegReconstructionMetadata, geometry: GeometryView, m: int, n: int)
    requires
        0 <= m < n,
        header.markers@[m] == 0xda,
        walked(header, geometry, n) is Ok,
    ensures
        walked(header, geometry, m) is Ok,
        walked(header, geometry, m)->Ok_0.frame is Some,
        0 <= scans_among(header.markers@, m) < visits(header, geometry, n).len(),
        ({
            let walk = walked(header, geometry, m)->Ok_0;
            visits(header, geometry, n)[scans_among(header.markers@, m)] == (ScanVisit {
                scan: walk.scans,
                interval: walk.interval,
                tables: walk.tables,
            })
        }),
    decreases n,
{
    lemma_walked(header, geometry, n);
    if m < n - 1 {
        lemma_visit(header, geometry, m, n - 1);
    } else {
        lemma_walked(header, geometry, m);
    }
    lemma_scans_counted(header.markers@, m);
}

/// Scans are counted up from zero.
proof fn lemma_scans_counted(markers: Seq<u8>, n: int)
    ensures
        0 <= scans_among(markers, n),
    decreases n,
{
    if n > 0 {
        lemma_scans_counted(markers, n - 1);
    }
}

/// Every scan marker introduces the next declared scan, behind a frame. Its parameters hold one byte
/// each of its first and last coefficient, its precision before and its precision behind it. Its
/// tasks are those of its own blocks, with the declared restart interval where a marker in front of
/// it declares one, and without restarts where none does.
pub proof fn law_planned_scans(
    header: &JpegReconstructionMetadata,
    layout: &JpegCoefficientLayout,
    limits: JpegReconstructionLimits,
    plan: Plan,
    m: int,
)
    requires
        header.declared(),
        layout@.wf(),
        call_ensures(build, (header, layout, limits), Ok::<Plan, JpegReconstructionError>(plan)),
        0 <= m < header.markers@.len(),
        header.markers@[m] == 0xda,
    ensures
        plan.scans@.len() == header.scans@.len() == scans_among(
            header.markers@,
            header.markers@.len() as int,
        ),
        exists|i: int| 0 <= i < m && 0xc0 <= #[trigger] header.markers@[i] <= 0xc2,
        header.markers@[header.markers@.len() - 1] == 0xd9,
        ({
            let s = scans_among(header.markers@, m);
            let scan = &header.scans@[s];
            let planned = plan.scans@[s];
            let word = planned.parameters as int;
            let interval = if interval_among(header.markers@, m) {
                header.restart_interval
            } else {
                0
            };
            &&& 0 <= s < header.scans@.len()
            &&& word % 256 == scan.start
            &&& word / 256 % 256 == scan.end
            &&& word / 0x1_0000 % 256 == scan.high
            &&& word / 0x100_0000 == scan.low
            &&& planned.tables@.len() == 2048
            &&& forall|o: int|
                0 <= o < planned.tasks@.len() ==> (#[trigger] planned.tasks@[o])@ == task_of(
                    scan,
                    layout_geometry(layout@),
                    interval,
                    o,
                )
        }),
{
    let g = layout_geometry(layout@);
    let n = header.markers@.len() as int;
    lemma_charged(header, g, limits, n);
    lemma_walked(header, g, n);
    lemma_visit(header, g, m, n);
    lemma_walked(header, g, m);
    let s = scans_among(header.markers@, m);
    assert(planned(plan.scans@[s], header, g, visits(header, g, n)[s]));
    let scan = &header.scans@[s];
    lemma_four_bytes(
        plan.scans@[s].parameters as int,
        scan.start as int,
        scan.end as int,
        scan.high as int,
        scan.low as int,
    );
}

/// Four bytes of a word.
proof fn lemma_four_bytes(word: int, a: int, b: int, c: int, d: int)
    requires
        word == a + 0x100 * b + 0x1_0000 * c + 0x100_0000 * d,
        0 <= a < 256 && 0 <= b < 256 && 0 <= c < 256 && 0 <= d < 256,
    ensures
        word % 256 == a,
        word / 256 % 256 == b,
        word / 0x1_0000 % 256 == c,
        word / 0x100_0000 == d,
{
    assert(word / 256 == b + 256 * c + 0x1_0000 * d);
    assert(word / 0x1_0000 == c + 256 * d);
}

/// Blocks of the scans that the first `n` markers introduce.
pub open spec fn blocks_among(
    header: &JpegReconstructionMetadata,
    geometry: GeometryView,
    n: int,
) -> int
    decreases n,
{
    if n <= 0 {
        0
    } else {
        blocks_among(header, geometry, n - 1) + if header.markers@[n - 1] == 0xda {
            scan_blocks(&header.scans@[scans_among(header.markers@, n - 1)], geometry)
        } else {
            0
        }
    }
}

/// What markers charge.
proof fn lemma_charges(
    header: &JpegReconstructionMetadata,
    geometry: GeometryView,
    limits: JpegReconstructionLimits,
    n: int,
)
    requires
        0 <= n <= header.markers@.len(),
        charged(header, geometry, limits, header.markers@.len() as int) is Ok,
    ensures
        ({
            let charge = charged(header, geometry, limits, n)->Ok_0;
            &&& charge.tasks == blocks_among(header, geometry, n)
            &&& charge.owned == header.scans@.len() * (56 + 4 * 2048) + 48 * blocks_among(
                header,
                geometry,
                n,
            )
            &&& charge.tasks <= limits.max_tasks || charge.tasks == 0
        }),
    decreases n,
{
    lemma_charged(header, geometry, limits, n);
    if n > 0 {
        lemma_charged(header, geometry, limits, n - 1);
        lemma_charges(header, geometry, limits, n - 1);
        lemma_walked(header, geometry, n - 1);
    }
}

/// A plan of scans owns fifty-six bytes and a copy of eight tables of 256 words for every scan, and
/// twelve words for the task of every block. It stays within the host's limit, and its tasks within
/// theirs.
pub proof fn law_plan_owned(
    header: &JpegReconstructionMetadata,
    layout: &JpegCoefficientLayout,
    limits: JpegReconstructionLimits,
    plan: Plan,
)
    requires
        header.declared(),
        layout@.wf(),
        call_ensures(build, (header, layout, limits), Ok::<Plan, JpegReconstructionError>(plan)),
    ensures
        ({
            let blocks = blocks_among(
                header,
                layout_geometry(layout@),
                header.markers@.len() as int,
            );
            &&& plan.owned_bytes == header.scans@.len() * (56 + 4 * 2048) + 48 * blocks
            &&& plan.owned_bytes <= limits.max_plan_bytes
            &&& blocks <= limits.max_tasks || blocks == 0
        }),
{
    let g = layout_geometry(layout@);
    lemma_charges(header, g, limits, header.markers@.len() as int);
    lemma_owned_within(header, g, limits);
}

} // verus!
