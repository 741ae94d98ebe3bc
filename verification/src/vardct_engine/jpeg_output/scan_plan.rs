//! One entropy task for every block of every scan.

use crate::arith::{least, min_u64};
use crate::vardct_engine::jpeg::{
    mcu_extent, words_before, JpegCoefficientLayout, JpegCoefficientPlane, LayoutView,
};
use crate::vardct_engine::jpeg_output::metadata::{
    JpegReconstructionMetadata, JpegScan, ScanComponent,
};
use crate::vardct_engine::jpeg_output::scan::{
    components_bound, extra_bound, interleaved_blocks, planes_of, reset_bound, scan_blocks,
    scan_units, unit_blocks, Geometry, GeometryView, TABLE_WORDS,
};
use crate::vardct_engine::jpeg_output::scan_walk::{
    bind_components, components_match, marked, unmarked, walk_refusal, walked, Walk, WalkView,
};
use crate::vardct_engine::jpeg_output::{
    allocate, check, JpegReconstructionError, JpegReconstructionLimits,
};
use vstd::arithmetic::div_mod::{
    lemma_fundamental_div_mod, lemma_fundamental_div_mod_converse, lemma_mod_bound,
};
use vstd::prelude::*;

verus! {

/// Absent predecessor of a block.
pub const NO_BLOCK: u32 = u32::MAX;

/// Where a block lies inside a unit of its scan: the scan component, and the row and column
/// among that component's blocks.
pub ghost struct BlockPlace {
    pub component: int,
    pub row: int,
    pub column: int,
}

/// Blocks of scan component `n` in one unit, across and down.
pub open spec fn component_grid(scan: &JpegScan, geometry: GeometryView, n: int) -> (int, int) {
    if scan.components@.len() > 1 {
        geometry.planes[scan.components@[n].component as int].sampling
    } else {
        (1, 1)
    }
}

/// The blocks of the first `n` scan components in one unit, each component row by row.
pub open spec fn unit_places(scan: &JpegScan, geometry: GeometryView, n: int) -> Seq<BlockPlace>
    decreases n,
{
    if n <= 0 {
        Seq::empty()
    } else {
        let (across, down) = component_grid(scan, geometry, n - 1);
        unit_places(scan, geometry, n - 1) + Seq::new(
            (across * down) as nat,
            |t: int| BlockPlace { component: n - 1, row: t / across, column: t % across },
        )
    }
}

/// The place of block `o` of the scan inside its unit.
pub open spec fn place_of(scan: &JpegScan, geometry: GeometryView, o: int) -> BlockPlace {
    unit_places(scan, geometry, scan.components@.len() as int)[o % unit_blocks(scan, geometry)]
}

/// The unit that holds block `o`.
pub open spec fn unit_of(scan: &JpegScan, geometry: GeometryView, o: int) -> int {
    o / unit_blocks(scan, geometry)
}

/// The frame component that block `o` belongs to.
pub open spec fn component_of(scan: &JpegScan, geometry: GeometryView, o: int) -> int {
    scan.components@[place_of(scan, geometry, o).component].component as int
}

/// The first coefficient word of the block at `place` of unit `unit`.
pub open spec fn place_coefficient(
    scan: &JpegScan,
    geometry: GeometryView,
    unit: int,
    place: BlockPlace,
) -> int {
    let plane = geometry.planes[scan.components@[place.component].component as int];
    let (across, down) = component_grid(scan, geometry, place.component);
    let units = scan_units(scan, geometry).0;
    plane.offset + (((unit / units) * down + place.row) * plane.columns + (unit % units) * across
        + place.column) * 64
}

/// The first coefficient word of block `o`.
pub open spec fn coefficient_of(scan: &JpegScan, geometry: GeometryView, o: int) -> int {
    place_coefficient(scan, geometry, unit_of(scan, geometry, o), place_of(scan, geometry, o))
}

/// Restart markers in front of unit `unit`.
pub open spec fn restarts_before(interval: u16, unit: int) -> int {
    if interval == 0 {
        0
    } else {
        unit / interval as int
    }
}

/// The first block behind the last restart marker in front of unit `unit`.
pub open spec fn segment_start(
    scan: &JpegScan,
    geometry: GeometryView,
    interval: u16,
    unit: int,
) -> int {
    restarts_before(interval, unit) * interval * unit_blocks(scan, geometry)
}

/// The coefficients of the last block of `component` among blocks `start..o`.
pub open spec fn predecessor(
    scan: &JpegScan,
    geometry: GeometryView,
    component: int,
    start: int,
    o: int,
) -> int
    decreases o - start,
{
    if o <= start {
        NO_BLOCK as int
    } else if component_of(scan, geometry, o - 1) == component {
        coefficient_of(scan, geometry, o - 1)
    } else {
        predecessor(scan, geometry, component, start, o - 1)
    }
}

/// The restart marker that follows block `o`, or zero.
pub open spec fn restart_marker(
    scan: &JpegScan,
    geometry: GeometryView,
    interval: u16,
    o: int,
) -> int {
    let next = unit_of(scan, geometry, o) + 1;
    if interval != 0 && (o + 1) % unit_blocks(scan, geometry) == 0 && next % interval as int == 0
        && o + 1 < scan_blocks(scan, geometry) {
        0xd0 + restarts_before(interval, next - 1) % 8
    } else {
        0
    }
}

/// Superfluous zero runs of block `o`.
pub open spec fn extra_runs(extra: Seq<(u32, u8)>, o: int) -> int {
    if exists|i: int| 0 <= i < extra.len() && (#[trigger] extra[i]).0 == o {
        extra[choose|i: int| 0 <= i < extra.len() && (#[trigger] extra[i]).0 == o].1 as int
    } else {
        0
    }
}

/// The entropy task of block `o`: coefficients, predecessor, DC and AC tables, superfluous
/// runs, restart marker behind it, start and number of its restart segment, run reset.
pub open spec fn task_of(
    scan: &JpegScan,
    geometry: GeometryView,
    interval: u16,
    o: int,
) -> Seq<u32> {
    let unit = unit_of(scan, geometry, o);
    let c = scan.components@[place_of(scan, geometry, o).component];
    let start = segment_start(scan, geometry, interval, unit);
    seq![
        coefficient_of(scan, geometry, o) as u32,
        predecessor(scan, geometry, c.component as int, start, o) as u32,
        (c.dc * 256) as u32,
        (1024 + c.ac * 256) as u32,
        extra_runs(scan.extra_zeros@, o) as u32,
        restart_marker(scan, geometry, interval, o) as u32,
        start as u32,
        restarts_before(interval, unit) as u32,
        if scan.resets@.contains(o as u32) { 1u32 } else { 0u32 },
        0u32,
        0u32,
        0u32,
    ]
}

/// Every plane holds whole units and lies in a word-addressed buffer.
pub open spec fn resident(geometry: GeometryView) -> bool {
    forall|i: int| 0 <= i < geometry.planes.len() ==> #[trigger] plane_resident(geometry, i)
}

/// Plane `i` holds whole units and lies in a word-addressed buffer.
pub open spec fn plane_resident(geometry: GeometryView, i: int) -> bool {
    let plane = geometry.planes[i];
    &&& 1 <= plane.sampling.0
    &&& 1 <= plane.sampling.1
    &&& plane.columns == geometry.mcus.0 * plane.sampling.0
    &&& plane.rows == geometry.mcus.1 * plane.sampling.1
    &&& plane.real.0 <= plane.columns
    &&& plane.real.1 <= plane.rows
    &&& 0 <= plane.offset
    &&& plane.offset + plane.columns * plane.rows * 64 <= u32::MAX
}

/// The places of a unit lie inside the grids of their components.
pub proof fn lemma_places(scan: &JpegScan, geometry: GeometryView, n: int)
    requires
        geometry.wf(),
        resident(geometry),
        0 <= n <= scan.components@.len(),
        forall|i: int|
            0 <= i < scan.components@.len() ==> (#[trigger] scan.components@[i]).component
                < geometry.components,
    ensures
        scan.components@.len() > 1 ==> unit_places(scan, geometry, n).len() == interleaved_blocks(
            scan.components@,
            geometry.planes,
            n,
        ),
        scan.components@.len() == 1 ==> unit_places(scan, geometry, n).len() == n,
        n <= unit_places(scan, geometry, n).len() <= 4 * n,
        forall|t: int|
            0 <= t < unit_places(scan, geometry, n).len() ==> {
                let place = #[trigger] unit_places(scan, geometry, n)[t];
                let (across, down) = component_grid(scan, geometry, place.component);
                &&& 0 <= place.component < n
                &&& 0 <= place.row < down
                &&& 0 <= place.column < across
            },
    decreases n,
{
    if n > 0 {
        lemma_places(scan, geometry, n - 1);
        let (across, down) = component_grid(scan, geometry, n - 1);
        let front = unit_places(scan, geometry, n - 1);
        let all = unit_places(scan, geometry, n);
        let c = scan.components@[n - 1].component as int;
        assert(plane_resident(geometry, c));
        assert(1 <= across <= 2 && 1 <= down <= 2);
        assert(1 <= across * down <= 4) by (nonlinear_arith)
            requires
                1 <= across <= 2,
                1 <= down <= 2,
        ;
        if scan.components@.len() == 1 {
            assert(across * down == 1) by (nonlinear_arith)
                requires
                    across == 1,
                    down == 1,
            ;
        }
        assert forall|t: int| 0 <= t < all.len() implies ({
            let place = #[trigger] all[t];
            let (a, d) = component_grid(scan, geometry, place.component);
            &&& 0 <= place.component < n
            &&& 0 <= place.row < d
            &&& 0 <= place.column < a
        }) by {
            if t < front.len() {
                assert(all[t] == front[t]);
            } else {
                let k = t - front.len();
                assert(all[t] == (BlockPlace {
                    component: n - 1,
                    row: k / across,
                    column: k % across,
                }));
                lemma_grid(k, across, down);
            }
        }
    }
}

/// Row-major positions of a grid.
pub proof fn lemma_grid(k: int, across: int, down: int)
    requires
        0 < across,
        0 <= k < across * down,
    ensures
        0 <= k / across < down,
        0 <= k % across < across,
{
    lemma_mod_bound(k, across);
    lemma_fundamental_div_mod(k, across);
    let q = k / across;
    assert(0 <= q < down) by (nonlinear_arith)
        requires
            0 < across,
            0 <= k < across * down,
            k == across * q + k % across,
            0 <= k % across < across,
    ;
}

/// A block of a scan lies in its plane.
pub proof fn lemma_coefficient(scan: &JpegScan, geometry: GeometryView, unit: int, t: int)
    requires
        geometry.wf(),
        resident(geometry),
        components_bound(scan.components@, geometry.components),
        0 <= unit < scan_units(scan, geometry).0 * scan_units(scan, geometry).1,
        0 <= t < unit_places(scan, geometry, scan.components@.len() as int).len(),
    ensures
        ({
            let place = unit_places(scan, geometry, scan.components@.len() as int)[t];
            let plane = geometry.planes[scan.components@[place.component].component as int];
            let (across, down) = component_grid(scan, geometry, place.component);
            let units = scan_units(scan, geometry).0;
            let row = (unit / units) * down + place.row;
            let column = (unit % units) * across + place.column;
            &&& 0 <= place.component < scan.components@.len()
            &&& 0 <= place.row < down <= 2
            &&& 0 <= place.column < across <= 2
            &&& 0 <= unit / units
            &&& 0 <= unit % units
            &&& 0 <= (unit / units) * down <= row < plane.rows
            &&& 0 <= (unit % units) * across <= column < plane.columns
            &&& 0 <= row * plane.columns <= row * plane.columns + column < plane.rows * plane.columns
            &&& plane.offset <= place_coefficient(scan, geometry, unit, place) < u32::MAX - 63
            &&& (row * plane.columns + column) * 64 < u32::MAX - 63
        }),
{
    lemma_places(scan, geometry, scan.components@.len() as int);
    let place = unit_places(scan, geometry, scan.components@.len() as int)[t];
    let c = scan.components@[place.component].component as int;
    let plane = geometry.planes[c];
    assert(plane_resident(geometry, c));
    let (across, down) = component_grid(scan, geometry, place.component);
    let (ux, uy) = scan_units(scan, geometry);
    assert(ux > 0) by (nonlinear_arith)
        requires
            0 <= unit < ux * uy,
            0 <= ux,
    ;
    lemma_grid(unit, ux, uy);
    let my = unit / ux;
    let mx = unit % ux;
    let row = my * down + place.row;
    let column = mx * across + place.column;
    assert(0 <= my * down <= row && row < uy * down) by (nonlinear_arith)
        requires
            0 <= my < uy,
            0 <= place.row < down,
            row == my * down + place.row,
    ;
    assert(0 <= mx * across <= column && column < ux * across) by (nonlinear_arith)
        requires
            0 <= mx < ux,
            0 <= place.column < across,
            column == mx * across + place.column,
    ;
    if scan.components@.len() > 1 {
        assert(plane.rows == uy * down);
        assert(plane.columns == ux * across);
    } else {
        assert(place.component == 0);
        assert(across == 1 && down == 1);
        assert(uy * down == uy && ux * across == ux) by (nonlinear_arith)
            requires
                across == 1,
                down == 1,
        ;
    }
    assert(row < plane.rows && column < plane.columns);
    assert(0 <= row * plane.columns && row * plane.columns + column < plane.rows * plane.columns)
        by (nonlinear_arith)
        requires
            0 <= row < plane.rows,
            0 <= column < plane.columns,
    ;
    assert(plane.rows * plane.columns == plane.columns * plane.rows) by (nonlinear_arith);
}

/// No place occurs twice in a unit.
proof fn lemma_places_distinct(scan: &JpegScan, geometry: GeometryView, n: int, t: int, u: int)
    requires
        geometry.wf(),
        resident(geometry),
        0 <= n <= scan.components@.len(),
        forall|i: int|
            0 <= i < scan.components@.len() ==> (#[trigger] scan.components@[i]).component
                < geometry.components,
        0 <= t < u < unit_places(scan, geometry, n).len(),
    ensures
        unit_places(scan, geometry, n)[t] != unit_places(scan, geometry, n)[u],
    decreases n,
{
    if n > 0 {
        lemma_places(scan, geometry, n - 1);
        lemma_places(scan, geometry, n);
        let (across, down) = component_grid(scan, geometry, n - 1);
        assert(plane_resident(geometry, scan.components@[n - 1].component as int));
        let front = unit_places(scan, geometry, n - 1);
        let all = unit_places(scan, geometry, n);
        if u < front.len() {
            lemma_places_distinct(scan, geometry, n - 1, t, u);
            assert(all[t] == front[t] && all[u] == front[u]);
        } else if t < front.len() {
            assert(all[t] == front[t]);
            assert(all[u].component == n - 1);
        } else {
            let a = t - front.len();
            let b = u - front.len();
            assert(all[t] == (BlockPlace { component: n - 1, row: a / across, column: a % across }));
            assert(all[u] == (BlockPlace { component: n - 1, row: b / across, column: b % across }));
            lemma_fundamental_div_mod(a, across);
            lemma_fundamental_div_mod(b, across);
        }
    }
}

/// A block number inside a scan is a unit of the scan and a place inside it.
pub proof fn lemma_block_number(scan: &JpegScan, geometry: GeometryView, o: int)
    requires
        geometry.wf(),
        resident(geometry),
        components_bound(scan.components@, geometry.components),
        0 <= o < scan_blocks(scan, geometry),
    ensures
        0 <= unit_of(scan, geometry, o) < scan_units(scan, geometry).0 * scan_units(
            scan,
            geometry,
        ).1,
        0 <= o % unit_blocks(scan, geometry) < unit_blocks(scan, geometry),
        unit_blocks(scan, geometry) == unit_places(
            scan,
            geometry,
            scan.components@.len() as int,
        ).len(),
        o == unit_of(scan, geometry, o) * unit_blocks(scan, geometry) + o % unit_blocks(
            scan,
            geometry,
        ),
{
    lemma_places(scan, geometry, scan.components@.len() as int);
    let blocks = unit_blocks(scan, geometry);
    let (ux, uy) = scan_units(scan, geometry);
    lemma_fundamental_div_mod(o, blocks);
    lemma_mod_bound(o, blocks);
    let unit = o / blocks;
    assert(unit * blocks == blocks * unit) by (nonlinear_arith);
    assert(0 <= unit < ux * uy) by (nonlinear_arith)
        requires
            0 <= o < ux * uy * blocks,
            o == unit * blocks + o % blocks,
            0 <= o % blocks < blocks,
    ;
}

/// Every block of an accepted scan lies inside the plane of its component.
pub proof fn law_blocks_inside_planes(scan: &JpegScan, geometry: GeometryView, o: int)
    requires
        geometry.wf(),
        resident(geometry),
        components_bound(scan.components@, geometry.components),
        0 <= o < scan_blocks(scan, geometry),
    ensures
        ({
            let plane = geometry.planes[component_of(scan, geometry, o)];
            &&& 0 <= component_of(scan, geometry, o) < geometry.components
            &&& plane.offset <= coefficient_of(scan, geometry, o)
            &&& coefficient_of(scan, geometry, o) + 64 <= plane.offset + plane.columns * plane.rows
                * 64
            &&& (coefficient_of(scan, geometry, o) - plane.offset) % 64 == 0
        }),
{
    lemma_block_number(scan, geometry, o);
    let unit = unit_of(scan, geometry, o);
    lemma_coefficient(scan, geometry, unit, o % unit_blocks(scan, geometry));
    let place = place_of(scan, geometry, o);
    let plane = geometry.planes[component_of(scan, geometry, o)];
    let (across, down) = component_grid(scan, geometry, place.component);
    let units = scan_units(scan, geometry).0;
    let row = (unit / units) * down + place.row;
    let column = (unit % units) * across + place.column;
    assert(plane.rows * plane.columns == plane.columns * plane.rows) by (nonlinear_arith);
    assert(coefficient_of(scan, geometry, o) == plane.offset + (row * plane.columns + column) * 64);
}

/// No block of a component is coded twice by a scan.
pub proof fn law_blocks_distinct(scan: &JpegScan, geometry: GeometryView, o: int, p: int)
    requires
        geometry.wf(),
        resident(geometry),
        components_bound(scan.components@, geometry.components),
        0 <= o < p < scan_blocks(scan, geometry),
        component_of(scan, geometry, o) == component_of(scan, geometry, p),
    ensures
        coefficient_of(scan, geometry, o) != coefficient_of(scan, geometry, p),
{
    lemma_block_number(scan, geometry, o);
    lemma_block_number(scan, geometry, p);
    let blocks = unit_blocks(scan, geometry);
    let (uo, up) = (unit_of(scan, geometry, o), unit_of(scan, geometry, p));
    let (to, tp) = (o % blocks, p % blocks);
    lemma_coefficient(scan, geometry, uo, to);
    lemma_coefficient(scan, geometry, up, tp);
    let (a, b) = (place_of(scan, geometry, o), place_of(scan, geometry, p));
    assert(a.component == b.component) by {
        if a.component < b.component {
            assert(scan.components@[a.component].component
                != scan.components@[b.component].component);
        } else if b.component < a.component {
            assert(scan.components@[b.component].component
                != scan.components@[a.component].component);
        }
    }
    let plane = geometry.planes[component_of(scan, geometry, o)];
    let (across, down) = component_grid(scan, geometry, a.component);
    let units = scan_units(scan, geometry).0;
    let (ro, co) = ((uo / units) * down + a.row, (uo % units) * across + a.column);
    let (rp, cp) = ((up / units) * down + b.row, (up % units) * across + b.column);
    if coefficient_of(scan, geometry, o) == coefficient_of(scan, geometry, p) {
        let w = plane.columns;
        assert(ro * w + co == rp * w + cp);
        assert(ro == rp && co == cp) by (nonlinear_arith)
            requires
                ro * w + co == rp * w + cp,
                0 <= co < w,
                0 <= cp < w,
        ;
        lemma_digits(uo / units, a.row, up / units, b.row, down);
        lemma_digits(uo % units, a.column, up % units, b.column, across);
        lemma_fundamental_div_mod(uo, units);
        lemma_fundamental_div_mod(up, units);
        assert(uo == up);
        assert(a == b);
        if to < tp {
            lemma_places_distinct(scan, geometry, scan.components@.len() as int, to, tp);
        } else if tp < to {
            lemma_places_distinct(scan, geometry, scan.components@.len() as int, tp, to);
        }
    }
}

/// Two numbers of two digits are equal only digit by digit.
pub proof fn lemma_digits(a: int, b: int, c: int, d: int, base: int)
    requires
        0 <= b < base,
        0 <= d < base,
        a * base + b == c * base + d,
    ensures
        a == c,
        b == d,
{
    assert(a == c) by (nonlinear_arith)
        requires
            0 <= b < base,
            0 <= d < base,
            a * base + b == c * base + d,
    ;
}

/// The places of one unit, as component, row and column.
fn unit_pattern(scan: &JpegScan, geometry: &Geometry) -> (pattern: Vec<[u32; 3]>)
    requires
        geometry@.wf(),
        resident(geometry@),
        components_bound(scan.components@, geometry@.components),
    ensures
        pattern@.len() == unit_blocks(scan, geometry@),
        pattern@.len() == unit_places(scan, geometry@, scan.components@.len() as int).len(),
        1 <= pattern@.len() <= 12,
        forall|t: int|
            0 <= t < pattern@.len() ==> {
                let place = unit_places(scan, geometry@, scan.components@.len() as int)[t];
                &&& (#[trigger] pattern@[t])[0] == place.component
                &&& pattern@[t][1] == place.row
                &&& pattern@[t][2] == place.column
            },
{
    let n: usize = scan.components.len();
    let mut pattern: Vec<[u32; 3]> = Vec::new();
    let mut i: usize = 0;
    while i < n
        invariant
            geometry@.wf(),
            resident(geometry@),
            components_bound(scan.components@, geometry@.components),
            n == scan.components@.len(),
            i <= n,
            pattern@.len() == unit_places(scan, geometry@, i as int).len(),
            forall|t: int|
                0 <= t < pattern@.len() ==> {
                    let place = unit_places(scan, geometry@, i as int)[t];
                    &&& (#[trigger] pattern@[t])[0] == place.component
                    &&& pattern@[t][1] == place.row
                    &&& pattern@[t][2] == place.column
                },
        decreases n - i,
    {
        let c: usize = scan.components[i].component as usize;
        assert(geometry@.planes[c as int] == geometry.planes@[c as int]@);
        assert(plane_resident(geometry@, c as int));
        let grid: [u32; 2] = if n > 1 {
            geometry.planes[c].sampling
        } else {
            [1, 1]
        };
        let across: u32 = grid[0];
        let down: u32 = grid[1];
        assert((across as int, down as int) == component_grid(scan, geometry@, i as int));
        let ghost front = unit_places(scan, geometry@, i as int);
        let ghost all = unit_places(scan, geometry@, i + 1);
        assert(1 <= across * down <= 4) by (nonlinear_arith)
            requires
                1 <= across <= 2,
                1 <= down <= 2,
        ;
        let total: u32 = across * down;
        let mut t: u32 = 0;
        while t < total
            invariant
                t <= total,
                total == across * down,
                1 <= across <= 2,
                1 <= down <= 2,
                i < n,
                n <= 3,
                front == unit_places(scan, geometry@, i as int),
                all == unit_places(scan, geometry@, i + 1),
                (across as int, down as int) == component_grid(scan, geometry@, i as int),
                all.len() == front.len() + total,
                pattern@.len() == front.len() + t,
                forall|t: int|
                    0 <= t < pattern@.len() ==> {
                        let place = all[t];
                        &&& (#[trigger] pattern@[t])[0] == place.component
                        &&& pattern@[t][1] == place.row
                        &&& pattern@[t][2] == place.column
                    },
            decreases total - t,
        {
            assert(all[front.len() + t] == (BlockPlace {
                component: i as int,
                row: t as int / across as int,
                column: t as int % across as int,
            }));
            pattern.push([i as u32, t / across, t % across]);
            t = t + 1;
        }
        i = i + 1;
    }
    proof {
        lemma_places(scan, geometry@, n as int);
    }
    pattern
}

/// Blocks are numbered unit by unit.
pub proof fn lemma_numbering(o: int, unit: int, t: int, blocks: int)
    requires
        0 <= t < blocks,
        o == unit * blocks + t,
    ensures
        o / blocks == unit,
        o % blocks == t,
{
    lemma_fundamental_div_mod_converse(o, blocks, unit, t);
}

/// A unit in front of which there is no restart marker belongs to the segment of the unit
/// before it; one behind a restart marker starts a segment.
pub proof fn lemma_segments(interval: u16, unit: int)
    requires
        interval != 0,
        unit >= 1,
    ensures
        unit % interval as int != 0 ==> restarts_before(interval, unit) == restarts_before(
            interval,
            unit - 1,
        ),
        unit % interval as int == 0 ==> restarts_before(interval, unit) * interval == unit,
{
    let i = interval as int;
    lemma_fundamental_div_mod(unit, i);
    lemma_mod_bound(unit, i);
    let q = unit / i;
    assert(q * i == i * q) by (nonlinear_arith);
    if unit % i != 0 {
        lemma_fundamental_div_mod_converse(unit - 1, i, q, unit % i - 1);
    }
}

/// Segments start at or before their units.
pub proof fn lemma_segment_bound(interval: u16, unit: int)
    requires
        unit >= 0,
    ensures
        0 <= restarts_before(interval, unit) <= unit,
        0 <= restarts_before(interval, unit) * interval <= unit,
{
    if interval != 0 {
        let i = interval as int;
        lemma_fundamental_div_mod(unit, i);
        lemma_mod_bound(unit, i);
        let q = unit / i;
        assert(0 <= q <= unit && 0 <= q * i <= unit) by (nonlinear_arith)
            requires
                i > 0,
                unit >= 0,
                unit == i * q + unit % i,
                0 <= unit % i < i,
        ;
    }
}

/// One task for every block of a scan whose declaration was accepted. Without a block no memory
/// is asked for.
pub fn plan_tasks(scan: &JpegScan, geometry: &Geometry, interval: u16, count: u32) -> (r: Result<
    Vec<[u32; 12]>,
    JpegReconstructionError,
>)
    requires
        geometry@.wf(),
        resident(geometry@),
        components_bound(scan.components@, geometry@.components),
        count == scan_blocks(scan, geometry@),
        forall|i: int|
            0 <= i < scan.resets@.len() ==> #[trigger] reset_bound(scan.resets@, count as int, i),
        forall|i: int|
            0 <= i < scan.extra_zeros@.len() ==> #[trigger] extra_bound(
                scan.extra_zeros@,
                count as int,
                i,
            ),
    ensures
        match r {
            Ok(tasks) => tasks@.len() == count && forall|o: int|
                0 <= o < count ==> (#[trigger] tasks@[o])@ == task_of(
                    scan,
                    geometry@,
                    interval,
                    o,
                ),
            Err(error) => error == JpegReconstructionError::Allocation,
        },
        count == 0 ==> r is Ok,
{
    match allocate(count as usize) {
        Ok(output) => Ok(fill_tasks(output, scan, geometry, interval, count)),
        Err(error) => Err(error),
    }
}

/// Fills the room for the tasks of a scan whose declaration was accepted: one for every block.
#[verifier::rlimit(60)]
pub fn fill_tasks(
    output: Vec<[u32; 12]>,
    scan: &JpegScan,
    geometry: &Geometry,
    interval: u16,
    count: u32,
) -> (tasks: Vec<[u32; 12]>)
    requires
        geometry@.wf(),
        resident(geometry@),
        components_bound(scan.components@, geometry@.components),
        count == scan_blocks(scan, geometry@),
        forall|i: int|
            0 <= i < scan.resets@.len() ==> #[trigger] reset_bound(scan.resets@, count as int, i),
        forall|i: int|
            0 <= i < scan.extra_zeros@.len() ==> #[trigger] extra_bound(
                scan.extra_zeros@,
                count as int,
                i,
            ),
        output@.len() == 0,
    ensures
        tasks@.len() == count,
        forall|o: int|
            0 <= o < count ==> (#[trigger] tasks@[o])@ == task_of(scan, geometry@, interval, o),
{
    let mut output = output;
    let pattern = unit_pattern(scan, geometry);
    let blocks: u32 = pattern.len() as u32;
    let extent: [u32; 2] = if scan.components.len() > 1 {
        geometry.mcus
    } else {
        let c: usize = scan.components[0].component as usize;
        assert(geometry@.planes[c as int] == geometry.planes@[c as int]@);
        geometry.planes[c].real_blocks
    };
    let ghost g = geometry@;
    let ghost (ux, uy) = scan_units(scan, g);
    assert(extent[0] == ux && extent[1] == uy);
    assert(ux * uy * blocks == count);
    assert(0 <= ux * uy <= count) by (nonlinear_arith)
        requires
            ux * uy * blocks == count,
            blocks >= 1,
            0 <= ux,
            0 <= uy,
    ;
    let units: u32 = extent[0] * extent[1];
    let mut previous: [u32; 3] = [NO_BLOCK, NO_BLOCK, NO_BLOCK];
    let mut reset_index: usize = 0;
    let mut extra_index: usize = 0;
    let mut unit: u32 = 0;
    while unit < units
        invariant
            g == geometry@,
            g.wf(),
            resident(g),
            components_bound(scan.components@, g.components),
            (ux, uy) == scan_units(scan, g),
            extent[0] == ux,
            extent[1] == uy,
            units == ux * uy,
            count == scan_blocks(scan, g),
            ux * uy * blocks == count,
            blocks == unit_blocks(scan, g),
            1 <= blocks <= 12,
            pattern@.len() == blocks,
            blocks == unit_places(scan, g, scan.components@.len() as int).len(),
            forall|t: int|
                0 <= t < pattern@.len() ==> {
                    let place = unit_places(scan, g, scan.components@.len() as int)[t];
                    &&& (#[trigger] pattern@[t])[0] == place.component
                    &&& pattern@[t][1] == place.row
                    &&& pattern@[t][2] == place.column
                },
            forall|i: int|
                0 <= i < scan.resets@.len() ==> #[trigger] reset_bound(
                    scan.resets@,
                    count as int,
                    i,
                ),
            forall|i: int|
                0 <= i < scan.extra_zeros@.len() ==> #[trigger] extra_bound(
                    scan.extra_zeros@,
                    count as int,
                    i,
                ),
            unit <= units,
            output@.len() == unit * blocks,
            forall|o: int|
                0 <= o < output@.len() ==> (#[trigger] output@[o])@ == task_of(
                    scan,
                    g,
                    interval,
                    o,
                ),
            reset_index <= scan.resets@.len(),
            forall|i: int| 0 <= i < reset_index ==> #[trigger] scan.resets@[i] < output@.len(),
            forall|i: int|
                reset_index <= i < scan.resets@.len() ==> #[trigger] scan.resets@[i]
                    >= output@.len(),
            extra_index <= scan.extra_zeros@.len(),
            forall|i: int|
                0 <= i < extra_index ==> (#[trigger] scan.extra_zeros@[i]).0 < output@.len(),
            forall|i: int|
                extra_index <= i < scan.extra_zeros@.len() ==> (#[trigger] scan.extra_zeros@[i]).0
                    >= output@.len(),
            unit == 0 ==> forall|c: int| 0 <= c < 3 ==> #[trigger] previous[c] == NO_BLOCK,
            unit > 0 ==> forall|c: int|
                0 <= c < 3 ==> #[trigger] previous[c] == predecessor(
                    scan,
                    g,
                    c,
                    segment_start(scan, g, interval, unit - 1),
                    output@.len() as int,
                ),
        decreases units - unit,
    {
        proof {
            lemma_segment_bound(interval, unit as int);
            if unit > 0 && interval != 0 {
                lemma_segments(interval, unit as int);
            }
            assert(unit * blocks + blocks <= count) by (nonlinear_arith)
                requires
                    unit + 1 <= units,
                    units * blocks == count,
                    blocks >= 1,
            ;
        }
        if interval != 0 && unit != 0 && unit % interval as u32 == 0 {
            previous = [NO_BLOCK, NO_BLOCK, NO_BLOCK];
        }
        let restarts: u32 = if interval == 0 {
            0
        } else {
            unit / interval as u32
        };
        let ghost start = segment_start(scan, g, interval, unit as int);
        assert(0 <= restarts * interval <= unit);
        assert(0 <= restarts * interval * blocks <= unit * blocks) by (nonlinear_arith)
            requires
                0 <= restarts * interval <= unit,
                blocks >= 1,
        ;
        let segment: u32 = restarts * interval as u32 * blocks;
        assert(segment == start);
        assert(unit == 0 ==> start == 0) by (nonlinear_arith)
            requires
                0 <= start <= unit * blocks,
        ;
        assert(forall|c: int|
            0 <= c < 3 ==> #[trigger] previous[c] == predecessor(
                scan,
                g,
                c,
                start,
                output@.len() as int,
            ));
        let mx: u32 = unit % extent[0];
        let my: u32 = unit / extent[0];
        let ghost first = output@.len() as int;
        let mut t: u32 = 0;
        while t < blocks
            invariant
                g == geometry@,
                g.wf(),
                resident(g),
                components_bound(scan.components@, g.components),
                (ux, uy) == scan_units(scan, g),
                extent[0] == ux,
                extent[1] == uy,
                units == ux * uy,
                unit < units,
                mx == unit as int % ux,
                my == unit as int / ux,
                ux > 0,
                count == scan_blocks(scan, g),
                count == units * blocks,
                blocks == unit_blocks(scan, g),
                1 <= blocks <= 12,
                pattern@.len() == blocks,
                blocks == unit_places(scan, g, scan.components@.len() as int).len(),
                forall|t: int|
                    0 <= t < pattern@.len() ==> {
                        let place = unit_places(scan, g, scan.components@.len() as int)[t];
                        &&& (#[trigger] pattern@[t])[0] == place.component
                        &&& pattern@[t][1] == place.row
                        &&& pattern@[t][2] == place.column
                    },
                forall|i: int|
                    0 <= i < scan.resets@.len() ==> #[trigger] reset_bound(
                        scan.resets@,
                        count as int,
                        i,
                    ),
                forall|i: int|
                    0 <= i < scan.extra_zeros@.len() ==> #[trigger] extra_bound(
                        scan.extra_zeros@,
                        count as int,
                        i,
                    ),
                t <= blocks,
                first == unit * blocks,
                first + blocks <= count,
                output@.len() == first + t,
                start == segment_start(scan, g, interval, unit as int),
                segment == start,
                start <= first,
                restarts == restarts_before(interval, unit as int),
                forall|o: int|
                    0 <= o < output@.len() ==> (#[trigger] output@[o])@ == task_of(
                        scan,
                        g,
                        interval,
                        o,
                    ),
                reset_index <= scan.resets@.len(),
                forall|i: int| 0 <= i < reset_index ==> #[trigger] scan.resets@[i] < output@.len(),
                forall|i: int|
                    reset_index <= i < scan.resets@.len() ==> #[trigger] scan.resets@[i]
                        >= output@.len(),
                extra_index <= scan.extra_zeros@.len(),
                forall|i: int|
                    0 <= i < extra_index ==> (#[trigger] scan.extra_zeros@[i]).0 < output@.len(),
                forall|i: int|
                    extra_index <= i < scan.extra_zeros@.len() ==> (
                    #[trigger] scan.extra_zeros@[i]).0 >= output@.len(),
                forall|c: int|
                    0 <= c < 3 ==> #[trigger] previous[c] == predecessor(
                        scan,
                        g,
                        c,
                        start,
                        output@.len() as int,
                    ),
            decreases blocks - t,
        {
            let ordinal: u32 = output.len() as u32;
            let ghost o = ordinal as int;
            let ghost places = unit_places(scan, g, scan.components@.len() as int);
            proof {
                lemma_numbering(o, unit as int, t as int, blocks as int);
                lemma_coefficient(scan, g, unit as int, t as int);
            }
            let entry: [u32; 3] = pattern[t as usize];
            let c: ScanComponent = scan.components[entry[0] as usize];
            let index: usize = c.component as usize;
            assert(g.planes[index as int] == geometry.planes@[index as int]@);
            let plane: JpegCoefficientPlane = geometry.planes[index];
            let grid: [u32; 2] = if scan.components.len() > 1 {
                plane.sampling
            } else {
                [1, 1]
            };
            assert((grid[0] as int, grid[1] as int) == component_grid(scan, g, places[t as int].component));
            let row: u32 = my * grid[1] + entry[1];
            let column: u32 = mx * grid[0] + entry[2];
            assert(row * plane.blocks_per_row + column < 0x400_0000) by (nonlinear_arith)
                requires
                    (row * plane.blocks_per_row + column) * 64 < u32::MAX - 63,
            ;
            let coefficient: u32 = plane.coefficient_word_offset + (row * plane.blocks_per_row
                + column) * 64;
            assert(coefficient == coefficient_of(scan, g, o));
            let reset = reset_index < scan.resets.len() && scan.resets[reset_index] == ordinal;
            proof {
                lemma_reset_here(scan.resets@, count as int, reset_index as int, o);
                lemma_extra_here(scan.extra_zeros@, count as int, extra_index as int, o);
            }
            if reset {
                reset_index = reset_index + 1;
            }
            let extra: u32 = if extra_index < scan.extra_zeros.len()
                && scan.extra_zeros[extra_index].0 == ordinal {
                let runs: u8 = scan.extra_zeros[extra_index].1;
                extra_index = extra_index + 1;
                runs as u32
            } else {
                0
            };
            let marker: u32 = if interval != 0 && t + 1 == blocks && (unit + 1) % interval as u32
                == 0 && unit + 1 < units {
                0xd0 + restarts % 8
            } else {
                0
            };
            proof {
                if t + 1 == blocks {
                    assert(o + 1 == (unit + 1) * blocks + 0) by (nonlinear_arith)
                        requires
                            o == unit * blocks + t,
                            t + 1 == blocks,
                    ;
                    lemma_numbering(o + 1, unit + 1, 0, blocks as int);
                    assert((unit + 1 < units) == (o + 1 < count)) by (nonlinear_arith)
                        requires
                            o + 1 == (unit + 1) * blocks,
                            count == units * blocks,
                            blocks >= 1,
                    ;
                } else {
                    lemma_numbering(o + 1, unit as int, t + 1, blocks as int);
                }
                assert(marker == restart_marker(scan, g, interval, o));
            }
            let task: [u32; 12] = [
                coefficient,
                previous[index],
                c.dc as u32 * 256,
                1024 + c.ac as u32 * 256,
                extra,
                marker,
                segment,
                restarts,
                if reset {
                    1
                } else {
                    0
                },
                0,
                0,
                0,
            ];
            assert(task@ =~= task_of(scan, g, interval, o));
            let ghost before = previous;
            output.push(task);
            previous[index] = coefficient;
            proof {
                assert forall|k: int| 0 <= k < 3 implies #[trigger] previous[k] == predecessor(
                    scan,
                    g,
                    k,
                    start,
                    output@.len() as int,
                ) by {
                    assert(component_of(scan, g, o) == index);
                    if k != index {
                        assert(previous[k] == before[k]);
                    }
                }
            }
            t = t + 1;
        }
        assert((unit + 1) * blocks == unit * blocks + blocks) by (nonlinear_arith);
        unit = unit + 1;
    }
    output
}

/// The next reset names block `o` exactly where any does.
proof fn lemma_reset_here(resets: Seq<u32>, count: int, at: int, o: int)
    requires
        0 <= at <= resets.len(),
        0 <= o < count <= u32::MAX,
        forall|i: int| 0 <= i < resets.len() ==> #[trigger] reset_bound(resets, count, i),
        forall|i: int| 0 <= i < at ==> #[trigger] resets[i] < o,
        forall|i: int| at <= i < resets.len() ==> #[trigger] resets[i] >= o,
    ensures
        resets.contains(o as u32) == (at < resets.len() && resets[at] == o),
        at < resets.len() && resets[at] == o ==> forall|i: int|
            at < i < resets.len() ==> #[trigger] resets[i] > o,
        at < resets.len() && resets[at] != o ==> forall|i: int|
            at <= i < resets.len() ==> #[trigger] resets[i] > o,
{
    assert forall|i: int| at < i < resets.len() implies #[trigger] resets[i] > resets[at] by {
        lemma_resets_ascend(resets, count, at, i);
    }
    if resets.contains(o as u32) {
        let i = choose|i: int| 0 <= i < resets.len() && resets[i] == o as u32;
        assert(resets[i] == o);
        if i > at {
            assert(resets[i] > resets[at]);
        }
    }
}

/// Resets ascend.
proof fn lemma_resets_ascend(resets: Seq<u32>, count: int, i: int, j: int)
    requires
        0 <= i < j < resets.len(),
        forall|k: int| 0 <= k < resets.len() ==> #[trigger] reset_bound(resets, count, k),
    ensures
        resets[i] < resets[j],
    decreases j - i,
{
    assert(reset_bound(resets, count, j));
    if i < j - 1 {
        lemma_resets_ascend(resets, count, i, j - 1);
    }
}

/// The next entry names block `o` exactly where any does.
pub proof fn lemma_extra_here(extra: Seq<(u32, u8)>, count: int, at: int, o: int)
    requires
        0 <= at <= extra.len(),
        0 <= o < count <= u32::MAX,
        forall|i: int| 0 <= i < extra.len() ==> #[trigger] extra_bound(extra, count, i),
        forall|i: int| 0 <= i < at ==> (#[trigger] extra[i]).0 < o,
        forall|i: int| at <= i < extra.len() ==> (#[trigger] extra[i]).0 >= o,
    ensures
        extra_runs(extra, o) == if at < extra.len() && extra[at].0 == o {
            extra[at].1 as int
        } else {
            0
        },
        at < extra.len() && extra[at].0 == o ==> forall|i: int|
            at < i < extra.len() ==> (#[trigger] extra[i]).0 > o,
        at < extra.len() && extra[at].0 != o ==> forall|i: int|
            at <= i < extra.len() ==> (#[trigger] extra[i]).0 > o,
{
    assert forall|i: int| at < i < extra.len() implies (#[trigger] extra[i]).0 > extra[at].0 by {
        lemma_extra_ascend(extra, count, at, i);
    }
    if exists|i: int| 0 <= i < extra.len() && (#[trigger] extra[i]).0 == o {
        let i = choose|i: int| 0 <= i < extra.len() && (#[trigger] extra[i]).0 == o;
        assert(extra[i].0 == o);
        if i > at {
            assert(extra[i].0 > extra[at].0);
        }
        assert(i == at);
    }
}

/// Entries ascend.
pub proof fn lemma_extra_ascend(extra: Seq<(u32, u8)>, count: int, i: int, j: int)
    requires
        0 <= i < j < extra.len(),
        forall|k: int| 0 <= k < extra.len() ==> #[trigger] extra_bound(extra, count, k),
    ensures
        extra[i].0 < extra[j].0,
    decreases j - i,
{
    assert(extra_bound(extra, count, j));
    if i < j - 1 {
        lemma_extra_ascend(extra, count, i, j - 1);
    }
}

/// Host bytes of one scan's record, and of its copy of the entropy tables.
pub const PLANNED_SCAN_BYTES: u64 = 56 + 2048 * 4;

/// Host bytes of one task.
pub const TASK_BYTES: u64 = 48;

/// The tasks of one scan and the tables that they select from.
#[derive(Debug)]
pub struct PlannedScan {
    /// Start, end, high and low of the scan, one byte each.
    pub parameters: u32,
    pub tasks: Vec<[u32; 12]>,
    pub tables: Vec<u32>,
}

/// All scans of a JPEG.
#[derive(Debug)]
pub struct Plan {
    pub scans: Vec<PlannedScan>,
    /// Coefficient bits that the scans code.
    pub masks: [[u32; 64]; 3],
    pub owned_bytes: u64,
}

/// The components of a layout.
pub open spec fn layout_geometry(layout: LayoutView) -> GeometryView {
    GeometryView {
        planes: layout.planes,
        components: layout.planes.len() as int,
        mcus: mcu_extent(layout.planes),
    }
}

/// Declarations so far, with the tasks and host bytes that their scans need.
pub ghost struct Charge {
    pub walk: WalkView,
    pub tasks: int,
    pub owned: int,
}

/// Adds the tasks of a scan of `count` blocks.
pub open spec fn charged_scan(
    limits: JpegReconstructionLimits,
    before: Charge,
    walk: WalkView,
    count: int,
) -> Result<Charge, JpegReconstructionError> {
    let tasks = before.tasks + count;
    let owned = before.owned + count * TASK_BYTES;
    let cap = least(limits.max_tasks as int, u32::MAX as int) as u64;
    if tasks > cap {
        Err(
            JpegReconstructionError::Limit {
                resource: "scan tasks",
                required: tasks as u64,
                limit: cap,
            },
        )
    } else if owned > u64::MAX {
        Err(JpegReconstructionError::Invalid("scan geometry"))
    } else if owned > limits.max_plan_bytes {
        Err(
            JpegReconstructionError::Limit {
                resource: "host scan plan bytes",
                required: owned as u64,
                limit: limits.max_plan_bytes,
            },
        )
    } else {
        Ok(Charge { walk, tasks, owned })
    }
}

/// The declarations of the first `n` markers, charged.
pub open spec fn charged(
    header: &JpegReconstructionMetadata,
    geometry: GeometryView,
    limits: JpegReconstructionLimits,
    n: int,
) -> Result<Charge, JpegReconstructionError>
    decreases n,
{
    if n <= 0 {
        Ok(
            Charge {
                walk: unmarked(),
                tasks: 0,
                owned: header.scans@.len() * PLANNED_SCAN_BYTES as int,
            },
        )
    } else {
        match charged(header, geometry, limits, n - 1) {
            Err(error) => Err(error),
            Ok(before) => match marked(header, geometry, before.walk, n - 1) {
                Err(error) => Err(error),
                Ok(walk) => if header.markers@[n - 1] == 0xda {
                    charged_scan(
                        limits,
                        before,
                        walk,
                        scan_blocks(&header.scans@[before.walk.scans], geometry),
                    )
                } else {
                    Ok(Charge { walk, ..before })
                },
            },
        }
    }
}

/// Why a header has no scan plan. No task is allocated before all of this is known.
pub open spec fn plan_refusal(
    header: &JpegReconstructionMetadata,
    geometry: GeometryView,
    limits: JpegReconstructionLimits,
) -> Option<JpegReconstructionError> {
    let records = header.scans@.len() * PLANNED_SCAN_BYTES;
    if records > u64::MAX {
        Some(JpegReconstructionError::Invalid("scan geometry"))
    } else if records > limits.max_plan_bytes {
        Some(
            JpegReconstructionError::Limit {
                resource: "host scan plan bytes",
                required: records as u64,
                limit: limits.max_plan_bytes,
            },
        )
    } else if !components_match(header, geometry) {
        Some(JpegReconstructionError::Invalid("component binding"))
    } else {
        match charged(header, geometry, limits, header.markers@.len() as int) {
            Err(error) => Some(error),
            Ok(charge) => walk_refusal(header, geometry, charge.walk),
        }
    }
}

/// What is in force where a scan is introduced.
pub ghost struct ScanVisit {
    pub scan: int,
    pub interval: u16,
    pub tables: Seq<u32>,
}

/// The scans that the first `n` markers introduce.
pub open spec fn visits(header: &JpegReconstructionMetadata, geometry: GeometryView, n: int) -> Seq<
    ScanVisit,
>
    decreases n,
{
    if n <= 0 {
        Seq::empty()
    } else {
        let before = visits(header, geometry, n - 1);
        let walk = walked(header, geometry, n - 1)->Ok_0;
        if header.markers@[n - 1] == 0xda {
            before.push(
                ScanVisit { scan: walk.scans, interval: walk.interval, tables: walk.tables },
            )
        } else {
            before
        }
    }
}

/// The plan of one scan: its parameters, the tables in force and a task for every block.
pub open spec fn planned(
    scan: PlannedScan,
    header: &JpegReconstructionMetadata,
    geometry: GeometryView,
    visit: ScanVisit,
) -> bool {
    let declared = &header.scans@[visit.scan];
    &&& scan.parameters == declared.start + 0x100 * declared.end + 0x1_0000 * declared.high
        + 0x100_0000 * declared.low
    &&& scan.tables@ == visit.tables
    &&& scan.tasks@.len() == scan_blocks(declared, geometry)
    &&& forall|o: int|
        0 <= o < scan.tasks@.len() ==> (#[trigger] scan.tasks@[o])@ == task_of(
            declared,
            geometry,
            visit.interval,
            o,
        )
}

/// A layout's planes hold whole units and lie in a word-addressed buffer.
pub proof fn lemma_layout_geometry(layout: LayoutView)
    requires
        layout.wf(),
    ensures
        layout_geometry(layout).wf(),
        resident(layout_geometry(layout)),
{
    let g = layout_geometry(layout);
    let n = layout.planes.len() as int;
    assert forall|i: int| 0 <= i < n implies ({
        &&& 0 <= (#[trigger] g.planes[i]).sampling.0 <= 2
        &&& 0 <= g.planes[i].sampling.1 <= 2
        &&& 0 <= g.planes[i].real.0 <= 0x1_0000
        &&& 0 <= g.planes[i].real.1 <= 0x1_0000
    }) by {
        lemma_plane_extent(layout, i);
    }
    assert forall|i: int| 0 <= i < n implies #[trigger] plane_resident(g, i) by {
        lemma_plane_extent(layout, i);
        lemma_words_monotone(layout, i + 1, n);
        lemma_words_monotone(layout, 0, i);
    }
}

/// A plane has at most two blocks in each direction of every unit.
proof fn lemma_plane_extent(layout: LayoutView, i: int)
    requires
        layout.wf(),
        0 <= i < layout.planes.len(),
    ensures
        layout.plane_wf(i),
        1 <= layout.planes[i].columns <= 16384,
        1 <= layout.planes[i].rows <= 16384,
        0 <= layout.planes[i].columns * layout.planes[i].rows,
{
    assert(layout.plane_wf(i));
    let p = layout.planes[i];
    let (mx, my) = mcu_extent(layout.planes);
    assert(1 <= mx * p.sampling.0 <= 16384) by (nonlinear_arith)
        requires
            1 <= mx <= 8192,
            1 <= p.sampling.0 <= 2,
    ;
    assert(1 <= my * p.sampling.1 <= 16384) by (nonlinear_arith)
        requires
            1 <= my <= 8192,
            1 <= p.sampling.1 <= 2,
    ;
    assert(0 <= p.columns * p.rows) by (nonlinear_arith)
        requires
            1 <= p.columns,
            1 <= p.rows,
    ;
}

/// Later planes start later.
proof fn lemma_words_monotone(layout: LayoutView, i: int, j: int)
    requires
        layout.wf(),
        0 <= i <= j <= layout.planes.len(),
    ensures
        words_before(layout.planes, i) <= words_before(layout.planes, j),
    decreases j - i,
{
    if i < j {
        lemma_words_monotone(layout, i, j - 1);
        lemma_plane_extent(layout, j - 1);
    }
}

/// A charged walk is a walk.
pub(crate) proof fn lemma_charged(
    header: &JpegReconstructionMetadata,
    geometry: GeometryView,
    limits: JpegReconstructionLimits,
    n: int,
)
    requires
        0 <= n <= header.markers@.len(),
        charged(header, geometry, limits, header.markers@.len() as int) is Ok,
    ensures
        charged(header, geometry, limits, n) matches Ok(charge) && walked(header, geometry, n) == Ok::<
            WalkView,
            JpegReconstructionError,
        >(charge.walk) && visits(header, geometry, n).len() == charge.walk.scans,
    decreases n,
{
    lemma_charged_prefix(header, geometry, limits, n, header.markers@.len() as int);
    if n > 0 {
        lemma_charged(header, geometry, limits, n - 1);
    }
}

/// A refusal among the first markers stays the outcome.
proof fn lemma_charged_prefix(
    header: &JpegReconstructionMetadata,
    geometry: GeometryView,
    limits: JpegReconstructionLimits,
    i: int,
    n: int,
)
    requires
        0 <= i <= n,
    ensures
        charged(header, geometry, limits, i) is Err ==> charged(header, geometry, limits, n)
            == charged(header, geometry, limits, i),
    decreases n - i,
{
    if i < n {
        lemma_charged_prefix(header, geometry, limits, i, n - 1);
    }
}

/// An accepted header declares a scan, and entropy tables of the usual size at each scan.
pub proof fn lemma_scans_exist(
    header: &JpegReconstructionMetadata,
    geometry: GeometryView,
    limits: JpegReconstructionLimits,
)
    requires
        plan_refusal(header, geometry, limits) is None,
    ensures
        header.scans@.len() >= 1,
{
    let n = header.markers@.len() as int;
    let charge = charged(header, geometry, limits, n)->Ok_0;
    lemma_charged(header, geometry, limits, n - 1);
    let before = charged(header, geometry, limits, n - 1)->Ok_0;
    assert(header.markers@[n - 1] == 0xd9);
    assert(marked(header, geometry, before.walk, n - 1) is Ok);
    lemma_charged(header, geometry, limits, n - 1);
    assert(visits(header, geometry, n - 1).len() == before.walk.scans);
}

/// What accepted scans own is within the host limit.
pub proof fn lemma_owned_within(
    header: &JpegReconstructionMetadata,
    geometry: GeometryView,
    limits: JpegReconstructionLimits,
)
    requires
        plan_refusal(header, geometry, limits) is None,
    ensures
        charged(header, geometry, limits, header.markers@.len() as int)->Ok_0.owned
            <= limits.max_plan_bytes,
{
    lemma_owned_step(header, geometry, limits, header.markers@.len() as int);
}

proof fn lemma_owned_step(
    header: &JpegReconstructionMetadata,
    geometry: GeometryView,
    limits: JpegReconstructionLimits,
    n: int,
)
    requires
        header.scans@.len() * PLANNED_SCAN_BYTES <= limits.max_plan_bytes,
    ensures
        charged(header, geometry, limits, n) matches Ok(charge) ==> charge.owned
            <= limits.max_plan_bytes,
    decreases n,
{
    if n > 0 {
        lemma_owned_step(header, geometry, limits, n - 1);
    }
}

/// Validates every scan and charges all simultaneous allocations before constructing tasks.
fn charge(
    header: &JpegReconstructionMetadata,
    geometry: &Geometry,
    limits: JpegReconstructionLimits,
) -> (r: Result<([[u32; 64]; 3], u64), JpegReconstructionError>)
    requires
        header.declared(),
        geometry@.wf(),
    ensures
        match plan_refusal(header, geometry@, limits) {
            Some(error) => r == Err::<([[u32; 64]; 3], u64), JpegReconstructionError>(error),
            None => r matches Ok((masks, owned)) && ({
                let charge = charged(header, geometry@, limits, header.markers@.len() as int)->Ok_0;
                &&& planes_of(masks) == charge.walk.planes
                &&& owned == charge.owned
            }),
        },
{
    let mut tasks: u64 = 0;
    let mut owned: u64 = match (header.scans.len() as u64).checked_mul(PLANNED_SCAN_BYTES) {
        Some(owned) => owned,
        None => {
            return Err(JpegReconstructionError::Invalid("scan geometry"));
        },
    };
    match check("host scan plan bytes", owned, limits.max_plan_bytes) {
        Ok(_) => {},
        Err(error) => {
            return Err(error);
        },
    }
    match bind_components(header, geometry) {
        Ok(_) => {},
        Err(error) => {
            return Err(error);
        },
    }
    let cap: u64 = min_u64(limits.max_tasks, u32::MAX as u64);
    let mut walk = Walk::new(header);
    let ghost n = header.markers@.len() as int;
    let mut index: usize = 0;
    while index < header.markers.len()
        invariant
            header.declared(),
            geometry@.wf(),
            n == header.markers@.len(),
            index <= n,
            cap == least(limits.max_tasks as int, u32::MAX as int),
            walk.within(header),
            tasks <= cap,
            owned <= limits.max_plan_bytes,
            charged(header, geometry@, limits, index as int) == Ok::<
                Charge,
                JpegReconstructionError,
            >(Charge { walk: walk@, tasks: tasks as int, owned: owned as int }),
            plan_refusal(header, geometry@, limits) == match charged(header, geometry@, limits, n) {
                Err(error) => Some(error),
                Ok(charge) => walk_refusal(header, geometry@, charge.walk),
            },
        decreases n - index,
    {
        proof {
            lemma_charged_prefix(header, geometry@, limits, index + 1, n);
        }
        let visit = match walk.mark(header, geometry, index) {
            Ok(visit) => visit,
            Err(error) => {
                return Err(error);
            },
        };
        match visit {
            None => {},
            Some((_, count)) => {
                tasks = tasks + count as u64;
                match check("scan tasks", tasks, cap) {
                    Ok(_) => {},
                    Err(error) => {
                        return Err(error);
                    },
                }
                owned = match owned.checked_add(count as u64 * TASK_BYTES) {
                    Some(owned) => owned,
                    None => {
                        return Err(JpegReconstructionError::Invalid("scan geometry"));
                    },
                };
                match check("host scan plan bytes", owned, limits.max_plan_bytes) {
                    Ok(_) => {},
                    Err(error) => {
                        return Err(error);
                    },
                }
            },
        }
        index = index + 1;
    }
    match walk.finish(header, geometry) {
        Ok(masks) => Ok((masks, owned)),
        Err(error) => Err(error),
    }
}

/// A walk through the first markers of an accepted header is accepted.
proof fn lemma_walked_prefix(
    header: &JpegReconstructionMetadata,
    geometry: GeometryView,
    i: int,
    n: int,
)
    requires
        0 <= i <= n,
        walked(header, geometry, n) is Ok,
    ensures
        walked(header, geometry, i) is Ok,
    decreases n - i,
{
    if i < n {
        lemma_walked_prefix(header, geometry, i, n - 1);
    }
}

/// Fills the room for the scans of a header whose markers were accepted.
pub fn fill_scans(
    scans: Vec<PlannedScan>,
    header: &JpegReconstructionMetadata,
    geometry: &Geometry,
) -> (filled: Vec<PlannedScan>)
    requires
        header.declared(),
        geometry@.wf(),
        resident(geometry@),
        walked(header, geometry@, header.markers@.len() as int) matches Ok(walk) && walk.scans
            == header.scans@.len(),
        scans@.len() == header.scans@.len(),
        forall|s: int|
            0 <= s < scans@.len() ==> (#[trigger] scans@[s]).tasks@.len() == 0
                && scans@[s].tables@.len() == 0,
    ensures
        filled@.len() == header.scans@.len(),
        visits(header, geometry@, header.markers@.len() as int).len() == header.scans@.len(),
        forall|s: int|
            0 <= s < filled@.len() ==> (#[trigger] filled@[s]).tables@.len() == TABLE_WORDS,
        forall|s: int|
            0 <= s < filled@.len() ==> #[trigger] planned(
                filled@[s],
                header,
                geometry@,
                visits(header, geometry@, header.markers@.len() as int)[s],
            ),
{
    let mut scans = scans;
    let mut walk = Walk::new(header);
    let ghost g = geometry@;
    let ghost n = header.markers@.len() as int;
    let mut index: usize = 0;
    while index < header.markers.len()
        invariant
            header.declared(),
            geometry@ == g,
            g.wf(),
            resident(g),
            n == header.markers@.len(),
            index <= n,
            walked(header, g, n) is Ok,
            walk.within(header),
            walked(header, g, index as int) == Ok::<WalkView, JpegReconstructionError>(walk@),
            visits(header, g, index as int).len() == walk@.scans,
            scans@.len() == header.scans@.len(),
            0 <= walk@.scans <= scans@.len(),
            forall|s: int|
                walk@.scans <= s < scans@.len() ==> (#[trigger] scans@[s]).tasks@.len() == 0
                    && scans@[s].tables@.len() == 0,
            forall|s: int|
                0 <= s < walk@.scans ==> (#[trigger] scans@[s]).tables@.len() == TABLE_WORDS,
            forall|s: int|
                0 <= s < walk@.scans ==> #[trigger] planned(
                    scans@[s],
                    header,
                    g,
                    visits(header, g, index as int)[s],
                ),
        decreases n - index,
    {
        proof {
            lemma_walked_prefix(header, g, index + 1, n);
        }
        let ghost before = walk@;
        let ghost rooms = scans@;
        let scan_index: usize = walk.scans();
        let visit = walk.mark(header, geometry, index);
        assert(visit is Ok);
        match visit {
            Ok(Some((_, count))) => {
                let scan = &header.scans[scan_index];
                let interval: u16 = walk.interval();
                let mut room = PlannedScan { parameters: 0, tasks: Vec::new(), tables: Vec::new() };
                scans.set_and_swap(scan_index, &mut room);
                let tasks = fill_tasks(room.tasks, scan, geometry, interval, count);
                let mut tables: Vec<u32> = room.tables;
                let words = walk.tables(header);
                let mut i: usize = 0;
                while i < words.len()
                    invariant
                        i <= words@.len(),
                        tables@ =~= words@.take(i as int),
                    decreases words@.len() - i,
                {
                    tables.push(words[i]);
                    i = i + 1;
                }
                assert(tables@ =~= words@);
                let parameters: u32 = scan.start as u32 + 0x100 * scan.end as u32 + 0x1_0000
                    * scan.high as u32 + 0x100_0000 * scan.low as u32;
                let planned_scan = PlannedScan { parameters, tasks, tables };
                let ghost visit = ScanVisit {
                    scan: before.scans,
                    interval: before.interval,
                    tables: before.tables,
                };
                assert(planned(planned_scan, header, g, visit));
                scans.set(scan_index, planned_scan);
            },
            _ => {},
        }
        proof {
            let all = visits(header, g, index + 1);
            assert forall|s: int| 0 <= s < walk@.scans implies #[trigger] planned(
                scans@[s],
                header,
                g,
                all[s],
            ) by {
                if s < before.scans {
                    assert(scans@[s] == rooms[s]);
                    assert(planned(rooms[s], header, g, visits(header, g, index as int)[s]));
                }
            }
        }
        index = index + 1;
    }
    scans
}

/// Plans every scan of a JPEG, after all of them were accepted and charged. A planned JPEG has
/// at least one scan and its tables, so memory is always asked for.
pub fn build(
    header: &JpegReconstructionMetadata,
    layout: &JpegCoefficientLayout,
    limits: JpegReconstructionLimits,
) -> (r: Result<Plan, JpegReconstructionError>)
    requires
        header.declared(),
    ensures
        match plan_refusal(header, layout_geometry(layout@), limits) {
            Some(error) => r == Err::<Plan, JpegReconstructionError>(error),
            None => match r {
                Err(error) => error == JpegReconstructionError::Allocation,
                Ok(plan) => {
                    let g = layout_geometry(layout@);
                    let n = header.markers@.len() as int;
                    let charge = charged(header, g, limits, n)->Ok_0;
                    &&& planes_of(plan.masks) == charge.walk.planes
                    &&& plan.owned_bytes == charge.owned
                    &&& plan.scans@.len() == header.scans@.len()
                    &&& forall|s: int|
                        0 <= s < plan.scans@.len() ==> (#[trigger] plan.scans@[s]).tables@.len()
                            == TABLE_WORDS
                    &&& visits(header, g, n).len() == header.scans@.len()
                    &&& forall|s: int|
                        0 <= s < plan.scans@.len() ==> #[trigger] planned(
                            plan.scans@[s],
                            header,
                            g,
                            visits(header, g, n)[s],
                        )
                },
            },
        },
{
    let planes = layout.planes();
    let ghost g = layout_geometry(layout@);
    proof {
        lemma_layout_geometry(layout@);
        lemma_plane_extent(layout@, 0);
        assert(layout@.planes[0] == planes@[0]@);
        assert(planes@.len() == layout@.planes.len());
    }
    let first: JpegCoefficientPlane = planes[0];
    let geometry = Geometry {
        planes,
        components: planes.len(),
        mcus: [first.blocks_per_row / first.sampling[0], first.block_rows / first.sampling[1]],
    };
    assert(geometry@ == g);
    let (masks, owned_bytes) = match charge(header, &geometry, limits) {
        Ok(charge) => charge,
        Err(error) => {
            return Err(error);
        },
    };
    let mut scans: Vec<PlannedScan> = match allocate(header.scans.len()) {
        Ok(scans) => scans,
        Err(error) => {
            return Err(error);
        },
    };
    let mut walk = Walk::new(header);
    let ghost n = header.markers@.len() as int;
    let mut index: usize = 0;
    while index < header.markers.len()
        invariant
            header.declared(),
            geometry@ == g,
            g == layout_geometry(layout@),
            g.wf(),
            n == header.markers@.len(),
            index <= n,
            plan_refusal(header, g, limits) is None,
            charged(header, g, limits, n) is Ok,
            walk.within(header),
            walked(header, g, index as int) == Ok::<WalkView, JpegReconstructionError>(walk@),
            walk@.scans == scans@.len(),
            forall|s: int|
                0 <= s < scans@.len() ==> (#[trigger] scans@[s]).tasks@.len() == 0
                    && scans@[s].tables@.len() == 0,
        decreases n - index,
    {
        proof {
            lemma_charged(header, g, limits, index + 1);
        }
        let visit = match walk.mark(header, &geometry, index) {
            Ok(visit) => visit,
            Err(error) => {
                return Err(error);
            },
        };
        match visit {
            None => {},
            Some((_, count)) => {
                let tasks: Vec<[u32; 12]> = match allocate(count as usize) {
                    Ok(tasks) => tasks,
                    Err(error) => {
                        return Err(error);
                    },
                };
                let tables: Vec<u32> = match allocate(TABLE_WORDS) {
                    Ok(tables) => tables,
                    Err(error) => {
                        return Err(error);
                    },
                };
                scans.push(PlannedScan { parameters: 0, tasks, tables });
            },
        }
        index = index + 1;
    }
    proof {
        lemma_charged(header, g, limits, n);
    }
    let scans = fill_scans(scans, header, &geometry);
    Ok(Plan { scans, masks, owned_bytes })
}

} // verus!
