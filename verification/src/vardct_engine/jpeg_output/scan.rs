//! Bounded scan scheduling from immutable metadata and a checked resident coefficient layout.

use crate::vardct_engine::jpeg::{JpegCoefficientPlane, PlaneView};
use crate::vardct_engine::jpeg_output::metadata::{HuffmanTable, JpegScan, ScanComponent};
use crate::vardct_engine::jpeg_output::JpegReconstructionError;
use vstd::prelude::*;

verus! {

/// The components that scans refer to.
#[derive(Clone, Copy, Debug)]
pub struct Geometry<'a> {
    pub planes: &'a [JpegCoefficientPlane],
    pub components: usize,
    pub mcus: [u32; 2],
}

/// The numbers of a [`Geometry`].
pub ghost struct GeometryView {
    pub planes: Seq<PlaneView>,
    pub components: int,
    pub mcus: (int, int),
}

impl<'a> View for Geometry<'a> {
    type V = GeometryView;

    open spec fn view(&self) -> GeometryView {
        GeometryView {
            planes: self.planes@.map_values(|p: JpegCoefficientPlane| p@),
            components: self.components as int,
            mcus: (self.mcus[0] as int, self.mcus[1] as int),
        }
    }
}

impl GeometryView {
    /// At most three components of at most two by two blocks in a minimum coded unit.
    pub open spec fn wf(self) -> bool {
        &&& self.components <= self.planes.len()
        &&& self.components <= 3
        &&& 0 <= self.mcus.0 <= 0x1_0000
        &&& 0 <= self.mcus.1 <= 0x1_0000
        &&& forall|i: int|
            0 <= i < self.planes.len() ==> {
                &&& 0 <= (#[trigger] self.planes[i]).sampling.0 <= 2
                &&& 0 <= self.planes[i].sampling.1 <= 2
                &&& 0 <= self.planes[i].real.0 <= 0x1_0000
                &&& 0 <= self.planes[i].real.1 <= 0x1_0000
            }
    }
}

/// Blocks of the first `n` scan components in a minimum coded unit.
pub open spec fn interleaved_blocks(
    components: Seq<ScanComponent>,
    planes: Seq<PlaneView>,
    n: int,
) -> int
    decreases n,
{
    if n <= 0 {
        0
    } else {
        let plane = planes[components[n - 1].component as int];
        interleaved_blocks(components, planes, n - 1) + plane.sampling.0 * plane.sampling.1
    }
}

/// Distinct known components with entropy table selectors of two bits.
pub open spec fn components_bound(components: Seq<ScanComponent>, known: int) -> bool {
    &&& 1 <= components.len() <= known
    &&& forall|i: int|
        0 <= i < components.len() ==> {
            &&& (#[trigger] components[i]).component < known
            &&& components[i].dc <= 3
            &&& components[i].ac <= 3
        }
    &&& forall|i: int, j: int|
        0 <= i < j < components.len() ==> (#[trigger] components[i]).component != (
        #[trigger] components[j]).component
}

/// All coefficients at full precision.
pub open spec fn sequential(scan: &JpegScan) -> bool {
    scan.start == 0 && scan.end == 63 && scan.low == 0 && scan.high == 0
}

/// A DC scan, or an AC band of one component, first or refined by one bit.
pub open spec fn progressive_form(scan: &JpegScan) -> bool {
    &&& scan.start <= scan.end <= 63
    &&& scan.high <= 13
    &&& scan.low <= 13
    &&& scan.high != 0 ==> scan.high == scan.low + 1
    &&& scan.start == 0 ==> scan.end == 0
    &&& scan.start != 0 ==> scan.components@.len() == 1
}

/// Units that the scan walks: minimum coded units, or the real blocks of its one component.
pub open spec fn scan_units(scan: &JpegScan, geometry: GeometryView) -> (int, int) {
    if scan.components@.len() > 1 {
        geometry.mcus
    } else {
        geometry.planes[scan.components@[0].component as int].real
    }
}

/// Blocks that the scan codes in each of its units.
pub open spec fn unit_blocks(scan: &JpegScan, geometry: GeometryView) -> int {
    if scan.components@.len() > 1 {
        interleaved_blocks(scan.components@, geometry.planes, scan.components@.len() as int)
    } else {
        1
    }
}

/// Blocks that the scan codes.
pub open spec fn scan_blocks(scan: &JpegScan, geometry: GeometryView) -> int {
    scan_units(scan, geometry).0 * scan_units(scan, geometry).1 * unit_blocks(scan, geometry)
}

/// Reset `i` names a block of the scan behind the one that reset `i - 1` names.
pub open spec fn reset_bound(resets: Seq<u32>, count: int, i: int) -> bool {
    resets[i] < count && (i > 0 ==> resets[i - 1] < resets[i])
}

/// Entry `i` names one to four runs of a block behind the one that entry `i - 1` names.
pub open spec fn extra_bound(extra: Seq<(u32, u8)>, count: int, i: int) -> bool {
    extra[i].0 < count && 1 <= extra[i].1 <= 4 && (i > 0 ==> extra[i - 1].0 < extra[i].0)
}

/// Why a scan cannot be coded from this geometry.
pub open spec fn scan_refusal(scan: &JpegScan, geometry: GeometryView, progressive: bool) -> Option<
    JpegReconstructionError,
> {
    let count = scan_blocks(scan, geometry);
    let extra = scan.extra_zeros@;
    let metadata = JpegReconstructionError::Invalid("scan block metadata");
    let declaration = JpegReconstructionError::Unsupported(
        "scan spectral or refinement declaration",
    );
    if !components_bound(scan.components@, geometry.components) {
        Some(JpegReconstructionError::Invalid("scan components"))
    } else if sequential(scan) && progressive {
        Some(JpegReconstructionError::Invalid("sequential scan in progressive frame"))
    } else if !sequential(scan) && !(progressive && progressive_form(scan)) {
        Some(declaration)
    } else if count > u32::MAX {
        Some(JpegReconstructionError::Invalid("scan geometry"))
    } else if exists|i: int| 0 <= i < scan.resets@.len() && !reset_bound(scan.resets@, count, i) {
        Some(metadata)
    } else if extra.len() > 0 && extra_bound(extra, count, 0) && (scan.end == 0 || scan.high != 0) {
        Some(declaration)
    } else if exists|i: int| 0 <= i < extra.len() && !extra_bound(extra, count, i) {
        Some(metadata)
    } else {
        None
    }
}

/// The units and blocks that a scan walks, or why it cannot be coded.
#[verifier::loop_isolation(false)]
pub fn scan_extent(scan: &JpegScan, geometry: &Geometry, progressive: bool) -> (r: Result<
    ([u32; 2], u32),
    JpegReconstructionError,
>)
    requires
        geometry@.wf(),
    ensures
        match scan_refusal(scan, geometry@, progressive) {
            Some(error) => r == Err::<([u32; 2], u32), JpegReconstructionError>(error),
            None => r matches Ok((extent, count)) && (extent[0] as int, extent[1] as int) == scan_units(
                scan,
                geometry@,
            ) && count == scan_blocks(scan, geometry@),
        },
{
    let n: usize = scan.components.len();
    if n == 0 || n > geometry.components {
        return Err(JpegReconstructionError::Invalid("scan components"));
    }
    let mut seen: [bool; 3] = [false, false, false];
    let mut blocks_per_mcu: u32 = 0;
    let mut i: usize = 0;
    while i < n
        invariant
            geometry@.wf(),
            n == scan.components@.len(),
            1 <= n <= geometry.components,
            0 <= i <= n,
            blocks_per_mcu == interleaved_blocks(scan.components@, geometry@.planes, i as int),
            blocks_per_mcu <= 4 * i,
            forall|k: int|
                0 <= k < i ==> {
                    &&& (#[trigger] scan.components@[k]).component < geometry.components
                    &&& scan.components@[k].dc <= 3
                    &&& scan.components@[k].ac <= 3
                    &&& seen@[scan.components@[k].component as int]
                },
            forall|k: int, j: int|
                0 <= k < j < i ==> (#[trigger] scan.components@[k]).component != (
                #[trigger] scan.components@[j]).component,
            forall|c: int|
                0 <= c < 3 && #[trigger] seen@[c] ==> exists|k: int|
                    0 <= k < i && (#[trigger] scan.components@[k]).component == c,
        decreases n - i,
    {
        let c = scan.components[i];
        let index: usize = c.component as usize;
        if index >= geometry.components || c.dc > 3 || c.ac > 3 || seen[index] {
            proof {
                if index < geometry.components && c.dc <= 3 && c.ac <= 3 {
                    let k = choose|k: int|
                        0 <= k < i && (#[trigger] scan.components@[k]).component == index;
                    assert(scan.components@[k].component == scan.components@[i as int].component);
                }
                assert(!components_bound(scan.components@, geometry.components as int));
            }
            return Err(JpegReconstructionError::Invalid("scan components"));
        }
        let ghost before = seen@;
        seen[index] = true;
        let sampling: [u32; 2] = geometry.planes[index].sampling;
        assert(geometry@.planes[index as int] == geometry.planes@[index as int]@);
        assert(0 <= sampling[0] * sampling[1] <= 4) by (nonlinear_arith)
            requires
                sampling[0] <= 2,
                sampling[1] <= 2,
        ;
        blocks_per_mcu = blocks_per_mcu + sampling[0] * sampling[1];
        proof {
            assert forall|c: int| 0 <= c < 3 && #[trigger] seen@[c] implies exists|k: int|
                0 <= k < i + 1 && (#[trigger] scan.components@[k]).component == c by {
                if c == index {
                    assert(scan.components@[i as int].component == c);
                } else {
                    assert(before[c]);
                    let k = choose|k: int|
                        0 <= k < i && (#[trigger] scan.components@[k]).component == c;
                    assert(scan.components@[k].component == c);
                }
            }
        }
        i = i + 1;
    }
    assert(components_bound(scan.components@, geometry.components as int));
    let whole = scan.start == 0 && scan.end == 63 && scan.low == 0 && scan.high == 0;
    if whole && progressive {
        return Err(JpegReconstructionError::Invalid("sequential scan in progressive frame"));
    }
    if !whole && (!progressive || scan.start > scan.end || scan.end > 63 || scan.high > 13
        || scan.low > 13 || (scan.high != 0 && scan.high != scan.low + 1) || (scan.start == 0
        && scan.end != 0) || (scan.start != 0 && n != 1)) {
        return Err(
            JpegReconstructionError::Unsupported("scan spectral or refinement declaration"),
        );
    }
    assert(geometry@.planes[scan.components@[0].component as int]
        == geometry.planes@[scan.components@[0].component as int]@);
    let extent: [u32; 2] = if n > 1 {
        geometry.mcus
    } else {
        blocks_per_mcu = 1;
        geometry.planes[scan.components[0].component as usize].real_blocks
    };
    assert(extent[0] * extent[1] * blocks_per_mcu <= 0x1_0000_0000 * 12 && 0 <= extent[0]
        * extent[1] <= 0x1_0000_0000) by (nonlinear_arith)
        requires
            extent[0] <= 0x1_0000,
            extent[1] <= 0x1_0000,
            blocks_per_mcu <= 12,
    ;
    let blocks: u64 = extent[0] as u64 * extent[1] as u64 * blocks_per_mcu as u64;
    assert(blocks == scan_blocks(scan, geometry@));
    if blocks > u32::MAX as u64 {
        return Err(JpegReconstructionError::Invalid("scan geometry"));
    }
    let count: u32 = blocks as u32;
    let mut i: usize = 0;
    while i < scan.resets.len()
        invariant
            0 <= i <= scan.resets@.len(),
            forall|k: int| 0 <= k < i ==> reset_bound(scan.resets@, count as int, k),
        decreases scan.resets@.len() - i,
    {
        let block: u32 = scan.resets[i];
        if block >= count || (i != 0 && block <= scan.resets[i - 1]) {
            assert(!reset_bound(scan.resets@, count as int, i as int));
            return Err(JpegReconstructionError::Invalid("scan block metadata"));
        }
        i = i + 1;
    }
    let mut i: usize = 0;
    while i < scan.extra_zeros.len()
        invariant
            0 <= i <= scan.extra_zeros@.len(),
            forall|k: int| 0 <= k < i ==> extra_bound(scan.extra_zeros@, count as int, k),
            i > 0 ==> scan.end != 0 && scan.high == 0,
        decreases scan.extra_zeros@.len() - i,
    {
        let (block, runs) = scan.extra_zeros[i];
        if block >= count || runs == 0 || runs > 4 || (i != 0 && block <= scan.extra_zeros[i
            - 1].0) {
            assert(!extra_bound(scan.extra_zeros@, count as int, i as int));
            return Err(JpegReconstructionError::Invalid("scan block metadata"));
        }
        if scan.end == 0 || scan.high != 0 {
            return Err(
                JpegReconstructionError::Unsupported("scan spectral or refinement declaration"),
            );
        }
        i = i + 1;
    }
    Ok((extent, count))
}

/// Coefficient bits already coded, for each component and each place of its spectrum.
pub open spec fn planes_of(progression: [[u32; 64]; 3]) -> Seq<Seq<u32>> {
    Seq::new(3, |c: int| progression[c]@)
}

/// The bits that a scan codes: all above `low` at first, then the bit `low` alone.
pub open spec fn coded_mask(scan: &JpegScan) -> u32 {
    if scan.high == 0 {
        0xffffu32 & (u32::MAX << scan.low)
    } else {
        1u32 << scan.low
    }
}

/// The bits below those that a scan codes.
pub open spec fn lower_mask(scan: &JpegScan) -> u32 {
    ((1u32 << scan.low) - 1) as u32
}

/// A place already holds a bit that this scan codes or one below it, or misses the bit that a
/// refinement starts from.
pub open spec fn place_refused(previous: u32, scan: &JpegScan) -> bool {
    ||| previous & (coded_mask(scan) | lower_mask(scan)) != 0
    ||| scan.high != 0 && previous & (1u32 << scan.high) == 0
}

/// The first place from `k` on that refuses the scan, or one past its band.
pub open spec fn band_stop(plane: Seq<u32>, scan: &JpegScan, k: int) -> int
    decreases scan.end + 1 - k,
{
    if k > scan.end || place_refused(plane[k], scan) {
        k
    } else {
        band_stop(plane, scan, k + 1)
    }
}

/// A component after the scan, up to the place that refuses it.
pub open spec fn band_coded(plane: Seq<u32>, scan: &JpegScan, stop: int) -> Seq<u32> {
    Seq::new(
        plane.len(),
        |k: int|
            if scan.start <= k < stop {
                plane[k] | coded_mask(scan)
            } else {
                plane[k]
            },
    )
}

/// All components after the first `n` components of the scan, with the refusal if there was one.
pub open spec fn progress(scan: &JpegScan, planes: Seq<Seq<u32>>, n: int) -> (
    Seq<Seq<u32>>,
    Option<JpegReconstructionError>,
)
    decreases n,
{
    if n <= 0 {
        (planes, None)
    } else {
        let (before, refusal) = progress(scan, planes, n - 1);
        let c = scan.components@[n - 1].component as int;
        if refusal is Some {
            (before, refusal)
        } else if scan.start != 0 && before[c][0] == 0 {
            (before, Some(JpegReconstructionError::Invalid("AC scan before DC")))
        } else {
            let stop = band_stop(before[c], scan, scan.start as int);
            let after = before.update(c, band_coded(before[c], scan, stop));
            if stop <= scan.end {
                (after, Some(JpegReconstructionError::Invalid("scan progression")))
            } else {
                (after, None)
            }
        }
    }
}

/// Records the bits that a scan codes. On a refusal the places before the refusing one keep the
/// bits that the scan would have coded.
pub fn update_progression(scan: &JpegScan, progression: &mut [[u32; 64]; 3]) -> (r: Result<
    (),
    JpegReconstructionError,
>)
    requires
        scan.end <= 63,
        scan.high < 32,
        scan.low < 32,
        forall|i: int|
            0 <= i < scan.components@.len() ==> (#[trigger] scan.components@[i]).component < 3,
    ensures
        planes_of(*final(progression)) == progress(
            scan,
            planes_of(*old(progression)),
            scan.components@.len() as int,
        ).0,
        match progress(scan, planes_of(*old(progression)), scan.components@.len() as int).1 {
            Some(error) => r == Err::<(), JpegReconstructionError>(error),
            None => r is Ok,
        },
{
    let mask: u32 = if scan.high == 0 {
        0xffffu32 & (u32::MAX << scan.low)
    } else {
        1u32 << scan.low
    };
    let low: u8 = scan.low;
    assert(1u32 << low >= 1) by (bit_vector)
        requires
            low < 32,
    ;
    let lower: u32 = (1u32 << scan.low) - 1;
    let ghost start = planes_of(*progression);
    let n: usize = scan.components.len();
    let mut i: usize = 0;
    while i < n
        invariant
            n == scan.components@.len(),
            i <= n,
            scan.end <= 63,
            scan.high < 32,
            scan.low < 32,
            mask == coded_mask(scan),
            lower == lower_mask(scan),
            forall|i: int|
                0 <= i < scan.components@.len() ==> (#[trigger] scan.components@[i]).component < 3,
            planes_of(*progression) == progress(scan, start, i as int).0,
            progress(scan, start, i as int).1 is None,
            start == planes_of(*old(progression)),
        decreases n - i,
    {
        let c: usize = scan.components[i].component as usize;
        let mut plane: [u32; 64] = progression[c];
        let ghost first = plane@;
        assert(first == planes_of(*progression)[c as int]);
        if scan.start != 0 && plane[0] == 0 {
            proof {
                lemma_progress_stops(scan, start, i + 1, n as int);
            }
            return Err(JpegReconstructionError::Invalid("AC scan before DC"));
        }
        let mut k: usize = scan.start as usize;
        let mut refused = false;
        while k <= scan.end as usize && !refused
            invariant
                scan.start <= k,
                scan.end <= 63,
                scan.high < 32,
                scan.low < 32,
                mask == coded_mask(scan),
                lower == lower_mask(scan),
                first.len() == 64,
                scan.start <= scan.end ==> k <= scan.end + 1,
                scan.start > scan.end ==> k == scan.start && !refused,
                refused ==> k <= scan.end && place_refused(first[k as int], scan),
                band_stop(first, scan, scan.start as int) == band_stop(first, scan, k as int),
                plane@ =~= band_coded(first, scan, k as int),
            decreases scan.end + 1 - k, if refused { 0int } else { 1int },
        {
            let previous: u32 = plane[k];
            if previous & (mask | lower) != 0 || (scan.high != 0 && previous & (1u32 << scan.high)
                == 0) {
                refused = true;
            } else {
                plane[k] = previous | mask;
                k = k + 1;
            }
        }
        let ghost before = planes_of(*progression);
        progression[c] = plane;
        proof {
            let stop = band_stop(first, scan, scan.start as int);
            assert(stop == k);
            assert(planes_of(*progression) =~= before.update(
                c as int,
                band_coded(before[c as int], scan, stop),
            ));
        }
        if refused {
            proof {
                lemma_progress_stops(scan, start, i + 1, n as int);
            }
            return Err(JpegReconstructionError::Invalid("scan progression"));
        }
        i = i + 1;
    }
    Ok(())
}

/// A refused scan changes nothing further.
proof fn lemma_progress_stops(scan: &JpegScan, planes: Seq<Seq<u32>>, i: int, n: int)
    requires
        0 <= i <= n,
        progress(scan, planes, i).1 is Some,
    ensures
        progress(scan, planes, n) == progress(scan, planes, i),
    decreases n - i,
{
    if i < n {
        lemma_progress_stops(scan, planes, i, n - 1);
    }
}

/// Words of the eight entropy tables: four for DC symbols, then four for AC symbols.
pub const TABLE_WORDS: usize = 2048;

/// Where a table starts among the eight.
pub open spec fn table_base(table: HuffmanTable) -> int {
    table.index * 256 + if table.ac { 1024int } else { 0 }
}

/// Codes shorter than `bits`.
pub open spec fn codes_below(counts: Seq<u16>, bits: int) -> int
    decreases bits,
{
    if bits <= 1 {
        0
    } else {
        codes_below(counts, bits - 1) + counts[bits - 1]
    }
}

/// The first canonical code of `bits` bits.
pub open spec fn first_code(counts: Seq<u16>, bits: int) -> int
    decreases bits,
{
    if bits <= 1 {
        0
    } else {
        2 * (first_code(counts, bits - 1) + counts[bits - 1])
    }
}

/// Code lengths are at most sixteen bits, so a power of two in this range is a word.
pub open spec fn code_space(bits: int) -> int {
    vstd::arithmetic::power2::pow2(bits as nat) as int
}

/// The tables after the first `n` codes of `bits` bits and all shorter ones: each symbol holds
/// its code length above sixteen bits of canonical code. The symbol 256 reserves its code.
pub open spec fn codes_assigned(
    table: HuffmanTable,
    words: Seq<u32>,
    bits: int,
    n: int,
) -> Result<Seq<u32>, JpegReconstructionError>
    decreases bits, n,
{
    if n <= 0 {
        if bits <= 1 {
            Ok(
                Seq::new(
                    words.len(),
                    |i: int|
                        if table_base(table) <= i < table_base(table) + 256 {
                            0
                        } else {
                            words[i]
                        },
                ),
            )
        } else {
            codes_assigned(table, words, bits - 1, table.counts[bits - 1] as int)
        }
    } else {
        match codes_assigned(table, words, bits, n - 1) {
            Err(error) => Err(error),
            Ok(before) => {
                let place = codes_below(table.counts@, bits) + n - 1;
                let code = first_code(table.counts@, bits) + n - 1;
                if place >= table.values@.len() {
                    Err(JpegReconstructionError::Invalid("Huffman counts"))
                } else if code >= code_space(bits) {
                    Err(JpegReconstructionError::Invalid("Huffman overflow"))
                } else if table.values@[place] == 256 {
                    Ok(before)
                } else if table.values@[place] > 255 || code == code_space(bits) - 1 {
                    Err(JpegReconstructionError::Invalid("Huffman symbol"))
                } else {
                    Ok(
                        before.update(
                            table_base(table) + table.values@[place],
                            (bits * 0x1_0000 + code) as u32,
                        ),
                    )
                }
            },
        }
    }
}

/// The tables after one Huffman table, whose codes use up its symbols.
pub open spec fn table_assigned(table: HuffmanTable, words: Seq<u32>) -> Result<
    Seq<u32>,
    JpegReconstructionError,
> {
    match codes_assigned(table, words, 16, table.counts[16] as int) {
        Err(error) => Err(error),
        Ok(after) => if codes_below(table.counts@, 17) != table.values@.len() {
            Err(JpegReconstructionError::Invalid("Huffman values"))
        } else {
            Ok(after)
        },
    }
}

/// An error among the codes assigned so far stays the outcome.
proof fn lemma_codes_refused(table: HuffmanTable, words: Seq<u32>, bits: int, n: int)
    requires
        1 <= bits <= 16,
        0 <= n <= table.counts[bits],
        codes_assigned(table, words, bits, n) is Err,
    ensures
        table_assigned(table, words) == Err::<Seq<u32>, JpegReconstructionError>(
            codes_assigned(table, words, bits, n)->Err_0,
        ),
    decreases 16 - bits, table.counts[bits] - n,
{
    if n < table.counts[bits] {
        lemma_codes_refused(table, words, bits, n + 1);
    } else if bits < 16 {
        assert(codes_assigned(table, words, bits + 1, 0) == codes_assigned(table, words, bits, n));
        lemma_codes_refused(table, words, bits + 1, 0);
    }
}

/// Assigns the canonical codes of one table.
pub(crate) fn assign_table(table: &HuffmanTable, words: &mut Vec<u32>) -> (r: Result<
    (),
    JpegReconstructionError,
>)
    requires
        old(words)@.len() == TABLE_WORDS,
        table.index <= 3,
    ensures
        final(words)@.len() == TABLE_WORDS,
        match table_assigned(*table, old(words)@) {
            Err(error) => r == Err::<(), JpegReconstructionError>(error),
            Ok(after) => r is Ok && final(words)@ == after,
        },
{
    let ghost start = words@;
    let base: usize = table.index as usize * 256 + if table.ac {
        1024
    } else {
        0
    };
    let mut i: usize = 0;
    while i < 256
        invariant
            0 <= i <= 256,
            base == table_base(*table),
            base + 256 <= TABLE_WORDS,
            start.len() == TABLE_WORDS,
            words@ =~= Seq::new(
                start.len(),
                |k: int|
                    if base <= k < base + i {
                        0u32
                    } else {
                        start[k]
                    },
            ),
        decreases 256 - i,
    {
        words[base + i] = 0;
        i = i + 1;
    }
    let mut at: usize = 0;
    let mut code: u32 = 0;
    let mut bits: usize = 1;
    assert(codes_assigned(*table, start, 1, 0) == Ok::<Seq<u32>, JpegReconstructionError>(words@))
        by {
        assert(codes_assigned(*table, start, 1, 0)->Ok_0 =~= words@);
    }
    proof {
        vstd::arithmetic::power2::lemma2_to64();
    }
    while bits <= 16
        invariant
            1 <= bits <= 17,
            start == old(words)@,
            table.index <= 3,
            base == table_base(*table),
            base + 256 <= TABLE_WORDS,
            words@.len() == TABLE_WORDS,
            at == codes_below(table.counts@, bits as int),
            code == first_code(table.counts@, bits as int),
            code <= code_space(bits as int),
            at <= table.values@.len(),
            bits <= 16 ==> codes_assigned(*table, start, bits as int, 0) == Ok::<
                Seq<u32>,
                JpegReconstructionError,
            >(words@),
            bits == 17 ==> codes_assigned(*table, start, 16, table.counts[16] as int) == Ok::<
                Seq<u32>,
                JpegReconstructionError,
            >(words@),
        decreases 17 - bits,
    {
        let ghost at0 = at;
        let ghost code0 = code;
        let space: u32 = 1u32 << bits;
        proof {
            crate::vardct_frontend::lemma_one_shifted(bits as u32);
            assert(1u32 << bits == 1u32 << bits as u32) by (bit_vector)
                requires
                    bits <= 16,
            ;
            lemma_code_space(bits as int);
        }
        let count: u16 = table.counts[bits];
        let mut n: u16 = 0;
        while n < count
            invariant
                1 <= bits <= 16,
                start == old(words)@,
                table.index <= 3,
                base == table_base(*table),
                base + 256 <= TABLE_WORDS,
                words@.len() == TABLE_WORDS,
                count == table.counts[bits as int],
                n <= count,
                space == code_space(bits as int),
                space <= 0x1_0000,
                at0 == codes_below(table.counts@, bits as int),
                code0 == first_code(table.counts@, bits as int),
                at == at0 + n,
                code == code0 + n,
                code <= space,
                at <= table.values@.len(),
                codes_assigned(*table, start, bits as int, n as int) == Ok::<
                    Seq<u32>,
                    JpegReconstructionError,
                >(words@),
            decreases count - n,
        {
            if at >= table.values.len() {
                proof {
                    lemma_codes_refused(*table, start, bits as int, n + 1);
                }
                return Err(JpegReconstructionError::Invalid("Huffman counts"));
            }
            let value: u16 = table.values[at];
            if code >= space {
                proof {
                    lemma_codes_refused(*table, start, bits as int, n + 1);
                }
                return Err(JpegReconstructionError::Invalid("Huffman overflow"));
            }
            if value != 256 {
                if value > 255 || code == space - 1 {
                    proof {
                        lemma_codes_refused(*table, start, bits as int, n + 1);
                    }
                    return Err(JpegReconstructionError::Invalid("Huffman symbol"));
                }
                let word: u32 = ((bits as u32) << 16) | code;
                proof {
                    let b = bits as u32;
                    assert((b << 16) | code == b * 0x1_0000 + code) by (bit_vector)
                        requires
                            b <= 16,
                            code < 0x1_0000,
                    ;
                }
                words[base + value as usize] = word;
            }
            at = at + 1;
            code = code + 1;
            n = n + 1;
        }
        code = code << 1;
        proof {
            let c = (code0 + n) as u32;
            assert(c << 1 == 2 * c) by (bit_vector)
                requires
                    c <= 0x1_0000,
            ;
            lemma_code_space(bits + 1);
        }
        bits = bits + 1;
    }
    if at != table.values.len() {
        return Err(JpegReconstructionError::Invalid("Huffman values"));
    }
    Ok(())
}

/// Code spaces double with each bit and reach seventeen bits.
proof fn lemma_code_space(bits: int)
    requires
        1 <= bits <= 17,
    ensures
        code_space(bits) == 2 * code_space(bits - 1),
        code_space(bits) <= 0x2_0000,
        bits <= 16 ==> code_space(bits) <= 0x1_0000,
{
    vstd::arithmetic::power2::lemma_pow2_unfold(bits as nat);
    vstd::arithmetic::power2::lemma2_to64();
    if bits < 17 {
        vstd::arithmetic::power2::lemma_pow2_strictly_increases(bits as nat, 17);
    }
    if bits < 16 {
        vstd::arithmetic::power2::lemma_pow2_strictly_increases(bits as nat, 16);
    }
}

} // verus!
