//! Which resident quantizers fill each quantization table of a JPEG file.

use crate::vardct_engine::jpeg::{JpegCoefficientLayout, JpegCoefficientPlane, LayoutView};
use crate::vardct_engine::jpeg_output::framing::{names_bound, used_after};
use crate::vardct_engine::jpeg_output::metadata::{
    quantizer_declared, JpegReconstructionMetadata, QuantizationTable,
};
use crate::vardct_engine::jpeg_output::segments::{quantizer_group_end, source_pairs};
use crate::vardct_engine::jpeg_output::{allocate, JpegReconstructionError};
use vstd::prelude::*;
use vstd::std_specs::bits::u32_trailing_zeros;

verus! {

/// The bit of a component's channel.
pub open spec fn channel_bit(layout: LayoutView, i: int) -> u32 {
    1u32 << (layout.planes[i].channel as u32)
}

/// Channels bound to each table, and the table in force for each selector.
pub ghost struct Bindings {
    pub masks: Seq<u32>,
    pub active: Seq<Option<int>>,
    pub tables: int,
    pub scans: int,
}

/// Adds the channel of component `i` to table `table`.
pub open spec fn bound(bindings: Bindings, layout: LayoutView, table: int, i: int) -> Bindings {
    Bindings {
        masks: bindings.masks.update(table, bindings.masks[table] | channel_bit(layout, i)),
        ..bindings
    }
}

/// Every component belongs to the table that it declares: the first `n` of them.
pub open spec fn components_bindings(
    header: &JpegReconstructionMetadata,
    layout: LayoutView,
    n: int,
) -> Result<Bindings, JpegReconstructionError>
    decreases n,
{
    let tables = header.quantization_tables@.len();
    if n <= 0 {
        Ok(
            Bindings {
                masks: Seq::new(tables, |i: int| 0u32),
                active: Seq::new(4, |i: int| None),
                tables: 0,
                scans: 0,
            },
        )
    } else {
        match components_bindings(header, layout, n - 1) {
            Err(error) => Err(error),
            Ok(before) => if header.components@[n - 1].quant >= tables {
                Err(JpegReconstructionError::Invalid("component quantizer"))
            } else {
                Ok(bound(before, layout, header.components@[n - 1].quant as int, n - 1))
            },
        }
    }
}

/// The tables `from..to` come into force, each for its selector.
pub open spec fn activated(
    tables: Seq<QuantizationTable>,
    active: Seq<Option<int>>,
    from: int,
    to: int,
) -> Seq<Option<int>>
    decreases to - from,
{
    if to <= from {
        active
    } else {
        activated(tables, active, from, to - 1).update(tables[to - 1].index as int, Some(to - 1))
    }
}

/// The first `n` components of a scan use the tables in force for their selectors.
pub open spec fn scan_bindings(
    header: &JpegReconstructionMetadata,
    layout: LayoutView,
    bindings: Bindings,
    n: int,
) -> Result<Bindings, JpegReconstructionError>
    decreases n,
{
    if n <= 0 {
        Ok(bindings)
    } else {
        match scan_bindings(header, layout, bindings, n - 1) {
            Err(error) => Err(error),
            Ok(before) => {
                let i = header.scans@[bindings.scans].components@[n - 1].component as int;
                if i >= header.components@.len() {
                    Err(JpegReconstructionError::Invalid("SOS component"))
                } else {
                    let declared = header.quantization_tables@[header.components@[i].quant as int];
                    match before.active[declared.index as int] {
                        None => Err(JpegReconstructionError::Invalid("quantizer used before DQT")),
                        Some(table) => Ok(bound(before, layout, table, i)),
                    }
                }
            },
        }
    }
}

/// What one marker binds.
pub open spec fn marker_bindings(
    header: &JpegReconstructionMetadata,
    layout: LayoutView,
    bindings: Bindings,
    marker: u8,
) -> Result<Bindings, JpegReconstructionError> {
    if marker == 0xdb {
        match quantizer_group_end(header.quantization_tables@, bindings.tables) {
            None => Err(JpegReconstructionError::Invalid("DQT group")),
            Some(end) => Ok(
                Bindings {
                    active: activated(
                        header.quantization_tables@,
                        bindings.active,
                        bindings.tables,
                        end,
                    ),
                    tables: end,
                    ..bindings
                },
            ),
        }
    } else if marker == 0xda {
        if bindings.scans >= header.scans@.len() {
            Err(JpegReconstructionError::Invalid("SOS count"))
        } else {
            match scan_bindings(
                header,
                layout,
                bindings,
                header.scans@[bindings.scans].components@.len() as int,
            ) {
                Err(error) => Err(error),
                Ok(after) => Ok(Bindings { scans: bindings.scans + 1, ..after }),
            }
        }
    } else {
        Ok(bindings)
    }
}

/// What all components and the first `n` markers bind.
pub open spec fn markers_bindings(
    header: &JpegReconstructionMetadata,
    layout: LayoutView,
    n: int,
) -> Result<Bindings, JpegReconstructionError>
    decreases n,
{
    if n <= 0 {
        components_bindings(header, layout, header.components@.len() as int)
    } else {
        match markers_bindings(header, layout, n - 1) {
            Err(error) => Err(error),
            Ok(before) => marker_bindings(header, layout, before, header.markers@[n - 1]),
        }
    }
}

/// Where the quantizers of table `i` start: those of its lowest channel, or of the table before
/// it where it is bound to none.
pub open spec fn source_base(masks: Seq<u32>, i: int) -> Option<int>
    decreases i + 1,
{
    if i < 0 {
        None
    } else if masks[i] != 0 {
        Some(u32_trailing_zeros(masks[i]) * 64)
    } else {
        source_base(masks, i - 1)
    }
}

/// The source and channels of every quantization table.
pub open spec fn sources_outcome(header: &JpegReconstructionMetadata, layout: LayoutView) -> Result<
    Seq<(u32, u32)>,
    JpegReconstructionError,
> {
    match markers_bindings(header, layout, header.markers@.len() as int) {
        Err(error) => Err(error),
        Ok(bindings) => if bindings.masks.len() > 0 && bindings.masks[0] == 0 {
            Err(JpegReconstructionError::Unsupported("unbound first quantization table"))
        } else {
            Ok(
                Seq::new(
                    bindings.masks.len(),
                    |i: int| (source_base(bindings.masks, i)->0 as u32, bindings.masks[i]),
                ),
            )
        },
    }
}

/// Executable form of [`Bindings`].
struct Binder {
    masks: Vec<u32>,
    active: [Option<usize>; 4],
    tables: usize,
    scans: usize,
}

impl Binder {
    spec fn stands_for(&self, header: &JpegReconstructionMetadata, bindings: Bindings) -> bool {
        &&& self.masks@ == bindings.masks
        &&& self.masks@.len() == header.quantization_tables@.len()
        &&& bindings.active.len() == 4
        &&& forall|i: int| 0 <= i < 4 ==> stands_at(#[trigger] self.active[i], bindings.active[i])
        &&& forall|i: int|
            0 <= i < 4 ==> (#[trigger] bindings.active[i] matches Some(table) ==> 0 <= table
                < bindings.masks.len())
        &&& self.tables == bindings.tables <= header.quantization_tables@.len()
        &&& self.scans == bindings.scans <= header.scans@.len()
    }
}

spec fn stands_at(exec: Option<usize>, table: Option<int>) -> bool {
    match exec {
        Some(at) => table == Some(at as int),
        None => table is None,
    }
}

/// Everything that bindings refer to is declared.
spec fn referable(header: &JpegReconstructionMetadata, layout: LayoutView) -> bool {
    &&& header.declared()
    &&& layout.wf()
    &&& header.components@.len() == layout.planes.len()
}

fn bit_of(plane: JpegCoefficientPlane) -> (bit: u32)
    requires
        plane.quantization_word_offset == plane.channel * 64,
        plane.channel < 3,
    ensures
        bit == 1u32 << plane.channel,
{
    1u32 << (plane.quantization_word_offset / 64)
}

/// Binds every component to the table that it declares.
fn bind_components(
    header: &JpegReconstructionMetadata,
    layout: &JpegCoefficientLayout,
    masks: Vec<u32>,
) -> (r: Result<Binder, JpegReconstructionError>)
    requires
        referable(header, layout@),
        masks@ == Seq::new(header.quantization_tables@.len(), |i: int| 0u32),
    ensures
        match components_bindings(header, layout@, header.components@.len() as int) {
            Err(error) => r == Err::<Binder, JpegReconstructionError>(error),
            Ok(bindings) => r matches Ok(binder) && binder.stands_for(header, bindings),
        },
        r is Ok ==> forall|i: int|
            0 <= i < header.components@.len() ==> (#[trigger] header.components@[i]).quant
                < header.quantization_tables@.len(),
{
    let planes = layout.planes();
    let mut binder = Binder {
        masks,
        active: [None, None, None, None],
        tables: 0,
        scans: 0,
    };
    let n: usize = header.components.len();
    assert(planes@.len() == layout@.planes.len());
    let mut i: usize = 0;
    while i < n
        invariant
            referable(header, layout@),
            n == header.components@.len(),
            i <= n,
            n == planes@.len(),
            planes@.map_values(|p: JpegCoefficientPlane| p@) == layout@.planes,
            components_bindings(header, layout@, i as int) matches Ok(bindings)
                && binder.stands_for(header, bindings),
            forall|k: int|
                0 <= k < i ==> (#[trigger] header.components@[k]).quant
                    < header.quantization_tables@.len(),
        decreases n - i,
    {
        proof {
            lemma_components_stop(header, layout@, i + 1, n as int);
        }
        let table: usize = header.components[i].quant as usize;
        if table >= header.quantization_tables.len() {
            return Err(JpegReconstructionError::Invalid("component quantizer"));
        }
        assert(layout@.planes[i as int] == planes@[i as int]@);
        assert(layout@.plane_wf(i as int));
        let bit: u32 = bit_of(planes[i]);
        let ghost before = components_bindings(header, layout@, i as int)->Ok_0;
        binder.masks[table] = binder.masks[table] | bit;
        proof {
            let after = bound(before, layout@, table as int, i as int);
            assert(binder.masks@ =~= after.masks);
        }
        i = i + 1;
    }
    Ok(binder)
}

proof fn lemma_components_stop(
    header: &JpegReconstructionMetadata,
    layout: LayoutView,
    i: int,
    n: int,
)
    requires
        0 <= i <= n,
    ensures
        components_bindings(header, layout, i) is Err ==> components_bindings(header, layout, n)
            == components_bindings(header, layout, i),
    decreases n - i,
{
    if i < n {
        lemma_components_stop(header, layout, i, n - 1);
    }
}

proof fn lemma_scan_stop(
    header: &JpegReconstructionMetadata,
    layout: LayoutView,
    bindings: Bindings,
    i: int,
    n: int,
)
    requires
        0 <= i <= n,
    ensures
        scan_bindings(header, layout, bindings, i) is Err ==> scan_bindings(
            header,
            layout,
            bindings,
            n,
        ) == scan_bindings(header, layout, bindings, i),
    decreases n - i,
{
    if i < n {
        lemma_scan_stop(header, layout, bindings, i, n - 1);
    }
}

proof fn lemma_markers_stop(header: &JpegReconstructionMetadata, layout: LayoutView, i: int, n: int)
    requires
        0 <= i <= n,
    ensures
        markers_bindings(header, layout, i) is Err ==> markers_bindings(header, layout, n)
            == markers_bindings(header, layout, i),
    decreases n - i,
{
    if i < n {
        lemma_markers_stop(header, layout, i, n - 1);
    }
}

/// Components use up neither tables nor scans.
proof fn lemma_components_keep(header: &JpegReconstructionMetadata, layout: LayoutView, n: int)
    ensures
        components_bindings(header, layout, n) matches Ok(bindings) ==> bindings.scans == 0
            && bindings.tables == 0,
    decreases n,
{
    if n > 0 {
        lemma_components_keep(header, layout, n - 1);
    }
}

/// The components of a scan use up neither tables nor scans.
proof fn lemma_scan_keeps(
    header: &JpegReconstructionMetadata,
    layout: LayoutView,
    bindings: Bindings,
    n: int,
)
    ensures
        scan_bindings(header, layout, bindings, n) matches Ok(after) ==> after.scans
            == bindings.scans && after.tables == bindings.tables,
    decreases n,
{
    if n > 0 {
        lemma_scan_keeps(header, layout, bindings, n - 1);
    }
}

/// The tables in force after one more table.
proof fn lemma_activated(
    tables: Seq<QuantizationTable>,
    active: Seq<Option<int>>,
    from: int,
    to: int,
)
    requires
        active.len() == 4,
        from <= to,
        0 <= from,
        to <= tables.len(),
        forall|i: int| 0 <= i < tables.len() ==> quantizer_declared(#[trigger] tables[i]),
    ensures
        activated(tables, active, from, to).len() == 4,
    decreases to - from,
{
    if from < to {
        lemma_activated(tables, active, from, to - 1);
    }
}

/// Brings the tables of one marker into force.
fn activate(binder: &mut Binder, header: &JpegReconstructionMetadata, Ghost(bindings): Ghost<
    Bindings,
>) -> (r: Result<(), JpegReconstructionError>)
    requires
        old(binder).stands_for(header, bindings),
        header.declared(),
    ensures
        match quantizer_group_end(header.quantization_tables@, bindings.tables) {
            None => r == Err::<(), JpegReconstructionError>(
                JpegReconstructionError::Invalid("DQT group"),
            ),
            Some(end) => r is Ok && final(binder).stands_for(
                header,
                (Bindings {
                    active: activated(
                        header.quantization_tables@,
                        bindings.active,
                        bindings.tables,
                        end,
                    ),
                    tables: end,
                    ..bindings
                }),
            ),
        },
{
    let ghost tables = header.quantization_tables@;
    loop
        invariant
            header.declared(),
            tables == header.quantization_tables@,
            bindings.tables <= binder.tables <= tables.len(),
            0 <= bindings.tables,
            bindings.active.len() == 4,
            binder.stands_for(
                header,
                (Bindings {
                    active: activated(
                        tables,
                        bindings.active,
                        bindings.tables,
                        binder.tables as int,
                    ),
                    tables: binder.tables as int,
                    ..bindings
                }),
            ),
            quantizer_group_end(tables, bindings.tables) == quantizer_group_end(
                tables,
                binder.tables as int,
            ),
        decreases tables.len() - binder.tables,
    {
        let at: usize = binder.tables;
        if at >= header.quantization_tables.len() {
            return Err(JpegReconstructionError::Invalid("DQT group"));
        }
        let table = header.quantization_tables[at];
        assert(quantizer_declared(tables[at as int]));
        proof {
            lemma_activated(tables, bindings.active, bindings.tables, at as int);
        }
        let ghost active = activated(tables, bindings.active, bindings.tables, at as int);
        binder.active[table.index as usize] = Some(at);
        binder.tables = at + 1;
        proof {
            let next = activated(tables, bindings.active, bindings.tables, at + 1);
            assert(next == active.update(table.index as int, Some(at as int)));
            assert forall|i: int| 0 <= i < 4 implies stands_at(
                #[trigger] binder.active[i],
                next[i],
            ) by {
                if i != table.index {
                    assert(next[i] == active[i]);
                }
            }
        }
        if table.last {
            return Ok(());
        }
    }
}

/// Binds the components of one scan to the tables in force.
fn bind_scan(
    binder: &mut Binder,
    header: &JpegReconstructionMetadata,
    layout: &JpegCoefficientLayout,
    Ghost(bindings): Ghost<Bindings>,
) -> (r: Result<(), JpegReconstructionError>)
    requires
        old(binder).stands_for(header, bindings),
        referable(header, layout@),
        bindings.scans < header.scans@.len(),
        forall|i: int|
            0 <= i < header.components@.len() ==> (#[trigger] header.components@[i]).quant
                < header.quantization_tables@.len(),
    ensures
        match scan_bindings(
            header,
            layout@,
            bindings,
            header.scans@[bindings.scans].components@.len() as int,
        ) {
            Err(error) => r == Err::<(), JpegReconstructionError>(error),
            Ok(after) => r is Ok && final(binder).stands_for(header, after),
        },
        r is Ok ==> forall|i: int|
            0 <= i < header.scans@[bindings.scans].components@.len() ==> (
            #[trigger] header.scans@[bindings.scans].components@[i]).component
                < header.components@.len(),
{
    let planes = layout.planes();
    let scan = &header.scans[binder.scans];
    let n: usize = scan.components.len();
    assert(planes@.len() == layout@.planes.len());
    let mut i: usize = 0;
    while i < n
        invariant
            referable(header, layout@),
            n == scan.components@.len(),
            0 <= bindings.scans < header.scans@.len(),
            *scan == header.scans@[bindings.scans],
            i <= n,
            header.components@.len() == planes@.len(),
            planes@.map_values(|p: JpegCoefficientPlane| p@) == layout@.planes,
            forall|i: int|
                0 <= i < header.components@.len() ==> (#[trigger] header.components@[i]).quant
                    < header.quantization_tables@.len(),
            scan_bindings(header, layout@, bindings, i as int) matches Ok(before)
                && binder.stands_for(header, before),
            forall|k: int|
                0 <= k < i ==> (#[trigger] header.scans@[bindings.scans].components@[k]).component
                    < header.components@.len(),
        decreases n - i,
    {
        proof {
            lemma_scan_stop(header, layout@, bindings, i + 1, n as int);
        }
        let index: usize = scan.components[i].component as usize;
        if index >= header.components.len() {
            return Err(JpegReconstructionError::Invalid("SOS component"));
        }
        let ghost before = scan_bindings(header, layout@, bindings, i as int)->Ok_0;
        let declared = header.quantization_tables[header.components[index].quant as usize];
        assert(quantizer_declared(
            header.quantization_tables@[header.components@[index as int].quant as int],
        ));
        assert(stands_at(
            binder.active[declared.index as int],
            before.active[declared.index as int],
        ));
        let table: usize = match binder.active[declared.index as usize] {
            Some(table) => table,
            None => {
                return Err(JpegReconstructionError::Invalid("quantizer used before DQT"));
            },
        };
        assert(layout@.planes[index as int] == planes@[index as int]@);
        assert(layout@.plane_wf(index as int));
        let bit: u32 = bit_of(planes[index]);
        binder.masks[table] = binder.masks[table] | bit;
        proof {
            let after = bound(before, layout@, table as int, index as int);
            assert(binder.masks@ =~= after.masks);
        }
        i = i + 1;
    }
    Ok(())
}

/// The source and channels of every quantization table. Without a table no memory is asked for.
pub(crate) fn quantizer_sources(
    header: &JpegReconstructionMetadata,
    layout: &JpegCoefficientLayout,
) -> (r: Result<Vec<[u32; 2]>, JpegReconstructionError>)
    requires
        header.declared(),
        header.components@.len() == layout@.planes.len(),
    ensures
        match r {
            Ok(sources) => {
                &&& sources_outcome(header, layout@) == Ok::<
                    Seq<(u32, u32)>,
                    JpegReconstructionError,
                >(source_pairs(sources@))
                &&& sources@.len() == header.quantization_tables@.len()
                &&& names_bound(header, layout@)
            },
            Err(error) => error == JpegReconstructionError::Allocation || sources_outcome(
                header,
                layout@,
            ) == Err::<Seq<(u32, u32)>, JpegReconstructionError>(error),
        },
        header.quantization_tables@.len() == 0 ==> match sources_outcome(header, layout@) {
            Ok(_) => r is Ok,
            Err(error) => r == Err::<Vec<[u32; 2]>, JpegReconstructionError>(error),
        },
{
    match allocate(header.quantization_tables.len()) {
        Ok(room) => bind_sources(room, header, layout),
        Err(error) => Err(error),
    }
}

/// Fills the room for the source and channels of every quantization table, or refuses what the
/// markers bind.
pub fn bind_sources(
    room: Vec<[u32; 2]>,
    header: &JpegReconstructionMetadata,
    layout: &JpegCoefficientLayout,
) -> (r: Result<Vec<[u32; 2]>, JpegReconstructionError>)
    requires
        room@.len() == 0,
        header.declared(),
        header.components@.len() == layout@.planes.len(),
    ensures
        match sources_outcome(header, layout@) {
            Err(error) => r == Err::<Vec<[u32; 2]>, JpegReconstructionError>(error),
            Ok(pairs) => r matches Ok(sources) && source_pairs(sources@) == pairs && sources@.len()
                == header.quantization_tables@.len() && names_bound(header, layout@),
        },
{
    let _ = layout.extent();
    let count: usize = header.quantization_tables.len();
    let mut masks: Vec<u32> = Vec::new();
    let mut sources: Vec<[u32; 2]> = room;
    let mut i: usize = 0;
    while i < count
        invariant
            i <= count,
            masks@ =~= Seq::new(i as nat, |i: int| 0u32),
        decreases count - i,
    {
        masks.push(0);
        i = i + 1;
    }
    let mut binder = match bind_components(header, layout, masks) {
        Ok(binder) => binder,
        Err(error) => {
            proof {
                lemma_markers_stop(header, layout@, 0, header.markers@.len() as int);
            }
            return Err(error);
        },
    };
    let ghost n = header.markers@.len() as int;
    proof {
        lemma_components_keep(header, layout@, header.components@.len() as int);
    }
    let mut index: usize = 0;
    while index < header.markers.len()
        invariant
            referable(header, layout@),
            n == header.markers@.len(),
            index <= n,
            forall|i: int|
                0 <= i < header.components@.len() ==> (#[trigger] header.components@[i]).quant
                    < header.quantization_tables@.len(),
            markers_bindings(header, layout@, index as int) matches Ok(bindings)
                && binder.stands_for(header, bindings),
            binder.scans == used_after(header, index as int).scans,
            forall|s: int, i: int|
                0 <= s < binder.scans && 0 <= i < header.scans@[s].components@.len() ==> (
                #[trigger] header.scans@[s].components@[i]).component < header.components@.len(),
        decreases n - index,
    {
        proof {
            lemma_markers_stop(header, layout@, index + 1, n);
        }
        let ghost bindings = markers_bindings(header, layout@, index as int)->Ok_0;
        let marker: u8 = header.markers[index];
        if marker == 0xdb {
            match activate(&mut binder, header, Ghost(bindings)) {
                Ok(_) => {},
                Err(error) => {
                    return Err(error);
                },
            }
        } else if marker == 0xda {
            if binder.scans >= header.scans.len() {
                return Err(JpegReconstructionError::Invalid("SOS count"));
            }
            match bind_scan(&mut binder, header, layout, Ghost(bindings)) {
                Ok(_) => {},
                Err(error) => {
                    return Err(error);
                },
            }
            proof {
                lemma_scan_keeps(
                    header,
                    layout@,
                    bindings,
                    header.scans@[bindings.scans].components@.len() as int,
                );
            }
            binder.scans = binder.scans + 1;
        }
        index = index + 1;
    }
    let ghost bindings = markers_bindings(header, layout@, n)->Ok_0;
    let mut previous: Option<u32> = None;
    let mut i: usize = 0;
    while i < count
        invariant
            i <= count,
            count == bindings.masks.len(),
            binder.masks@ == bindings.masks,
            markers_bindings(header, layout@, n) == Ok::<Bindings, JpegReconstructionError>(
                bindings,
            ),
            n == header.markers@.len(),
            sources@.len() == i,
            match previous {
                Some(base) => source_base(bindings.masks, i - 1) == Some(base as int),
                None => source_base(bindings.masks, i - 1) is None,
            },
            i > 0 ==> bindings.masks[0] != 0 && previous is Some,
            forall|k: int|
                0 <= k < i ==> (#[trigger] sources@[k])[0] == source_base(bindings.masks, k)->0
                    && sources@[k][1] == bindings.masks[k],
        decreases count - i,
    {
        let mask: u32 = binder.masks[i];
        let base: u32 = if mask == 0 {
            match previous {
                Some(base) => base,
                None => {
                    return Err(
                        JpegReconstructionError::Unsupported("unbound first quantization table"),
                    );
                },
            }
        } else {
            proof {
                vstd::std_specs::bits::axiom_u32_trailing_zeros(mask);
            }
            mask.trailing_zeros() * 64
        };
        sources.push([base, mask]);
        previous = Some(base);
        i = i + 1;
    }
    assert(source_pairs(sources@) =~= sources_outcome(header, layout@)->Ok_0);
    Ok(sources)
}

} // verus!
