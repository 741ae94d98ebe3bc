//! The order in which a JPEG's markers introduce frames, tables and scans.

use crate::vardct_engine::jpeg_output::metadata::{huffman_declared, JpegReconstructionMetadata};
use crate::vardct_engine::jpeg_output::scan::{
    assign_table, components_bound, planes_of, progress, scan_blocks, scan_extent, scan_refusal,
    scan_units, table_assigned, update_progression, Geometry, GeometryView, TABLE_WORDS,
};
use crate::vardct_engine::jpeg_output::JpegReconstructionError;
use vstd::prelude::*;

verus! {

/// What the markers so far have declared.
pub struct Walk {
    frame: Option<bool>,
    scan_index: usize,
    interval: u16,
    progression: [[u32; 64]; 3],
    tables: Vec<u32>,
    table_index: usize,
}

/// The values of a [`Walk`].
pub ghost struct WalkView {
    /// A frame was declared, and whether it is progressive.
    pub frame: Option<bool>,
    /// Scans so far.
    pub scans: int,
    /// Restart interval in force.
    pub interval: u16,
    /// Coefficient bits coded so far.
    pub planes: Seq<Seq<u32>>,
    /// Entropy tables in force.
    pub tables: Seq<u32>,
    /// Huffman tables so far.
    pub huffman: int,
}

impl View for Walk {
    type V = WalkView;

    closed spec fn view(&self) -> WalkView {
        WalkView {
            frame: self.frame,
            scans: self.scan_index as int,
            interval: self.interval,
            planes: planes_of(self.progression),
            tables: self.tables@,
            huffman: self.table_index as int,
        }
    }
}

/// Before the first marker nothing is declared.
pub open spec fn unmarked() -> WalkView {
    WalkView {
        frame: None,
        scans: 0,
        interval: 0,
        planes: Seq::new(3, |c: int| Seq::new(64, |k: int| 0u32)),
        tables: Seq::new(TABLE_WORDS as nat, |i: int| 0u32),
        huffman: 0,
    }
}

/// The tables after the group that starts at table `at`, and the table behind the group. An
/// empty table closes its group, as does the last table of a marker.
pub open spec fn group_assigned(
    header: &JpegReconstructionMetadata,
    words: Seq<u32>,
    at: int,
) -> Result<(Seq<u32>, int), JpegReconstructionError>
    decreases header.huffman_tables@.len() - at,
{
    if at >= header.huffman_tables@.len() {
        Err(JpegReconstructionError::Invalid("DHT group"))
    } else {
        let table = header.huffman_tables@[at];
        if table.values@.len() == 0 {
            Ok((words, at + 1))
        } else {
            match table_assigned(table, words) {
                Err(error) => Err(error),
                Ok(after) => if table.last {
                    Ok((after, at + 1))
                } else {
                    group_assigned(header, after, at + 1)
                },
            }
        }
    }
}

/// What marker `index` adds to the declarations before it.
pub open spec fn marked(
    header: &JpegReconstructionMetadata,
    geometry: GeometryView,
    walk: WalkView,
    index: int,
) -> Result<WalkView, JpegReconstructionError> {
    let marker = header.markers@[index];
    let order = JpegReconstructionError::Invalid("marker order");
    if 0xc0 <= marker <= 0xc2 {
        if walk.frame is Some {
            Err(order)
        } else {
            Ok(WalkView { frame: Some(marker == 0xc2), ..walk })
        }
    } else if marker == 0xda {
        if walk.frame is None || walk.scans >= header.scans@.len() {
            Err(order)
        } else {
            let scan = &header.scans@[walk.scans];
            let (planes, refusal) = progress(scan, walk.planes, scan.components@.len() as int);
            match scan_refusal(scan, geometry, walk.frame->0) {
                Some(error) => Err(error),
                None => match refusal {
                    Some(error) => Err(error),
                    None => Ok(WalkView { planes, scans: walk.scans + 1, ..walk }),
                },
            }
        }
    } else if marker == 0xdd {
        Ok(WalkView { interval: header.restart_interval, ..walk })
    } else if marker == 0xd9 {
        if index + 1 != header.markers@.len() || walk.scans == 0 {
            Err(order)
        } else {
            Ok(walk)
        }
    } else if marker == 0xc4 {
        match group_assigned(header, walk.tables, walk.huffman) {
            Err(error) => Err(error),
            Ok((tables, huffman)) => Ok(WalkView { tables, huffman, ..walk }),
        }
    } else if marker == 0xdb || 0xe0 <= marker <= 0xef || marker == 0xfe || marker == 0xff {
        Ok(walk)
    } else {
        Err(JpegReconstructionError::Unsupported("JPEG marker"))
    }
}

/// The declarations of the first `n` markers.
pub open spec fn walked(header: &JpegReconstructionMetadata, geometry: GeometryView, n: int) -> Result<
    WalkView,
    JpegReconstructionError,
>
    decreases n,
{
    if n <= 0 {
        Ok(unmarked())
    } else {
        match walked(header, geometry, n - 1) {
            Err(error) => Err(error),
            Ok(walk) => marked(header, geometry, walk, n - 1),
        }
    }
}

/// The header names each of the layout's components once.
pub open spec fn components_match(header: &JpegReconstructionMetadata, geometry: GeometryView) -> bool {
    &&& header.components@.len() == geometry.components
    &&& forall|i: int, j: int|
        0 <= i < j < header.components@.len() ==> (#[trigger] header.components@[i]).id != (
        #[trigger] header.components@[j]).id
}

/// Why the declarations of all markers do not form a JPEG.
pub open spec fn walk_refusal(
    header: &JpegReconstructionMetadata,
    geometry: GeometryView,
    walk: WalkView,
) -> Option<JpegReconstructionError> {
    let markers = header.markers@;
    if markers.len() == 0 || markers.last() != 0xd9 || walk.scans != header.scans@.len() {
        Some(JpegReconstructionError::Invalid("marker order"))
    } else if exists|c: int| 0 <= c < geometry.components && (#[trigger] walk.planes[c])[0] == 0 {
        Some(JpegReconstructionError::Invalid("missing component DC scan"))
    } else {
        None
    }
}

/// Checks that the header names each of the layout's components once.
pub fn bind_components(header: &JpegReconstructionMetadata, geometry: &Geometry) -> (r: Result<
    (),
    JpegReconstructionError,
>)
    requires
        geometry@.wf(),
    ensures
        if components_match(header, geometry@) {
            r is Ok
        } else {
            r == Err::<(), JpegReconstructionError>(
                JpegReconstructionError::Invalid("component binding"),
            )
        },
{
    let n: usize = header.components.len();
    if n != geometry.components {
        return Err(JpegReconstructionError::Invalid("component binding"));
    }
    let mut i: usize = 0;
    while i < n
        invariant
            n == header.components@.len(),
            n == geometry@.components,
            0 <= i <= n,
            forall|a: int, b: int|
                0 <= a < b < i ==> (#[trigger] header.components@[a]).id != (
                #[trigger] header.components@[b]).id,
        decreases n - i,
    {
        let mut j: usize = 0;
        while j < i
            invariant
                n == header.components@.len(),
                n == geometry@.components,
                0 <= j <= i < n,
                forall|a: int|
                    0 <= a < j ==> (#[trigger] header.components@[a]).id
                        != header.components@[i as int].id,
            decreases i - j,
        {
            if header.components[j].id == header.components[i].id {
                assert(!components_match(header, geometry@)) by {
                    assert(header.components@[j as int].id == header.components@[i as int].id);
                }
                return Err(JpegReconstructionError::Invalid("component binding"));
            }
            j = j + 1;
        }
        i = i + 1;
    }
    Ok(())
}

impl Walk {
    /// The walk has not run past the tables or scans of `header`.
    pub closed spec fn within(&self, header: &JpegReconstructionMetadata) -> bool {
        &&& self.tables@.len() == TABLE_WORDS
        &&& self.scan_index <= header.scans@.len()
        &&& self.table_index <= header.huffman_tables@.len()
    }

    pub fn new(header: &JpegReconstructionMetadata) -> (walk: Self)
        ensures
            walk@ == unmarked(),
            walk.within(header),
    {
        let mut tables: Vec<u32> = Vec::new();
        let mut i: usize = 0;
        while i < TABLE_WORDS
            invariant
                i <= TABLE_WORDS,
                tables@ =~= Seq::new(i as nat, |i: int| 0u32),
            decreases TABLE_WORDS - i,
        {
            tables.push(0);
            i = i + 1;
        }
        let walk = Walk {
            frame: None,
            scan_index: 0,
            interval: 0,
            progression: [[0u32; 64]; 3],
            tables,
            table_index: 0,
        };
        proof {
            assert forall|c: int| 0 <= c < 3 implies #[trigger] walk@.planes[c]
                == unmarked().planes[c] by {
                assert(walk@.planes[c] =~= unmarked().planes[c]);
            }
            assert(walk@.planes =~= unmarked().planes);
        }
        walk
    }

    /// Entropy tables in force.
    pub fn tables(&self, header: &JpegReconstructionMetadata) -> (tables: &Vec<u32>)
        requires
            self.within(header),
        ensures
            tables@ == self@.tables,
            tables@.len() == TABLE_WORDS,
    {
        &self.tables
    }

    /// Restart interval in force.
    pub fn interval(&self) -> (interval: u16)
        ensures
            interval == self@.interval,
    {
        self.interval
    }

    /// Scans so far.
    pub fn scans(&self) -> (scans: usize)
        ensures
            scans == self@.scans,
    {
        self.scan_index
    }

    /// Takes the Huffman tables of one marker.
    fn take_group(&mut self, header: &JpegReconstructionMetadata) -> (r: Result<
        (),
        JpegReconstructionError,
    >)
        requires
            old(self).within(header),
            header.declared(),
        ensures
            final(self).within(header),
            match group_assigned(header, old(self)@.tables, old(self)@.huffman) {
                Err(error) => r == Err::<(), JpegReconstructionError>(error),
                Ok((tables, huffman)) => r is Ok && final(self)@ == (WalkView {
                    tables,
                    huffman,
                    ..old(self)@
                }),
            },
    {
        let ghost start = self@;
        loop
            invariant
                self.within(header),
                header.declared(),
                self@ == (WalkView {
                    tables: self@.tables,
                    huffman: self@.huffman,
                    ..start
                }),
                start == old(self)@,
                group_assigned(header, start.tables, start.huffman) == group_assigned(
                    header,
                    self@.tables,
                    self@.huffman,
                ),
            decreases header.huffman_tables@.len() - self@.huffman,
        {
            if self.table_index >= header.huffman_tables.len() {
                return Err(JpegReconstructionError::Invalid("DHT group"));
            }
            let table = &header.huffman_tables[self.table_index];
            assert(huffman_declared(*table));
            self.table_index = self.table_index + 1;
            if table.values.len() == 0 {
                return Ok(());
            }
            match assign_table(table, &mut self.tables) {
                Err(error) => {
                    return Err(error);
                },
                Ok(_) => {},
            }
            if table.last {
                return Ok(());
            }
        }
    }

    /// Takes marker `index`, and where it introduces a scan says what the scan walks.
    pub fn mark(
        &mut self,
        header: &JpegReconstructionMetadata,
        geometry: &Geometry,
        index: usize,
    ) -> (r: Result<Option<([u32; 2], u32)>, JpegReconstructionError>)
        requires
            old(self).within(header),
            header.declared(),
            geometry@.wf(),
            index < header.markers@.len(),
        ensures
            final(self).within(header),
            match marked(header, geometry@, old(self)@, index as int) {
                Err(error) => r == Err::<Option<([u32; 2], u32)>, JpegReconstructionError>(error),
                Ok(after) => {
                    &&& final(self)@ == after
                    &&& header.markers@[index as int] != 0xda ==> r == Ok::<
                        Option<([u32; 2], u32)>,
                        JpegReconstructionError,
                    >(None)
                    &&& header.markers@[index as int] == 0xda ==> (r matches Ok(
                        Some((extent, count)),
                    ) && ({
                        let scan = &header.scans@[old(self)@.scans];
                        &&& (extent[0] as int, extent[1] as int) == scan_units(scan, geometry@)
                        &&& count == scan_blocks(scan, geometry@)
                        &&& components_bound(scan.components@, geometry@.components)
                    }))
                },
            },
    {
        let marker: u8 = header.markers[index];
        if 0xc0 <= marker && marker <= 0xc2 {
            if self.frame.is_some() {
                return Err(JpegReconstructionError::Invalid("marker order"));
            }
            self.frame = Some(marker == 0xc2);
            Ok(None)
        } else if marker == 0xda {
            let progressive = match self.frame {
                Some(progressive) => progressive,
                None => {
                    return Err(JpegReconstructionError::Invalid("marker order"));
                },
            };
            if self.scan_index >= header.scans.len() {
                return Err(JpegReconstructionError::Invalid("marker order"));
            }
            let scan = &header.scans[self.scan_index];
            let visit = match scan_extent(scan, geometry, progressive) {
                Ok(visit) => visit,
                Err(error) => {
                    return Err(error);
                },
            };
            match update_progression(scan, &mut self.progression) {
                Ok(_) => {},
                Err(error) => {
                    return Err(error);
                },
            }
            self.scan_index = self.scan_index + 1;
            Ok(Some(visit))
        } else if marker == 0xdd {
            self.interval = header.restart_interval;
            Ok(None)
        } else if marker == 0xd9 {
            if index != header.markers.len() - 1 || self.scan_index == 0 {
                return Err(JpegReconstructionError::Invalid("marker order"));
            }
            Ok(None)
        } else if marker == 0xc4 {
            match self.take_group(header) {
                Ok(_) => Ok(None),
                Err(error) => Err(error),
            }
        } else if marker == 0xdb || (0xe0 <= marker && marker <= 0xef) || marker == 0xfe || marker
            == 0xff {
            Ok(None)
        } else {
            Err(JpegReconstructionError::Unsupported("JPEG marker"))
        }
    }

    /// Checks that all markers together form a JPEG and gives the coded coefficient bits.
    pub fn finish(self, header: &JpegReconstructionMetadata, geometry: &Geometry) -> (r: Result<
        [[u32; 64]; 3],
        JpegReconstructionError,
    >)
        requires
            geometry@.wf(),
        ensures
            match walk_refusal(header, geometry@, self@) {
                Some(error) => r == Err::<[[u32; 64]; 3], JpegReconstructionError>(error),
                None => r matches Ok(masks) && planes_of(masks) == self@.planes,
            },
    {
        let n: usize = header.markers.len();
        if n == 0 || header.markers[n - 1] != 0xd9 || self.scan_index != header.scans.len() {
            return Err(JpegReconstructionError::Invalid("marker order"));
        }
        let mut c: usize = 0;
        while c < geometry.components
            invariant
                geometry@.wf(),
                c <= geometry.components,
                header.markers@.len() > 0,
                header.markers@.last() == 0xd9,
                self@.scans == header.scans@.len(),
                forall|k: int| 0 <= k < c ==> (#[trigger] self@.planes[k])[0] != 0,
            decreases geometry.components - c,
        {
            assert(self@.planes[c as int] == self.progression[c as int]@);
            if self.progression[c][0] == 0 {
                assert(self@.planes[c as int][0] == 0);
                return Err(JpegReconstructionError::Invalid("missing component DC scan"));
            }
            c = c + 1;
        }
        Ok(self.progression)
    }
}

} // verus!
