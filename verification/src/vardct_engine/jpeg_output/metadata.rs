//! The immutable description of a JPEG's markers, tables and scans.

use vstd::prelude::*;

verus! {

/// One frame component.
#[derive(Clone, Copy, Debug, PartialEq, Eq, Structural)]
pub struct JpegComponent {
    pub id: u8,
    /// Place of its table among the declared quantization tables.
    pub quant: u8,
}

/// One component of a scan and its entropy tables.
#[derive(Clone, Copy, Debug, PartialEq, Eq, Structural)]
pub struct ScanComponent {
    pub component: u8,
    pub dc: u8,
    pub ac: u8,
}

/// One scan: a band of coefficients at one precision.
#[derive(Debug, PartialEq, Eq)]
pub struct JpegScan {
    pub start: u8,
    pub end: u8,
    pub high: u8,
    pub low: u8,
    pub components: Vec<ScanComponent>,
    pub last_pass: u8,
    /// Blocks in front of which a pending end-of-band run is flushed.
    pub resets: Vec<u32>,
    /// Blocks that end in superfluous runs of sixteen zeros, and how many.
    pub extra_zeros: Vec<(u32, u8)>,
}

/// One Huffman table. `values` holds one more symbol than a JPEG file writes.
#[derive(Debug, PartialEq, Eq)]
pub struct HuffmanTable {
    pub index: u8,
    pub ac: bool,
    /// The table closes its marker.
    pub last: bool,
    /// Codes of each length.
    pub counts: [u16; 17],
    pub values: Vec<u16>,
}

/// One quantization table; its values stay on the GPU.
#[derive(Clone, Copy, Debug, PartialEq, Eq, Structural)]
pub struct QuantizationTable {
    pub index: u8,
    pub precision: u8,
    /// The table closes its marker.
    pub last: bool,
}

/// Where the payload of an application marker is kept.
#[derive(Clone, Copy, Debug, PartialEq, Eq, Structural)]
pub enum AppMarkerKind {
    Unknown,
    Icc,
    Exif,
    Xmp,
}

/// One application marker of `size` bytes, its leading byte included.
#[derive(Clone, Copy, Debug, PartialEq, Eq)]
pub struct AppMarker {
    pub kind: AppMarkerKind,
    pub size: u32,
    /// First and one past the last byte of a payload kept in the opaque body.
    pub body: Option<(usize, usize)>,
}

/// Everything about a JPEG but its coefficients and quantizers.
#[derive(Debug)]
pub struct JpegReconstructionMetadata {
    pub markers: Vec<u8>,
    pub components: Vec<JpegComponent>,
    pub scans: Vec<JpegScan>,
    pub huffman_tables: Vec<HuffmanTable>,
    pub quantization_tables: Vec<QuantizationTable>,
    pub app_markers: Vec<AppMarker>,
    pub opaque_body: Vec<u8>,
    pub comments: Vec<Vec<u8>>,
    pub intermarker_data: Vec<Vec<u8>>,
    pub tail: Vec<u8>,
    pub restart_interval: u16,
}

/// A table selector has two bits.
pub open spec fn huffman_declared(table: HuffmanTable) -> bool {
    table.index <= 3
}

/// A selector, sixteen counts and the symbols of each of the first `n` tables.
pub open spec fn symbol_bytes(tables: Seq<HuffmanTable>, n: int) -> int
    decreases n,
{
    if n <= 0 {
        0
    } else {
        symbol_bytes(tables, n - 1) + 16 + tables[n - 1].values@.len()
    }
}

/// A table selector has two bits and its precision one.
pub open spec fn quantizer_declared(table: QuantizationTable) -> bool {
    table.index <= 3 && table.precision <= 1
}

/// A payload lies in the opaque body, or its size covers the signature of its kind.
pub open spec fn app_declared(marker: AppMarker, body: int) -> bool {
    match marker.body {
        Some((start, end)) => start <= end <= body,
        None => match marker.kind {
            AppMarkerKind::Unknown => marker.size >= 3,
            AppMarkerKind::Icc => marker.size >= 17,
            AppMarkerKind::Exif => marker.size >= 9,
            AppMarkerKind::Xmp => marker.size >= 32,
        },
    }
}

impl JpegReconstructionMetadata {
    /// What the fields of the serialized form can declare. The sizes of all tables, and of one
    /// record for each scan and each quantization table, are machine words.
    pub open spec fn declared(&self) -> bool {
        &&& self.components@.len() <= 4
        &&& self.scans@.len() <= u64::MAX / 128
        &&& forall|i: int|
            0 <= i < self.scans@.len() ==> (#[trigger] self.scans@[i]).components@.len() <= 4
        &&& symbol_bytes(self.huffman_tables@, self.huffman_tables@.len() as int) <= usize::MAX
        &&& forall|i: int|
            0 <= i < self.huffman_tables@.len() ==> huffman_declared(
                #[trigger] self.huffman_tables@[i],
            )
        &&& self.quantization_tables@.len() <= usize::MAX / 129
        &&& forall|i: int|
            0 <= i < self.quantization_tables@.len() ==> quantizer_declared(
                #[trigger] self.quantization_tables@[i],
            )
        &&& forall|i: int|
            0 <= i < self.app_markers@.len() ==> app_declared(
                #[trigger] self.app_markers@[i],
                self.opaque_body@.len() as int,
            )
    }

    /// Whether the fields are what the serialized form can declare.
    pub fn is_declared(&self) -> (r: bool)
        ensures
            r == self.declared(),
    {
        if self.components.len() > 4 || self.scans.len() as u64 > u64::MAX / 128
            || self.quantization_tables.len() > usize::MAX / 129 {
            return false;
        }
        let mut i: usize = 0;
        while i < self.scans.len()
            invariant
                i <= self.scans@.len(),
                forall|k: int| 0 <= k < i ==> (#[trigger] self.scans@[k]).components@.len() <= 4,
            decreases self.scans@.len() - i,
        {
            if self.scans[i].components.len() > 4 {
                return false;
            }
            i = i + 1;
        }
        let mut bytes: usize = 0;
        let mut i: usize = 0;
        while i < self.huffman_tables.len()
            invariant
                i <= self.huffman_tables@.len(),
                bytes == symbol_bytes(self.huffman_tables@, i as int),
                forall|k: int|
                    0 <= k < i ==> huffman_declared(#[trigger] self.huffman_tables@[k]),
            decreases self.huffman_tables@.len() - i,
        {
            proof {
                lemma_symbol_bytes(
                    self.huffman_tables@,
                    i + 1,
                    self.huffman_tables@.len() as int,
                );
            }
            if self.huffman_tables[i].index > 3 {
                assert(!huffman_declared(self.huffman_tables@[i as int]));
                return false;
            }
            let symbols: usize = self.huffman_tables[i].values.len();
            let sum: Option<usize> = match bytes.checked_add(16) {
                Some(sum) => sum.checked_add(symbols),
                None => None,
            };
            bytes = match sum {
                Some(sum) => sum,
                None => {
                    return false;
                },
            };
            i = i + 1;
        }
        let mut i: usize = 0;
        while i < self.quantization_tables.len()
            invariant
                i <= self.quantization_tables@.len(),
                forall|k: int|
                    0 <= k < i ==> quantizer_declared(#[trigger] self.quantization_tables@[k]),
            decreases self.quantization_tables@.len() - i,
        {
            if self.quantization_tables[i].index > 3 || self.quantization_tables[i].precision > 1 {
                assert(!quantizer_declared(self.quantization_tables@[i as int]));
                return false;
            }
            i = i + 1;
        }
        let body: usize = self.opaque_body.len();
        let mut i: usize = 0;
        while i < self.app_markers.len()
            invariant
                i <= self.app_markers@.len(),
                body == self.opaque_body@.len(),
                forall|k: int|
                    0 <= k < i ==> app_declared(#[trigger] self.app_markers@[k], body as int),
            decreases self.app_markers@.len() - i,
        {
            let marker = self.app_markers[i];
            let declared = match marker.body {
                Some((start, end)) => start <= end && end <= body,
                None => match marker.kind {
                    AppMarkerKind::Unknown => marker.size >= 3,
                    AppMarkerKind::Icc => marker.size >= 17,
                    AppMarkerKind::Exif => marker.size >= 9,
                    AppMarkerKind::Xmp => marker.size >= 32,
                },
            };
            if !declared {
                assert(!app_declared(self.app_markers@[i as int], body as int));
                return false;
            }
            i = i + 1;
        }
        true
    }
}

/// More tables are not smaller.
pub proof fn lemma_symbol_bytes(tables: Seq<HuffmanTable>, i: int, n: int)
    requires
        0 <= i <= n <= tables.len(),
    ensures
        0 <= symbol_bytes(tables, i) <= symbol_bytes(tables, n),
    decreases n,
{
    if i < n {
        lemma_symbol_bytes(tables, i, n - 1);
    } else if n > 0 {
        lemma_symbol_bytes(tables, n - 1, n - 1);
    }
}

/// Metadata that are declared have at most four components, in the frame and in every scan, table
/// selectors of two bits, a precision of one bit, and application payloads that lie in the kept
/// bytes, or are large enough for their signature.
pub proof fn law_declared(metadata: &JpegReconstructionMetadata, i: int)
    requires
        call_ensures(JpegReconstructionMetadata::is_declared, (metadata,), true),
        0 <= i,
    ensures
        metadata.components@.len() <= 4,
        i < metadata.scans@.len() ==> metadata.scans@[i].components@.len() <= 4,
        i < metadata.huffman_tables@.len() ==> metadata.huffman_tables@[i].index < 4,
        i < metadata.quantization_tables@.len() ==> metadata.quantization_tables@[i].index < 4
            && metadata.quantization_tables@[i].precision < 2,
        i < metadata.app_markers@.len() ==> {
            let marker = metadata.app_markers@[i];
            &&& marker.body matches Some((start, end)) ==> start <= end
                <= metadata.opaque_body@.len()
            &&& marker.body is None && marker.kind == AppMarkerKind::Icc ==> marker.size >= 3 + 12
                + 2
            &&& marker.body is None && marker.kind == AppMarkerKind::Exif ==> marker.size >= 3 + 6
            &&& marker.body is None && marker.kind == AppMarkerKind::Xmp ==> marker.size >= 3 + 29
        },
{
    if i < metadata.huffman_tables@.len() {
        assert(huffman_declared(metadata.huffman_tables@[i]));
    }
    if i < metadata.quantization_tables@.len() {
        assert(quantizer_declared(metadata.quantization_tables@[i]));
    }
    if i < metadata.app_markers@.len() {
        assert(app_declared(metadata.app_markers@[i], metadata.opaque_body@.len() as int));
    }
}

} // verus!
