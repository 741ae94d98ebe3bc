//! What a JPEG reader finds in the template of a file.

use crate::arith::least;
use crate::vardct_engine::jpeg::{JpegCoefficientLayout, LayoutView};
use crate::vardct_engine::jpeg_output::framing::{
    app_outline, app_used, build, exif_outline, exif_signature, file_outline, framing_outline,
    icc_outline, icc_records, icc_signature, marker_outline, used_after, xmp_outline, xmp_signature,
    Extras, Used,
};
use crate::vardct_engine::jpeg_output::metadata::{
    app_declared, huffman_declared, quantizer_declared, AppMarker, AppMarkerKind, HuffmanTable,
    JpegReconstructionMetadata, JpegScan, QuantizationTable,
};
use crate::vardct_engine::jpeg_output::quantizers::sources_outcome;
use crate::vardct_engine::jpeg_output::segments::{
    byte_outline, component_bytes, counts_outline, frame_outline, huffman_group_bytes,
    huffman_group_end, huffman_outline, huffman_selector, huffmans_outline, longest_code,
    quantizer_group_bytes, quantizer_group_end, quantizer_outline, quantizers_outline,
    scan_component_bytes, scan_outline, values_outline, written_count,
};
use crate::vardct_engine::jpeg_output::tally::{
    lemma_file, lemma_places_add, quantizer_places, scan_places,
};
use crate::vardct_engine::jpeg_output::template::{
    all_of, big_endian, blank, placed, placed_steps, placeholder, records,     segment_head, steps, Outline, Piece, Plan,
};
use crate::vardct_engine::jpeg_output::JpegReconstructionError;
use vstd::prelude::*;

verus! {

/// Where a reader of the file stands: the next byte, and how many of each kind of record it has
/// met.
pub ghost struct Reading {
    pub at: int,
    pub app: int,
    pub quantizers: int,
    pub huffman: int,
    pub scans: int,
    pub icc_chunks: int,
    pub icc_bytes: int,
    pub comments: int,
    pub intermarker: int,
}

/// Two bytes as a number, the first one most significant.
pub open spec fn number_at(bytes: Seq<u8>, at: int) -> int {
    bytes[at] * 256 + bytes[at + 1]
}

/// A segment starts with its marker and with a length that counts all bytes behind the marker.
pub open spec fn reads_head(segment: Seq<u8>, marker: u8) -> bool {
    &&& segment.len() >= 4
    &&& segment[0] == 0xff
    &&& segment[1] == marker
    &&& number_at(segment, 2) == segment.len() - 2
}

/// A frame header: samples of eight bits, height, width, and for every component its identifier,
/// its sampling across in the upper four bits of a byte and its sampling down in the lower four,
/// and the selector of its quantization table. Samplings of two components relate as the blocks
/// in their rows and in their columns do.
pub open spec fn reads_frame(
    segment: Seq<u8>,
    header: &JpegReconstructionMetadata,
    layout: LayoutView,
    marker: u8,
) -> bool {
    let n = header.components@.len();
    &&& reads_head(segment, marker)
    &&& segment.len() == 10 + 3 * n
    &&& segment[4] == 8
    &&& number_at(segment, 5) == layout.extent.1
    &&& number_at(segment, 7) == layout.extent.0
    &&& segment[9] == n
    &&& forall|i: int| 0 <= i < n ==> #[trigger] reads_component(segment, header, layout, i)
    &&& forall|i: int, j: int|
        0 <= i < n && 0 <= j < n ==> #[trigger] samplings_relate(segment, layout, i, j)
}

/// Component `i` of a frame header.
pub open spec fn reads_component(
    segment: Seq<u8>,
    header: &JpegReconstructionMetadata,
    layout: LayoutView,
    i: int,
) -> bool {
    let component = header.components@[i];
    let plane = layout.planes[i];
    &&& segment[10 + 3 * i] == component.id
    &&& segment[11 + 3 * i] as int / 16 == plane.sampling.0
    &&& segment[11 + 3 * i] as int % 16 == plane.sampling.1
    &&& segment[12 + 3 * i] == header.quantization_tables@[component.quant as int].index
}

/// Components `i` and `j` of a frame header are sampled as their planes are wide and high.
pub open spec fn samplings_relate(segment: Seq<u8>, layout: LayoutView, i: int, j: int) -> bool {
    let one = segment[11 + 3 * i] as int;
    let other = segment[11 + 3 * j] as int;
    &&& one / 16 * layout.planes[j].columns == other / 16 * layout.planes[i].columns
    &&& one % 16 * layout.planes[j].rows == other % 16 * layout.planes[i].rows
}

/// A scan header: for every component its identifier, its DC table in the upper four bits of a
/// byte and its AC table in the lower four; then the first and last coefficient, and the
/// precision before the scan in the upper and behind it in the lower four bits of a byte.
pub open spec fn reads_scan(
    segment: Seq<u8>,
    header: &JpegReconstructionMetadata,
    scan: JpegScan,
    marker: u8,
) -> bool {
    let n = scan.components@.len() as int;
    &&& reads_head(segment, marker)
    &&& segment.len() == 8 + 2 * n
    &&& segment[4] == n
    &&& forall|i: int| 0 <= i < n ==> #[trigger] reads_selection(segment, header, scan, i)
    &&& segment[5 + 2 * n] == scan.start
    &&& segment[6 + 2 * n] == scan.end
    &&& scan.high < 16 && scan.low < 16 ==> segment[7 + 2 * n] as int / 16 == scan.high
        && segment[7 + 2 * n] as int % 16 == scan.low
}

/// Component `i` of a scan header.
pub open spec fn reads_selection(
    segment: Seq<u8>,
    header: &JpegReconstructionMetadata,
    scan: JpegScan,
    i: int,
) -> bool {
    let c = scan.components@[i];
    &&& segment[5 + 2 * i] == header.components@[c.component as int].id
    &&& c.dc < 16 && c.ac < 16 ==> segment[6 + 2 * i] as int / 16 == c.dc && segment[6 + 2
        * i] as int % 16 == c.ac
}

/// Where quantization table `i` stands in a segment that starts with table `q`: tables have
/// sixty-four bytes, or twice as many, behind one byte.
pub open spec fn table_at(tables: Seq<QuantizationTable>, q: int, i: int) -> int
    decreases i - q,
{
    if i <= q {
        4
    } else {
        table_at(tables, q, i - 1) + if tables[i - 1].precision == 0 { 65int } else { 129 }
    }
}

/// Quantization tables up to one that closes their segment: for each its precision in the upper
/// four bits of a byte and its selector in the lower four, and room for its values, whose place
/// is recorded.
pub open spec fn reads_quantizers(
    segment: Seq<u8>,
    quantizers: Seq<Seq<u32>>,
    at: int,
    tables: Seq<QuantizationTable>,
    sources: Seq<(u32, u32)>,
    marker: u8,
    q: int,
    end: int,
) -> bool {
    &&& 0 <= q < end <= tables.len()
    &&& tables[end - 1].last
    &&& forall|i: int| q <= i < end - 1 ==> !(#[trigger] tables[i]).last
    &&& reads_head(segment, marker)
    &&& segment.len() == table_at(tables, q, end)
    &&& forall|i: int|
        q <= i < end ==> #[trigger] reads_table(segment, quantizers, at, tables, sources, q, i)
}

/// Quantization table `i` in a segment at byte `at` that starts with table `q`.
pub open spec fn reads_table(
    segment: Seq<u8>,
    quantizers: Seq<Seq<u32>>,
    at: int,
    tables: Seq<QuantizationTable>,
    sources: Seq<(u32, u32)>,
    q: int,
    i: int,
) -> bool {
    let table = tables[i];
    let place = table_at(tables, q, i);
    &&& 4 <= place < segment.len()
    &&& segment[place] as int / 16 == table.precision
    &&& segment[place] as int % 16 == table.index
    &&& quantizers[i] == seq![
        (at + place + 1) as u32,
        sources[i].0,
        sources[i].1,
        table.precision as u32,
    ]
}

/// Where Huffman table `i` stands in a segment that starts with table `h`: tables have a selector,
/// sixteen counts and one byte for each symbol but the last; empty ones have no bytes.
pub open spec fn codes_at(tables: Seq<HuffmanTable>, h: int, i: int) -> int
    decreases i - h,
{
    if i <= h {
        4
    } else if tables[i - 1].values@.len() == 0 {
        codes_at(tables, h, i - 1)
    } else {
        codes_at(tables, h, i - 1) + 17 + (tables[i - 1].values@.len() - 1)
    }
}

/// A Huffman table in the bytes at `place`: its class above its selector, how many codes there
/// are of each length from one to sixteen, and its symbols. The last code of the greatest length,
/// with its symbol, is not written.
pub open spec fn reads_codes(segment: Seq<u8>, place: int, table: HuffmanTable) -> bool {
    &&& 4 <= place
    &&& place + 16 + table.values@.len() <= segment.len()
    &&& segment[place] as int / 16 == if table.ac { 1int } else { 0 }
    &&& segment[place] as int % 16 == table.index
    &&& exists|longest: int|
        {
            &&& 0 <= longest <= 16
            &&& #[trigger] table.counts@[longest] != 0
            &&& forall|bits: int| longest < bits <= 16 ==> #[trigger] table.counts@[bits] == 0
            &&& forall|bits: int|
                1 <= bits <= 16 ==> segment[place + bits] == (#[trigger] table.counts@[bits]) - if bits
                    == longest { 1int } else { 0 }
        }
    &&& forall|k: int|
        0 <= k < table.values@.len() - 1 ==> segment[place + 17 + k] == #[trigger] table.values@[k]
}

/// Huffman tables up to one that closes their segment, or is empty.
pub open spec fn reads_huffman(
    segment: Seq<u8>,
    tables: Seq<HuffmanTable>,
    marker: u8,
    h: int,
    end: int,
) -> bool {
    &&& 0 <= h < end <= tables.len()
    &&& tables[end - 1].last || tables[end - 1].values@.len() == 0
    &&& forall|i: int|
        h <= i < end - 1 ==> !(#[trigger] tables[i]).last && tables[i].values@.len() > 0
    &&& reads_head(segment, marker)
    &&& segment.len() == codes_at(tables, h, end)
    &&& forall|i: int|
        h <= i < end && (#[trigger] tables[i]).values@.len() > 0 ==> reads_codes(
            segment,
            codes_at(tables, h, i),
            tables[i],
        )
}

/// An application segment: bytes that were kept behind the marker's first byte, or a part of the
/// extra metadata behind its signature.
pub open spec fn reads_app(
    segment: Seq<u8>,
    header: &JpegReconstructionMetadata,
    extras: Extras,
    marker: u8,
    before: Reading,
    after: Reading,
) -> bool {
    let record = header.app_markers@[before.app];
    &&& before.app < header.app_markers@.len()
    &&& segment.len() >= 2
    &&& segment[0] == 0xff
    &&& segment[1] == marker
    &&& match record.body {
        Some((start, end)) => {
            &&& segment.skip(1) == header.opaque_body@.subrange(start as int, end as int)
            &&& after == (Reading { at: after.at, app: before.app + 1, ..before })
        },
        None => {
            &&& reads_head(segment, marker)
            &&& match record.kind {
                AppMarkerKind::Icc => {
                    &&& marker == 0xe2
                    &&& segment.len() >= 18
                    &&& segment.subrange(4, 16) == seq![
                        0x49u8, 0x43, 0x43, 0x5f, 0x50, 0x52, 0x4f, 0x46, 0x49, 0x4c, 0x45, 0,
                    ]
                    &&& segment[16] == (before.icc_chunks + 1) as u8
                    &&& segment[17] == icc_records(
                        header.app_markers@,
                        header.app_markers@.len() as int,
                    )
                    &&& segment.skip(18) == extras.icc@.subrange(before.icc_bytes, after.icc_bytes)
                    &&& after == (Reading {
                        at: after.at,
                        app: before.app + 1,
                        icc_chunks: before.icc_chunks + 1,
                        icc_bytes: before.icc_bytes + segment.len() - 18,
                        ..before
                    })
                },
                AppMarkerKind::Exif => {
                    &&& marker == 0xe1
                    &&& extras.exif@.len() >= 4
                    &&& segment.skip(4) == seq![0x45u8, 0x78, 0x69, 0x66, 0, 0]
                        + extras.exif@.skip(4)
                    &&& after == (Reading { at: after.at, app: before.app + 1, ..before })
                },
                AppMarkerKind::Xmp => {
                    &&& marker == 0xe1
                    &&& segment.len() >= 33
                    &&& segment.subrange(4, 33) == seq![
                        0x68u8, 0x74, 0x74, 0x70, 0x3a, 0x2f, 0x2f, 0x6e, 0x73, 0x2e, 0x61, 0x64,
                        0x6f, 0x62, 0x65, 0x2e, 0x63, 0x6f, 0x6d, 0x2f, 0x78, 0x61, 0x70, 0x2f,
                        0x31, 0x2e, 0x30, 0x2f, 0,
                    ]
                    &&& segment.skip(33) == extras.xmp@
                    &&& after == (Reading { at: after.at, app: before.app + 1, ..before })
                },
                AppMarkerKind::Unknown => false,
            }
        },
    }
}

/// What a reader finds between two places of the file: one marker with what belongs to it.
pub open spec fn reads(
    plan: Plan,
    header: &JpegReconstructionMetadata,
    layout: LayoutView,
    extras: Extras,
    sources: Seq<(u32, u32)>,
    marker: u8,
    before: Reading,
    after: Reading,
) -> bool {
    let segment = plan.bytes@.subrange(before.at, after.at);
    &&& 2 <= before.at <= after.at <= plan.bytes@.len()
    &&& if 0xc0 <= marker <= 0xc2 {
        reads_frame(segment, header, layout, marker) && after == (Reading { at: after.at, ..before })
    } else if marker == 0xdb {
        reads_quantizers(
            segment,
            records(plan.quantizers@),
            before.at,
            header.quantization_tables@,
            sources,
            marker,
            before.quantizers,
            after.quantizers,
        ) && after == (Reading { at: after.at, quantizers: after.quantizers, ..before })
    } else if marker == 0xc4 {
        reads_huffman(segment, header.huffman_tables@, marker, before.huffman, after.huffman)
            && after == (Reading { at: after.at, huffman: after.huffman, ..before })
    } else if marker == 0xda {
        &&& before.scans < header.scans@.len()
        &&& reads_scan(segment, header, header.scans@[before.scans], marker)
        &&& plan.scan_offsets@[before.scans] == after.at
        &&& after == (Reading { at: after.at, scans: before.scans + 1, ..before })
    } else if marker == 0xdd {
        &&& reads_head(segment, marker)
        &&& segment.len() == 6
        &&& number_at(segment, 4) == header.restart_interval
        &&& after == (Reading { at: after.at, ..before })
    } else if 0xe0 <= marker <= 0xef {
        reads_app(segment, header, extras, marker, before, after)
    } else if marker == 0xfe {
        &&& before.comments < header.comments@.len()
        &&& segment == seq![0xffu8] + header.comments@[before.comments]@
        &&& segment.len() >= 2 && segment[1] == marker
        &&& after == (Reading { at: after.at, comments: before.comments + 1, ..before })
    } else if marker == 0xff {
        &&& before.intermarker < header.intermarker_data@.len()
        &&& segment == header.intermarker_data@[before.intermarker]@
        &&& after == (Reading { at: after.at, intermarker: before.intermarker + 1, ..before })
    } else {
        &&& marker == 0xd9
        &&& segment == seq![0xffu8, 0xd9] + header.tail@
        &&& after == (Reading { at: after.at, ..before })
    }
}

/// The bytes of one piece.
spec fn written(piece: Piece) -> Seq<u8> {
    match piece {
        Piece::Bytes(bytes) => bytes,
        Piece::Quantizer { source, precision } => placeholder(precision),
        Piece::Scan => Seq::empty(),
    }
}

/// The bytes of the first `n` pieces.
spec fn flat(pieces: Seq<Piece>, n: int) -> Seq<u8>
    decreases n,
{
    if n <= 0 {
        Seq::empty()
    } else {
        flat(pieces, n - 1) + written(pieces[n - 1])
    }
}

/// The bytes of an outline.
spec fn laid(outline: Outline) -> Seq<u8> {
    flat(outline.pieces, outline.pieces.len() as int)
}

/// Two sequences of pieces write one behind the other.
proof fn lemma_flat_add(a: Seq<Piece>, b: Seq<Piece>, n: int)
    requires
        0 <= n <= a.len() + b.len(),
    ensures
        n <= a.len() ==> flat(a + b, n) == flat(a, n),
        n >= a.len() ==> flat(a + b, n) == flat(a, a.len() as int) + flat(b, n - a.len()),
    decreases n,
{
    if n > 0 {
        lemma_flat_add(a, b, n - 1);
        if n <= a.len() {
            assert((a + b)[n - 1] == a[n - 1]);
        } else {
            assert((a + b)[n - 1] == b[n - 1 - a.len()]);
            assert(flat(a, a.len() as int) + flat(b, n - 1 - a.len()) + written(b[n - 1 - a.len()])
                =~= flat(a, a.len() as int) + (flat(b, n - 1 - a.len()) + written(
                b[n - 1 - a.len()],
            )));
        }
    }
    if n == a.len() {
        assert(flat(a, n) + Seq::<u8>::empty() =~= flat(a, n));
    }
}

/// Two outlines in a row write one behind the other.
proof fn lemma_laid_chain(a: Outline, b: Outline)
    requires
        a.chain(b).refusal is None,
    ensures
        a.refusal is None,
        b.refusal is None,
        laid(a.chain(b)) == laid(a) + laid(b),
{
    lemma_flat_add(a.pieces, b.pieces, (a.pieces.len() + b.pieces.len()) as int);
}

/// One piece of bytes.
proof fn lemma_laid_bytes(bytes: Seq<u8>)
    ensures
        laid(steps(seq![Piece::Bytes(bytes)])) == bytes,
{
    let pieces = seq![Piece::Bytes(bytes)];
    assert(flat(pieces, 0) =~= Seq::<u8>::empty());
    assert(flat(pieces, 1) =~= bytes);
}

/// A segment's first four bytes.
proof fn lemma_laid_head(marker: u8, payload: int)
    requires
        segment_head(marker, payload).refusal is None,
        0 <= payload,
    ensures
        laid(segment_head(marker, payload)).len() == 4,
        laid(segment_head(marker, payload))[0] == 0xff,
        laid(segment_head(marker, payload))[1] == marker,
        number_at(laid(segment_head(marker, payload)), 2) == payload + 2,
{
    let pieces = segment_head(marker, payload).pieces;
    let length = big_endian((payload + 2) as u16);
    assert(flat(pieces, 0) =~= Seq::<u8>::empty());
    assert(flat(pieces, 1) =~= seq![0xffu8, marker]);
    assert(flat(pieces, 2) =~= seq![0xffu8, marker] + length);
    assert(length[0] * 256 + length[1] == payload + 2);
}

/// Outlines of one size, one behind the other.
proof fn lemma_laid_items(items: Seq<Outline>, n: int, size: int)
    requires
        0 <= n <= items.len(),
        0 < size,
        all_of(items, n).refusal is None,
        forall|i: int| 0 <= i < n ==> laid(#[trigger] items[i]).len() == size,
    ensures
        laid(all_of(items, n)).len() == n * size,
        forall|i: int, j: int| #![trigger laid(items[i])[j]]
            0 <= i < n && 0 <= j < size ==> laid(all_of(items, n))[i * size + j] == laid(
                items[i],
            )[j],
    decreases n,
{
    if n > 0 {
        lemma_laid_chain(all_of(items, n - 1), items[n - 1]);
        lemma_laid_items(items, n - 1, size);
        let front = laid(all_of(items, n - 1));
        assert((n - 1) * size + size == n * size) by (nonlinear_arith);
        assert forall|i: int, j: int| #![trigger laid(items[i])[j]]
            0 <= i < n && 0 <= j < size implies laid(all_of(items, n))[i * size + j] == laid(
            items[i],
        )[j] by {
            if i < n - 1 {
                assert(0 <= i * size + j < (n - 1) * size) by (nonlinear_arith)
                    requires
                        0 <= i < n - 1,
                        0 <= j < size,
                ;
            }
        }
    } else {
        assert(0 * size == 0);
    }
}

/// What was placed is what the pieces write, with a record of each scan and quantizer.
proof fn lemma_placed_bytes(pieces: Seq<Piece>, cap: u64, n: int)
    requires
        0 <= n <= pieces.len(),
        cap <= u32::MAX,
        placed_steps(blank(), pieces, cap, n) is Ok,
    ensures
        ({
            let template = placed_steps(blank(), pieces, cap, n)->Ok_0;
            &&& template.bytes == flat(pieces, n)
            &&& template.bytes.len() <= cap
            &&& template.scans.len() == scan_places(pieces, n)
            &&& template.quantizers.len() == quantizer_places(pieces, n)
            &&& forall|k: int|
                0 <= k < n && #[trigger] pieces[k] is Scan ==> 0 <= scan_places(pieces, k)
                    < template.scans.len() && template.scans[scan_places(pieces, k)] == flat(
                    pieces,
                    k,
                ).len()
            &&& forall|k: int|
                0 <= k < n ==> (#[trigger] pieces[k] matches Piece::Quantizer { source, precision }
                    ==> 0 <= quantizer_places(pieces, k) < template.quantizers.len()
                    && template.quantizers[quantizer_places(pieces, k)] == seq![
                    flat(pieces, k).len() as u32,
                    source.0,
                    source.1,
                    precision as u32,
                ])
        }),
    decreases n,
{
    if n > 0 {
        lemma_placed_bytes(pieces, cap, n - 1);
        let before = placed_steps(blank(), pieces, cap, n - 1)->Ok_0;
        let after = placed(before, pieces[n - 1], cap)->Ok_0;
        assert(after.bytes =~= flat(pieces, n));
    } else {
        assert(blank().bytes =~= flat(pieces, 0));
    }
}

/// Bytes behind an outline.
proof fn lemma_laid_next(outline: Outline, bytes: Seq<u8>)
    requires
        outline.refusal is None,
    ensures
        outline.chain(steps(seq![Piece::Bytes(bytes)])).refusal is None,
        laid(outline.chain(steps(seq![Piece::Bytes(bytes)]))) == laid(outline) + bytes,
{
    lemma_laid_chain(outline, steps(seq![Piece::Bytes(bytes)]));
    lemma_laid_bytes(bytes);
}

/// The parts of a frame header.
proof fn lemma_frame_parts(header: &JpegReconstructionMetadata, layout: LayoutView, marker: u8) -> (parts: (Seq<u8>, Seq<u8>))
    requires
        header.components@.len() <= 4,
        frame_outline(header, layout, marker).refusal is None,
    ensures
        parts.0.len() == 4,
        parts.0[0] == 0xff,
        parts.0[1] == marker,
        number_at(parts.0, 2) == 8 + 3 * header.components@.len(),
        parts.1.len() == 3 * header.components@.len(),
        laid(frame_outline(header, layout, marker)) == parts.0 + seq![8u8] + big_endian(
            layout.extent.1 as u16,
        ) + big_endian(layout.extent.0 as u16) + seq![header.components@.len() as u8] + parts.1,
        forall|i: int, k: int| #![trigger component_bytes(header, layout, i)[k]]
            0 <= i < header.components@.len() && 0 <= k < 3 ==> parts.1[i * 3 + k]
                == component_bytes(header, layout, i)[k],
{
    let n = header.components@.len();
    let items = Seq::new(
        n,
        |i: int| steps(seq![Piece::Bytes(component_bytes(header, layout, i))]),
    );
    let o1 = segment_head(marker, 6 + 3 * n as int);
    let height = big_endian(layout.extent.1 as u16);
    let width = big_endian(layout.extent.0 as u16);
    let o2 = o1.chain(steps(seq![Piece::Bytes(seq![8u8])]));
    let o3 = o2.chain(steps(seq![Piece::Bytes(height)]));
    let o4 = o3.chain(steps(seq![Piece::Bytes(width)]));
    let o5 = o4.chain(steps(seq![Piece::Bytes(seq![n as u8])]));
    assert(frame_outline(header, layout, marker) == o5.chain(all_of(items, n as int)));
    lemma_laid_next(o1, seq![8u8]);
    lemma_laid_next(o2, height);
    lemma_laid_next(o3, width);
    lemma_laid_next(o4, seq![n as u8]);
    lemma_laid_chain(o5, all_of(items, n as int));
    lemma_laid_head(marker, 6 + 3 * n as int);
    assert forall|i: int| 0 <= i < n implies laid(#[trigger] items[i]) == component_bytes(
        header,
        layout,
        i,
    ) by {
        lemma_laid_bytes(component_bytes(header, layout, i));
    }
    lemma_laid_items(items, n as int, 3);
    let tail = laid(all_of(items, n as int));
    assert forall|i: int, k: int| #![trigger component_bytes(header, layout, i)[k]]
        0 <= i < n && 0 <= k < 3 implies tail[i * 3 + k] == component_bytes(
        header,
        layout,
        i,
    )[k] by {
        assert(laid(items[i])[k] == component_bytes(header, layout, i)[k]);
    }
    (laid(o1), tail)
}

/// A frame header reads as it was meant.
proof fn lemma_reads_frame(header: &JpegReconstructionMetadata, layout: LayoutView, marker: u8)
    requires
        layout.wf(),
        header.components@.len() == layout.planes.len(),
        frame_outline(header, layout, marker).refusal is None,
    ensures
        reads_frame(laid(frame_outline(header, layout, marker)), header, layout, marker),
{
    let n = header.components@.len();
    let (head, tail) = lemma_frame_parts(header, layout, marker);
    let height = big_endian(layout.extent.1 as u16);
    let width = big_endian(layout.extent.0 as u16);
    let segment = laid(frame_outline(header, layout, marker));
    assert(segment.len() == 10 + 3 * n);
    assert(segment[0] == head[0] && segment[1] == head[1] && segment[2] == head[2] && segment[3]
        == head[3]);
    assert(segment[5] == height[0] && segment[6] == height[1]);
    assert(segment[7] == width[0] && segment[8] == width[1]);
    assert forall|i: int| 0 <= i < n implies #[trigger] reads_component(
        segment,
        header,
        layout,
        i,
    ) by {
        let bytes = component_bytes(header, layout, i);
        assert(layout.plane_wf(i));
        assert(tail[i * 3 + 0] == bytes[0]);
        assert(tail[i * 3 + 1] == bytes[1]);
        assert(tail[i * 3 + 2] == bytes[2]);
        assert(segment[10 + 3 * i] == tail[i * 3 + 0]);
        assert(segment[11 + 3 * i] == tail[i * 3 + 1]);
        assert(segment[12 + 3 * i] == tail[i * 3 + 2]);
    }
    assert forall|i: int, j: int| 0 <= i < n && 0 <= j < n implies #[trigger] samplings_relate(
        segment,
        layout,
        i,
        j,
    ) by {
        assert(reads_component(segment, header, layout, i));
        assert(reads_component(segment, header, layout, j));
        lemma_samplings(layout, i, j);
    }
}

/// Planes of whole units are as wide and as high as they are sampled.
proof fn lemma_samplings(layout: LayoutView, i: int, j: int)
    requires
        layout.wf(),
        0 <= i < layout.planes.len(),
        0 <= j < layout.planes.len(),
    ensures
        layout.planes[i].sampling.0 * layout.planes[j].columns == layout.planes[j].sampling.0
            * layout.planes[i].columns,
        layout.planes[i].sampling.1 * layout.planes[j].rows == layout.planes[j].sampling.1
            * layout.planes[i].rows,
{
    assert(layout.plane_wf(i) && layout.plane_wf(j));
    let (a, b) = (layout.planes[i], layout.planes[j]);
    let mcus = crate::vardct_engine::jpeg::mcu_extent(layout.planes);
    assert(a.sampling.0 * b.columns == b.sampling.0 * a.columns) by (nonlinear_arith)
        requires
            a.columns == mcus.0 * a.sampling.0,
            b.columns == mcus.0 * b.sampling.0,
    ;
    assert(a.sampling.1 * b.rows == b.sampling.1 * a.rows) by (nonlinear_arith)
        requires
            a.rows == mcus.1 * a.sampling.1,
            b.rows == mcus.1 * b.sampling.1,
    ;
}

/// Two numbers of four bits share a byte.
proof fn lemma_nibbles(high: u8, low: u8)
    requires
        high < 16,
        low < 16,
    ensures
        ((high << 4u8) | low) as int / 16 == high,
        ((high << 4u8) | low) as int % 16 == low,
{
    let byte = (high << 4u8) | low;
    assert(byte / 16 == high && byte % 16 == low) by (bit_vector)
        requires
            byte == (high << 4u8) | low,
            high < 16,
            low < 16,
    ;
}

/// The parts of a scan header.
proof fn lemma_scan_parts(header: &JpegReconstructionMetadata, marker: u8, scan: JpegScan) -> (parts: (Seq<u8>, Seq<u8>))
    requires
        scan.components@.len() <= 4,
        scan_outline(header, marker, scan).refusal is None,
    ensures
        parts.0.len() == 4,
        parts.0[0] == 0xff,
        parts.0[1] == marker,
        number_at(parts.0, 2) == 6 + 2 * scan.components@.len(),
        parts.1.len() == 2 * scan.components@.len(),
        laid(scan_outline(header, marker, scan)) == parts.0 + seq![scan.components@.len() as u8]
            + parts.1 + seq![scan.start, scan.end, (scan.high << 4u8) | scan.low],
        forall|i: int, k: int| #![trigger scan_component_bytes(header, scan.components@[i])[k]]
            0 <= i < scan.components@.len() && 0 <= k < 2 ==> parts.1[i * 2 + k]
                == scan_component_bytes(header, scan.components@[i])[k],
{
    let n = scan.components@.len();
    let items = Seq::new(
        n,
        |i: int| steps(seq![Piece::Bytes(scan_component_bytes(header, scan.components@[i]))]),
    );
    let o1 = segment_head(marker, 4 + 2 * n as int);
    let band = seq![scan.start, scan.end, (scan.high << 4u8) | scan.low];
    let o2 = o1.chain(steps(seq![Piece::Bytes(seq![n as u8])]));
    let o3 = o2.chain(all_of(items, n as int));
    let o4 = o3.chain(steps(seq![Piece::Bytes(band)]));
    let place = steps(seq![Piece::Scan]);
    assert(scan_outline(header, marker, scan) == o4.chain(place));
    lemma_laid_next(o1, seq![n as u8]);
    lemma_laid_chain(o4, place);
    lemma_laid_chain(o3, steps(seq![Piece::Bytes(band)]));
    lemma_laid_bytes(band);
    lemma_laid_chain(o2, all_of(items, n as int));
    assert(flat(place.pieces, 0) =~= Seq::<u8>::empty());
    assert(laid(place) =~= Seq::<u8>::empty());
    assert(laid(o4) + laid(place) =~= laid(o4));
    lemma_laid_head(marker, 4 + 2 * n as int);
    assert forall|i: int| 0 <= i < n implies laid(#[trigger] items[i]) == scan_component_bytes(
        header,
        scan.components@[i],
    ) by {
        lemma_laid_bytes(scan_component_bytes(header, scan.components@[i]));
    }
    lemma_laid_items(items, n as int, 2);
    let middle = laid(all_of(items, n as int));
    assert forall|i: int, k: int| #![trigger scan_component_bytes(header, scan.components@[i])[k]]
        0 <= i < n && 0 <= k < 2 implies middle[i * 2 + k] == scan_component_bytes(
        header,
        scan.components@[i],
    )[k] by {
        assert(laid(items[i])[k] == scan_component_bytes(header, scan.components@[i])[k]);
    }
    (laid(o1), middle)
}

/// A scan header reads as it was meant.
proof fn lemma_reads_scan(header: &JpegReconstructionMetadata, marker: u8, scan: JpegScan)
    requires
        scan.components@.len() <= 4,
        scan_outline(header, marker, scan).refusal is None,
    ensures
        reads_scan(laid(scan_outline(header, marker, scan)), header, scan, marker),
{
    let n = scan.components@.len() as int;
    let (head, middle) = lemma_scan_parts(header, marker, scan);
    let band = seq![scan.start, scan.end, (scan.high << 4u8) | scan.low];
    let segment = laid(scan_outline(header, marker, scan));
    assert(segment.len() == 8 + 2 * n);
    assert(segment[0] == head[0] && segment[1] == head[1] && segment[2] == head[2] && segment[3]
        == head[3]);
    assert(segment[4] == n);
    assert forall|i: int| 0 <= i < n implies #[trigger] reads_selection(
        segment,
        header,
        scan,
        i,
    ) by {
        let c = scan.components@[i];
        let bytes = scan_component_bytes(header, c);
        assert(middle[i * 2 + 0] == bytes[0]);
        assert(middle[i * 2 + 1] == bytes[1]);
        assert(segment[5 + 2 * i] == middle[i * 2 + 0]);
        assert(segment[6 + 2 * i] == middle[i * 2 + 1]);
        if c.dc < 16 && c.ac < 16 {
            lemma_nibbles(c.dc, c.ac);
        }
    }
    assert(segment[5 + 2 * n] == band[0]);
    assert(segment[6 + 2 * n] == band[1]);
    assert(segment[7 + 2 * n] == band[2]);
    if scan.high < 16 && scan.low < 16 {
        lemma_nibbles(scan.high, scan.low);
    }
}

/// Outlines one behind the other: each stands behind the bytes of those before it.
proof fn lemma_laid_any(items: Seq<Outline>, n: int, i: int)
    requires
        0 <= i < n <= items.len(),
        all_of(items, n).refusal is None,
    ensures
        items[i].refusal is None,
        all_of(items, i).refusal is None,
        all_of(items, i + 1).refusal is None,
        laid(all_of(items, i + 1)).len() == laid(all_of(items, i)).len() + laid(items[i]).len(),
        laid(all_of(items, i + 1)).len() <= laid(all_of(items, n)).len(),
        forall|k: int|
            0 <= k < laid(items[i]).len() ==> laid(all_of(items, n))[laid(all_of(items, i)).len()
                + k] == #[trigger] laid(items[i])[k],
    decreases n,
{
    lemma_laid_chain(all_of(items, n - 1), items[n - 1]);
    if i < n - 1 {
        lemma_laid_any(items, n - 1, i);
        let front = laid(all_of(items, n - 1));
        assert forall|k: int| 0 <= k < laid(items[i]).len() implies laid(
            all_of(items, n),
        )[laid(all_of(items, i)).len() + k] == #[trigger] laid(items[i])[k] by {
            assert(laid(all_of(items, n))[laid(all_of(items, i)).len() + k] == front[laid(
                all_of(items, i),
            ).len() + k]);
        }
    }
}

/// A group of quantization tables ends with the first one that closes it.
pub(crate) proof fn lemma_quantizer_group(tables: Seq<QuantizationTable>, q: int)
    requires
        0 <= q,
        quantizer_group_end(tables, q) is Some,
    ensures
        q < quantizer_group_end(tables, q)->0 <= tables.len(),
        tables[quantizer_group_end(tables, q)->0 - 1].last,
        forall|i: int|
            q <= i < quantizer_group_end(tables, q)->0 - 1 ==> !(#[trigger] tables[i]).last,
    decreases tables.len() - q,
{
    if !tables[q].last {
        lemma_quantizer_group(tables, q + 1);
    }
}

/// The length of a group of quantization tables.
proof fn lemma_table_at(tables: Seq<QuantizationTable>, q: int, i: int)
    requires
        0 <= q <= i <= tables.len(),
        forall|k: int| q <= k < i ==> (#[trigger] tables[k]).precision <= 1,
    ensures
        table_at(tables, q, i) == 4 + quantizer_group_bytes(tables, q, i),
        4 <= table_at(tables, q, i),
    decreases i - q,
{
    if q < i {
        lemma_table_at(tables, q, i - 1);
        assert(tables[i - 1].precision <= 1);
    }
}

/// What table `q + i` has among the pieces of a group.
spec fn table_laid(
    group: Outline,
    tables: Seq<QuantizationTable>,
    sources: Seq<(u32, u32)>,
    q: int,
    i: int,
) -> bool {
    let table = tables[q + i];
    let place = table_at(tables, q, q + i);
    &&& 4 <= place < laid(group).len() + 4
    &&& laid(group)[place - 4] == (table.precision * 16 + table.index) as u8
    &&& 2 * i + 1 < group.pieces.len()
    &&& group.pieces[2 * i + 1] == (Piece::Quantizer {
        source: sources[q + i],
        precision: table.precision,
    })
    &&& flat(group.pieces, 2 * i + 1).len() == place - 3
    &&& quantizer_places(group.pieces, 2 * i + 1) == i
}

/// One table behind others.
proof fn lemma_table_behind(
    front: Outline,
    last: Outline,
    tables: Seq<QuantizationTable>,
    sources: Seq<(u32, u32)>,
    q: int,
    i: int,
)
    requires
        front.refusal is None,
        last.refusal is None,
        table_laid(front, tables, sources, q, i),
        0 <= i,
    ensures
        table_laid(front.chain(last), tables, sources, q, i),
{
    lemma_laid_chain(front, last);
    lemma_flat_add(front.pieces, last.pieces, 2 * i + 1);
    lemma_places_add(front.pieces, last.pieces, 2 * i + 1);
}

/// The pieces of one table.
proof fn lemma_table_pieces(table: QuantizationTable, source: (u32, u32))
    requires
        table.precision <= 1,
    ensures
        ({
            let outline = quantizer_outline(table, source);
            let byte = (table.precision * 16 + table.index) as u8;
            &&& outline.refusal is None
            &&& outline.pieces.len() == 2
            &&& outline.pieces[1] == (Piece::Quantizer { source, precision: table.precision })
            &&& flat(outline.pieces, 1).len() == 1
            &&& laid(outline).len() == if table.precision == 0 { 65int } else { 129 }
            &&& laid(outline)[0] == byte
            &&& quantizer_places(outline.pieces, 1) == 0
            &&& quantizer_places(outline.pieces, 2) == 1
            &&& scan_places(outline.pieces, 2) == 0
        }),
{
    let outline = quantizer_outline(table, source);
    let bytes = seq![(table.precision * 16 + table.index) as u8];
    let piece = Piece::Quantizer { source, precision: table.precision };
    assert(outline.pieces =~= seq![Piece::Bytes(bytes), piece]);
    assert(flat(outline.pieces, 0) =~= Seq::<u8>::empty());
    assert(flat(outline.pieces, 1) =~= bytes);
    assert(flat(outline.pieces, 2) =~= bytes + placeholder(table.precision));
    assert(quantizer_places(outline.pieces, 0) == 0 && scan_places(outline.pieces, 0) == 0);
    assert(quantizer_places(outline.pieces, 1) == 0 && scan_places(outline.pieces, 1) == 0);
}

/// The pieces of a group of quantization tables.
proof fn lemma_quantizer_pieces(
    tables: Seq<QuantizationTable>,
    sources: Seq<(u32, u32)>,
    q: int,
    items: Seq<Outline>,
    n: int,
)
    requires
        0 <= q,
        0 <= n <= items.len(),
        q + n <= tables.len(),
        forall|k: int| q <= k < q + n ==> (#[trigger] tables[k]).precision <= 1,
        forall|i: int|
            0 <= i < n ==> #[trigger] items[i] == quantizer_outline(tables[q + i], sources[q + i]),
    ensures
        all_of(items, n).refusal is None,
        all_of(items, n).pieces.len() == 2 * n,
        laid(all_of(items, n)).len() == table_at(tables, q, q + n) - 4,
        quantizer_places(all_of(items, n).pieces, 2 * n) == n,
        forall|i: int|
            0 <= i < n ==> #[trigger] table_laid(all_of(items, n), tables, sources, q, i),
    decreases n,
{
    if n > 0 {
        lemma_quantizer_pieces(tables, sources, q, items, n - 1);
        let front = all_of(items, n - 1);
        let last = items[n - 1];
        let table = tables[q + n - 1];
        assert(table.precision <= 1);
        lemma_table_pieces(table, sources[q + n - 1]);
        let whole = all_of(items, n);
        assert(whole == front.chain(last));
        lemma_laid_chain(front, last);
        lemma_table_at(tables, q, q + n - 1);
        lemma_places_add(front.pieces, last.pieces, 2 * n);
        lemma_places_add(front.pieces, last.pieces, 2 * n - 1);
        lemma_flat_add(front.pieces, last.pieces, 2 * n - 1);
        assert(table_laid(whole, tables, sources, q, n - 1));
        assert forall|i: int| 0 <= i < n implies #[trigger] table_laid(
            whole,
            tables,
            sources,
            q,
            i,
        ) by {
            if i < n - 1 {
                assert(table_laid(front, tables, sources, q, i));
                lemma_table_behind(front, last, tables, sources, q, i);
            }
        }
    } else {
        assert(table_at(tables, q, q) == 4);
    }
}

/// What the records of placed quantizers say.
spec fn recorded(pieces: Seq<Piece>, quantizers: Seq<Seq<u32>>) -> bool {
    forall|k: int|
        0 <= k < pieces.len() ==> (#[trigger] pieces[k] matches Piece::Quantizer {
            source,
            precision,
        } ==> quantizers[quantizer_places(pieces, k)] == seq![
            flat(pieces, k).len() as u32,
            source.0,
            source.1,
            precision as u32,
        ])
}

/// A table of a group is recorded where it stands in the file.
proof fn lemma_table_recorded(
    front: Seq<Piece>,
    head: Outline,
    group: Outline,
    quantizers: Seq<Seq<u32>>,
    tables: Seq<QuantizationTable>,
    sources: Seq<(u32, u32)>,
    q: int,
    i: int,
)
    requires
        0 <= i,
        head.refusal is None,
        group.refusal is None,
        head.pieces.len() == 2,
        head.pieces[0] is Bytes,
        head.pieces[1] is Bytes,
        laid(head).len() == 4,
        table_laid(group, tables, sources, q, i),
        quantizer_places(front, front.len() as int) == q,
        recorded(front + (head.pieces + group.pieces), quantizers),
        tables[q + i].precision <= 1,
        tables[q + i].index <= 3,
    ensures
        reads_table(
            laid(head.chain(group)),
            quantizers,
            flat(front, front.len() as int).len() as int,
            tables,
            sources,
            q,
            q + i,
        ),
{
    lemma_laid_chain(head, group);
    let segment = laid(head.chain(group));
    let place = table_at(tables, q, q + i);
    assert(segment[place] == laid(group)[place - 4]);
    let inner = 2 * i + 1;
    let body = head.pieces + group.pieces;
    let pieces = front + body;
    let k = front.len() + 2 + inner;
    assert(body[2 + inner] == group.pieces[inner]);
    assert(pieces[k] == body[2 + inner]);
    lemma_flat_add(front, body, k);
    lemma_flat_add(head.pieces, group.pieces, 2 + inner);
    lemma_places_add(front, body, k);
    lemma_places_add(head.pieces, group.pieces, 2 + inner);
    assert(quantizer_places(head.pieces, 0) == 0);
    assert(quantizer_places(head.pieces, 1) == 0);
    assert(quantizer_places(head.pieces, 2) == 0);
    assert(quantizer_places(pieces, k) == q + i);
    assert(flat(pieces, k).len() == flat(front, front.len() as int).len() + place + 1);
}

/// Quantization tables read as they were meant.
proof fn lemma_reads_quantizers(
    tables: Seq<QuantizationTable>,
    sources: Seq<(u32, u32)>,
    marker: u8,
    q: int,
    front: Seq<Piece>,
    quantizers: Seq<Seq<u32>>,
)
    requires
        0 <= q,
        forall|k: int| 0 <= k < tables.len() ==> quantizer_declared(#[trigger] tables[k]),
        quantizers_outline(tables, sources, marker, q).refusal is None,
        quantizer_places(front, front.len() as int) == q,
        recorded(front + quantizers_outline(tables, sources, marker, q).pieces, quantizers),
    ensures
        reads_quantizers(
            laid(quantizers_outline(tables, sources, marker, q)),
            quantizers,
            flat(front, front.len() as int).len() as int,
            tables,
            sources,
            marker,
            q,
            quantizer_group_end(tables, q)->0,
        ),
{
    let outline = quantizers_outline(tables, sources, marker, q);
    assert(quantizer_group_end(tables, q) is Some);
    let end = quantizer_group_end(tables, q)->0;
    lemma_quantizer_group(tables, q);
    let head = segment_head(marker, quantizer_group_bytes(tables, q, end));
    let items = Seq::new(
        (end - q) as nat,
        |i: int| quantizer_outline(tables[q + i], sources[q + i]),
    );
    let group = all_of(items, end - q);
    assert(outline == head.chain(group));
    assert forall|k: int| q <= k < end implies (#[trigger] tables[k]).precision <= 1 by {
        assert(quantizer_declared(tables[k]));
    }
    lemma_laid_chain(head, group);
    lemma_table_at(tables, q, end);
    lemma_laid_head(marker, quantizer_group_bytes(tables, q, end));
    lemma_quantizer_pieces(tables, sources, q, items, end - q);
    let segment = laid(outline);
    assert(segment[0] == laid(head)[0] && segment[1] == laid(head)[1] && segment[2] == laid(
        head,
    )[2] && segment[3] == laid(head)[3]);
    let at = flat(front, front.len() as int).len() as int;
    assert forall|i: int| q <= i < end implies #[trigger] reads_table(
        segment,
        quantizers,
        at,
        tables,
        sources,
        q,
        i,
    ) by {
        assert(table_laid(group, tables, sources, q, i - q));
        assert(quantizer_declared(tables[i]));
        lemma_table_recorded(front, head, group, quantizers, tables, sources, q, i - q);
    }
}

/// The longest code of a table.
proof fn lemma_longest(counts: Seq<u16>, n: int)
    requires
        0 <= n <= counts.len(),
        longest_code(counts, n) is Some,
    ensures
        0 <= longest_code(counts, n)->0 < n,
        counts[longest_code(counts, n)->0] != 0,
        forall|bits: int| longest_code(counts, n)->0 < bits < n ==> #[trigger] counts[bits] == 0,
    decreases n,
{
    if counts[n - 1] == 0 {
        lemma_longest(counts, n - 1);
    }
}

/// A number that fits a byte.
proof fn lemma_laid_byte(value: int, detail: &'static str)
    requires
        0 <= value,
        byte_outline(value, detail).refusal is None,
    ensures
        laid(byte_outline(value, detail)).len() == 1,
        laid(byte_outline(value, detail))[0] == value,
{
    lemma_laid_bytes(seq![value as u8]);
}

/// The bytes of counts and of symbols.
proof fn lemma_laid_counts(counts: Seq<u16>, longest: int)
    requires
        counts.len() == 17,
        0 <= longest <= 16,
        counts[longest] != 0,
        counts_outline(counts, longest).refusal is None,
    ensures
        laid(counts_outline(counts, longest)).len() == 16,
        forall|bits: int|
            1 <= bits <= 16 ==> laid(counts_outline(counts, longest))[bits - 1] == (
            #[trigger] counts[bits]) - if bits == longest { 1int } else { 0 },
{
    let items = Seq::new(
        16,
        |i: int| byte_outline(written_count(counts, longest, i + 1), "DHT count"),
    );
    let whole = counts_outline(counts, longest);
    assert(whole == all_of(items, 16));
    assert forall|i: int| 0 <= i < 16 implies laid(#[trigger] items[i]).len() == 1 && laid(
        items[i],
    )[0] == written_count(counts, longest, i + 1) by {
        lemma_laid_any(items, 16, i);
        lemma_laid_byte(written_count(counts, longest, i + 1), "DHT count");
    }
    lemma_laid_items(items, 16, 1);
    assert forall|bits: int| 1 <= bits <= 16 implies laid(whole)[bits - 1] == (
    #[trigger] counts[bits]) - if bits == longest { 1int } else { 0 } by {
        let i = bits - 1;
        assert(laid(items[i])[0] == written_count(counts, longest, i + 1));
        assert(laid(whole)[i * 1 + 0] == laid(items[i])[0]);
    }
}

/// The bytes of symbols.
proof fn lemma_laid_values(values: Seq<u16>)
    requires
        values.len() > 0,
        values_outline(values).refusal is None,
    ensures
        laid(values_outline(values)).len() == values.len() - 1,
        forall|k: int|
            0 <= k < values.len() - 1 ==> laid(values_outline(values))[k] == #[trigger] values[k],
{
    let n = values.len() - 1;
    let items = Seq::new(n as nat, |i: int| byte_outline(values[i] as int, "DHT value"));
    let whole = values_outline(values);
    assert(whole == all_of(items, n));
    assert forall|i: int| 0 <= i < n implies laid(#[trigger] items[i]).len() == 1 && laid(
        items[i],
    )[0] == values[i] by {
        lemma_laid_any(items, n, i);
        lemma_laid_byte(values[i] as int, "DHT value");
    }
    lemma_laid_items(items, n, 1);
    assert forall|k: int| 0 <= k < n implies laid(whole)[k] == #[trigger] values[k] by {
        assert(laid(items[k])[0] == values[k]);
        assert(laid(whole)[k * 1 + 0] == laid(items[k])[0]);
    }
}

/// The selector of a table.
proof fn lemma_selector(table: HuffmanTable)
    requires
        table.index <= 3,
    ensures
        huffman_selector(table) as int / 16 == if table.ac { 1int } else { 0 },
        huffman_selector(table) as int % 16 == table.index,
{
    let index = table.index;
    assert(index | 0x10u8 == index + 16 && index | 0u8 == index) by (bit_vector)
        requires
            index <= 3,
    ;
}

/// One Huffman table reads as it was meant, wherever it stands.
proof fn lemma_reads_codes(segment: Seq<u8>, place: int, table: HuffmanTable)
    requires
        table.index <= 3,
        table.values@.len() > 0,
        huffman_outline(table).refusal is None,
        4 <= place,
        place + laid(huffman_outline(table)).len() <= segment.len(),
        forall|k: int|
            0 <= k < laid(huffman_outline(table)).len() ==> segment[place + k] == #[trigger] laid(
                huffman_outline(table),
            )[k],
    ensures
        laid(huffman_outline(table)).len() == 16 + table.values@.len(),
        reads_codes(segment, place, table),
{
    let whole = huffman_outline(table);
    let first = steps(seq![Piece::Bytes(seq![huffman_selector(table)])]);
    assert(longest_code(table.counts@, 17) is Some);
    let longest = longest_code(table.counts@, 17)->0;
    lemma_longest(table.counts@, 17);
    let counts = counts_outline(table.counts@, longest);
    let values = values_outline(table.values@);
    assert(whole == first.chain(counts.chain(values)));
    lemma_laid_chain(first, counts.chain(values));
    lemma_laid_chain(counts, values);
    lemma_laid_bytes(seq![huffman_selector(table)]);
    lemma_laid_counts(table.counts@, longest);
    lemma_laid_values(table.values@);
    lemma_selector(table);
    let bytes = laid(whole);
    assert(segment[place + 0] == bytes[0]);
    assert(table.counts@[longest] != 0);
    assert forall|bits: int| 1 <= bits <= 16 implies segment[place + bits] == (
    #[trigger] table.counts@[bits]) - if bits == longest { 1int } else { 0 } by {
        assert(segment[place + bits] == bytes[bits]);
        assert(bytes[bits] == laid(counts)[bits - 1]);
    }
    assert forall|k: int| 0 <= k < table.values@.len() - 1 implies segment[place + 17 + k]
        == #[trigger] table.values@[k] by {
        assert(segment[place + (17 + k)] == bytes[17 + k]);
        assert(bytes[17 + k] == laid(values)[k]);
    }
}

/// A group of Huffman tables ends with the first one that closes it.
proof fn lemma_huffman_group(tables: Seq<HuffmanTable>, h: int)
    requires
        0 <= h,
        huffman_group_end(tables, h) is Some,
    ensures
        h < huffman_group_end(tables, h)->0 <= tables.len(),
        tables[huffman_group_end(tables, h)->0 - 1].last || tables[huffman_group_end(tables, h)->0
            - 1].values@.len() == 0,
        forall|i: int|
            h <= i < huffman_group_end(tables, h)->0 - 1 ==> !(#[trigger] tables[i]).last
                && tables[i].values@.len() > 0,
    decreases tables.len() - h,
{
    if !(tables[h].values@.len() == 0 || tables[h].last) {
        lemma_huffman_group(tables, h + 1);
    }
}

/// Where tables of a group stand.
proof fn lemma_codes_at(tables: Seq<HuffmanTable>, h: int, items: Seq<Outline>, n: int)
    requires
        0 <= h,
        0 <= n <= items.len(),
        h + n <= tables.len(),
        all_of(items, n).refusal is None,
        forall|i: int| 0 <= i < n ==> huffman_declared(#[trigger] tables[h + i]),
        forall|i: int| 0 <= i < n ==> #[trigger] items[i] == huffman_outline(tables[h + i]),
    ensures
        laid(all_of(items, n)).len() == codes_at(tables, h, h + n) - 4,
        codes_at(tables, h, h + n) == 4 + huffman_group_bytes(tables, h, h + n),
        codes_at(tables, h, h + n) >= 4,
    decreases n,
{
    if n > 0 {
        lemma_laid_chain(all_of(items, n - 1), items[n - 1]);
        lemma_codes_at(tables, h, items, n - 1);
        let table = tables[h + (n - 1)];
        if table.values@.len() > 0 {
            let bytes = laid(huffman_outline(table));
            let room = Seq::new(4, |i: int| 0u8) + bytes;
            assert forall|k: int| 0 <= k < bytes.len() implies room[4 + k] == #[trigger] bytes[k] by {
            }
            lemma_reads_codes(room, 4, table);
        } else {
            assert(laid(items[n - 1]).len() == 0);
        }
    }
}

/// Huffman tables read as they were meant.
proof fn lemma_reads_huffman(tables: Seq<HuffmanTable>, marker: u8, h: int)
    requires
        0 <= h,
        forall|k: int| 0 <= k < tables.len() ==> huffman_declared(#[trigger] tables[k]),
        huffmans_outline(tables, marker, h).refusal is None,
    ensures
        reads_huffman(
            laid(huffmans_outline(tables, marker, h)),
            tables,
            marker,
            h,
            huffman_group_end(tables, h)->0,
        ),
{
    let outline = huffmans_outline(tables, marker, h);
    assert(huffman_group_end(tables, h) is Some);
    let end = huffman_group_end(tables, h)->0;
    lemma_huffman_group(tables, h);
    let head = segment_head(marker, huffman_group_bytes(tables, h, end));
    let items = Seq::new((end - h) as nat, |i: int| huffman_outline(tables[h + i]));
    let group = all_of(items, end - h);
    assert(outline == head.chain(group));
    lemma_laid_chain(head, group);
    lemma_codes_at(tables, h, items, end - h);
    lemma_laid_head(marker, huffman_group_bytes(tables, h, end));
    let segment = laid(outline);
    assert(segment[0] == laid(head)[0] && segment[1] == laid(head)[1] && segment[2] == laid(
        head,
    )[2] && segment[3] == laid(head)[3]);
    assert forall|i: int| h <= i < end && (#[trigger] tables[i]).values@.len() > 0 implies reads_codes(
        segment,
        codes_at(tables, h, i),
        tables[i],
    ) by {
        let n = i - h;
        lemma_laid_any(items, end - h, n);
        lemma_codes_at(tables, h, items, n);
        let bytes = laid(items[n]);
        let place = codes_at(tables, h, i);
        assert(huffman_declared(tables[i]));
        assert forall|k: int| 0 <= k < bytes.len() implies segment[place + k]
            == #[trigger] bytes[k] by {
            assert(segment[place + k] == laid(group)[place - 4 + k]);
        }
        lemma_reads_codes(segment, place, tables[i]);
    }
}

/// Counting from nothing stays at or above it.
proof fn lemma_icc_count(markers: Seq<AppMarker>, n: int)
    ensures
        icc_records(markers, n) >= 0,
    decreases n,
{
    if n > 0 {
        lemma_icc_count(markers, n - 1);
    }
}

/// Where a reader stands behind the first `m` markers.
spec fn reading(
    header: &JpegReconstructionMetadata,
    layout: LayoutView,
    extras: Extras,
    sources: Seq<(u32, u32)>,
    m: int,
) -> Reading {
    let used = used_after(header, m);
    Reading {
        at: laid(file_outline(header, layout, extras, sources, m)).len() as int,
        app: used.app,
        quantizers: used.quantizers,
        huffman: used.huffman,
        scans: used.scans,
        icc_chunks: used.icc_chunks,
        icc_bytes: used.icc_bytes,
        comments: used.comments,
        intermarker: used.intermarker,
    }
}

/// Nothing is used less than not at all.
proof fn lemma_used(
    header: &JpegReconstructionMetadata,
    layout: LayoutView,
    extras: Extras,
    sources: Seq<(u32, u32)>,
    m: int,
)
    requires
        header.declared(),
        0 <= m <= header.markers@.len(),
        file_outline(header, layout, extras, sources, m).refusal is None,
    ensures
        ({
            let used = used_after(header, m);
            &&& 0 <= used.app
            &&& 0 <= used.quantizers
            &&& 0 <= used.huffman
            &&& 0 <= used.scans
            &&& 0 <= used.icc_chunks
            &&& 0 <= used.icc_bytes
            &&& 0 <= used.comments
            &&& 0 <= used.intermarker
        }),
        2 <= laid(file_outline(header, layout, extras, sources, m)).len(),
    decreases m,
{
    if m > 0 {
        let used = used_after(header, m - 1);
        let marker = header.markers@[m - 1];
        let front = file_outline(header, layout, extras, sources, m - 1);
        let outline = marker_outline(header, layout, extras, sources, used, marker);
        lemma_laid_chain(front, outline);
        lemma_used(header, layout, extras, sources, m - 1);
        if marker == 0xdb {
            lemma_quantizer_group(header.quantization_tables@, used.quantizers);
        } else if marker == 0xc4 {
            lemma_huffman_group(header.huffman_tables@, used.huffman);
        } else if 0xe0 <= marker <= 0xef {
            assert(app_declared(
                header.app_markers@[used.app],
                header.opaque_body@.len() as int,
            ));
        }
    } else {
        lemma_laid_bytes(seq![0xffu8, 0xd8]);
    }
}

/// The outline of a file starts with that of its first markers.
proof fn lemma_file_prefix(
    header: &JpegReconstructionMetadata,
    layout: LayoutView,
    extras: Extras,
    sources: Seq<(u32, u32)>,
    m: int,
    n: int,
)
    requires
        0 <= m <= n,
        file_outline(header, layout, extras, sources, n).refusal is None,
    ensures
        file_outline(header, layout, extras, sources, m).refusal is None,
        file_outline(header, layout, extras, sources, m).pieces.len() <= file_outline(
            header,
            layout,
            extras,
            sources,
            n,
        ).pieces.len(),
        ({
            let front = file_outline(header, layout, extras, sources, m).pieces;
            let whole = file_outline(header, layout, extras, sources, n).pieces;
            whole == front + whole.skip(front.len() as int)
        }),
    decreases n - m,
{
    let front = file_outline(header, layout, extras, sources, m).pieces;
    let whole = file_outline(header, layout, extras, sources, n).pieces;
    if m < n {
        lemma_file_prefix(header, layout, extras, sources, m, n - 1);
        let most = file_outline(header, layout, extras, sources, n - 1).pieces;
        assert forall|k: int| 0 <= k < front.len() implies whole[k] == front[k] by {
            assert(most[k] == (front + most.skip(front.len() as int))[k]);
        }
    }
    assert(whole =~= front + whole.skip(front.len() as int));
}

/// An application segment reads as it was meant.
proof fn lemma_reads_app(
    header: &JpegReconstructionMetadata,
    extras: Extras,
    used: Used,
    marker: u8,
    before: Reading,
    after: Reading,
)
    requires
        header.declared(),
        0xe0 <= marker <= 0xef,
        0 <= used.app,
        0 <= used.icc_bytes,
        icc_records(header.app_markers@, header.app_markers@.len() as int) <= 255,
        app_outline(header, extras, used, marker).refusal is None,
        before.app == used.app,
        before.icc_chunks == used.icc_chunks,
        before.icc_bytes == used.icc_bytes,
        ({
            let next = app_used(header, used);
            after == (Reading {
                at: after.at,
                app: next.app,
                icc_chunks: next.icc_chunks,
                icc_bytes: next.icc_bytes,
                ..before
            })
        }),
    ensures
        reads_app(
            laid(app_outline(header, extras, used, marker)),
            header,
            extras,
            marker,
            before,
            after,
        ),
{
    let outline = app_outline(header, extras, used, marker);
    let record = header.app_markers@[used.app];
    assert(app_declared(record, header.opaque_body@.len() as int));
    let segment = laid(outline);
    match record.body {
        Some((start, end)) => {
            let bytes = header.opaque_body@.subrange(start as int, end as int);
            lemma_laid_bytes(seq![0xffu8]);
            lemma_laid_next(steps(seq![Piece::Bytes(seq![0xffu8])]), bytes);
            assert(segment.skip(1) =~= bytes);
        },
        None => {
            let head = segment_head(marker, record.size - 3);
            lemma_laid_head(marker, record.size - 3);
            match record.kind {
                AppMarkerKind::Icc => {
                    let rest = icc_outline(header, extras, used, marker, record);
                    lemma_laid_chain(head, rest);
                    lemma_icc_count(header.app_markers@, header.app_markers@.len() as int);
                    let numbers = seq![
                        (used.icc_chunks + 1) as u8,
                        icc_records(header.app_markers@, header.app_markers@.len() as int) as u8,
                    ];
                    let next = used.icc_bytes + record.size - 17;
                    let chunk = extras.icc@.subrange(used.icc_bytes, next);
                    let o1 = steps(seq![Piece::Bytes(icc_signature())]);
                    let o2 = o1.chain(steps(seq![Piece::Bytes(numbers)]));
                    lemma_laid_bytes(icc_signature());
                    lemma_laid_next(o1, numbers);
                    lemma_laid_next(o2, chunk);
                    assert(segment =~= laid(head) + icc_signature() + numbers + chunk);
                    assert(segment.subrange(4, 16) =~= icc_signature());
                    assert(segment.skip(18) =~= chunk);
                    assert(segment.len() == record.size + 1);
                },
                AppMarkerKind::Exif => {
                    let rest = exif_outline(extras, used, marker, record);
                    lemma_laid_chain(head, rest);
                    let payload = extras.exif@.subrange(4, extras.exif@.len() as int);
                    lemma_laid_bytes(exif_signature());
                    lemma_laid_next(steps(seq![Piece::Bytes(exif_signature())]), payload);
                    assert(segment =~= laid(head) + exif_signature() + payload);
                    assert(segment.skip(4) =~= exif_signature() + extras.exif@.skip(4));
                },
                AppMarkerKind::Xmp => {
                    let rest = xmp_outline(extras, used, marker, record);
                    lemma_laid_chain(head, rest);
                    lemma_laid_bytes(xmp_signature());
                    lemma_laid_next(steps(seq![Piece::Bytes(xmp_signature())]), extras.xmp@);
                    assert(segment =~= laid(head) + xmp_signature() + extras.xmp@);
                    assert(segment.subrange(4, 33) =~= xmp_signature());
                    assert(segment.skip(33) =~= extras.xmp@);
                },
                AppMarkerKind::Unknown => {},
            }
        },
    }
}

/// One marker of a file reads as it was meant.
#[verifier::rlimit(40)]
proof fn lemma_reads_marker(
    plan: Plan,
    header: &JpegReconstructionMetadata,
    layout: LayoutView,
    extras: Extras,
    sources: Seq<(u32, u32)>,
    m: int,
    rest: Seq<Piece>,
    cap: u64,
)
    requires
        header.declared(),
        layout.wf(),
        header.components@.len() == layout.planes.len(),
        icc_records(header.app_markers@, header.app_markers@.len() as int) <= 255,
        0 <= m < header.markers@.len(),
        cap <= u32::MAX,
        file_outline(header, layout, extras, sources, m + 1).refusal is None,
        ({
            let pieces = file_outline(header, layout, extras, sources, m + 1).pieces + rest;
            placed_steps(blank(), pieces, cap, pieces.len() as int) matches Ok(template) && {
                &&& plan.bytes@ == template.bytes
                &&& plan.scan_offsets@ == template.scans
                &&& records(plan.quantizers@) == template.quantizers
            }
        }),
    ensures
        reads(
            plan,
            header,
            layout,
            extras,
            sources,
            header.markers@[m],
            reading(header, layout, extras, sources, m),
            reading(header, layout, extras, sources, m + 1),
        ),
{
    let front = file_outline(header, layout, extras, sources, m);
    let used = used_after(header, m);
    let marker = header.markers@[m];
    let outline = marker_outline(header, layout, extras, sources, used, marker);
    let next = file_outline(header, layout, extras, sources, m + 1);
    let before = reading(header, layout, extras, sources, m);
    let after = reading(header, layout, extras, sources, m + 1);
    assert(next == front.chain(outline));
    lemma_laid_chain(front, outline);
    lemma_used(header, layout, extras, sources, m);
    let pieces = next.pieces + rest;
    let all = pieces.len() as int;
    lemma_placed_bytes(pieces, cap, all);
    lemma_flat_add(next.pieces, rest, all);
    let segment = plan.bytes@.subrange(before.at, after.at);
    assert(plan.bytes@ == laid(next) + flat(rest, rest.len() as int));
    assert(segment =~= laid(outline));
    if 0xc0 <= marker <= 0xc2 {
        lemma_reads_frame(header, layout, marker);
    } else if marker == 0xdb {
        lemma_file(header, layout, extras, sources, m);
        let quantizers = records(plan.quantizers@);
        assert(recorded(front.pieces + outline.pieces, quantizers)) by {
            let some = front.pieces + outline.pieces;
            assert forall|k: int| 0 <= k < some.len() implies (
            #[trigger] some[k] matches Piece::Quantizer { source, precision }
                ==> quantizers[quantizer_places(some, k)] == seq![
                flat(some, k).len() as u32,
                source.0,
                source.1,
                precision as u32,
            ]) by {
                assert(pieces[k] == some[k]);
                lemma_flat_add(next.pieces, rest, k);
                lemma_places_add(next.pieces, rest, k);
            }
        }
        lemma_reads_quantizers(
            header.quantization_tables@,
            sources,
            marker,
            used.quantizers,
            front.pieces,
            quantizers,
        );
    } else if marker == 0xc4 {
        lemma_reads_huffman(header.huffman_tables@, marker, used.huffman);
    } else if marker == 0xda {
        lemma_reads_scan(header, marker, header.scans@[used.scans]);
        lemma_file(header, layout, extras, sources, m);
        lemma_file(header, layout, extras, sources, m + 1);
        let k = next.pieces.len() - 1;
        let last = outline.pieces.len() - 1;
        assert(outline.pieces[last] is Scan);
        assert(next.pieces[k] == outline.pieces[last]);
        assert(pieces[k] == next.pieces[k]);
        lemma_places_add(next.pieces, rest, k);
        lemma_flat_add(next.pieces, rest, k);
        assert(flat(next.pieces, k + 1) =~= flat(next.pieces, k));
    } else if marker == 0xdd {
        let value = big_endian(header.restart_interval);
        lemma_laid_head(marker, 2);
        lemma_laid_next(segment_head(marker, 2), value);
        assert(value[0] * 256 + value[1] == header.restart_interval);
        assert(segment[4] == value[0] && segment[5] == value[1]);
    } else if 0xe0 <= marker <= 0xef {
        lemma_reads_app(header, extras, used, marker, before, after);
    } else if marker == 0xfe {
        lemma_laid_bytes(seq![0xffu8]);
        lemma_laid_next(
            steps(seq![Piece::Bytes(seq![0xffu8])]),
            header.comments@[used.comments]@,
        );
    } else if marker == 0xff {
        lemma_laid_bytes(header.intermarker_data@[used.intermarker]@);
    } else {
        lemma_laid_bytes(seq![0xffu8, 0xd9u8]);
        lemma_laid_next(steps(seq![Piece::Bytes(seq![0xffu8, 0xd9u8])]), header.tail@);
    }
}

/// A reader that walks the template of a file from its first two bytes on finds every marker in
/// the declared order, each with the frame, the tables, the scan or the other bytes that belong
/// to it, and stands at the end of the template behind the last one, where it has met every
/// record of the metadata.
#[verifier::rlimit(40)]
pub proof fn law_file_reads(
    header: &JpegReconstructionMetadata,
    layout: &JpegCoefficientLayout,
    extras: &Extras<'_>,
    byte_limit: u64,
    host_limit: u64,
    plan: Plan,
) -> (places: Seq<Reading>)
    requires
        header.declared(),
        layout@.wf(),
        header.components@.len() == layout@.planes.len(),
        call_ensures(
            build,
            (header, layout, extras, byte_limit, host_limit),
            Ok::<Plan, JpegReconstructionError>(plan),
        ),
    ensures
        2 <= plan.bytes@.len() <= byte_limit,
        plan.bytes@[0] == 0xff,
        plan.bytes@[1] == 0xd8,
        places.len() == header.markers@.len() + 1,
        places[0] == (Reading {
            at: 2,
            app: 0,
            quantizers: 0,
            huffman: 0,
            scans: 0,
            icc_chunks: 0,
            icc_bytes: 0,
            comments: 0,
            intermarker: 0,
        }),
        forall|m: int|
            0 <= m < header.markers@.len() ==> reads(
                plan,
                header,
                layout@,
                *extras,
                sources_outcome(header, layout@)->Ok_0,
                #[trigger] header.markers@[m],
                places[m],
                places[m + 1],
            ),
        ({
            let end = places[header.markers@.len() as int];
            &&& end.at == plan.bytes@.len()
            &&& end.app == header.app_markers@.len()
            &&& end.quantizers == header.quantization_tables@.len()
            &&& end.huffman == header.huffman_tables@.len()
            &&& end.scans == header.scans@.len()
            &&& end.comments == header.comments@.len()
            &&& end.intermarker == header.intermarker_data@.len()
        }),
{
    let cap = least(byte_limit as int, u32::MAX as int) as u64;
    let sources = sources_outcome(header, layout@)->Ok_0;
    let n = header.markers@.len() as int;
    let outline = framing_outline(header, layout@, *extras, sources);
    let file = file_outline(header, layout@, *extras, sources, n);
    assert(outline.refusal is None);
    assert(file.refusal is None);
    assert(outline.pieces =~= file.pieces);
    let pieces = file.pieces;
    lemma_placed_bytes(pieces, cap, pieces.len() as int);
    let places = Seq::new((n + 1) as nat, |m: int| reading(header, layout@, *extras, sources, m));
    let start = file_outline(header, layout@, *extras, sources, 0);
    lemma_laid_bytes(seq![0xffu8, 0xd8]);
    lemma_file_prefix(header, layout@, *extras, sources, 0, n);
    lemma_flat_add(start.pieces, pieces.skip(start.pieces.len() as int), pieces.len() as int);
    assert(laid(start)[0] == 0xff && laid(start)[1] == 0xd8);
    assert(plan.bytes@[0] == laid(start)[0] && plan.bytes@[1] == laid(start)[1]);
    assert forall|m: int| 0 <= m < n implies reads(
        plan,
        header,
        layout@,
        *extras,
        sources,
        #[trigger] header.markers@[m],
        places[m],
        places[m + 1],
    ) by {
        lemma_file_prefix(header, layout@, *extras, sources, m + 1, n);
        let next = file_outline(header, layout@, *extras, sources, m + 1);
        lemma_reads_marker(
            plan,
            header,
            layout@,
            *extras,
            sources,
            m,
            pieces.skip(next.pieces.len() as int),
            cap,
        );
    }
    places
}

} // verus!
