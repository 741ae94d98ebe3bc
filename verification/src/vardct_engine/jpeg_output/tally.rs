//! How many scans and quantizers the template of a file places, and how far apart.

use crate::vardct_engine::jpeg::LayoutView;
use crate::vardct_engine::jpeg_output::framing::{
    app_outline, file_outline, framing_outline, kept_outline, marker_outline,
    marker_used, used_after, Extras,
};
use crate::vardct_engine::jpeg_output::metadata::{
    HuffmanTable, JpegReconstructionMetadata, JpegScan, QuantizationTable,
};
use crate::vardct_engine::jpeg_output::segments::{
    byte_outline, component_bytes, counts_outline, frame_outline, huffman_group_end,
    huffman_outline, huffmans_outline, longest_code, quantizer_group_bytes, quantizer_group_end,
    quantizer_outline, quantizers_outline, scan_component_bytes, scan_outline, values_outline,
    written_count,
};
use crate::vardct_engine::jpeg_output::template::{
    all_of, blank, placed, placed_all, placed_steps, segment_head, steps, Outline, Piece,
};
use vstd::prelude::*;

verus! {

/// Places of scans among the first `n` pieces.
pub open spec fn scan_places(pieces: Seq<Piece>, n: int) -> int
    decreases n,
{
    if n <= 0 {
        0
    } else {
        scan_places(pieces, n - 1) + if pieces[n - 1] is Scan { 1int } else { 0 }
    }
}

/// Placeholders of quantizers among the first `n` pieces.
pub open spec fn quantizer_places(pieces: Seq<Piece>, n: int) -> int
    decreases n,
{
    if n <= 0 {
        0
    } else {
        quantizer_places(pieces, n - 1) + if pieces[n - 1] is Quantizer { 1int } else { 0 }
    }
}

/// A piece that lengthens the template by its own bytes.
pub open spec fn lengthens(piece: Piece) -> bool {
    piece matches Piece::Bytes(bytes) && bytes.len() > 0
}

/// Every place of a scan follows bytes of its own header.
pub open spec fn spaced(pieces: Seq<Piece>) -> bool {
    forall|i: int|
        0 <= i < pieces.len() && #[trigger] pieces[i] is Scan ==> i > 0 && lengthens(pieces[i - 1])
}

/// Nothing but bytes.
pub open spec fn plain(outline: Outline) -> bool {
    forall|i: int| 0 <= i < outline.pieces.len() ==> #[trigger] outline.pieces[i] is Bytes
}

/// The places of scans and quantizers that an outline makes.
pub open spec fn tallies(outline: Outline, scans: int, quantizers: int) -> bool {
    &&& scan_places(outline.pieces, outline.pieces.len() as int) == scans
    &&& quantizer_places(outline.pieces, outline.pieces.len() as int) == quantizers
    &&& spaced(outline.pieces)
}

pub(crate) proof fn lemma_places_add(a: Seq<Piece>, b: Seq<Piece>, n: int)
    requires
        0 <= n <= a.len() + b.len(),
    ensures
        scan_places(a + b, n) == if n <= a.len() {
            scan_places(a, n)
        } else {
            scan_places(a, a.len() as int) + scan_places(b, n - a.len())
        },
        quantizer_places(a + b, n) == if n <= a.len() {
            quantizer_places(a, n)
        } else {
            quantizer_places(a, a.len() as int) + quantizer_places(b, n - a.len())
        },
    decreases n,
{
    if n > 0 {
        lemma_places_add(a, b, n - 1);
        if n <= a.len() {
            assert((a + b)[n - 1] == a[n - 1]);
        } else {
            assert((a + b)[n - 1] == b[n - 1 - a.len()]);
            assert(scan_places(b, 0) == 0 && quantizer_places(b, 0) == 0);
        }
    }
}

/// Outlines in a row make the places of both.
proof fn lemma_tally_chain(a: Outline, s: int, q: int, b: Outline, t: int, p: int)
    requires
        a.refusal is None,
        tallies(a, s, q),
        tallies(b, t, p),
    ensures
        tallies(a.chain(b), s + t, q + p),
{
    let both = a.pieces + b.pieces;
    lemma_places_add(a.pieces, b.pieces, both.len() as int);
    assert forall|i: int| 0 <= i < both.len() && #[trigger] both[i] is Scan implies i > 0
        && lengthens(both[i - 1]) by {
        if i >= a.pieces.len() {
            assert(both[i] == b.pieces[i - a.pieces.len()]);
        } else {
            assert(both[i] == a.pieces[i]);
        }
    }
}

proof fn lemma_plain_places(pieces: Seq<Piece>, n: int)
    requires
        0 <= n <= pieces.len(),
        forall|i: int| 0 <= i < pieces.len() ==> #[trigger] pieces[i] is Bytes,
    ensures
        scan_places(pieces, n) == 0,
        quantizer_places(pieces, n) == 0,
    decreases n,
{
    if n > 0 {
        lemma_plain_places(pieces, n - 1);
        assert(pieces[n - 1] is Bytes);
    }
}

/// Bytes make no places.
proof fn lemma_plain(outline: Outline)
    requires
        plain(outline),
    ensures
        tallies(outline, 0, 0),
{
    lemma_plain_places(outline.pieces, outline.pieces.len() as int);
}

proof fn lemma_plain_all(outlines: Seq<Outline>, n: int)
    requires
        0 <= n <= outlines.len(),
        forall|i: int| 0 <= i < outlines.len() ==> plain(#[trigger] outlines[i]),
    ensures
        plain(all_of(outlines, n)),
    decreases n,
{
    if n > 0 {
        lemma_plain_all(outlines, n - 1);
        assert(plain(outlines[n - 1]));
    }
}

proof fn lemma_frame(header: &JpegReconstructionMetadata, layout: LayoutView, marker: u8)
    ensures
        plain(frame_outline(header, layout, marker)),
{
    let n = header.components@.len();
    lemma_plain_all(
        Seq::new(
            n,
            |i: int| steps(seq![Piece::Bytes(component_bytes(header, layout, i))]),
        ),
        n as int,
    );
}

proof fn lemma_huffman(table: HuffmanTable)
    ensures
        plain(huffman_outline(table)),
{
    if table.values@.len() > 0 {
        if let Some(longest) = longest_code(table.counts@, 17) {
            lemma_plain_all(
                Seq::new(
                    16,
                    |i: int|
                        byte_outline(
                            written_count(
                                table.counts@,
                                longest,
                                i + 1,
                            ),
                            "DHT count",
                        ),
                ),
                16,
            );
            lemma_plain_all(
                Seq::new(
                    (table.values@.len() - 1) as nat,
                    |i: int|
                        byte_outline(
                            table.values@[i] as int,
                            "DHT value",
                        ),
                ),
                table.values@.len() - 1,
            );
            assert(plain(counts_outline(table.counts@, longest)));
            assert(plain(values_outline(table.values@)));
        }
    }
}

proof fn lemma_huffmans(tables: Seq<HuffmanTable>, marker: u8, h: int)
    ensures
        plain(huffmans_outline(tables, marker, h)),
{
    if let Some(end) = huffman_group_end(tables, h) {
        lemma_huffman_end(tables, h);
        let items = Seq::new((end - h) as nat, |i: int| huffman_outline(tables[h + i]));
        assert forall|i: int| 0 <= i < items.len() implies plain(#[trigger] items[i]) by {
            lemma_huffman(tables[h + i]);
        }
        lemma_plain_all(items, end - h);
    }
}

proof fn lemma_huffman_end(tables: Seq<HuffmanTable>, h: int)
    ensures
        huffman_group_end(tables, h) matches Some(end) ==> h < end,
    decreases tables.len() - h,
{
    if h < tables.len() && !(tables[h].values@.len() == 0 || tables[h].last) {
        lemma_huffman_end(tables, h + 1);
    }
}

proof fn lemma_quantizer_end(tables: Seq<QuantizationTable>, q: int)
    ensures
        quantizer_group_end(tables, q) matches Some(end) ==> q < end,
    decreases tables.len() - q,
{
    if q < tables.len() && !tables[q].last {
        lemma_quantizer_end(tables, q + 1);
    }
}

proof fn lemma_one_quantizer(table: QuantizationTable, source: (u32, u32))
    ensures
        quantizer_outline(table, source).refusal is None,
        tallies(quantizer_outline(table, source), 0, 1),
{
    let pieces = quantizer_outline(table, source).pieces;
    assert(pieces.len() == 2 && pieces[0] is Bytes && pieces[1] is Quantizer);
    assert(scan_places(pieces, 0) == 0 && scan_places(pieces, 1) == 0);
    assert(quantizer_places(pieces, 0) == 0 && quantizer_places(pieces, 1) == 0);
}

proof fn lemma_group(items: Seq<Outline>, n: int)
    requires
        0 <= n <= items.len(),
        forall|i: int|
            0 <= i < items.len() ==> (#[trigger] items[i]).refusal is None && tallies(
                items[i],
                0,
                1,
            ),
    ensures
        all_of(items, n).refusal is None,
        tallies(all_of(items, n), 0, n),
    decreases n,
{
    if n > 0 {
        lemma_group(items, n - 1);
        assert(items[n - 1].refusal is None);
        lemma_tally_chain(all_of(items, n - 1), 0, n - 1, items[n - 1], 0, 1);
    }
}

proof fn lemma_quantizers(
    tables: Seq<QuantizationTable>,
    sources: Seq<(u32, u32)>,
    marker: u8,
    q: int,
)
    requires
        quantizers_outline(tables, sources, marker, q).refusal is None,
    ensures
        tallies(
            quantizers_outline(tables, sources, marker, q),
            0,
            quantizer_group_end(tables, q)->0 - q,
        ),
{
    let end = quantizer_group_end(tables, q)->0;
    lemma_quantizer_end(tables, q);
    let head = segment_head(marker, quantizer_group_bytes(tables, q, end));
    let items = Seq::new(
        (end - q) as nat,
        |i: int| quantizer_outline(tables[q + i], sources[q + i]),
    );
    assert forall|i: int| 0 <= i < items.len() implies (#[trigger] items[i]).refusal is None
        && tallies(items[i], 0, 1) by {
        lemma_one_quantizer(tables[q + i], sources[q + i]);
    }
    lemma_group(items, end - q);
    assert(plain(head));
    lemma_plain(head);
    lemma_tally_chain(head, 0, 0, all_of(items, end - q), 0, end - q);
}

proof fn lemma_scan(header: &JpegReconstructionMetadata, marker: u8, scan: JpegScan)
    requires
        scan_outline(header, marker, scan).refusal is None,
    ensures
        tallies(scan_outline(header, marker, scan), 1, 0),
{
    let n = scan.components@.len();
    let items = Seq::new(
        n,
        |i: int| steps(seq![Piece::Bytes(scan_component_bytes(header, scan.components@[i]))]),
    );
    lemma_plain_all(items, n as int);
    let all = scan_outline(header, marker, scan).pieces;
    let last = all.len() - 1;
    let front = segment_head(marker, 4 + 2 * n as int).chain(
        steps(seq![Piece::Bytes(seq![n as u8])]),
    ).chain(all_of(items, n as int)).chain(
        steps(
            seq![Piece::Bytes(seq![scan.start, scan.end, (scan.high << 4u8) | scan.low])],
        ),
    );
    assert(plain(front));
    assert(scan_outline(header, marker, scan) == front.chain(
        steps(seq![Piece::Scan]),
    ));
    assert(all =~= front.pieces + seq![Piece::Scan]);
    lemma_plain(front);
    lemma_places_add(front.pieces, seq![Piece::Scan], all.len() as int);
    assert(scan_places(seq![Piece::Scan], 0) == 0 && quantizer_places(seq![Piece::Scan], 0) == 0);
    assert(scan_places(seq![Piece::Scan], 1) == 1 && quantizer_places(seq![Piece::Scan], 1) == 0);
    assert(lengthens(all[last - 1]));
    assert forall|i: int| 0 <= i < all.len() && #[trigger] all[i] is Scan implies i > 0
        && lengthens(all[i - 1]) by {
        if i < last {
            assert(all[i] == front.pieces[i]);
        }
    }
}

/// What one marker places.
proof fn lemma_marker(
    header: &JpegReconstructionMetadata,
    layout: LayoutView,
    extras: Extras,
    sources: Seq<(u32, u32)>,
    n: int,
)
    requires
        0 <= n < header.markers@.len(),
        marker_outline(
            header,
            layout,
            extras,
            sources,
            used_after(header, n),
            header.markers@[n],
        ).refusal is None,
    ensures
        ({
            let used = used_after(header, n);
            let marker = header.markers@[n];
            let next = marker_used(header, used, marker);
            tallies(
                marker_outline(header, layout, extras, sources, used, marker),
                next.scans - used.scans,
                next.quantizers - used.quantizers,
            )
        }),
{
    let used = used_after(header, n);
    let marker = header.markers@[n];
    let outline = marker_outline(header, layout, extras, sources, used, marker);
    if marker == 0xdb {
        lemma_quantizers(header.quantization_tables@, sources, marker, used.quantizers);
    } else if marker == 0xda {
        lemma_scan(header, marker, header.scans@[used.scans]);
    } else {
        if 0xc0 <= marker <= 0xc2 {
            lemma_frame(header, layout, marker);
        } else if marker == 0xc4 {
            lemma_huffmans(header.huffman_tables@, marker, used.huffman);
        } else if 0xe0 <= marker <= 0xef {
            assert(plain(app_outline(header, extras, used, marker)));
        } else if marker == 0xfe {
            assert(plain(kept_outline(header.comments@[used.comments]@, marker, "COM identity")));
        }
        assert(plain(outline));
        lemma_plain(outline);
    }
}

/// What the first markers place.
pub(crate) proof fn lemma_file(
    header: &JpegReconstructionMetadata,
    layout: LayoutView,
    extras: Extras,
    sources: Seq<(u32, u32)>,
    n: int,
)
    requires
        0 <= n <= header.markers@.len(),
        file_outline(header, layout, extras, sources, n).refusal is None,
    ensures
        tallies(
            file_outline(header, layout, extras, sources, n),
            used_after(header, n).scans,
            used_after(header, n).quantizers,
        ),
    decreases n,
{
    if n > 0 {
        lemma_file(header, layout, extras, sources, n - 1);
        lemma_marker(header, layout, extras, sources, n - 1);
        let before = used_after(header, n - 1);
        let next = marker_used(header, before, header.markers@[n - 1]);
        lemma_tally_chain(
            file_outline(header, layout, extras, sources, n - 1),
            before.scans,
            before.quantizers,
            marker_outline(header, layout, extras, sources, before, header.markers@[n - 1]),
            next.scans - before.scans,
            next.quantizers - before.quantizers,
        );
    } else {
        lemma_plain(file_outline(header, layout, extras, sources, n));
    }
}

/// Every place lies strictly behind the one before.
pub open spec fn ascending(places: Seq<u32>) -> bool {
    forall|i: int, j: int|
        0 <= i < j < places.len() ==> #[trigger] places[i] < #[trigger] places[j]
}

/// Every piece leaves its place in the template, and scans are apart.
proof fn lemma_placed(pieces: Seq<Piece>, cap: u64, n: int)
    requires
        0 <= n <= pieces.len(),
        cap <= u32::MAX,
        spaced(pieces),
        placed_steps(blank(), pieces, cap, n) is Ok,
    ensures
        ({
            let template = placed_steps(blank(), pieces, cap, n)->Ok_0;
            &&& template.bytes.len() <= cap
            &&& template.scans.len() == scan_places(pieces, n)
            &&& template.quantizers.len() == quantizer_places(pieces, n)
            &&& ascending(template.scans)
            &&& forall|i: int|
                0 <= i < template.scans.len() ==> #[trigger] template.scans[i]
                    <= template.bytes.len()
            &&& n > 0 && lengthens(pieces[n - 1]) ==> forall|i: int|
                0 <= i < template.scans.len() ==> #[trigger] template.scans[i]
                    < template.bytes.len()
        }),
    decreases n,
{
    if n > 0 {
        lemma_placed(pieces, cap, n - 1);
        let before = placed_steps(blank(), pieces, cap, n - 1)->Ok_0;
        let after = placed(before, pieces[n - 1], cap)->Ok_0;
        assert(before.bytes.len() <= after.bytes.len());
        if pieces[n - 1] is Scan {
            assert(lengthens(pieces[n - 2]));
        }
    }
}

/// The template of a file has one place for every scan, strictly one behind the other, and one
/// placeholder for every quantization table.
pub proof fn law_template_places(
    header: &JpegReconstructionMetadata,
    layout: LayoutView,
    extras: Extras,
    sources: Seq<(u32, u32)>,
    cap: u64,
)
    requires
        cap <= u32::MAX,
        placed_all(blank(), framing_outline(header, layout, extras, sources), cap) is Ok,
    ensures
        ({
            let template = placed_all(
                blank(),
                framing_outline(header, layout, extras, sources),
                cap,
            )->Ok_0;
            &&& template.scans.len() == header.scans@.len()
            &&& template.quantizers.len() == header.quantization_tables@.len()
            &&& ascending(template.scans)
            &&& forall|i: int|
                0 <= i < template.scans.len() ==> #[trigger] template.scans[i]
                    <= template.bytes.len()
            &&& template.bytes.len() <= cap
        }),
{
    let outline = framing_outline(header, layout, extras, sources);
    let n = header.markers@.len() as int;
    let file = file_outline(header, layout, extras, sources, n);
    lemma_file(header, layout, extras, sources, n);
    assert(outline.pieces =~= file.pieces);
    lemma_placed(outline.pieces, cap, outline.pieces.len() as int);
}

} // verus!
