//! The marker segments of a JPEG file.

use crate::vardct_engine::jpeg::{JpegCoefficientLayout, JpegCoefficientPlane, LayoutView};
use crate::vardct_engine::jpeg_output::metadata::{
    huffman_declared, lemma_symbol_bytes, quantizer_declared, symbol_bytes, HuffmanTable,
    JpegReconstructionMetadata, JpegScan, QuantizationTable, ScanComponent,
};
use crate::vardct_engine::jpeg_output::template::{
    all_of, big_endian, lemma_all_of_next, lemma_chain_nothing, lemma_nothing, lemma_refused,
    lemma_took, refused, segment_head, steps, Outline, Piece, Sink,
};
use crate::vardct_engine::jpeg_output::JpegReconstructionError;
use vstd::prelude::*;

verus! {

/// Sampling factors of a component, four bits each.
pub open spec fn sampling_byte(across: int, down: int) -> u8 {
    (across * 16 + down) as u8
}

/// The declaration of one frame component.
pub open spec fn component_bytes(
    header: &JpegReconstructionMetadata,
    layout: LayoutView,
    i: int,
) -> Seq<u8> {
    let component = header.components@[i];
    let plane = layout.planes[i];
    seq![
        component.id,
        sampling_byte(plane.sampling.0, plane.sampling.1),
        header.quantization_tables@[component.quant as int].index,
    ]
}

/// A frame header: eight-bit samples, height, width and components.
pub open spec fn frame_outline(
    header: &JpegReconstructionMetadata,
    layout: LayoutView,
    marker: u8,
) -> Outline {
    let n = header.components@.len();
    segment_head(marker, 6 + 3 * n as int).chain(steps(seq![Piece::Bytes(seq![8u8])])).chain(
        steps(seq![Piece::Bytes(big_endian(layout.extent.1 as u16))]),
    ).chain(steps(seq![Piece::Bytes(big_endian(layout.extent.0 as u16))])).chain(
        steps(seq![Piece::Bytes(seq![n as u8])]),
    ).chain(
        all_of(
            Seq::new(
                n,
                |i: int| steps(seq![Piece::Bytes(component_bytes(header, layout, i))]),
            ),
            n as int,
        ),
    )
}

/// One past the table that closes the group starting at `q`.
pub open spec fn quantizer_group_end(tables: Seq<QuantizationTable>, q: int) -> Option<int>
    decreases tables.len() - q,
{
    if q >= tables.len() {
        None
    } else if tables[q].last {
        Some(q + 1)
    } else {
        quantizer_group_end(tables, q + 1)
    }
}

/// Bytes of the tables `q..end`, each behind one byte of precision and selector.
pub open spec fn quantizer_group_bytes(tables: Seq<QuantizationTable>, q: int, end: int) -> int
    decreases end - q,
{
    if q >= end {
        0
    } else {
        quantizer_group_bytes(tables, q, end - 1) + 1 + 64 * (1 + tables[end - 1].precision)
    }
}

/// One quantization table: precision and selector, then its placeholder.
pub open spec fn quantizer_outline(table: QuantizationTable, source: (u32, u32)) -> Outline {
    steps(seq![Piece::Bytes(seq![(table.precision * 16 + table.index) as u8])]).chain(
        steps(seq![Piece::Quantizer { source, precision: table.precision }]),
    )
}

/// The quantization tables of one marker.
pub open spec fn quantizers_outline(
    tables: Seq<QuantizationTable>,
    sources: Seq<(u32, u32)>,
    marker: u8,
    q: int,
) -> Outline {
    match quantizer_group_end(tables, q) {
        None => refused(JpegReconstructionError::Invalid("DQT group")),
        Some(end) => segment_head(marker, quantizer_group_bytes(tables, q, end)).chain(
            all_of(
                Seq::new(
                    (end - q) as nat,
                    |i: int| quantizer_outline(tables[q + i], sources[q + i]),
                ),
                end - q,
            ),
        ),
    }
}

/// One past the table that closes the group starting at `h`.
pub open spec fn huffman_group_end(tables: Seq<HuffmanTable>, h: int) -> Option<int>
    decreases tables.len() - h,
{
    if h >= tables.len() {
        None
    } else if tables[h].values@.len() == 0 || tables[h].last {
        Some(h + 1)
    } else {
        huffman_group_end(tables, h + 1)
    }
}

/// Bytes of the tables `h..end`: a selector, sixteen counts and all symbols but the reserved one.
pub open spec fn huffman_group_bytes(tables: Seq<HuffmanTable>, h: int, end: int) -> int
    decreases end - h,
{
    if h >= end {
        0
    } else if tables[end - 1].values@.len() == 0 {
        huffman_group_bytes(tables, h, end - 1)
    } else {
        huffman_group_bytes(tables, h, end - 1) + 16 + tables[end - 1].values@.len()
    }
}

/// The last of the first `n` code lengths that is in use.
pub open spec fn longest_code(counts: Seq<u16>, n: int) -> Option<int>
    decreases n,
{
    if n <= 0 {
        None
    } else if counts[n - 1] != 0 {
        Some(n - 1)
    } else {
        longest_code(counts, n - 1)
    }
}

/// A number that must fit a byte.
pub open spec fn byte_outline(value: int, detail: &'static str) -> Outline {
    if value > 255 {
        refused(JpegReconstructionError::Invalid(detail))
    } else {
        steps(seq![Piece::Bytes(seq![value as u8])])
    }
}

/// Codes of `bits` bits as a file declares them: without the reserved one of greatest length.
pub open spec fn written_count(counts: Seq<u16>, longest: int, bits: int) -> int {
    counts[bits] - if bits == longest { 1int } else { 0 }
}

/// The counts of one table.
pub open spec fn counts_outline(counts: Seq<u16>, longest: int) -> Outline {
    all_of(
        Seq::new(16, |i: int| byte_outline(written_count(counts, longest, i + 1), "DHT count")),
        16,
    )
}

/// The symbols of one table, without the last.
pub open spec fn values_outline(values: Seq<u16>) -> Outline {
    all_of(
        Seq::new((values.len() - 1) as nat, |i: int| byte_outline(values[i] as int, "DHT value")),
        values.len() - 1,
    )
}

/// Selector of a Huffman table: its class in the upper four bits.
pub open spec fn huffman_selector(table: HuffmanTable) -> u8 {
    table.index | if table.ac { 0x10u8 } else { 0u8 }
}

/// One Huffman table; an empty one only closes its group.
pub open spec fn huffman_outline(table: HuffmanTable) -> Outline {
    if table.values@.len() == 0 {
        steps(Seq::empty())
    } else {
        steps(seq![Piece::Bytes(seq![huffman_selector(table)])]).chain(
            match longest_code(table.counts@, 17) {
                None => refused(JpegReconstructionError::Invalid("DHT counts")),
                Some(longest) => counts_outline(table.counts@, longest).chain(
                    values_outline(table.values@),
                ),
            },
        )
    }
}

/// The Huffman tables of one marker.
pub open spec fn huffmans_outline(tables: Seq<HuffmanTable>, marker: u8, h: int) -> Outline {
    match huffman_group_end(tables, h) {
        None => refused(JpegReconstructionError::Invalid("DHT group")),
        Some(end) => segment_head(marker, huffman_group_bytes(tables, h, end)).chain(
            all_of(
                Seq::new((end - h) as nat, |i: int| huffman_outline(tables[h + i])),
                end - h,
            ),
        ),
    }
}

/// One component of a scan: its identifier and its two table selectors.
pub open spec fn scan_component_bytes(
    header: &JpegReconstructionMetadata,
    c: ScanComponent,
) -> Seq<u8> {
    seq![header.components@[c.component as int].id, (c.dc << 4u8) | c.ac]
}

/// A scan header, and the place of its entropy-coded bytes.
pub open spec fn scan_outline(
    header: &JpegReconstructionMetadata,
    marker: u8,
    scan: JpegScan,
) -> Outline {
    let n = scan.components@.len();
    segment_head(marker, 4 + 2 * n as int).chain(steps(seq![Piece::Bytes(seq![n as u8])])).chain(
        all_of(
            Seq::new(
                n,
                |i: int|
                    steps(seq![Piece::Bytes(scan_component_bytes(header, scan.components@[i]))]),
            ),
            n as int,
        ),
    ).chain(
        steps(seq![Piece::Bytes(seq![scan.start, scan.end, (scan.high << 4u8) | scan.low])]),
    ).chain(steps(seq![Piece::Scan]))
}

/// Writes a number that must fit a byte.
fn put_checked(sink: &mut Sink, value: u16, detail: &'static str) -> (r: Result<
    (),
    JpegReconstructionError,
>)
    requires
        old(sink).wf(),
    ensures
        old(sink).took(*final(sink), byte_outline(value as int, detail), r),
{
    if value > 255 {
        proof {
            lemma_refused(sink@, JpegReconstructionError::Invalid(detail), sink.spec_cap());
        }
        return Err(JpegReconstructionError::Invalid(detail));
    }
    sink.put_byte(value as u8)
}

/// Writes a frame header.
pub(crate) fn put_frame(
    sink: &mut Sink,
    header: &JpegReconstructionMetadata,
    layout: &JpegCoefficientLayout,
    marker: u8,
) -> (r: Result<(), JpegReconstructionError>)
    requires
        old(sink).wf(),
        header.components@.len() == layout@.planes.len(),
        forall|i: int|
            0 <= i < header.components@.len() ==> (#[trigger] header.components@[i]).quant
                < header.quantization_tables@.len(),
    ensures
        old(sink).took(*final(sink), frame_outline(header, layout@, marker), r),
{
    let extent: [u32; 2] = layout.extent();
    let planes = layout.planes();
    let n: usize = header.components.len();
    assert(planes@.len() == layout@.planes.len());
    let ghost s0 = *sink;
    let ghost o1 = segment_head(marker, 6 + 3 * n);
    let ghost o2 = o1.chain(steps(seq![Piece::Bytes(seq![8u8])]));
    let ghost o3 = o2.chain(steps(seq![Piece::Bytes(big_endian(layout@.extent.1 as u16))]));
    let ghost o4 = o3.chain(steps(seq![Piece::Bytes(big_endian(layout@.extent.0 as u16))]));
    let ghost base = o4.chain(steps(seq![Piece::Bytes(seq![n as u8])]));
    let ghost items = Seq::new(
        header.components@.len(),
        |i: int| steps(seq![Piece::Bytes(component_bytes(header, layout@, i))]),
    );
    let r = sink.marker(marker, 6 + 3 * n);
    let r = sink.byte_next(r, 8, Ghost(s0), Ghost(o1));
    let r = sink.u16_next(r, extent[1] as u16, Ghost(s0), Ghost(o2));
    let r = sink.u16_next(r, extent[0] as u16, Ghost(s0), Ghost(o3));
    let mut r = sink.byte_next(r, n as u8, Ghost(s0), Ghost(o4));
    proof {
        lemma_chain_nothing(base);
    }
    let mut i: usize = 0;
    while i < n
        invariant
            n == header.components@.len(),
            n == planes@.len(),
            n <= 3,
            layout@.wf(),
            planes@.map_values(|p: JpegCoefficientPlane| p@) == layout@.planes,
            i <= n,
            s0.took(*sink, base.chain(all_of(items, i as int)), r),
            items == Seq::new(
                header.components@.len(),
                |i: int| steps(seq![Piece::Bytes(component_bytes(header, layout@, i))]),
            ),
            forall|i: int|
                0 <= i < header.components@.len() ==> (#[trigger] header.components@[i]).quant
                    < header.quantization_tables@.len(),
        decreases n - i,
    {
        let component = header.components[i];
        let plane: JpegCoefficientPlane = planes[i];
        assert(layout@.planes[i as int] == plane@);
        assert(layout@.plane_wf(i as int));
        let bytes: [u8; 3] = [
            component.id,
            (plane.sampling[0] * 16 + plane.sampling[1]) as u8,
            header.quantization_tables[component.quant as usize].index,
        ];
        assert(bytes@ =~= component_bytes(header, layout@, i as int));
        r = sink.put_next(r, &bytes, Ghost(s0), Ghost(base.chain(all_of(items, i as int))));
        proof {
            lemma_all_of_next(base, items, i as int);
        }
        i = i + 1;
    }
    r
}

/// Writes the quantization tables of one marker and gives the table behind them.
pub(crate) fn put_quantizers(
    sink: &mut Sink,
    tables: &Vec<QuantizationTable>,
    sources: &Vec<[u32; 2]>,
    marker: u8,
    q: usize,
) -> (r: Result<usize, JpegReconstructionError>)
    requires
        old(sink).wf(),
        q <= tables@.len() <= usize::MAX / 129,
        sources@.len() == tables@.len(),
        forall|i: int| 0 <= i < tables@.len() ==> quantizer_declared(#[trigger] tables@[i]),
    ensures
        old(sink).took(
            *final(sink),
            quantizers_outline(tables@, source_pairs(sources@), marker, q as int),
            done(r),
        ),
        r matches Ok(end) ==> Some(end as int) == quantizer_group_end(tables@, q as int) && end
            <= tables@.len(),
{
    let mut end: usize = q;
    let mut length: usize = 0;
    let mut closed = false;
    while !closed
        invariant
            q <= end <= tables@.len() <= usize::MAX / 129,
            length == quantizer_group_bytes(tables@, q as int, end as int),
            length <= 129 * (end - q),
            sink.wf(),
            *sink == *old(sink),
            forall|i: int| 0 <= i < tables@.len() ==> quantizer_declared(#[trigger] tables@[i]),
            closed ==> quantizer_group_end(tables@, q as int) == Some(end as int),
            !closed ==> quantizer_group_end(tables@, q as int) == quantizer_group_end(
                tables@,
                end as int,
            ),
        decreases tables@.len() - end, if closed { 0int } else { 1int },
    {
        if end >= tables.len() {
            proof {
                lemma_refused(sink@, JpegReconstructionError::Invalid("DQT group"), sink.spec_cap());
            }
            return Err(JpegReconstructionError::Invalid("DQT group"));
        }
        let table = tables[end];
        assert(quantizer_declared(tables@[end as int]));
        end = end + 1;
        length = length + 1 + 64 * (1 + table.precision as usize);
        if table.last {
            closed = true;
        }
    }
    let ghost s0 = *sink;
    let ghost base = segment_head(marker, length as int);
    let ghost pairs = source_pairs(sources@);
    let ghost items = Seq::new(
        (end - q) as nat,
        |i: int| quantizer_outline(tables@[q + i], pairs[q + i]),
    );
    let mut r = sink.marker(marker, length);
    proof {
        lemma_chain_nothing(base);
    }
    let mut i: usize = q;
    while i < end
        invariant
            q <= i <= end <= tables@.len(),
            sources@.len() == tables@.len(),
            pairs == source_pairs(sources@),
            s0.took(*sink, base.chain(all_of(items, i - q)), r),
            items == Seq::new(
                (end - q) as nat,
                |i: int| quantizer_outline(tables@[q + i], pairs[q + i]),
            ),
            forall|i: int| 0 <= i < tables@.len() ==> quantizer_declared(#[trigger] tables@[i]),
        decreases end - i,
    {
        let table = tables[i];
        let source: [u32; 2] = sources[i];
        assert(quantizer_declared(tables@[i as int]));
        let ghost taken = base.chain(all_of(items, i - q));
        let ghost before = *sink;
        match r {
            Ok(_) => {
                let lead: u8 = table.precision * 16 + table.index;
                let ghost o1 = steps(seq![Piece::Bytes(seq![lead])]);
                let ghost o2 = steps(
                    seq![Piece::Quantizer {
                        source: (source[0], source[1]),
                        precision: table.precision,
                    }],
                );
                let r1 = sink.put_byte(lead);
                let ghost middle = *sink;
                let r2 = match r1 {
                    Ok(_) => sink.quantizer(source, table.precision),
                    Err(error) => Err(error),
                };
                proof {
                    lemma_took(before, middle, *sink, o1, o2, r1, r2);
                    assert(o1.chain(o2) == items[i - q]);
                    lemma_took(s0, before, *sink, taken, items[i - q], r, r2);
                }
                r = r2;
            },
            Err(_) => {
                proof {
                    lemma_took(s0, before, *sink, taken, items[i - q], r, r);
                }
            },
        }
        proof {
            lemma_all_of_next(base, items, i - q);
        }
        i = i + 1;
    }
    match r {
        Ok(_) => Ok(end),
        Err(error) => Err(error),
    }
}

/// The sources of all tables as pairs.
pub open spec fn source_pairs(sources: Seq<[u32; 2]>) -> Seq<(u32, u32)> {
    Seq::new(sources.len(), |i: int| (sources[i][0], sources[i][1]))
}

/// Whether something succeeded, without its value.
pub open spec fn done<T>(r: Result<T, JpegReconstructionError>) -> Result<
    (),
    JpegReconstructionError,
> {
    match r {
        Ok(_) => Ok(()),
        Err(error) => Err(error),
    }
}

/// The last code length in use.
fn longest(counts: &[u16; 17]) -> (r: Option<usize>)
    ensures
        match longest_code(counts@, 17) {
            Some(bits) => r == Some(bits as usize) && 0 <= bits < 17 && counts[bits] != 0,
            None => r is None,
        },
{
    let mut n: usize = 17;
    while n > 0
        invariant
            n <= 17,
            longest_code(counts@, 17) == longest_code(counts@, n as int),
        decreases n,
    {
        if counts[n - 1] != 0 {
            return Some(n - 1);
        }
        n = n - 1;
    }
    None
}

/// Writes one Huffman table.
fn put_huffman(sink: &mut Sink, table: &HuffmanTable) -> (r: Result<(), JpegReconstructionError>)
    requires
        old(sink).wf(),
        huffman_declared(*table),
    ensures
        old(sink).took(*final(sink), huffman_outline(*table), r),
{
    let ghost s0 = *sink;
    if table.values.len() == 0 {
        proof {
            lemma_nothing(s0@, s0.spec_cap());
        }
        return Ok(());
    }
    let selector: u8 = table.index | if table.ac {
        0x10
    } else {
        0
    };
    let ghost base = steps(seq![Piece::Bytes(seq![selector])]);
    let r0 = sink.put_byte(selector);
    let ghost s1 = *sink;
    let bits = match longest(&table.counts) {
        Some(bits) => bits,
        None => {
            let ghost error = JpegReconstructionError::Invalid("DHT counts");
            let r1: Result<(), JpegReconstructionError> = match r0 {
                Ok(_) => Err(JpegReconstructionError::Invalid("DHT counts")),
                Err(error) => Err(error),
            };
            proof {
                lemma_refused(s1@, error, s1.spec_cap());
                lemma_took(s0, s1, s1, base, refused(error), r0, r1);
            }
            return r1;
        },
    };
    let ghost counts = Seq::new(
        16,
        |i: int| byte_outline(written_count(table.counts@, bits as int, i + 1), "DHT count"),
    );
    let ghost values = Seq::new(
        (table.values@.len() - 1) as nat,
        |i: int| byte_outline(table.values@[i] as int, "DHT value"),
    );
    let mut r = r0;
    proof {
        lemma_chain_nothing(base);
    }
    let mut i: usize = 0;
    while i < 16
        invariant
            0 <= i <= 16,
            0 <= bits < 17,
            table.counts[bits as int] != 0,
            s0.took(*sink, base.chain(all_of(counts, i as int)), r),
            counts == Seq::new(
                16,
                |i: int| byte_outline(written_count(table.counts@, bits as int, i + 1), "DHT count"),
            ),
        decreases 16 - i,
    {
        let ghost before = *sink;
        let ghost taken = base.chain(all_of(counts, i as int));
        let count: u16 = table.counts[i + 1] - if i + 1 == bits {
            1
        } else {
            0
        };
        let next = match r {
            Ok(_) => put_checked(sink, count, "DHT count"),
            Err(error) => Err(error),
        };
        proof {
            lemma_took(s0, before, *sink, taken, counts[i as int], r, next);
            lemma_all_of_next(base, counts, i as int);
        }
        r = next;
        i = i + 1;
    }
    let ghost with_counts = base.chain(all_of(counts, 16));
    proof {
        lemma_chain_nothing(with_counts);
    }
    let n: usize = table.values.len() - 1;
    let mut i: usize = 0;
    while i < n
        invariant
            n == table.values@.len() - 1,
            0 <= i <= n,
            s0.took(*sink, with_counts.chain(all_of(values, i as int)), r),
            values == Seq::new(
                (table.values@.len() - 1) as nat,
                |i: int| byte_outline(table.values@[i] as int, "DHT value"),
            ),
        decreases n - i,
    {
        let ghost before = *sink;
        let ghost taken = with_counts.chain(all_of(values, i as int));
        let next = match r {
            Ok(_) => put_checked(sink, table.values[i], "DHT value"),
            Err(error) => Err(error),
        };
        proof {
            lemma_took(s0, before, *sink, taken, values[i as int], r, next);
            lemma_all_of_next(with_counts, values, i as int);
        }
        r = next;
        i = i + 1;
    }
    proof {
        crate::vardct_engine::jpeg_output::template::lemma_chain_associative(
            base,
            all_of(counts, 16),
            all_of(values, n as int),
        );
    }
    r
}

/// Writes the Huffman tables of one marker and gives the table behind them.
pub(crate) fn put_huffmans(
    sink: &mut Sink,
    tables: &Vec<HuffmanTable>,
    marker: u8,
    h: usize,
) -> (r: Result<usize, JpegReconstructionError>)
    requires
        old(sink).wf(),
        h <= tables@.len(),
        symbol_bytes(tables@, tables@.len() as int) <= usize::MAX,
        forall|i: int| 0 <= i < tables@.len() ==> huffman_declared(#[trigger] tables@[i]),
    ensures
        old(sink).took(*final(sink), huffmans_outline(tables@, marker, h as int), done(r)),
        r matches Ok(end) ==> Some(end as int) == huffman_group_end(tables@, h as int) && end
            <= tables@.len(),
{
    let mut end: usize = h;
    let mut length: usize = 0;
    proof {
        lemma_symbol_bytes(tables@, 0, h as int);
    }
    let mut closed = false;
    while !closed
        invariant
            h <= end <= tables@.len(),
            symbol_bytes(tables@, tables@.len() as int) <= usize::MAX,
            length == huffman_group_bytes(tables@, h as int, end as int),
            length <= symbol_bytes(tables@, end as int),
            sink.wf(),
            *sink == *old(sink),
            forall|i: int| 0 <= i < tables@.len() ==> huffman_declared(#[trigger] tables@[i]),
            closed ==> huffman_group_end(tables@, h as int) == Some(end as int),
            !closed ==> huffman_group_end(tables@, h as int) == huffman_group_end(
                tables@,
                end as int,
            ),
        decreases tables@.len() - end, if closed { 0int } else { 1int },
    {
        if end >= tables.len() {
            proof {
                lemma_refused(sink@, JpegReconstructionError::Invalid("DHT group"), sink.spec_cap());
            }
            return Err(JpegReconstructionError::Invalid("DHT group"));
        }
        let table = &tables[end];
        assert(huffman_declared(tables@[end as int]));
        proof {
            lemma_symbol_bytes(tables@, end + 1, tables@.len() as int);
            lemma_symbol_bytes(tables@, 0, end as int);
        }
        end = end + 1;
        if table.values.len() == 0 {
            closed = true;
        } else {
            length = length + 16 + table.values.len();
            if table.last {
                closed = true;
            }
        }
    }
    let ghost s0 = *sink;
    let ghost base = segment_head(marker, length as int);
    let ghost items = Seq::new((end - h) as nat, |i: int| huffman_outline(tables@[h + i]));
    let mut r = sink.marker(marker, length);
    proof {
        lemma_chain_nothing(base);
    }
    let mut i: usize = h;
    while i < end
        invariant
            h <= i <= end <= tables@.len(),
            s0.took(*sink, base.chain(all_of(items, i - h)), r),
            items == Seq::new((end - h) as nat, |i: int| huffman_outline(tables@[h + i])),
            forall|i: int| 0 <= i < tables@.len() ==> huffman_declared(#[trigger] tables@[i]),
        decreases end - i,
    {
        let ghost taken = base.chain(all_of(items, i - h));
        let ghost before = *sink;
        assert(huffman_declared(tables@[i as int]));
        let next = match r {
            Ok(_) => put_huffman(sink, &tables[i]),
            Err(error) => Err(error),
        };
        proof {
            lemma_took(s0, before, *sink, taken, items[i - h], r, next);
            lemma_all_of_next(base, items, i - h);
        }
        r = next;
        i = i + 1;
    }
    match r {
        Ok(_) => Ok(end),
        Err(error) => Err(error),
    }
}

/// Writes a scan header and records the place of the scan.
pub(crate) fn put_scan(
    sink: &mut Sink,
    header: &JpegReconstructionMetadata,
    marker: u8,
    scan: &JpegScan,
) -> (r: Result<(), JpegReconstructionError>)
    requires
        old(sink).wf(),
        scan.components@.len() <= 4,
        forall|i: int|
            0 <= i < scan.components@.len() ==> (#[trigger] scan.components@[i]).component
                < header.components@.len(),
    ensures
        old(sink).took(*final(sink), scan_outline(header, marker, *scan), r),
{
    let n: usize = scan.components.len();
    let ghost s0 = *sink;
    let ghost o1 = segment_head(marker, 4 + 2 * n);
    let ghost base = o1.chain(steps(seq![Piece::Bytes(seq![n as u8])]));
    let ghost items = Seq::new(
        scan.components@.len(),
        |i: int| steps(seq![Piece::Bytes(scan_component_bytes(header, scan.components@[i]))]),
    );
    let r = sink.marker(marker, 4 + 2 * n);
    let mut r = sink.byte_next(r, n as u8, Ghost(s0), Ghost(o1));
    proof {
        lemma_chain_nothing(base);
    }
    let mut i: usize = 0;
    while i < n
        invariant
            n == scan.components@.len(),
            i <= n,
            s0.took(*sink, base.chain(all_of(items, i as int)), r),
            items == Seq::new(
                scan.components@.len(),
                |i: int|
                    steps(seq![Piece::Bytes(scan_component_bytes(header, scan.components@[i]))]),
            ),
            forall|i: int|
                0 <= i < scan.components@.len() ==> (#[trigger] scan.components@[i]).component
                    < header.components@.len(),
        decreases n - i,
    {
        let c = scan.components[i];
        let bytes: [u8; 2] = [header.components[c.component as usize].id, (c.dc << 4u8) | c.ac];
        assert(bytes@ =~= scan_component_bytes(header, c));
        r = sink.put_next(r, &bytes, Ghost(s0), Ghost(base.chain(all_of(items, i as int))));
        proof {
            lemma_all_of_next(base, items, i as int);
        }
        i = i + 1;
    }
    let ghost o3 = base.chain(all_of(items, n as int));
    let bytes: [u8; 3] = [scan.start, scan.end, (scan.high << 4u8) | scan.low];
    assert(bytes@ =~= seq![scan.start, scan.end, (scan.high << 4u8) | scan.low]);
    let ghost o4 = o3.chain(steps(seq![Piece::Bytes(bytes@)]));
    let r = sink.put_next(r, &bytes, Ghost(s0), Ghost(o3));
    let ghost before = *sink;
    let next = match r {
        Ok(_) => sink.scan(),
        Err(error) => Err(error),
    };
    proof {
        lemma_took(s0, before, *sink, o4, steps(seq![Piece::Scan]), r, next);
    }
    next
}

} // verus!
