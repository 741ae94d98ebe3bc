//! Metadata-only JPEG framing. Quantizers are placeholders patched from the GPU coefficient lease.

use crate::arith::least;
use crate::vardct_engine::jpeg::{JpegCoefficientLayout, LayoutView};
use crate::vardct_engine::jpeg_output::metadata::{
    app_declared, AppMarker, AppMarkerKind, JpegReconstructionMetadata,
};
use crate::vardct_engine::jpeg_output::quantizers::{quantizer_sources, sources_outcome};
use crate::vardct_engine::jpeg_output::segments::{
    frame_outline, huffman_group_end, huffmans_outline, put_frame, put_huffmans, put_quantizers,
    put_scan, quantizer_group_end, quantizers_outline, scan_outline, source_pairs,
};
use crate::vardct_engine::jpeg_output::tally::{ascending, law_template_places};
use crate::vardct_engine::jpeg_output::template::{
    big_endian, blank, keeps, lemma_chain_nothing, lemma_refused, lemma_took, placed, placed_all,
    placed_steps, refused, segment_head, steps, Outline, Piece, Plan, Sink, Template,
};
use crate::vardct_engine::jpeg_output::{allocate, check, JpegReconstructionError};
use vstd::prelude::*;

verus! {

/// Metadata that application markers draw on.
#[derive(Clone, Copy, Debug)]
pub struct Extras<'a> {
    pub icc: &'a [u8],
    /// Four bytes of offset, then the payload.
    pub exif: &'a [u8],
    pub xmp: &'a [u8],
}

/// How much of the metadata the markers so far have used.
pub ghost struct Used {
    pub app: int,
    pub quantizers: int,
    pub huffman: int,
    pub scans: int,
    pub icc_chunks: int,
    pub icc_bytes: int,
    pub exif: int,
    pub xmp: int,
    pub comments: int,
    pub intermarker: int,
}

/// Nothing used.
pub open spec fn unused() -> Used {
    Used {
        app: 0,
        quantizers: 0,
        huffman: 0,
        scans: 0,
        icc_chunks: 0,
        icc_bytes: 0,
        exif: 0,
        xmp: 0,
        comments: 0,
        intermarker: 0,
    }
}

/// ICC records among the first `n` application markers.
pub open spec fn icc_records(markers: Seq<AppMarker>, n: int) -> int
    decreases n,
{
    if n <= 0 {
        0
    } else {
        icc_records(markers, n - 1) + if markers[n - 1].kind == AppMarkerKind::Icc { 1int } else { 0 }
    }
}

/// `ICC_PROFILE` and a zero.
pub open spec fn icc_signature() -> Seq<u8> {
    seq![0x49u8, 0x43, 0x43, 0x5f, 0x50, 0x52, 0x4f, 0x46, 0x49, 0x4c, 0x45, 0]
}

/// `Exif` and two zeros.
pub open spec fn exif_signature() -> Seq<u8> {
    seq![0x45u8, 0x78, 0x69, 0x66, 0, 0]
}

/// `http://ns.adobe.com/xap/1.0/` and a zero.
pub open spec fn xmp_signature() -> Seq<u8> {
    seq![
        0x68u8, 0x74, 0x74, 0x70, 0x3a, 0x2f, 0x2f, 0x6e, 0x73, 0x2e, 0x61, 0x64, 0x6f, 0x62, 0x65,
        0x2e, 0x63, 0x6f, 0x6d, 0x2f, 0x78, 0x61, 0x70, 0x2f, 0x31, 0x2e, 0x30, 0x2f, 0,
    ]
}

/// Bytes that must start with their marker, behind the prefix of a marker.
pub open spec fn kept_outline(bytes: Seq<u8>, marker: u8, detail: &'static str) -> Outline {
    if bytes.len() == 0 || bytes[0] != marker {
        refused(JpegReconstructionError::Invalid(detail))
    } else {
        steps(seq![Piece::Bytes(seq![0xffu8])]).chain(steps(seq![Piece::Bytes(bytes)]))
    }
}

/// One chunk of the ICC profile, numbered from one.
pub open spec fn icc_outline(
    header: &JpegReconstructionMetadata,
    extras: Extras,
    used: Used,
    marker: u8,
    record: AppMarker,
) -> Outline {
    let next = used.icc_bytes + record.size - 17;
    if marker != 0xe2 {
        refused(JpegReconstructionError::Invalid("ICC marker"))
    } else {
        steps(seq![Piece::Bytes(icc_signature())]).chain(
            steps(
                seq![
                    Piece::Bytes(
                        seq![
                            (used.icc_chunks + 1) as u8,
                            icc_records(
                                header.app_markers@,
                                header.app_markers@.len() as int,
                            ) as u8,
                        ],
                    ),
                ],
            ),
        ).chain(
            if next > usize::MAX {
                refused(JpegReconstructionError::Invalid("ICC offset"))
            } else if next > extras.icc@.len() {
                refused(JpegReconstructionError::Invalid("ICC length"))
            } else {
                steps(seq![Piece::Bytes(extras.icc@.subrange(used.icc_bytes, next))])
            },
        )
    }
}

/// The one Exif payload.
pub open spec fn exif_outline(extras: Extras, used: Used, marker: u8, record: AppMarker) -> Outline {
    if marker != 0xe1 || used.exif != 0 || extras.exif@.len() < 4 || extras.exif@.len() - 4
        != record.size - 9 {
        refused(JpegReconstructionError::Invalid("Exif binding"))
    } else {
        steps(seq![Piece::Bytes(exif_signature())]).chain(
            steps(seq![Piece::Bytes(extras.exif@.subrange(4, extras.exif@.len() as int))]),
        )
    }
}

/// The one XMP payload.
pub open spec fn xmp_outline(extras: Extras, used: Used, marker: u8, record: AppMarker) -> Outline {
    if marker != 0xe1 || used.xmp != 0 || extras.xmp@.len() != record.size - 32 {
        refused(JpegReconstructionError::Invalid("XMP binding"))
    } else {
        steps(seq![Piece::Bytes(xmp_signature())]).chain(steps(seq![Piece::Bytes(extras.xmp@)]))
    }
}

/// One application marker: kept bytes, or a segment drawn from the extra metadata.
pub open spec fn app_outline(
    header: &JpegReconstructionMetadata,
    extras: Extras,
    used: Used,
    marker: u8,
) -> Outline {
    if used.app >= header.app_markers@.len() {
        refused(JpegReconstructionError::Invalid("APP count"))
    } else {
        let record = header.app_markers@[used.app];
        match record.body {
            Some((start, end)) => kept_outline(
                header.opaque_body@.subrange(start as int, end as int),
                marker,
                "APP identity",
            ),
            None => segment_head(marker, record.size - 3).chain(
                match record.kind {
                    AppMarkerKind::Icc => icc_outline(header, extras, used, marker, record),
                    AppMarkerKind::Exif => exif_outline(extras, used, marker, record),
                    AppMarkerKind::Xmp => xmp_outline(extras, used, marker, record),
                    AppMarkerKind::Unknown => refused(
                        JpegReconstructionError::Invalid("missing APP body"),
                    ),
                },
            ),
        }
    }
}

/// What is used after one more application marker.
pub open spec fn app_used(header: &JpegReconstructionMetadata, used: Used) -> Used {
    let record = header.app_markers@[used.app];
    let next = Used { app: used.app + 1, ..used };
    if record.body is Some {
        next
    } else {
        match record.kind {
            AppMarkerKind::Icc => Used {
                icc_chunks: used.icc_chunks + 1,
                icc_bytes: used.icc_bytes + record.size - 17,
                ..next
            },
            AppMarkerKind::Exif => Used { exif: used.exif + 1, ..next },
            AppMarkerKind::Xmp => Used { xmp: used.xmp + 1, ..next },
            AppMarkerKind::Unknown => next,
        }
    }
}

/// What one marker writes.
pub open spec fn marker_outline(
    header: &JpegReconstructionMetadata,
    layout: LayoutView,
    extras: Extras,
    sources: Seq<(u32, u32)>,
    used: Used,
    marker: u8,
) -> Outline {
    if 0xc0 <= marker <= 0xc2 {
        frame_outline(header, layout, marker)
    } else if marker == 0xdb {
        quantizers_outline(header.quantization_tables@, sources, marker, used.quantizers)
    } else if marker == 0xc4 {
        huffmans_outline(header.huffman_tables@, marker, used.huffman)
    } else if marker == 0xda {
        if used.scans >= header.scans@.len() {
            refused(JpegReconstructionError::Invalid("SOS count"))
        } else {
            scan_outline(header, marker, header.scans@[used.scans])
        }
    } else if marker == 0xdd {
        segment_head(marker, 2).chain(
            steps(seq![Piece::Bytes(big_endian(header.restart_interval))]),
        )
    } else if 0xe0 <= marker <= 0xef {
        app_outline(header, extras, used, marker)
    } else if marker == 0xfe {
        if used.comments >= header.comments@.len() {
            refused(JpegReconstructionError::Invalid("COM count"))
        } else {
            kept_outline(header.comments@[used.comments]@, marker, "COM identity")
        }
    } else if marker == 0xff {
        if used.intermarker >= header.intermarker_data@.len() {
            refused(JpegReconstructionError::Invalid("intermarker count"))
        } else {
            steps(seq![Piece::Bytes(header.intermarker_data@[used.intermarker]@)])
        }
    } else if marker == 0xd9 {
        steps(seq![Piece::Bytes(seq![0xffu8, marker])]).chain(
            steps(seq![Piece::Bytes(header.tail@)]),
        )
    } else {
        refused(JpegReconstructionError::Unsupported("JPEG marker"))
    }
}

/// What is used after one more marker.
pub open spec fn marker_used(header: &JpegReconstructionMetadata, used: Used, marker: u8) -> Used {
    if marker == 0xdb {
        Used {
            quantizers: quantizer_group_end(header.quantization_tables@, used.quantizers)->0,
            ..used
        }
    } else if marker == 0xc4 {
        Used { huffman: huffman_group_end(header.huffman_tables@, used.huffman)->0, ..used }
    } else if marker == 0xda {
        Used { scans: used.scans + 1, ..used }
    } else if 0xe0 <= marker <= 0xef {
        app_used(header, used)
    } else if marker == 0xfe {
        Used { comments: used.comments + 1, ..used }
    } else if marker == 0xff {
        Used { intermarker: used.intermarker + 1, ..used }
    } else {
        used
    }
}

/// What is used after the first `n` markers.
pub open spec fn used_after(header: &JpegReconstructionMetadata, n: int) -> Used
    decreases n,
{
    if n <= 0 {
        unused()
    } else {
        marker_used(header, used_after(header, n - 1), header.markers@[n - 1])
    }
}

/// The start of the file and its first `n` markers.
pub open spec fn file_outline(
    header: &JpegReconstructionMetadata,
    layout: LayoutView,
    extras: Extras,
    sources: Seq<(u32, u32)>,
    n: int,
) -> Outline
    decreases n,
{
    if n <= 0 {
        steps(seq![Piece::Bytes(seq![0xffu8, 0xd8u8])])
    } else {
        file_outline(header, layout, extras, sources, n - 1).chain(
            marker_outline(
                header,
                layout,
                extras,
                sources,
                used_after(header, n - 1),
                header.markers@[n - 1],
            ),
        )
    }
}

/// All metadata is used.
pub open spec fn all_used(header: &JpegReconstructionMetadata, extras: Extras, used: Used) -> bool {
    &&& used.app == header.app_markers@.len()
    &&& used.quantizers == header.quantization_tables@.len()
    &&& used.huffman == header.huffman_tables@.len()
    &&& used.scans == header.scans@.len()
    &&& used.comments == header.comments@.len()
    &&& used.intermarker == header.intermarker_data@.len()
    &&& icc_records(header.app_markers@, header.app_markers@.len() as int) == 0 || used.icc_bytes
        == extras.icc@.len()
}

/// The whole file without scans and quantizers.
pub open spec fn framing_outline(
    header: &JpegReconstructionMetadata,
    layout: LayoutView,
    extras: Extras,
    sources: Seq<(u32, u32)>,
) -> Outline {
    let n = header.markers@.len() as int;
    if icc_records(header.app_markers@, header.app_markers@.len() as int) > 255 {
        refused(JpegReconstructionError::Invalid("ICC chunk count"))
    } else {
        file_outline(header, layout, extras, sources, n).chain(
            if all_used(header, extras, used_after(header, n)) {
                steps(Seq::empty())
            } else {
                refused(JpegReconstructionError::Invalid("unconsumed framing metadata"))
            },
        )
    }
}

/// Executable form of [`Used`].
struct Cursor {
    app: usize,
    quantizers: usize,
    huffman: usize,
    scans: usize,
    icc_chunks: u8,
    icc_bytes: usize,
    exif: bool,
    xmp: bool,
    comments: usize,
    intermarker: usize,
}

impl Cursor {
    /// The cursor stands for `used` and has not run past the metadata.
    spec fn stands_for(&self, header: &JpegReconstructionMetadata, extras: Extras, used: Used) -> bool {
        &&& self.app == used.app <= header.app_markers@.len()
        &&& self.quantizers == used.quantizers <= header.quantization_tables@.len()
        &&& self.huffman == used.huffman <= header.huffman_tables@.len()
        &&& self.scans == used.scans <= header.scans@.len()
        &&& self.icc_chunks == used.icc_chunks <= icc_records(header.app_markers@, used.app)
        &&& self.icc_bytes == used.icc_bytes <= extras.icc@.len()
        &&& self.exif == (used.exif != 0)
        &&& self.xmp == (used.xmp != 0)
        &&& 0 <= used.exif
        &&& 0 <= used.xmp
        &&& self.comments == used.comments <= header.comments@.len()
        &&& self.intermarker == used.intermarker <= header.intermarker_data@.len()
    }
}

proof fn lemma_icc_records(markers: Seq<AppMarker>, i: int, n: int)
    requires
        0 <= i <= n <= markers.len(),
    ensures
        0 <= icc_records(markers, i) <= icc_records(markers, n),
        icc_records(markers, n) <= n,
    decreases n,
{
    if n > 0 {
        if i < n {
            lemma_icc_records(markers, i, n - 1);
        } else {
            lemma_icc_records(markers, n - 1, n - 1);
        }
    }
}

/// Writes kept bytes behind the prefix of a marker.
fn put_kept(sink: &mut Sink, bytes: &[u8], marker: u8, detail: &'static str) -> (r: Result<
    (),
    JpegReconstructionError,
>)
    requires
        old(sink).wf(),
    ensures
        old(sink).took(*final(sink), kept_outline(bytes@, marker, detail), r),
{
    let ghost s0 = *sink;
    if bytes.len() == 0 || bytes[0] != marker {
        proof {
            lemma_refused(s0@, JpegReconstructionError::Invalid(detail), s0.spec_cap());
        }
        return Err(JpegReconstructionError::Invalid(detail));
    }
    let ghost o1 = steps(seq![Piece::Bytes(seq![0xffu8])]);
    let r = sink.put_byte(0xff);
    sink.put_next(r, bytes, Ghost(s0), Ghost(o1))
}

/// Writes one chunk of the ICC profile.
fn put_icc(
    sink: &mut Sink,
    header: &JpegReconstructionMetadata,
    extras: &Extras,
    cursor: &mut Cursor,
    icc_count: u8,
    marker: u8,
    record: AppMarker,
    Ghost(used): Ghost<Used>,
) -> (r: Result<(), JpegReconstructionError>)
    requires
        old(sink).wf(),
        old(cursor).icc_chunks == used.icc_chunks,
        old(cursor).icc_bytes == used.icc_bytes <= extras.icc@.len(),
        old(cursor).icc_chunks < 255,
        record.size >= 17,
        icc_count == icc_records(header.app_markers@, header.app_markers@.len() as int),
    ensures
        old(sink).took(*final(sink), icc_outline(header, *extras, used, marker, record), r),
        r is Ok ==> *final(cursor) == (Cursor {
            icc_chunks: (used.icc_chunks + 1) as u8,
            icc_bytes: (used.icc_bytes + record.size - 17) as usize,
            ..*old(cursor)
        }) && used.icc_bytes + record.size - 17 <= extras.icc@.len(),
{
    let ghost s0 = *sink;
    if marker != 0xe2 {
        proof {
            lemma_refused(s0@, JpegReconstructionError::Invalid("ICC marker"), s0.spec_cap());
        }
        return Err(JpegReconstructionError::Invalid("ICC marker"));
    }
    cursor.icc_chunks = cursor.icc_chunks + 1;
    let signature: [u8; 12] = [
        0x49, 0x43, 0x43, 0x5f, 0x50, 0x52, 0x4f, 0x46, 0x49, 0x4c, 0x45, 0,
    ];
    assert(signature@ =~= icc_signature());
    let ghost o1 = steps(seq![Piece::Bytes(icc_signature())]);
    let r = sink.put(&signature);
    let number: [u8; 2] = [cursor.icc_chunks, icc_count];
    assert(number@ =~= seq![(used.icc_chunks + 1) as u8, icc_count]);
    let ghost o2 = o1.chain(steps(seq![Piece::Bytes(number@)]));
    let r = sink.put_next(r, &number, Ghost(s0), Ghost(o1));
    let ghost s2 = *sink;
    let next: usize = match cursor.icc_bytes.checked_add(record.size as usize - 17) {
        Some(next) => next,
        None => {
            let ghost error = JpegReconstructionError::Invalid("ICC offset");
            let end: Result<(), JpegReconstructionError> = match r {
                Ok(_) => Err(JpegReconstructionError::Invalid("ICC offset")),
                Err(error) => Err(error),
            };
            proof {
                lemma_refused(s2@, error, s2.spec_cap());
                lemma_took(s0, s2, s2, o2, refused(error), r, end);
            }
            return end;
        },
    };
    if next > extras.icc.len() {
        let ghost error = JpegReconstructionError::Invalid("ICC length");
        let end: Result<(), JpegReconstructionError> = match r {
            Ok(_) => Err(JpegReconstructionError::Invalid("ICC length")),
            Err(error) => Err(error),
        };
        proof {
            lemma_refused(s2@, error, s2.spec_cap());
            lemma_took(s0, s2, s2, o2, refused(error), r, end);
        }
        return end;
    }
    let chunk = vstd::slice::slice_subrange(extras.icc, cursor.icc_bytes, next);
    cursor.icc_bytes = next;
    sink.put_next(r, chunk, Ghost(s0), Ghost(o2))
}

/// Writes one application marker.
fn put_app(
    sink: &mut Sink,
    header: &JpegReconstructionMetadata,
    extras: &Extras,
    cursor: &mut Cursor,
    icc_count: u8,
    marker: u8,
    Ghost(used): Ghost<Used>,
) -> (r: Result<(), JpegReconstructionError>)
    requires
        old(sink).wf(),
        header.declared(),
        old(cursor).stands_for(header, *extras, used),
        icc_count == icc_records(header.app_markers@, header.app_markers@.len() as int),
    ensures
        old(sink).took(*final(sink), app_outline(header, *extras, used, marker), r),
        r is Ok ==> final(cursor).stands_for(header, *extras, app_used(header, used)),
{
    let ghost s0 = *sink;
    if cursor.app >= header.app_markers.len() {
        proof {
            lemma_refused(s0@, JpegReconstructionError::Invalid("APP count"), s0.spec_cap());
        }
        return Err(JpegReconstructionError::Invalid("APP count"));
    }
    let record: AppMarker = header.app_markers[cursor.app];
    proof {
        assert(app_declared(
            header.app_markers@[used.app],
            header.opaque_body@.len() as int,
        ));
        lemma_icc_records(
            header.app_markers@,
            used.app + 1,
            header.app_markers@.len() as int,
        );
    }
    cursor.app = cursor.app + 1;
    match record.body {
        Some((start, end)) => {
            let bytes = vstd::slice::slice_subrange(header.opaque_body.as_slice(), start, end);
            return put_kept(sink, bytes, marker, "APP identity");
        },
        None => {},
    }
    let ghost o1 = segment_head(marker, record.size - 3);
    let r = sink.marker(marker, record.size as usize - 3);
    let ghost s1 = *sink;
    match r {
        Ok(_) => {},
        Err(error) => {
            proof {
                let rest = match record.kind {
                    AppMarkerKind::Icc => icc_outline(header, *extras, used, marker, record),
                    AppMarkerKind::Exif => exif_outline(*extras, used, marker, record),
                    AppMarkerKind::Xmp => xmp_outline(*extras, used, marker, record),
                    AppMarkerKind::Unknown => refused(
                        JpegReconstructionError::Invalid("missing APP body"),
                    ),
                };
                lemma_took(s0, s1, s1, o1, rest, r, r);
            }
            return Err(error);
        },
    }
    match record.kind {
        AppMarkerKind::Icc => {
            let next = put_icc(sink, header, extras, cursor, icc_count, marker, record, Ghost(used));
            proof {
                lemma_took(
                    s0,
                    s1,
                    *sink,
                    o1,
                    icc_outline(header, *extras, used, marker, record),
                    r,
                    next,
                );
            }
            next
        },
        AppMarkerKind::Exif => {
            if marker != 0xe1 || cursor.exif || extras.exif.len() < 4 || extras.exif.len() - 4
                != record.size as usize - 9 {
                let ghost error = JpegReconstructionError::Invalid("Exif binding");
                let next: Result<(), JpegReconstructionError> = Err(
                    JpegReconstructionError::Invalid("Exif binding"),
                );
                proof {
                    lemma_refused(s1@, error, s1.spec_cap());
                    lemma_took(s0, s1, s1, o1, refused(error), r, next);
                }
                return next;
            }
            cursor.exif = true;
            let signature: [u8; 6] = [0x45, 0x78, 0x69, 0x66, 0, 0];
            assert(signature@ =~= exif_signature());
            let ghost p1 = steps(seq![Piece::Bytes(exif_signature())]);
            let body = vstd::slice::slice_subrange(extras.exif, 4, extras.exif.len());
            let next = sink.put(&signature);
            let next = sink.put_next(next, body, Ghost(s1), Ghost(p1));
            proof {
                lemma_took(
                    s0,
                    s1,
                    *sink,
                    o1,
                    exif_outline(*extras, used, marker, record),
                    r,
                    next,
                );
            }
            next
        },
        AppMarkerKind::Xmp => {
            if marker != 0xe1 || cursor.xmp || extras.xmp.len() != record.size as usize - 32 {
                let ghost error = JpegReconstructionError::Invalid("XMP binding");
                let next: Result<(), JpegReconstructionError> = Err(
                    JpegReconstructionError::Invalid("XMP binding"),
                );
                proof {
                    lemma_refused(s1@, error, s1.spec_cap());
                    lemma_took(s0, s1, s1, o1, refused(error), r, next);
                }
                return next;
            }
            cursor.xmp = true;
            let signature: [u8; 29] = [
                0x68, 0x74, 0x74, 0x70, 0x3a, 0x2f, 0x2f, 0x6e, 0x73, 0x2e, 0x61, 0x64, 0x6f, 0x62,
                0x65, 0x2e, 0x63, 0x6f, 0x6d, 0x2f, 0x78, 0x61, 0x70, 0x2f, 0x31, 0x2e, 0x30, 0x2f,
                0,
            ];
            assert(signature@ =~= xmp_signature());
            let ghost p1 = steps(seq![Piece::Bytes(xmp_signature())]);
            let next = sink.put(&signature);
            let next = sink.put_next(next, extras.xmp, Ghost(s1), Ghost(p1));
            proof {
                lemma_took(s0, s1, *sink, o1, xmp_outline(*extras, used, marker, record), r, next);
            }
            next
        },
        AppMarkerKind::Unknown => {
            let ghost error = JpegReconstructionError::Invalid("missing APP body");
            let next: Result<(), JpegReconstructionError> = Err(
                JpegReconstructionError::Invalid("missing APP body"),
            );
            proof {
                lemma_refused(s1@, error, s1.spec_cap());
                lemma_took(s0, s1, s1, o1, refused(error), r, next);
            }
            next
        },
    }
}

/// The components that scan headers name are declared, as are the tables of all components.
pub open spec fn names_bound(header: &JpegReconstructionMetadata, layout: LayoutView) -> bool {
    &&& header.components@.len() == layout.planes.len()
    &&& forall|i: int|
        0 <= i < header.components@.len() ==> (#[trigger] header.components@[i]).quant
            < header.quantization_tables@.len()
    &&& forall|s: int, i: int|
        0 <= s < header.scans@.len() && s < used_after(header, header.markers@.len() as int).scans
            && 0 <= i < header.scans@[s].components@.len() ==> (
        #[trigger] header.scans@[s].components@[i]).component < header.components@.len()
}

/// Markers do not give scans back.
proof fn lemma_scans_used(header: &JpegReconstructionMetadata, i: int, n: int)
    requires
        0 <= i <= n,
    ensures
        used_after(header, i).scans <= used_after(header, n).scans,
    decreases n - i,
{
    if i < n {
        lemma_scans_used(header, i, n - 1);
    }
}

/// Writes one marker.
fn put_marker(
    sink: &mut Sink,
    header: &JpegReconstructionMetadata,
    layout: &JpegCoefficientLayout,
    extras: &Extras,
    sources: &Vec<[u32; 2]>,
    cursor: &mut Cursor,
    icc_count: u8,
    index: usize,
) -> (r: Result<(), JpegReconstructionError>)
    requires
        old(sink).wf(),
        header.declared(),
        names_bound(header, layout@),
        sources@.len() == header.quantization_tables@.len(),
        index < header.markers@.len(),
        old(cursor).stands_for(header, *extras, used_after(header, index as int)),
        icc_count == icc_records(header.app_markers@, header.app_markers@.len() as int),
    ensures
        old(sink).took(
            *final(sink),
            marker_outline(
                header,
                layout@,
                *extras,
                source_pairs(sources@),
                used_after(header, index as int),
                header.markers@[index as int],
            ),
            r,
        ),
        r is Ok ==> final(cursor).stands_for(header, *extras, used_after(header, index + 1)),
{
    let marker: u8 = header.markers[index];
    let ghost used = used_after(header, index as int);
    let ghost s0 = *sink;
    if 0xc0 <= marker && marker <= 0xc2 {
        put_frame(sink, header, layout, marker)
    } else if marker == 0xdb {
        match put_quantizers(
            sink,
            &header.quantization_tables,
            sources,
            marker,
            cursor.quantizers,
        ) {
            Ok(end) => {
                cursor.quantizers = end;
                Ok(())
            },
            Err(error) => Err(error),
        }
    } else if marker == 0xc4 {
        match put_huffmans(sink, &header.huffman_tables, marker, cursor.huffman) {
            Ok(end) => {
                cursor.huffman = end;
                Ok(())
            },
            Err(error) => Err(error),
        }
    } else if marker == 0xda {
        if cursor.scans >= header.scans.len() {
            proof {
                lemma_refused(s0@, JpegReconstructionError::Invalid("SOS count"), s0.spec_cap());
            }
            return Err(JpegReconstructionError::Invalid("SOS count"));
        }
        let scan = &header.scans[cursor.scans];
        proof {
            lemma_scans_used(header, index + 1, header.markers@.len() as int);
            let all = used_after(header, header.markers@.len() as int).scans;
            assert(used.scans < all);
            assert(header.scans@[used.scans].components@.len() <= 4);
            assert forall|i: int| 0 <= i < scan.components@.len() implies (
            #[trigger] scan.components@[i]).component < header.components@.len() by {
                assert(header.scans@[used.scans].components@[i].component
                    < header.components@.len());
            }
        }
        cursor.scans = cursor.scans + 1;
        put_scan(sink, header, marker, scan)
    } else if marker == 0xdd {
        let r = sink.marker(marker, 2);
        sink.u16_next(r, header.restart_interval, Ghost(s0), Ghost(segment_head(marker, 2)))
    } else if 0xe0 <= marker && marker <= 0xef {
        put_app(sink, header, extras, cursor, icc_count, marker, Ghost(used))
    } else if marker == 0xfe {
        if cursor.comments >= header.comments.len() {
            proof {
                lemma_refused(s0@, JpegReconstructionError::Invalid("COM count"), s0.spec_cap());
            }
            return Err(JpegReconstructionError::Invalid("COM count"));
        }
        let bytes = header.comments[cursor.comments].as_slice();
        cursor.comments = cursor.comments + 1;
        put_kept(sink, bytes, marker, "COM identity")
    } else if marker == 0xff {
        if cursor.intermarker >= header.intermarker_data.len() {
            proof {
                lemma_refused(
                    s0@,
                    JpegReconstructionError::Invalid("intermarker count"),
                    s0.spec_cap(),
                );
            }
            return Err(JpegReconstructionError::Invalid("intermarker count"));
        }
        let bytes = header.intermarker_data[cursor.intermarker].as_slice();
        cursor.intermarker = cursor.intermarker + 1;
        sink.put(bytes)
    } else if marker == 0xd9 {
        let lead: [u8; 2] = [0xff, marker];
        assert(lead@ =~= seq![0xffu8, marker]);
        let r = sink.put(&lead);
        sink.put_next(
            r,
            header.tail.as_slice(),
            Ghost(s0),
            Ghost(steps(seq![Piece::Bytes(seq![0xffu8, marker])])),
        )
    } else {
        proof {
            lemma_refused(s0@, JpegReconstructionError::Unsupported("JPEG marker"), s0.spec_cap());
        }
        Err(JpegReconstructionError::Unsupported("JPEG marker"))
    }
}

/// Counts the ICC records of a header.
fn count_icc(markers: &Vec<AppMarker>) -> (count: usize)
    ensures
        count == icc_records(markers@, markers@.len() as int),
{
    let mut count: usize = 0;
    let mut i: usize = 0;
    while i < markers.len()
        invariant
            i <= markers@.len(),
            count == icc_records(markers@, i as int),
            count <= i,
        decreases markers@.len() - i,
    {
        let icc = match markers[i].kind {
            AppMarkerKind::Icc => true,
            _ => false,
        };
        if icc {
            count = count + 1;
        }
        i = i + 1;
    }
    count
}

/// Writes the whole file without scans and quantizers.
pub fn write(
    sink: &mut Sink,
    header: &JpegReconstructionMetadata,
    layout: &JpegCoefficientLayout,
    extras: &Extras,
    sources: &Vec<[u32; 2]>,
) -> (r: Result<(), JpegReconstructionError>)
    requires
        old(sink).wf(),
        header.declared(),
        names_bound(header, layout@),
        sources@.len() == header.quantization_tables@.len(),
    ensures
        old(sink).took(
            *final(sink),
            framing_outline(header, layout@, *extras, source_pairs(sources@)),
            r,
        ),
{
    let ghost s0 = *sink;
    let ghost n = header.markers@.len() as int;
    let ghost pairs = source_pairs(sources@);
    let icc: usize = count_icc(&header.app_markers);
    if icc > 255 {
        proof {
            lemma_refused(s0@, JpegReconstructionError::Invalid("ICC chunk count"), s0.spec_cap());
        }
        return Err(JpegReconstructionError::Invalid("ICC chunk count"));
    }
    let icc_count: u8 = icc as u8;
    let mut cursor = Cursor {
        app: 0,
        quantizers: 0,
        huffman: 0,
        scans: 0,
        icc_chunks: 0,
        icc_bytes: 0,
        exif: false,
        xmp: false,
        comments: 0,
        intermarker: 0,
    };
    let lead: [u8; 2] = [0xff, 0xd8];
    assert(lead@ =~= seq![0xffu8, 0xd8u8]);
    let mut r = sink.put(&lead);
    let mut index: usize = 0;
    while index < header.markers.len()
        invariant
            n == header.markers@.len(),
            index <= n,
            header.declared(),
            names_bound(header, layout@),
            sources@.len() == header.quantization_tables@.len(),
            pairs == source_pairs(sources@),
            icc_count == icc_records(header.app_markers@, header.app_markers@.len() as int),
            s0.took(*sink, file_outline(header, layout@, *extras, pairs, index as int), r),
            r is Ok ==> cursor.stands_for(header, *extras, used_after(header, index as int)),
        decreases n - index,
    {
        let ghost before = *sink;
        let next = match r {
            Ok(_) => put_marker(
                sink,
                header,
                layout,
                extras,
                sources,
                &mut cursor,
                icc_count,
                index,
            ),
            Err(error) => Err(error),
        };
        proof {
            lemma_took(
                s0,
                before,
                *sink,
                file_outline(header, layout@, *extras, pairs, index as int),
                marker_outline(
                    header,
                    layout@,
                    *extras,
                    pairs,
                    used_after(header, index as int),
                    header.markers@[index as int],
                ),
                r,
                next,
            );
        }
        r = next;
        index = index + 1;
    }
    let ghost s1 = *sink;
    let ghost whole = file_outline(header, layout@, *extras, pairs, n);
    let ghost unconsumed = JpegReconstructionError::Invalid("unconsumed framing metadata");
    match r {
        Err(error) => {
            proof {
                let rest = if all_used(header, *extras, used_after(header, n)) {
                    steps(Seq::empty())
                } else {
                    refused(unconsumed)
                };
                lemma_took(s0, s1, s1, whole, rest, r, r);
            }
            return Err(error);
        },
        Ok(_) => {},
    }
    if cursor.app != header.app_markers.len() || cursor.quantizers
        != header.quantization_tables.len() || cursor.huffman != header.huffman_tables.len()
        || cursor.scans != header.scans.len() || cursor.comments != header.comments.len()
        || cursor.intermarker != header.intermarker_data.len() || (icc_count != 0
        && cursor.icc_bytes != extras.icc.len()) {
        let end: Result<(), JpegReconstructionError> = Err(
            JpegReconstructionError::Invalid("unconsumed framing metadata"),
        );
        proof {
            lemma_refused(s1@, unconsumed, s1.spec_cap());
            lemma_took(s0, s1, s1, whole, refused(unconsumed), r, end);
        }
        return end;
    }
    proof {
        lemma_chain_nothing(whole);
    }
    Ok(())
}

/// Host bytes that a template owns.
pub open spec fn template_bytes(header: &JpegReconstructionMetadata, template: Template) -> int {
    template.bytes.len() as int + header.scans@.len() * 4 + header.quantization_tables@.len() * 16
}

/// The template of a JPEG file, or why there is none.
pub open spec fn framing_outcome(
    header: &JpegReconstructionMetadata,
    layout: LayoutView,
    extras: Extras,
    byte_limit: u64,
    host_limit: u64,
) -> Result<Template, JpegReconstructionError> {
    let scratch = header.quantization_tables@.len() * 8;
    let cap = least(byte_limit as int, u32::MAX as int) as u64;
    if scratch > host_limit {
        Err(
            JpegReconstructionError::Limit {
                resource: "framing plan bytes",
                required: scratch as u64,
                limit: host_limit,
            },
        )
    } else {
        match sources_outcome(header, layout) {
            Err(error) => Err(error),
            Ok(sources) => match placed_all(
                blank(),
                framing_outline(header, layout, extras, sources),
                cap,
            ) {
                Err(error) => Err(error),
                Ok(template) => if template_bytes(header, template) + scratch > u64::MAX {
                    Err(JpegReconstructionError::Invalid("size overflow"))
                } else if template_bytes(header, template) + scratch > host_limit {
                    Err(
                        JpegReconstructionError::Limit {
                            resource: "framing plan bytes",
                            required: (template_bytes(header, template) + scratch) as u64,
                            limit: host_limit,
                        },
                    )
                } else {
                    Ok(template)
                },
            },
        }
    }
}

/// A template is refused before memory is asked for: at the records of its quantization tables,
/// or anywhere where it has none.
pub open spec fn refused_first(
    header: &JpegReconstructionMetadata,
    layout: LayoutView,
    extras: Extras,
    byte_limit: u64,
    host_limit: u64,
) -> bool {
    ||| header.quantization_tables@.len() * 8 > host_limit
    ||| header.quantization_tables@.len() == 0 && framing_outcome(
        header,
        layout,
        extras,
        byte_limit,
        host_limit,
    ) is Err
}

/// Counts the template of a JPEG file whose quantizers are bound: its bytes, and the host bytes
/// that it will own. It asks for no memory.
pub fn measure(
    header: &JpegReconstructionMetadata,
    layout: &JpegCoefficientLayout,
    extras: &Extras,
    sources: &Vec<[u32; 2]>,
    byte_limit: u64,
    host_limit: u64,
) -> (r: Result<(u64, u64), JpegReconstructionError>)
    requires
        header.declared(),
        names_bound(header, layout@),
        sources@.len() == header.quantization_tables@.len(),
        sources_outcome(header, layout@) == Ok::<Seq<(u32, u32)>, JpegReconstructionError>(
            source_pairs(sources@),
        ),
        header.quantization_tables@.len() * 8 <= host_limit,
    ensures
        match framing_outcome(header, layout@, *extras, byte_limit, host_limit) {
            Err(error) => r == Err::<(u64, u64), JpegReconstructionError>(error),
            Ok(template) => r matches Ok((length, owned)) && length == template.bytes.len()
                && owned == template_bytes(header, template),
        },
{
    let scratch: u64 = header.quantization_tables.len() as u64 * 8;
    let mut counter = Sink::counting(byte_limit);
    match write(&mut counter, header, layout, extras, sources) {
        Ok(_) => {},
        Err(error) => {
            return Err(error);
        },
    }
    let length: u64 = counter.length();
    let records: u64 = match crate::vardct_engine::jpeg_output::add(
        header.scans.len() as u64 * 4,
        sources.len() as u64 * 16,
    ) {
        Ok(records) => records,
        Err(error) => {
            return Err(error);
        },
    };
    let owned_bytes: u64 = match crate::vardct_engine::jpeg_output::add(length, records) {
        Ok(owned) => owned,
        Err(error) => {
            return Err(error);
        },
    };
    let required: u64 = match crate::vardct_engine::jpeg_output::add(owned_bytes, scratch) {
        Ok(required) => required,
        Err(error) => {
            return Err(error);
        },
    };
    match check("framing plan bytes", required, host_limit) {
        Ok(_) => Ok((length, owned_bytes)),
        Err(error) => Err(error),
    }
}

/// Writes the template of a JPEG file into its empty room.
pub fn fill(
    room: Plan,
    header: &JpegReconstructionMetadata,
    layout: &JpegCoefficientLayout,
    extras: &Extras,
    sources: &Vec<[u32; 2]>,
    byte_limit: u64,
) -> (r: Result<Plan, JpegReconstructionError>)
    requires
        room.bytes@.len() == 0,
        room.scan_offsets@.len() == 0,
        room.quantizers@.len() == 0,
        header.declared(),
        names_bound(header, layout@),
        sources@.len() == header.quantization_tables@.len(),
    ensures
        match placed_all(
            blank(),
            framing_outline(header, layout@, *extras, source_pairs(sources@)),
            least(byte_limit as int, u32::MAX as int) as u64,
        ) {
            Err(error) => r == Err::<Plan, JpegReconstructionError>(error),
            Ok(template) => r matches Ok(plan) && keeps(plan, template) && plan.owned_bytes
                == room.owned_bytes,
        },
{
    let mut sink = Sink::keeping(room, byte_limit);
    match write(&mut sink, header, layout, extras, sources) {
        Ok(_) => {},
        Err(error) => {
            return Err(error);
        },
    }
    match sink.into_plan() {
        Some(plan) => Ok(plan),
        None => Err(JpegReconstructionError::Allocation),
    }
}

/// Counts the template of a JPEG file, then writes it into exactly the room that was counted.
pub fn build(
    header: &JpegReconstructionMetadata,
    layout: &JpegCoefficientLayout,
    extras: &Extras,
    byte_limit: u64,
    host_limit: u64,
) -> (r: Result<Plan, JpegReconstructionError>)
    requires
        header.declared(),
        header.components@.len() == layout@.planes.len(),
    ensures
        match r {
            Ok(plan) => framing_outcome(header, layout@, *extras, byte_limit, host_limit) matches Ok(
                template,
            ) && keeps(plan, template) && plan.owned_bytes == template_bytes(header, template),
            Err(error) => error == JpegReconstructionError::Allocation || framing_outcome(
                header,
                layout@,
                *extras,
                byte_limit,
                host_limit,
            ) == Err::<Template, JpegReconstructionError>(error),
        },
        refused_first(header, layout@, *extras, byte_limit, host_limit) ==> r == Err::<
            Plan,
            JpegReconstructionError,
        >(framing_outcome(header, layout@, *extras, byte_limit, host_limit)->Err_0),
{
    let scratch: u64 = header.quantization_tables.len() as u64 * 8;
    match check("framing plan bytes", scratch, host_limit) {
        Ok(_) => {},
        Err(error) => {
            return Err(error);
        },
    }
    let sources = match quantizer_sources(header, layout) {
        Ok(sources) => sources,
        Err(error) => {
            return Err(error);
        },
    };
    let (length, owned_bytes) = match measure(
        header,
        layout,
        extras,
        &sources,
        byte_limit,
        host_limit,
    ) {
        Ok(measured) => measured,
        Err(error) => {
            return Err(error);
        },
    };
    let bytes: Vec<u8> = match allocate(length as usize) {
        Ok(bytes) => bytes,
        Err(error) => {
            return Err(error);
        },
    };
    let scan_offsets: Vec<u32> = match allocate(header.scans.len()) {
        Ok(offsets) => offsets,
        Err(error) => {
            return Err(error);
        },
    };
    let quantizers: Vec<[u32; 4]> = match allocate(sources.len()) {
        Ok(quantizers) => quantizers,
        Err(error) => {
            return Err(error);
        },
    };
    fill(
        Plan { bytes, scan_offsets, quantizers, owned_bytes },
        header,
        layout,
        extras,
        &sources,
        byte_limit,
    )
}

/// The places of scans ascend and lie in the template, and every placeholder lies in it whole.
pub open spec fn template_wf(template: Template) -> bool {
    &&& 64 * template.quantizers.len() <= template.bytes.len()
    &&& forall|i: int|
        0 <= i < template.scans.len() ==> #[trigger] template.scans[i] <= template.bytes.len()
    &&& forall|i: int, j: int|
        0 <= i <= j < template.scans.len() ==> #[trigger] template.scans[i]
            <= #[trigger] template.scans[j]
    &&& forall|i: int|
        0 <= i < template.quantizers.len() ==> {
            let record = #[trigger] template.quantizers[i];
            &&& record.len() == 4
            &&& record[0] + 64 * (1 + record[3]) <= template.bytes.len()
        }
}

/// Every template places its scans in order and its placeholders whole.
pub proof fn law_template_wf(template: Template, pieces: Seq<Piece>, cap: u64, n: int)
    requires
        template_wf(template),
        template.bytes.len() <= cap <= u32::MAX,
        0 <= n <= pieces.len(),
        placed_steps(template, pieces, cap, n) is Ok,
    ensures
        template_wf(placed_steps(template, pieces, cap, n)->Ok_0),
        placed_steps(template, pieces, cap, n)->Ok_0.bytes.len() <= cap,
    decreases n,
{
    if n > 0 {
        law_template_wf(template, pieces, cap, n - 1);
        let before = placed_steps(template, pieces, cap, n - 1)->Ok_0;
        let after = placed(before, pieces[n - 1], cap)->Ok_0;
        assert(before.bytes.len() <= after.bytes.len());
        assert forall|i: int| 0 <= i < after.quantizers.len() implies ({
            let record = #[trigger] after.quantizers[i];
            &&& record.len() == 4
            &&& record[0] + 64 * (1 + record[3]) <= after.bytes.len()
        }) by {
            if i < before.quantizers.len() {
                assert(after.quantizers[i] == before.quantizers[i]);
            }
        }
    }
}

/// What every template of a file is: it starts with the two bytes of a JPEG, has one place for
/// every scan, each strictly behind the one before, and one whole placeholder for every
/// quantization table, and stays within `cap`.
pub open spec fn frames(template: Template, header: &JpegReconstructionMetadata, cap: int) -> bool {
    &&& template_wf(template)
    &&& 2 <= template.bytes.len() <= cap
    &&& template.bytes[0] == 0xff
    &&& template.bytes[1] == 0xd8
    &&& template.scans.len() == header.scans@.len()
    &&& ascending(template.scans)
    &&& template.quantizers.len() == header.quantization_tables@.len()
}

/// Every outline of a file that can be placed frames it.
proof fn lemma_frames(
    header: &JpegReconstructionMetadata,
    layout: LayoutView,
    extras: Extras,
    sources: Seq<(u32, u32)>,
    cap: u64,
)
    requires
        cap <= u32::MAX,
        placed_all(blank(), framing_outline(header, layout, extras, sources), cap) is Ok,
    ensures
        frames(
            placed_all(blank(), framing_outline(header, layout, extras, sources), cap)->Ok_0,
            header,
            cap as int,
        ),
{
    let outline = framing_outline(header, layout, extras, sources);
    let n = header.markers@.len() as int;
    law_template_places(header, layout, extras, sources, cap);
    law_template_wf(blank(), outline.pieces, cap, outline.pieces.len() as int);
    let start = Piece::Bytes(seq![0xffu8, 0xd8u8]);
    lemma_file_start(header, layout, extras, sources, n);
    assert(outline.pieces.len() > 0 && outline.pieces[0] == start) by {
        let file = file_outline(header, layout, extras, sources, n);
        assert(file.pieces[0] == start);
    }
    lemma_prefix_kept(blank(), outline.pieces, cap, 1, outline.pieces.len() as int);
    assert(placed_steps(blank(), outline.pieces, cap, 0) == Ok::<Template, JpegReconstructionError>(
        blank(),
    ));
    let first = placed_steps(blank(), outline.pieces, cap, 1)->Ok_0;
    assert(first.bytes =~= seq![0xffu8, 0xd8u8]);
    assert(first.bytes[0] == 0xff && first.bytes[1] == 0xd8);
}

/// The template of a file starts with the two bytes of a JPEG, has one place for every scan, each
/// strictly behind the one before, and one whole placeholder for every quantization table, and
/// stays within the byte limit.
pub proof fn law_framing(
    header: &JpegReconstructionMetadata,
    layout: LayoutView,
    extras: Extras,
    byte_limit: u64,
    host_limit: u64,
)
    requires
        framing_outcome(header, layout, extras, byte_limit, host_limit) is Ok,
    ensures
        frames(
            framing_outcome(header, layout, extras, byte_limit, host_limit)->Ok_0,
            header,
            least(byte_limit as int, u32::MAX as int),
        ),
{
    let cap = least(byte_limit as int, u32::MAX as int) as u64;
    lemma_frames(header, layout, extras, sources_outcome(header, layout)->Ok_0, cap);
}

/// A file that is written once to a sink that counts and once to a sink that keeps, both empty
/// and of one limit, ends alike in both: with the same error, or at the same length, which is that
/// of the kept bytes. What was kept frames the file.
pub proof fn law_write(
    counter: Sink,
    counted: Sink,
    keeper: Sink,
    kept: Sink,
    plan: Plan,
    header: &JpegReconstructionMetadata,
    layout: LayoutView,
    extras: Extras,
    sources: Seq<(u32, u32)>,
    r: Result<(), JpegReconstructionError>,
    s: Result<(), JpegReconstructionError>,
)
    requires
        counter@ == blank(),
        keeper@ == blank(),
        counter.spec_cap() == keeper.spec_cap() <= u32::MAX,
        counter.took(counted, framing_outline(header, layout, extras, sources), r),
        keeper.took(kept, framing_outline(header, layout, extras, sources), s),
        s is Ok ==> keeps(plan, kept@),
    ensures
        r is Ok <==> s is Ok,
        r is Err ==> r == s,
        r is Ok ==> {
            &&& counted@.bytes.len() == kept@.bytes.len() == plan.bytes@.len()
            &&& plan.scan_offsets@ == kept@.scans
            &&& plan.quantizers@.len() == kept@.quantizers.len()
            &&& frames(kept@, header, counter.spec_cap() as int)
        },
{
    if r is Ok {
        lemma_frames(header, layout, extras, sources, counter.spec_cap());
    }
}

proof fn lemma_file_start(
    header: &JpegReconstructionMetadata,
    layout: LayoutView,
    extras: Extras,
    sources: Seq<(u32, u32)>,
    n: int,
)
    requires
        0 <= n,
    ensures
        file_outline(header, layout, extras, sources, n).pieces.len() > 0,
        file_outline(header, layout, extras, sources, n).pieces[0] == Piece::Bytes(
            seq![0xffu8, 0xd8u8],
        ),
    decreases n,
{
    if n > 0 {
        lemma_file_start(header, layout, extras, sources, n - 1);
    }
}

/// Bytes once placed stay in place.
proof fn lemma_prefix_kept(template: Template, pieces: Seq<Piece>, cap: u64, i: int, n: int)
    requires
        0 <= i <= n <= pieces.len(),
        placed_steps(template, pieces, cap, n) is Ok,
    ensures
        placed_steps(template, pieces, cap, i) matches Ok(early) && early.bytes.len()
            <= placed_steps(template, pieces, cap, n)->Ok_0.bytes.len() && forall|k: int|
            0 <= k < early.bytes.len() ==> #[trigger] early.bytes[k] == placed_steps(
                template,
                pieces,
                cap,
                n,
            )->Ok_0.bytes[k],
    decreases n - i,
{
    if i < n {
        lemma_prefix_kept(template, pieces, cap, i, n - 1);
    }
}

} // verus!
