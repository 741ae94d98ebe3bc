//! The byte template of a JPEG file, with places for its scans and quantizers.

use crate::arith::{least, min_u64};
use crate::vardct_engine::jpeg_output::{check, JpegReconstructionError};
use vstd::prelude::*;

verus! {

/// The template of a JPEG file, without its scans and quantizers.
#[derive(Debug)]
pub struct Plan {
    pub bytes: Vec<u8>,
    /// Offset after each SOS header in the template, where its GPU scan must be inserted.
    pub scan_offsets: Vec<u32>,
    /// Template byte offset, source quantizer word offset, internal-channel mask, precision.
    pub quantizers: Vec<[u32; 4]>,
    pub owned_bytes: u64,
}

/// One step of the template.
pub ghost enum Piece {
    /// Bytes of the file.
    Bytes(Seq<u8>),
    /// Sixty-four quantizers of one or two bytes each, to be filled in.
    Quantizer { source: (u32, u32), precision: u8 },
    /// The place of a scan.
    Scan,
}

/// A template so far.
pub ghost struct Template {
    pub bytes: Seq<u8>,
    pub scans: Seq<u32>,
    pub quantizers: Seq<Seq<u32>>,
}

/// Steps of the template, and the refusal that ends them if there is one.
pub ghost struct Outline {
    pub pieces: Seq<Piece>,
    pub refusal: Option<JpegReconstructionError>,
}

/// The empty template.
pub open spec fn blank() -> Template {
    Template { bytes: Seq::empty(), scans: Seq::empty(), quantizers: Seq::empty() }
}

/// Steps without a refusal.
pub open spec fn steps(pieces: Seq<Piece>) -> Outline {
    Outline { pieces, refusal: None }
}

/// A refusal without steps.
pub open spec fn refused(error: JpegReconstructionError) -> Outline {
    Outline { pieces: Seq::empty(), refusal: Some(error) }
}

impl Outline {
    /// These steps and, unless they end in a refusal, the next ones.
    pub open spec fn chain(self, next: Outline) -> Outline {
        if self.refusal is Some {
            self
        } else {
            Outline { pieces: self.pieces + next.pieces, refusal: next.refusal }
        }
    }
}

/// `bytes` behind the template, which stays within `cap`.
pub open spec fn appended(template: Template, bytes: Seq<u8>, cap: u64) -> Result<
    Template,
    JpegReconstructionError,
> {
    let length = template.bytes.len() + bytes.len();
    if length > u64::MAX {
        Err(JpegReconstructionError::Invalid("size overflow"))
    } else if length > cap {
        Err(
            JpegReconstructionError::Limit {
                resource: "JPEG marker bytes",
                required: length as u64,
                limit: cap,
            },
        )
    } else {
        Ok(Template { bytes: template.bytes + bytes, ..template })
    }
}

/// Zero bytes that stand for quantizers of this precision.
pub open spec fn placeholder(precision: u8) -> Seq<u8> {
    Seq::new((64 * (1 + precision)) as nat, |i: int| 0u8)
}

/// One more step of the template.
pub open spec fn placed(template: Template, piece: Piece, cap: u64) -> Result<
    Template,
    JpegReconstructionError,
> {
    match piece {
        Piece::Bytes(bytes) => appended(template, bytes, cap),
        Piece::Quantizer { source, precision } => appended(
            Template {
                quantizers: template.quantizers.push(
                    seq![template.bytes.len() as u32, source.0, source.1, precision as u32],
                ),
                ..template
            },
            placeholder(precision),
            cap,
        ),
        Piece::Scan => Ok(
            Template { scans: template.scans.push(template.bytes.len() as u32), ..template },
        ),
    }
}

/// The first `n` steps.
pub open spec fn placed_steps(template: Template, pieces: Seq<Piece>, cap: u64, n: int) -> Result<
    Template,
    JpegReconstructionError,
>
    decreases n,
{
    if n <= 0 {
        Ok(template)
    } else {
        match placed_steps(template, pieces, cap, n - 1) {
            Err(error) => Err(error),
            Ok(before) => placed(before, pieces[n - 1], cap),
        }
    }
}

/// All steps of an outline, then its refusal if it has one.
pub open spec fn placed_all(template: Template, outline: Outline, cap: u64) -> Result<
    Template,
    JpegReconstructionError,
> {
    match placed_steps(template, outline.pieces, cap, outline.pieces.len() as int) {
        Err(error) => Err(error),
        Ok(after) => match outline.refusal {
            Some(error) => Err(error),
            None => Ok(after),
        },
    }
}

/// Two outlines in a row place what the chained outline places.
pub proof fn lemma_chain(template: Template, first: Outline, next: Outline, cap: u64)
    ensures
        placed_all(template, first.chain(next), cap) == match placed_all(template, first, cap) {
            Err(error) => Err(error),
            Ok(after) => placed_all(after, next, cap),
        },
{
    if first.refusal is None {
        let m = first.pieces.len() as int;
        lemma_steps_prefix(template, first.pieces, next.pieces, cap, m);
        lemma_steps_rest(template, first.pieces, next.pieces, cap, next.pieces.len() as int);
    }
}

/// The first steps do not depend on later ones.
proof fn lemma_steps_prefix(
    template: Template,
    a: Seq<Piece>,
    b: Seq<Piece>,
    cap: u64,
    n: int,
)
    requires
        0 <= n <= a.len(),
    ensures
        placed_steps(template, a + b, cap, n) == placed_steps(template, a, cap, n),
    decreases n,
{
    if n > 0 {
        lemma_steps_prefix(template, a, b, cap, n - 1);
        assert((a + b)[n - 1] == a[n - 1]);
    }
}

/// Later steps start from what the first ones left.
proof fn lemma_steps_rest(template: Template, a: Seq<Piece>, b: Seq<Piece>, cap: u64, n: int)
    requires
        0 <= n <= b.len(),
    ensures
        placed_steps(template, a + b, cap, a.len() + n) == match placed_steps(
            template,
            a,
            cap,
            a.len() as int,
        ) {
            Err(error) => Err(error),
            Ok(after) => placed_steps(after, b, cap, n),
        },
    decreases n,
{
    if n > 0 {
        lemma_steps_rest(template, a, b, cap, n - 1);
        assert((a + b)[a.len() + n - 1] == b[n - 1]);
    } else {
        lemma_steps_prefix(template, a, b, cap, a.len() as int);
    }
}

/// An outline of one step.
pub proof fn lemma_one_step(template: Template, piece: Piece, cap: u64)
    ensures
        placed_all(template, steps(seq![piece]), cap) == placed(template, piece, cap),
{
    let pieces = seq![piece];
    assert(placed_steps(template, pieces, cap, 0) == Ok::<Template, JpegReconstructionError>(template));
    assert(placed_steps(template, pieces, cap, 1) == placed(template, piece, cap));
}

/// Counts the template, and keeps it where `output` is set.
pub struct Sink {
    output: Option<Plan>,
    length: u64,
    cap: u64,
    content: Ghost<Template>,
}

impl View for Sink {
    type V = Template;

    closed spec fn view(&self) -> Template {
        self.content@
    }
}

/// The records of the kept quantizers.
pub open spec fn records(quantizers: Seq<[u32; 4]>) -> Seq<Seq<u32>> {
    Seq::new(quantizers.len(), |i: int| quantizers[i]@)
}

/// What is kept is the template.
pub open spec fn keeps(plan: Plan, template: Template) -> bool {
    &&& plan.bytes@ == template.bytes
    &&& plan.scan_offsets@ == template.scans
    &&& records(plan.quantizers@) == template.quantizers
}

impl Sink {
    pub closed spec fn wf(&self) -> bool {
        &&& self.length == self.content@.bytes.len()
        &&& self.length <= self.cap <= u32::MAX
        &&& self.output matches Some(plan) ==> keeps(plan, self.content@)
    }

    pub closed spec fn spec_cap(&self) -> u64 {
        self.cap
    }

    pub closed spec fn spec_owned(&self) -> Option<u64> {
        match self.output {
            Some(plan) => Some(plan.owned_bytes),
            None => None,
        }
    }

    /// The sink after `outline`, or the error that ends it.
    pub open spec fn took(
        self,
        after: Sink,
        outline: Outline,
        r: Result<(), JpegReconstructionError>,
    ) -> bool {
        match placed_all(self@, outline, self.spec_cap()) {
            Err(error) => r == Err::<(), JpegReconstructionError>(error),
            Ok(template) => {
                &&& r is Ok
                &&& after.wf()
                &&& after@ == template
                &&& after.spec_cap() == self.spec_cap()
                &&& after.spec_owned() == self.spec_owned()
            },
        }
    }

    /// A sink that only counts.
    pub fn counting(limit: u64) -> (sink: Self)
        ensures
            sink.wf(),
            sink@ == blank(),
            sink.spec_cap() == least(limit as int, u32::MAX as int),
            sink.spec_owned() is None,
    {
        Sink {
            output: None,
            length: 0,
            cap: min_u64(limit, u32::MAX as u64),
            content: Ghost(blank()),
        }
    }

    /// A sink that keeps the template in `plan`.
    pub fn keeping(plan: Plan, limit: u64) -> (sink: Self)
        requires
            plan.bytes@.len() == 0,
            plan.scan_offsets@.len() == 0,
            plan.quantizers@.len() == 0,
        ensures
            sink.wf(),
            sink@ == blank(),
            sink.spec_cap() == least(limit as int, u32::MAX as int),
            sink.spec_owned() == Some(plan.owned_bytes),
    {
        assert(plan.bytes@ =~= blank().bytes);
        assert(plan.scan_offsets@ =~= blank().scans);
        assert(records(plan.quantizers@) =~= blank().quantizers);
        Sink {
            output: Some(plan),
            length: 0,
            cap: min_u64(limit, u32::MAX as u64),
            content: Ghost(blank()),
        }
    }

    /// Bytes so far.
    pub fn length(&self) -> (length: u64)
        requires
            self.wf(),
        ensures
            length == self@.bytes.len(),
            length <= u32::MAX,
    {
        self.length
    }

    /// What was kept.
    pub fn into_plan(self) -> (plan: Option<Plan>)
        requires
            self.wf(),
        ensures
            match plan {
                Some(plan) => keeps(plan, self@) && self.spec_owned() == Some(plan.owned_bytes),
                None => self.spec_owned() is None,
            },
    {
        self.output
    }

    pub(crate) fn put(&mut self, bytes: &[u8]) -> (r: Result<(), JpegReconstructionError>)
        requires
            old(self).wf(),
        ensures
            old(self).took(*final(self), steps(seq![Piece::Bytes(bytes@)]), r),
    {
        proof {
            lemma_one_step(self@, Piece::Bytes(bytes@), self.cap);
        }
        self.length = match crate::vardct_engine::jpeg_output::add(self.length, bytes.len() as u64) {
            Ok(length) => length,
            Err(error) => {
                return Err(error);
            },
        };
        match check("JPEG marker bytes", self.length, self.cap) {
            Ok(_) => {},
            Err(error) => {
                return Err(error);
            },
        }
        let ghost after = appended(self.content@, bytes@, self.cap)->Ok_0;
        self.content = Ghost(after);
        match &mut self.output {
            Some(output) => {
                output.bytes.extend_from_slice(bytes);
                assert(output.bytes@ =~= after.bytes);
            },
            None => {},
        }
        Ok(())
    }

    /// The two bytes of a marker and the length of its segment.
    pub(crate) fn marker(&mut self, marker: u8, payload: usize) -> (r: Result<(), JpegReconstructionError>)
        requires
            old(self).wf(),
        ensures
            old(self).took(*final(self), segment_head(marker, payload as int), r),
    {
        if payload > 65533 {
            proof {
                lemma_refused(self@, JpegReconstructionError::Invalid("marker size"), self.cap);
            }
            return Err(JpegReconstructionError::Invalid("marker size"));
        }
        let size: u16 = payload as u16 + 2;
        let ghost a = Piece::Bytes(seq![0xffu8, marker]);
        let ghost b = Piece::Bytes(big_endian(size));
        proof {
            lemma_chain(self@, steps(seq![a]), steps(seq![b]), self.cap);
            assert(seq![a] + seq![b] =~= seq![a, b]);
        }
        let lead: [u8; 2] = [0xff, marker];
        assert(lead@ =~= seq![0xffu8, marker]);
        match self.put(&lead) {
            Ok(_) => self.put_u16(size),
            Err(error) => Err(error),
        }
    }

    pub(crate) fn put_u16(&mut self, value: u16) -> (r: Result<(), JpegReconstructionError>)
        requires
            old(self).wf(),
        ensures
            old(self).took(*final(self), steps(seq![Piece::Bytes(big_endian(value))]), r),
    {
        let bytes: [u8; 2] = [(value / 256) as u8, (value % 256) as u8];
        assert(bytes@ =~= big_endian(value));
        self.put(&bytes)
    }

    pub(crate) fn put_byte(&mut self, value: u8) -> (r: Result<(), JpegReconstructionError>)
        requires
            old(self).wf(),
        ensures
            old(self).took(*final(self), steps(seq![Piece::Bytes(seq![value])]), r),
    {
        let bytes: [u8; 1] = [value];
        assert(bytes@ =~= seq![value]);
        self.put(&bytes)
    }

    /// Records where quantizers belong and leaves their bytes zero.
    pub(crate) fn quantizer(&mut self, source: [u32; 2], precision: u8) -> (r: Result<
        (),
        JpegReconstructionError,
    >)
        requires
            old(self).wf(),
            precision <= 1,
        ensures
            old(self).took(
                *final(self),
                steps(
                    seq![Piece::Quantizer { source: (source[0], source[1]), precision }],
                ),
                r,
            ),
    {
        let ghost before = self@;
        let ghost piece = Piece::Quantizer { source: (source[0], source[1]), precision };
        let ghost recorded = Template {
            quantizers: before.quantizers.push(
                seq![before.bytes.len() as u32, source[0], source[1], precision as u32],
            ),
            ..before
        };
        self.content = Ghost(recorded);
        match &mut self.output {
            Some(output) => {
                let record: [u32; 4] = [
                    self.length as u32,
                    source[0],
                    source[1],
                    precision as u32,
                ];
                assert(record@ =~= seq![
                    before.bytes.len() as u32,
                    source[0],
                    source[1],
                    precision as u32,
                ]);
                let ghost old_records = records(output.quantizers@);
                output.quantizers.push(record);
                assert(records(output.quantizers@) =~= old_records.push(record@));
            },
            None => {},
        }
        proof {
            lemma_one_step(before, piece, self.cap);
            lemma_one_step(recorded, Piece::Bytes(placeholder(precision)), self.cap);
        }
        if precision == 0 {
            let zeros: [u8; 64] = [0u8; 64];
            assert(zeros@ =~= placeholder(precision));
            self.put(&zeros)
        } else {
            let zeros: [u8; 128] = [0u8; 128];
            assert(zeros@ =~= placeholder(precision));
            self.put(&zeros)
        }
    }

    /// Records the place of a scan.
    pub(crate) fn scan(&mut self) -> (r: Result<(), JpegReconstructionError>)
        requires
            old(self).wf(),
        ensures
            old(self).took(*final(self), steps(seq![Piece::Scan]), r),
    {
        let ghost before = self@;
        proof {
            lemma_one_step(before, Piece::Scan, self.cap);
        }
        self.content = Ghost(
            Template { scans: before.scans.push(before.bytes.len() as u32), ..before },
        );
        match &mut self.output {
            Some(output) => {
                output.scan_offsets.push(self.length as u32);
            },
            None => {},
        }
        Ok(())
    }

    /// Writes `bytes` behind what was taken since `first`, unless that was refused.
    pub(crate) fn put_next(
        &mut self,
        r: Result<(), JpegReconstructionError>,
        bytes: &[u8],
        Ghost(first): Ghost<Sink>,
        Ghost(taken): Ghost<Outline>,
    ) -> (next: Result<(), JpegReconstructionError>)
        requires
            first.took(*old(self), taken, r),
        ensures
            first.took(*final(self), taken.chain(steps(seq![Piece::Bytes(bytes@)])), next),
    {
        let ghost before = *self;
        let next = match r {
            Ok(_) => self.put(bytes),
            Err(error) => Err(error),
        };
        proof {
            lemma_took(
                first,
                before,
                *self,
                taken,
                steps(seq![Piece::Bytes(bytes@)]),
                r,
                next,
            );
        }
        next
    }

    /// Writes one byte behind what was taken since `first`, unless that was refused.
    pub(crate) fn byte_next(
        &mut self,
        r: Result<(), JpegReconstructionError>,
        value: u8,
        Ghost(first): Ghost<Sink>,
        Ghost(taken): Ghost<Outline>,
    ) -> (next: Result<(), JpegReconstructionError>)
        requires
            first.took(*old(self), taken, r),
        ensures
            first.took(*final(self), taken.chain(steps(seq![Piece::Bytes(seq![value])])), next),
    {
        let bytes: [u8; 1] = [value];
        assert(bytes@ =~= seq![value]);
        self.put_next(r, &bytes, Ghost(first), Ghost(taken))
    }

    /// Writes two bytes behind what was taken since `first`, unless that was refused.
    pub(crate) fn u16_next(
        &mut self,
        r: Result<(), JpegReconstructionError>,
        value: u16,
        Ghost(first): Ghost<Sink>,
        Ghost(taken): Ghost<Outline>,
    ) -> (next: Result<(), JpegReconstructionError>)
        requires
            first.took(*old(self), taken, r),
        ensures
            first.took(
                *final(self),
                taken.chain(steps(seq![Piece::Bytes(big_endian(value))])),
                next,
            ),
    {
        let bytes: [u8; 2] = [(value / 256) as u8, (value % 256) as u8];
        assert(bytes@ =~= big_endian(value));
        self.put_next(r, &bytes, Ghost(first), Ghost(taken))
    }
}

/// The two bytes of a number, most significant first.
pub open spec fn big_endian(value: u16) -> Seq<u8> {
    seq![(value / 256) as u8, (value % 256) as u8]
}

/// The start of a marker segment, whose length counts itself and the payload.
pub open spec fn segment_head(marker: u8, payload: int) -> Outline {
    if payload > 65533 {
        refused(JpegReconstructionError::Invalid("marker size"))
    } else {
        steps(
            seq![Piece::Bytes(seq![0xffu8, marker]), Piece::Bytes(big_endian((payload + 2) as u16))],
        )
    }
}

/// The outlines of a sequence one behind the other, up to the first refusal.
pub open spec fn all_of(outlines: Seq<Outline>, n: int) -> Outline
    decreases n,
{
    if n <= 0 {
        steps(Seq::empty())
    } else {
        all_of(outlines, n - 1).chain(outlines[n - 1])
    }
}

/// Nothing to place.
pub(crate) proof fn lemma_nothing(template: Template, cap: u64)
    ensures
        placed_all(template, steps(Seq::empty()), cap) == Ok::<Template, JpegReconstructionError>(
            template,
        ),
{
}

/// Chaining is associative.
pub(crate) proof fn lemma_chain_associative(a: Outline, b: Outline, c: Outline)
    ensures
        a.chain(b).chain(c) == a.chain(b.chain(c)),
{
    if a.refusal is None && b.refusal is None {
        assert(a.pieces + b.pieces + c.pieces =~= a.pieces + (b.pieces + c.pieces));
    }
}

/// Nothing changes by chaining nothing.
pub(crate) proof fn lemma_chain_nothing(a: Outline)
    ensures
        a.chain(steps(Seq::empty())) == a,
        steps(Seq::empty()).chain(a) == a,
{
    assert(a.pieces + Seq::empty() =~= a.pieces);
    assert(Seq::empty() + a.pieces =~= a.pieces);
}

/// One more outline of a sequence.
pub(crate) proof fn lemma_all_of_next(base: Outline, outlines: Seq<Outline>, i: int)
    requires
        0 <= i < outlines.len(),
    ensures
        base.chain(all_of(outlines, i)).chain(outlines[i]) == base.chain(all_of(outlines, i + 1)),
{
    lemma_chain_associative(base, all_of(outlines, i), outlines[i]);
}

/// A sink that took one outline and then another took both in a row; what ended the first
/// outline ends both.
pub(crate) proof fn lemma_took(
    a: Sink,
    b: Sink,
    c: Sink,
    first: Outline,
    next: Outline,
    r1: Result<(), JpegReconstructionError>,
    r2: Result<(), JpegReconstructionError>,
)
    requires
        a.took(b, first, r1),
        r1 is Ok ==> b.took(c, next, r2),
        r1 is Err ==> r2 == r1,
    ensures
        a.took(c, first.chain(next), r2),
{
    lemma_chain(a@, first, next, a.spec_cap());
}

/// An outline of a refusal alone.
pub(crate) proof fn lemma_refused(template: Template, error: JpegReconstructionError, cap: u64)
    ensures
        placed_all(template, refused(error), cap) == Err::<Template, JpegReconstructionError>(
            error,
        ),
{
}

} // verus!
