//! What the entropy tables and the progression of scans mean.

use crate::vardct_engine::jpeg_output::metadata::{HuffmanTable, JpegScan};
use crate::vardct_engine::jpeg_output::scan::{
    band_coded, band_stop, code_space, coded_mask, codes_assigned, codes_below, first_code,
    lower_mask, place_refused, progress, scan_extent, table_assigned, table_base, Geometry,
};
use crate::vardct_engine::jpeg_output::scan_laws::blocks_in_unit;
use crate::vardct_engine::jpeg_output::JpegReconstructionError;
use vstd::arithmetic::power2::pow2;
use vstd::prelude::*;

verus! {

/// Codes of fewer than `bits` bits.
pub open spec fn shorter(counts: Seq<u16>, bits: int) -> int
    decreases bits,
{
    if bits <= 1 {
        0
    } else {
        shorter(counts, bits - 1) + counts[bits - 1]
    }
}

/// No symbol is declared twice.
pub open spec fn symbols_distinct(table: HuffmanTable) -> bool {
    forall|p: int, q: int|
        0 <= p < q < table.values@.len() ==> #[trigger] table.values@[p]
            != #[trigger] table.values@[q]
}

/// The word of a symbol among the eight tables of 256 words: four for DC, then four for AC.
pub open spec fn symbol_word(table: HuffmanTable, words: Seq<u32>, symbol: int) -> u32 {
    words[256 * (if table.ac { 4int } else { 0 } + table.index) + symbol]
}

/// Both ways to count shorter codes agree.
proof fn lemma_shorter(counts: Seq<u16>, bits: int)
    ensures
        shorter(counts, bits) == codes_below(counts, bits),
        0 <= shorter(counts, bits),
    decreases bits,
{
    if bits > 1 {
        lemma_shorter(counts, bits - 1);
    }
}

/// More bits, more codes in front.
proof fn lemma_below_ordered(counts: Seq<u16>, a: int, b: int)
    requires
        1 <= a <= b,
    ensures
        codes_below(counts, a) <= codes_below(counts, b),
    decreases b - a,
{
    if a < b {
        lemma_below_ordered(counts, a, b - 1);
    }
}

/// The word of code `m` of `bits` bits.
spec fn code_word(table: HuffmanTable, bits: int, m: int) -> int {
    bits * 0x1_0000 + first_code(table.counts@, bits) + m
}

/// Code `m` of `bits` bits was assigned as it should be.
spec fn code_placed(table: HuffmanTable, words: Seq<u32>, bits: int, m: int) -> bool {
    let place = codes_below(table.counts@, bits) + m;
    let code = first_code(table.counts@, bits) + m;
    &&& 0 <= place < table.values@.len()
    &&& 0 <= code < code_space(bits)
    &&& table.values@[place] != 256 ==> {
        &&& table.values@[place] < 256
        &&& code < code_space(bits) - 1
        &&& words[table_base(table) + table.values@[place]] == code_word(table, bits, m)
    }
}

/// Code `m` of `bits` bits is among those that come before code `n` of `last` bits.
spec fn in_front(table: HuffmanTable, bits: int, m: int, last: int, n: int) -> bool {
    &&& 1 <= bits
    &&& 0 <= m < table.counts@[bits]
    &&& bits < last || (bits == last && m < n)
}

/// First codes are not negative.
proof fn lemma_first_code(counts: Seq<u16>, bits: int)
    ensures
        0 <= first_code(counts, bits),
    decreases bits,
{
    if bits > 1 {
        lemma_first_code(counts, bits - 1);
    }
}

/// Sixteen bits of code fit below the length.
proof fn lemma_space(bits: int)
    requires
        1 <= bits <= 16,
    ensures
        2 <= code_space(bits) <= 0x1_0000,
{
    vstd::arithmetic::power2::lemma2_to64();
    if bits > 1 {
        vstd::arithmetic::power2::lemma_pow2_strictly_increases(1, bits as nat);
    }
    if bits < 16 {
        vstd::arithmetic::power2::lemma_pow2_strictly_increases(bits as nat, 16);
    }
}

/// Codes that were assigned stay assigned.
proof fn lemma_codes(table: HuffmanTable, before: Seq<u32>, bits: int, n: int)
    requires
        table.index <= 3,
        before.len() == 2048,
        symbols_distinct(table),
        1 <= bits <= 16,
        0 <= n <= table.counts@[bits],
        codes_assigned(table, before, bits, n) is Ok,
    ensures
        ({
            let words = codes_assigned(table, before, bits, n)->Ok_0;
            &&& words.len() == 2048
            &&& forall|b: int, m: int|
                #[trigger] in_front(table, b, m, bits, n) ==> code_placed(table, words, b, m)
            &&& forall|i: int|
                0 <= i < 2048 && !(table_base(table) <= i < table_base(table) + 256)
                    ==> #[trigger] words[i] == before[i]
            &&& forall|s: int|
                0 <= s < 256 && #[trigger] words[table_base(table) + s] != 0 ==> exists|p: int|
                    0 <= p < table.values@.len() && #[trigger] table.values@[p] == s
        }),
    decreases bits, n,
{
    let words = codes_assigned(table, before, bits, n)->Ok_0;
    if n > 0 {
        lemma_codes(table, before, bits, n - 1);
        let front = codes_assigned(table, before, bits, n - 1)->Ok_0;
        let place = codes_below(table.counts@, bits) + n - 1;
        let code = first_code(table.counts@, bits) + n - 1;
        lemma_shorter(table.counts@, bits);
        lemma_first_code(table.counts@, bits);
        lemma_space(bits);
        let value = table.values@[place];
        assert(code_placed(table, words, bits, n - 1));
        assert forall|b: int, m: int| #[trigger] in_front(table, b, m, bits, n) implies code_placed(
            table,
            words,
            b,
            m,
        ) by {
            if b == bits && m == n - 1 {
            } else {
                assert(in_front(table, b, m, bits, n - 1));
                assert(code_placed(table, front, b, m));
                let other = codes_below(table.counts@, b) + m;
                if b < bits {
                    lemma_below_ordered(table.counts@, b + 1, bits);
                }
                assert(other < place);
                assert(table.values@[other] != table.values@[place]);
            }
        }
        assert forall|s: int| 0 <= s < 256 && #[trigger] words[table_base(table) + s]
            != 0 implies exists|p: int|
            0 <= p < table.values@.len() && #[trigger] table.values@[p] == s by {
            if front[table_base(table) + s] == 0 {
                assert(table.values@[place] == s);
            }
        }
    } else if bits > 1 {
        lemma_codes(table, before, bits - 1, table.counts@[bits - 1] as int);
        assert(words == codes_assigned(
            table,
            before,
            bits - 1,
            table.counts[bits - 1] as int,
        )->Ok_0);
        assert forall|b: int, m: int| #[trigger] in_front(table, b, m, bits, n) implies code_placed(
            table,
            words,
            b,
            m,
        ) by {
            assert(in_front(table, b, m, bits - 1, table.counts@[bits - 1] as int));
        }
    }
}

/// Every place among the symbols has a length.
proof fn lemma_length(counts: Seq<u16>, p: int, bits: int) -> (length: int)
    requires
        1 <= bits,
        0 <= p < codes_below(counts, bits),
    ensures
        1 <= length < bits,
        codes_below(counts, length) <= p < codes_below(counts, length) + counts[length],
    decreases bits,
{
    if p >= codes_below(counts, bits - 1) {
        bits - 1
    } else {
        lemma_length(counts, p, bits - 1)
    }
}

/// Longer codes start behind all shorter ones, and right behind them where none is in between.
proof fn lemma_first_codes(counts: Seq<u16>, a: int, b: int)
    requires
        1 <= a < b,
    ensures
        first_code(counts, b) >= (first_code(counts, a) + counts[a]) * pow2((b - a) as nat),
        codes_below(counts, b) == codes_below(counts, a + 1) ==> first_code(counts, b) == (
        first_code(counts, a) + counts[a]) * pow2((b - a) as nat),
    decreases b - a,
{
    let end = first_code(counts, a) + counts[a];
    vstd::arithmetic::power2::lemma_pow2_unfold((b - a) as nat);
    if a + 1 < b {
        lemma_first_codes(counts, a, b - 1);
        lemma_below_ordered(counts, a + 1, b - 1);
        let half = pow2((b - 1 - a) as nat);
        let full = pow2((b - a) as nat);
        assert(full == 2 * half);
        assert(end * full == 2 * (end * half)) by (nonlinear_arith)
            requires
                full == 2 * half,
        ;
        assert(first_code(counts, b) == 2 * (first_code(counts, b - 1) + counts[b - 1]));
        assert(codes_below(counts, b) == codes_below(counts, b - 1) + counts[b - 1]);
    } else {
        vstd::arithmetic::power2::lemma2_to64();
        let full = pow2((b - a) as nat);
        assert(full == 2);
        assert(end * full == 2 * end) by (nonlinear_arith)
            requires
                full == 2,
        ;
        assert(first_code(counts, b) == 2 * (first_code(counts, a) + counts[a]));
    }
}

/// The codes of an accepted table are canonical: the first symbol has the code zero, lengths do
/// not fall, as many codes have each length as are declared, and each code stands in front of all
/// later ones at its own length, so that no code starts with another; the next one follows it
/// without a gap. No code is all ones. A word holds its length above sixteen bits of code.
pub proof fn law_canonical_codes(
    table: HuffmanTable,
    before: Seq<u32>,
    after: Seq<u32>,
    p: int,
    q: int,
)
    requires
        table.index <= 3,
        before.len() == 2048,
        symbols_distinct(table),
        table_assigned(table, before) == Ok::<Seq<u32>, JpegReconstructionError>(after),
        0 <= p < table.values@.len(),
        table.values@[p] != 256,
        p < q < table.values@.len() ==> table.values@[q] != 256,
    ensures
        table.values@.len() == shorter(table.counts@, 17),
        table.values@[p] < 256,
        ({
            let word = symbol_word(table, after, table.values@[p] as int) as int;
            let (bits, code) = (word / 0x1_0000, word % 0x1_0000);
            &&& 1 <= bits <= 16
            &&& code < pow2(bits as nat) - 1
            &&& shorter(table.counts@, bits) <= p < shorter(table.counts@, bits + 1)
            &&& p == 0 ==> code == 0
            &&& p < q < table.values@.len() ==> {
                let other = symbol_word(table, after, table.values@[q] as int) as int;
                let (more, next) = (other / 0x1_0000, other % 0x1_0000);
                &&& bits <= more <= 16
                &&& next >= (code + 1) * pow2((more - bits) as nat)
                &&& q == p + 1 ==> next == (code + 1) * pow2((more - bits) as nat)
            }
        }),
{
    let counts = table.counts@;
    lemma_shorter(counts, 17);
    lemma_codes(table, before, 16, counts[16] as int);
    let a = lemma_length(counts, p, 17);
    let m = p - codes_below(counts, a);
    assert(in_front(table, a, m, 16, counts[16] as int));
    assert(code_placed(table, after, a, m));
    lemma_space(a);
    lemma_first_code(counts, a);
    let code = first_code(counts, a) + m;
    lemma_word(symbol_word(table, after, table.values@[p] as int) as int, a, code);
    lemma_shorter(counts, a);
    lemma_shorter(counts, a + 1);
    if p == 0 {
        lemma_zero_front(counts, a);
    }
    if p < q < table.values@.len() {
        let b = lemma_length(counts, q, 17);
        let n = q - codes_below(counts, b);
        assert(in_front(table, b, n, 16, counts[16] as int));
        assert(code_placed(table, after, b, n));
        lemma_space(b);
        lemma_first_code(counts, b);
        let next = first_code(counts, b) + n;
        lemma_word(symbol_word(table, after, table.values@[q] as int) as int, b, next);
        if b < a {
            lemma_below_ordered(counts, b + 1, a);
        }
        if a == b {
            vstd::arithmetic::power2::lemma2_to64();
            assert((code + 1) * pow2(0) == code + 1) by (nonlinear_arith)
                requires
                    pow2(0) == 1,
            ;
        } else {
            lemma_first_codes(counts, a, b);
            let end = first_code(counts, a) + counts[a];
            let factor = pow2((b - a) as nat);
            assert((code + 1) * factor <= end * factor) by (nonlinear_arith)
                requires
                    code + 1 <= end,
            ;
            if q == p + 1 {
                lemma_below_ordered(counts, a + 1, b);
                assert(code + 1 == end);
            }
        }
    }
}

/// Without a symbol in front, the first code is zero.
proof fn lemma_zero_front(counts: Seq<u16>, bits: int)
    requires
        codes_below(counts, bits) == 0,
    ensures
        first_code(counts, bits) == 0,
    decreases bits,
{
    if bits > 1 {
        lemma_shorter(counts, bits - 1);
        lemma_zero_front(counts, bits - 1);
    }
}

/// A word of a length and a code.
proof fn lemma_word(word: int, bits: int, code: int)
    requires
        word == bits * 0x1_0000 + code,
        0 <= code < 0x1_0000,
    ensures
        word / 0x1_0000 == bits,
        word % 0x1_0000 == code,
{
}

/// A table changes its own 256 words and no other; of those, only the ones of declared symbols
/// are not zero.
pub proof fn law_table_words(table: HuffmanTable, before: Seq<u32>, after: Seq<u32>, i: int)
    requires
        table.index <= 3,
        before.len() == 2048,
        symbols_distinct(table),
        table_assigned(table, before) == Ok::<Seq<u32>, JpegReconstructionError>(after),
        0 <= i < 2048,
    ensures
        after.len() == 2048,
        i / 256 != table.index + if table.ac { 4int } else { 0 } ==> after[i] == before[i],
        i / 256 == table.index + if table.ac { 4int } else { 0 } && after[i] != 0 ==> exists|p: int|
            0 <= p < table.values@.len() && #[trigger] table.values@[p] == i % 256,
{
    lemma_codes(table, before, 16, table.counts@[16] as int);
    if i / 256 == table.index + if table.ac { 4int } else { 0 } {
        let s = i % 256;
        assert(i == table_base(table) + s);
        assert(after[table_base(table) + s] == after[i]);
    }
}

/// Bit `j` of a word.
pub open spec fn has_bit(word: u32, j: u32) -> bool {
    (word >> j) & 1 == 1
}

/// A scan codes bit `j`: the first scan of a band all sixteen bits from its lowest one on, a
/// refinement its lowest one alone.
pub open spec fn codes_bit(scan: &JpegScan, j: u32) -> bool {
    if scan.high == 0 {
        scan.low <= j < 16
    } else {
        j == scan.low
    }
}

/// The bits of a mask.
proof fn lemma_mask_bits(scan: &JpegScan, word: u32, j: u32)
    requires
        scan.low < 16,
        scan.high < 16,
        j < 32,
    ensures
        has_bit(word | coded_mask(scan), j) <==> has_bit(word, j) || codes_bit(scan, j),
        !place_refused(word, scan) && j <= scan.low ==> !has_bit(word, j),
        !place_refused(word, scan) && codes_bit(scan, j) ==> !has_bit(word, j),
        !place_refused(word, scan) && scan.high != 0 ==> has_bit(word, scan.high as u32),
{
    let low = scan.low as u32;
    let high = scan.high as u32;
    let slow = scan.low;
    let shigh = scan.high;
    assert(u32::MAX << slow == u32::MAX << low && 1u32 << slow == 1u32 << low && 1u32 << shigh
        == 1u32 << high) by (bit_vector)
        requires
            low == slow as u32,
            high == shigh as u32,
            slow < 16,
            shigh < 16,
    ;
    let first = 0xffffu32 & (u32::MAX << low);
    let one = 1u32 << low;
    assert(one >= 1) by (bit_vector)
        requires
            one == 1u32 << low,
            low < 16,
    ;
    let below = (one - 1) as u32;
    assert(lower_mask(scan) == below);
    assert(((word | first) >> j) & 1 == 1 <==> (word >> j) & 1 == 1 || (low <= j && j < 16))
        by (bit_vector)
        requires
            first == 0xffffu32 & (u32::MAX << low),
            low < 16,
            j < 32,
    ;
    assert(((word | one) >> j) & 1 == 1 <==> (word >> j) & 1 == 1 || j == low) by (bit_vector)
        requires
            one == 1u32 << low,
            low < 16,
            j < 32,
    ;
    assert(word & (first | below) == 0 && (j < 16) ==> (word >> j) & 1 == 0) by (bit_vector)
        requires
            first == 0xffffu32 & (u32::MAX << low),
            one == 1u32 << low,
            below == (one - 1) as u32,
            low < 16,
            j < 32,
    ;
    assert(word & (one | below) == 0 && j <= low ==> (word >> j) & 1 == 0) by (bit_vector)
        requires
            one == 1u32 << low,
            below == (one - 1) as u32,
            low < 16,
            j < 32,
    ;
    assert(word & (1u32 << high) != 0 ==> (word >> high) & 1 == 1) by (bit_vector)
        requires
            high < 16,
    ;
}

/// A band that no place refuses is coded to its end.
proof fn lemma_band(plane: Seq<u32>, scan: &JpegScan, k: int)
    requires
        0 <= k,
        band_stop(plane, scan, k) > scan.end,
    ensures
        k <= scan.end + 1 ==> band_stop(plane, scan, k) == scan.end + 1,
        forall|i: int| k <= i <= scan.end ==> !place_refused(#[trigger] plane[i], scan),
    decreases scan.end + 1 - k,
{
    if k <= scan.end {
        lemma_band(plane, scan, k + 1);
    }
}

/// Components that a scan has not reached keep their bits, and those behind it have its bits.
proof fn lemma_progress(scan: &JpegScan, planes: Seq<Seq<u32>>, n: int)
    requires
        planes.len() == 3,
        forall|c: int| 0 <= c < 3 ==> (#[trigger] planes[c]).len() == 64,
        0 <= n <= scan.components@.len(),
        scan.end <= 63,
        forall|i: int|
            0 <= i < scan.components@.len() ==> (#[trigger] scan.components@[i]).component < 3,
        forall|i: int, j: int|
            0 <= i < j < scan.components@.len() ==> (#[trigger] scan.components@[i]).component != (
            #[trigger] scan.components@[j]).component,
        progress(scan, planes, n).1 is None,
    ensures
        ({
            let after = progress(scan, planes, n).0;
            &&& after.len() == 3
            &&& forall|c: int|
                0 <= c < 3 && (forall|i: int|
                    0 <= i < n ==> (#[trigger] scan.components@[i]).component != c)
                    ==> #[trigger] after[c] == planes[c]
            &&& forall|i: int|
                0 <= i < n ==> {
                    let c = (#[trigger] scan.components@[i]).component as int;
                    &&& scan.start != 0 ==> planes[c][0] != 0
                    &&& forall|k: int|
                        scan.start <= k <= scan.end ==> !place_refused(
                            #[trigger] planes[c][k],
                            scan,
                        )
                    &&& after[c] =~= Seq::new(
                        64,
                        |k: int|
                            if scan.start <= k <= scan.end {
                                planes[c][k] | coded_mask(scan)
                            } else {
                                planes[c][k]
                            },
                    )
                }
        }),
    decreases n,
{
    if n > 0 {
        lemma_progress(scan, planes, n - 1);
        let before = progress(scan, planes, n - 1).0;
        let after = progress(scan, planes, n).0;
        let c = scan.components@[n - 1].component as int;
        assert(before[c] == planes[c]);
        lemma_band(before[c], scan, scan.start as int);
        let stop = band_stop(before[c], scan, scan.start as int);
        assert(after == before.update(c, band_coded(before[c], scan, stop)));
        assert(after[c] =~= Seq::new(
            64,
            |k: int|
                if scan.start <= k <= scan.end {
                    planes[c][k] | coded_mask(scan)
                } else {
                    planes[c][k]
                },
        ));
        assert forall|d: int|
            0 <= d < 3 && (forall|i: int|
                0 <= i < n ==> (#[trigger] scan.components@[i]).component
                    != d) implies #[trigger] after[d] == planes[d] by {
            assert(scan.components@[n - 1].component != d);
            assert(after[d] == before[d]);
        }
        assert forall|i: int| 0 <= i < n - 1 implies after[(
        #[trigger] scan.components@[i]).component as int] == before[scan.components@[i].component as int] by {
            assert(scan.components@[i].component != scan.components@[n - 1].component);
        }
    }
}

/// An accepted scan codes every bit once. In its components and its band, a bit is set behind the
/// scan exactly where it was set before or the scan codes it, and what it codes was not set; a
/// refinement follows the bit above it; AC coefficients follow DC coefficients. All else stays.
pub proof fn law_bits_coded_once(
    scan: &JpegScan,
    planes: Seq<Seq<u32>>,
    after: Seq<Seq<u32>>,
    c: int,
    k: int,
    j: u32,
)
    requires
        planes.len() == 3,
        forall|d: int| 0 <= d < 3 ==> (#[trigger] planes[d]).len() == 64,
        scan.end <= 63 && scan.low < 16 && scan.high < 16,
        forall|i: int|
            0 <= i < scan.components@.len() ==> (#[trigger] scan.components@[i]).component < 3,
        forall|i: int, l: int|
            0 <= i < l < scan.components@.len() ==> (#[trigger] scan.components@[i]).component != (
            #[trigger] scan.components@[l]).component,
        progress(scan, planes, scan.components@.len() as int) == (
            after,
            None::<JpegReconstructionError>,
        ),
        0 <= c < 3,
        0 <= k < 64,
        j < 32,
    ensures
        ({
            let named = exists|i: int|
                0 <= i < scan.components@.len() && (#[trigger] scan.components@[i]).component == c;
            if named && scan.start <= k <= scan.end {
                &&& has_bit(after[c][k], j) <==> has_bit(planes[c][k], j) || codes_bit(scan, j)
                &&& codes_bit(scan, j) || j <= scan.low ==> !has_bit(planes[c][k], j)
                &&& scan.high != 0 ==> has_bit(planes[c][k], scan.high as u32)
                &&& scan.start != 0 ==> planes[c][0] != 0
            } else {
                after[c][k] == planes[c][k]
            }
        }),
{
    lemma_progress(scan, planes, scan.components@.len() as int);
    if exists|i: int|
        0 <= i < scan.components@.len() && (#[trigger] scan.components@[i]).component == c {
        let i = choose|i: int|
            0 <= i < scan.components@.len() && (#[trigger] scan.components@[i]).component == c;
        assert(scan.components@[i].component == c);
        if scan.start <= k <= scan.end {
            assert(!place_refused(planes[c][k], scan));
            assert(after[c][k] == planes[c][k] | coded_mask(scan));
            lemma_mask_bits(scan, planes[c][k], j);
        }
    } else {
        assert(after[c] == planes[c]);
    }
}

/// A scan is walked over the units of its interleaved components, or over the real blocks of one
/// alone, with all blocks of a unit. It is walked exactly where its components are known and
/// distinct with table selectors of two bits; where it codes everything at once in a sequential
/// frame, or in a progressive frame a DC scan or a band of one component, at first or refined by
/// one bit; and where the blocks that it names ascend inside it, the superfluous runs of one to
/// four only in a first AC scan.
pub proof fn law_scan_extent(
    scan: &JpegScan,
    geometry: &Geometry<'_>,
    progressive: bool,
    r: Result<([u32; 2], u32), JpegReconstructionError>,
)
    requires
        geometry@.wf(),
        crate::vardct_engine::jpeg_output::scan_plan::resident(geometry@),
        call_ensures(scan_extent, (scan, geometry, progressive), r),
    ensures
        r matches Ok((extent, count)) ==> {
            &&& scan.components@.len() > 1 ==> extent@ =~= geometry.mcus@
            &&& scan.components@.len() == 1 ==> {
                let plane = geometry@.planes[scan.components@[0].component as int];
                extent@[0] == plane.real.0 && extent@[1] == plane.real.1
            }
            &&& count == extent@[0] * extent@[1] * blocks_in_unit(scan, geometry@)
        },
        r is Ok ==> {
            let whole = scan.start == 0 && scan.end == 63 && scan.low == 0 && scan.high == 0;
            &&& 1 <= scan.components@.len() <= geometry.components
            &&& whole <==> !progressive
            &&& progressive ==> {
                &&& scan.start <= scan.end <= 63
                &&& scan.start == 0 <==> scan.end == 0
                &&& scan.start > 0 ==> scan.components@.len() == 1
                &&& scan.high == 0 || scan.high == scan.low + 1
                &&& scan.low <= 13 && scan.high <= 13
            }
            &&& scan.extra_zeros@.len() > 0 ==> scan.end > 0 && scan.high == 0
        },
        r matches Ok((extent, count)) ==> {
            &&& forall|i: int|
                0 <= i < scan.resets@.len() ==> (#[trigger] scan.resets@[i]) < count
            &&& forall|i: int|
                0 <= i < scan.extra_zeros@.len() ==> (#[trigger] scan.extra_zeros@[i]).0 < count
                    && 1 <= scan.extra_zeros@[i].1 <= 4
        },
{
    if let Ok((extent, count)) = r {
        crate::vardct_engine::jpeg_output::scan_laws::lemma_unit_blocks(scan, geometry@);
        let n = count as int;
        assert forall|i: int| 0 <= i < scan.resets@.len() implies (#[trigger] scan.resets@[i])
            < count by {
            assert(crate::vardct_engine::jpeg_output::scan::reset_bound(scan.resets@, n, i));
        }
        assert forall|i: int| 0 <= i < scan.extra_zeros@.len() implies (
        #[trigger] scan.extra_zeros@[i]).0 < count && 1 <= scan.extra_zeros@[i].1 <= 4 by {
            assert(crate::vardct_engine::jpeg_output::scan::extra_bound(
                scan.extra_zeros@,
                n,
                i,
            ));
        }
        if scan.extra_zeros@.len() > 0 {
            assert(crate::vardct_engine::jpeg_output::scan::extra_bound(
                scan.extra_zeros@,
                n,
                0,
            ));
        }
    }
}

} // verus!
