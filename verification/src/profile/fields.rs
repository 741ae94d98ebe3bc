//! Fields of fixed grammar, read in order.

use crate::bits::{bit_count, bits_value, lemma_bits_bound, BitError, BitReader};
use crate::profile::ProfileError;
use vstd::arithmetic::power2::{lemma2_to64, lemma_pow2_strictly_increases};
use vstd::prelude::*;

verus! {

/// A field whose value the profile fixes.
#[derive(Clone, Copy, Debug)]
pub struct Field {
    pub bits: u32,
    pub value: u64,
    pub name: &'static str,
}

/// The position behind `n` bits at `at`, where they are there.
pub open spec fn passed(data: Seq<u8>, at: int, n: int) -> Result<int, ProfileError> {
    if at + n <= bit_count(data) {
        Ok(at + n)
    } else {
        Err(ProfileError::Bits(BitError::UnexpectedEndOfBits))
    }
}

/// The position behind a field at `at` that holds its value.
pub open spec fn field(data: Seq<u8>, at: int, f: Field) -> Result<int, ProfileError> {
    match passed(data, at, f.bits as int) {
        Err(error) => Err(error),
        Ok(next) => if bits_value(data, at, f.bits as int) == f.value {
            Ok(next)
        } else {
            Err(
                ProfileError::Field {
                    field: f.name,
                    expected: f.value,
                    actual: bits_value(data, at, f.bits as int) as u64,
                },
            )
        },
    }
}

/// The position behind all fields of a list, each at the end of the one before.
pub open spec fn fields(data: Seq<u8>, at: int, list: Seq<Field>) -> Result<int, ProfileError>
    decreases list.len(),
{
    if list.len() == 0 {
        Ok(at)
    } else {
        match field(data, at, list[0]) {
            Err(error) => Err(error),
            Ok(next) => fields(data, next, list.skip(1)),
        }
    }
}

/// A reader ran over what a grammar says: it stands behind it, or the grammar's error came.
pub open spec fn ran(
    before: BitReader<'_>,
    after: BitReader<'_>,
    grammar: Result<int, ProfileError>,
    r: Result<(), ProfileError>,
) -> bool {
    &&& after.wf()
    &&& after.data == before.data
    &&& match grammar {
        Ok(next) => r is Ok && after.offset == next,
        Err(error) => r == Err::<(), ProfileError>(error),
    }
}

/// Reads a field that must hold its value.
pub fn expect(reader: &mut BitReader<'_>, f: Field) -> (r: Result<(), ProfileError>)
    requires
        old(reader).wf(),
        f.bits <= 32,
    ensures
        ran(*old(reader), *final(reader), field(old(reader).data@, old(reader).offset as int, f), r),
{
    match reader.read_bits(f.bits) {
        Ok(actual) => {
            if actual != f.value {
                return Err(ProfileError::Field { field: f.name, expected: f.value, actual });
            }
            Ok(())
        },
        Err(error) => Err(ProfileError::Bits(error)),
    }
}

/// Reads a list of fields that must hold their values.
pub fn expect_all(reader: &mut BitReader<'_>, list: &[Field]) -> (r: Result<(), ProfileError>)
    requires
        old(reader).wf(),
        forall|i: int| 0 <= i < list@.len() ==> (#[trigger] list@[i]).bits <= 32,
    ensures
        ran(
            *old(reader),
            *final(reader),
            fields(old(reader).data@, old(reader).offset as int, list@),
            r,
        ),
{
    let ghost start = *old(reader);
    let mut i: usize = 0;
    proof {
        assert(list@.skip(0) =~= list@);
    }
    while i < list.len()
        invariant
            start == *old(reader),
            reader.wf(),
            reader.data == start.data,
            i <= list@.len(),
            forall|i: int| 0 <= i < list@.len() ==> (#[trigger] list@[i]).bits <= 32,
            fields(start.data@, start.offset as int, list@) == fields(
                reader.data@,
                reader.offset as int,
                list@.skip(i as int),
            ),
        decreases list@.len() - i,
    {
        proof {
            assert(list@.skip(i as int)[0] == list@[i as int]);
            assert(list@.skip(i as int).skip(1) =~= list@.skip(i + 1));
        }
        match expect(reader, list[i]) {
            Ok(_) => {},
            Err(error) => {
                return Err(error);
            },
        }
        i = i + 1;
    }
    Ok(())
}

/// The precision that a selector and its extra bits declare at `at`, and where they end.
pub open spec fn depth_value(data: Seq<u8>, at: int) -> Result<(int, int), ProfileError> {
    match passed(data, at, 2) {
        Err(error) => Err(error),
        Ok(next) => {
            let selector = bits_value(data, at, 2);
            if selector < 3 {
                Ok((8 + 2 * selector, next))
            } else {
                match passed(data, next, 6) {
                    Err(error) => Err(error),
                    Ok(end) => Ok((bits_value(data, next, 6) + 1, end)),
                }
            }
        },
    }
}

/// The position behind an integer precision that must be `expected`.
pub open spec fn integer_depth(data: Seq<u8>, at: int, expected: u8, name: &'static str) -> Result<
    int,
    ProfileError,
> {
    match field(data, at, Field { bits: 1, value: 0, name }) {
        Err(error) => Err(error),
        Ok(next) => match depth_value(data, next) {
            Err(error) => Err(error),
            Ok((actual, end)) => if actual == expected {
                Ok(end)
            } else {
                Err(ProfileError::BitDepth { field: name, expected, actual: actual as u8 })
            },
        },
    }
}

/// Reads an integer precision that must be `expected`.
pub fn read_integer_bit_depth(reader: &mut BitReader<'_>, expected: u8, name: &'static str) -> (r:
    Result<(), ProfileError>)
    requires
        old(reader).wf(),
    ensures
        ran(
            *old(reader),
            *final(reader),
            integer_depth(old(reader).data@, old(reader).offset as int, expected, name),
            r,
        ),
{
    proof {
        lemma2_to64();
    }
    match expect(reader, Field { bits: 1, value: 0, name }) {
        Ok(_) => {},
        Err(error) => {
            return Err(error);
        },
    }
    proof {
        lemma_bits_bound(reader.data@, reader.offset as int, 2);
    }
    let selector: u64 = match reader.read_bits(2) {
        Ok(selector) => selector,
        Err(error) => {
            return Err(ProfileError::Bits(error));
        },
    };
    let actual: u8 = if selector == 0 {
        8
    } else if selector == 1 {
        10
    } else if selector == 2 {
        12
    } else {
        proof {
            lemma_bits_bound(reader.data@, reader.offset as int, 6);
        }
        match reader.read_bits(6) {
            Ok(bits) => bits as u8 + 1,
            Err(error) => {
                return Err(ProfileError::Bits(error));
            },
        }
    };
    if actual != expected {
        return Err(ProfileError::BitDepth { field: name, expected, actual });
    }
    Ok(())
}

/// Bits of an extent behind its selector.
pub open spec fn extent_bits(selector: int) -> int {
    if selector == 0 {
        9
    } else if selector == 1 {
        13
    } else if selector == 2 {
        18
    } else {
        30
    }
}

/// The extent that is declared at `at`, and where it ends. A height is followed by the aspect
/// ratio, which must leave the width explicit.
pub open spec fn size(data: Seq<u8>, at: int, has_ratio: bool) -> Result<(int, int), ProfileError> {
    match passed(data, at, 2) {
        Err(error) => Err(error),
        Ok(next) => {
            let n = extent_bits(bits_value(data, at, 2));
            match passed(data, next, n) {
                Err(error) => Err(error),
                Ok(end) => if has_ratio {
                    match field(
                        data,
                        end,
                        Field { bits: 3, value: 0, name: "explicit width follows height" },
                    ) {
                        Err(error) => Err(error),
                        Ok(end) => Ok((bits_value(data, next, n) + 1, end)),
                    }
                } else {
                    Ok((bits_value(data, next, n) + 1, end))
                },
            }
        },
    }
}

/// Reads one extent of an image.
pub fn read_size(reader: &mut BitReader<'_>, has_ratio: bool) -> (r: Result<u32, ProfileError>)
    requires
        old(reader).wf(),
    ensures
        final(reader).wf(),
        final(reader).data == old(reader).data,
        match size(old(reader).data@, old(reader).offset as int, has_ratio) {
            Ok((value, next)) => r matches Ok(v) && v == value && final(reader).offset == next,
            Err(error) => r == Err::<u32, ProfileError>(error),
        },
{
    proof {
        lemma2_to64();
        lemma_bits_bound(reader.data@, reader.offset as int, 2);
    }
    let selector: u64 = match reader.read_bits(2) {
        Ok(selector) => selector,
        Err(error) => {
            return Err(ProfileError::Bits(error));
        },
    };
    let bits: u32 = if selector == 0 {
        9
    } else if selector == 1 {
        13
    } else if selector == 2 {
        18
    } else {
        30
    };
    proof {
        lemma_bits_bound(reader.data@, reader.offset as int, bits as int);
        if bits < 30 {
            lemma_pow2_strictly_increases(bits as nat, 30);
        }
    }
    let value: u32 = match reader.read_bits(bits) {
        Ok(value) => value as u32 + 1,
        Err(error) => {
            return Err(ProfileError::Bits(error));
        },
    };
    if has_ratio {
        match expect(
            reader,
            Field { bits: 3, value: 0, name: "explicit width follows height" },
        ) {
            Ok(_) => {},
            Err(error) => {
                return Err(error);
            },
        }
    }
    Ok(value)
}

/// One of four ways to code a number: extra bits above a base.
#[derive(Clone, Copy, Debug)]
pub struct Variant {
    pub base: u32,
    pub bits: u32,
}

/// The number that is coded at `at` in one of four ways, and where it ends.
pub open spec fn selected(data: Seq<u8>, at: int, variants: Seq<Variant>) -> Result<
    (int, int),
    ProfileError,
> {
    match passed(data, at, 2) {
        Err(error) => Err(error),
        Ok(next) => {
            let variant = variants[bits_value(data, at, 2)];
            match passed(data, next, variant.bits as int) {
                Err(error) => Err(error),
                Ok(end) => {
                    let value = variant.base + bits_value(data, next, variant.bits as int);
                    if value <= u32::MAX {
                        Ok((value, end))
                    } else {
                        Err(ProfileError::Unsupported("U32 field overflows"))
                    }
                },
            }
        },
    }
}

/// Reads a number that is coded in one of four ways.
pub fn read_u32_selector(reader: &mut BitReader<'_>, variants: &[Variant]) -> (r: Result<
    u32,
    ProfileError,
>)
    requires
        old(reader).wf(),
        variants@.len() == 4,
        forall|i: int| 0 <= i < 4 ==> (#[trigger] variants@[i]).bits <= 32,
    ensures
        final(reader).wf(),
        final(reader).data == old(reader).data,
        match selected(old(reader).data@, old(reader).offset as int, variants@) {
            Ok((value, next)) => r matches Ok(v) && v == value && final(reader).offset == next,
            Err(error) => r == Err::<u32, ProfileError>(error),
        },
{
    proof {
        lemma2_to64();
        lemma_bits_bound(reader.data@, reader.offset as int, 2);
    }
    let selector: u64 = match reader.read_bits(2) {
        Ok(selector) => selector,
        Err(error) => {
            return Err(ProfileError::Bits(error));
        },
    };
    let variant = variants[selector as usize];
    proof {
        lemma_bits_bound(reader.data@, reader.offset as int, variant.bits as int);
        if variant.bits < 32 {
            lemma_pow2_strictly_increases(variant.bits as nat, 32);
        }
    }
    let extra: u32 = match reader.read_bits(variant.bits) {
        Ok(extra) => extra as u32,
        Err(error) => {
            return Err(ProfileError::Bits(error));
        },
    };
    match variant.base.checked_add(extra) {
        Some(value) => Ok(value),
        None => Err(ProfileError::Unsupported("U32 field overflows")),
    }
}

/// An extent is coded in nine, thirteen, eighteen or thirty bits behind two that say which, one
/// less than it is; a height is followed by three clear bits.
pub proof fn law_extent_code(data: Seq<u8>, at: int, has_ratio: bool, value: int, next: int)
    requires
        size(data, at, has_ratio) == Ok::<(int, int), ProfileError>((value, next)),
    ensures
        ({
            let bits = next - at - 2 - if has_ratio { 3int } else { 0 };
            let selector = bits_value(data, at, 2);
            &&& next <= bit_count(data)
            &&& selector == 0 && bits == 9 || selector == 1 && bits == 13 || selector == 2 && bits
                == 18 || selector == 3 && bits == 30
            &&& value == bits_value(data, at + 2, bits) + 1
            &&& 1 <= value <= 0x4000_0000
            &&& has_ratio ==> bits_value(data, at + 2 + bits, 3) == 0
        }),
{
    lemma2_to64();
    lemma_bits_bound(data, at, 2);
    let bits = extent_bits(bits_value(data, at, 2));
    lemma_bits_bound(data, at + 2, bits);
    if bits < 30 {
        lemma_pow2_strictly_increases(bits as nat, 30);
    }
}

/// An integer precision is eight, ten or twelve bits, or one more than six bits say, behind a clear
/// bit and two that say which.
pub proof fn law_precision_code(
    data: Seq<u8>,
    at: int,
    expected: u8,
    name: &'static str,
    next: int,
)
    requires
        integer_depth(data, at, expected, name) == Ok::<int, ProfileError>(next),
    ensures
        bits_value(data, at, 1) == 0,
        next <= bit_count(data),
        ({
            let selector = bits_value(data, at + 1, 2);
            &&& selector == 0 && expected == 8 && next == at + 3 || selector == 1 && expected == 10
                && next == at + 3 || selector == 2 && expected == 12 && next == at + 3 || selector
                == 3 && expected == bits_value(data, at + 3, 6) + 1 && next == at + 9
        }),
{
    lemma2_to64();
    lemma_bits_bound(data, at + 1, 2);
    lemma_bits_bound(data, at + 3, 6);
}

} // verus!
