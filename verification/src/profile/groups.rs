//! Sections of a Modular frame and the groups that they code.

use crate::arith::{ceil_div, div_ceil_u32, lemma_ceil_div};
use crate::bits::{bit_at, bit_count, bits_are_zero, bits_value, zero_bits, BitError, BitReader};
use crate::profile::fields::{expect_all, field, fields, passed, Field};
use crate::profile::{
    FrameInventory, FrameSection, FrameSectionKind, ImageHeader, ModularGroup, ProfileError,
    GROUP_DIMENSION,
};
use vstd::prelude::*;

verus! {

/// Groups along a side of `extent` samples.
pub open spec fn group_axis(extent: u32) -> int {
    ceil_div(extent as int, 256)
}

/// Groups of an image.
pub open spec fn grid_count(image: ImageHeader) -> int {
    group_axis(image.width) * group_axis(image.height)
}

/// The group grid of a non-empty image.
pub proof fn lemma_grid(image: ImageHeader)
    requires
        image.width > 0,
        image.height > 0,
    ensures
        1 <= group_axis(image.width) <= 0x100_0000,
        1 <= group_axis(image.height) <= 0x100_0000,
        (group_axis(image.width) - 1) * 256 < image.width <= group_axis(image.width) * 256,
        (group_axis(image.height) - 1) * 256 < image.height <= group_axis(image.height) * 256,
        1 <= grid_count(image) <= 0x100_0000 * 0x100_0000,
{
    lemma_ceil_div(image.width as int, 256);
    lemma_ceil_div(image.height as int, 256);
    let a = group_axis(image.width);
    let b = group_axis(image.height);
    assert(1 <= a * b <= 0x100_0000 * 0x100_0000) by (nonlinear_arith)
        requires
            1 <= a <= 0x100_0000,
            1 <= b <= 0x100_0000,
    ;
}

/// Column and row of group `index` lie in the grid.
proof fn lemma_place(image: ImageHeader, index: int)
    requires
        image.width > 0,
        image.height > 0,
        0 <= index < grid_count(image),
    ensures
        0 <= index % group_axis(image.width) < group_axis(image.width),
        0 <= index / group_axis(image.width) < group_axis(image.height),
{
    lemma_grid(image);
    let a = group_axis(image.width);
    let b = group_axis(image.height);
    vstd::arithmetic::div_mod::lemma_fundamental_div_mod(index, a);
    vstd::arithmetic::div_mod::lemma_mod_bound(index, a);
    vstd::arithmetic::div_mod::lemma_div_pos_is_pos(index, a);
    assert(index / a < b) by (nonlinear_arith)
        requires
            index == a * (index / a) + index % a,
            0 <= index % a,
            index < a * b,
            a > 0,
    ;
}

/// The first section of a kind from section `from` on.
pub open spec fn first_of(sections: Seq<FrameSection>, kind: FrameSectionKind, from: int) -> Option<
    int,
>
    decreases sections.len() - from,
{
    if from < 0 || from >= sections.len() {
        None
    } else if sections[from].kind == kind {
        Some(from)
    } else {
        first_of(sections, kind, from + 1)
    }
}

/// Finds the first section of a kind.
pub fn find_section(sections: &Vec<FrameSection>, kind: FrameSectionKind) -> (r: Option<usize>)
    ensures
        match first_of(sections@, kind, 0) {
            Some(i) => r matches Some(j) && j == i && j < sections@.len(),
            None => r is None,
        },
{
    let mut i: usize = 0;
    while i < sections.len()
        invariant
            i <= sections@.len(),
            first_of(sections@, kind, 0) == first_of(sections@, kind, i as int),
        decreases sections@.len() - i,
    {
        if sections[i].kind == kind {
            return Some(i);
        }
        i = i + 1;
    }
    None
}

/// Why a section besides the groups' own is outside the profile.
pub open spec fn other_refusal(data: Seq<u8>, section: FrameSection) -> Option<ProfileError> {
    match section.kind {
        FrameSectionKind::LowFrequencyGroup { .. } | FrameSectionKind::HighFrequencyGlobal => match
            section.bits.spec_end() {
            None => Some(ProfileError::Unsupported("Modular section bit range overflow")),
            Some(end) => if end > bit_count(data) {
                Some(ProfileError::Bits(BitError::UnexpectedEndOfBits))
            } else if !zero_bits(data, section.bits.offset as int, end as int) {
                Some(
                    ProfileError::Unsupported(
                        "the lossless Modular profile requires empty LF-group and HF-global sections",
                    ),
                )
            } else {
                None
            },
        },
        FrameSectionKind::PassGroup { pass_index, .. } => if pass_index != 0 {
            Some(ProfileError::MultiplePasses)
        } else {
            None
        },
        _ => None,
    }
}

/// The first refusal of the first `n` sections.
pub open spec fn others_refusal(data: Seq<u8>, sections: Seq<FrameSection>, n: int) -> Option<
    ProfileError,
>
    decreases n,
{
    if n <= 0 {
        None
    } else {
        match others_refusal(data, sections, n - 1) {
            Some(error) => Some(error),
            None => other_refusal(data, sections[n - 1]),
        }
    }
}

/// A refusal among the first sections is one of all.
proof fn lemma_others_refused(data: Seq<u8>, sections: Seq<FrameSection>, n: int, all: int)
    requires
        0 <= n <= all,
        others_refusal(data, sections, n) is Some,
    ensures
        others_refusal(data, sections, all) == others_refusal(data, sections, n),
    decreases all - n,
{
    if n < all {
        lemma_others_refused(data, sections, n, all - 1);
    }
}

/// Refuses sections that hold more than the one pass of a lossless frame.
pub fn validate_empty_non_pass_sections(codestream: &[u8], sections: &Vec<FrameSection>) -> (r:
    Result<(), ProfileError>)
    requires
        codestream@.len() * 8 <= u64::MAX,
    ensures
        match others_refusal(codestream@, sections@, sections@.len() as int) {
            Some(error) => r == Err::<(), ProfileError>(error),
            None => r is Ok,
        },
{
    let mut i: usize = 0;
    while i < sections.len()
        invariant
            i <= sections@.len(),
            codestream@.len() * 8 <= u64::MAX,
            others_refusal(codestream@, sections@, i as int) is None,
        decreases sections@.len() - i,
    {
        proof {
            if others_refusal(codestream@, sections@, i + 1) is Some {
                lemma_others_refused(codestream@, sections@, i + 1, sections@.len() as int);
            }
        }
        let section = sections[i];
        match section.kind {
            FrameSectionKind::LowFrequencyGroup { .. } | FrameSectionKind::HighFrequencyGlobal => {
                let end: u64 = match section.bits.end() {
                    Some(end) => end,
                    None => {
                        return Err(ProfileError::Unsupported("Modular section bit range overflow"));
                    },
                };
                match bits_are_zero(codestream, section.bits.offset, end) {
                    Ok(zero) => {
                        if !zero {
                            return Err(
                                ProfileError::Unsupported(
                                    "the lossless Modular profile requires empty LF-group and HF-global sections",
                                ),
                            );
                        }
                    },
                    Err(error) => {
                        return Err(ProfileError::Bits(error));
                    },
                }
            },
            FrameSectionKind::PassGroup { pass_index, .. } => {
                if pass_index != 0 {
                    return Err(ProfileError::MultiplePasses);
                }
            },
            _ => {},
        }
        i = i + 1;
    }
    Ok(())
}

/// The group that a section codes.
pub open spec fn group_index(section: FrameSection) -> Option<u64> {
    match section.kind {
        FrameSectionKind::PassGroup { pass_index, group_index } => if pass_index == 0 {
            Some(group_index)
        } else {
            None
        },
        _ => None,
    }
}

/// What every group starts with.
pub open spec fn group_fields() -> Seq<Field> {
    seq![
        Field { bits: 1, value: 1, name: "LF-global Modular tree" },
        Field { bits: 1, value: 1, name: "default weighted predictor" },
        Field { bits: 2, value: 0, name: "no local Modular transforms" },
    ]
}

/// Index of a group's entropy stream.
pub open spec fn stream_of(frame: FrameInventory, index: u64) -> int {
    18 + 3 * frame.low_frequency_group_count + index
}

/// The header of a group's section, and where its tokens start.
pub open spec fn group_header(data: Seq<u8>, section: FrameSection) -> Result<int, ProfileError> {
    match passed(data, 0, section.bits.offset as int) {
        Err(error) => Err(error),
        Ok(at) => fields(data, at, group_fields()),
    }
}

/// Why a group's section is outside the profile, wherever it stands.
pub open spec fn group_refusal(data: Seq<u8>, frame: FrameInventory, section: FrameSection, index: u64) -> Option<
    ProfileError,
> {
    match group_header(data, section) {
        Err(error) => Some(error),
        Ok(_) => if section.bits.spec_end() is None {
            Some(ProfileError::Unsupported("Modular pass-group bit range overflow"))
        } else if stream_of(frame, index) > u64::MAX {
            Some(ProfileError::Unsupported("Modular stream index overflow"))
        } else if stream_of(frame, index) > u32::MAX {
            Some(ProfileError::Unsupported("Modular stream index exceeds u32"))
        } else {
            None
        },
    }
}

/// Samples of a group along one axis.
pub open spec fn group_side(extent: u32, origin: int) -> int {
    if extent - origin < 256 {
        extent - origin
    } else {
        256
    }
}

/// The group that a section codes.
pub open spec fn group_of(
    data: Seq<u8>,
    image: ImageHeader,
    frame: FrameInventory,
    section: FrameSection,
    index: u64,
) -> ModularGroup {
    let x = index as int % group_axis(image.width) * 256;
    let y = index as int / group_axis(image.width) * 256;
    ModularGroup {
        token_bit_offset: group_header(data, section)->Ok_0 as u64,
        token_bit_end: section.bits.spec_end()->0,
        x: x as u32,
        y: y as u32,
        width: group_side(image.width, x) as u32,
        height: group_side(image.height, y) as u32,
        stream_index: stream_of(frame, index) as u32,
    }
}

/// No side of a group is longer than that of a full one.
pub proof fn lemma_group_sides(
    data: Seq<u8>,
    image: ImageHeader,
    frame: FrameInventory,
    section: FrameSection,
    index: u64,
)
    requires
        image.width > 0,
        image.height > 0,
        index < grid_count(image),
    ensures
        group_of(data, image, frame, section, index).width <= 256,
        group_of(data, image, frame, section, index).height <= 256,
{
    lemma_grid(image);
    lemma_place(image, index as int);
}

/// Reads the header of a group's section.
fn read_group(
    codestream: &[u8],
    image: &ImageHeader,
    frame: &FrameInventory,
    section: FrameSection,
    index: u64,
    group_columns: u32,
) -> (r: Result<ModularGroup, ProfileError>)
    requires
        codestream@.len() * 8 <= u64::MAX,
        image.width > 0,
        image.height > 0,
        group_columns == group_axis(image.width),
        index < grid_count(*image),
    ensures
        match group_refusal(codestream@, *frame, section, index) {
            Some(error) => r == Err::<ModularGroup, ProfileError>(error),
            None => r == Ok::<ModularGroup, ProfileError>(
                group_of(codestream@, *image, *frame, section, index),
            ),
        },
{
    let mut reader = BitReader::new(codestream);
    match reader.skip_bits(section.bits.offset) {
        Ok(_) => {},
        Err(error) => {
            return Err(ProfileError::Bits(error));
        },
    }
    let list = vec![
        Field { bits: 1, value: 1, name: "LF-global Modular tree" },
        Field { bits: 1, value: 1, name: "default weighted predictor" },
        Field { bits: 2, value: 0, name: "no local Modular transforms" },
    ];
    assert(list@ =~= group_fields());
    match expect_all(&mut reader, list.as_slice()) {
        Ok(_) => {},
        Err(error) => {
            return Err(error);
        },
    }
    proof {
        lemma_grid(*image);
        lemma_place(*image, index as int);
    }
    let x: u32 = (index % group_columns as u64) as u32 * GROUP_DIMENSION;
    let y: u32 = (index / group_columns as u64) as u32 * GROUP_DIMENSION;
    let token_bit_end: u64 = match section.bits.end() {
        Some(end) => end,
        None => {
            return Err(ProfileError::Unsupported("Modular pass-group bit range overflow"));
        },
    };
    let before: Option<u64> = match frame.low_frequency_group_count.checked_mul(3) {
        Some(groups) => groups.checked_add(18),
        None => None,
    };
    let stream: Option<u64> = match before {
        Some(before) => before.checked_add(index),
        None => None,
    };
    let stream: u64 = match stream {
        Some(stream) => stream,
        None => {
            return Err(ProfileError::Unsupported("Modular stream index overflow"));
        },
    };
    if stream > u32::MAX as u64 {
        return Err(ProfileError::Unsupported("Modular stream index exceeds u32"));
    }
    let right: u32 = image.width - x;
    let below: u32 = image.height - y;
    Ok(
        ModularGroup {
            token_bit_offset: reader.bit_offset(),
            token_bit_end,
            x,
            y,
            width: if right < GROUP_DIMENSION {
                right
            } else {
                GROUP_DIMENSION
            },
            height: if below < GROUP_DIMENSION {
                below
            } else {
                GROUP_DIMENSION
            },
            stream_index: stream as u32,
        },
    )
}

/// One of the first `n` sections codes group `index`.
pub open spec fn coded_before(sections: Seq<FrameSection>, n: int, index: u64) -> bool {
    exists|j: int| 0 <= j < n && group_index(#[trigger] sections[j]) == Some(index)
}

/// Why section `i` cannot follow the sections in front of it.
pub open spec fn section_refusal(
    data: Seq<u8>,
    image: ImageHeader,
    frame: FrameInventory,
    i: int,
) -> Option<ProfileError> {
    match group_index(frame.sections@[i]) {
        None => None,
        Some(index) => if index > usize::MAX {
            Some(
                ProfileError::Unsupported("Modular group index exceeds host address space"),
            )
        } else if index >= grid_count(image) {
            Some(ProfileError::Unsupported("Modular pass-group index exceeds the frame grid"))
        } else if coded_before(frame.sections@, i, index) {
            Some(
                ProfileError::Unsupported(
                    "the Modular frame contains a duplicate pass-group section",
                ),
            )
        } else {
            group_refusal(data, frame, frame.sections@[i], index)
        },
    }
}

/// The first refusal of the first `n` sections.
pub open spec fn sections_refusal(
    data: Seq<u8>,
    image: ImageHeader,
    frame: FrameInventory,
    n: int,
) -> Option<ProfileError>
    decreases n,
{
    if n <= 0 {
        None
    } else {
        match sections_refusal(data, image, frame, n - 1) {
            Some(error) => Some(error),
            None => section_refusal(data, image, frame, n - 1),
        }
    }
}

/// A refusal among the first sections is one of all.
proof fn lemma_sections_refused(
    data: Seq<u8>,
    image: ImageHeader,
    frame: FrameInventory,
    n: int,
    all: int,
)
    requires
        0 <= n <= all,
        sections_refusal(data, image, frame, n) is Some,
    ensures
        sections_refusal(data, image, frame, all) == sections_refusal(data, image, frame, n),
    decreases all - n,
{
    if n < all {
        lemma_sections_refused(data, image, frame, n, all - 1);
    }
}

/// The first group from `from` on that no section codes.
pub open spec fn first_missing(sections: Seq<FrameSection>, count: int, from: int) -> Option<int>
    decreases count - from,
{
    if from < 0 || from >= count {
        None
    } else if !coded_before(sections, sections.len() as int, from as u64) {
        Some(from)
    } else {
        first_missing(sections, count, from + 1)
    }
}

/// Why the groups of a frame cannot be collected.
pub open spec fn collect_refusal(data: Seq<u8>, image: ImageHeader, frame: FrameInventory) -> Option<
    ProfileError,
> {
    match others_refusal(data, frame.sections@, frame.sections@.len() as int) {
        Some(error) => Some(error),
        None => if grid_count(image) > usize::MAX {
            Some(
                ProfileError::Unsupported("Modular group count exceeds host address space"),
            )
        } else {
            match sections_refusal(data, image, frame, frame.sections@.len() as int) {
                Some(error) => Some(error),
                None => match first_missing(frame.sections@, grid_count(image), 0) {
                    Some(index) => Some(ProfileError::MissingPassGroup { index: index as usize }),
                    None => None,
                },
            }
        },
    }
}

/// There is one group for each place of the grid, the one that its section codes.
pub open spec fn collected(
    data: Seq<u8>,
    image: ImageHeader,
    frame: FrameInventory,
    groups: Seq<ModularGroup>,
) -> bool {
    &&& groups.len() == grid_count(image)
    &&& forall|g: int|
        0 <= g < groups.len() ==> coded_before(
            frame.sections@,
            frame.sections@.len() as int,
            #[trigger] (g as u64),
        )
    &&& forall|i: int|
        0 <= i < frame.sections@.len() ==> (group_index(#[trigger] frame.sections@[i]) matches Some(
            index,
        ) ==> index < groups.len() && groups[index as int] == group_of(
            data,
            image,
            frame,
            frame.sections@[i],
            index,
        ))
}

/// What the first `n` sections filled.
spec fn filled(
    data: Seq<u8>,
    image: ImageHeader,
    frame: FrameInventory,
    slots: Seq<Option<ModularGroup>>,
    n: int,
) -> bool {
    &&& slots.len() == grid_count(image)
    &&& forall|g: int|
        0 <= g < slots.len() ==> ((#[trigger] slots[g]) is Some <==> coded_before(
            frame.sections@,
            n,
            g as u64,
        ))
    &&& forall|i: int|
        0 <= i < n ==> (group_index(#[trigger] frame.sections@[i]) matches Some(index) ==> index
            < slots.len() && slots[index as int] == Some(
            group_of(data, image, frame, frame.sections@[i], index),
        ))
}

/// Takes the group of each section of a pass.
fn fill(codestream: &[u8], image: &ImageHeader, frame: &FrameInventory, group_columns: u32, count: usize) -> (r:
    Result<Vec<Option<ModularGroup>>, ProfileError>)
    requires
        codestream@.len() * 8 <= u64::MAX,
        image.width > 0,
        image.height > 0,
        group_columns == group_axis(image.width),
        count == grid_count(*image),
    ensures
        match sections_refusal(codestream@, *image, *frame, frame.sections@.len() as int) {
            Some(error) => r == Err::<Vec<Option<ModularGroup>>, ProfileError>(error),
            None => r matches Ok(slots) && filled(
                codestream@,
                *image,
                *frame,
                slots@,
                frame.sections@.len() as int,
            ),
        },
{
    let mut slots: Vec<Option<ModularGroup>> = Vec::new();
    while slots.len() < count
        invariant
            slots@.len() <= count,
            forall|g: int| 0 <= g < slots@.len() ==> (#[trigger] slots@[g]) is None,
        decreases count - slots@.len(),
    {
        slots.push(None);
    }
    let mut i: usize = 0;
    while i < frame.sections.len()
        invariant
            i <= frame.sections@.len(),
            codestream@.len() * 8 <= u64::MAX,
            image.width > 0,
            image.height > 0,
            group_columns == group_axis(image.width),
            count == grid_count(*image),
            filled(codestream@, *image, *frame, slots@, i as int),
            sections_refusal(codestream@, *image, *frame, i as int) is None,
        decreases frame.sections@.len() - i,
    {
        let ghost all = frame.sections@.len() as int;
        proof {
            if sections_refusal(codestream@, *image, *frame, i + 1) is Some {
                lemma_sections_refused(codestream@, *image, *frame, i + 1, all);
            }
        }
        let section = frame.sections[i];
        let coded: Option<u64> = match section.kind {
            FrameSectionKind::PassGroup { pass_index, group_index } => if pass_index == 0 {
                Some(group_index)
            } else {
                None
            },
            _ => None,
        };
        assert(coded == group_index(frame.sections@[i as int]));
        match coded {
            None => {
                proof {
                    assert forall|g: int| 0 <= g < slots@.len() implies ((#[trigger] slots@[g])
                        is Some <==> coded_before(frame.sections@, i + 1, g as u64)) by {
                        assert(coded_before(frame.sections@, i as int, g as u64)
                            == coded_before(frame.sections@, i + 1, g as u64));
                    }
                }
            },
            Some(index) => {
                if index > usize::MAX as u64 {
                    return Err(
                        ProfileError::Unsupported("Modular group index exceeds host address space"),
                    );
                }
                if index as usize >= slots.len() {
                    return Err(
                        ProfileError::Unsupported("Modular pass-group index exceeds the frame grid"),
                    );
                }
                assert(slots@[index as int] is Some <==> coded_before(
                    frame.sections@,
                    i as int,
                    index,
                ));
                if slots[index as usize].is_some() {
                    return Err(
                        ProfileError::Unsupported(
                            "the Modular frame contains a duplicate pass-group section",
                        ),
                    );
                }
                let group = match read_group(
                    codestream,
                    image,
                    frame,
                    section,
                    index,
                    group_columns,
                ) {
                    Ok(group) => group,
                    Err(error) => {
                        return Err(error);
                    },
                };
                let ghost before = slots@;
                slots.set(index as usize, Some(group));
                proof {
                    assert forall|g: int| 0 <= g < slots@.len() implies ((#[trigger] slots@[g])
                        is Some <==> coded_before(frame.sections@, i + 1, g as u64)) by {
                        assert(before[g] is Some <==> coded_before(
                            frame.sections@,
                            i as int,
                            g as u64,
                        ));
                        if g == index {
                            assert(group_index(frame.sections@[i as int]) == Some(g as u64));
                        }
                        if before[g] is Some {
                            let j = choose|j: int|
                                0 <= j < i && group_index(#[trigger] frame.sections@[j]) == Some(
                                    g as u64,
                                );
                            assert(group_index(frame.sections@[j]) == Some(g as u64));
                        }
                    }
                    assert forall|k: int| 0 <= k < i + 1 implies (group_index(
                        #[trigger] frame.sections@[k],
                    ) matches Some(other) ==> other < slots@.len() && slots@[other as int] == Some(
                        group_of(codestream@, *image, *frame, frame.sections@[k], other),
                    )) by {
                        if k < i && group_index(frame.sections@[k]) == Some(index) {
                            assert(coded_before(frame.sections@, i as int, index));
                        }
                    }
                }
            },
        }
        i = i + 1;
    }
    Ok(slots)
}

/// Every slot from `from` on is taken, or the first that is not is the error.
fn unwrap_slots(slots: &Vec<Option<ModularGroup>>, sections: Ghost<Seq<FrameSection>>) -> (r: Result<
    Vec<ModularGroup>,
    ProfileError,
>)
    requires
        slots@.len() <= u64::MAX,
        forall|g: int|
            0 <= g < slots@.len() ==> ((#[trigger] slots@[g]) is Some <==> coded_before(
                sections@,
                sections@.len() as int,
                g as u64,
            )),
    ensures
        match first_missing(sections@, slots@.len() as int, 0) {
            Some(index) => r == Err::<Vec<ModularGroup>, ProfileError>(
                ProfileError::MissingPassGroup { index: index as usize },
            ),
            None => r matches Ok(groups) && groups@.len() == slots@.len() && forall|g: int|
                0 <= g < groups@.len() ==> slots@[g] == Some(#[trigger] groups@[g]),
        },
{
    let mut groups: Vec<ModularGroup> = Vec::new();
    while groups.len() < slots.len()
        invariant
            groups@.len() <= slots@.len() <= u64::MAX,
            forall|g: int|
                0 <= g < slots@.len() ==> ((#[trigger] slots@[g]) is Some <==> coded_before(
                    sections@,
                    sections@.len() as int,
                    g as u64,
                )),
            forall|g: int|
                0 <= g < groups@.len() ==> slots@[g] == Some(#[trigger] groups@[g]),
            first_missing(sections@, slots@.len() as int, 0) == first_missing(
                sections@,
                slots@.len() as int,
                groups@.len() as int,
            ),
        decreases slots@.len() - groups@.len(),
    {
        let index: usize = groups.len();
        match slots[index] {
            Some(group) => {
                groups.push(group);
            },
            None => {
                return Err(ProfileError::MissingPassGroup { index });
            },
        }
    }
    Ok(groups)
}

/// Collects the groups of a frame with more than one.
pub fn collect_groups(codestream: &[u8], image: &ImageHeader, frame: &FrameInventory) -> (r: Result<
    Vec<ModularGroup>,
    ProfileError,
>)
    requires
        codestream@.len() * 8 <= u64::MAX,
        image.width > 0,
        image.height > 0,
    ensures
        match collect_refusal(codestream@, *image, *frame) {
            Some(error) => r == Err::<Vec<ModularGroup>, ProfileError>(error),
            None => r matches Ok(groups) && collected(codestream@, *image, *frame, groups@),
        },
{
    proof {
        lemma_grid(*image);
    }
    match validate_empty_non_pass_sections(codestream, &frame.sections) {
        Ok(_) => {},
        Err(error) => {
            return Err(error);
        },
    }
    let group_columns: u32 = div_ceil_u32(image.width, GROUP_DIMENSION);
    let group_rows: u32 = div_ceil_u32(image.height, GROUP_DIMENSION);
    let count: u64 = group_columns as u64 * group_rows as u64;
    if count > usize::MAX as u64 {
        return Err(ProfileError::Unsupported("Modular group count exceeds host address space"));
    }
    let slots = match fill(codestream, image, frame, group_columns, count as usize) {
        Ok(slots) => slots,
        Err(error) => {
            return Err(error);
        },
    };
    let r = unwrap_slots(&slots, Ghost(frame.sections@));
    proof {
        if r is Ok {
            let groups = (r->Ok_0)@;
            assert forall|g: int| 0 <= g < groups.len() implies coded_before(
                frame.sections@,
                frame.sections@.len() as int,
                #[trigger] (g as u64),
            ) by {
                assert(slots@[g] == Some(groups[g]));
            }
            assert forall|i: int| 0 <= i < frame.sections@.len() implies (group_index(
                #[trigger] frame.sections@[i],
            ) matches Some(index) ==> index < groups.len() && groups[index as int] == group_of(
                codestream@,
                *image,
                *frame,
                frame.sections@[i],
                index,
            )) by {
                if let Some(index) = group_index(frame.sections@[i]) {
                    assert(slots@[index as int] == Some(groups[index as int]));
                }
            }
        }
    }
    r
}

/// No section of an accepted frame is refused on its own.
proof fn lemma_accepted(data: Seq<u8>, image: ImageHeader, frame: FrameInventory, n: int, i: int)
    requires
        0 <= i < n,
        sections_refusal(data, image, frame, n) is None,
    ensures
        section_refusal(data, image, frame, i) is None,
    decreases n,
{
    if i < n - 1 {
        lemma_accepted(data, image, frame, n - 1, i);
    }
}

/// Two collections of the same sections are the same: each group is determined.
pub proof fn law_groups_determined(
    data: Seq<u8>,
    image: ImageHeader,
    frame: FrameInventory,
    a: Seq<ModularGroup>,
    b: Seq<ModularGroup>,
)
    requires
        grid_count(image) <= u64::MAX,
        collected(data, image, frame, a),
        collected(data, image, frame, b),
    ensures
        a == b,
{
    assert forall|g: int| 0 <= g < a.len() implies a[g] == b[g] by {
        assert(coded_before(frame.sections@, frame.sections@.len() as int, g as u64));
        let j = choose|j: int|
            0 <= j < frame.sections@.len() && group_index(#[trigger] frame.sections@[j]) == Some(
                g as u64,
            );
        assert(group_index(frame.sections@[j]) == Some(g as u64));
    }
    assert(a =~= b);
}

/// The groups of an image tile it: every sample lies in the group of its own place, and only
/// there.
pub proof fn law_groups_tile(
    data: Seq<u8>,
    image: ImageHeader,
    frame: FrameInventory,
    groups: Seq<ModularGroup>,
    x: int,
    y: int,
    g: int,
)
    requires
        image.width > 0,
        image.height > 0,
        collected(data, image, frame, groups),
        0 <= x < image.width,
        0 <= y < image.height,
        0 <= g < groups.len(),
    ensures
        (groups[g].x <= x < groups[g].x + groups[g].width && groups[g].y <= y < groups[g].y
            + groups[g].height) <==> g == y / 256 * group_axis(image.width) + x / 256,
{
    lemma_grid(image);
    lemma_place(image, g);
    let a = group_axis(image.width);
    assert(coded_before(frame.sections@, frame.sections@.len() as int, g as u64));
    let j = choose|j: int|
        0 <= j < frame.sections@.len() && group_index(#[trigger] frame.sections@[j]) == Some(
            g as u64,
        );
    assert(group_index(frame.sections@[j]) == Some(g as u64));
    let column = g % a;
    let row = g / a;
    vstd::arithmetic::div_mod::lemma_fundamental_div_mod(g, a);
    let within = groups[g].x <= x < groups[g].x + groups[g].width && groups[g].y <= y < groups[g].y
        + groups[g].height;
    assert(within <==> column == x / 256 && row == y / 256);
    if g == y / 256 * a + x / 256 {
        assert(x / 256 < a);
        vstd::arithmetic::div_mod::lemma_fundamental_div_mod_converse(g, a, y / 256, x / 256);
    }
    if within {
        assert(a * row == row * a) by (nonlinear_arith);
    }
}

/// An accepted group header is four bits long: two of them set, then two clear.
proof fn lemma_group_header(data: Seq<u8>, section: FrameSection)
    requires
        group_header(data, section) is Ok,
    ensures
        group_header(data, section)->Ok_0 == section.bits.offset + 4,
        section.bits.offset + 4 <= bit_count(data),
        bit_at(data, section.bits.offset as int) == 1,
        bit_at(data, section.bits.offset + 1) == 1,
        bit_at(data, section.bits.offset + 2) == 0,
        bit_at(data, section.bits.offset + 3) == 0,
{
    let at = section.bits.offset as int;
    let list = group_fields();
    assert(list.skip(1)[0] == list[1]);
    assert(list.skip(1).skip(1)[0] == list[2]);
    assert(list.skip(1).skip(1).skip(1).len() == 0);
    reveal_with_fuel(fields, 4);
    reveal_with_fuel(bits_value, 3);
    vstd::arithmetic::power2::lemma2_to64();
    assert(field(data, at, list[0]) == Ok::<int, ProfileError>(at + 1));
    assert(field(data, at + 1, list[1]) == Ok::<int, ProfileError>(at + 2));
    assert(field(data, at + 2, list[2]) == Ok::<int, ProfileError>(at + 4));
    let third = bit_at(data, at + 2);
    let fourth = bit_at(data, at + 3);
    assert(bits_value(data, at + 2, 2) == third + fourth * 2);
}

/// The stream of pass group `g` is numbered by the streams in front of it: the global one, three
/// of each LF group, seventeen of raw dequantization tables and those of the `g` earlier groups.
/// Two groups of a frame are as many streams apart as they are groups apart.
pub proof fn law_group_streams(
    codestream: &[u8],
    image: &ImageHeader,
    frame: &FrameInventory,
    groups: Vec<ModularGroup>,
    g: int,
)
    requires
        image.width > 0,
        image.height > 0,
        call_ensures(
            collect_groups,
            (codestream, image, frame),
            Ok::<Vec<ModularGroup>, ProfileError>(groups),
        ),
        0 <= g < groups@.len(),
    ensures
        groups@[g].stream_index == {
            let lf = frame.low_frequency_group_count as int;
            1 + (lf + lf + lf) + 17 + g
        },
        forall|h: int|
            0 <= h < groups@.len() ==> (#[trigger] groups@[h]).stream_index - groups@[g].stream_index
                == h - g,
{
    lemma_grid(*image);
    assert forall|h: int| 0 <= h < groups@.len() implies (#[trigger] groups@[h]).stream_index == 18
        + 3 * frame.low_frequency_group_count + h by {
        assert(coded_before(frame.sections@, frame.sections@.len() as int, h as u64));
        let j = choose|j: int|
            0 <= j < frame.sections@.len() && group_index(#[trigger] frame.sections@[j]) == Some(
                h as u64,
            );
        assert(group_index(frame.sections@[j]) == Some(h as u64));
        lemma_accepted(codestream@, *image, *frame, frame.sections@.len() as int, j);
    }
}

/// Each group is coded by a section of the first pass with its number: behind four bits of that
/// section, two of them set and two clear, its tokens start, and they end with the section.
pub proof fn law_group_tokens(
    codestream: &[u8],
    image: &ImageHeader,
    frame: &FrameInventory,
    groups: Vec<ModularGroup>,
    g: int,
)
    requires
        codestream@.len() * 8 <= u64::MAX,
        image.width > 0,
        image.height > 0,
        call_ensures(
            collect_groups,
            (codestream, image, frame),
            Ok::<Vec<ModularGroup>, ProfileError>(groups),
        ),
        0 <= g < groups@.len(),
    ensures
        exists|j: int|
            0 <= j < frame.sections@.len() && {
                let section = #[trigger] frame.sections@[j];
                &&& section.kind matches FrameSectionKind::PassGroup { pass_index, group_index }
                &&& pass_index == 0
                &&& group_index == g
                &&& groups@[g].token_bit_offset == section.bits.offset + 4
                &&& groups@[g].token_bit_end == section.bits.offset + section.bits.length
                &&& bit_at(codestream@, section.bits.offset as int) == 1
                &&& bit_at(codestream@, section.bits.offset + 1) == 1
                &&& bit_at(codestream@, section.bits.offset + 2) == 0
                &&& bit_at(codestream@, section.bits.offset + 3) == 0
            },
{
    lemma_grid(*image);
    assert(coded_before(frame.sections@, frame.sections@.len() as int, g as u64));
    let j = choose|j: int|
        0 <= j < frame.sections@.len() && group_index(#[trigger] frame.sections@[j]) == Some(
            g as u64,
        );
    assert(group_index(frame.sections@[j]) == Some(g as u64));
    lemma_accepted(codestream@, *image, *frame, frame.sections@.len() as int, j);
    lemma_group_header(codestream@, frame.sections@[j]);
}

/// Besides its groups, a frame of the profile holds nothing: its sections of LF groups and of
/// HF-global lie in the codestream and hold no set bit, and its groups are coded in one pass.
pub proof fn law_other_sections(
    codestream: &[u8],
    sections: &Vec<FrameSection>,
    r: Result<(), ProfileError>,
)
    requires
        codestream@.len() * 8 <= u64::MAX,
        call_ensures(validate_empty_non_pass_sections, (codestream, sections), r),
    ensures
        r is Ok <==> forall|i: int|
            0 <= i < sections@.len() ==> section_allowed(codestream@, #[trigger] sections@[i]),
{
    lemma_others(codestream@, sections@, sections@.len() as int);
}

/// A section that the profile allows besides its groups.
pub open spec fn section_allowed(data: Seq<u8>, section: FrameSection) -> bool {
    let end = section.bits.offset + section.bits.length;
    match section.kind {
        FrameSectionKind::LowFrequencyGroup { .. } | FrameSectionKind::HighFrequencyGlobal => {
            &&& end <= 8 * data.len()
            &&& end <= u64::MAX
            &&& zero_bits(data, section.bits.offset as int, end)
        },
        FrameSectionKind::PassGroup { pass_index, .. } => pass_index == 0,
        _ => true,
    }
}

/// Nothing is refused exactly where every section is allowed.
proof fn lemma_others(data: Seq<u8>, sections: Seq<FrameSection>, n: int)
    requires
        0 <= n <= sections.len(),
    ensures
        others_refusal(data, sections, n) is None <==> forall|i: int|
            0 <= i < n ==> section_allowed(data, #[trigger] sections[i]),
    decreases n,
{
    if n > 0 {
        lemma_others(data, sections, n - 1);
        assert(other_refusal(data, sections[n - 1]) is None <==> section_allowed(
            data,
            sections[n - 1],
        ));
    }
}

} // verus!
