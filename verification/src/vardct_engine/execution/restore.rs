//! Restoration of JPEG integers directly from the validated decoder's resident artifacts.

use crate::arith::{ceil_div, div_ceil_u32, lemma_ceil_div};
use crate::vardct_engine::execution::raw_matrix::broken;
use crate::vardct_engine::jpeg::{JpegCoefficientLayout, PlaneView};
use crate::vardct_engine::source::check_limit;
use crate::vardct_engine::types::VarDctDecodeError;
use crate::vardct_frontend::VarDctChannelShift;
use vstd::prelude::*;

verus! {

/// One LF group as its artifacts are restored from.
#[derive(Clone, Copy, Debug, PartialEq, Eq)]
pub struct RestoreGroup {
    /// Geometry of the LF image of each channel.
    pub lf: [[u32; 4]; 3],
    pub x: u32,
    pub y: u32,
    pub blocks: [u32; 2],
    pub task_metadata_offset_words: u32,
    pub status_offset_words: u32,
    pub task_capacity: u32,
    pub coefficient_words: u32,
    pub extra_precision: u8,
}

/// One dispatch and the words of its parameters.
#[derive(Debug)]
pub struct RestoreDispatch {
    pub words: Vec<u32>,
    pub columns: u32,
    pub rows: u32,
}

/// Where the coefficients of channel `c` go, as the last of the first `n` planes says.
pub open spec fn channel_output(planes: Seq<PlaneView>, c: int, n: int) -> Seq<u32>
    decreases n,
{
    if n <= 0 {
        seq![u32::MAX, 0u32, 0u32, 0u32]
    } else if planes[n - 1].channel == c {
        seq![
            planes[n - 1].offset as u32,
            planes[n - 1].columns as u32,
            planes[n - 1].rows as u32,
            planes[n - 1].quantization as u32,
        ]
    } else {
        channel_output(planes, c, n - 1)
    }
}

/// Where the coefficients of every channel go.
pub open spec fn all_outputs(planes: Seq<PlaneView>, n: int) -> Seq<u32> {
    channel_output(planes, 0, n) + channel_output(planes, 1, n) + channel_output(planes, 2, n)
}

/// Every channel takes four words.
pub(crate) proof fn lemma_output_words(planes: Seq<PlaneView>, c: int, n: int)
    ensures
        channel_output(planes, c, n).len() == 4,
    decreases n,
{
    if n > 0 {
        lemma_output_words(planes, c, n - 1);
    }
}

/// Columns of a group's dispatch.
pub open spec fn restore_columns(group: RestoreGroup, most: u32) -> u32 {
    if group.task_capacity < most {
        group.task_capacity
    } else {
        most
    }
}

/// Why group `i` or one behind it cannot be dispatched.
pub open spec fn restore_refusal(groups: Seq<RestoreGroup>, most: u32, i: int) -> Option<
    VarDctDecodeError,
>
    decreases groups.len() - i,
{
    if i < 0 || i >= groups.len() {
        None
    } else {
        let columns = restore_columns(groups[i], most);
        let rows = ceil_div(groups[i].task_capacity as int, columns as int);
        if columns == 0 {
            Some(broken("empty JPEG restoration dispatch"))
        } else if rows > most {
            Some(
                VarDctDecodeError::DeviceLimit {
                    resource: "JPEG restoration dispatch rows",
                    required: rows as u64,
                    available: most as u64,
                },
            )
        } else {
            restore_refusal(groups, most, i + 1)
        }
    }
}

/// A flag as a word.
pub open spec fn flag(set: bool) -> u32 {
    if set {
        1
    } else {
        0
    }
}

/// The shift of a channel as four words.
pub open spec fn shift_words(shift: VarDctChannelShift) -> Seq<u32> {
    seq![shift.horizontal, shift.vertical, 0u32, 0u32]
}

/// The parameters of a group's dispatch.
pub open spec fn restore_words(
    group: RestoreGroup,
    planes: Seq<PlaneView>,
    shifts: [VarDctChannelShift; 3],
    rgb: bool,
    cfl: bool,
    columns: u32,
) -> Seq<u32> {
    group.lf@[0]@ + group.lf@[1]@ + group.lf@[2]@ + all_outputs(planes, planes.len() as int)
        + shift_words(shifts@[0]) + shift_words(shifts@[1]) + shift_words(shifts@[2]) + seq![
        (group.x / 8) as u32,
        (group.y / 8) as u32,
        group.blocks@[0],
        group.blocks@[1],
        group.task_metadata_offset_words,
        group.status_offset_words,
        group.task_capacity,
        group.coefficient_words,
        flag(rgb),
        flag(cfl),
        group.extra_precision as u32,
        columns,
    ]
}

/// Where the coefficients of every channel go.
fn collect_outputs(layout: &JpegCoefficientLayout) -> (outputs: Vec<u32>)
    ensures
        outputs@ == all_outputs(layout@.planes, layout@.planes.len() as int),
        outputs@.len() == 12,
{
    let planes = layout.planes();
    let ghost views = layout@.planes;
    let mut outputs: Vec<u32> = vec![
        u32::MAX, 0, 0, 0, u32::MAX, 0, 0, 0, u32::MAX, 0, 0, 0,
    ];
    assert(outputs@ =~= all_outputs(views, 0));
    let mut i: usize = 0;
    while i < planes.len()
        invariant
            planes@.map_values(|p: crate::vardct_engine::jpeg::JpegCoefficientPlane| p@) == views,
            views == layout@.planes,
            layout@.wf(),
            i <= planes@.len(),
            outputs@.len() == 12,
            outputs@ == all_outputs(views, i as int),
        decreases planes@.len() - i,
    {
        let plane = planes[i];
        assert(views[i as int] == plane@);
        assert(layout@.plane_wf(i as int));
        let at: usize = plane.channel as usize * 4;
        let ghost before = outputs@;
        outputs.set(at, plane.coefficient_word_offset);
        outputs.set(at + 1, plane.blocks_per_row);
        outputs.set(at + 2, plane.block_rows);
        outputs.set(at + 3, plane.quantization_word_offset);
        proof {
            let n = i + 1;
            lemma_output_words(views, 0, i as int);
            lemma_output_words(views, 1, i as int);
            lemma_output_words(views, 2, i as int);
            assert(before.subrange(0, 4) =~= channel_output(views, 0, i as int));
            assert(before.subrange(4, 8) =~= channel_output(views, 1, i as int));
            assert(before.subrange(8, 12) =~= channel_output(views, 2, i as int));
            assert(outputs@.subrange(0, 4) =~= channel_output(views, 0, n));
            assert(outputs@.subrange(4, 8) =~= channel_output(views, 1, n));
            assert(outputs@.subrange(8, 12) =~= channel_output(views, 2, n));
            assert(outputs@ =~= outputs@.subrange(0, 4) + outputs@.subrange(4, 8)
                + outputs@.subrange(8, 12));
        }
        i = i + 1;
    }
    outputs
}

/// Four words behind others.
fn put4(words: &mut Vec<u32>, four: [u32; 4])
    ensures
        final(words)@ == old(words)@ + four@,
{
    words.push(four[0]);
    words.push(four[1]);
    words.push(four[2]);
    words.push(four[3]);
    assert(words@ =~= old(words)@ + four@);
}

/// The parameters of a group's dispatch.
fn restore_params(
    group: &RestoreGroup,
    layout: &JpegCoefficientLayout,
    outputs: &Vec<u32>,
    shifts: [VarDctChannelShift; 3],
    columns: u32,
) -> (words: Vec<u32>)
    requires
        outputs@ == all_outputs(layout@.planes, layout@.planes.len() as int),
        outputs@.len() == 12,
    ensures
        words@ == restore_words(
            *group,
            layout@.planes,
            shifts,
            layout@.rgb,
            layout@.cfl,
            columns,
        ),
        words@.len() == 48,
{
    let mut words: Vec<u32> = Vec::new();
    put4(&mut words, group.lf[0]);
    put4(&mut words, group.lf[1]);
    put4(&mut words, group.lf[2]);
    put4(&mut words, [outputs[0], outputs[1], outputs[2], outputs[3]]);
    put4(&mut words, [outputs[4], outputs[5], outputs[6], outputs[7]]);
    put4(&mut words, [outputs[8], outputs[9], outputs[10], outputs[11]]);
    put4(&mut words, [shifts[0].horizontal, shifts[0].vertical, 0, 0]);
    put4(&mut words, [shifts[1].horizontal, shifts[1].vertical, 0, 0]);
    put4(&mut words, [shifts[2].horizontal, shifts[2].vertical, 0, 0]);
    put4(&mut words, [group.x / 8, group.y / 8, group.blocks[0], group.blocks[1]]);
    put4(
        &mut words,
        [
            group.task_metadata_offset_words,
            group.status_offset_words,
            group.task_capacity,
            group.coefficient_words,
        ],
    );
    let rgb: u32 = if layout.is_rgb() {
        1
    } else {
        0
    };
    let cfl: u32 = if layout.uses_cfl() {
        1
    } else {
        0
    };
    put4(&mut words, [rgb, cfl, group.extra_precision as u32, columns]);
    assert(words@ =~= restore_words(
        *group,
        layout@.planes,
        shifts,
        layout@.rgb,
        layout@.cfl,
        columns,
    ));
    words
}

/// The dispatches that restore the integers of every LF group, on a device that permits `most`
/// workgroups along each axis.
pub fn encode_restore(
    layout: &JpegCoefficientLayout,
    shifts: [VarDctChannelShift; 3],
    groups: &Vec<RestoreGroup>,
    most: u32,
) -> (r: Result<Vec<RestoreDispatch>, VarDctDecodeError>)
    ensures
        match restore_refusal(groups@, most, 0) {
            Some(error) => r == Err::<Vec<RestoreDispatch>, VarDctDecodeError>(error),
            None => r matches Ok(dispatches) && dispatches@.len() == groups@.len() && forall|i: int|
                0 <= i < dispatches@.len() ==> {
                    let columns = restore_columns(groups@[i], most);
                    &&& (#[trigger] dispatches@[i]).columns == columns
                    &&& dispatches@[i].rows == ceil_div(
                        groups@[i].task_capacity as int,
                        columns as int,
                    )
                    &&& dispatches@[i].words@ == restore_words(
                        groups@[i],
                        layout@.planes,
                        shifts,
                        layout@.rgb,
                        layout@.cfl,
                        columns,
                    )
                },
        },
{
    let outputs = collect_outputs(layout);
    let mut dispatches: Vec<RestoreDispatch> = Vec::new();
    let mut i: usize = 0;
    while i < groups.len()
        invariant
            i <= groups@.len(),
            outputs@ == all_outputs(layout@.planes, layout@.planes.len() as int),
            outputs@.len() == 12,
            dispatches@.len() == i,
            forall|k: int|
                0 <= k < i ==> {
                    let columns = restore_columns(groups@[k], most);
                    &&& (#[trigger] dispatches@[k]).columns == columns
                    &&& dispatches@[k].rows == ceil_div(
                        groups@[k].task_capacity as int,
                        columns as int,
                    )
                    &&& dispatches@[k].words@ == restore_words(
                        groups@[k],
                        layout@.planes,
                        shifts,
                        layout@.rgb,
                        layout@.cfl,
                        columns,
                    )
                },
            restore_refusal(groups@, most, 0) == restore_refusal(groups@, most, i as int),
        decreases groups@.len() - i,
    {
        let group = groups[i];
        let columns: u32 = if group.task_capacity < most {
            group.task_capacity
        } else {
            most
        };
        if columns == 0 {
            return Err(
                VarDctDecodeError::EngineContract { detail: "empty JPEG restoration dispatch" },
            );
        }
        let rows: u32 = div_ceil_u32(group.task_capacity, columns);
        match check_limit("JPEG restoration dispatch rows", rows as u64, most as u64) {
            Ok(_) => {},
            Err(error) => {
                return Err(error);
            },
        }
        let words = restore_params(&group, layout, &outputs, shifts, columns);
        dispatches.push(RestoreDispatch { words, columns, rows });
        i = i + 1;
    }
    Ok(dispatches)
}

/// A group's dispatch covers every task, with less than a row to spare.
pub proof fn law_restore_covers(group: RestoreGroup, most: u32)
    requires
        restore_columns(group, most) > 0,
    ensures
        ({
            let columns = restore_columns(group, most) as int;
            let rows = ceil_div(group.task_capacity as int, columns);
            group.task_capacity <= columns * rows < group.task_capacity + columns
        }),
{
    let columns = restore_columns(group, most) as int;
    lemma_ceil_div(group.task_capacity as int, columns);
    let rows = ceil_div(group.task_capacity as int, columns);
    assert(columns * rows == rows * columns) by (nonlinear_arith);
    assert((rows - 1) * columns == rows * columns - columns) by (nonlinear_arith);
}

} // verus!
