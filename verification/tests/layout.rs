//! Layouts of hand-built graphs.

use hematite::layout::{self, decide_layouts, ChannelLayout, TRANSPOSE};
use hematite::model::{
    ParsedModel, ParsedOp, ParsedTensor, TensorType, CONV_2D, MUL, RESHAPE,
};

/// A tensor in a hand-built model.
struct BuildTensor {
    shape: Vec<i32>,
    name: &'static str,
    data: Vec<u8>,
}

impl BuildTensor {
    fn activation(shape: &[i32], name: &'static str) -> Self {
        BuildTensor { shape: shape.to_vec(), name, data: Vec::new() }
    }

    fn constant(shape: &[i32], name: &'static str, data: Vec<u8>) -> Self {
        BuildTensor { shape: shape.to_vec(), name, data }
    }
}

/// A model of int8 tensors; a tensor without data shares the empty buffer.
fn build(
    tensors: Vec<BuildTensor>,
    ops: Vec<ParsedOp>,
    inputs: Vec<u32>,
    outputs: Vec<u32>,
) -> ParsedModel {
    let mut buffers: Vec<Vec<u8>> = vec![Vec::new()];
    let mut parsed = Vec::new();
    for t in tensors {
        let mut buffer_index = 0;
        if !t.data.is_empty() {
            buffer_index = buffers.len() as u32;
            buffers.push(t.data);
        }
        parsed.push(ParsedTensor {
            name: t.name.to_string(),
            shape: t.shape,
            tensor_type: TensorType::Int8,
            quant: None,
            buffer_index,
        });
    }
    ParsedModel { subgraph_count: 1, tensors: parsed, ops, inputs, outputs, buffers }
}

/// An operator without options.
fn build_op(code: i32, inputs: Vec<u32>, outputs: Vec<u32>) -> ParsedOp {
    ParsedOp {
        opcode_index: 0,
        builtin_code: code,
        inputs,
        outputs,
        options: None,
        custom_options: Vec::new(),
    }
}

#[test]
fn layout_pad_decision() {
    // C=3 first-layer input: never padded (+433% would be ≈150→800 KiB).
    assert_eq!(layout::layout_pad_decision(3), ChannelLayout::Nhwc);
    // C=24: +33% sits exactly on the MAX_PAD_OVERHEAD bound — accepted.
    assert_eq!(layout::layout_pad_decision(24), ChannelLayout::NhwcPad16);
    assert_eq!(layout::padded_channels(24), 32);
    // C=31: +3.2% — accepted.
    assert_eq!(layout::layout_pad_decision(31), ChannelLayout::NhwcPad16);
    // C=23: +39% above the bound — rejected.
    assert_eq!(layout::layout_pad_decision(23), ChannelLayout::Nhwc);
    // C=17: +88% — rejected.
    assert_eq!(layout::layout_pad_decision(17), ChannelLayout::Nhwc);
    // Already lane-aligned: unchanged, Pad16 is free.
    assert_eq!(layout::layout_pad_decision(16), ChannelLayout::NhwcPad16);
    assert_eq!(layout::padded_channels(16), 16);
    assert_eq!(layout::layout_pad_decision(64), ChannelLayout::NhwcPad16);
    assert_eq!(layout::padded_channels(64), 64);
}

#[test]
fn decide_layouts_pads_c24_activation_only() {
    // MobileNetV2-style head: 224²×24 input → 32-channel conv.
    let model = build(
        vec![
            BuildTensor::activation(&[1, 224, 224, 24], "input"),
            BuildTensor::constant(&[32, 3, 3, 24], "conv/weights", vec![0u8; 32 * 3 * 3 * 24]),
            BuildTensor::constant(&[32], "conv/bias", vec![0u8; 32]),
            BuildTensor::activation(&[1, 224, 224, 32], "conv/output"),
        ],
        vec![build_op(CONV_2D, vec![0, 1, 2], vec![3])],
        vec![0],
        vec![3]
    );
    let plan = decide_layouts(&model);

    assert_eq!(plan.layouts.len(), 4);
    // C=24 activation → pad16 (effective 32).
    assert_eq!(plan.layouts[0].layout, ChannelLayout::NhwcPad16);
    assert_eq!(plan.layouts[0].effective_channels, 32);
    // Constant weights are never padded.
    assert_eq!(plan.layouts[1].layout, ChannelLayout::Nhwc);
    assert_eq!(plan.layouts[2].layout, ChannelLayout::Nhwc);
    // Graph output keeps the caller-visible shape (C=32, unchanged).
    assert_eq!(plan.layouts[3].layout, ChannelLayout::Nhwc);
    assert_eq!(plan.layouts[3].effective_channels, 32);

    // No folds in a plain conv chain.
    assert!(plan.folds.is_empty());
}

#[test]
fn repad_boundary_at_graph_input() {
    // Boundary: consumer (conv) requires pad16, producer (external
    // caller) provides unpadded NHWC bytes → exactly one repad node.
    let model = build(
        vec![
            BuildTensor::activation(&[1, 224, 224, 24], "input"),
            BuildTensor::constant(&[32, 3, 3, 24], "conv/weights", vec![0u8; 32 * 3 * 3 * 24]),
            BuildTensor::constant(&[32], "conv/bias", vec![0u8; 32]),
            BuildTensor::activation(&[1, 224, 224, 32], "conv/output"),
        ],
        vec![build_op(CONV_2D, vec![0, 1, 2], vec![3])],
        vec![0],
        vec![3]
    );
    let plan = decide_layouts(&model);

    assert_eq!(plan.repads.len(), 1);
    assert_eq!(plan.repads[0].tensor_index, 0);
    assert_eq!(plan.repads[0].target_channels, 32);
}

#[test]
fn no_repad_when_graph_input_already_aligned() {
    // C=32 input: padding is free (effective == channels), so there is
    // no boundary and no copy.
    let model = build(
        vec![
            BuildTensor::activation(&[1, 224, 224, 32], "input"),
            BuildTensor::constant(&[64, 3, 3, 32], "conv/weights", vec![0u8; 64 * 3 * 3 * 32]),
            BuildTensor::constant(&[64], "conv/bias", vec![0u8; 64]),
            BuildTensor::activation(&[1, 224, 224, 64], "conv/output"),
        ],
        vec![build_op(CONV_2D, vec![0, 1, 2], vec![3])],
        vec![0],
        vec![3]
    );
    let plan = decide_layouts(&model);

    assert!(plan.repads.is_empty());
    assert_eq!(plan.layouts[0].effective_channels, 32); // unchanged
}

#[test]
fn transpose_before_conv_folds_into_weight_reindex() {
    // Weight [I=24, H=3, W=3, O=32] permuted [3,1,2,0] → [O,H,W,I]
    // ([32,3,3,24]): the classic NHWC-ize.  The runtime TRANSPOSE must
    // disappear; the descriptor carries the re-index math.
    let perm = [3i32, 1, 2, 0].map(|x| x.to_le_bytes()).concat();
    let model = build(
        vec![
            BuildTensor::constant(&[24, 3, 3, 32], "conv/weights/src", vec![0u8; 24 * 3 * 3 * 32]),
            BuildTensor::constant(&[4], "transpose/perm", perm),
            BuildTensor::activation(&[32, 3, 3, 24], "conv/weights"),
            BuildTensor::activation(&[1, 8, 8, 24], "input"),
            BuildTensor::constant(&[32], "conv/bias", vec![0u8; 32]),
            BuildTensor::activation(&[1, 8, 8, 32], "conv/output"),
        ],
        vec![
            build_op(TRANSPOSE, vec![0, 1], vec![2]),
            build_op(CONV_2D, vec![3, 2, 4], vec![5]),
        ],
        vec![3],
        vec![5]
    );
    let plan = decide_layouts(&model);

    assert_eq!(plan.folds.len(), 1);
    let fold = &plan.folds[0];
    assert_eq!(fold.op_index, 0);
    assert_eq!(fold.weight_index, 0);
    assert_eq!(fold.permutation, vec![3, 1, 2, 0]);
    assert_eq!(fold.weight_shape, vec![32, 3, 3, 24]);
    // dst[o,h,w,i] = src[perm[0],perm[1],perm[2],perm[3]] = src[i,h,w,o]
    // — a pure reindexing (NHWC↔HWCN style), no element loss.
}

#[test]
fn reshape_relabel_folds_as_pure_shape_change() {
    // Moving a unit dim is a pure relabel: no element reorders, so the
    // runtime op drops and only the shape descriptor changes.
    let shape = [3i32, 3, 16, 1].map(|x| x.to_le_bytes()).concat();
    let model = build(
        vec![
            BuildTensor::constant(&[1, 3, 3, 16], "conv/weights/src", vec![0u8; 1 * 3 * 3 * 16]),
            BuildTensor::constant(&[4], "reshape/shape", shape),
            BuildTensor::activation(&[3, 3, 16, 1], "conv/weights"),
            BuildTensor::activation(&[1, 8, 8, 16], "input"),
            BuildTensor::constant(&[32], "conv/bias", vec![0u8; 32]),
            BuildTensor::activation(&[1, 8, 8, 32], "conv/output"),
        ],
        vec![
            build_op(RESHAPE, vec![0, 1], vec![2]),
            build_op(CONV_2D, vec![3, 2, 4], vec![5]),
        ],
        vec![3],
        vec![5]
    );
    let plan = decide_layouts(&model);

    assert_eq!(plan.folds.len(), 1);
    let fold = &plan.folds[0];
    assert_eq!(fold.op_index, 0);
    assert_eq!(fold.weight_index, 0);
    assert!(fold.permutation.is_empty()); // no reordering needed
    assert_eq!(fold.weight_shape, vec![3, 3, 16, 1]);
}

#[test]
fn transpose_not_folded_for_non_weight_or_lossy_perms() {
    // (a) TRANSPOSE feeding the conv *activation* input is left alone.
    let perm_act = [0i32, 3, 1, 2].map(|x| x.to_le_bytes()).concat();
    let m_activation = build(
        vec![
            BuildTensor::activation(&[1, 8, 8, 24], "act/src"),
            BuildTensor::constant(&[4], "transpose/perm", perm_act),
            BuildTensor::activation(&[1, 24, 8, 8], "act/transposed"),
            BuildTensor::constant(&[32, 3, 3, 24], "conv/weights", vec![0u8; 32 * 3 * 3 * 24]),
            BuildTensor::constant(&[32], "conv/bias", vec![0u8; 32]),
            BuildTensor::activation(&[1, 8, 8, 32], "conv/output"),
        ],
        vec![
            build_op(TRANSPOSE, vec![0, 1], vec![2]),
            build_op(CONV_2D, vec![2, 3, 4], vec![5]),
        ],
        vec![0],
        vec![5]
    );
    assert!(decide_layouts(&m_activation).folds.is_empty());

    // (b) A 3-D weight transpose feeding a 4-D consumer is not a pure
    // 4-D weight reindex.
    let perm3 = [2i32, 1, 0].map(|x| x.to_le_bytes()).concat();
    let m_3d = build(
        vec![
            BuildTensor::constant(&[3, 3, 24], "conv/weights/src", vec![0u8; 3 * 3 * 24]),
            BuildTensor::constant(&[3], "transpose/perm", perm3),
            BuildTensor::activation(&[24, 3, 3], "conv/weights"),
            BuildTensor::activation(&[1, 8, 8, 24], "input"),
            BuildTensor::constant(&[32], "conv/bias", vec![0u8; 32]),
            BuildTensor::activation(&[1, 8, 8, 32], "conv/output"),
        ],
        vec![
            build_op(TRANSPOSE, vec![0, 1], vec![2]),
            build_op(CONV_2D, vec![3, 2, 4], vec![5]),
        ],
        vec![3],
        vec![5]
    );
    assert!(decide_layouts(&m_3d).folds.is_empty());

    // (c) A lossy permutation (duplicate axis) is a gather, not a
    // reindex — never folded.
    let perm_lossy = [0i32, 0, 1, 2].map(|x| x.to_le_bytes()).concat();
    let m_lossy = build(
        vec![
            BuildTensor::constant(&[24, 3, 3, 32], "conv/weights/src", vec![0u8; 24 * 3 * 3 * 32]),
            BuildTensor::constant(&[4], "transpose/perm", perm_lossy),
            BuildTensor::activation(&[24, 3, 3, 32], "conv/weights"),
            BuildTensor::activation(&[1, 8, 8, 24], "input"),
            BuildTensor::constant(&[32], "conv/bias", vec![0u8; 32]),
            BuildTensor::activation(&[1, 8, 8, 32], "conv/output"),
        ],
        vec![
            build_op(TRANSPOSE, vec![0, 1], vec![2]),
            build_op(CONV_2D, vec![3, 2, 4], vec![5]),
        ],
        vec![3],
        vec![5]
    );
    assert!(decide_layouts(&m_lossy).folds.is_empty());

    // (d) A layout-changing RESHAPE (merges H*W) is not a pure relabel.
    let shape = [1i32, 1, 9, 16].map(|x| x.to_le_bytes()).concat();
    let m_reshape = build(
        vec![
            BuildTensor::constant(&[1, 3, 3, 16], "conv/weights/src", vec![0u8; 1 * 3 * 3 * 16]),
            BuildTensor::constant(&[4], "reshape/shape", shape),
            BuildTensor::activation(&[1, 1, 9, 16], "conv/weights"),
            BuildTensor::activation(&[1, 8, 8, 16], "input"),
            BuildTensor::constant(&[32], "conv/bias", vec![0u8; 32]),
            BuildTensor::activation(&[1, 8, 8, 32], "conv/output"),
        ],
        vec![
            build_op(RESHAPE, vec![0, 1], vec![2]),
            build_op(CONV_2D, vec![3, 2, 4], vec![5]),
        ],
        vec![3],
        vec![5]
    );
    assert!(decide_layouts(&m_reshape).folds.is_empty());

    // (e) A TRANSPOSE not immediately followed by its consumer is not
    // folded ("directly precedes" gate).
    let perm_e = [3i32, 1, 2, 0].map(|x| x.to_le_bytes()).concat();
    let m_stray = build(
        vec![
            BuildTensor::constant(&[24, 3, 3, 32], "conv/weights/src", vec![0u8; 24 * 3 * 3 * 32]),
            BuildTensor::constant(&[4], "transpose/perm", perm_e),
            BuildTensor::activation(&[32, 3, 3, 24], "conv/weights"),
            BuildTensor::constant(&[1], "noop/scale", vec![1u8]),
            BuildTensor::activation(&[1, 8, 8, 24], "input"),
            BuildTensor::constant(&[32], "conv/bias", vec![0u8; 32]),
            BuildTensor::activation(&[1, 8, 8, 32], "conv/output"),
        ],
        vec![
            build_op(TRANSPOSE, vec![0, 1], vec![2]),
            build_op(MUL, vec![2, 3], vec![2]),
            build_op(CONV_2D, vec![4, 2, 5], vec![6]),
        ],
        vec![4],
        vec![6]
    );
    assert!(decide_layouts(&m_stray).folds.is_empty());
}

#[test]
fn padding_is_the_least_that_fills_whole_vectors() {
    for channels in 0..200u32 {
        let padded = layout::padded_channels(channels);
        assert!(padded >= channels && padded % 16 == 0 && padded < channels + 16);
        assert_eq!(layout::padded_channels(padded), padded);
    }
}

#[test]
fn both_transpose_codes_fold() {
    for code in [hematite::model::TRANSPOSE, TRANSPOSE] {
        let perm = [3i32, 1, 2, 0].map(|x| x.to_le_bytes()).concat();
        let model = build(
            vec![
                BuildTensor::constant(&[24, 3, 3, 32], "weights/src", vec![0u8; 24 * 3 * 3 * 32]),
                BuildTensor::constant(&[4], "perm", perm),
                BuildTensor::activation(&[32, 3, 3, 24], "weights"),
                BuildTensor::activation(&[1, 8, 8, 24], "input"),
                BuildTensor::constant(&[32], "bias", vec![0u8; 32]),
                BuildTensor::activation(&[1, 8, 8, 32], "output"),
            ],
            vec![
                build_op(code, vec![0, 1], vec![2]),
                build_op(CONV_2D, vec![3, 2, 4], vec![5]),
            ],
            vec![3],
            vec![5],
        );
        let folds = layout::find_weight_folds(&model);
        assert_eq!(folds.len(), 1);
        assert_eq!(folds[0].op_index, 0);
        assert_eq!(folds[0].permutation, vec![3, 1, 2, 0]);
    }
}

#[test]
fn a_fold_goes_by_the_operator_that_is_given() {
    let perm = [3i32, 1, 2, 0].map(|x| x.to_le_bytes()).concat();
    let model = build(
        vec![
            BuildTensor::constant(&[24, 3, 3, 32], "weights/src", vec![0u8; 24 * 3 * 3 * 32]),
            BuildTensor::constant(&[4], "perm", perm),
            BuildTensor::activation(&[32, 3, 3, 24], "weights"),
            BuildTensor::activation(&[1, 8, 8, 24], "input"),
            BuildTensor::constant(&[32], "bias", vec![0u8; 32]),
            BuildTensor::activation(&[1, 8, 8, 32], "output"),
        ],
        vec![
            build_op(MUL, vec![0, 1], vec![2]),
            build_op(CONV_2D, vec![3, 2, 4], vec![5]),
        ],
        vec![3],
        vec![5],
    );
    let given = build_op(TRANSPOSE, vec![0, 1], vec![2]);
    let fold = layout::try_fold_weight_layout_op(&model, 0, &given).unwrap();
    assert_eq!(fold.permutation, vec![3, 1, 2, 0]);
    assert!(layout::try_fold_weight_layout_op(&model, 0, &model.ops[0]).is_none());
    // Nothing follows the last operator, nor a place behind it.
    for place in [1, 2, 9] {
        assert!(layout::try_fold_weight_layout_op(&model, place, &given).is_none());
    }
}
