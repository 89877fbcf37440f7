//! Reading model files.

use hematite::flatbuffer;
use hematite::flatbuffer::ParseError;
use hematite::model::{ParsedOptions, TensorType};

/// A table field value: raw inline bytes, or a forward-uoffset to a
/// target patched in after the target is emitted.
enum Fv {
    Raw(Vec<u8>),
    Ref,
}

#[derive(Clone, Copy)]
struct RefSlot {
    field_pos: usize,
}

struct Fb {
    bytes: Vec<u8>,
}

impl Fb {
    fn new() -> Self {
        let mut bytes = Vec::new();
        bytes.extend_from_slice(&[0u8; 8]); // root uoffset + identifier
        bytes[4..8].copy_from_slice(b"TFL3");
        Self { bytes }
    }

    fn pos(&self) -> usize {
        self.bytes.len()
    }

    fn align4(&mut self) {
        while self.bytes.len() % 4 != 0 {
            self.bytes.push(0);
        }
    }

    fn table(&mut self, fields: &[(u32, Fv)]) -> (usize, Vec<RefSlot>) {
        self.align4();
        let table_pos = self.pos();
        let mut field_offs = Vec::with_capacity(fields.len());
        let mut table_size = 4u32;
        for (_, v) in fields {
            field_offs.push(table_size);
            table_size += match v {
                Fv::Raw(b) => b.len() as u32,
                Fv::Ref => 4,
            };
        }
        self.bytes.extend_from_slice(&[0u8; 4]);
        let mut ref_slots = Vec::new();
        for ((_, v), off) in fields.iter().zip(&field_offs) {
            match v {
                Fv::Raw(b) => self.bytes.extend_from_slice(b),
                Fv::Ref => {
                    let field_pos = table_pos + *off as usize;
                    self.bytes.extend_from_slice(&0u32.to_le_bytes());
                    ref_slots.push(RefSlot { field_pos });
                }
            }
        }
        self.align4();
        let vt_pos = self.pos();
        let nfields = fields
            .iter()
            .map(|(i, _)| *i as usize)
            .max()
            .map_or(0, |m| m + 1);
        let vt_len = u16::try_from(nfields + 2).expect("vtable length fits u16");
        let table_size = u16::try_from(table_size).expect("table size fits u16");
        self.bytes.extend_from_slice(&(vt_len * 2).to_le_bytes());
        self.bytes.extend_from_slice(&table_size.to_le_bytes());
        let mut vt = vec![0u16; nfields];
        for ((i, _), off) in fields.iter().zip(&field_offs) {
            vt[*i as usize] = u16::try_from(*off).expect("field offset fits u16");
        }
        for o in vt {
            self.bytes.extend_from_slice(&o.to_le_bytes());
        }
        let soff = (table_pos as u32).wrapping_sub(vt_pos as u32);
        self.bytes[table_pos..table_pos + 4].copy_from_slice(&soff.to_le_bytes());
        (table_pos, ref_slots)
    }

    fn patch_ref(&mut self, slot: &RefSlot, target: usize) {
        let rel = u32::try_from(target - slot.field_pos)
            .expect("uoffset target must follow its referencing field");
        self.bytes[slot.field_pos..slot.field_pos + 4].copy_from_slice(&rel.to_le_bytes());
    }

    fn patch_vec_elem(&mut self, vec_pos: usize, elem_idx: usize, target: usize) {
        let elem_pos = vec_pos + 4 + elem_idx * 4;
        let rel = u32::try_from(target - elem_pos)
            .expect("uoffset target must follow the vector");
        self.bytes[elem_pos..elem_pos + 4].copy_from_slice(&rel.to_le_bytes());
    }

    fn vec_u32(&mut self, elems: &[u32]) -> usize {
        self.align4();
        let p = self.pos();
        self.bytes.extend_from_slice(&(elems.len() as u32).to_le_bytes());
        for e in elems {
            self.bytes.extend_from_slice(&e.to_le_bytes());
        }
        p
    }

    fn vec_i32(&mut self, elems: &[i32]) -> usize {
        self.align4();
        let p = self.pos();
        self.bytes.extend_from_slice(&(elems.len() as u32).to_le_bytes());
        for e in elems {
            self.bytes.extend_from_slice(&e.to_le_bytes());
        }
        p
    }

    fn vec_f32(&mut self, elems: &[f32]) -> usize {
        self.align4();
        let p = self.pos();
        self.bytes.extend_from_slice(&(elems.len() as u32).to_le_bytes());
        for e in elems {
            self.bytes.extend_from_slice(&e.to_le_bytes());
        }
        p
    }

    fn vec_i64(&mut self, elems: &[i64]) -> usize {
        self.align4();
        let p = self.pos();
        self.bytes.extend_from_slice(&(elems.len() as u32).to_le_bytes());
        for e in elems {
            self.bytes.extend_from_slice(&e.to_le_bytes());
        }
        p
    }

    fn vec_bytes(&mut self, data: &[u8]) -> usize {
        self.align4();
        let p = self.pos();
        self.bytes.extend_from_slice(&(data.len() as u32).to_le_bytes());
        self.bytes.extend_from_slice(data);
        p
    }

    fn string(&mut self, s: &str) -> usize {
        self.align4();
        let p = self.pos();
        self.bytes.extend_from_slice(&(s.len() as u32).to_le_bytes());
        self.bytes.extend_from_slice(s.as_bytes());
        self.bytes.push(0);
        p
    }

    fn finish(mut self, root: usize) -> Vec<u8> {
        self.bytes[0..4].copy_from_slice(&(root as u32).to_le_bytes());
        self.bytes
    }
}

/// A tensor in a hand-built file.
struct FileTensor {
    shape: Vec<i32>,
    kind: u8,
    buffer: u32,
    name: &'static str,
    scale: f32,
}

/// A file with one operator. Tables come before what they refer to, and the
/// offsets are filled in once their targets exist.
fn one_operator_file(
    tensors: &[FileTensor],
    buffers: &[Vec<u8>],
    code: u8,
    io: (&[i32], &[i32]),
    options: Option<&[(u32, Vec<u8>)]>,
    graph_io: (&[i32], &[i32]),
) -> Vec<u8> {
    let mut fb = Fb::new();
    let (model, slots) = fb.table(&[(1, Fv::Ref), (2, Fv::Ref), (4, Fv::Ref)]);
    let graphs = fb.vec_u32(&[0]);
    let (graph, graph_slots) =
        fb.table(&[(0, Fv::Ref), (1, Fv::Ref), (2, Fv::Ref), (3, Fv::Ref)]);
    fb.patch_vec_elem(graphs, 0, graph);
    fb.patch_ref(&slots[1], graphs);

    let codes = fb.vec_u32(&[0]);
    let (code_table, _) = fb.table(&[(0, Fv::Raw(vec![code]))]);
    fb.patch_vec_elem(codes, 0, code_table);
    fb.patch_ref(&slots[0], codes);

    let list = fb.vec_u32(&vec![0; tensors.len()]);
    fb.patch_ref(&graph_slots[0], list);
    for (i, t) in tensors.iter().enumerate() {
        let (table, refs) = fb.table(&[
            (0, Fv::Ref),
            (1, Fv::Raw(vec![t.kind])),
            (2, Fv::Raw(t.buffer.to_le_bytes().to_vec())),
            (3, Fv::Ref),
            (4, Fv::Ref),
        ]);
        fb.patch_vec_elem(list, i, table);
        let shape = fb.vec_i32(&t.shape);
        fb.patch_ref(&refs[0], shape);
        let name = fb.string(t.name);
        fb.patch_ref(&refs[1], name);
        let (quant, quant_refs) = fb.table(&[(2, Fv::Ref), (3, Fv::Ref)]);
        fb.patch_ref(&refs[2], quant);
        let scales = fb.vec_f32(&[t.scale]);
        fb.patch_ref(&quant_refs[0], scales);
        let zero_points = fb.vec_i64(&[0]);
        fb.patch_ref(&quant_refs[1], zero_points);
    }

    let inputs = fb.vec_i32(graph_io.0);
    fb.patch_ref(&graph_slots[1], inputs);
    let outputs = fb.vec_i32(graph_io.1);
    fb.patch_ref(&graph_slots[2], outputs);
    let ops = fb.vec_u32(&[0]);
    fb.patch_ref(&graph_slots[3], ops);
    let mut fields = vec![
        (0, Fv::Raw(0u32.to_le_bytes().to_vec())),
        (1, Fv::Ref),
        (2, Fv::Ref),
    ];
    if options.is_some() {
        fields.push((3, Fv::Raw(vec![1])));
        fields.push((4, Fv::Ref));
    }
    let (op, refs) = fb.table(&fields);
    fb.patch_vec_elem(ops, 0, op);
    let op_inputs = fb.vec_i32(io.0);
    fb.patch_ref(&refs[0], op_inputs);
    let op_outputs = fb.vec_i32(io.1);
    fb.patch_ref(&refs[1], op_outputs);
    if let Some(options) = options {
        let fields: Vec<(u32, Fv)> =
            options.iter().map(|(k, bytes)| (*k, Fv::Raw(bytes.clone()))).collect();
        let (table, _) = fb.table(&fields);
        fb.patch_ref(&refs[2], table);
    }

    let list = fb.vec_u32(&vec![0; buffers.len()]);
    fb.patch_ref(&slots[2], list);
    for (i, data) in buffers.iter().enumerate() {
        let (table, refs) = fb.table(&[(0, Fv::Ref)]);
        fb.patch_vec_elem(list, i, table);
        let data = fb.vec_bytes(data);
        fb.patch_ref(&refs[0], data);
    }
    fb.finish(model)
}

fn int8(shape: &[i32], buffer: u32, name: &'static str, scale: f32) -> FileTensor {
    FileTensor { shape: shape.to_vec(), kind: 9, buffer, name, scale }
}

/// One dense layer with the weight 51 and the bias -3.
fn sine_file() -> Vec<u8> {
    one_operator_file(
        &[
            int8(&[1], 0, "input", 0.1),
            int8(&[1, 1], 1, "fc/weights", 1.0 / 128.0),
            FileTensor { shape: vec![1], kind: 2, buffer: 2, name: "fc/bias", scale: 0.1 / 128.0 },
            int8(&[1], 3, "output", 0.1),
        ],
        &[vec![], vec![51], (-3i32).to_le_bytes().to_vec(), vec![]],
        9,
        (&[0, 1, 2], &[3]),
        Some(&[(0, vec![0]), (1, vec![0]), (2, vec![0])]),
        (&[0], &[3]),
    )
}

/// A real `Conv2DOptions` table emitted by the reference flatbuffers
/// Python Builder (flatbuffers 25.12.19) — padding=VALID(1),
/// stride_w=2, stride_h=3, fused=RELU(1), dilation_w=2, dilation_h=2.
/// The byte sequence IS the known-good reference wire format.
const CONV2D_OPTIONS_BYTES: &[u8] = &[
    0x14, 0x00, 0x00, 0x00, 0x10, 0x00, 0x1c, 0x00, 0x07, 0x00, 0x08, 0x00,
    0x0c, 0x00, 0x13, 0x00, 0x14, 0x00, 0x18, 0x00, 0x10, 0x00, 0x00, 0x00,
    0x00, 0x00, 0x00, 0x01, 0x02, 0x00, 0x00, 0x00, 0x03, 0x00, 0x00, 0x00,
    0x00, 0x00, 0x00, 0x01, 0x02, 0x00, 0x00, 0x00, 0x02, 0x00, 0x00, 0x00,
];

/// Probe model (flatbuffers Python Builder): three operators —
/// op0: extended builtin_code 200 (≥127) with a Conv2DOptions table;
/// op1: CUSTOM (32) with discriminator NONE + custom_options bytes;
/// op2: MEAN (40) with axis resolved from input tensor 2's buffer.
const PROBE_MODEL_BYTES: &[u8] = &[
    0x18, 0x00, 0x00, 0x00, 0x54, 0x46, 0x4c, 0x33, 0x00, 0x00, 0x0e, 0x00,
    0x14, 0x00, 0x04, 0x00, 0x08, 0x00, 0x0c, 0x00, 0x00, 0x00, 0x10, 0x00,
    0x0e, 0x00, 0x00, 0x00, 0x03, 0x00, 0x00, 0x00, 0x38, 0x00, 0x00, 0x00,
    0x68, 0x00, 0x00, 0x00, 0x04, 0x00, 0x00, 0x00, 0x03, 0x00, 0x00, 0x00,
    0x24, 0x00, 0x00, 0x00, 0x18, 0x00, 0x00, 0x00, 0x0c, 0x00, 0x00, 0x00,
    0x00, 0x00, 0x06, 0x00, 0x08, 0x00, 0x04, 0x00, 0x06, 0x00, 0x00, 0x00,
    0xd0, 0x01, 0x00, 0x00, 0xfc, 0xff, 0xff, 0xff, 0x04, 0x00, 0x04, 0x00,
    0x04, 0x00, 0x00, 0x00, 0x03, 0x00, 0x00, 0x00, 0x28, 0x00, 0x00, 0x00,
    0x10, 0x00, 0x00, 0x00, 0x04, 0x00, 0x00, 0x00, 0xf0, 0xff, 0xff, 0xff,
    0x28, 0x00, 0x00, 0x00, 0xf8, 0xff, 0xff, 0xff, 0x20, 0x00, 0x00, 0x00,
    0x0c, 0x00, 0x08, 0x00, 0x00, 0x00, 0x00, 0x00, 0x00, 0x00, 0x04, 0x00,
    0x0c, 0x00, 0x00, 0x00, 0xc8, 0x00, 0x00, 0x00, 0x01, 0x00, 0x00, 0x00,
    0x14, 0x00, 0x00, 0x00, 0x00, 0x00, 0x0e, 0x00, 0x18, 0x00, 0x04, 0x00,
    0x08, 0x00, 0x0c, 0x00, 0x10, 0x00, 0x14, 0x00, 0x0e, 0x00, 0x00, 0x00,
    0xc8, 0x00, 0x00, 0x00, 0x24, 0x00, 0x00, 0x00, 0x18, 0x00, 0x00, 0x00,
    0x24, 0x00, 0x00, 0x00, 0x04, 0x00, 0x00, 0x00, 0x04, 0x00, 0x00, 0x00,
    0x6d, 0x61, 0x69, 0x6e, 0x00, 0x00, 0x00, 0x00, 0x01, 0x00, 0x00, 0x00,
    0x01, 0x00, 0x00, 0x00, 0x01, 0x00, 0x00, 0x00, 0x00, 0x00, 0x00, 0x00,
    0x03, 0x00, 0x00, 0x00, 0x5c, 0x00, 0x00, 0x00, 0x34, 0x00, 0x00, 0x00,
    0x10, 0x00, 0x00, 0x00, 0x00, 0x00, 0x0a, 0x00, 0x10, 0x00, 0x04, 0x00,
    0x08, 0x00, 0x0c, 0x00, 0x0a, 0x00, 0x00, 0x00, 0x02, 0x00, 0x00, 0x00,
    0x58, 0x00, 0x00, 0x00, 0x60, 0x00, 0x00, 0x00, 0x10, 0x00, 0x16, 0x00,
    0x04, 0x00, 0x08, 0x00, 0x0c, 0x00, 0x00, 0x00, 0x00, 0x00, 0x10, 0x00,
    0x10, 0x00, 0x00, 0x00, 0x01, 0x00, 0x00, 0x00, 0x4c, 0x00, 0x00, 0x00,
    0x40, 0x00, 0x00, 0x00, 0x28, 0x00, 0x00, 0x00, 0x00, 0x00, 0x0e, 0x00,
    0x14, 0x00, 0x00, 0x00, 0x04, 0x00, 0x08, 0x00, 0x0f, 0x00, 0x10, 0x00,
    0x0e, 0x00, 0x00, 0x00, 0x2c, 0x00, 0x00, 0x00, 0x20, 0x00, 0x00, 0x00,
    0x00, 0x00, 0x00, 0x01, 0xe8, 0x00, 0x00, 0x00, 0x03, 0x00, 0x00, 0x00,
    0xab, 0xcd, 0xef, 0x00, 0x02, 0x00, 0x00, 0x00, 0x00, 0x00, 0x00, 0x00,
    0x02, 0x00, 0x00, 0x00, 0x01, 0x00, 0x00, 0x00, 0x01, 0x00, 0x00, 0x00,
    0x01, 0x00, 0x00, 0x00, 0x00, 0x00, 0x00, 0x00, 0x03, 0x00, 0x00, 0x00,
    0x78, 0x00, 0x00, 0x00, 0x40, 0x00, 0x00, 0x00, 0x04, 0x00, 0x00, 0x00,
    0xa0, 0xff, 0xff, 0xff, 0x20, 0x00, 0x00, 0x00, 0x00, 0x00, 0x00, 0x09,
    0x02, 0x00, 0x00, 0x00, 0x04, 0x00, 0x00, 0x00, 0x0a, 0x00, 0x00, 0x00,
    0x70, 0x72, 0x6f, 0x62, 0x65, 0x5f, 0x61, 0x78, 0x69, 0x73, 0x00, 0x00,
    0x01, 0x00, 0x00, 0x00, 0x01, 0x00, 0x00, 0x00, 0x0c, 0x00, 0x10, 0x00,
    0x04, 0x00, 0x0b, 0x00, 0x00, 0x00, 0x0c, 0x00, 0x0c, 0x00, 0x00, 0x00,
    0x1c, 0x00, 0x00, 0x00, 0x00, 0x00, 0x00, 0x09, 0x04, 0x00, 0x00, 0x00,
    0x09, 0x00, 0x00, 0x00, 0x70, 0x72, 0x6f, 0x62, 0x65, 0x5f, 0x6f, 0x75,
    0x74, 0x00, 0x00, 0x00, 0x01, 0x00, 0x00, 0x00, 0x01, 0x00, 0x00, 0x00,
    0x0c, 0x00, 0x14, 0x00, 0x04, 0x00, 0x0b, 0x00, 0x0c, 0x00, 0x10, 0x00,
    0x0c, 0x00, 0x00, 0x00, 0x20, 0x00, 0x00, 0x00, 0x00, 0x00, 0x00, 0x09,
    0x01, 0x00, 0x00, 0x00, 0x04, 0x00, 0x00, 0x00, 0x08, 0x00, 0x00, 0x00,
    0x70, 0x72, 0x6f, 0x62, 0x65, 0x5f, 0x69, 0x6e, 0x00, 0x00, 0x00, 0x00,
    0x01, 0x00, 0x00, 0x00, 0x01, 0x00, 0x00, 0x00, 0x04, 0x00, 0x00, 0x00,
    0x01, 0x00, 0x00, 0x00, 0x10, 0x00, 0x1c, 0x00, 0x07, 0x00, 0x08, 0x00,
    0x0c, 0x00, 0x13, 0x00, 0x14, 0x00, 0x18, 0x00, 0x10, 0x00, 0x00, 0x00,
    0x00, 0x00, 0x00, 0x01, 0x02, 0x00, 0x00, 0x00, 0x03, 0x00, 0x00, 0x00,
    0x00, 0x00, 0x00, 0x01, 0x02, 0x00, 0x00, 0x00, 0x02, 0x00, 0x00, 0x00,
];

#[test]
fn test_parse_sine_model() {
    let model = flatbuffer::parse(&sine_file()).expect("sine.tflite should parse");
    assert_eq!(model.subgraph_count, 1);
    assert_eq!(model.inputs, vec![0]);
    assert_eq!(model.outputs, vec![3]);
    assert_eq!(model.tensors.len(), 4);
    assert_eq!(model.ops.len(), 1);
    assert_eq!(model.buffers.len(), 4);

    let op = &model.ops[0];
    assert_eq!(op.opcode_index, 0);
    assert_eq!(op.builtin_code, 9); // FULLY_CONNECTED
    assert_eq!(op.inputs, vec![0, 1, 2]);
    assert_eq!(op.outputs, vec![3]);
    assert!(op.custom_options.is_empty());
    match &op.options {
        Some(ParsedOptions::FullyConnected {
            fused_activation,
            weights_format,
            keep_num_dims,
        }) => {
            assert_eq!(*fused_activation, 0); // NONE
            assert_eq!(*weights_format, 0); // DEFAULT
            assert!(!*keep_num_dims);
        }
        other => panic!("expected FullyConnected options, got {other:?}"),
    }

    // Weight tensor (input 1): buffer contains the int8 weight 51.
    let weight = model.tensor_by_index(1).expect("weight tensor");
    assert_eq!(weight.name, "fc/weights");
    assert_eq!(weight.shape, vec![1, 1]);
    assert_eq!(weight.tensor_type, TensorType::Int8);
    let weight_data = model.buffer_data(weight).expect("weight buffer");
    assert_eq!(weight_data[0], 51);
    let wq = weight.quant.as_ref().expect("weight quant");
    assert!((f32::from_bits(wq.scale) - 0.007_812_5).abs() < 1e-6); // 1/128
    assert_eq!(wq.zero_point, 0);
    assert!(wq.per_channel.is_none());

    // Bias tensor (input 2): int32 -3.
    let bias = model.tensor_by_index(2).expect("bias tensor");
    let bias_data = model.buffer_data(bias).expect("bias buffer");
    let bias_val =
        i32::from_le_bytes([bias_data[0], bias_data[1], bias_data[2], bias_data[3]]);
    assert_eq!(bias_val, -3);

    // Input tensor: INT8, scale 0.1, empty buffer (None from buffer_data).
    let input = model.tensor_by_index(0).expect("input tensor");
    assert_eq!(input.name, "input");
    assert_eq!(input.shape, vec![1]);
    assert_eq!(input.tensor_type, TensorType::Int8);
    assert!(model.buffer_data(input).is_none());
    let iq = input.quant.as_ref().expect("input quant");
    assert!((f32::from_bits(iq.scale) - 0.1).abs() < 1e-6);
    assert_eq!(iq.zero_point, 0);

    // Output tensor: INT8, scale 0.1.
    let output = model.tensor_by_index(3).expect("output tensor");
    assert_eq!(output.name, "output");
    assert_eq!(output.tensor_type, TensorType::Int8);
    let oq = output.quant.as_ref().expect("output quant");
    assert!((f32::from_bits(oq.scale) - 0.1).abs() < 1e-6);
}

#[test]
fn test_conv2d_options_byte_decode() {
    // Root uoffset: the table starts at byte 20 (bytes 0..4 of the fixture).
    let root =
        u32::from_le_bytes([CONV2D_OPTIONS_BYTES[0], CONV2D_OPTIONS_BYTES[1], CONV2D_OPTIONS_BYTES[2], CONV2D_OPTIONS_BYTES[3]]) as usize;
    assert_eq!(root, 20);

    let decoded = flatbuffer::parse_conv2d_options(CONV2D_OPTIONS_BYTES, root);
    match decoded {
        ParsedOptions::Conv2D {
            padding,
            stride_w,
            stride_h,
            dilation_w,
            dilation_h,
            fused_activation,
        } => {
            assert_eq!(padding, 1); // VALID
            assert_eq!(stride_w, 2);
            assert_eq!(stride_h, 3);
            assert_eq!(dilation_w, 2);
            assert_eq!(dilation_h, 2);
            assert_eq!(fused_activation, 1); // RELU

            // Byte-for-byte: the raw bytes at each vtable-recorded field
            // offset match the decoded values exactly.
            let pad_off =
                flatbuffer::table_field(CONV2D_OPTIONS_BYTES, root, 0).expect("padding");
            assert_eq!(CONV2D_OPTIONS_BYTES[pad_off], 0x01);
            let sw_off =
                flatbuffer::table_field(CONV2D_OPTIONS_BYTES, root, 1).expect("stride_w");
            assert_eq!(&CONV2D_OPTIONS_BYTES[sw_off..sw_off + 4], &2i32.to_le_bytes());
            let sh_off =
                flatbuffer::table_field(CONV2D_OPTIONS_BYTES, root, 2).expect("stride_h");
            assert_eq!(&CONV2D_OPTIONS_BYTES[sh_off..sh_off + 4], &3i32.to_le_bytes());
            let fa_off = flatbuffer::table_field(CONV2D_OPTIONS_BYTES, root, 3)
                .expect("fused_activation");
            assert_eq!(CONV2D_OPTIONS_BYTES[fa_off], 0x01);
            let dw_off =
                flatbuffer::table_field(CONV2D_OPTIONS_BYTES, root, 4).expect("dilation_w");
            assert_eq!(&CONV2D_OPTIONS_BYTES[dw_off..dw_off + 4], &2i32.to_le_bytes());
            let dh_off =
                flatbuffer::table_field(CONV2D_OPTIONS_BYTES, root, 5).expect("dilation_h");
            assert_eq!(&CONV2D_OPTIONS_BYTES[dh_off..dh_off + 4], &2i32.to_le_bytes());
        }
        other => panic!("expected Conv2D options, got {other:?}"),
    }
}

#[test]
fn test_probe_model_extended_opcode_and_custom() {
    let model = flatbuffer::parse(PROBE_MODEL_BYTES).expect("probe model should parse");
    assert_eq!(model.subgraph_count, 1);
    assert_eq!(model.ops.len(), 3);

    // op0: extended builtin_code 200 resolved via opcodes table field 3,
    // options fall back to Custom(raw table bytes).
    let op0 = &model.ops[0];
    assert_eq!(op0.builtin_code, 200);
    match &op0.options {
        Some(ParsedOptions::Custom(bytes)) => assert!(!bytes.is_empty()),
        other => panic!("expected Custom options, got {other:?}"),
    }

    // op1: CUSTOM(32), discriminator NONE → no options; custom_options kept.
    let op1 = &model.ops[1];
    assert_eq!(op1.builtin_code, 32);
    assert!(op1.options.is_none());
    assert_eq!(op1.custom_options, vec![0xab, 0xcd, 0xef]);

    // op2: MEAN(40) synthesized with axis read from input tensor 2's buffer.
    let op2 = &model.ops[2];
    assert_eq!(op2.builtin_code, 40);
    match &op2.options {
        Some(ParsedOptions::Mean { axis, keep_dims }) => {
            assert_eq!(*axis, vec![1]);
            assert!(!*keep_dims);
        }
        other => panic!("expected Mean options, got {other:?}"),
    }
}

#[test]
fn test_parse_corrupted_bytes() {
    let result = flatbuffer::parse(&[0u8; 4]);
    assert!(result.is_err());
    let msg = result.unwrap_err().message();
    assert!(msg.contains("too short"));
}

#[test]
fn test_parse_bad_identifier() {
    let mut bad = vec![0u8; 100];
    bad[0..4].copy_from_slice(&12u32.to_le_bytes());
    bad[4..8].copy_from_slice(b"XXXX");
    let result = flatbuffer::parse(&bad);
    assert!(result.is_err());
    let msg = result.unwrap_err().message();
    assert!(msg.contains("not \"TFL3\""));
}

#[test]
fn test_parse_truncated_buffers_vector() {
    // Model root with a buffers vector whose declared length runs past the
    // end of the buffer → descriptive Truncated error.
    let mut buf = vec![0u8; 40];
    buf[0..4].copy_from_slice(&28u32.to_le_bytes()); // root offset
    buf[4..8].copy_from_slice(b"TFL3");
    // vtable at 12 for the Model table at 28
    buf[12..14].copy_from_slice(&8u16.to_le_bytes()); // vtable_len
    buf[14..16].copy_from_slice(&8u16.to_le_bytes()); // table_size
    buf[16..18].copy_from_slice(&4u16.to_le_bytes()); // field[0] at table+4
    let table_pos = 28usize;
    let soff = (table_pos - 12) as i32;
    buf[28..32].copy_from_slice(&soff.to_le_bytes());
    // field[0] at table+4=32: uoffset pointing to a fake buffers vector at 33
    buf[32..36].copy_from_slice(&1u32.to_le_bytes());
    // Vector at 33: len=1000 with truncated data
    buf[33..37].copy_from_slice(&1000u32.to_le_bytes());

    let result = flatbuffer::parse_buffers(&buf, 33);
    assert!(result.is_err());
}

#[test]
fn test_missing_vtable() {
    let mut buf = vec![0u8; 20];
    let soff = -(100i32);
    buf[0..4].copy_from_slice(&soff.to_le_bytes());
    let result = flatbuffer::table_field(&buf, 0, 0);
    assert!(result.is_none());
}

#[test]
fn test_vtable_missing_field_defaults() {
    // A Conv2DOptions table whose vtable omits most fields: only stride_w
    // is present (field 1) — every other field must fall back to its
    // schema default.
    let mut buf = Vec::new();
    buf.extend_from_slice(&[0u8; 4]);
    buf.extend_from_slice(&12u16.to_le_bytes()); // vtable_len
    buf.extend_from_slice(&16u16.to_le_bytes()); // table_size
    buf.extend_from_slice(&4u16.to_le_bytes()); // field[0] = padding at table+4
    buf.extend_from_slice(&8u16.to_le_bytes()); // field[1] = stride_w at table+8
    buf.extend_from_slice(&0u16.to_le_bytes()); // field[2] absent
    buf.extend_from_slice(&0u16.to_le_bytes()); // field[3] absent

    let table_pos = 4 + 12;
    let soff = table_pos as i32 - 4;
    buf.extend_from_slice(&soff.to_le_bytes()); // SOffsetT
    buf.push(0u8); // padding (unused)
    buf.extend_from_slice(&[0u8; 3]);
    buf.extend_from_slice(&3i32.to_le_bytes()); // stride_w = 3

    let result = flatbuffer::parse_conv2d_options(&buf, table_pos);
    match result {
        ParsedOptions::Conv2D {
            padding,
            stride_w,
            stride_h,
            dilation_w,
            dilation_h,
            fused_activation,
        } => {
            assert_eq!(padding, 0); // SAME (default)
            assert_eq!(stride_w, 3);
            assert_eq!(stride_h, 1); // default
            assert_eq!(dilation_w, 1); // default
            assert_eq!(dilation_h, 1); // default
            assert_eq!(fused_activation, 0); // NONE (default)
        }
        other => panic!("expected Conv2D, got {other:?}"),
    }
}

#[test]
fn test_quantization_per_tensor() {
    // Vtable at 4: vt_len=12 (fields 0-3), table_size=20, fields 2 and 3
    // present; vectors placed immediately after the table region.
    let mut buf = Vec::new();
    buf.extend_from_slice(&[0u8; 4]);
    buf.extend_from_slice(&12u16.to_le_bytes()); // vtable_len
    buf.extend_from_slice(&20u16.to_le_bytes()); // table_size
    buf.extend_from_slice(&0u16.to_le_bytes()); // field[0] absent
    buf.extend_from_slice(&0u16.to_le_bytes()); // field[1] absent
    buf.extend_from_slice(&4u16.to_le_bytes()); // field[2] scale
    buf.extend_from_slice(&12u16.to_le_bytes()); // field[3] zero_point

    let table_pos: usize = 4 + 12; // 16
    let soff = table_pos as i32 - 4;
    buf.extend_from_slice(&soff.to_le_bytes()); // SOffsetT (4B)

    let scale_vec_pos = table_pos + 20; // 36 — first vector after the table
    let scale_uoff = (scale_vec_pos - (table_pos + 4)) as u32; // field[2] at table+4
    buf.extend_from_slice(&scale_uoff.to_le_bytes());
    buf.extend_from_slice(&[0u8; 4]); // pad to field[3] at table+12
    let zp_vec_pos = scale_vec_pos + 8; // 44
    let zp_uoff = (zp_vec_pos - (table_pos + 12)) as u32; // field[3] at table+12
    buf.extend_from_slice(&zp_uoff.to_le_bytes());
    buf.extend_from_slice(&[0u8; 4]); // pad to table_size (table region 16..36)

    // Scale vector at 36: len=1, val=0.5
    buf.extend_from_slice(&1u32.to_le_bytes());
    buf.extend_from_slice(&0.5f32.to_le_bytes());
    // ZP vector at 44: len=1, val=-128
    buf.extend_from_slice(&1u32.to_le_bytes());
    buf.extend_from_slice(&(-128i64).to_le_bytes());

    let quant =
        flatbuffer::parse_quantization_table(&buf, table_pos).expect("should parse quantization");
    assert!((f32::from_bits(quant.scale) - 0.5).abs() < 0.001);
    assert_eq!(quant.zero_point, -128);
    assert!(quant.per_channel.is_none());
}

#[test]
fn test_quantization_per_channel() {
    // Vtable at 4: vt_len=16 (fields 0-5), table_size=16; fields 2, 3 and 5
    // present.  Two scales/zero-points → per-channel QuantInfo.
    let mut buf = Vec::new();
    buf.extend_from_slice(&[0u8; 4]);
    buf.extend_from_slice(&16u16.to_le_bytes()); // vtable_len
    buf.extend_from_slice(&16u16.to_le_bytes()); // table_size
    buf.extend_from_slice(&0u16.to_le_bytes()); // field[0] absent
    buf.extend_from_slice(&0u16.to_le_bytes()); // field[1] absent
    buf.extend_from_slice(&4u16.to_le_bytes()); // field[2] scale
    buf.extend_from_slice(&8u16.to_le_bytes()); // field[3] zero_point
    buf.extend_from_slice(&0u16.to_le_bytes()); // field[4] absent
    buf.extend_from_slice(&12u16.to_le_bytes()); // field[5] quantized_dimension

    let table_pos: usize = 4 + 16; // 20
    let soff = table_pos as i32 - 4;
    buf.extend_from_slice(&soff.to_le_bytes()); // SOffsetT

    let scale_vec_pos = table_pos + 16; // 36
    let scale_uoff = (scale_vec_pos - (table_pos + 4)) as u32; // field[2] at table+4
    buf.extend_from_slice(&scale_uoff.to_le_bytes());
    let zp_vec_pos = scale_vec_pos + 12; // 48
    let zp_uoff = (zp_vec_pos - (table_pos + 8)) as u32; // field[3] at table+8
    buf.extend_from_slice(&zp_uoff.to_le_bytes());
    buf.extend_from_slice(&0i32.to_le_bytes()); // field[5] quantized_dimension = 0 (table+12)

    // Scale vector at 36: len=2, [0.5, 1.0]
    buf.extend_from_slice(&2u32.to_le_bytes());
    buf.extend_from_slice(&0.5f32.to_le_bytes());
    buf.extend_from_slice(&1.0f32.to_le_bytes());
    // ZP vector at 48: len=2, [-128, 0]
    buf.extend_from_slice(&2u32.to_le_bytes());
    buf.extend_from_slice(&(-128i64).to_le_bytes());
    buf.extend_from_slice(&0i64.to_le_bytes());

    let quant = flatbuffer::parse_quantization_table(&buf, table_pos)
        .expect("should parse per-channel quantization");
    assert!((f32::from_bits(quant.scale) - 0.5).abs() < 0.001);
    assert_eq!(quant.zero_point, -128);
    let pc = quant.per_channel.expect("per_channel should be set");
    assert_eq!(pc.scales, vec![0.5f32.to_bits(), 1.0f32.to_bits()]);
    assert_eq!(pc.zero_points, vec![-128, 0]);
    assert_eq!(pc.quantized_dimension, 0);
}

/// The options of the only operator in a file.
fn options_of(code: u8, fields: &[(u32, Vec<u8>)]) -> Option<ParsedOptions> {
    let file = one_operator_file(
        &[int8(&[1], 0, "x", 1.0), int8(&[1], 0, "y", 1.0)],
        &[vec![]],
        code,
        (&[0], &[1]),
        Some(fields),
        (&[0], &[1]),
    );
    let mut model = flatbuffer::parse(&file).unwrap();
    assert_eq!(model.ops[0].builtin_code, i32::from(code));
    model.ops[0].options.take()
}

fn word(v: i32) -> Vec<u8> {
    v.to_le_bytes().to_vec()
}

#[test]
fn every_operator_has_options_of_its_own() {
    assert!(matches!(
        options_of(4, &[(0, vec![1]), (1, word(2)), (2, word(3)), (3, word(4)), (4, vec![3]), (6, word(5))]),
        Some(ParsedOptions::DepthwiseConv2D {
            padding: 1,
            stride_w: 2,
            stride_h: 3,
            depth_multiplier: 4,
            dilation_w: 1,
            dilation_h: 5,
            fused_activation: 3,
        })
    ));
    for code in [1, 17] {
        assert!(matches!(
            options_of(code, &[(1, word(2)), (2, word(3)), (3, word(4)), (4, word(5)), (5, vec![1])]),
            Some(ParsedOptions::Pool2D {
                padding: 0,
                stride_w: 2,
                stride_h: 3,
                filter_w: 4,
                filter_h: 5,
                fused_activation: 1,
            })
        ));
    }
    let one = 1.0f32.to_bits();
    assert!(matches!(
        options_of(25, &[(0, 1.0f32.to_le_bytes().to_vec())]),
        Some(ParsedOptions::Softmax { beta }) if beta == one
    ));
    assert!(matches!(
        options_of(98, &[(0, 1.0f32.to_le_bytes().to_vec())]),
        Some(ParsedOptions::LeakyRelu { alpha }) if alpha == one
    ));
    assert!(matches!(
        options_of(0, &[(0, vec![1]), (1, vec![0])]),
        Some(ParsedOptions::Add { fused_activation: 1, pot_scale_int16: false })
    ));
    assert!(matches!(
        options_of(41, &[(0, vec![3])]),
        Some(ParsedOptions::Sub { fused_activation: 3, pot_scale_int16: true })
    ));
    assert!(matches!(
        options_of(18, &[(0, vec![1])]),
        Some(ParsedOptions::Mul { fused_activation: 1 })
    ));
    assert!(matches!(options_of(54, &[]), Some(ParsedOptions::Prelu)));
    assert!(matches!(
        options_of(97, &[(1, vec![1])]),
        Some(ParsedOptions::ResizeNearest { align_corners: false, half_pixel_centers: true })
    ));
    assert!(matches!(
        options_of(22, &[]),
        Some(ParsedOptions::Reshape { new_shape }) if new_shape.is_empty()
    ));
}

#[test]
fn a_mean_reads_its_axes_from_its_second_input() {
    let file = one_operator_file(
        &[int8(&[1, 2, 2], 0, "x", 1.0), int8(&[1], 0, "y", 1.0), int8(&[2], 1, "axes", 1.0)],
        &[vec![], [word(1), word(-1)].concat()],
        40,
        (&[0, 2], &[1]),
        Some(&[(0, vec![1])]),
        (&[0], &[1]),
    );
    let model = flatbuffer::parse(&file).unwrap();
    match &model.ops[0].options {
        Some(ParsedOptions::Mean { axis, keep_dims }) => {
            assert_eq!(*axis, vec![1, -1]);
            assert!(*keep_dims);
        }
        other => panic!("{other:?}"),
    }
}

#[test]
fn names_are_text() {
    let mut file = sine_file();
    let at = file.windows(10).position(|w| w == b"fc/weights").unwrap();
    file[at] = 0xff;
    let model = flatbuffer::parse(&file).unwrap();
    assert_eq!(model.tensors[0].name, "input");
    assert_eq!(model.tensors[1].name, "");
    file[at] = 0xc3;
    file[at + 1] = 0xa9;
    assert_eq!(flatbuffer::parse(&file).unwrap().tensors[1].name, "\u{e9}/weights");
}

#[test]
fn broken_files_are_refused() {
    assert_eq!(flatbuffer::parse(&[0u8; 7]).unwrap_err(), ParseError::TooShort { len: 7 });
    let mut empty = vec![0u8; 8];
    empty[4..8].copy_from_slice(b"TFL3");
    assert_eq!(flatbuffer::parse(&empty).unwrap_err(), ParseError::NoSubgraph);
    assert_eq!(ParseError::NoSubgraph.message(), "model has no subgraphs");

    // Cut off in the middle, a file is refused.
    let file = sine_file();
    assert!(flatbuffer::parse(&file).is_ok());
    assert!(matches!(
        flatbuffer::parse(&file[..file.len() / 2]),
        Err(ParseError::Truncated { .. })
    ));

    let mut file = sine_file();
    let index = file.len();
    file.extend_from_slice(&[0; 4]);
    assert_eq!(
        flatbuffer::parse_buffers(&file, index + 1).unwrap_err(),
        ParseError::Truncated { at: index + 1 }
    );
    assert_eq!(
        ParseError::Truncated { at: 12 }.message(),
        "truncated at offset 12"
    );
}

#[test]
fn operator_codes_have_to_be_listed() {
    // The second operator of the probe model asks for the code at one.
    let mut file = PROBE_MODEL_BYTES.to_vec();
    let codes = file.windows(8).position(|w| w == [3, 0, 0, 0, 0x28, 0, 0, 0]).unwrap();
    file[codes] = 1;
    let error = flatbuffer::parse(&file).unwrap_err();
    assert_eq!(error, ParseError::OperatorCode { op: 1, index: 1 });
    assert_eq!(error.message(), "op 1: operator code 1 out of range");
}

#[test]
fn absent_fields_have_their_defaults() {
    // An empty vtable: the table has no fields at all.
    let mut buf = vec![4, 0, 4, 0];
    buf.extend_from_slice(&4i32.to_le_bytes());
    for field in 0..8 {
        assert_eq!(flatbuffer::table_field(&buf, 4, field), None);
    }
    assert!(matches!(
        flatbuffer::parse_conv2d_options(&buf, 4),
        ParsedOptions::Conv2D {
            padding: 0,
            stride_w: 1,
            stride_h: 1,
            dilation_w: 1,
            dilation_h: 1,
            fused_activation: 0,
        }
    ));
    assert!(flatbuffer::parse_quantization_table(&buf, 4).is_none());
}
