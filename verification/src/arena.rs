//! What the memory planner is asked: the operators in execution order, the
//! size of every tensor, and the tensors that live outside the arena.

use crate::model::{ParsedModel, ParsedOp, ParsedTensor, TensorType, NO_TENSOR};
use crate::shape::flat_prod;
use crate::text::{join, to_decimal};
use vstd::prelude::*;
use vstd::string::*;

verus! {

/// The bytes of internal memory that an arena may take.
pub const MAX_INTERNAL: usize = 524288;

/// How many tensors the planner can hold.
pub const MAX_TENSORS: usize = 256;

/// How many inputs, and how many outputs, of one operator the planner can hold.
pub const MAX_IO_PER_OP: usize = 4;

/// Why the planner rejects a schedule.
#[derive(Clone, Copy, Debug, PartialEq, Eq, Structural)]
pub enum LayoutError {
    /// One tensor is larger than the whole budget.
    Oversized,
    /// The tensors that live together are larger than the budget.
    OutOfBudget,
}

/// Why there is no arena for a model.
#[derive(Clone, Copy, Debug, PartialEq, Eq, Structural)]
pub enum ArenaError {
    /// The model has more tensors than [`MAX_TENSORS`].
    TooManyTensors { count: usize },
    /// An operator has more inputs than [`MAX_IO_PER_OP`].
    TooManyInputs { op: usize, count: usize },
    /// An operator has more outputs than [`MAX_IO_PER_OP`].
    TooManyOutputs { op: usize, count: usize },
    /// The planner rejected the schedule.
    Layout(LayoutError),
}

/// One operator as the planner sees it.
#[derive(Clone, Copy, Debug, PartialEq, Eq)]
pub struct OpInfo {
    /// The operator code, or zero where it does not fit.
    pub op_kind: u16,
    /// The tensors read; the first `input_count` entries count.
    pub input_ids: [u16; 4],
    pub input_count: u8,
    /// The tensors written; the first `output_count` entries count.
    pub output_ids: [u16; 4],
    pub output_count: u8,
    /// Whether the first output overwrites the first input.
    pub in_place: bool,
}

/// Everything that the planner is asked.
#[derive(Debug)]
pub struct ArenaRequest {
    /// The operators in execution order.
    pub schedule: Vec<OpInfo>,
    /// The bytes of each tensor.
    pub sizes: Vec<usize>,
    /// The model inputs, which the caller owns.
    pub model_inputs: Vec<u16>,
    /// The model outputs, which the caller owns.
    pub model_outputs: Vec<u16>,
    /// The bytes of internal memory.
    pub max_internal: usize,
    /// The bytes of external memory, where tensors may go there.
    pub psram_budget: Option<usize>,
}

/// What the planner answers: where each tensor lies in the arena, where it has
/// a place there, and how many bytes the arena takes.
#[derive(Debug)]
pub struct ArenaPlan {
    pub offsets: Vec<Option<usize>>,
    pub peak_arena_bytes: usize,
}

impl ArenaError {
    /// The error in words.
    pub open spec fn spec_message(self) -> Seq<char> {
        match self {
            ArenaError::TooManyTensors { count } => "arena planner supports at most 256 tensors per subgraph, model has "@
                + crate::text::decimal(count as nat),
            ArenaError::TooManyInputs { op, count } => "op "@ + crate::text::decimal(op as nat)
                + " has "@ + crate::text::decimal(count as nat)
                + " inputs; arena planner supports at most 4 per op"@,
            ArenaError::TooManyOutputs { op, count } => "op "@ + crate::text::decimal(op as nat)
                + " has "@ + crate::text::decimal(count as nat)
                + " outputs; arena planner supports at most 4 per op"@,
            ArenaError::Layout(LayoutError::Oversized) => "arena plan failed: Oversized"@,
            ArenaError::Layout(LayoutError::OutOfBudget) => "arena plan failed: OutOfBudget"@,
        }
    }

    /// The error in words.
    pub fn message(self) -> (r: String)
        ensures
            r@ == self.spec_message(),
    {
        match self {
            ArenaError::TooManyTensors { count } => join(
                "arena planner supports at most 256 tensors per subgraph, model has ",
                to_decimal(count as u64).as_str(),
            ),
            ArenaError::TooManyInputs { op, count } => {
                let mut r = join("op ", to_decimal(op as u64).as_str());
                r.append(" has ");
                r.append(to_decimal(count as u64).as_str());
                r.append(" inputs; arena planner supports at most 4 per op");
                r
            },
            ArenaError::TooManyOutputs { op, count } => {
                let mut r = join("op ", to_decimal(op as u64).as_str());
                r.append(" has ");
                r.append(to_decimal(count as u64).as_str());
                r.append(" outputs; arena planner supports at most 4 per op");
                r
            },
            ArenaError::Layout(LayoutError::Oversized) => "arena plan failed: Oversized".to_owned(),
            ArenaError::Layout(LayoutError::OutOfBudget) => {
                "arena plan failed: OutOfBudget".to_owned()
            },
        }
    }
}

/// The bytes of one element; zero for a type that no arena holds.
pub open spec fn element_bytes(t: TensorType) -> int {
    match t {
        TensorType::Float32 | TensorType::Uint32 | TensorType::Int32 | TensorType::Complex64 => 4,
        TensorType::Float16 | TensorType::Int16 | TensorType::Uint16 => 2,
        TensorType::Int8 | TensorType::Uint8 | TensorType::Bool => 1,
        TensorType::Int64 | TensorType::Uint64 | TensorType::Float64 => 8,
        TensorType::Complex128 => 16,
        TensorType::String
        | TensorType::Variant
        | TensorType::Resource
        | TensorType::Int4
        | TensorType::Unknown => 0,
    }
}

/// The bytes of a tensor, saturated; zero where a dimension is unknown or
/// empty.
pub open spec fn byte_size(t: ParsedTensor) -> int {
    let exact = crate::shape::product_of(t.shape@) * element_bytes(t.tensor_type);
    if !crate::shape::all_positive(t.shape@) {
        0
    } else if exact > usize::MAX {
        usize::MAX as int
    } else {
        exact
    }
}

/// The entries of a list that name one of `count` tensors, in order.
pub open spec fn existing(list: Seq<u32>, count: nat) -> Seq<u32> {
    list.filter(|t: u32| t != NO_TENSOR && t < count)
}

/// A list of at most four tensors, filled up with zeros.
pub open spec fn four(list: Seq<u32>) -> Seq<u16> {
    Seq::new(
        4,
        |k: int|
            if k < list.len() {
                list[k] as u16
            } else {
                0
            },
    )
}

/// Whether an entry of the schedule describes an operator.
pub open spec fn describes(info: OpInfo, op: ParsedOp, count: nat) -> bool {
    let read = existing(op.inputs@, count);
    let written = existing(op.outputs@, count);
    &&& info.op_kind == (if 0 <= op.builtin_code <= 0xffff {
        op.builtin_code as u16
    } else {
        0
    })
    &&& info.input_ids@ == four(read)
    &&& info.input_count == read.len()
    &&& info.output_ids@ == four(written)
    &&& info.output_count == written.len()
    &&& info.in_place == (read.len() > 0 && written.len() > 0 && read[0] == written[0])
}

/// What is wrong with the operator at an index, where something is.
pub open spec fn excess(op: ParsedOp, index: int, count: nat) -> Option<ArenaError> {
    let reads = existing(op.inputs@, count).len();
    let writes = existing(op.outputs@, count).len();
    if reads > MAX_IO_PER_OP {
        Some(ArenaError::TooManyInputs { op: index as usize, count: reads as usize })
    } else if writes > MAX_IO_PER_OP {
        Some(ArenaError::TooManyOutputs { op: index as usize, count: writes as usize })
    } else {
        None
    }
}

/// What is wrong with the first operators, where something is.
pub open spec fn first_excess(ops: Seq<ParsedOp>, count: nat) -> Option<ArenaError>
    decreases ops.len(),
{
    if ops.len() == 0 {
        None
    } else {
        match first_excess(ops.drop_last(), count) {
            Some(e) => Some(e),
            None => excess(ops.last(), ops.len() - 1, count),
        }
    }
}

/// Why the planner cannot be asked about a model, where it cannot.
pub open spec fn refusal(model: ParsedModel) -> Option<ArenaError> {
    if model.tensors@.len() > MAX_TENSORS {
        Some(ArenaError::TooManyTensors { count: model.tensors@.len() as usize })
    } else {
        first_excess(model.ops@, model.tensors@.len())
    }
}

/// Whether a request describes a model.
pub open spec fn requests(
    request: ArenaRequest,
    model: ParsedModel,
    max_internal: usize,
    psram_budget: Option<usize>,
) -> bool {
    let count = model.tensors@.len();
    &&& request.schedule@.len() == model.ops@.len()
    &&& forall|k: int|
        0 <= k < model.ops@.len() ==> describes(
            #[trigger] request.schedule@[k],
            model.ops@[k],
            count,
        )
    &&& request.sizes@ == Seq::new(count, |k: int| byte_size(model.tensors@[k]) as usize)
    &&& request.model_inputs@ == existing(model.inputs@, count).map_values(|t: u32| t as u16)
    &&& request.model_outputs@ == existing(model.outputs@, count).map_values(|t: u32| t as u16)
    &&& request.max_internal == max_internal
    &&& request.psram_budget == psram_budget
}

/// The bytes of one element; zero for a type that no arena holds.
pub fn element_size(t: TensorType) -> (r: usize)
    ensures
        r == element_bytes(t),
{
    match t {
        TensorType::Float32 | TensorType::Uint32 | TensorType::Int32 | TensorType::Complex64 => 4,
        TensorType::Float16 | TensorType::Int16 | TensorType::Uint16 => 2,
        TensorType::Int8 | TensorType::Uint8 | TensorType::Bool => 1,
        TensorType::Int64 | TensorType::Uint64 | TensorType::Float64 => 8,
        TensorType::Complex128 => 16,
        TensorType::String
        | TensorType::Variant
        | TensorType::Resource
        | TensorType::Int4
        | TensorType::Unknown => 0,
    }
}

/// The bytes of a tensor, saturated; zero where a dimension is unknown or
/// empty.
pub fn tensor_byte_size(t: &ParsedTensor) -> (r: usize)
    ensures
        r == byte_size(*t),
{
    let count: usize = flat_prod(&t.shape);
    let bytes: usize = element_size(t.tensor_type);
    proof {
        let p = crate::shape::product_of(t.shape@);
        let e = element_bytes(t.tensor_type);
        if crate::shape::all_positive(t.shape@) {
            crate::shape::lemma_product_positive(t.shape@);
            assert(p * 0 == 0);
            assert(count * 0 == 0);
            assert(e >= 1 ==> p * e >= p) by (nonlinear_arith)
                requires
                    p >= 1,
            ;
            assert(e >= 1 && count == usize::MAX ==> count * e >= count) by (nonlinear_arith);
        } else {
            assert(0 * e == 0);
        }
    }
    match count.checked_mul(bytes) {
        Some(n) => n,
        None => usize::MAX,
    }
}

/// The bytes of every tensor.
pub fn tensor_byte_sizes(tensors: &Vec<ParsedTensor>) -> (r: Vec<usize>)
    ensures
        r@ == Seq::new(tensors@.len(), |k: int| byte_size(tensors@[k]) as usize),
{
    let mut r: Vec<usize> = Vec::new();
    let mut k: usize = 0;
    while k < tensors.len()
        invariant
            k <= tensors@.len(),
            r@.len() == k,
            forall|j: int| 0 <= j < k ==> #[trigger] r@[j] == byte_size(tensors@[j]) as usize,
        decreases tensors@.len() - k,
    {
        r.push(tensor_byte_size(&tensors[k]));
        k = k + 1;
    }
    assert(r@ =~= Seq::new(tensors@.len(), |k: int| byte_size(tensors@[k]) as usize));
    r
}

/// One more entry is kept where it names a tensor.
proof fn lemma_existing_push(list: Seq<u32>, n: int, count: nat)
    requires
        0 <= n < list.len(),
    ensures
        existing(list.take(n + 1), count) == if list[n] != NO_TENSOR && list[n] < count {
            existing(list.take(n), count).push(list[n])
        } else {
            existing(list.take(n), count)
        },
{
    let head = list.take(n + 1);
    assert(head.drop_last() =~= list.take(n));
    assert(head.last() == list[n]);
    reveal(Seq::filter);
}

/// The entries of a list that name one of `count` tensors, in order.
fn existing_tensors(list: &Vec<u32>, count: usize) -> (r: Vec<u32>)
    ensures
        r@ == existing(list@, count as nat),
{
    let mut r: Vec<u32> = Vec::new();
    let mut k: usize = 0;
    proof {
        reveal(Seq::filter);
        assert(existing(list@.take(0), count as nat) =~= Seq::empty());
    }
    while k < list.len()
        invariant
            k <= list@.len(),
            r@ == existing(list@.take(k as int), count as nat),
        decreases list@.len() - k,
    {
        let t: u32 = list[k];
        proof {
            lemma_existing_push(list@, k as int, count as nat);
        }
        if t != NO_TENSOR && (t as usize) < count {
            r.push(t);
        }
        k = k + 1;
    }
    assert(list@.take(list@.len() as int) =~= list@);
    r
}

fn slot(list: &Vec<u32>, k: usize) -> (r: u16)
    ensures
        r == (if k < list@.len() {
            list@[k as int] as u16
        } else {
            0
        }),
{
    if k < list.len() {
        #[verifier::truncate]
        (list[k] as u16)
    } else {
        0
    }
}

/// A list of at most four tensors, filled up with zeros.
fn four_slots(list: &Vec<u32>) -> (r: [u16; 4])
    ensures
        r@ == four(list@),
{
    let r: [u16; 4] = [slot(list, 0), slot(list, 1), slot(list, 2), slot(list, 3)];
    assert(r@ =~= four(list@));
    r
}

/// The operators in execution order, as the planner sees them. Absent inputs
/// and references to tensors that do not exist are left out.
pub fn build_schedule(tensors: &Vec<ParsedTensor>, ops: &Vec<ParsedOp>) -> (r: Result<
    Vec<OpInfo>,
    ArenaError,
>)
    ensures
        match r {
            Ok(schedule) => {
                &&& first_excess(ops@, tensors@.len()) is None
                &&& schedule@.len() == ops@.len()
                &&& forall|k: int|
                    0 <= k < ops@.len() ==> describes(
                        #[trigger] schedule@[k],
                        ops@[k],
                        tensors@.len(),
                    )
            },
            Err(e) => first_excess(ops@, tensors@.len()) == Some(e),
        },
{
    let count: usize = tensors.len();
    let mut schedule: Vec<OpInfo> = Vec::new();
    let mut i: usize = 0;
    assert(ops@.take(0) =~= Seq::empty());
    while i < ops.len()
        invariant
            count == tensors@.len(),
            i <= ops@.len(),
            first_excess(ops@.take(i as int), count as nat) is None,
            schedule@.len() == i,
            forall|k: int|
                0 <= k < i ==> describes(#[trigger] schedule@[k], ops@[k], count as nat),
        decreases ops@.len() - i,
    {
        let op = &ops[i];
        let read: Vec<u32> = existing_tensors(&op.inputs, count);
        let written: Vec<u32> = existing_tensors(&op.outputs, count);
        proof {
            assert(ops@.take(i + 1).drop_last() =~= ops@.take(i as int));
            assert(ops@.take(i + 1).last() == *op);
            assert(first_excess(ops@.take(i + 1), count as nat) == excess(
                *op,
                i as int,
                count as nat,
            ));
            lemma_first_excess_stays(ops@, i + 1, count as nat);
        }
        if read.len() > MAX_IO_PER_OP {
            return Err(ArenaError::TooManyInputs { op: i, count: read.len() });
        }
        if written.len() > MAX_IO_PER_OP {
            return Err(ArenaError::TooManyOutputs { op: i, count: written.len() });
        }
        let op_kind: u16 = if 0 <= op.builtin_code && op.builtin_code <= 0xffff {
            op.builtin_code as u16
        } else {
            0
        };
        schedule.push(
            OpInfo {
                op_kind,
                input_ids: four_slots(&read),
                input_count: read.len() as u8,
                output_ids: four_slots(&written),
                output_count: written.len() as u8,
                in_place: read.len() > 0 && written.len() > 0 && read[0] == written[0],
            },
        );
        i = i + 1;
    }
    assert(ops@.take(ops@.len() as int) =~= ops@);
    Ok(schedule)
}

/// What is wrong with the first operators is wrong with all.
proof fn lemma_first_excess_stays(ops: Seq<ParsedOp>, n: int, count: nat)
    requires
        0 <= n <= ops.len(),
    ensures
        first_excess(ops.take(n), count) is Some ==> first_excess(ops, count) == first_excess(
            ops.take(n),
            count,
        ),
    decreases ops.len() - n,
{
    if n == ops.len() {
        assert(ops.take(n) =~= ops);
    } else {
        assert(ops.take(n + 1).drop_last() =~= ops.take(n));
        lemma_first_excess_stays(ops, n + 1, count);
    }
}

/// Tensor indices as the planner counts them; references to tensors that do
/// not exist are left out.
pub fn model_io_ids(indices: &Vec<u32>, tensor_count: usize) -> (r: Vec<u16>)
    ensures
        r@ == existing(indices@, tensor_count as nat).map_values(|t: u32| t as u16),
{
    let kept: Vec<u32> = existing_tensors(indices, tensor_count);
    let mut r: Vec<u16> = Vec::new();
    let mut k: usize = 0;
    while k < kept.len()
        invariant
            k <= kept@.len(),
            r@.len() == k,
            forall|j: int| 0 <= j < k ==> #[trigger] r@[j] == kept@[j] as u16,
        decreases kept@.len() - k,
    {
        r.push(
            #[verifier::truncate]
            (kept[k] as u16),
        );
        k = k + 1;
    }
    assert(r@ =~= kept@.map_values(|t: u32| t as u16));
    r
}

/// What the planner is asked about a model, with a budget.
pub fn plan_arena_internal(
    model: &ParsedModel,
    max_internal: usize,
    psram_budget: Option<usize>,
) -> (r: Result<ArenaRequest, ArenaError>)
    ensures
        match r {
            Ok(request) => refusal(*model) is None && requests(
                request,
                *model,
                max_internal,
                psram_budget,
            ),
            Err(e) => refusal(*model) == Some(e),
        },
{
    let count: usize = model.tensors.len();
    if count > MAX_TENSORS {
        return Err(ArenaError::TooManyTensors { count });
    }
    match build_schedule(&model.tensors, &model.ops) {
        Ok(schedule) => Ok(
            ArenaRequest {
                schedule,
                sizes: tensor_byte_sizes(&model.tensors),
                model_inputs: model_io_ids(&model.inputs, count),
                model_outputs: model_io_ids(&model.outputs, count),
                max_internal,
                psram_budget,
            },
        ),
        Err(e) => Err(e),
    }
}

/// What the planner is asked about a model: all tensors in internal memory.
pub fn plan_arena(model: &ParsedModel) -> (r: Result<ArenaRequest, ArenaError>)
    ensures
        match r {
            Ok(request) => refusal(*model) is None && requests(
                request,
                *model,
                MAX_INTERNAL,
                None,
            ),
            Err(e) => refusal(*model) == Some(e),
        },
{
    plan_arena_internal(model, MAX_INTERNAL, None)
}

/// A kept entry stands in the list and names a tensor.
proof fn lemma_existing_exist(list: Seq<u32>, count: nat, k: int)
    requires
        0 <= k < existing(list, count).len(),
    ensures
        existing(list, count)[k] < count,
        list.contains(existing(list, count)[k]),
    decreases list.len(),
{
    reveal(Seq::filter);
    let rest = list.drop_last();
    let t = existing(list, count)[k];
    if k < existing(rest, count).len() {
        lemma_existing_exist(rest, count, k);
        let at = choose|at: int| 0 <= at < rest.len() && rest[at] == t;
        assert(list[at] == t);
    } else {
        assert(list[list.len() - 1] == t);
    }
}

/// Every tensor that the schedule names exists and is an operand of the
/// operator: no index wraps on its way into sixteen bits.
pub proof fn law_schedule_names_operands(
    request: ArenaRequest,
    model: ParsedModel,
    max_internal: usize,
    psram_budget: Option<usize>,
    op: int,
    k: int,
)
    requires
        refusal(model) is None,
        requests(request, model, max_internal, psram_budget),
        0 <= op < model.ops@.len(),
    ensures
        0 <= k < request.schedule@[op].input_count ==> {
            &&& request.schedule@[op].input_ids@[k] < model.tensors@.len()
            &&& model.ops@[op].inputs@.contains(request.schedule@[op].input_ids@[k] as u32)
        },
        0 <= k < request.schedule@[op].output_count ==> {
            &&& request.schedule@[op].output_ids@[k] < model.tensors@.len()
            &&& model.ops@[op].outputs@.contains(request.schedule@[op].output_ids@[k] as u32)
        },
{
    let count = model.tensors@.len();
    lemma_no_excess(model.ops@, op, count);
    assert(describes(request.schedule@[op], model.ops@[op], count));
    if 0 <= k < request.schedule@[op].input_count {
        lemma_existing_exist(model.ops@[op].inputs@, count, k);
    }
    if 0 <= k < request.schedule@[op].output_count {
        lemma_existing_exist(model.ops@[op].outputs@, count, k);
    }
}

/// Where nothing is wrong with all operators, nothing is wrong with one.
proof fn lemma_no_excess(ops: Seq<ParsedOp>, op: int, count: nat)
    requires
        first_excess(ops, count) is None,
        0 <= op < ops.len(),
    ensures
        excess(ops[op], op, count) is None,
    decreases ops.len(),
{
    if op < ops.len() - 1 {
        lemma_no_excess(ops.drop_last(), op, count);
    }
}

/// The tensors that the caller owns are named as the model names them.
pub proof fn law_request_names_model_io(
    request: ArenaRequest,
    model: ParsedModel,
    max_internal: usize,
    psram_budget: Option<usize>,
    k: int,
)
    requires
        refusal(model) is None,
        requests(request, model, max_internal, psram_budget),
    ensures
        0 <= k < request.model_inputs@.len() ==> {
            &&& request.model_inputs@[k] < model.tensors@.len()
            &&& model.is_model_input(request.model_inputs@[k] as u32)
        },
        0 <= k < request.model_outputs@.len() ==> {
            &&& request.model_outputs@[k] < model.tensors@.len()
            &&& model.is_model_output(request.model_outputs@[k] as u32)
        },
{
    let count = model.tensors@.len();
    if 0 <= k < request.model_inputs@.len() {
        lemma_existing_exist(model.inputs@, count, k);
    }
    if 0 <= k < request.model_outputs@.len() {
        lemma_existing_exist(model.outputs@, count, k);
    }
}

/// Whether every entry of a list names one of `count` tensors.
pub open spec fn all_exist(list: Seq<u32>, count: nat) -> bool {
    forall|k: int| 0 <= k < list.len() ==> #[trigger] list[k] < count && list[k] != NO_TENSOR
}

/// What names a tensor is kept, in its place where nothing else stands before
/// it.
proof fn lemma_existing_keeps(list: Seq<u32>, count: nat)
    ensures
        all_exist(list, count) ==> existing(list, count) == list,
        existing(list, count).len() <= list.len(),
        forall|k: int|
            0 <= k < list.len() && #[trigger] list[k] < count && list[k] != NO_TENSOR ==> existing(
                list,
                count,
            ).contains(list[k]),
    decreases list.len(),
{
    reveal(Seq::filter);
    if list.len() == 0 {
        assert(existing(list, count) =~= Seq::empty());
        assert(list =~= Seq::empty());
    } else {
        let rest = list.drop_last();
        let t = list.last();
        lemma_existing_keeps(rest, count);
        let before = existing(rest, count);
        let all = existing(list, count);
        assert(all == if t != NO_TENSOR && t < count {
            before.push(t)
        } else {
            before
        });
        if all_exist(list, count) {
            assert forall|k: int| 0 <= k < rest.len() implies #[trigger] rest[k] < count && rest[k]
                != NO_TENSOR by {
                assert(list[k] < count);
            }
            assert(list[list.len() - 1] < count);
            assert(all =~= list);
        }
        assert forall|k: int|
            0 <= k < list.len() && #[trigger] list[k] < count && list[k]
                != NO_TENSOR implies all.contains(list[k]) by {
            if k < rest.len() {
                assert(rest[k] == list[k]);
                let m = choose|m: int| 0 <= m < before.len() && before[m] == list[k];
                assert(all[m] == list[k]);
            } else {
                assert(all[before.len() as int] == t);
            }
        }
    }
}

/// The planner hears of every operand: an operator whose operands all exist is
/// described by its code and by exactly its inputs and its outputs, in order,
/// and overwrites its input exactly where its first output is its first input.
pub proof fn law_schedule_tells_all_operands(
    request: ArenaRequest,
    model: ParsedModel,
    max_internal: usize,
    psram_budget: Option<usize>,
    op: int,
)
    requires
        refusal(model) is None,
        requests(request, model, max_internal, psram_budget),
        0 <= op < model.ops@.len(),
        all_exist(model.ops@[op].inputs@, model.tensors@.len()),
        all_exist(model.ops@[op].outputs@, model.tensors@.len()),
        0 <= model.ops@[op].builtin_code <= 0xffff,
    ensures
        ({
            let info = request.schedule@[op];
            let inputs = model.ops@[op].inputs@;
            let outputs = model.ops@[op].outputs@;
            &&& request.schedule@.len() == model.ops@.len()
            &&& info.op_kind == model.ops@[op].builtin_code
            &&& info.input_count == inputs.len()
            &&& info.output_count == outputs.len()
            &&& forall|k: int| 0 <= k < inputs.len() ==> #[trigger] info.input_ids@[k] == inputs[k]
            &&& forall|k: int|
                0 <= k < outputs.len() ==> #[trigger] info.output_ids@[k] == outputs[k]
            &&& info.in_place <==> inputs.len() > 0 && outputs.len() > 0 && inputs[0] == outputs[0]
        }),
{
    let count = model.tensors@.len();
    let inputs = model.ops@[op].inputs@;
    let outputs = model.ops@[op].outputs@;
    lemma_no_excess(model.ops@, op, count);
    assert(describes(request.schedule@[op], model.ops@[op], count));
    lemma_existing_keeps(inputs, count);
    lemma_existing_keeps(outputs, count);
    let info = request.schedule@[op];
    assert forall|k: int| 0 <= k < inputs.len() implies #[trigger] info.input_ids@[k]
        == inputs[k] by {
        assert(inputs[k] < count);
    }
    assert forall|k: int| 0 <= k < outputs.len() implies #[trigger] info.output_ids@[k]
        == outputs[k] by {
        assert(outputs[k] < count);
    }
}

/// No operand that exists is left out, whatever stands beside it.
pub proof fn law_schedule_leaves_no_operand_out(
    request: ArenaRequest,
    model: ParsedModel,
    max_internal: usize,
    psram_budget: Option<usize>,
    op: int,
    k: int,
)
    requires
        refusal(model) is None,
        requests(request, model, max_internal, psram_budget),
        0 <= op < model.ops@.len(),
    ensures
        0 <= k < model.ops@[op].inputs@.len() && model.ops@[op].inputs@[k] < model.tensors@.len()
            ==> exists|m: int|
            0 <= m < request.schedule@[op].input_count
                && #[trigger] request.schedule@[op].input_ids@[m] == model.ops@[op].inputs@[k],
        0 <= k < model.ops@[op].outputs@.len() && model.ops@[op].outputs@[k] < model.tensors@.len()
            ==> exists|m: int|
            0 <= m < request.schedule@[op].output_count
                && #[trigger] request.schedule@[op].output_ids@[m] == model.ops@[op].outputs@[k],
{
    let count = model.tensors@.len();
    lemma_no_excess(model.ops@, op, count);
    let info = request.schedule@[op];
    assert(describes(info, model.ops@[op], count));
    let inputs = model.ops@[op].inputs@;
    let outputs = model.ops@[op].outputs@;
    lemma_existing_keeps(inputs, count);
    lemma_existing_keeps(outputs, count);
    if 0 <= k < inputs.len() && inputs[k] < count {
        let kept = existing(inputs, count);
        let m = choose|m: int| 0 <= m < kept.len() && kept[m] == inputs[k];
        assert(info.input_ids@[m] == inputs[k]);
    }
    if 0 <= k < outputs.len() && outputs[k] < count {
        let kept = existing(outputs, count);
        let m = choose|m: int| 0 <= m < kept.len() && kept[m] == outputs[k];
        assert(info.output_ids@[m] == outputs[k]);
    }
}

/// The bytes of a tensor are its elements times the bytes of one: a byte for
/// eight bits, two for sixteen, four for thirty-two, eight for sixty-four.
pub proof fn law_sizes_are_those_of_the_elements(
    request: ArenaRequest,
    model: ParsedModel,
    max_internal: usize,
    psram_budget: Option<usize>,
    t: int,
)
    requires
        requests(request, model, max_internal, psram_budget),
        0 <= t < model.tensors@.len(),
        crate::shape::all_positive(model.tensors@[t].shape@),
        crate::shape::product_of(model.tensors@[t].shape@) * 16 <= usize::MAX,
    ensures
        ({
            let size = request.sizes@[t];
            let count = crate::shape::product_of(model.tensors@[t].shape@);
            let of = model.tensors@[t].tensor_type;
            &&& request.sizes@.len() == model.tensors@.len()
            &&& of is Int8 || of is Uint8 || of is Bool ==> size == count
            &&& of is Int16 || of is Uint16 || of is Float16 ==> size == 2 * count
            &&& of is Int32 || of is Uint32 || of is Float32 ==> size == 4 * count
            &&& of is Int64 || of is Uint64 || of is Float64 ==> size == 8 * count
            &&& request.max_internal == max_internal
            &&& request.psram_budget == psram_budget
        }),
{
    let count = crate::shape::product_of(model.tensors@[t].shape@);
    crate::shape::lemma_product_positive(model.tensors@[t].shape@);
    assert(count * 1 == count && count * 2 == 2 * count && count * 4 == 4 * count && count * 8 == 8
        * count);
}

/// The planner is asked exactly where a model has at most 256 tensors and no
/// operator has more than four inputs or four outputs that exist.
pub proof fn law_small_models_are_planned(model: ParsedModel)
    requires
        forall|i: int|
            0 <= i < model.ops@.len() ==> all_exist(
                (#[trigger] model.ops@[i]).inputs@,
                model.tensors@.len(),
            ) && all_exist(model.ops@[i].outputs@, model.tensors@.len()),
    ensures
        refusal(model) is None <==> model.tensors@.len() <= 256 && forall|i: int|
            0 <= i < model.ops@.len() ==> (#[trigger] model.ops@[i]).inputs@.len() <= 4
                && model.ops@[i].outputs@.len() <= 4,
{
    let count = model.tensors@.len();
    lemma_excess_of_operators(model.ops@, count);
    assert forall|i: int| 0 <= i < model.ops@.len() implies (excess(
        #[trigger] model.ops@[i],
        i,
        count,
    ) is None <==> model.ops@[i].inputs@.len() <= 4 && model.ops@[i].outputs@.len() <= 4) by {
        lemma_existing_keeps(model.ops@[i].inputs@, count);
        lemma_existing_keeps(model.ops@[i].outputs@, count);
    }
}

proof fn lemma_excess_of_operators(ops: Seq<ParsedOp>, count: nat)
    ensures
        first_excess(ops, count) is None <==> forall|i: int|
            0 <= i < ops.len() ==> excess(#[trigger] ops[i], i, count) is None,
    decreases ops.len(),
{
    if ops.len() > 0 {
        let rest = ops.drop_last();
        lemma_excess_of_operators(rest, count);
        if forall|i: int| 0 <= i < ops.len() ==> excess(#[trigger] ops[i], i, count) is None {
            assert forall|i: int| 0 <= i < rest.len() implies excess(
                #[trigger] rest[i],
                i,
                count,
            ) is None by {
                assert(excess(ops[i], i, count) is None);
            }
            assert(excess(ops[ops.len() - 1], ops.len() - 1, count) is None);
        }
        if first_excess(ops, count) is None {
            assert forall|i: int| 0 <= i < ops.len() implies excess(
                #[trigger] ops[i],
                i,
                count,
            ) is None by {
                if i < rest.len() {
                    assert(rest[i] == ops[i]);
                }
            }
        }
    }
}

/// Lists are gone through entry by entry: an entry that names a tensor is kept,
/// in order, and any other is dropped.
pub proof fn law_entries_are_kept_in_order(list: Seq<u32>, t: u32, count: nat)
    ensures
        existing(Seq::empty(), count).len() == 0,
        t < count && t != 0xffff_ffff ==> existing(list.push(t), count) == existing(
            list,
            count,
        ).push(t),
        t >= count || t == 0xffff_ffff ==> existing(list.push(t), count) == existing(list, count),
{
    reveal(Seq::filter);
    assert(list.push(t).drop_last() =~= list);
    assert(list.push(t).last() == t);
}

/// The planner hears of all inputs and outputs of a model.
pub proof fn law_requests_name_all_inputs_and_outputs(
    request: ArenaRequest,
    model: ParsedModel,
    max_internal: usize,
    psram_budget: Option<usize>,
    k: int,
)
    requires
        refusal(model) is None,
        requests(request, model, max_internal, psram_budget),
        all_exist(model.inputs@, model.tensors@.len()),
        all_exist(model.outputs@, model.tensors@.len()),
    ensures
        request.model_inputs@.len() == model.inputs@.len(),
        request.model_outputs@.len() == model.outputs@.len(),
        0 <= k < model.inputs@.len() ==> request.model_inputs@[k] == model.inputs@[k],
        0 <= k < model.outputs@.len() ==> request.model_outputs@[k] == model.outputs@[k],
{
    lemma_existing_keeps(model.inputs@, model.tensors@.len());
    lemma_existing_keeps(model.outputs@, model.tensors@.len());
    if 0 <= k < model.inputs@.len() {
        assert(model.inputs@[k] < model.tensors@.len());
    }
    if 0 <= k < model.outputs@.len() {
        assert(model.outputs@[k] < model.tensors@.len());
    }
}

/// A tensor with an unknown dimension, or of a type that no arena holds, has no
/// bytes, and a size that is no machine word is the largest one.
pub proof fn law_sizes_are_words(tensor: ParsedTensor)
    ensures
        !crate::shape::all_positive(tensor.shape@) ==> byte_size(tensor) == 0,
        tensor.tensor_type is String || tensor.tensor_type is Variant
            || tensor.tensor_type is Resource || tensor.tensor_type is Int4
            || tensor.tensor_type is Unknown ==> byte_size(tensor) == 0,
        crate::shape::all_positive(tensor.shape@) && crate::shape::product_of(tensor.shape@)
            > usize::MAX && (tensor.tensor_type is Int8 || tensor.tensor_type is Int32)
            ==> byte_size(tensor) == usize::MAX,
        0 <= byte_size(tensor) <= usize::MAX,
{
    let n = crate::shape::product_of(tensor.shape@);
    if crate::shape::all_positive(tensor.shape@) {
        crate::shape::lemma_product_positive(tensor.shape@);
    }
    assert(n * 0 == 0 && n * 1 == n && n * 2 == 2 * n && n * 4 == 4 * n && n * 8 == 8 * n && n * 16
        == 16 * n);
}

/// Where the planner cannot be asked, the error tells the operator and how many
/// operands are too many.
pub proof fn law_refused_operators_are_named(ops: Seq<ParsedOp>, count: nat)
    requires
        ops.len() <= usize::MAX,
    ensures
        first_excess(ops, count) matches Some(e) ==> match e {
            ArenaError::TooManyInputs { op, count: n } => op < ops.len() && n == existing(
                ops[op as int].inputs@,
                count,
            ).len() && n > 4,
            ArenaError::TooManyOutputs { op, count: n } => op < ops.len() && n == existing(
                ops[op as int].outputs@,
                count,
            ).len() && n > 4 && existing(ops[op as int].inputs@, count).len() <= 4,
            _ => false,
        },
    decreases ops.len(),
{
    if ops.len() > 0 {
        let rest = ops.drop_last();
        law_refused_operators_are_named(rest, count);
        let op = ops.last();
        lemma_existing_keeps(op.inputs@, count);
        lemma_existing_keeps(op.outputs@, count);
        assert(op.inputs@.len() == op.inputs.len());
        assert(op.outputs@.len() == op.outputs.len());
    }
}

} // verus!
