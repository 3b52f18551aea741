//! Shared data types of the compiler and the CPU simulator, with the
//! mathematical views that the contracts speak of.

use vstd::prelude::*;
use crate::maps::{MemoryMap, RegisterMap};

verus! {

/// Classification of one lexical unit.
#[derive(Debug, Clone, Copy, PartialEq, Eq, Structural)]
pub enum TokenType {
    Keyword,
    Identifier,
    Number,
    String,
    Operator,
    Delimiter,
    Whitespace,
    Comment,
}

/// One classified lexical unit: its kind, its text, and the character
/// offset in the source at which it starts.
#[derive(Debug)]
pub struct Token {
    pub token_type: TokenType,
    pub value: String,
    pub position: usize,
}

/// Mathematical value of a [`Token`].
#[verifier::ext_equal]
pub ghost struct TokenV {
    pub token_type: TokenType,
    pub value: Seq<char>,
    pub position: int,
}

impl View for Token {
    type V = TokenV;

    open spec fn view(&self) -> TokenV {
        TokenV { token_type: self.token_type, value: self.value@, position: self.position as int }
    }
}

/// The views of a sequence of tokens.
pub open spec fn tokens_view(ts: Seq<Token>) -> Seq<TokenV> {
    ts.map_values(|t: Token| t@)
}

impl Token {
    /// An exact copy: every field of the result reads the same.
    pub fn duplicate(&self) -> (r: Token)
        ensures
            r@ == self@,
    {
        Token {
            token_type: self.token_type,
            value: self.value.clone(),
            position: self.position,
        }
    }
}

/// Kind tag of a syntax-tree node.
#[derive(Debug, Clone, Copy, PartialEq, Eq, Structural)]
pub enum ASTNodeType {
    Program,
    Function,
    Declaration,
    Assignment,
    Expression,
    Statement,
    Block,
}

/// One syntax-tree node: a kind, a text value, and an ordered list of
/// owned children.
#[derive(Debug)]
pub struct ASTNode {
    pub node_type: ASTNodeType,
    pub value: String,
    pub children: Vec<ASTNode>,
}

/// Mathematical value of an [`ASTNode`]: the same tree over sequences.
#[verifier::ext_equal]
pub ghost struct NodeV {
    pub node_type: ASTNodeType,
    pub value: Seq<char>,
    pub children: Seq<NodeV>,
}

/// The view of a syntax-tree node, taken recursively over its children.
pub open spec fn node_view(n: ASTNode) -> NodeV
    decreases n,
{
    NodeV {
        node_type: n.node_type,
        value: n.value@,
        children: {
            proof {
                assert(decreases_to!(n => n.children));
                assert(decreases_to!(n.children => n.children@));
            }
            nodes_view(n.children@)
        },
    }
}

/// The views of a sequence of syntax-tree nodes, element by element.
pub open spec fn nodes_view(ns: Seq<ASTNode>) -> Seq<NodeV>
    decreases ns,
{
    if ns.len() == 0 {
        Seq::empty()
    } else {
        {
            proof {
                assert(decreases_to!(ns => ns[0]));
                assert(ns.drop_first() == ns.subrange(1, ns.len() as int));
            }
            seq![node_view(ns[0])] + nodes_view(ns.drop_first())
        }
    }
}

/// `nodes_view` maps `node_view` over the sequence, index by index.
pub proof fn lemma_nodes_view(ns: Seq<ASTNode>)
    ensures
        nodes_view(ns).len() == ns.len(),
        forall|i: int| 0 <= i < ns.len() ==> nodes_view(ns)[i] == node_view(ns[i]),
    decreases ns.len(),
{
    if ns.len() > 0 {
        lemma_nodes_view(ns.drop_first());
    }
}

impl View for ASTNode {
    type V = NodeV;

    open spec fn view(&self) -> NodeV {
        node_view(*self)
    }
}

impl ASTNode {
    /// An exact copy of the whole tree.
    pub fn duplicate(&self) -> (r: ASTNode)
        ensures
            r@ == self@,
        decreases *self,
    {
        let mut children: Vec<ASTNode> = Vec::new();
        let n = self.children.len();
        for i in 0..n
            invariant
                n == self.children@.len(),
                children@.len() == i,
                forall|k: int| 0 <= k < i ==> #[trigger] children@[k]@ == self.children@[k]@,
        {
            proof {
                assert(decreases_to!(*self => self.children));
                assert(decreases_to!(self.children => self.children@));
                assert(decreases_to!(self.children@ => self.children@[i as int]));
            }
            children.push(self.children[i].duplicate());
        }
        let r = ASTNode { node_type: self.node_type, value: self.value.clone(), children };
        proof {
            lemma_nodes_view(r.children@);
            lemma_nodes_view(self.children@);
            assert forall|k: int| 0 <= k < r.children@.len() implies nodes_view(r.children@)[k]
                == nodes_view(self.children@)[k] by {
                assert(r.children@[k]@ == self.children@[k]@);
                assert(nodes_view(r.children@)[k] == node_view(r.children@[k]));
                assert(nodes_view(self.children@)[k] == node_view(self.children@[k]));
            }
            assert(nodes_view(r.children@) =~= nodes_view(self.children@));
            assert(r@ =~~= self@);
        }
        r
    }
}

/// Number of nodes in a tree.
pub open spec fn node_size(n: NodeV) -> int
    decreases n, 0int,
{
    {
        proof {
            assert(decreases_to!(n => n.children));
        }
        1 + children_size(n.children, 0)
    }
}

/// Number of nodes in the trees of `cs` from index `i` on.
pub open spec fn children_size(cs: Seq<NodeV>, i: int) -> int
    decreases cs, cs.len() - i,
{
    if i < 0 || i >= cs.len() {
        0
    } else {
        {
            proof {
                assert(decreases_to!(cs => cs[i]));
            }
            node_size(cs[i]) + children_size(cs, i + 1)
        }
    }
}

/// A tree has at least one node; a forest has none or more.
pub proof fn lemma_node_size_pos(n: NodeV)
    ensures
        node_size(n) >= 1,
    decreases n, 0int,
{
    assert(decreases_to!(n => n.children));
    lemma_children_size_nonneg(n.children, 0);
}

/// See [`lemma_node_size_pos`].
pub proof fn lemma_children_size_nonneg(cs: Seq<NodeV>, i: int)
    ensures
        children_size(cs, i) >= 0,
    decreases cs, cs.len() - i,
{
    if 0 <= i < cs.len() {
        assert(decreases_to!(cs => cs[i]));
        lemma_node_size_pos(cs[i]);
        lemma_children_size_nonneg(cs, i + 1);
    }
}

/// Kind tag of a generated instruction.
#[derive(Debug, Clone, Copy, PartialEq, Eq, Structural)]
pub enum InstructionType {
    Arithmetic,
    Logic,
    Memory,
    Control,
    DataTransfer,
}

/// One unit of generated, simulator-executable work. The `machine_code`
/// field is a display-only hex rendering, not an executable encoding.
#[derive(Debug)]
pub struct Instruction {
    pub id: String,
    pub instruction_type: InstructionType,
    pub mnemonic: String,
    pub operands: Vec<String>,
    pub machine_code: String,
    pub description: String,
    pub cycles: u32,
}

/// Mathematical value of an [`Instruction`].
#[verifier::ext_equal]
pub ghost struct InstrV {
    pub id: Seq<char>,
    pub instruction_type: InstructionType,
    pub mnemonic: Seq<char>,
    pub operands: Seq<Seq<char>>,
    pub machine_code: Seq<char>,
    pub description: Seq<char>,
    pub cycles: u32,
}

impl View for Instruction {
    type V = InstrV;

    open spec fn view(&self) -> InstrV {
        InstrV {
            id: self.id@,
            instruction_type: self.instruction_type,
            mnemonic: self.mnemonic@,
            operands: self.operands.deep_view(),
            machine_code: self.machine_code@,
            description: self.description@,
            cycles: self.cycles,
        }
    }
}

/// The views of a sequence of instructions.
pub open spec fn instrs_view(is: Seq<Instruction>) -> Seq<InstrV> {
    is.map_values(|i: Instruction| i@)
}

impl Instruction {
    /// An exact copy: every field of the result reads the same.
    pub fn duplicate(&self) -> (r: Instruction)
        ensures
            r@ == self@,
    {
        let mut operands: Vec<String> = Vec::new();
        let ghost target = self.operands.deep_view();
        for k in 0..self.operands.len()
            invariant
                operands@.len() == k,
                target == self.operands.deep_view(),
                forall|i: int| 0 <= i < k ==> operands@[i]@ == target[i],
        {
            let ghost pre = operands@;
            operands.push(self.operands[k].clone());
            proof {
                assert forall|i: int| 0 <= i < k + 1 implies operands@[i]@ == target[i] by {
                    if i < k {
                        assert(operands@[i] == pre[i]);
                    }
                }
            }
        }
        proof {
            assert(operands.deep_view() =~= target);
        }
        Instruction {
            id: self.id.clone(),
            instruction_type: self.instruction_type,
            mnemonic: self.mnemonic.clone(),
            operands,
            machine_code: self.machine_code.clone(),
            description: self.description.clone(),
            cycles: self.cycles,
        }
    }
}

/// Result of one whole run of the compilation pipeline.
#[derive(Debug)]
pub struct CompilationResult {
    pub success: bool,
    pub instructions: Vec<Instruction>,
    pub errors: Vec<String>,
    pub warnings: Vec<String>,
    pub compilation_time: u64,
}

/// The processor flags. `carry`, `overflow` and `parity` are structurally
/// present but never computed by the current arithmetic semantics; only
/// `zero` and `negative` follow results.
#[derive(Debug, Clone, Copy, PartialEq, Eq, Structural)]
pub struct FlagsState {
    pub zero: bool,
    pub carry: bool,
    pub overflow: bool,
    pub negative: bool,
    pub parity: bool,
}

/// One phase of classic staged instruction execution.
#[derive(Debug, Clone, Copy, PartialEq, Eq, Structural)]
pub enum ExecutionStage {
    Fetch,
    Decode,
    Execute,
    MemoryAccess,
    WriteBack,
    Complete,
}

/// The register file: general registers hold user-visible values, special
/// registers hold control state such as the instruction pointer.
#[derive(Debug)]
pub struct RegisterState {
    pub general: RegisterMap,
    pub special: RegisterMap,
}

/// Mathematical value of a [`RegisterState`].
#[verifier::ext_equal]
pub ghost struct RegsV {
    pub general: Map<Seq<char>, i64>,
    pub special: Map<Seq<char>, i64>,
}

impl View for RegisterState {
    type V = RegsV;

    open spec fn view(&self) -> RegsV {
        RegsV { general: self.general@, special: self.special@ }
    }
}

/// Data memory, a stack and a heap.
#[derive(Debug)]
pub struct MemoryState {
    pub data: MemoryMap,
    pub stack: Vec<i64>,
    pub heap: MemoryMap,
}

/// Mathematical value of a [`MemoryState`].
#[verifier::ext_equal]
pub ghost struct MemV {
    pub data: Map<u64, i64>,
    pub stack: Seq<i64>,
    pub heap: Map<u64, i64>,
}

impl View for MemoryState {
    type V = MemV;

    open spec fn view(&self) -> MemV {
        MemV { data: self.data@, stack: self.stack@, heap: self.heap@ }
    }
}

/// The full architectural state of the simulated processor.
#[derive(Debug)]
pub struct CPUState {
    pub registers: RegisterState,
    pub memory: MemoryState,
    pub flags: FlagsState,
    pub program_counter: u64,
    pub stack_pointer: u64,
    pub current_instruction: Option<Instruction>,
    pub execution_stage: ExecutionStage,
}

/// Mathematical value of a [`CPUState`].
#[verifier::ext_equal]
pub ghost struct CpuV {
    pub registers: RegsV,
    pub memory: MemV,
    pub flags: FlagsState,
    pub program_counter: u64,
    pub stack_pointer: u64,
    pub current_instruction: Option<InstrV>,
    pub execution_stage: ExecutionStage,
}

impl View for CPUState {
    type V = CpuV;

    open spec fn view(&self) -> CpuV {
        CpuV {
            registers: self.registers@,
            memory: self.memory@,
            flags: self.flags,
            program_counter: self.program_counter,
            stack_pointer: self.stack_pointer,
            current_instruction: match self.current_instruction {
                Some(i) => Some(i@),
                None => None,
            },
            execution_stage: self.execution_stage,
        }
    }
}

/// The all-zero, all-empty architectural state.
pub open spec fn cpu_default() -> CpuV {
    CpuV {
        registers: RegsV { general: Map::empty(), special: Map::empty() },
        memory: MemV { data: Map::empty(), stack: Seq::empty(), heap: Map::empty() },
        flags: FlagsState {
            zero: false,
            carry: false,
            overflow: false,
            negative: false,
            parity: false,
        },
        program_counter: 0,
        stack_pointer: 0,
        current_instruction: None,
        execution_stage: ExecutionStage::Fetch,
    }
}

impl Default for CPUState {
    /// The all-zero, all-empty architectural state.
    fn default() -> (r: CPUState)
        ensures
            r@ == cpu_default(),
    {
        let r = CPUState {
            registers: RegisterState { general: RegisterMap::new(), special: RegisterMap::new() },
            memory: MemoryState {
                data: MemoryMap::new(),
                stack: Vec::new(),
                heap: MemoryMap::new(),
            },
            flags: FlagsState {
                zero: false,
                carry: false,
                overflow: false,
                negative: false,
                parity: false,
            },
            program_counter: 0,
            stack_pointer: 0,
            current_instruction: None,
            execution_stage: ExecutionStage::Fetch,
        };
        proof {
            assert(r@.memory.stack =~= cpu_default().memory.stack);
        }
        r
    }
}

impl CPUState {
    /// An exact copy: a snapshot denoting the same architectural state.
    pub fn duplicate(&self) -> (r: CPUState)
        ensures
            r@ == self@,
    {
        let mut stack: Vec<i64> = Vec::new();
        for k in 0..self.memory.stack.len()
            invariant
                stack@ == self.memory.stack@.take(k as int),
        {
            stack.push(self.memory.stack[k]);
            proof {
                assert(stack@ =~= self.memory.stack@.take(k + 1));
            }
        }
        proof {
            assert(self.memory.stack@.take(self.memory.stack@.len() as int)
                =~= self.memory.stack@);
        }
        CPUState {
            registers: RegisterState {
                general: self.registers.general.duplicate(),
                special: self.registers.special.duplicate(),
            },
            memory: MemoryState {
                data: self.memory.data.duplicate(),
                stack,
                heap: self.memory.heap.duplicate(),
            },
            flags: self.flags,
            program_counter: self.program_counter,
            stack_pointer: self.stack_pointer,
            current_instruction: match &self.current_instruction {
                Some(i) => Some(i.duplicate()),
                None => None,
            },
            execution_stage: self.execution_stage,
        }
    }
}

// ---------------------------------------------------------------------------
// Inert data types of the surrounding teaching material. They carry no
// logic of their own; the pipeline never reads them.
// ---------------------------------------------------------------------------

/// One layer of the educational "system layers" material.
#[derive(Debug)]
pub struct SystemLayer {
    pub id: String,
    pub name: String,
    pub name_en: String,
    pub description: String,
    pub level: u32,
    pub color: String,
    pub icon: String,
    pub concepts: Vec<Concept>,
    pub interfaces: Vec<LayerInterface>,
    pub examples: Vec<String>,
}

/// One concept taught within a system layer.
#[derive(Debug)]
pub struct Concept {
    pub id: String,
    pub name: String,
    pub name_en: String,
    pub description: String,
    pub examples: Vec<String>,
    pub related_concepts: Vec<String>,
}

/// A described interface between two system layers.
#[derive(Debug)]
pub struct LayerInterface {
    pub id: String,
    pub name: String,
    pub description: String,
    pub from_layer: String,
    pub to_layer: String,
    pub interface_type: InterfaceType,
    pub protocols: Vec<String>,
}

/// Direction of a layer interface.
#[derive(Debug, Clone, Copy, PartialEq, Eq, Structural)]
pub enum InterfaceType {
    Upward,
    Downward,
    Bidirectional,
}

/// The whole layered-system description.
#[derive(Debug)]
pub struct HierarchyData {
    pub layers: Vec<SystemLayer>,
    pub total_levels: u32,
    pub description: String,
}

/// An operand as displayed in the teaching material.
#[derive(Debug)]
pub struct Operand {
    pub operand_type: OperandType,
    pub value: OperandValue,
    pub size: u32,
}

/// Addressing class of a displayed operand.
#[derive(Debug, Clone, Copy, PartialEq, Eq, Structural)]
pub enum OperandType {
    Register,
    Immediate,
    Memory,
    Label,
}

/// Payload of a displayed operand.
#[derive(Debug)]
pub enum OperandValue {
    String(String),
    Number(i64),
}

/// One displayed step of the compilation walkthrough.
#[derive(Debug)]
pub struct CompilationStep {
    pub id: String,
    pub stage: CompilationStage,
    pub input: String,
    pub output: String,
    pub description: String,
    pub details: Vec<String>,
}

/// Phase label of a compilation walkthrough step.
#[derive(Debug, Clone, Copy, PartialEq, Eq, Structural)]
pub enum CompilationStage {
    LexicalAnalysis,
    SyntaxAnalysis,
    SemanticAnalysis,
    IntermediateCode,
    Optimization,
    CodeGeneration,
    Assembly,
}

/// A piece of source text together with its language label.
#[derive(Debug)]
pub struct SourceCode {
    pub id: String,
    pub language: ProgrammingLanguage,
    pub content: String,
    pub file_name: String,
}

/// Language label of a source-code sample.
#[derive(Debug, Clone, Copy, PartialEq, Eq, Structural)]
pub enum ProgrammingLanguage {
    C,
    Cpp,
    Java,
    Python,
    JavaScript,
}

/// The displayed state of a whole simulator session.
#[derive(Debug)]
pub struct SimulatorState {
    pub is_running: bool,
    pub is_paused: bool,
    pub current_step: u32,
    pub total_steps: u32,
    pub execution_speed: u32,
    pub breakpoints: Vec<u32>,
    pub source_code: Option<SourceCode>,
    pub compilation_steps: Vec<CompilationStep>,
    pub instructions: Vec<Instruction>,
    pub cpu_state: CPUState,
}

impl Default for SimulatorState {
    /// A stopped session: nothing loaded, one instruction per second, and
    /// the all-zero architectural state.
    fn default() -> (r: SimulatorState)
        ensures
            !r.is_running,
            !r.is_paused,
            r.current_step == 0,
            r.total_steps == 0,
            r.execution_speed == 1,
            r.breakpoints@.len() == 0,
            r.source_code is None,
            r.compilation_steps@.len() == 0,
            r.instructions@.len() == 0,
            r.cpu_state@ == cpu_default(),
    {
        SimulatorState {
            is_running: false,
            is_paused: false,
            current_step: 0,
            total_steps: 0,
            execution_speed: 1,
            breakpoints: Vec::new(),
            source_code: None,
            compilation_steps: Vec::new(),
            instructions: Vec::new(),
            cpu_state: CPUState::default(),
        }
    }
}

} // verus!
