//! The code generator: walks the syntax tree and emits an ordered
//! sequence of immutable instruction records. Only a declaration with at
//! least two children whose second child's text is a 64-bit integer
//! literal emits code — a load of the literal into the accumulator
//! register, then a store of the accumulator to the next free memory
//! slot. Every other node shape is traversed without emission.

use vstd::prelude::*;
use crate::text::{dec_of, dec_of_int, hex_of_min, i64_bits, i64_bits_exec, i64_to_dec,
    parse_i64, spec_parse_i64, u64_to_dec, u64_to_hex_min};
use crate::types::{ASTNode, ASTNodeType, Instruction, InstructionType, InstrV, NodeV, instrs_view,
    children_size, lemma_children_size_nonneg, lemma_node_size_pos, lemma_nodes_view, node_size,
    node_view, nodes_view};

verus! {

// ---------------------------------------------------------------------------
// Generation specification.
// ---------------------------------------------------------------------------

/// The load-literal instruction: moves literal `v` into the accumulator
/// register EAX. `base` is the index the instruction takes in the
/// generated sequence.
pub open spec fn mov_instr(v: int, base: int) -> InstrV {
    InstrV {
        id: "mov_"@ + dec_of(base),
        instruction_type: InstructionType::DataTransfer,
        mnemonic: "MOV"@,
        operands: seq!["EAX"@, dec_of_int(v)],
        machine_code: "B8"@ + hex_of_min(i64_bits(v), 8),
        description: "load value "@ + dec_of_int(v) + " into EAX"@,
        cycles: 1,
    }
}

/// The store instruction: stores the accumulator register EAX to memory
/// address `off`. `base` is the index the instruction takes in the
/// generated sequence.
pub open spec fn store_instr(off: int, base: int) -> InstrV {
    InstrV {
        id: "store_"@ + dec_of(base),
        instruction_type: InstructionType::Memory,
        mnemonic: "MOV"@,
        operands: seq!["["@ + dec_of(off) + "]"@, "EAX"@],
        machine_code: "8905"@ + hex_of_min(off, 8),
        description: "store EAX to memory address "@ + dec_of(off),
        cycles: 2,
    }
}

/// Whether a node emits code: a declaration with at least two children
/// whose second child's text is a 64-bit integer literal.
pub open spec fn emits(n: NodeV) -> bool {
    n.node_type == ASTNodeType::Declaration && n.children.len() >= 2 && spec_parse_i64(
        n.children[1].value,
    ) is Some
}

/// The instructions a node emits and the memory offset left behind,
/// starting with instruction index `base` and memory offset `off`.
pub open spec fn gen_node(n: NodeV, base: int, off: int) -> (Seq<InstrV>, int)
    decreases n, 0int,
{
    if n.node_type == ASTNodeType::Declaration {
        if emits(n) {
            let v = spec_parse_i64(n.children[1].value)->Some_0;
            (seq![mov_instr(v, base), store_instr(off, base + 1)], off + 4)
        } else {
            (Seq::empty(), off)
        }
    } else {
        {
            proof {
                assert(decreases_to!(n => n.children));
            }
            gen_children(n.children, 0, base, off)
        }
    }
}

/// The instructions the children from index `i` on emit, one after the
/// other, threading the instruction index and the memory offset through.
pub open spec fn gen_children(cs: Seq<NodeV>, i: int, base: int, off: int) -> (Seq<InstrV>, int)
    decreases cs, cs.len() - i,
{
    if i < 0 || i >= cs.len() {
        (Seq::empty(), off)
    } else {
        {
            proof {
                assert(decreases_to!(cs => cs[i]));
            }
            let (first, off1) = gen_node(cs[i], base, off);
            let (rest, off2) = gen_children(cs, i + 1, base + first.len(), off1);
            (first + rest, off2)
        }
    }
}

/// Generation never decreases the memory offset.
pub proof fn lemma_gen_node_off(n: NodeV, base: int, off: int)
    ensures
        gen_node(n, base, off).1 >= off,
    decreases n, 0int,
{
    if n.node_type == ASTNodeType::Declaration {
    } else {
        assert(decreases_to!(n => n.children));
        lemma_gen_children_off(n.children, 0, base, off);
    }
}

/// Threading the offset through a child list never decreases it.
pub proof fn lemma_gen_children_off(cs: Seq<NodeV>, i: int, base: int, off: int)
    ensures
        gen_children(cs, i, base, off).1 >= off,
    decreases cs, cs.len() - i,
{
    if 0 <= i < cs.len() {
        assert(decreases_to!(cs => cs[i]));
        lemma_gen_node_off(cs[i], base, off);
        let (first, off1) = gen_node(cs[i], base, off);
        lemma_gen_children_off(cs, i + 1, base + first.len(), off1);
    }
}

/// The memory offset grows by at most four per node of the tree.
pub proof fn lemma_gen_node_size(n: NodeV, base: int, off: int)
    ensures
        gen_node(n, base, off).1 <= off + 4 * node_size(n),
    decreases n, 0int,
{
    lemma_node_size_pos(n);
    if n.node_type == ASTNodeType::Declaration {
    } else {
        assert(decreases_to!(n => n.children));
        lemma_gen_children_size(n.children, 0, base, off);
    }
}

/// See [`lemma_gen_node_size`].
pub proof fn lemma_gen_children_size(cs: Seq<NodeV>, i: int, base: int, off: int)
    ensures
        gen_children(cs, i, base, off).1 <= off + 4 * children_size(cs, i),
    decreases cs, cs.len() - i,
{
    if 0 <= i < cs.len() {
        assert(decreases_to!(cs => cs[i]));
        lemma_gen_node_size(cs[i], base, off);
        let (first, off1) = gen_node(cs[i], base, off);
        lemma_gen_children_size(cs, i + 1, base + first.len(), off1);
        lemma_node_size_pos(cs[i]);
        lemma_children_size_nonneg(cs, i + 1);
    }
}

// ---------------------------------------------------------------------------
// The executable code generator.
// ---------------------------------------------------------------------------

/// Builds the load-literal instruction for value `v` at instruction
/// index `base`.
fn make_mov(v: i64, base: usize) -> (r: Instruction)
    ensures
        r@ == mov_instr(v as int, base as int),
{
    let mut id = "mov_".to_owned();
    id.append(u64_to_dec(base as u64).as_str());
    let mut machine_code = "B8".to_owned();
    let bits: u64 = i64_bits_exec(v);
    machine_code.append(u64_to_hex_min(bits, 8).as_str());
    let mut description = "load value ".to_owned();
    description.append(i64_to_dec(v).as_str());
    description.append(" into EAX");
    let operands = vec!["EAX".to_owned(), i64_to_dec(v)];
    let r = Instruction {
        id,
        instruction_type: InstructionType::DataTransfer,
        mnemonic: "MOV".to_owned(),
        operands,
        machine_code,
        description,
        cycles: 1,
    };
    proof {
        assert(r.operands.deep_view() =~= seq!["EAX"@, dec_of_int(v as int)]);
        assert(r@ =~~= mov_instr(v as int, base as int));
    }
    r
}

/// Builds the store instruction for memory offset `off` at instruction
/// index `base`.
fn make_store(off: usize, base: usize) -> (r: Instruction)
    ensures
        r@ == store_instr(off as int, base as int),
{
    let mut id = "store_".to_owned();
    id.append(u64_to_dec(base as u64).as_str());
    let mut machine_code = "8905".to_owned();
    machine_code.append(u64_to_hex_min(off as u64, 8).as_str());
    let mut description = "store EAX to memory address ".to_owned();
    description.append(u64_to_dec(off as u64).as_str());
    let mut addr = "[".to_owned();
    addr.append(u64_to_dec(off as u64).as_str());
    addr.append("]");
    let operands = vec![addr, "EAX".to_owned()];
    let r = Instruction {
        id,
        instruction_type: InstructionType::Memory,
        mnemonic: "MOV".to_owned(),
        operands,
        machine_code,
        description,
        cycles: 2,
    };
    proof {
        assert(r.operands.deep_view() =~= seq!["["@ + dec_of(off as int) + "]"@, "EAX"@]);
        assert(r@ =~~= store_instr(off as int, base as int));
    }
    r
}

/// The code generator: holds the tree, the instructions emitted so far,
/// and the next free memory offset.
#[derive(Debug)]
pub struct CodeGenerator {
    pub ast: ASTNode,
    pub instructions: Vec<Instruction>,
    pub register_counter: usize,
    pub memory_offset: usize,
}

impl CodeGenerator {
    /// A generator over `ast`, with nothing emitted and the memory
    /// offset at its starting address.
    pub fn new(ast: ASTNode) -> (r: CodeGenerator)
        ensures
            r.ast == ast,
            r.instructions@.len() == 0,
            r.register_counter == 0,
            r.memory_offset == 1000,
    {
        CodeGenerator { ast, instructions: Vec::new(), register_counter: 0, memory_offset: 1000 }
    }

    /// Emits the code of one node: two instructions for an emitting
    /// declaration, nothing for any other shape, visiting children of
    /// non-declaration nodes in order.
    #[verifier::rlimit(50)]
    fn generate_node(&mut self, node: &ASTNode) -> (r: Result<(), String>)
        requires
            gen_node(node@, old(self).instructions@.len() as int, old(self).memory_offset as int).1
                <= usize::MAX,
        ensures
            r is Ok,
            final(self).ast == old(self).ast,
            final(self).register_counter == old(self).register_counter,
            instrs_view(final(self).instructions@) == instrs_view(old(self).instructions@)
                + gen_node(
                node@,
                old(self).instructions@.len() as int,
                old(self).memory_offset as int,
            ).0,
            final(self).memory_offset as int == gen_node(
                node@,
                old(self).instructions@.len() as int,
                old(self).memory_offset as int,
            ).1,
        decreases *node,
    {
        let ghost base0 = old(self).instructions@.len() as int;
        let ghost off0 = old(self).memory_offset as int;
        match node.node_type {
            ASTNodeType::Declaration => {
                if node.children.len() >= 2 {
                    match parse_i64(node.children[1].value.as_str()) {
                        Some(num) => {
                            proof {
                                lemma_nodes_view(node.children@);
                                assert(node@.children[1] == node_view(node.children@[1]));
                                assert(node_view(node.children@[1]).value == node.children@[1].value@);
                                assert(emits(node@));
                            }
                            let base = self.instructions.len();
                            let ghost pre = self.instructions@;
                            let mov = make_mov(num, base);
                            self.instructions.push(mov);
                            let base2 = self.instructions.len();
                            let store = make_store(self.memory_offset, base2);
                            let ghost pre2 = self.instructions@;
                            self.instructions.push(store);
                            self.memory_offset += 4;
                            proof {
                                assert(instrs_view(self.instructions@) =~= instrs_view(pre)
                                    + gen_node(node@, base0, off0).0);
                            }
                        },
                        None => {
                            proof {
                                lemma_nodes_view(node.children@);
                                assert(node@.children[1] == node_view(node.children@[1]));
                                assert(node_view(node.children@[1]).value == node.children@[1].value@);
                                assert(!(spec_parse_i64(node@.children[1].value) is Some));
                                assert(!emits(node@));
                                assert(instrs_view(self.instructions@) =~= instrs_view(
                                    self.instructions@,
                                ) + Seq::<InstrV>::empty());
                            }
                        },
                    }
                } else {
                    proof {
                        lemma_nodes_view(node.children@);
                        assert(node@.children.len() == node.children@.len());
                        assert(!emits(node@));
                        assert(instrs_view(self.instructions@) =~= instrs_view(self.instructions@)
                            + Seq::<InstrV>::empty());
                    }
                }
            },
            _ => {
                let ghost cs = node@.children;
                proof {
                    lemma_nodes_view(node.children@);
                    assert(gen_node(node@, base0, off0) == gen_children(cs, 0, base0, off0));
                }
                let n = node.children.len();
                for i in 0..n
                    invariant
                        n == node.children@.len(),
                        cs == node@.children,
                        cs.len() == n,
                        self.ast == old(self).ast,
                        self.register_counter == old(self).register_counter,
                        gen_node(node@, base0, off0).1 <= usize::MAX,
                        instrs_view(self.instructions@) + gen_children(
                            cs,
                            i as int,
                            self.instructions@.len() as int,
                            self.memory_offset as int,
                        ).0 == instrs_view(old(self).instructions@) + gen_node(
                            node@,
                            base0,
                            off0,
                        ).0,
                        gen_children(
                            cs,
                            i as int,
                            self.instructions@.len() as int,
                            self.memory_offset as int,
                        ).1 == gen_node(node@, base0, off0).1,
                {
                    let ghost len_i = self.instructions@.len() as int;
                    let ghost off_i = self.memory_offset as int;
                    proof {
                        lemma_nodes_view(node.children@);
                        assert(cs[i as int] == node_view(node.children@[i as int]));
                        lemma_gen_node_off(cs[i as int], len_i, off_i);
                        let (first, off1) = gen_node(cs[i as int], len_i, off_i);
                        lemma_gen_children_off(cs, i as int + 1, len_i + first.len(), off1);
                        assert(decreases_to!(*node => node.children));
                        assert(decreases_to!(node.children => node.children@));
                        assert(decreases_to!(node.children@ => node.children@[i as int]));
                    }
                    let _ = self.generate_node(&node.children[i]);
                    proof {
                        assert(instrs_view(self.instructions@) + gen_children(
                            cs,
                            i as int + 1,
                            self.instructions@.len() as int,
                            self.memory_offset as int,
                        ).0 =~= instrs_view(old(self).instructions@) + gen_node(
                            node@,
                            base0,
                            off0,
                        ).0);
                    }
                }
                proof {
                    assert(gen_children(
                        cs,
                        n as int,
                        self.instructions@.len() as int,
                        self.memory_offset as int,
                    ).0 =~= Seq::<InstrV>::empty());
                    assert(instrs_view(self.instructions@) =~= instrs_view(self.instructions@)
                        + Seq::<InstrV>::empty());
                }
            },
        }
        Ok(())
    }

    /// Runs generation over the whole held tree, appending to the
    /// instructions emitted so far, and returns the emitted sequence.
    /// Never fails.
    pub fn generate(&mut self) -> (r: Result<Vec<Instruction>, String>)
        requires
            gen_node(
                old(self).ast@,
                old(self).instructions@.len() as int,
                old(self).memory_offset as int,
            ).1 <= usize::MAX,
        ensures
            final(self).ast == old(self).ast,
            final(self).register_counter == old(self).register_counter,
            instrs_view(final(self).instructions@) == instrs_view(old(self).instructions@)
                + gen_node(
                old(self).ast@,
                old(self).instructions@.len() as int,
                old(self).memory_offset as int,
            ).0,
            final(self).memory_offset as int == gen_node(
                old(self).ast@,
                old(self).instructions@.len() as int,
                old(self).memory_offset as int,
            ).1,
            r matches Ok(is) && instrs_view(is@) == instrs_view(final(self).instructions@),
    {
        let snapshot = self.ast.duplicate();
        let res = self.generate_node(&snapshot);
        if let Err(e) = res {
            return Err(e);
        }
        let mut out: Vec<Instruction> = Vec::new();
        let k = self.instructions.len();
        for j in 0..k
            invariant
                k == self.instructions@.len(),
                out@.len() == j,
                self.ast == old(self).ast,
                self.register_counter == old(self).register_counter,
                instrs_view(self.instructions@) == instrs_view(old(self).instructions@)
                    + gen_node(
                    old(self).ast@,
                    old(self).instructions@.len() as int,
                    old(self).memory_offset as int,
                ).0,
                self.memory_offset as int == gen_node(
                    old(self).ast@,
                    old(self).instructions@.len() as int,
                    old(self).memory_offset as int,
                ).1,
                forall|i: int| 0 <= i < j ==> out@[i]@ == self.instructions@[i]@,
        {
            out.push(self.instructions[j].duplicate());
        }
        proof {
            assert(instrs_view(out@) =~= instrs_view(self.instructions@));
        }
        Ok(out)
    }
}

} // verus!
