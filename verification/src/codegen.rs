//! The code buffer: the instructions of the virtual machine, the primitives
//! that append them, and the patch that fills in a forward jump.
use vstd::prelude::*;
use crate::fault::Fatal;
use crate::machine::{Machine, MachineView, Status};
use crate::table::{NameTable, RelAddr, TableView};

verus! {

/// The greatest number of instructions a program may have.
pub const MAXCODE: usize = 100;

/// The operation codes of the virtual machine.
#[derive(Copy, Clone, Debug, PartialEq, Eq, Structural)]
pub enum OpCode {
    Lit,
    Opr,
    Lod,
    Sto,
    Cal,
    Ret,
    Ict,
    Jmp,
    Jpc,
}

/// The operators of the `Opr` instruction.
#[derive(Copy, Clone, Debug, PartialEq, Eq, Structural)]
pub enum Operator {
    Neg,
    Add,
    Sub,
    Mul,
    Div,
    Odd,
    Eq,
    Ls,
    Gr,
    Neq,
    Lseq,
    Greq,
    Wrt,
    Wrl,
}

/// The operand of an instruction.
#[derive(Copy, Clone, Debug, PartialEq, Eq, Structural)]
pub enum InstU {
    RelAddr(RelAddr),
    Value(i32),
    Operator(Operator),
}

/// One instruction.
#[derive(Copy, Clone, Debug, PartialEq, Eq, Structural)]
pub struct Inst {
    pub op_code: OpCode,
    pub u: InstU,
}

impl Inst {
    /// The operand is of the sort that the operation code reads: a value for
    /// `Lit`, `Ict`, `Jmp` and `Jpc`, an address for `Lod`, `Sto`, `Cal` and
    /// `Ret`, an operator for `Opr`.
    pub open spec fn well_typed(self) -> bool {
        match self.op_code {
            OpCode::Lit | OpCode::Ict | OpCode::Jmp | OpCode::Jpc => self.u is Value,
            OpCode::Lod | OpCode::Sto | OpCode::Cal | OpCode::Ret => self.u is RelAddr,
            OpCode::Opr => self.u is Operator,
        }
    }

    /// The instruction with its operand replaced by the value `v`.
    pub open spec fn patched(self, v: int) -> Inst {
        Inst { op_code: self.op_code, u: InstU::Value(v as i32) }
    }
}

/// Every instruction of `code` has the operand that its operation reads.
pub open spec fn well_typed_code(code: Seq<Inst>) -> bool {
    forall|i: int| 0 <= i < code.len() ==> (#[trigger] code[i]).well_typed()
}

/// The code generator: the code buffer and the name table that gives the
/// addresses.
pub struct CodeGenerator {
    pub code: Vec<Inst>,
    pub table: NameTable,
}

/// The model of a [`CodeGenerator`].
pub struct GenView {
    pub code: Seq<Inst>,
    pub table: TableView,
}

impl View for CodeGenerator {
    type V = GenView;

    open spec fn view(&self) -> GenView {
        GenView { code: self.code@, table: self.table@ }
    }
}

impl GenView {
    /// The buffer holds no more than it may and the table is consistent.
    pub open spec fn wf(self) -> bool {
        &&& self.code.len() <= MAXCODE
        &&& self.table.wf()
    }

    /// Appending `inst`: its index is returned, unless the buffer is full.
    pub open spec fn emit(self, inst: Inst) -> (GenView, Result<int, Fatal>) {
        if self.code.len() < MAXCODE {
            (GenView { code: self.code.push(inst), ..self }, Ok(self.code.len() as int))
        } else {
            (self, Err(Fatal::TooManyCode))
        }
    }

    /// Appending `op` with the value `v`.
    pub open spec fn emit_v(self, op: OpCode, v: i32) -> (GenView, Result<int, Fatal>) {
        self.emit(Inst { op_code: op, u: InstU::Value(v) })
    }

    /// Appending `op` with the address that the table has in slot `ti`.
    pub open spec fn emit_t(self, op: OpCode, ti: int) -> (GenView, Result<int, Fatal>) {
        self.emit(Inst { op_code: op, u: InstU::RelAddr(self.table.addr_of(ti)) })
    }

    /// Appending the operator `p`.
    pub open spec fn emit_o(self, p: Operator) -> (GenView, Result<int, Fatal>) {
        self.emit(Inst { op_code: OpCode::Opr, u: InstU::Operator(p) })
    }

    /// The last instruction is a `Ret`.
    pub open spec fn ends_with_ret(self) -> bool {
        self.code.len() > 0 && self.code.last().op_code == OpCode::Ret
    }

    /// The `Ret` of the current block: its level and the number of parameters
    /// to drop.
    pub open spec fn ret_inst(self) -> Inst {
        Inst {
            op_code: OpCode::Ret,
            u: InstU::RelAddr(
                RelAddr { level: self.table.level as i32, addr: self.table.func_pars()->0 as i32 },
            ),
        }
    }

    /// Appending the `Ret` of the current block, unless the last instruction
    /// is a `Ret` already.
    pub open spec fn emit_r(self) -> (GenView, Result<int, Fatal>) {
        if self.ends_with_ret() {
            (self, Ok(self.code.len() - 1))
        } else {
            self.emit(self.ret_inst())
        }
    }

    /// Making instruction `i` point at the next instruction to come.
    pub open spec fn back_patch(self, i: int) -> GenView {
        GenView { code: self.code.update(i, self.code[i].patched(self.code.len() as int)), ..self }
    }
}

impl CodeGenerator {
    /// A generator with an empty buffer that takes its addresses from `table`.
    pub fn new(table: NameTable) -> (g: CodeGenerator)
        ensures
            g@ == (GenView { code: Seq::<Inst>::empty(), table: table@ }),
    {
        CodeGenerator { code: Vec::new(), table }
    }

    /// The index that the next instruction will get.
    pub fn next_code(&self) -> (n: i32)
        requires
            self@.code.len() <= MAXCODE,
        ensures
            n == self@.code.len(),
    {
        self.code.len() as i32
    }

    /// Appends `inst` and returns its index, or fails when the buffer is
    /// full.
    fn push_inst(&mut self, inst: Inst) -> (r: Result<i32, Fatal>)
        requires
            old(self)@.wf(),
        ensures
            final(self)@ == old(self)@.emit(inst).0,
            r matches Ok(i) ==> old(self)@.emit(inst).1 == Ok::<int, Fatal>(i as int),
            r matches Err(e) ==> old(self)@.emit(inst).1 == Err::<int, Fatal>(e),
            final(self)@.wf(),
    {
        if self.code.len() < MAXCODE {
            self.code.push(inst);
            Ok((self.code.len() - 1) as i32)
        } else {
            Err(Fatal::TooManyCode)
        }
    }

    /// Appends the instruction `op` with the value `v` as its operand.
    /// Returns its index; fails exactly when the buffer is full.
    pub fn gen_code_v(&mut self, op: OpCode, v: i32) -> (r: Result<i32, Fatal>)
        requires
            old(self)@.wf(),
        ensures
            final(self)@ == old(self)@.emit_v(op, v).0,
            r matches Ok(i) ==> old(self)@.emit_v(op, v).1 == Ok::<int, Fatal>(i as int),
            r matches Err(e) ==> old(self)@.emit_v(op, v).1 == Err::<int, Fatal>(e),
            final(self)@.wf(),
    {
        self.push_inst(Inst { op_code: op, u: InstU::Value(v) })
    }

    /// Appends the instruction `op` with the address of table entry `ti`, as
    /// the table has it now.  Returns its index; fails exactly when the
    /// buffer is full.
    pub fn gen_code_t(&mut self, op: OpCode, ti: i32) -> (r: Result<i32, Fatal>)
        requires
            old(self)@.wf(),
            old(self)@.table.has_addr(ti as int),
        ensures
            final(self)@ == old(self)@.emit_t(op, ti as int).0,
            r matches Ok(i) ==> old(self)@.emit_t(op, ti as int).1 == Ok::<int, Fatal>(i as int),
            r matches Err(e) ==> old(self)@.emit_t(op, ti as int).1 == Err::<int, Fatal>(e),
            final(self)@.wf(),
    {
        let a = self.table.rel_addr(ti);
        self.push_inst(Inst { op_code: op, u: InstU::RelAddr(a) })
    }

    /// Appends an `Opr` instruction with the operator `p`.  Returns its
    /// index; fails exactly when the buffer is full.
    pub fn gen_code_o(&mut self, p: Operator) -> (r: Result<i32, Fatal>)
        requires
            old(self)@.wf(),
        ensures
            final(self)@ == old(self)@.emit_o(p).0,
            r matches Ok(i) ==> old(self)@.emit_o(p).1 == Ok::<int, Fatal>(i as int),
            r matches Err(e) ==> old(self)@.emit_o(p).1 == Err::<int, Fatal>(e),
            final(self)@.wf(),
    {
        self.push_inst(Inst { op_code: OpCode::Opr, u: InstU::Operator(p) })
    }

    /// Appends the `Ret` of the current block and returns its index.  Where
    /// the last instruction is a `Ret` already, nothing is appended and the
    /// index of that `Ret` is returned.
    pub fn gen_code_r(&mut self) -> (r: Result<i32, Fatal>)
        requires
            old(self)@.wf(),
            old(self)@.table.func_pars() is Some,
        ensures
            final(self)@ == old(self)@.emit_r().0,
            r matches Ok(i) ==> old(self)@.emit_r().1 == Ok::<int, Fatal>(i as int),
            r matches Err(e) ==> old(self)@.emit_r().1 == Err::<int, Fatal>(e),
            old(self)@.ends_with_ret() ==> final(self)@ == old(self)@,
            final(self)@.wf(),
    {
        let n: usize = self.code.len();
        if n > 0 && self.code[n - 1].op_code == OpCode::Ret {
            return Ok((n - 1) as i32);
        }
        let level = self.table.block_level();
        let pars = match self.table.func_pars() {
            Some(p) => p,
            None => 0,
        };
        self.push_inst(
            Inst { op_code: OpCode::Ret, u: InstU::RelAddr(RelAddr { level: level, addr: pars }) },
        )
    }

    /// Replaces the operand of instruction `i` by the index of the next
    /// instruction to come.  The operation code stays.
    pub fn back_patch(&mut self, i: usize)
        requires
            i < old(self)@.code.len() <= MAXCODE,
        ensures
            final(self)@ == old(self)@.back_patch(i as int),
            final(self)@.code[i as int].op_code == old(self)@.code[i as int].op_code,
            old(self)@.wf() ==> final(self)@.wf(),
    {
        let op = self.code[i].op_code;
        let next: i32 = self.code.len() as i32;
        self.code[i] = Inst { op_code: op, u: InstU::Value(next) };
    }
}

impl CodeGenerator {
    /// Runs the code for `fuel` steps at most on a fresh machine.  Returns
    /// what the program wrote and where the machine stands: `Running` says
    /// that the steps were used up.
    pub fn execute(&self, fuel: u64) -> (r: (Vec<u8>, Status))
        requires
            self@.code.len() <= MAXCODE,
        ensures
            r.0@ == MachineView::initial().run(self@.code, fuel as nat).0.output,
            r.1 == MachineView::initial().run(self@.code, fuel as nat).1,
    {
        let mut m = Machine::new();
        let s = m.run(&self.code, fuel);
        (m.output, s)
    }
}

/// A patch changes one operand and nothing else: the operation of the
/// patched instruction, every other instruction and the length of the code
/// are as they were.
pub proof fn lemma_patch_keeps_operation(g: GenView, i: int)
    requires
        0 <= i < g.code.len(),
    ensures
        g.back_patch(i).code.len() == g.code.len(),
        g.back_patch(i).code[i].op_code == g.code[i].op_code,
        g.back_patch(i).code[i].u == InstU::Value(g.code.len() as i32),
        forall|j: int| 0 <= j < g.code.len() && j != i ==> g.back_patch(i).code[j] == g.code[j],
        g.back_patch(i).table == g.table,
{
}

/// A `Ret` is appended once: behind a `Ret`, appending the `Ret` of the
/// block changes nothing and returns the index of the one that is there.
pub proof fn lemma_ret_once(g: GenView)
    requires
        g.emit_r().1 is Ok,
    ensures
        g.emit_r().0.emit_r().0 == g.emit_r().0,
        g.emit_r().0.emit_r().1 == g.emit_r().1,
        g.emit_r().0.ends_with_ret(),
{
}

} // verus!
