//! The virtual machine: a stack of integers, a display with the frame base
//! of every block level, a program counter and a stack top.
//!
//! One call of [`Machine::step`] runs one instruction.  What the machine
//! writes is collected as bytes in its output.  Where an instruction reaches
//! outside the stack, the display or the code, the machine stops with a
//! [`Trap`] and stays as it was.
use vstd::prelude::*;
use vstd::arithmetic::div_mod::{lemma_div_nonincreasing, lemma_div_pos_is_pos};
use vstd::string::StringExecFns;
use crate::codegen::{Inst, InstU, OpCode, Operator, MAXCODE};
use crate::table::{RelAddr, MAXLEVEL};

verus! {

/// The number of cells of the stack.
pub const MAXMEM: usize = 2000;

/// The number of cells that a frame must leave free for the evaluation of
/// expressions.
pub const MAXREG: usize = 20;

/// Why the machine stopped without coming to the end of the program.
#[derive(Copy, Clone, Debug, PartialEq, Eq, Structural)]
pub enum Trap {
    /// A frame does not leave `MAXREG` cells free.
    StackOverflow,
    /// A division by zero.
    DivisionByZero,
    /// An instruction reaches outside the code, the stack or the display, or
    /// has an operand of the wrong sort.
    Fault,
}

impl Trap {
    /// The text of the message, as a sequence of characters.
    pub open spec fn text(self) -> Seq<char> {
        match self {
            Trap::StackOverflow => "stack overflow"@,
            Trap::DivisionByZero => "division by zero"@,
            Trap::Fault => "machine fault"@,
        }
    }

    /// The one-line message that goes with the trap.
    pub fn message(&self) -> (s: String)
        ensures
            s@ == self.text(),
    {
        match self {
            Trap::StackOverflow => String::from_str("stack overflow"),
            Trap::DivisionByZero => String::from_str("division by zero"),
            Trap::Fault => String::from_str("machine fault"),
        }
    }
}

/// Where the machine stands after a step or a run.
#[derive(Copy, Clone, Debug, PartialEq, Eq, Structural)]
pub enum Status {
    /// The program goes on.
    Running,
    /// The program has come to its end: it returned to address 0.
    Halted,
    /// The machine stopped at an instruction that it cannot run.
    Trapped(Trap),
}

/// The machine.
pub struct Machine {
    pub stack: Vec<i32>,
    pub display: Vec<i32>,
    /// The index of the next instruction.
    pub pc: usize,
    /// The index of the first free cell of the stack.
    pub top: usize,
    /// The bytes written so far.
    pub output: Vec<u8>,
}

/// The model of a [`Machine`].
pub struct MachineView {
    pub stack: Seq<i32>,
    pub display: Seq<i32>,
    pub pc: int,
    pub top: int,
    pub output: Seq<u8>,
}

impl View for Machine {
    type V = MachineView;

    open spec fn view(&self) -> MachineView {
        MachineView {
            stack: self.stack@,
            display: self.display@,
            pc: self.pc as int,
            top: self.top as int,
            output: self.output@,
        }
    }
}

/// The decimal digits of `n`, as bytes.
pub open spec fn digits(n: nat) -> Seq<u8>
    decreases n,
{
    if n < 10 {
        seq![(48 + n) as u8]
    } else {
        digits(n / 10).push((48 + n % 10) as u8)
    }
}

/// The decimal notation of `v`, as bytes: a minus sign if `v` is negative,
/// then the digits of its absolute value.
pub open spec fn decimal(v: int) -> Seq<u8> {
    if v < 0 {
        seq![45u8] + digits((-v) as nat)
    } else {
        digits(v as nat)
    }
}

/// The absolute value of `a`.
pub open spec fn magnitude(a: i32) -> int {
    if a < 0 {
        -(a as int)
    } else {
        a as int
    }
}

/// The quotient of `a` by `b`, rounded towards zero and kept in 32 bits: the
/// one quotient that does not fit, that of the least integer by -1, is the
/// least integer.  `b` is not 0.
pub open spec fn quotient(a: i32, b: i32) -> i32 {
    let q = magnitude(a) / magnitude(b);
    if (a < 0) != (b < 0) {
        (-q) as i32
    } else if q > i32::MAX {
        i32::MIN
    } else {
        q as i32
    }
}

/// 1 for true, 0 for false.
pub open spec fn truth(b: bool) -> i32 {
    if b {
        1
    } else {
        0
    }
}

/// The result of the operator `op` on `a`, the operand below the top, and
/// `b`, the one on top.  Sums, differences and products wrap around.
pub open spec fn binary(op: Operator, a: i32, b: i32) -> i32 {
    match op {
        Operator::Add => a.wrapping_add(b),
        Operator::Sub => a.wrapping_sub(b),
        Operator::Mul => a.wrapping_mul(b),
        Operator::Div => quotient(a, b),
        Operator::Eq => truth(a == b),
        Operator::Ls => truth(a < b),
        Operator::Gr => truth(a > b),
        Operator::Neq => truth(a != b),
        Operator::Lseq => truth(a <= b),
        Operator::Greq => truth(a >= b),
        _ => 0,
    }
}

/// The result of the operator `op` on the one operand `a`.
pub open spec fn unary(op: Operator, a: i32) -> i32 {
    match op {
        Operator::Neg => 0i32.wrapping_sub(a),
        Operator::Odd => a & 1i32,
        _ => 0,
    }
}

impl MachineView {
    /// The machine before the first instruction: everything is 0, nothing
    /// has been written.
    pub open spec fn initial() -> MachineView {
        MachineView {
            stack: Seq::new(MAXMEM as nat, |i: int| 0i32),
            display: Seq::new(MAXLEVEL as nat, |i: int| 0i32),
            pc: 0,
            top: 0,
            output: Seq::empty(),
        }
    }

    /// The stack and the display have their sizes and the top lies within
    /// the stack.
    pub open spec fn wf(self) -> bool {
        &&& self.stack.len() == MAXMEM
        &&& self.display.len() == MAXLEVEL
        &&& 0 <= self.top <= MAXMEM
        &&& 0 <= self.pc
    }

    /// The cell that the address `r` names: the frame base of its level plus
    /// its offset, if that is a level of the display and a cell of the stack.
    pub open spec fn cell(self, r: RelAddr) -> Option<int> {
        if 0 <= r.level < MAXLEVEL && 0 <= self.display[r.level as int] + r.addr < MAXMEM {
            Some(self.display[r.level as int] + r.addr)
        } else {
            None
        }
    }

    /// Pushing `v`.
    pub open spec fn push(self, v: i32) -> Result<MachineView, Trap> {
        if self.top < MAXMEM {
            Ok(MachineView { stack: self.stack.update(self.top, v), top: self.top + 1, ..self })
        } else {
            Err(Trap::Fault)
        }
    }

    /// `Lod`: pushing the cell at `r`.
    pub open spec fn load(self, r: RelAddr) -> Result<MachineView, Trap> {
        match self.cell(r) {
            Some(a) => self.push(self.stack[a]),
            None => Err(Trap::Fault),
        }
    }

    /// `Sto`: popping into the cell at `r`.
    pub open spec fn store(self, r: RelAddr) -> Result<MachineView, Trap> {
        match self.cell(r) {
            Some(a) => if self.top >= 1 {
                Ok(
                    MachineView {
                        stack: self.stack.update(a, self.stack[self.top - 1]),
                        top: self.top - 1,
                        ..self
                    },
                )
            } else {
                Err(Trap::Fault)
            },
            None => Err(Trap::Fault),
        }
    }

    /// `Cal`: calling the function that is declared at level `r.level` and
    /// begins at `r.addr`.  The frame of its block begins at the top: its
    /// first cell saves the display entry of the block's level, the second
    /// one the address to return to, which is in `pc`.
    pub open spec fn call(self, r: RelAddr) -> Result<MachineView, Trap> {
        if 0 <= r.level && r.level + 1 < MAXLEVEL && 0 <= r.addr && self.top + 1 < MAXMEM {
            Ok(
                MachineView {
                    stack: self.stack.update(self.top, self.display[r.level + 1]).update(
                        self.top + 1,
                        self.pc as i32,
                    ),
                    display: self.display.update(r.level + 1, self.top as i32),
                    pc: r.addr as int,
                    ..self
                },
            )
        } else {
            Err(Trap::Fault)
        }
    }

    /// `Ret`: returning from the block at level `r.level` of a function with
    /// `r.addr` parameters.  The value on top is the result.  The display
    /// entry and the return address come back from the frame, the frame and
    /// the arguments below it are dropped, and the result is pushed.
    pub open spec fn ret(self, r: RelAddr) -> Result<MachineView, Trap> {
        if self.top >= 1 && 0 <= r.level < MAXLEVEL && 0 <= r.addr {
            let base = self.display[r.level as int] as int;
            if 0 <= base && base + 1 < MAXMEM && 0 <= self.stack[base + 1] && base - r.addr >= 0 {
                Ok(
                    MachineView {
                        stack: self.stack.update(base - r.addr, self.stack[self.top - 1]),
                        display: self.display.update(r.level as int, self.stack[base]),
                        pc: self.stack[base + 1] as int,
                        top: base - r.addr + 1,
                        ..self
                    },
                )
            } else {
                Err(Trap::Fault)
            }
        } else {
            Err(Trap::Fault)
        }
    }

    /// `Ict`: reserving `v` cells.
    pub open spec fn reserve(self, v: i32) -> Result<MachineView, Trap> {
        if v < 0 {
            Err(Trap::Fault)
        } else if self.top + v >= MAXMEM - MAXREG {
            Err(Trap::StackOverflow)
        } else {
            Ok(MachineView { top: self.top + v, ..self })
        }
    }

    /// `Jmp`: going on at `v`.
    pub open spec fn jump(self, v: i32) -> Result<MachineView, Trap> {
        if v < 0 {
            Err(Trap::Fault)
        } else {
            Ok(MachineView { pc: v as int, ..self })
        }
    }

    /// `Jpc`: popping a value and going on at `v` if it is 0.
    pub open spec fn jump_if_zero(self, v: i32) -> Result<MachineView, Trap> {
        if self.top < 1 {
            Err(Trap::Fault)
        } else if self.stack[self.top - 1] == 0 {
            (MachineView { top: self.top - 1, ..self }).jump(v)
        } else {
            Ok(MachineView { top: self.top - 1, ..self })
        }
    }

    /// `Opr`: the operator `op` on the top of the stack.
    pub open spec fn operate(self, op: Operator) -> Result<MachineView, Trap> {
        match op {
            Operator::Neg | Operator::Odd => if self.top >= 1 {
                Ok(
                    MachineView {
                        stack: self.stack.update(
                            self.top - 1,
                            unary(op, self.stack[self.top - 1]),
                        ),
                        ..self
                    },
                )
            } else {
                Err(Trap::Fault)
            },
            Operator::Wrt => if self.top >= 1 {
                Ok(
                    MachineView {
                        top: self.top - 1,
                        output: self.output + decimal(self.stack[self.top - 1] as int),
                        ..self
                    },
                )
            } else {
                Err(Trap::Fault)
            },
            Operator::Wrl => Ok(MachineView { output: self.output.push(10u8), ..self }),
            _ => if self.top < 2 {
                Err(Trap::Fault)
            } else if op == Operator::Div && self.stack[self.top - 1] == 0 {
                Err(Trap::DivisionByZero)
            } else {
                Ok(
                    MachineView {
                        stack: self.stack.update(
                            self.top - 2,
                            binary(op, self.stack[self.top - 2], self.stack[self.top - 1]),
                        ),
                        top: self.top - 1,
                        ..self
                    },
                )
            },
        }
    }

    /// Running the instruction `i`, with `pc` behind it already.
    pub open spec fn run_inst(self, i: Inst) -> Result<MachineView, Trap> {
        match (i.op_code, i.u) {
            (OpCode::Lit, InstU::Value(v)) => self.push(v),
            (OpCode::Lod, InstU::RelAddr(r)) => self.load(r),
            (OpCode::Sto, InstU::RelAddr(r)) => self.store(r),
            (OpCode::Cal, InstU::RelAddr(r)) => self.call(r),
            (OpCode::Ret, InstU::RelAddr(r)) => self.ret(r),
            (OpCode::Ict, InstU::Value(v)) => self.reserve(v),
            (OpCode::Jmp, InstU::Value(v)) => self.jump(v),
            (OpCode::Jpc, InstU::Value(v)) => self.jump_if_zero(v),
            (OpCode::Opr, InstU::Operator(op)) => self.operate(op),
            _ => Err(Trap::Fault),
        }
    }

    /// One step: the instruction at `pc` is run.  The program has come to
    /// its end when `pc` is 0 after that.  Where the instruction cannot be
    /// run, the machine stays as it was.
    pub open spec fn step(self, code: Seq<Inst>) -> (MachineView, Status) {
        if 0 <= self.pc < code.len() {
            match (MachineView { pc: self.pc + 1, ..self }).run_inst(code[self.pc]) {
                Ok(m) => (
                    m,
                    if m.pc == 0 {
                        Status::Halted
                    } else {
                        Status::Running
                    },
                ),
                Err(t) => (self, Status::Trapped(t)),
            }
        } else {
            (self, Status::Trapped(Trap::Fault))
        }
    }

    /// `n` steps at most: the run ends before that where the program ends
    /// or the machine is trapped.
    pub open spec fn run(self, code: Seq<Inst>, n: nat) -> (MachineView, Status)
        decreases n,
    {
        if n == 0 {
            (self, Status::Running)
        } else {
            let (m, s) = self.step(code);
            if s == Status::Running {
                m.run(code, (n - 1) as nat)
            } else {
                (m, s)
            }
        }
    }
}

/// The status that goes with the outcome of an instruction.
pub open spec fn outcome_ok(r: Result<(), Trap>, m: Result<MachineView, Trap>, after: MachineView, before: MachineView) -> bool {
    match r {
        Ok(()) => m == Ok::<MachineView, Trap>(after),
        Err(t) => m == Err::<MachineView, Trap>(t) && after == before,
    }
}

impl Machine {
    /// A machine before the first instruction.
    pub fn new() -> (m: Machine)
        ensures
            m@ == MachineView::initial(),
            m@.wf(),
    {
        let mut stack: Vec<i32> = Vec::new();
        let mut i: usize = 0;
        while i < MAXMEM
            invariant
                i <= MAXMEM,
                stack@ == Seq::new(i as nat, |j: int| 0i32),
            decreases MAXMEM - i,
        {
            stack.push(0);
            i = i + 1;
            proof {
                assert(stack@ =~= Seq::new(i as nat, |j: int| 0i32));
            }
        }
        let mut display: Vec<i32> = Vec::new();
        let mut l: usize = 0;
        while l < MAXLEVEL
            invariant
                l <= MAXLEVEL,
                display@ == Seq::new(l as nat, |j: int| 0i32),
            decreases MAXLEVEL - l,
        {
            display.push(0);
            l = l + 1;
            proof {
                assert(display@ =~= Seq::new(l as nat, |j: int| 0i32));
            }
        }
        Machine { stack, display, pc: 0, top: 0, output: Vec::new() }
    }

    /// The cell that the address `r` names, if there is one.
    fn cell(&self, r: RelAddr) -> (a: Option<usize>)
        requires
            self@.wf(),
        ensures
            a matches Some(i) ==> self@.cell(r) == Some(i as int),
            a is None ==> self@.cell(r) is None,
    {
        if r.level < 0 || r.level >= MAXLEVEL as i32 {
            return None;
        }
        let a: i64 = self.display[r.level as usize] as i64 + r.addr as i64;
        if a < 0 || a >= MAXMEM as i64 {
            None
        } else {
            Some(a as usize)
        }
    }

    /// Pushes `v`.
    fn push(&mut self, v: i32) -> (r: Result<(), Trap>)
        requires
            old(self)@.wf(),
        ensures
            outcome_ok(r, old(self)@.push(v), final(self)@, old(self)@),
            final(self)@.wf(),
    {
        if self.top < MAXMEM {
            self.stack[self.top] = v;
            self.top = self.top + 1;
            Ok(())
        } else {
            Err(Trap::Fault)
        }
    }

    /// Appends the decimal digits of `n` to the output.
    fn write_digits(&mut self, n: u32)
        ensures
            final(self)@ == (MachineView {
                output: old(self)@.output + digits(n as nat),
                ..old(self)@
            }),
        decreases n,
    {
        if n >= 10 {
            self.write_digits(n / 10);
        }
        self.output.push((48 + n % 10) as u8);
        proof {
            assert(self@.output =~= old(self)@.output + digits(n as nat));
        }
    }

    /// Appends the decimal notation of `v` to the output.
    fn write_int(&mut self, v: i32)
        ensures
            final(self)@ == (MachineView {
                output: old(self)@.output + decimal(v as int),
                ..old(self)@
            }),
    {
        if v < 0 {
            self.output.push(45u8);
            let n: u32 = (-(v as i64)) as u32;
            self.write_digits(n);
            proof {
                assert(self@.output =~= old(self)@.output + decimal(v as int));
            }
        } else {
            self.write_digits(v as u32);
        }
    }

    /// Runs the operator `op`.
    fn operate(&mut self, op: Operator) -> (r: Result<(), Trap>)
        requires
            old(self)@.wf(),
        ensures
            outcome_ok(r, old(self)@.operate(op), final(self)@, old(self)@),
            final(self)@.wf(),
    {
        match op {
            Operator::Neg | Operator::Odd => {
                if self.top < 1 {
                    return Err(Trap::Fault);
                }
                let a: i32 = self.stack[self.top - 1];
                let v: i32 = match op {
                    Operator::Neg => 0i32.wrapping_sub(a),
                    _ => a & 1i32,
                };
                self.stack[self.top - 1] = v;
                Ok(())
            },
            Operator::Wrt => {
                if self.top < 1 {
                    return Err(Trap::Fault);
                }
                self.top = self.top - 1;
                let v: i32 = self.stack[self.top];
                self.write_int(v);
                Ok(())
            },
            Operator::Wrl => {
                self.output.push(10u8);
                Ok(())
            },
            _ => {
                if self.top < 2 {
                    return Err(Trap::Fault);
                }
                let a: i32 = self.stack[self.top - 2];
                let b: i32 = self.stack[self.top - 1];
                let v: i32 = match op {
                    Operator::Add => a.wrapping_add(b),
                    Operator::Sub => a.wrapping_sub(b),
                    Operator::Mul => a.wrapping_mul(b),
                    Operator::Div => {
                        if b == 0 {
                            return Err(Trap::DivisionByZero);
                        }
                        let ax: i64 = if a < 0 { -(a as i64) } else { a as i64 };
                        let ad: i64 = if b < 0 { -(b as i64) } else { b as i64 };
                        let q: i64 = ax / ad;
                        proof {
                            lemma_div_nonincreasing(ax as int, ad as int);
                            lemma_div_pos_is_pos(ax as int, ad as int);
                        }
                        if (a < 0) != (b < 0) {
                            (-q) as i32
                        } else if q > i32::MAX as i64 {
                            i32::MIN
                        } else {
                            q as i32
                        }
                    },
                    Operator::Eq => if a == b { 1 } else { 0 },
                    Operator::Ls => if a < b { 1 } else { 0 },
                    Operator::Gr => if a > b { 1 } else { 0 },
                    Operator::Neq => if a != b { 1 } else { 0 },
                    Operator::Lseq => if a <= b { 1 } else { 0 },
                    Operator::Greq => if a >= b { 1 } else { 0 },
                    _ => 0,
                };
                self.top = self.top - 1;
                self.stack[self.top - 1] = v;
                Ok(())
            },
        }
    }

    /// Runs the instruction `i`; `pc` is behind it already.
    fn run_inst(&mut self, i: Inst) -> (r: Result<(), Trap>)
        requires
            old(self)@.wf(),
            old(self)@.pc <= MAXCODE,
        ensures
            outcome_ok(r, old(self)@.run_inst(i), final(self)@, old(self)@),
            final(self)@.wf(),
    {
        match (i.op_code, i.u) {
            (OpCode::Lit, InstU::Value(v)) => self.push(v),
            (OpCode::Lod, InstU::RelAddr(r)) => {
                match self.cell(r) {
                    Some(a) => {
                        let v: i32 = self.stack[a];
                        self.push(v)
                    },
                    None => Err(Trap::Fault),
                }
            },
            (OpCode::Sto, InstU::RelAddr(r)) => {
                match self.cell(r) {
                    Some(a) => {
                        if self.top >= 1 {
                            self.top = self.top - 1;
                            let v: i32 = self.stack[self.top];
                            self.stack[a] = v;
                            Ok(())
                        } else {
                            Err(Trap::Fault)
                        }
                    },
                    None => Err(Trap::Fault),
                }
            },
            (OpCode::Cal, InstU::RelAddr(r)) => {
                if 0 <= r.level && r.level < MAXLEVEL as i32 - 1 && 0 <= r.addr && self.top + 1
                    < MAXMEM {
                    let lev: usize = (r.level + 1) as usize;
                    let saved: i32 = self.display[lev];
                    self.stack[self.top] = saved;
                    self.stack[self.top + 1] = self.pc as i32;
                    self.display[lev] = self.top as i32;
                    self.pc = r.addr as usize;
                    Ok(())
                } else {
                    Err(Trap::Fault)
                }
            },
            (OpCode::Ret, InstU::RelAddr(r)) => {
                if self.top >= 1 && 0 <= r.level && r.level < MAXLEVEL as i32 && 0 <= r.addr {
                    let level: usize = r.level as usize;
                    let base: i32 = self.display[level];
                    if 0 <= base && (base as usize) + 1 < MAXMEM && 0 <= self.stack[(base as usize)
                        + 1] && base >= r.addr {
                        let b: usize = base as usize;
                        let temp: i32 = self.stack[self.top - 1];
                        let saved: i32 = self.stack[b];
                        let back: i32 = self.stack[b + 1];
                        let to: usize = (base - r.addr) as usize;
                        self.display[level] = saved;
                        self.pc = back as usize;
                        self.stack[to] = temp;
                        self.top = to + 1;
                        Ok(())
                    } else {
                        Err(Trap::Fault)
                    }
                } else {
                    Err(Trap::Fault)
                }
            },
            (OpCode::Ict, InstU::Value(v)) => {
                if v < 0 {
                    Err(Trap::Fault)
                } else if self.top as i64 + v as i64 >= (MAXMEM - MAXREG) as i64 {
                    Err(Trap::StackOverflow)
                } else {
                    self.top = self.top + v as usize;
                    Ok(())
                }
            },
            (OpCode::Jmp, InstU::Value(v)) => {
                if v < 0 {
                    Err(Trap::Fault)
                } else {
                    self.pc = v as usize;
                    Ok(())
                }
            },
            (OpCode::Jpc, InstU::Value(v)) => {
                if self.top < 1 {
                    Err(Trap::Fault)
                } else if self.stack[self.top - 1] == 0 {
                    if v < 0 {
                        Err(Trap::Fault)
                    } else {
                        self.top = self.top - 1;
                        self.pc = v as usize;
                        Ok(())
                    }
                } else {
                    self.top = self.top - 1;
                    Ok(())
                }
            },
            (OpCode::Opr, InstU::Operator(op)) => self.operate(op),
            _ => Err(Trap::Fault),
        }
    }

    /// Runs the instruction at `pc` and says where the machine stands after
    /// it.
    pub fn step(&mut self, code: &Vec<Inst>) -> (s: Status)
        requires
            old(self)@.wf(),
            code@.len() <= MAXCODE,
        ensures
            (final(self)@, s) == old(self)@.step(code@),
            final(self)@.wf(),
    {
        if self.pc < code.len() {
            let i = code[self.pc];
            let at: usize = self.pc;
            self.pc = self.pc + 1;
            match self.run_inst(i) {
                Ok(()) => if self.pc == 0 {
                    Status::Halted
                } else {
                    Status::Running
                },
                Err(t) => {
                    self.pc = at;
                    Status::Trapped(t)
                },
            }
        } else {
            Status::Trapped(Trap::Fault)
        }
    }

    /// Runs `fuel` steps at most and says where the machine stands then:
    /// `Running` means that the steps were used up.
    pub fn run(&mut self, code: &Vec<Inst>, fuel: u64) -> (s: Status)
        requires
            old(self)@.wf(),
            code@.len() <= MAXCODE,
        ensures
            (final(self)@, s) == old(self)@.run(code@, fuel as nat),
            final(self)@.wf(),
    {
        let mut left: u64 = fuel;
        while left > 0
            invariant
                self@.wf(),
                code@.len() <= MAXCODE,
                self@.run(code@, left as nat) == old(self)@.run(code@, fuel as nat),
            decreases left,
        {
            let s = self.step(code);
            match s {
                Status::Running => {},
                _ => {
                    return s;
                },
            }
            left = left - 1;
        }
        Status::Running
    }
}

/// A return undoes the call.  `m` is the machine when it calls the function
/// at `r`, with `pc` behind the call and with the `k` arguments of the call
/// on top; `d` is the machine when the function returns: the frame that the
/// call made is still in place, the display is as the call left it, and the
/// result lies on top.  Then the return leaves the display as it was before
/// the call, goes on behind the call, and has the result in the place of
/// the first argument, on top.
pub proof fn lemma_return_undoes_call(m: MachineView, r: RelAddr, k: int, d: MachineView)
    requires
        m.wf(),
        d.wf(),
        m.pc <= i32::MAX,
        m.call(r) is Ok,
        0 <= k <= m.top,
        d.top >= 1,
        d.display =~= m.call(r)->Ok_0.display,
        d.stack[m.top] == m.call(r)->Ok_0.stack[m.top],
        d.stack[m.top + 1] == m.call(r)->Ok_0.stack[m.top + 1],
    ensures
        d.ret(RelAddr { level: (r.level + 1) as i32, addr: k as i32 }) == Ok::<MachineView, Trap>(
            MachineView {
                stack: d.stack.update(m.top - k, d.stack[d.top - 1]),
                display: m.display,
                pc: m.pc,
                top: m.top - k + 1,
                output: d.output,
            },
        ),
{
    let level = r.level + 1;
    let after = d.ret(RelAddr { level: level as i32, addr: k as i32 });
    assert(d.display[level] == m.top);
    assert(d.stack[m.top] == m.display[level]);
    assert(d.stack[m.top + 1] == m.pc as i32);
    assert(after is Ok);
    assert(after->Ok_0.display =~= m.display);
}

/// A parameter names its argument.  `m` is the machine when it calls the
/// function at `r` with `k` arguments on top.  In the frame of the call, the
/// offset `i - k` at the level of the function's block names the cell of
/// argument number `i`, counted from 0 in the order in which the arguments
/// were pushed.
pub proof fn lemma_parameter_names_argument(m: MachineView, r: RelAddr, k: int, i: int)
    requires
        m.wf(),
        m.call(r) is Ok,
        0 <= i < k <= m.top,
    ensures
        m.call(r)->Ok_0.cell(RelAddr { level: (r.level + 1) as i32, addr: (i - k) as i32 }) == Some(
            m.top - k + i,
        ),
{
}

/// `a` is the beginning of `b`.
pub open spec fn begins<T>(a: Seq<T>, b: Seq<T>) -> bool {
    a.len() <= b.len() && b.subrange(0, a.len() as int) == a
}

/// Running in two turns is running at once: `a + b` steps are `a` steps
/// and, if the program goes on after them, `b` more from where they led.
pub proof fn lemma_run_in_turns(m: MachineView, code: Seq<Inst>, a: nat, b: nat)
    ensures
        m.run(code, a + b) == if m.run(code, a).1 == Status::Running {
            m.run(code, a).0.run(code, b)
        } else {
            m.run(code, a)
        },
    decreases a,
{
    if a > 0 {
        let (n, s) = m.step(code);
        if s == Status::Running {
            lemma_run_in_turns(n, code, (a - 1) as nat, b);
            assert(m.run(code, a + b) == n.run(code, (a + b - 1) as nat));
        }
    }
}

/// One step writes behind what was written.
pub proof fn lemma_step_writes_on(m: MachineView, code: Seq<Inst>)
    ensures
        begins(m.output, m.step(code).0.output),
{
    let n = m.step(code).0;
    if n.output != m.output {
        assert(n.output.subrange(0, m.output.len() as int) =~= m.output);
    } else {
        assert(m.output.subrange(0, m.output.len() as int) =~= m.output);
    }
}

/// What was written stays: the output after any number of steps begins with
/// the output before them.
pub proof fn lemma_run_writes_on(m: MachineView, code: Seq<Inst>, n: nat)
    ensures
        begins(m.output, m.run(code, n).0.output),
    decreases n,
{
    if n == 0 {
        assert(m.output.subrange(0, m.output.len() as int) =~= m.output);
    } else {
        let (k, s) = m.step(code);
        lemma_step_writes_on(m, code);
        if s == Status::Running {
            lemma_run_writes_on(k, code, (n - 1) as nat);
            let z = k.run(code, (n - 1) as nat).0;
            assert(z.output.subrange(0, m.output.len() as int) =~= k.output.subrange(
                0,
                m.output.len() as int,
            ));
        }
    }
}

/// The output is a function of the code and of the number of steps: two
/// runs of the same code from the same state write the same bytes.
pub proof fn lemma_run_is_determined(
    a: MachineView,
    b: MachineView,
    code_a: Seq<Inst>,
    code_b: Seq<Inst>,
    n: nat,
)
    requires
        a.stack =~= b.stack,
        a.display =~= b.display,
        a.output =~= b.output,
        a.pc == b.pc,
        a.top == b.top,
        code_a =~= code_b,
    ensures
        a.run(code_a, n) == b.run(code_b, n),
{
}

} // verus!
