//! The compiler: one pass over the tokens that emits code as it goes.
//!
//! Every production of the grammar is a method of [`Compiler`] that does
//! what its model in [`crate::syntax`] says.  Forward jumps are emitted with
//! the target 0 and patched when the target is known; the index of the jump
//! is kept in a local variable of the production meanwhile.
use vstd::prelude::*;
use crate::codegen::{CodeGenerator, GenView, Inst, InstU, OpCode, Operator, MAXCODE};
use crate::fault::Fatal;
use crate::get_source::{
    KeyId, LexView, Lexer, Message, Token, TokenContent, plain, MAXSOURCE,
};
use crate::machine::{MachineView, Status};
use crate::progress::{
    grown, lemma_block_closed, lemma_extends_entry, lemma_extends_keeps, lemma_extends_patch,
    lemma_extends_push, lemma_extends_same, lemma_function_closed, lemma_head_opened, opens_at,
    settled, var_ok,
};
use crate::syntax::{CompView, at_statement, name_of, rel_op, rel_operator, value_of};
use crate::table::{consistent, KindT, NameTable, TableView};

verus! {

broadcast use crate::progress::lemma_extends_trans;

/// A program with fewer errors than this may be run.
pub const MIN_ERROR: i32 = 3;

/// The offset of the first variable of a block: the two cells before it
/// hold the saved display entry and the return address.
pub const FIRST_ADDR: i32 = 2;

/// The compiler: the current token, the tokenizer it comes from, and the
/// code generator with the name table.
pub struct Compiler {
    pub token: Token,
    pub lex: Lexer,
    pub gen: CodeGenerator,
}

impl View for Compiler {
    type V = CompView;

    open spec fn view(&self) -> CompView {
        CompView { token: self.token@, lex: self.lex@, gen: self.gen@ }
    }
}

/// The operator of the machine for the relational operator `k`.
fn rel_operator_of(k: KeyId) -> (r: Option<Operator>)
    ensures
        r is Some <==> rel_op(k),
        r matches Some(p) ==> p == rel_operator(k),
{
    match k {
        KeyId::Equal => Some(Operator::Eq),
        KeyId::Lss => Some(Operator::Ls),
        KeyId::Gtr => Some(Operator::Gr),
        KeyId::NotEq => Some(Operator::Neq),
        KeyId::LssEq => Some(Operator::Lseq),
        KeyId::GtrEq => Some(Operator::Greq),
        _ => None,
    }
}

// The steps that the productions are made of.
impl Compiler {
    /// A compiler that reads from `lex` and emits into `gen`.
    pub fn new(lex: Lexer, gen: CodeGenerator) -> (c: Compiler)
        ensures
            c@ == (CompView { token: plain(KeyId::Nul), lex: lex@, gen: gen@ }),
    {
        Compiler { token: Token { kind: KeyId::Nul, u: TokenContent::Nothing }, lex, gen }
    }

    /// The spelling that the current token carries.
    fn token_name(&self) -> (s: String)
        ensures
            s@ == name_of(self@.token),
    {
        match &self.token.u {
            TokenContent::Id(s) => s.clone(),
            _ => String::new(),
        }
    }

    /// The value that the current token carries.
    fn token_value(&self) -> (v: i32)
        ensures
            v == value_of(self@.token),
    {
        match &self.token.u {
            TokenContent::Value(v) => *v,
            _ => 0,
        }
    }

    /// Reads the next token.
    fn next(&mut self) -> (r: Result<(), Fatal>)
        requires
            old(self)@.lex.wf(),
        ensures
            (final(self)@, r) == old(self)@.next(),
            final(self)@.gen == old(self)@.gen,
            r is Ok ==> final(self)@.lex.wf() && final(self)@.weight() <= old(self)@.weight(),
            r is Ok && old(self)@.token.kind != KeyId::Period
                ==> final(self)@.weight() < old(self)@.weight(),
            r is Ok && old(self)@.inv() ==> final(self)@.proceeds(old(self)@),
            r matches Err(e) ==> e != Fatal::Stalled,
            r is Ok ==> final(self)@.lex.error_no >= old(self)@.lex.error_no,
    {
        let t = self.lex.next_token()?;
        self.token = t;
        proof {
            lemma_extends_same(old(self)@, self@);
        }
        Ok(())
    }

    /// Steps over the current token, which should be of kind `k`.
    fn expect(&mut self, k: KeyId) -> (r: Result<(), Fatal>)
        requires
            old(self)@.lex.wf(),
        ensures
            (final(self)@, r) == old(self)@.expect(k),
            final(self)@.gen == old(self)@.gen,
            r is Ok ==> final(self)@.lex.wf() && final(self)@.weight() <= old(self)@.weight(),
            r is Ok && old(self)@.inv() ==> final(self)@.proceeds(old(self)@),
            r matches Err(e) ==> e != Fatal::Stalled,
            r is Ok ==> final(self)@.lex.error_no >= old(self)@.lex.error_no,
    {
        let t = self.token.clone();
        let t2 = self.lex.check_get(t, k)?;
        self.token = t2;
        proof {
            lemma_extends_same(old(self)@, self@);
        }
        Ok(())
    }

    /// Records the error `m`.
    fn error(&mut self, m: Message) -> (r: Result<(), Fatal>)
        requires
            old(self)@.lex.wf(),
        ensures
            (final(self)@, r) == old(self)@.error(m),
            final(self)@.gen == old(self)@.gen,
            final(self)@.token == old(self)@.token,
            r is Ok ==> final(self)@.lex.wf() && final(self)@.weight() == old(self)@.weight(),
            r is Ok && old(self)@.inv() ==> final(self)@.proceeds(old(self)@),
            r matches Err(e) ==> e != Fatal::Stalled,
    {
        let r = self.lex.error(m);
        proof {
            lemma_extends_same(old(self)@, self@);
        }
        r
    }

    /// Records the note `m`.
    fn note(&mut self, m: Message)
        requires
            old(self)@.lex.wf(),
        ensures
            final(self)@ == old(self)@.note(m),
            final(self)@.gen == old(self)@.gen,
            final(self)@.lex.wf(),
            final(self)@.weight() == old(self)@.weight(),
            old(self)@.inv() ==> final(self)@.proceeds(old(self)@),
    {
        self.lex.note(m);
        proof {
            lemma_extends_same(old(self)@, self@);
        }
    }

    /// Tells the tokenizer what kind of name the current token is.
    fn set_kind(&mut self, k: KindT)
        requires
            old(self)@.lex.wf(),
        ensures
            final(self)@ == old(self)@.set_kind(k),
            final(self)@.gen == old(self)@.gen,
            final(self)@.token == old(self)@.token,
            final(self)@.lex.wf(),
            final(self)@.weight() == old(self)@.weight(),
            old(self)@.inv() ==> final(self)@.proceeds(old(self)@),
    {
        self.lex.set_id_kind(k);
        proof {
            lemma_extends_same(old(self)@, self@);
        }
    }

    /// Appends `op` with the value `v` and returns its index.
    fn emit_v(&mut self, op: OpCode, v: i32) -> (r: Result<usize, Fatal>)
        requires
            old(self)@.inv(),
        ensures
            final(self)@ == old(self)@.emit_v(op, v).0,
            r is Ok <==> old(self)@.emit_v(op, v).1 is Ok,
            r matches Err(e) ==> old(self)@.emit_v(op, v).1 == Err::<(), Fatal>(e),
            r matches Ok(i)
                ==> i == old(self)@.gen.code.len()
                    && final(self)@.gen.code
                        == old(self)@.gen.code.push(Inst { op_code: op, u: InstU::Value(v) }),
            final(self)@.inv(),
            final(self)@.gen.table == old(self)@.gen.table,
            final(self)@.lex == old(self)@.lex,
            final(self)@.token == old(self)@.token,
            r is Ok && settled(
                Inst { op_code: op, u: InstU::Value(v) },
                old(self)@.gen.code.len() as int,
                old(self)@.gen.code.len() as int + 1,
            ) ==> final(self)@.proceeds(old(self)@),
            r matches Err(e) ==> e != Fatal::Stalled,
    {
        proof {
            reveal(TableView::sound);
        }
        let i = self.gen.gen_code_v(op, v)?;
        proof {
            let inst = Inst { op_code: op, u: InstU::Value(v) };
            if settled(inst, old(self)@.gen.code.len() as int, old(self)@.gen.code.len() as int + 1) {
                lemma_extends_push(old(self)@, self@, inst);
            }
        }
        Ok(i as usize)
    }

    /// Appends `op` with the address of table entry `ti`.
    fn emit_t(&mut self, op: OpCode, ti: i32) -> (r: Result<(), Fatal>)
        requires
            old(self)@.inv(),
            old(self)@.gen.table.has_addr(ti as int),
            op == OpCode::Lod || op == OpCode::Sto || op == OpCode::Cal,
        ensures
            (final(self)@, r) == old(self)@.emit_t(op, ti as int),
            r is Ok
                ==> final(self)@.proceeds(old(self)@)
                    && final(self)@.weight() == old(self)@.weight(),
            r is Ok ==> final(self)@.lex == old(self)@.lex,
            r matches Err(e) ==> e != Fatal::Stalled,
    {
        proof {
            reveal(TableView::sound);
        }
        let i = self.gen.gen_code_t(op, ti)?;
        proof {
            lemma_extends_push(
                old(self)@,
                self@,
                Inst { op_code: op, u: InstU::RelAddr(old(self)@.gen.table.addr_of(ti as int)) },
            );
        }
        Ok(())
    }

    /// Appends the operator `p`.
    fn emit_o(&mut self, p: Operator) -> (r: Result<(), Fatal>)
        requires
            old(self)@.inv(),
        ensures
            (final(self)@, r) == old(self)@.emit_o(p),
            r is Ok
                ==> final(self)@.proceeds(old(self)@)
                    && final(self)@.weight() == old(self)@.weight(),
            r matches Err(e) ==> e != Fatal::Stalled,
    {
        proof {
            reveal(TableView::sound);
        }
        let i = self.gen.gen_code_o(p)?;
        proof {
            lemma_extends_push(
                old(self)@,
                self@,
                Inst { op_code: OpCode::Opr, u: InstU::Operator(p) },
            );
        }
        Ok(())
    }

    /// Appends the `Ret` of the current block, unless a `Ret` was appended
    /// last.
    fn emit_r(&mut self) -> (r: Result<(), Fatal>)
        requires
            old(self)@.inv(),
        ensures
            (final(self)@, r) == old(self)@.emit_r(),
            r is Ok
                ==> final(self)@.proceeds(old(self)@)
                    && final(self)@.weight() == old(self)@.weight(),
            r is Ok ==> final(self)@.gen.table == old(self)@.gen.table,
            r matches Err(e) ==> e != Fatal::Stalled,
    {
        proof {
            reveal(TableView::sound);
        }
        let i = self.gen.gen_code_r()?;
        proof {
            if old(self)@.gen.ends_with_ret() {
                lemma_extends_same(old(self)@, self@);
            } else {
                lemma_extends_push(old(self)@, self@, old(self)@.gen.ret_inst());
            }
        }
        Ok(())
    }

    /// Looks up the name that the current token carries; a name that is not
    /// declared is entered as a variable, and the error is recorded.
    /// Returns its index in the table.
    fn lookup(&mut self) -> (r: Result<i32, Fatal>)
        requires
            old(self)@.inv(),
        ensures
            final(self)@ == old(self)@.lookup().0,
            r matches Ok(i) ==> old(self)@.lookup().1 == Ok::<int, Fatal>(i as int) && 1 <= i
                <= final(self)@.gen.table.t_index && final(self)@.gen.table.get(i as int) is Some
                && consistent(final(self)@.gen.table.get(i as int)->0),
            r matches Err(e) ==> old(self)@.lookup().1 == Err::<int, Fatal>(e),
            r is Ok
                ==> final(self)@.proceeds(old(self)@)
                    && final(self)@.weight() == old(self)@.weight(),
            r matches Err(e) ==> e != Fatal::Stalled,
    {
        proof {
            reveal(TableView::sound);
            reveal(TableView::search);
            reveal(CompView::lookup);
        }
        let before = self.gen.table.t_index;
        let id = self.token_name();
        let ti = self.gen.table.search_t(id, KindT::VarId)?;
        proof {
            reveal(CompView::extends);
            let t = self@.gen.table;
            assert(crate::table::slot_ok(t.entries[ti as int]));
            assert forall|l: int| 0 <= l < t.level implies t.is_func(#[trigger] t.index[l] as int)
                && FIRST_ADDR <= t.addr[l] <= FIRST_ADDR + t.index[l] by {
                assert(old(self)@.gen.table.is_func(old(self)@.gen.table.index[l] as int));
            }
            assert(self@.extends(old(self)@));
        }
        if ti > before {
            self.error(Message::Undeclared)?;
        }
        Ok(ti)
    }

    /// Enters the constant `id` with the value `v`.
    fn declare_const(&mut self, id: String, v: i32) -> (r: Result<(), Fatal>)
        requires
            old(self)@.inv(),
        ensures
            (final(self)@, r) == old(self)@.tabled(old(self)@.gen.table.enter_const(id@, v)),
            r is Ok
                ==> final(self)@.proceeds(old(self)@)
                    && final(self)@.weight() == old(self)@.weight(),
            r matches Err(e) ==> e != Fatal::Stalled,
    {
        proof {
            reveal(TableView::sound);
        }
        let i = self.gen.table.enter_table_const(id, v)?;
        proof {
            reveal(CompView::extends);
            let t = self@.gen.table;
            assert forall|l: int| 0 <= l < t.level implies t.is_func(#[trigger] t.index[l] as int)
                && FIRST_ADDR <= t.addr[l] <= FIRST_ADDR + t.index[l] by {
                assert(old(self)@.gen.table.is_func(old(self)@.gen.table.index[l] as int));
            }
        }
        Ok(())
    }

    /// Enters the variable `id`.
    fn declare_var(&mut self, id: String) -> (r: Result<(), Fatal>)
        requires
            old(self)@.inv(),
        ensures
            (final(self)@, r) == old(self)@.tabled(old(self)@.gen.table.enter_var(id@)),
            r is Ok
                ==> final(self)@.proceeds(old(self)@)
                    && final(self)@.weight() == old(self)@.weight(),
            r matches Err(e) ==> e != Fatal::Stalled,
    {
        proof {
            reveal(TableView::sound);
        }
        let i = self.gen.table.enter_table_var(id)?;
        proof {
            reveal(CompView::extends);
            let t = self@.gen.table;
            assert forall|l: int| 0 <= l < t.level implies t.is_func(#[trigger] t.index[l] as int)
                && FIRST_ADDR <= t.addr[l] <= FIRST_ADDR + t.index[l] by {
                assert(old(self)@.gen.table.is_func(old(self)@.gen.table.index[l] as int));
            }
        }
        Ok(())
    }
}

// Expressions.
impl Compiler {
    /// Compiles one factor.
    fn primary(&mut self) -> (r: Result<(), Fatal>)
        requires
            old(self)@.inv(),
        ensures
            (final(self)@, r) == old(self)@.primary(),
            r is Ok ==> final(self)@.proceeds(old(self)@),
            r is Ok ==> final(self)@.weight() < old(self)@.weight() || (final(self)@ == old(self)@
                && old(self)@.token.kind != KeyId::Id && old(self)@.token.kind != KeyId::Num
                && old(self)@.token.kind != KeyId::Lparen),
            r matches Err(e) ==> e != Fatal::Stalled,
        decreases old(self)@.weight(), 7int,
    {
        proof {
            lemma_extends_same(old(self)@, self@);
        }
        if self.token.kind == KeyId::Id {
            self.name_factor()
        } else if self.token.kind == KeyId::Num {
            let v = self.token_value();
            self.emit_v(OpCode::Lit, v)?;
            self.next()
        } else if self.token.kind == KeyId::Lparen {
            self.next()?;
            self.expression()?;
            self.expect(KeyId::Rparen)
        } else {
            Ok(())
        }
    }

    /// Compiles a factor and the factors that follow it with no operator
    /// between them.
    fn factor(&mut self) -> (r: Result<(), Fatal>)
        requires
            old(self)@.inv(),
        ensures
            (final(self)@, r) == old(self)@.factor(),
            r is Ok ==> final(self)@.proceeds(old(self)@),
            r matches Err(e) ==> e != Fatal::Stalled,
        decreases old(self)@.weight(), 10int,
    {
        self.primary()?;
        let k = self.token.kind;
        if k == KeyId::Id || k == KeyId::Num || k == KeyId::Lparen {
            self.error(Message::MissingOperator(k))?;
            self.factor()
        } else {
            Ok(())
        }
    }

    /// Compiles the factor that begins with a name.
    fn name_factor(&mut self) -> (r: Result<(), Fatal>)
        requires
            old(self)@.inv(),
            old(self)@.token.kind == KeyId::Id,
        ensures
            (final(self)@, r) == old(self)@.name_factor(),
            r is Ok
                ==> final(self)@.proceeds(old(self)@)
                    && final(self)@.weight() < old(self)@.weight(),
            r matches Err(e) ==> e != Fatal::Stalled,
        decreases old(self)@.weight(), 5int,
    {
        let ti = self.lookup()?;
        let k = self.gen.table.kind_t(ti);
        self.set_kind(k);
        match k {
            KindT::VarId | KindT::ParId => {
                self.emit_t(OpCode::Lod, ti)?;
                self.next()
            },
            KindT::ConstId => {
                let v = self.gen.table.val(ti);
                self.emit_v(OpCode::Lit, v)?;
                self.next()
            },
            KindT::FuncId => {
                let ghost found = self@;
                self.next()?;
                if self.token.kind == KeyId::Lparen {
                    self.next()?;
                    let n: i32 = if self.token.kind != KeyId::Rparen {
                        self.args()?
                    } else {
                        self.next()?;
                        0
                    };
                    proof {
                        lemma_extends_entry(found, self@, ti as int);
                    }
                    self.close_call(ti, n)
                } else {
                    self.error(Message::Insert(KeyId::Lparen))?;
                    self.error(Message::Insert(KeyId::Rparen))?;
                    self.emit_t(OpCode::Cal, ti)
                }
            },
        }
    }

    /// Compiles the arguments of a call and the `)` behind them, and
    /// returns their number.
    fn args(&mut self) -> (r: Result<i32, Fatal>)
        requires
            old(self)@.inv(),
        ensures
            final(self)@ == old(self)@.args(0).0,
            r matches Ok(n) ==> old(self)@.args(0).1 == n && old(self)@.args(0).2 is Ok,
            r matches Err(e) ==> old(self)@.args(0).2 == Err::<(), Fatal>(e),
            r is Ok ==> final(self)@.proceeds(old(self)@),
            r matches Err(e) ==> e != Fatal::Stalled,
        decreases old(self)@.weight(), 60int,
    {
        let mut n: i32 = 0;
        proof {
            lemma_extends_same(old(self)@, self@);
        }
        loop
            invariant_except_break
                self@.proceeds(old(self)@),
                old(self)@.inv(),
                self@.args(n as int) == old(self)@.args(0),
                0 <= n,
                n + self@.weight() <= old(self)@.weight(),
            ensures
                self@.proceeds(old(self)@),
                old(self)@.args(0) == (self@, n as int, Ok::<(), Fatal>(())),
            decreases self@.weight(),
        {
            self.expression()?;
            n = n + 1;
            if self.token.kind == KeyId::Comma {
                self.next()?;
            } else {
                self.expect(KeyId::Rparen)?;
                break ;
            }
        }
        Ok(n)
    }

    /// Ends the call of the function in slot `ti` with `n` arguments: where
    /// the function has another number of parameters, the error is recorded;
    /// the `Cal` is appended in either case.
    fn close_call(&mut self, ti: i32, n: i32) -> (r: Result<(), Fatal>)
        requires
            old(self)@.inv(),
            old(self)@.gen.table.is_func(ti as int),
        ensures
            (final(self)@, r) == old(self)@.close_call(ti as int, n as int),
            r is Ok
                ==> final(self)@.proceeds(old(self)@)
                    && final(self)@.weight() == old(self)@.weight(),
            r is Ok ==> final(self)@.gen.code == old(self)@.gen.code.push(
                Inst {
                    op_code: OpCode::Cal,
                    u: InstU::RelAddr(old(self)@.gen.table.addr_of(ti as int)),
                },
            ),
            r is Ok && n == old(self)@.gen.table.pars_of(ti as int)
                ==> final(self)@.lex == old(self)@.lex,
            r is Ok && n != old(self)@.gen.table.pars_of(ti as int)
                ==> final(self)@.lex == old(self)@.lex.error(Message::UnmatchedPar).0,
            r matches Err(e) ==> e != Fatal::Stalled,
    {
        proof {
            reveal(CompView::close_call);
        }
        if self.gen.table.pars(ti) != n {
            self.error(Message::UnmatchedPar)?;
        }
        self.emit_t(OpCode::Cal, ti)
    }

    /// Compiles a term.
    fn term(&mut self) -> (r: Result<(), Fatal>)
        requires
            old(self)@.inv(),
        ensures
            (final(self)@, r) == old(self)@.term(),
            r is Ok ==> final(self)@.proceeds(old(self)@),
            r matches Err(e) ==> e != Fatal::Stalled,
        decreases old(self)@.weight(), 30int,
    {
        self.factor()?;
        loop
            invariant_except_break
                self@.proceeds(old(self)@),
                old(self)@.inv(),
                self@.term_rest() == old(self)@.term(),
            ensures
                self@.proceeds(old(self)@),
                old(self)@.term() == (self@, Ok::<(), Fatal>(())),
            decreases self@.weight(),
        {
            let k = self.token.kind;
            if !(k == KeyId::Mult || k == KeyId::Div) {
                break ;
            }
            self.next()?;
            self.factor()?;
            self.emit_o(
                if k == KeyId::Mult {
                    Operator::Mul
                } else {
                    Operator::Div
                },
            )?;
        }
        Ok(())
    }

    /// Compiles an expression.
    fn expression(&mut self) -> (r: Result<(), Fatal>)
        requires
            old(self)@.inv(),
        ensures
            (final(self)@, r) == old(self)@.expression(),
            r is Ok ==> final(self)@.proceeds(old(self)@),
            r matches Err(e) ==> e != Fatal::Stalled,
        decreases old(self)@.weight(), 50int,
    {
        let k = self.token.kind;
        if k == KeyId::Plus || k == KeyId::Minus {
            self.next()?;
            self.term()?;
            if k == KeyId::Minus {
                self.emit_o(Operator::Neg)?;
            }
        } else {
            self.term()?;
        }
        loop
            invariant_except_break
                self@.proceeds(old(self)@),
                old(self)@.inv(),
                self@.expr_rest() == old(self)@.expression(),
            ensures
                self@.proceeds(old(self)@),
                old(self)@.expression() == (self@, Ok::<(), Fatal>(())),
            decreases self@.weight(),
        {
            let k = self.token.kind;
            if !(k == KeyId::Plus || k == KeyId::Minus) {
                break ;
            }
            self.next()?;
            self.term()?;
            self.emit_o(
                if k == KeyId::Minus {
                    Operator::Sub
                } else {
                    Operator::Add
                },
            )?;
        }
        Ok(())
    }
}

// Statements.
impl Compiler {
    /// Compiles a condition.
    fn condition(&mut self) -> (r: Result<(), Fatal>)
        requires
            old(self)@.inv(),
        ensures
            (final(self)@, r) == old(self)@.condition(),
            r is Ok ==> final(self)@.proceeds(old(self)@),
            r matches Err(e) ==> e != Fatal::Stalled,
        decreases old(self)@.weight(), 70int,
    {
        if self.token.kind == KeyId::Odd {
            self.next()?;
            self.expression()?;
            self.emit_o(Operator::Odd)
        } else {
            self.expression()?;
            let p = rel_operator_of(self.token.kind);
            if p.is_none() {
                self.error(Message::TypeRelOp)?;
            }
            self.next()?;
            self.expression()?;
            match p {
                Some(op) => self.emit_o(op),
                None => Err(Fatal::NoRelation),
            }
        }
    }

    /// Compiles an assignment; the current token is its target.
    fn assignment(&mut self) -> (r: Result<(), Fatal>)
        requires
            old(self)@.inv(),
            old(self)@.token.kind == KeyId::Id,
        ensures
            (final(self)@, r) == old(self)@.assignment(),
            r is Ok
                ==> final(self)@.proceeds(old(self)@)
                    && final(self)@.weight() < old(self)@.weight(),
            r matches Err(e) ==> e != Fatal::Stalled,
        decreases old(self)@.weight(), 75int,
    {
        let ti = self.lookup()?;
        let k = self.gen.table.kind_t(ti);
        self.set_kind(k);
        let ghost found = self@;
        if k != KindT::VarId && k != KindT::ParId {
            self.error(Message::TypeVarPar)?;
        }
        self.next()?;
        self.expect(KeyId::Assign)?;
        self.expression()?;
        if k == KindT::ConstId {
            return Err(Fatal::NoAddress);
        }
        proof {
            lemma_extends_entry(found, self@, ti as int);
        }
        self.emit_t(OpCode::Sto, ti)
    }

    /// Compiles an `if` statement; the current token is `if`.
    fn if_statement(&mut self) -> (r: Result<(), Fatal>)
        requires
            old(self)@.inv(),
            old(self)@.token.kind == KeyId::If,
        ensures
            (final(self)@, r) == old(self)@.if_statement(),
            r is Ok
                ==> final(self)@.proceeds(old(self)@)
                    && final(self)@.weight() < old(self)@.weight(),
            r matches Err(e) ==> e != Fatal::Stalled,
        decreases old(self)@.weight(), 75int,
    {
        self.next()?;
        self.condition()?;
        self.expect(KeyId::Then)?;
        let ghost b = self@;
        let j = self.emit_v(OpCode::Jpc, 0)?;
        let ghost b1 = self@;
        self.statement()?;
        let ghost c = self@;
        proof {
            lemma_extends_keeps(b1, c);
        }
        self.gen.back_patch(j);
        proof {
            lemma_extends_patch(old(self)@, b, OpCode::Jpc, c, self@);
        }
        Ok(())
    }

    /// Compiles a `while` statement; the current token is `while`.
    fn while_statement(&mut self) -> (r: Result<(), Fatal>)
        requires
            old(self)@.inv(),
            old(self)@.token.kind == KeyId::While,
        ensures
            (final(self)@, r) == old(self)@.while_statement(),
            r is Ok
                ==> final(self)@.proceeds(old(self)@)
                    && final(self)@.weight() < old(self)@.weight(),
            r matches Err(e) ==> e != Fatal::Stalled,
        decreases old(self)@.weight(), 75int,
    {
        self.next()?;
        let l: i32 = self.gen.next_code();
        self.condition()?;
        self.expect(KeyId::Do)?;
        let ghost b = self@;
        let j = self.emit_v(OpCode::Jpc, 0)?;
        let ghost b1 = self@;
        self.statement()?;
        proof {
            lemma_extends_keeps(old(self)@, b);
            lemma_extends_keeps(b1, self@);
        }
        self.emit_v(OpCode::Jmp, l)?;
        let ghost c = self@;
        self.gen.back_patch(j);
        proof {
            lemma_extends_patch(old(self)@, b, OpCode::Jpc, c, self@);
        }
        Ok(())
    }

    /// Compiles a statement that is a key word and an expression:
    /// `return` where `inst` is `None`, `write` where it is `Wrt`.
    fn key_statement(&mut self, inst: Option<Operator>) -> (r: Result<(), Fatal>)
        requires
            old(self)@.inv(),
            old(self)@.token.kind != KeyId::Period,
        ensures
            (final(self)@, r) == old(self)@.key_statement(inst),
            r is Ok
                ==> final(self)@.proceeds(old(self)@)
                    && final(self)@.weight() < old(self)@.weight(),
            r matches Err(e) ==> e != Fatal::Stalled,
        decreases old(self)@.weight(), 75int,
    {
        self.next()?;
        self.expression()?;
        match inst {
            Some(p) => self.emit_o(p),
            None => self.emit_r(),
        }
    }

    /// Compiles a statement.  Nothing is read where the statement is
    /// empty.
    fn statement(&mut self) -> (r: Result<(), Fatal>)
        requires
            old(self)@.inv(),
        ensures
            (final(self)@, r) == old(self)@.statement(),
            r is Ok ==> final(self)@.proceeds(old(self)@),
            r is Ok ==> final(self)@.weight() < old(self)@.weight() || (final(self)@ == old(self)@
                && !old(self)@.token.kind.st_begin_key()),
            r matches Err(e) ==> e != Fatal::Stalled,
        decreases old(self)@.weight(), 80int,
    {
        proof {
            lemma_extends_same(old(self)@, self@);
        }
        loop
            invariant_except_break
                self@.proceeds(old(self)@),
                old(self)@.inv(),
                self@.statement() == old(self)@.statement(),
                self@.weight() < old(self)@.weight() || self@ == old(self)@,
            ensures
                self@.proceeds(old(self)@),
                old(self)@.inv(),
                self@.statement() == old(self)@.statement(),
                self@.weight() < old(self)@.weight() || self@ == old(self)@,
                at_statement(self@.token.kind),
            decreases self@.weight(),
        {
            match self.token.kind {
                KeyId::Id | KeyId::If | KeyId::Ret | KeyId::Begin | KeyId::While | KeyId::Write
                | KeyId::WriteLn | KeyId::End | KeyId::Semicolon | KeyId::Period => {
                    break ;
                },
                k => {
                    self.note(Message::Delete(k));
                    self.next()?;
                },
            }
        }
        match self.token.kind {
            KeyId::Id => self.assignment(),
            KeyId::If => self.if_statement(),
            KeyId::Ret => self.key_statement(None),
            KeyId::Begin => {
                self.next()?;
                self.statements()
            },
            KeyId::While => self.while_statement(),
            KeyId::Write => self.key_statement(Some(Operator::Wrt)),
            KeyId::WriteLn => {
                self.next()?;
                self.emit_o(Operator::Wrl)
            },
            _ => Ok(()),
        }
    }

    /// Reads what follows a statement between `begin` and `end` and says
    /// whether another statement follows.
    fn separator(&mut self) -> (r: Result<bool, Fatal>)
        requires
            old(self)@.inv(),
        ensures
            (final(self)@, r) == old(self)@.separator(),
            r is Ok ==> final(self)@.proceeds(old(self)@),
            r is Ok
                ==> final(self)@.weight() < old(self)@.weight()
                    || old(self)@.token.kind.st_begin_key(),
            r matches Err(e) ==> e != Fatal::Stalled,
        decreases old(self)@.weight(), 90int,
    {
        proof {
            lemma_extends_same(old(self)@, self@);
        }
        loop
            invariant
                self@.proceeds(old(self)@),
                old(self)@.inv(),
                self@.separator() == old(self)@.separator(),
                self@.weight() < old(self)@.weight() || self@ == old(self)@,
            decreases self@.weight(),
        {
            proof {
                reveal(CompView::separator);
            }
            let k = self.token.kind;
            if k == KeyId::Semicolon || k == KeyId::End {
                self.next()?;
                return Ok(k == KeyId::Semicolon);
            }
            if self.token.is_st_begin_key() {
                self.error(Message::Insert(KeyId::Semicolon))?;
                return Ok(true);
            }
            if k == KeyId::Period {
                return match self.error(Message::EndOfFile) {
                    Ok(()) => Err(Fatal::EndOfFile),
                    Err(e) => Err(Fatal::TooManyErrors),
                };
            }
            self.note(Message::Delete(k));
            self.next()?;
        }
    }

    /// Compiles the statements between `begin` and `end`, and reads the
    /// `end`.
    fn statements(&mut self) -> (r: Result<(), Fatal>)
        requires
            old(self)@.inv(),
        ensures
            (final(self)@, r) == old(self)@.statements(),
            r is Ok ==> final(self)@.proceeds(old(self)@),
            r matches Err(e) ==> e != Fatal::Stalled,
        decreases old(self)@.weight(), 100int,
    {
        proof {
            lemma_extends_same(old(self)@, self@);
        }
        loop
            invariant_except_break
                self@.proceeds(old(self)@),
                old(self)@.inv(),
                self@.statements() == old(self)@.statements(),
            ensures
                self@.proceeds(old(self)@),
                old(self)@.statements() == (self@, Ok::<(), Fatal>(())),
            decreases self@.weight(),
        {
            self.statement()?;
            let more = self.separator()?;
            if !more {
                break ;
            }
        }
        Ok(())
    }
}

// Declarations and blocks.
impl Compiler {
    /// Compiles one constant or variable of a list; the current token is
    /// its name.
    fn item(&mut self, what: KindT) -> (r: Result<(), Fatal>)
        requires
            old(self)@.inv(),
            old(self)@.token.kind == KeyId::Id,
            what == KindT::ConstId || what == KindT::VarId,
        ensures
            (final(self)@, r) == old(self)@.item(what),
            r is Ok
                ==> final(self)@.proceeds(old(self)@)
                    && final(self)@.weight() < old(self)@.weight(),
            r matches Err(e) ==> e != Fatal::Stalled,
    {
        proof {
            reveal(CompView::item);
        }
        let id = self.token_name();
        self.set_kind(what);
        match what {
            KindT::ConstId => {
                self.next()?;
                self.expect(KeyId::Equal)?;
                if self.token.kind == KeyId::Num {
                    let v = self.token_value();
                    self.declare_const(id, v)?;
                } else {
                    self.error(Message::Number)?;
                }
                self.next()
            },
            _ => {
                self.declare_var(id)?;
                self.next()
            },
        }
    }

    /// Compiles a list of constants or of variables.
    fn list(&mut self, what: KindT) -> (r: Result<(), Fatal>)
        requires
            old(self)@.inv(),
            what == KindT::ConstId || what == KindT::VarId,
        ensures
            (final(self)@, r) == old(self)@.list(what),
            r is Ok ==> final(self)@.proceeds(old(self)@),
            r matches Err(e) ==> e != Fatal::Stalled,
    {
        proof {
            lemma_extends_same(old(self)@, self@);
        }
        loop
            invariant_except_break
                self@.proceeds(old(self)@),
                old(self)@.inv(),
                what == KindT::ConstId || what == KindT::VarId,
                self@.list(what) == old(self)@.list(what),
            ensures
                self@.proceeds(old(self)@),
                old(self)@.list(what) == (self@, Ok::<(), Fatal>(())),
            decreases self@.weight(),
        {
            proof {
                reveal(CompView::list);
            }
            if self.token.kind == KeyId::Id {
                self.item(what)?;
            } else {
                self.error(Message::MissingIdentifier)?;
            }
            if self.token.kind == KeyId::Comma {
                self.next()?;
            } else if self.token.kind == KeyId::Id {
                self.error(Message::Insert(KeyId::Comma))?;
            } else {
                break ;
            }
        }
        Ok(())
    }

    /// Compiles what stands behind `const`.
    fn const_decl(&mut self) -> (r: Result<(), Fatal>)
        requires
            old(self)@.inv(),
        ensures
            (final(self)@, r) == old(self)@.simple_decl(KindT::ConstId),
            r is Ok ==> final(self)@.proceeds(old(self)@),
            r matches Err(e) ==> e != Fatal::Stalled,
    {
        proof {
            reveal(CompView::simple_decl);
        }
        self.list(KindT::ConstId)?;
        self.expect(KeyId::Semicolon)
    }

    /// Compiles what stands behind `var`.
    fn var_decl(&mut self) -> (r: Result<(), Fatal>)
        requires
            old(self)@.inv(),
        ensures
            (final(self)@, r) == old(self)@.simple_decl(KindT::VarId),
            r is Ok ==> final(self)@.proceeds(old(self)@),
            r matches Err(e) ==> e != Fatal::Stalled,
    {
        proof {
            reveal(CompView::simple_decl);
        }
        self.list(KindT::VarId)?;
        self.expect(KeyId::Semicolon)
    }

    /// Enters the function that the current token names, with the next
    /// instruction as its entry point.  Returns its index in the table.
    fn declare_func(&mut self) -> (r: Result<i32, Fatal>)
        requires
            old(self)@.inv(),
        ensures
            final(self)@ == old(self)@.set_kind(KindT::FuncId).table(
                old(self)@.gen.table.enter_func(
                    name_of(old(self)@.token),
                    old(self)@.gen.code.len() as i32,
                ).0,
            ),
            r matches Ok(f) ==> old(self)@.gen.table.enter_func(
                name_of(old(self)@.token),
                old(self)@.gen.code.len() as i32,
            ).1 == Ok::<int, Fatal>(f as int),
            r matches Err(e) ==> old(self)@.gen.table.enter_func(
                name_of(old(self)@.token),
                old(self)@.gen.code.len() as i32,
            ).1 == Err::<int, Fatal>(e),
            r matches Ok(f) ==> final(self)@.inv() && f == final(self)@.gen.table.t_index
                && old(self)@.gen.table.has_room() && final(self)@.gen.table.is_func(f as int),
            r matches Err(e) ==> e != Fatal::Stalled,
            r is Ok ==> final(self)@.lex.error_no >= old(self)@.lex.error_no,
    {
        proof {
            reveal(TableView::sound);
        }
        let id = self.token_name();
        self.set_kind(KindT::FuncId);
        let entry = self.gen.next_code();
        let f = self.gen.table.enter_table_func(id, entry)?;
        proof {
            let t = self@.gen.table;
            assert forall|l: int| 0 <= l < t.level implies t.is_func(#[trigger] t.index[l] as int)
                && FIRST_ADDR <= t.addr[l] <= FIRST_ADDR + t.index[l] by {
                assert(old(self)@.gen.table.is_func(old(self)@.gen.table.index[l] as int));
            }
        }
        Ok(f)
    }

    /// Begins a block: the main block where none is open, else the block of
    /// the function entered last.
    fn open_block(&mut self) -> (r: Result<(), Fatal>)
        requires
            old(self)@.lex.wf(),
            old(self)@.gen.code.len() <= MAXCODE,
            old(self)@.gen.table.wf(),
            (old(self)@.gen.table.level == -1 && old(self)@.gen.table.vars_ok()) || (old(self)@.gen.table.sound() && old(self)@.gen.table.t_index >= 1 && old(self)@.gen.table.is_func(
                old(self)@.gen.table.t_index,
            ) && old(self)@.gen.table.tf_index == old(self)@.gen.table.t_index && old(self)@.gen.table.pars_of(old(self)@.gen.table.t_index) == 0),
        ensures
            (final(self)@, r) == old(self)@.tabled(old(self)@.gen.table.block_begin(FIRST_ADDR)),
            r is Ok ==> final(self)@.inv(),
            r is Ok && old(self)@.gen.table.level == -1 ==> final(self)@.gen.table.t_index == 0
                && final(self)@.gen.table.level == 0,
            r is Ok && old(self)@.gen.table.level >= 0 ==> final(self)@.gen.table.at_pars(),
            r matches Err(e) ==> e != Fatal::Stalled,
            r is Ok ==> final(self)@.lex.error_no >= old(self)@.lex.error_no,
    {
        proof {
            reveal(TableView::sound);
        }
        self.gen.table.block_begin(FIRST_ADDR)?;
        proof {
            let t = self@.gen.table;
            let t0 = old(self)@.gen.table;
            if t0.level >= 0 {
                assert forall|l: int| 0 <= l < t.level implies t.is_func(
                    #[trigger] t.index[l] as int,
                ) && FIRST_ADDR <= t.addr[l] <= FIRST_ADDR + t.index[l] by {
                    if l < t0.level {
                        assert(t0.is_func(t0.index[l] as int));
                    }
                }
            }
        }
        Ok(())
    }

    /// Enters the parameter `id` of the function entered last.
    fn declare_par(&mut self, id: String) -> (r: Result<(), Fatal>)
        requires
            old(self)@.inv(),
            old(self)@.gen.table.at_pars(),
        ensures
            (final(self)@, r) == old(self)@.tabled(old(self)@.gen.table.enter_par(id@)),
            r is Ok
                ==> final(self)@.inv()
                    && final(self)@.gen.table.at_pars()
                        && final(self)@.gen.table.pars_added(old(self)@.gen.table),
            r matches Err(e) ==> e != Fatal::Stalled,
            r is Ok ==> final(self)@.lex.error_no >= old(self)@.lex.error_no,
    {
        proof {
            reveal(TableView::sound);
        }
        let i = self.gen.table.enter_table_par(id)?;
        proof {
            let t = self@.gen.table;
            let t0 = old(self)@.gen.table;
            assert forall|l: int| 0 <= l < t.level implies t.is_func(#[trigger] t.index[l] as int)
                && FIRST_ADDR <= t.addr[l] <= FIRST_ADDR + t.index[l] by {
                assert(t0.is_func(t0.index[l] as int));
            }
            assert forall|j: int| t.tf_index < j <= t.t_index implies (#[trigger] t.entries[j]) is Some
                && t.entries[j]->0.u is RelAddr by {
                if j <= t0.t_index {
                    assert(t0.entries[j] is Some);
                }
            }
        }
        Ok(())
    }

    /// Compiles the parameters of the function entered last.
    fn par_list(&mut self) -> (r: Result<(), Fatal>)
        requires
            old(self)@.inv(),
            old(self)@.gen.table.at_pars(),
        ensures
            (final(self)@, r) == old(self)@.list(KindT::ParId),
            r is Ok
                ==> final(self)@.inv()
                    && final(self)@.gen.table.at_pars()
                        && final(self)@.gen.table.pars_added(old(self)@.gen.table),
            r is Ok
                ==> final(self)@.weight() <= old(self)@.weight()
                    && final(self)@.gen.code == old(self)@.gen.code,
            r matches Err(e) ==> e != Fatal::Stalled,
            r is Ok ==> final(self)@.lex.error_no >= old(self)@.lex.error_no,
    {
        loop
            invariant_except_break
                self@.inv(),
                self@.gen.table.at_pars(),
                self@.gen.table.pars_added(old(self)@.gen.table),
                self@.weight() <= old(self)@.weight(),
                self@.lex.error_no >= old(self)@.lex.error_no,
                self@.gen.code == old(self)@.gen.code,
                self@.list(KindT::ParId) == old(self)@.list(KindT::ParId),
            ensures
                self@.inv(),
                self@.gen.table.at_pars(),
                self@.gen.table.pars_added(old(self)@.gen.table),
                self@.weight() <= old(self)@.weight(),
                self@.lex.error_no >= old(self)@.lex.error_no,
                self@.gen.code == old(self)@.gen.code,
                old(self)@.list(KindT::ParId) == (self@, Ok::<(), Fatal>(())),
            decreases self@.weight(),
        {
            proof {
                reveal(CompView::list);
                reveal(CompView::item);
            }
            if self.token.kind != KeyId::Id {
                break ;
            }
            let id = self.token_name();
            self.set_kind(KindT::ParId);
            self.declare_par(id)?;
            self.next()?;
            if self.token.kind == KeyId::Comma {
                self.next()?;
            } else if self.token.kind == KeyId::Id {
                self.error(Message::Insert(KeyId::Comma))?;
            } else {
                break ;
            }
        }
        Ok(())
    }

    /// Closes the parameter list of the function entered last.
    fn close_pars(&mut self)
        requires
            old(self)@.inv(),
            old(self)@.gen.table.at_pars(),
        ensures
            final(self)@ == old(self)@.table(old(self)@.gen.table.end_par()),
            final(self)@.gen.table.wf(),
            final(self)@.lex.error_no >= old(self)@.lex.error_no,
    {
        proof {
            reveal(TableView::sound);
        }
        self.gen.table.end_par();
    }

    /// Compiles the head of a function declaration; the current token is
    /// the name of the function.  Returns the index of the function in the
    /// table.
    fn func_head(&mut self) -> (r: Result<i32, Fatal>)
        requires
            old(self)@.inv(),
            old(self)@.token.kind == KeyId::Id,
        ensures
            final(self)@ == old(self)@.func_head().0,
            r matches Ok(f) ==> old(self)@.func_head().1 == Ok::<int, Fatal>(f as int),
            r matches Err(e) ==> old(self)@.func_head().1 == Err::<int, Fatal>(e),
            r matches Ok(f) ==> final(self)@.inv() && final(self)@.weight() < old(self)@.weight()
                && final(self)@.gen.code == old(self)@.gen.code && final(self)@.gen.table.opened(
                old(self)@.gen.table,
                f as int,
            ),
            r matches Err(e) ==> e != Fatal::Stalled,
            r is Ok ==> final(self)@.lex.error_no >= old(self)@.lex.error_no,
    {
        proof {
            reveal(CompView::func_head);
        }
        let ghost t0 = self@.gen.table;
        let f = self.declare_func()?;
        let ghost t1 = self@.gen.table;
        self.next()?;
        self.expect(KeyId::Lparen)?;
        proof {
            reveal(TableView::sound);
        }
        self.open_block()?;
        let ghost t2 = self@.gen.table;
        self.par_list()?;
        self.expect(KeyId::Rparen)?;
        let ghost t3 = self@.gen.table;
        self.close_pars();
        proof {
            lemma_head_opened(
                t0,
                name_of(old(self)@.token),
                old(self)@.gen.code.len() as i32,
                t1,
                t2,
                t3,
                self@.gen.table,
                f as int,
            );
            let t = self@.gen.table;
            assert(t.framed()) by {
                assert forall|l: int| 0 <= l < t.level implies t.is_func(
                    #[trigger] t.index[l] as int,
                ) && FIRST_ADDR <= t.addr[l] <= FIRST_ADDR + t.index[l] by {
                    assert(t3.is_func(t3.index[l] as int));
                    assert(t3.index[l] <= f) by {
                        assert(t3.index[l] <= t3.index[t3.level - 1]);
                    }
                    assert(t.entries[t3.index[l] as int] == t3.entries[t3.index[l] as int]);
                }
            }
        }
        if self.token.kind == KeyId::Semicolon {
            self.note(Message::Delete(KeyId::Semicolon));
            self.next()?;
        }
        Ok(f)
    }

    /// Compiles what stands behind `function`.
    fn func_decl(&mut self) -> (r: Result<(), Fatal>)
        requires
            old(self)@.inv(),
        ensures
            (final(self)@, r) == old(self)@.func_decl(),
            r is Ok ==> final(self)@.proceeds(old(self)@),
            r matches Err(e) ==> e != Fatal::Stalled,
        decreases old(self)@.weight(), 120int,
    {
        if self.token.kind == KeyId::Id {
            let f = self.func_head()?;
            let ghost h = self@;
            self.block(f)?;
            proof {
                lemma_function_closed(old(self)@, h, self@, f as int);
            }
            self.expect(KeyId::Semicolon)
        } else {
            self.error(Message::MissingFunctionName)
        }
    }

    /// Compiles the declarations of a block.
    fn decls(&mut self) -> (r: Result<(), Fatal>)
        requires
            old(self)@.inv(),
        ensures
            (final(self)@, r) == old(self)@.decls(),
            r is Ok ==> final(self)@.proceeds(old(self)@),
            r matches Err(e) ==> e != Fatal::Stalled,
        decreases old(self)@.weight(), 130int,
    {
        proof {
            lemma_extends_same(old(self)@, self@);
        }
        loop
            invariant_except_break
                self@.proceeds(old(self)@),
                old(self)@.inv(),
                self@.decls() == old(self)@.decls(),
            ensures
                self@.proceeds(old(self)@),
                old(self)@.decls() == (self@, Ok::<(), Fatal>(())),
            decreases self@.weight(),
        {
            let k = self.token.kind;
            if k == KeyId::Const {
                self.next()?;
                self.const_decl()?;
            } else if k == KeyId::Var {
                self.next()?;
                self.var_decl()?;
            } else if k == KeyId::Func {
                self.next()?;
                self.func_decl()?;
            } else {
                break ;
            }
        }
        Ok(())
    }

    /// Sets the entry point of the function in slot `p` to the next
    /// instruction.
    fn set_entry(&mut self, p: i32)
        requires
            old(self)@.inv(),
            0 <= p <= old(self)@.gen.table.t_index,
            old(self)@.gen.table.get(p as int) is Some ==> old(self)@.gen.table.is_func(p as int),
        ensures
            final(self)@ == old(self)@.table(
                old(self)@.gen.table.change_v(p as int, old(self)@.gen.code.len() as i32),
            ),
            final(self)@.inv(),
            final(self)@.lex.error_no >= old(self)@.lex.error_no,
    {
        proof {
            reveal(TableView::sound);
        }
        let v = self.gen.next_code();
        self.gen.table.change_v(p, v);
        proof {
            let t = self@.gen.table;
            let t0 = old(self)@.gen.table;
            assert forall|l: int| 0 <= l < t.level implies t.is_func(#[trigger] t.index[l] as int)
                && FIRST_ADDR <= t.addr[l] <= FIRST_ADDR + t.index[l] by {
                assert(t0.is_func(t0.index[l] as int));
            }
        }
    }

    /// Ends the current block.
    fn close_block(&mut self)
        requires
            old(self)@.inv(),
        ensures
            final(self)@ == old(self)@.table(old(self)@.gen.table.block_end()),
            final(self)@.lex.error_no >= old(self)@.lex.error_no,
    {
        proof {
            reveal(TableView::sound);
        }
        self.gen.table.block_end();
    }

    /// Compiles the block of the function in slot `p_index` of the table;
    /// 0 stands for the main block.
    fn block(&mut self, p_index: i32) -> (r: Result<(), Fatal>)
        requires
            old(self)@.inv(),
            old(self)@.gen.table.owns(p_index as int),
        ensures
            (final(self)@, r) == old(self)@.block(p_index as int),
            r is Ok ==> final(self)@.lex.wf() && final(self)@.gen.wf() && final(self)@.weight()
                <= old(self)@.weight(),
            r is Ok ==> grown(old(self)@.gen.code, final(self)@.gen.code),
            r is Ok ==> final(self)@.gen.table.closes(old(self)@.gen.table, p_index as int),
            r is Ok ==> final(self)@.gen.table.vars_ok(),
            r is Ok ==> opens_at(
                final(self)@.gen.code,
                old(self)@.gen.code.len() as int,
                final(self)@.gen.table.addr_of(p_index as int).addr as int,
            ),
            r is Ok && old(self)@.gen.table.level >= 1 ==> final(self)@.inv(),
            r matches Err(e) ==> e != Fatal::Stalled,
            r is Ok ==> final(self)@.lex.error_no >= old(self)@.lex.error_no,
        decreases old(self)@.weight(), 140int,
    {
        let ghost a = self@;
        let b = self.emit_v(OpCode::Jmp, 0)?;
        let ghost a1 = self@;
        self.decls()?;
        let ghost c0 = self@;
        proof {
            lemma_extends_keeps(a1, c0);
            lemma_extends_same(a, a);
        }
        self.gen.back_patch(b);
        let ghost c = self@;
        proof {
            lemma_extends_patch(a, a, OpCode::Jmp, c0, c);
            lemma_extends_entry(a, c, p_index as int);
        }
        self.set_entry(p_index);
        let ghost e = self@;
        let fl = self.gen.table.frame_l();
        self.emit_v(OpCode::Ict, fl)?;
        let ghost i1 = self@;
        self.statement()?;
        self.emit_r()?;
        let ghost s = self@;
        proof {
            lemma_extends_keeps(i1, s);
        }
        self.close_block();
        proof {
            lemma_block_closed(a, c, e, s, self@, p_index as int);
        }
        Ok(())
    }

    /// Compiles a program: reads the first token, begins the main block
    /// and compiles it.  Returns whether the program may be run: it may
    /// when fewer than `MIN_ERROR` errors were found.
    ///
    /// Every instruction that was appended is complete: each `Jpc` leads
    /// forward, and the `Jmp` that the code begins with leads to the `Ict`
    /// of the main block, which is the entry point on record in slot 0.
    /// Every variable of the table lies behind the two cells that begin its
    /// frame.  Compilation never stalls.
    pub fn compile(&mut self) -> (r: Result<bool, Fatal>)
        requires
            old(self)@.ready(),
        ensures
            (final(self)@, r) == old(self)@.compile(),
            r matches Err(e) ==> e != Fatal::Stalled,
            r matches Ok(ok) ==> ok == (final(self)@.lex.error_no < MIN_ERROR),
            r is Ok ==> final(self)@.lex.wf() && final(self)@.gen.wf(),
            r is Ok ==> grown(old(self)@.gen.code, final(self)@.gen.code),
            r is Ok ==> final(self)@.gen.table.vars_ok(),
            r is Ok ==> final(self)@.gen.table.is_func(0) && opens_at(
                final(self)@.gen.code,
                old(self)@.gen.code.len() as int,
                final(self)@.gen.table.addr_of(0).addr as int,
            ),
            r is Ok ==> final(self)@.lex.error_no >= old(self)@.lex.error_no,
    {
        proof {
            reveal(CompView::compile);
        }
        self.next()?;
        self.open_block()?;
        self.block(0)?;
        Ok(self.lex.error_n() < MIN_ERROR)
    }

    /// Runs the code for `fuel` steps at most on a fresh machine.  Returns
    /// what the program wrote and where the machine stands.
    pub fn execute(&self, fuel: u64) -> (r: (Vec<u8>, Status))
        requires
            self@.gen.code.len() <= MAXCODE,
        ensures
            r.0@ == MachineView::initial().run(self@.gen.code, fuel as nat).0.output,
            r.1 == MachineView::initial().run(self@.gen.code, fuel as nat).1,
    {
        self.gen.execute(fuel)
    }
}

/// What became of a program.
#[derive(Copy, Clone, Debug, PartialEq, Eq, Structural)]
pub enum Verdict {
    /// Compilation ended with a fatal condition.
    Stopped(Fatal),
    /// The program has `MIN_ERROR` errors or more: it is not run.
    Refused,
    /// The program was compiled, to be listed and not run.
    Listed,
    /// The program was run; this is where the machine stands.
    Ran(Status),
}

/// A program that was compiled, and run if it could be.
pub struct Report {
    pub verdict: Verdict,
    /// The compiler as it was left: it holds the code and the diagnostics.
    pub compiler: Compiler,
    /// What the program wrote.
    pub output: Vec<u8>,
}

/// The compiler at the beginning of the source text `src`.
pub open spec fn start(src: Seq<char>) -> CompView {
    CompView {
        token: plain(KeyId::Nul),
        lex: LexView::initial(src),
        gen: GenView { code: Seq::<Inst>::empty(), table: TableView::initial() },
    }
}

/// What becomes of the source text `src` and what it writes: the program is
/// run, for `fuel` steps at most, if and only if it was compiled with
/// fewer than `MIN_ERROR` errors and is not to be listed only.
pub open spec fn verdict_of(src: Seq<char>, list_only: bool, fuel: nat) -> (Verdict, Seq<u8>) {
    match start(src).compile().1 {
        Err(e) => (Verdict::Stopped(e), Seq::<u8>::empty()),
        Ok(ok) => if !ok {
            (Verdict::Refused, Seq::<u8>::empty())
        } else if list_only {
            (Verdict::Listed, Seq::<u8>::empty())
        } else {
            (
                Verdict::Ran(MachineView::initial().run(start(src).compile().0.gen.code, fuel).1),
                MachineView::initial().run(start(src).compile().0.gen.code, fuel).0.output,
            )
        },
    }
}

/// Compiles `program` and runs it, for `fuel` steps at most, unless it
/// has too many errors or is to be listed only.  There is no report for a
/// program of more than `MAXSOURCE` characters.
pub fn run_program(program: &String, list_only: bool, fuel: u64) -> (r: Option<Report>)
    ensures
        r is Some <==> program@.len() <= MAXSOURCE,
        r matches Some(report) ==> report.compiler@ == start(program@).compile().0 && (
            report.verdict,
            report.output@,
        ) == verdict_of(program@, list_only, fuel as nat),
        r matches Some(report) ==> (report.verdict is Ran <==> !list_only && start(
            program@,
        ).compile().1 is Ok && report.compiler@.lex.error_no < MIN_ERROR),
{
    if !Lexer::fits(program) {
        return None;
    }
    let lex = Lexer::new(program);
    let gen = CodeGenerator::new(NameTable::new());
    let mut compiler = Compiler::new(lex, gen);
    match compiler.compile() {
        Err(e) => Some(Report { verdict: Verdict::Stopped(e), compiler, output: Vec::new() }),
        Ok(ok) => {
            if !ok {
                Some(Report { verdict: Verdict::Refused, compiler, output: Vec::new() })
            } else if list_only {
                Some(Report { verdict: Verdict::Listed, compiler, output: Vec::new() })
            } else {
                let (output, s) = compiler.execute(fuel);
                Some(Report { verdict: Verdict::Ran(s), compiler, output })
            }
        },
    }
}

/// The number of arguments of a call is checked against the number of
/// parameters: a call with `n` arguments of the function in slot `ti`
/// records the error of unmatched parameters if and only if the function
/// has another number of parameters than `n`.  The `Cal` is appended in
/// either case.
pub proof fn lemma_call_arity(s: CompView, ti: int, n: int)
    requires
        s.close_call(ti, n).1 is Ok,
    ensures
        n == s.gen.table.pars_of(ti) ==> s.close_call(ti, n).0.lex == s.lex,
        n != s.gen.table.pars_of(ti) ==> s.close_call(ti, n).0.lex.error_no == s.lex.error_no + 1
            && s.close_call(ti, n).0.lex.diags.last().message == Message::UnmatchedPar,
        s.close_call(ti, n).0.gen.code == s.gen.code.push(
            Inst { op_code: OpCode::Cal, u: InstU::RelAddr(s.gen.table.addr_of(ti)) },
        ),
{
    reveal(CompView::close_call);
}

/// The same source text gives the same verdict and the same output.
pub proof fn lemma_same_source_same_output(a: Seq<char>, b: Seq<char>, list_only: bool, fuel: nat)
    requires
        a =~= b,
    ensures
        verdict_of(a, list_only, fuel) == verdict_of(b, list_only, fuel),
{
}

} // verus!
