//! The model of the compiler: what every production of the grammar does
//! to the tokenizer, the name table and the code buffer.
//!
//! A production is a function from the state of the compiler to the state
//! it leaves and to the fatal condition that stopped it, if one did.  Every
//! production reads on in the source text or leaves the work to a simpler
//! production; [`CompView::weight`] measures what is left to read.  Where a
//! step would go on without having read on, the model stops with
//! [`Fatal::Stalled`].
use vstd::prelude::*;
use crate::codegen::{GenView, Inst, InstU, OpCode, Operator};
use crate::compile::{FIRST_ADDR, MIN_ERROR};
use crate::fault::Fatal;
use crate::get_source::{ContentView, KeyId, LexView, Message, TokenView};
use crate::table::{KindT, TableView};

verus! {

/// The model of the compiler: the current token, the tokenizer and the
/// code generator.
pub struct CompView {
    pub token: TokenView,
    pub lex: LexView,
    pub gen: GenView,
}

/// The spelling that a token carries; empty where it carries none.
pub open spec fn name_of(t: TokenView) -> Seq<char> {
    match t.u {
        ContentView::Id(s) => s,
        _ => Seq::<char>::empty(),
    }
}

/// The value that a token carries; 0 where it carries none.
pub open spec fn value_of(t: TokenView) -> i32 {
    match t.u {
        ContentView::Value(v) => v,
        _ => 0,
    }
}

/// `k` is a relational operator.
pub open spec fn rel_op(k: KeyId) -> bool {
    matches!(
        k,
        KeyId::Equal | KeyId::Lss | KeyId::Gtr | KeyId::NotEq | KeyId::LssEq | KeyId::GtrEq
    )
}

/// A token of kind `k` begins a statement, or ends an empty one.
pub open spec fn at_statement(k: KeyId) -> bool {
    matches!(
        k,
        KeyId::Id | KeyId::If | KeyId::Ret | KeyId::Begin | KeyId::While | KeyId::Write
            | KeyId::WriteLn | KeyId::End | KeyId::Semicolon | KeyId::Period
    )
}

/// The machine's operator for the relational operator `k`.
pub open spec fn rel_operator(k: KeyId) -> Operator {
    match k {
        KeyId::Equal => Operator::Eq,
        KeyId::Lss => Operator::Ls,
        KeyId::Gtr => Operator::Gr,
        KeyId::NotEq => Operator::Neq,
        KeyId::LssEq => Operator::Lseq,
        _ => Operator::Greq,
    }
}

/// The step `a` succeeded and left no more to read than `from` had.
pub open spec fn went_on(a: (CompView, Result<(), Fatal>), from: CompView) -> bool {
    a.1 is Ok && a.0.weight() <= from.weight()
}

/// The step `a` succeeded and left less to read than `from` had.
pub open spec fn moved_on(a: (CompView, Result<(), Fatal>), from: CompView) -> bool {
    a.1 is Ok && a.0.weight() < from.weight()
}

/// The end of a production after the step `a`, which failed or did not
/// read on.
pub open spec fn halt(a: (CompView, Result<(), Fatal>)) -> (CompView, Result<(), Fatal>) {
    if a.1 is Err {
        a
    } else {
        (a.0, Err(Fatal::Stalled))
    }
}

impl CompView {
    /// What is left to read: twice the characters that the tokenizer has
    /// before it, and one more while the current token is not the period
    /// that ends the program.
    pub open spec fn weight(self) -> nat {
        2 * self.lex.remaining() + if self.token.kind != KeyId::Period {
            1nat
        } else {
            0nat
        }
    }

    /// The state with the name table `t`.
    pub open spec fn table(self, t: TableView) -> CompView {
        CompView { gen: GenView { table: t, ..self.gen }, ..self }
    }

    /// The state after a step of the name table.
    pub open spec fn tabled<T>(self, r: (TableView, Result<T, Fatal>)) -> (
        CompView,
        Result<(), Fatal>,
    ) {
        (
            self.table(r.0),
            match r.1 {
                Ok(_) => Ok(()),
                Err(e) => Err(e),
            },
        )
    }

    /// Reading the next token.
    pub open spec fn next(self) -> (CompView, Result<(), Fatal>) {
        let (l, r) = self.lex.next_token();
        match r {
            Ok(t) => (CompView { token: t, lex: l, ..self }, Ok(())),
            Err(e) => (CompView { lex: l, ..self }, Err(e)),
        }
    }

    /// Stepping over the current token, which should be of kind `k`.
    pub open spec fn expect(self, k: KeyId) -> (CompView, Result<(), Fatal>) {
        let (l, r) = self.lex.check_get(self.token, k);
        match r {
            Ok(t) => (CompView { token: t, lex: l, ..self }, Ok(())),
            Err(e) => (CompView { lex: l, ..self }, Err(e)),
        }
    }

    /// Recording the error `m`.
    pub open spec fn error(self, m: Message) -> (CompView, Result<(), Fatal>) {
        let (l, r) = self.lex.error(m);
        (CompView { lex: l, ..self }, r)
    }

    /// Recording the end of the file where the program is not complete.
    pub open spec fn cut_short(self) -> (CompView, Result<(), Fatal>) {
        let (s, r) = self.error(Message::EndOfFile);
        (
            s,
            Err(
                if r is Err {
                    Fatal::TooManyErrors
                } else {
                    Fatal::EndOfFile
                },
            ),
        )
    }

    /// Recording the note `m`.
    pub open spec fn note(self, m: Message) -> CompView {
        CompView { lex: self.lex.note(m), ..self }
    }

    /// Telling the tokenizer what kind of name the current token is.
    pub open spec fn set_kind(self, k: KindT) -> CompView {
        CompView { lex: LexView { id_kind: k, ..self.lex }, ..self }
    }

    /// Appending the instruction `inst`.
    pub open spec fn emit(self, inst: Inst) -> (CompView, Result<(), Fatal>) {
        let (g, r) = self.gen.emit(inst);
        (
            CompView { gen: g, ..self },
            match r {
                Ok(_) => Ok(()),
                Err(e) => Err(e),
            },
        )
    }

    /// Appending `op` with the value `v`.
    pub open spec fn emit_v(self, op: OpCode, v: i32) -> (CompView, Result<(), Fatal>) {
        self.emit(Inst { op_code: op, u: InstU::Value(v) })
    }

    /// Appending `op` with the address of table entry `ti`.
    pub open spec fn emit_t(self, op: OpCode, ti: int) -> (CompView, Result<(), Fatal>) {
        self.emit(Inst { op_code: op, u: InstU::RelAddr(self.gen.table.addr_of(ti)) })
    }

    /// Appending the operator `p`.
    pub open spec fn emit_o(self, p: Operator) -> (CompView, Result<(), Fatal>) {
        self.emit(Inst { op_code: OpCode::Opr, u: InstU::Operator(p) })
    }

    /// Appending the `Ret` of the current block, unless a `Ret` was appended
    /// last.
    pub open spec fn emit_r(self) -> (CompView, Result<(), Fatal>) {
        let (g, r) = self.gen.emit_r();
        (
            CompView { gen: g, ..self },
            match r {
                Ok(_) => Ok(()),
                Err(e) => Err(e),
            },
        )
    }

    /// Looking up the name that the current token carries.  A name that is
    /// not declared is entered as a variable, and that is an error.
    #[verifier::opaque]
    pub open spec fn lookup(self) -> (CompView, Result<int, Fatal>) {
        let found = self.gen.table.search(name_of(self.token), KindT::VarId);
        match found.1 {
            Err(e) => (self.table(found.0), Err(e)),
            Ok(ti) => if ti > self.gen.table.t_index {
                let e = self.table(found.0).error(Message::Undeclared);
                (
                    e.0,
                    match e.1 {
                        Ok(_) => Ok(ti),
                        Err(x) => Err(x),
                    },
                )
            } else {
                (self.table(found.0), Ok(ti))
            },
        }
    }

    /// Making the jump at `i` lead to the next instruction to come.
    pub open spec fn patch(self, i: int) -> CompView {
        CompView { gen: self.gen.back_patch(i), ..self }
    }

    /// The index of the next instruction to come.
    pub open spec fn next_code(self) -> int {
        self.gen.code.len() as int
    }

    /// factor = ident | ident "(" [ expression { "," expression } ] ")"
    ///        | number | "(" expression ")".
    /// Nothing is read where no factor begins.
    pub open spec fn primary(self) -> (CompView, Result<(), Fatal>)
        decreases self.weight(), 7int,
    {
        if self.token.kind == KeyId::Id {
            self.name_factor()
        } else if self.token.kind == KeyId::Num {
            let e = self.emit_v(OpCode::Lit, value_of(self.token));
            if e.1 is Err {
                e
            } else {
                e.0.next()
            }
        } else if self.token.kind == KeyId::Lparen {
            let n = self.next();
            if !moved_on(n, self) {
                halt(n)
            } else {
                let x = n.0.expression();
                if !went_on(x, n.0) {
                    halt(x)
                } else {
                    x.0.expect(KeyId::Rparen)
                }
            }
        } else {
            (self, Ok(()))
        }
    }

    /// A factor, and the factors that follow it with no operator between
    /// them: each of these is an error and is compiled all the same.
    pub open spec fn factor(self) -> (CompView, Result<(), Fatal>)
        decreases self.weight(), 10int,
    {
        let a = self.primary();
        if a.1 is Err {
            a
        } else if a.0.token.kind == KeyId::Id || a.0.token.kind == KeyId::Num || a.0.token.kind
            == KeyId::Lparen {
            let e = a.0.error(Message::MissingOperator(a.0.token.kind));
            if !moved_on(e, self) {
                halt(e)
            } else {
                e.0.factor()
            }
        } else {
            a
        }
    }

    /// The factor that begins with a name: a variable or a parameter is
    /// loaded, a constant becomes a literal, a function is called.
    pub open spec fn name_factor(self) -> (CompView, Result<(), Fatal>)
        decreases self.weight(), 5int,
    {
        let found = self.lookup();
        if found.1 is Err {
            (found.0, Err(found.1->Err_0))
        } else {
            let ti = found.1->Ok_0;
            let k = found.0.gen.table.get(ti)->0.kind;
            let s = found.0.set_kind(k);
            match k {
                KindT::VarId | KindT::ParId => {
                    let e = s.emit_t(OpCode::Lod, ti);
                    if e.1 is Err {
                        e
                    } else {
                        e.0.next()
                    }
                },
                KindT::ConstId => {
                    let e = s.emit_v(OpCode::Lit, s.gen.table.get(ti)->0.u->Value_0);
                    if e.1 is Err {
                        e
                    } else {
                        e.0.next()
                    }
                },
                KindT::FuncId => {
                    let n = s.next();
                    if !moved_on(n, self) {
                        halt(n)
                    } else if n.0.token.kind == KeyId::Lparen {
                        let m = n.0.next();
                        if !moved_on(m, n.0) {
                            halt(m)
                        } else if m.0.token.kind != KeyId::Rparen {
                            let x = m.0.args(0);
                            if x.2 is Err {
                                (x.0, x.2)
                            } else {
                                x.0.close_call(ti, x.1)
                            }
                        } else {
                            let c = m.0.next();
                            if c.1 is Err {
                                c
                            } else {
                                c.0.close_call(ti, 0)
                            }
                        }
                    } else {
                        let e = n.0.error(Message::Insert(KeyId::Lparen));
                        if e.1 is Err {
                            e
                        } else {
                            let f = e.0.error(Message::Insert(KeyId::Rparen));
                            if f.1 is Err {
                                f
                            } else {
                                f.0.emit_t(OpCode::Cal, ti)
                            }
                        }
                    }
                },
            }
        }
    }

    /// The arguments of a call, the first `n` of which are compiled:
    /// expression { "," expression } ")".  The result counts them all.
    pub open spec fn args(self, n: int) -> (CompView, int, Result<(), Fatal>)
        decreases self.weight(), 60int,
    {
        let a = self.expression();
        if !went_on(a, self) {
            (a.0, n + 1, halt(a).1)
        } else if a.0.token.kind == KeyId::Comma {
            let c = a.0.next();
            if !moved_on(c, self) {
                (c.0, n + 1, halt(c).1)
            } else {
                c.0.args(n + 1)
            }
        } else {
            let e = a.0.expect(KeyId::Rparen);
            (e.0, n + 1, e.1)
        }
    }

    /// The end of a call of the function in slot `ti` with `n` arguments: it
    /// is an error if the function has another number of parameters; the
    /// call is appended all the same.
    #[verifier::opaque]
    pub open spec fn close_call(self, ti: int, n: int) -> (CompView, Result<(), Fatal>) {
        let e = if self.gen.table.pars_of(ti) != n {
            self.error(Message::UnmatchedPar)
        } else {
            (self, Ok(()))
        };
        if e.1 is Err {
            e
        } else {
            e.0.emit_t(OpCode::Cal, ti)
        }
    }

    /// term = factor { ("*"|"/") factor }.
    pub open spec fn term(self) -> (CompView, Result<(), Fatal>)
        decreases self.weight(), 30int,
    {
        let f = self.factor();
        if !went_on(f, self) {
            halt(f)
        } else {
            f.0.term_rest()
        }
    }

    /// { ("*"|"/") factor }: each factor is followed by its operator.
    pub open spec fn term_rest(self) -> (CompView, Result<(), Fatal>)
        decreases self.weight(), 20int,
    {
        let k = self.token.kind;
        if k == KeyId::Mult || k == KeyId::Div {
            let n = self.next();
            if !moved_on(n, self) {
                halt(n)
            } else {
                let f = n.0.factor();
                if !went_on(f, n.0) {
                    halt(f)
                } else {
                    let e = f.0.emit_o(
                        if k == KeyId::Mult {
                            Operator::Mul
                        } else {
                            Operator::Div
                        },
                    );
                    if e.1 is Err {
                        e
                    } else {
                        e.0.term_rest()
                    }
                }
            }
        } else {
            (self, Ok(()))
        }
    }

    /// expression = [ "+" | "-" ] term { ("+"|"-") term }.  A leading minus
    /// negates the first term.
    pub open spec fn expression(self) -> (CompView, Result<(), Fatal>)
        decreases self.weight(), 50int,
    {
        let k = self.token.kind;
        let a = if k == KeyId::Plus || k == KeyId::Minus {
            let n = self.next();
            if !moved_on(n, self) {
                halt(n)
            } else {
                let t = n.0.term();
                if t.1 is Err {
                    t
                } else if k == KeyId::Minus {
                    t.0.emit_o(Operator::Neg)
                } else {
                    t
                }
            }
        } else {
            self.term()
        };
        if !went_on(a, self) {
            halt(a)
        } else {
            a.0.expr_rest()
        }
    }

    /// { ("+"|"-") term }: each term is followed by its operator.
    pub open spec fn expr_rest(self) -> (CompView, Result<(), Fatal>)
        decreases self.weight(), 40int,
    {
        let k = self.token.kind;
        if k == KeyId::Plus || k == KeyId::Minus {
            let n = self.next();
            if !moved_on(n, self) {
                halt(n)
            } else {
                let t = n.0.term();
                if !went_on(t, n.0) {
                    halt(t)
                } else {
                    let e = t.0.emit_o(
                        if k == KeyId::Minus {
                            Operator::Sub
                        } else {
                            Operator::Add
                        },
                    );
                    if e.1 is Err {
                        e
                    } else {
                        e.0.expr_rest()
                    }
                }
            }
        } else {
            (self, Ok(()))
        }
    }

    /// condition = "odd" expression | expression relop expression.  Where
    /// the relational operator is missing that is an error, and no
    /// instruction can compare the two values: the compilation ends with
    /// [`Fatal::NoRelation`] behind the second expression.
    pub open spec fn condition(self) -> (CompView, Result<(), Fatal>)
        decreases self.weight(), 70int,
    {
        if self.token.kind == KeyId::Odd {
            let n = self.next();
            if !moved_on(n, self) {
                halt(n)
            } else {
                let x = n.0.expression();
                if x.1 is Err {
                    x
                } else {
                    x.0.emit_o(Operator::Odd)
                }
            }
        } else {
            let x = self.expression();
            if !went_on(x, self) {
                halt(x)
            } else {
                let k = x.0.token.kind;
                let e = if rel_op(k) {
                    (x.0, Ok(()))
                } else {
                    x.0.error(Message::TypeRelOp)
                };
                if e.1 is Err {
                    e
                } else {
                    let n = e.0.next();
                    if !went_on(n, e.0) {
                        halt(n)
                    } else {
                        let y = n.0.expression();
                        if y.1 is Err {
                            y
                        } else if rel_op(k) {
                            y.0.emit_o(rel_operator(k))
                        } else {
                            (y.0, Err(Fatal::NoRelation))
                        }
                    }
                }
            }
        }
    }

    /// ident ":=" expression.  The name is looked up first.  It is an error
    /// if it is neither a variable nor a parameter; the store goes to the
    /// address that the table has for it, and where it has none, as for a
    /// constant, the compilation ends with [`Fatal::NoAddress`] behind the
    /// expression.
    pub open spec fn assignment(self) -> (CompView, Result<(), Fatal>)
        decreases self.weight(), 75int,
    {
        let found = self.lookup();
        if found.1 is Err {
            (found.0, Err(found.1->Err_0))
        } else {
            let ti = found.1->Ok_0;
            let k = found.0.gen.table.get(ti)->0.kind;
            let s = found.0.set_kind(k);
            let e = if k != KindT::VarId && k != KindT::ParId {
                s.error(Message::TypeVarPar)
            } else {
                (s, Ok(()))
            };
            if e.1 is Err {
                e
            } else {
                let n = e.0.next();
                if !moved_on(n, self) {
                    halt(n)
                } else {
                    let c = n.0.expect(KeyId::Assign);
                    if !went_on(c, n.0) {
                        halt(c)
                    } else {
                        let x = c.0.expression();
                        if x.1 is Err {
                            x
                        } else if k == KindT::ConstId {
                            (x.0, Err(Fatal::NoAddress))
                        } else {
                            x.0.emit_t(OpCode::Sto, ti)
                        }
                    }
                }
            }
        }
    }

    /// "if" condition "then" statement: a `Jpc` behind the condition leads
    /// behind the statement.
    pub open spec fn if_statement(self) -> (CompView, Result<(), Fatal>)
        decreases self.weight(), 75int,
    {
        let n = self.next();
        if !moved_on(n, self) {
            halt(n)
        } else {
            let c = n.0.condition();
            if !went_on(c, n.0) {
                halt(c)
            } else {
                let t = c.0.expect(KeyId::Then);
                if !went_on(t, c.0) {
                    halt(t)
                } else {
                    let j = t.0.emit_v(OpCode::Jpc, 0);
                    if j.1 is Err {
                        j
                    } else {
                        let s = j.0.statement();
                        if s.1 is Err {
                            s
                        } else {
                            (s.0.patch(t.0.next_code()), Ok(()))
                        }
                    }
                }
            }
        }
    }

    /// "while" condition "do" statement: a `Jpc` behind the condition leads
    /// behind the loop, and a `Jmp` behind the statement leads back to the
    /// condition.
    pub open spec fn while_statement(self) -> (CompView, Result<(), Fatal>)
        decreases self.weight(), 75int,
    {
        let n = self.next();
        if !moved_on(n, self) {
            halt(n)
        } else {
            let c = n.0.condition();
            if !went_on(c, n.0) {
                halt(c)
            } else {
                let t = c.0.expect(KeyId::Do);
                if !went_on(t, c.0) {
                    halt(t)
                } else {
                    let j = t.0.emit_v(OpCode::Jpc, 0);
                    if j.1 is Err {
                        j
                    } else {
                        let s = j.0.statement();
                        if s.1 is Err {
                            s
                        } else {
                            let b = s.0.emit_v(OpCode::Jmp, n.0.next_code() as i32);
                            if b.1 is Err {
                                b
                            } else {
                                (b.0.patch(t.0.next_code()), Ok(()))
                            }
                        }
                    }
                }
            }
        }
    }

    /// A statement that is a key word and an expression, with `inst` (or the
    /// `Ret` of the block, where `inst` is `None`) behind the expression:
    /// "return" expression, "write" expression.
    pub open spec fn key_statement(self, inst: Option<Operator>) -> (CompView, Result<(), Fatal>)
        decreases self.weight(), 75int,
    {
        let n = self.next();
        if !moved_on(n, self) {
            halt(n)
        } else {
            let x = n.0.expression();
            if x.1 is Err {
                x
            } else {
                match inst {
                    Some(p) => x.0.emit_o(p),
                    None => x.0.emit_r(),
                }
            }
        }
    }

    /// statement = ident ":=" expression | "if" .. | "while" .. | "return"
    /// expression | "begin" .. "end" | "write" expression | "writeln" | .
    /// Before `end`, `;` and `.` the statement is empty.  Any other token
    /// that begins no statement is noted and skipped.
    pub open spec fn statement(self) -> (CompView, Result<(), Fatal>)
        decreases self.weight(), 80int,
    {
        match self.token.kind {
            KeyId::Id => self.assignment(),
            KeyId::If => self.if_statement(),
            KeyId::Ret => self.key_statement(None),
            KeyId::Begin => {
                let n = self.next();
                if !moved_on(n, self) {
                    halt(n)
                } else {
                    n.0.statements()
                }
            },
            KeyId::While => self.while_statement(),
            KeyId::Write => self.key_statement(Some(Operator::Wrt)),
            KeyId::WriteLn => {
                let n = self.next();
                if n.1 is Err {
                    n
                } else {
                    n.0.emit_o(Operator::Wrl)
                }
            },
            KeyId::End | KeyId::Semicolon | KeyId::Period => (self, Ok(())),
            k => {
                let n = self.note(Message::Delete(k)).next();
                if !moved_on(n, self) {
                    halt(n)
                } else {
                    n.0.statement()
                }
            },
        }
    }

    /// What follows a statement between `begin` and `end`.  The result says
    /// whether another statement follows: one does behind a `;` and where a
    /// statement begins, which is the error of a missing `;`.  `end` closes
    /// the list.  Any other token is noted and skipped, but for the period:
    /// nothing can be read behind it, so the file ends there.
    #[verifier::opaque]
    pub open spec fn separator(self) -> (CompView, Result<bool, Fatal>)
        decreases self.weight(), 90int,
    {
        let k = self.token.kind;
        if k == KeyId::Semicolon || k == KeyId::End {
            let n = self.next();
            (
                n.0,
                match n.1 {
                    Ok(_) => Ok(k == KeyId::Semicolon),
                    Err(e) => Err(e),
                },
            )
        } else if k.st_begin_key() {
            let e = self.error(Message::Insert(KeyId::Semicolon));
            (
                e.0,
                match e.1 {
                    Ok(_) => Ok(true),
                    Err(e) => Err(e),
                },
            )
        } else if k == KeyId::Period {
            let c = self.cut_short();
            (c.0, Err(c.1->Err_0))
        } else {
            let n = self.note(Message::Delete(k)).next();
            if !moved_on(n, self) {
                (n.0, Err(halt(n).1->Err_0))
            } else {
                n.0.separator()
            }
        }
    }

    /// statement { ";" statement } "end".
    pub open spec fn statements(self) -> (CompView, Result<(), Fatal>)
        decreases self.weight(), 100int,
    {
        let s = self.statement();
        if !went_on(s, self) {
            halt(s)
        } else {
            let p = s.0.separator();
            match p.1 {
                Err(e) => (p.0, Err(e)),
                Ok(more) => if !more {
                    (p.0, Ok(()))
                } else if p.0.weight() < self.weight() {
                    p.0.statements()
                } else {
                    (p.0, Err(Fatal::Stalled))
                },
            }
        }
    }

    /// One item of a list of declarations; the current token is its name.
    /// A constant: ident "=" number.  A variable or a parameter: ident.
    #[verifier::opaque]
    pub open spec fn item(self, what: KindT) -> (CompView, Result<(), Fatal>) {
        let s = self.set_kind(what);
        let name = name_of(self.token);
        match what {
            KindT::ConstId => {
                let n = s.next();
                if n.1 is Err {
                    n
                } else {
                    let e = n.0.expect(KeyId::Equal);
                    if e.1 is Err {
                        e
                    } else {
                        let d = if e.0.token.kind == KeyId::Num {
                            e.0.tabled(e.0.gen.table.enter_const(name, value_of(e.0.token)))
                        } else {
                            e.0.error(Message::Number)
                        };
                        if d.1 is Err {
                            d
                        } else {
                            d.0.next()
                        }
                    }
                }
            },
            KindT::VarId => {
                let d = s.tabled(s.gen.table.enter_var(name));
                if d.1 is Err {
                    d
                } else {
                    d.0.next()
                }
            },
            _ => {
                let d = s.tabled(s.gen.table.enter_par(name));
                if d.1 is Err {
                    d
                } else {
                    d.0.next()
                }
            },
        }
    }

    /// A list of declarations of the kind `what`, separated by commas.  A
    /// name that follows an item is taken as the next item: a comma is
    /// missing, which is an error.  Where a constant or a variable has no
    /// name, that is an error; a list of parameters ends there.
    #[verifier::opaque]
    pub open spec fn list(self, what: KindT) -> (CompView, Result<(), Fatal>)
        decreases self.weight(), 110int,
    {
        if self.token.kind != KeyId::Id && what == KindT::ParId {
            (self, Ok(()))
        } else {
            let a = if self.token.kind == KeyId::Id {
                self.item(what)
            } else {
                self.error(Message::MissingIdentifier)
            };
            if a.1 is Err {
                a
            } else if a.0.token.kind == KeyId::Comma {
                let n = a.0.next();
                if !moved_on(n, self) {
                    halt(n)
                } else {
                    n.0.list(what)
                }
            } else if a.0.token.kind == KeyId::Id {
                let e = a.0.error(Message::Insert(KeyId::Comma));
                if !moved_on(e, self) {
                    halt(e)
                } else {
                    e.0.list(what)
                }
            } else {
                a
            }
        }
    }

    /// The constants or variables behind `const` or `var`, and the `;`
    /// that ends them.
    #[verifier::opaque]
    pub open spec fn simple_decl(self, what: KindT) -> (CompView, Result<(), Fatal>)
        decreases self.weight(), 120int,
    {
        let l = self.list(what);
        if l.1 is Err {
            l
        } else {
            l.0.expect(KeyId::Semicolon)
        }
    }

    /// The head of a function declaration; the current token is the name:
    /// ident "(" [ ident { "," ident } ] ")".
    /// The function is entered with the next instruction as its entry
    /// point, its parameters are entered in a block of their own, and their
    /// offsets are set when the list is closed.  A `;` behind the head is
    /// noted and skipped.  The result is the index of the function in the
    /// table.
    #[verifier::opaque]
    pub open spec fn func_head(self) -> (CompView, Result<int, Fatal>) {
        let s = self.set_kind(KindT::FuncId);
        let entered = s.gen.table.enter_func(name_of(self.token), s.next_code() as i32);
        if entered.1 is Err {
            (s.table(entered.0), Err(entered.1->Err_0))
        } else {
            let n = s.table(entered.0).next();
            if n.1 is Err {
                (n.0, Err(n.1->Err_0))
            } else {
                let p = n.0.expect(KeyId::Lparen);
                if p.1 is Err {
                    (p.0, Err(p.1->Err_0))
                } else {
                    let b = p.0.tabled(p.0.gen.table.block_begin(FIRST_ADDR));
                    if b.1 is Err {
                        (b.0, Err(b.1->Err_0))
                    } else {
                        let l = b.0.list(KindT::ParId);
                        if l.1 is Err {
                            (l.0, Err(l.1->Err_0))
                        } else {
                            let c = l.0.expect(KeyId::Rparen);
                            if c.1 is Err {
                                (c.0, Err(c.1->Err_0))
                            } else {
                                let q = c.0.table(c.0.gen.table.end_par());
                                let d = if q.token.kind == KeyId::Semicolon {
                                    q.note(Message::Delete(KeyId::Semicolon)).next()
                                } else {
                                    (q, Ok(()))
                                };
                                (
                                    d.0,
                                    match d.1 {
                                        Ok(_) => Ok(entered.1->Ok_0),
                                        Err(e) => Err(e),
                                    },
                                )
                            }
                        }
                    }
                }
            }
        }
    }

    /// What stands behind `function`: the head of the function, its block,
    /// and a `;`.  Where the name is missing, that is an error, and nothing
    /// is read.
    pub open spec fn func_decl(self) -> (CompView, Result<(), Fatal>)
        decreases self.weight(), 120int,
    {
        if self.token.kind == KeyId::Id {
            let h = self.func_head();
            if h.1 is Err {
                (h.0, Err(h.1->Err_0))
            } else if !(h.0.weight() < self.weight()) {
                (h.0, Err(Fatal::Stalled))
            } else {
                let k = h.0.block(h.1->Ok_0);
                if k.1 is Err {
                    k
                } else {
                    k.0.expect(KeyId::Semicolon)
                }
            }
        } else {
            self.error(Message::MissingFunctionName)
        }
    }

    /// { const-decl | var-decl | func-decl }.
    pub open spec fn decls(self) -> (CompView, Result<(), Fatal>)
        decreases self.weight(), 130int,
    {
        let k = self.token.kind;
        if k == KeyId::Const || k == KeyId::Var || k == KeyId::Func {
            let n = self.next();
            if !moved_on(n, self) {
                halt(n)
            } else {
                let d = if k == KeyId::Const {
                    n.0.simple_decl(KindT::ConstId)
                } else if k == KeyId::Var {
                    n.0.simple_decl(KindT::VarId)
                } else {
                    n.0.func_decl()
                };
                if !went_on(d, n.0) {
                    halt(d)
                } else {
                    d.0.decls()
                }
            }
        } else {
            (self, Ok(()))
        }
    }

    /// block = { const-decl | var-decl | func-decl } statement, for the
    /// function in slot `p_index` of the table (0 for the main block).  A
    /// `Jmp` leads over the code of the functions declared in the block to an
    /// `Ict` that reserves the block's frame; there the function has its
    /// entry point.  A `Ret` ends the block.
    pub open spec fn block(self, p_index: int) -> (CompView, Result<(), Fatal>)
        decreases self.weight(), 140int,
    {
        let j = self.emit_v(OpCode::Jmp, 0);
        if j.1 is Err {
            j
        } else {
            let d = j.0.decls();
            if !went_on(d, self) {
                halt(d)
            } else {
                let p = d.0.patch(self.next_code());
                let q = p.table(p.gen.table.change_v(p_index, p.next_code() as i32));
                let i = q.emit_v(OpCode::Ict, q.gen.table.local_addr as i32);
                if i.1 is Err {
                    i
                } else {
                    let s = i.0.statement();
                    if s.1 is Err {
                        s
                    } else {
                        let r = s.0.emit_r();
                        if r.1 is Err {
                            r
                        } else {
                            (r.0.table(r.0.gen.table.block_end()), Ok(()))
                        }
                    }
                }
            }
        }
    }

    /// program = block ".": the first token is read, the main block begins
    /// and is compiled.  The result says whether the program may be run:
    /// it may if fewer than `MIN_ERROR` errors were found.
    #[verifier::opaque]
    pub open spec fn compile(self) -> (CompView, Result<bool, Fatal>) {
        let n = self.next();
        if n.1 is Err {
            (n.0, Err(n.1->Err_0))
        } else {
            let b = n.0.tabled(n.0.gen.table.block_begin(FIRST_ADDR));
            if b.1 is Err {
                (b.0, Err(b.1->Err_0))
            } else {
                let m = b.0.block(0);
                if m.1 is Err {
                    (m.0, Err(m.1->Err_0))
                } else {
                    (m.0, Ok(m.0.lex.error_no < MIN_ERROR))
                }
            }
        }
    }
}

} // verus!
