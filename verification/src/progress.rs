//! What the compiler keeps to while it goes through a block, and what
//! each production leaves behind: the table grows, complete code is
//! appended, and the tokenizer is not given anything back.
use vstd::prelude::*;
use crate::codegen::{well_typed_code, GenView, Inst, InstU, OpCode, MAXCODE};
use crate::compile::FIRST_ADDR;
use crate::syntax::CompView;
use crate::table::{EntryView, KindT, TableView, MAXLEVEL};

verus! {

/// The instruction `inst` at index `i` of a program of `n` instructions is
/// complete: its operand is of the sort its operation reads, a `Jpc` leads
/// forward to an index up to `n`, and a `Jmp` leads to an index up to `n`.
pub open spec fn settled(inst: Inst, i: int, n: int) -> bool {
    &&& inst.well_typed()
    &&& inst.op_code == OpCode::Jpc ==> i < inst.u->Value_0 <= n
    &&& inst.op_code == OpCode::Jmp ==> 0 <= inst.u->Value_0 <= n
}

/// The code `to` is the code `from` with complete instructions behind it:
/// nothing of `from` has changed.
pub open spec fn grown(from: Seq<Inst>, to: Seq<Inst>) -> bool {
    &&& from.len() <= to.len()
    &&& forall|i: int| 0 <= i < from.len() ==> #[trigger] to[i] == from[i]
    &&& forall|i: int| from.len() <= i < to.len() ==> settled(#[trigger] to[i], i, to.len() as int)
}

/// The block that begins with the `Jmp` at index `b` of `code` has its body
/// at `v`: the jump leads there, and an `Ict` stands there.
pub open spec fn opens_at(code: Seq<Inst>, b: int, v: int) -> bool {
    &&& 0 <= b < v < code.len()
    &&& code[b] == Inst { op_code: OpCode::Jmp, u: InstU::Value(v as i32) }
    &&& code[v].op_code == OpCode::Ict
}

/// The slot holds no variable, or one that lies behind the two cells that
/// begin every frame.
pub open spec fn var_ok(o: Option<EntryView>) -> bool {
    match o {
        Some(e) => e.kind == KindT::VarId ==> e.u is RelAddr && e.u->RelAddr_0.addr >= FIRST_ADDR,
        None => true,
    }
}

impl TableView {
    /// A block is open, its next offset lies behind the two cells that begin
    /// the frame and has grown with the table at most, and for every
    /// enclosing level the function whose block was entered from there is
    /// on record, with the offset that was saved.
    pub open spec fn framed(self) -> bool {
        &&& self.level >= 0
        &&& FIRST_ADDR <= self.local_addr <= FIRST_ADDR + self.t_index
        &&& forall|l: int|
            0 <= l < self.level ==> self.is_func(#[trigger] self.index[l] as int) && FIRST_ADDR
                <= self.addr[l] <= FIRST_ADDR + self.index[l]
    }

    /// Every variable of the table lies behind the two cells that begin its
    /// frame.
    pub open spec fn vars_ok(self) -> bool {
        forall|i: int| 0 <= i < self.entries.len() ==> var_ok(#[trigger] self.entries[i])
    }

    /// The table is consistent and framed, and its variables have their
    /// places.
    #[verifier::opaque]
    pub open spec fn sound(self) -> bool {
        self.wf() && self.framed() && self.vars_ok()
    }

    /// The entries up to `n` and what is saved for the levels below `lv`
    /// are as in `from`.
    pub open spec fn keeps(self, from: TableView, n: int, lv: int) -> bool {
        &&& forall|i: int| 0 <= i <= n ==> #[trigger] self.entries[i] == from.entries[i]
        &&& forall|l: int|
            0 <= l < lv ==> #[trigger] self.index[l] == from.index[l] && self.addr[l]
                == from.addr[l]
    }

    /// The table has grown from `from` within one block: the level and what
    /// was saved for the enclosing levels are the same, and every entry that
    /// was visible is as it was.
    pub open spec fn follows(self, from: TableView) -> bool {
        &&& self.level == from.level
        &&& from.t_index <= self.t_index
        &&& self.keeps(from, from.t_index, from.level)
    }

    /// Slot `p` can take the entry point of the block to come: it is
    /// visible, and it holds a function or nothing.
    pub open spec fn owns(self, p: int) -> bool {
        &&& 0 <= p <= self.t_index
        &&& self.get(p) is Some ==> self.is_func(p)
    }

    /// Parameters were declared from `from` on: the entries before the
    /// function are as they were, and so is all that is saved.
    pub open spec fn pars_added(self, from: TableView) -> bool {
        &&& self.level == from.level
        &&& self.tf_index == from.tf_index
        &&& self.local_addr == from.local_addr
        &&& from.t_index <= self.t_index
        &&& self.keeps(from, from.tf_index - 1, MAXLEVEL as int)
    }

    /// The head of the function in slot `f` was read from `from` on: the
    /// function is entered behind the entries that were visible, and its
    /// block is open.
    pub open spec fn opened(self, from: TableView, f: int) -> bool {
        &&& self.level == from.level + 1
        &&& f == from.t_index + 1
        &&& f <= self.t_index
        &&& self.is_func(f)
        &&& self.index[from.level] == f
        &&& self.addr[from.level] == from.local_addr
        &&& self.keeps(from, from.t_index, from.level)
    }

    /// The parameters of the function entered last are being declared: they
    /// are the entries behind the function, and the function counts them.
    pub open spec fn at_pars(self) -> bool {
        &&& 1 <= self.tf_index <= self.t_index
        &&& self.is_func(self.tf_index)
        &&& self.pars_of(self.tf_index) == self.t_index - self.tf_index
        &&& forall|j: int|
            self.tf_index < j <= self.t_index ==> (#[trigger] self.entries[j]) is Some
                && self.entries[j]->0.u is RelAddr && self.entries[j]->0.kind == KindT::ParId
    }

    /// The block that was open in `from`, of the function in slot `p`, is
    /// closed: the level is the enclosing one with what was saved for it,
    /// and every entry that was visible is as it was, but for the function,
    /// which got its entry point.
    pub open spec fn closes(self, from: TableView, p: int) -> bool {
        &&& self.level == from.level - 1
        &&& from.level >= 1 ==> self.t_index == from.index[from.level - 1] && self.local_addr
            == from.addr[from.level - 1]
        &&& from.level == 0 ==> self.t_index >= from.t_index
        &&& forall|l: int|
            0 <= l < from.level ==> #[trigger] self.index[l] == from.index[l] && self.addr[l]
                == from.addr[l]
        &&& forall|i: int|
            0 <= i <= from.t_index && i != p ==> #[trigger] self.entries[i] == from.entries[i]
        &&& self.is_func(p)
        &&& from.entries[p] is Some ==> self.entries[p]->0.kind == from.entries[p]->0.kind
            && self.entries[p]->0.name == from.entries[p]->0.name && self.pars_of(p)
            == from.pars_of(p) && self.addr_of(p).level == from.addr_of(p).level
    }
}

impl CompView {
    /// The compiler is inside a block and its parts are consistent.
    pub open spec fn inv(self) -> bool {
        &&& self.lex.wf()
        &&& self.gen.code.len() <= MAXCODE
        &&& self.gen.table.sound()
    }

    /// The table has grown from that of `from` within one block, and
    /// complete code was appended to that of `from`.
    #[verifier::opaque]
    pub open spec fn extends(self, from: CompView) -> bool {
        &&& self.gen.table.follows(from.gen.table)
        &&& grown(from.gen.code, self.gen.code)
    }

    /// The compiler has gone on from `from` within one block: nothing was
    /// given back to the tokenizer, no error was taken back, the table has
    /// grown, and complete code was appended.
    pub open spec fn proceeds(self, from: CompView) -> bool {
        &&& self.inv()
        &&& self.weight() <= from.weight()
        &&& self.lex.error_no >= from.lex.error_no
        &&& self.extends(from)
    }

    /// Compilation can begin: no block is open, and slot 0 of the table is
    /// free for the main block.
    pub open spec fn ready(self) -> bool {
        &&& self.lex.wf()
        &&& self.gen.wf()
        &&& self.gen.table.level == -1
        &&& self.gen.table.entries[0] is Some ==> self.gen.table.is_func(0)
        &&& self.gen.table.vars_ok()
    }
}

/// Code that has grown from well-typed code is well typed: every
/// instruction has the operand that its operation reads.
pub proof fn lemma_grown_is_well_typed(from: Seq<Inst>, to: Seq<Inst>)
    requires
        grown(from, to),
        well_typed_code(from),
    ensures
        well_typed_code(to),
{
    assert forall|i: int| 0 <= i < to.len() implies (#[trigger] to[i]).well_typed() by {
        if i < from.len() {
            assert(to[i] == from[i]);
        } else {
            assert(settled(to[i], i, to.len() as int));
        }
    }
}

/// Going on twice is going on.
pub broadcast proof fn lemma_extends_trans(a: CompView, b: CompView, c: CompView)
    requires
        #[trigger] b.extends(a),
        #[trigger] c.extends(b),
    ensures
        c.extends(a),
{
    reveal(CompView::extends);
    assert forall|i: int| 0 <= i <= a.gen.table.t_index implies #[trigger] c.gen.table.entries[i]
        == a.gen.table.entries[i] by {
        assert(b.gen.table.entries[i] == a.gen.table.entries[i]);
    }
    assert forall|l: int| 0 <= l < a.gen.table.level implies #[trigger] c.gen.table.index[l]
        == a.gen.table.index[l] && c.gen.table.addr[l] == a.gen.table.addr[l] by {
        assert(b.gen.table.index[l] == a.gen.table.index[l]);
    }
    assert forall|i: int| 0 <= i < a.gen.code.len() implies #[trigger] c.gen.code[i]
        == a.gen.code[i] by {
        assert(b.gen.code[i] == a.gen.code[i]);
    }
    assert forall|i: int| a.gen.code.len() <= i < c.gen.code.len() implies settled(
        #[trigger] c.gen.code[i],
        i,
        c.gen.code.len() as int,
    ) by {
        if i < b.gen.code.len() {
            assert(c.gen.code[i] == b.gen.code[i]);
            assert(settled(b.gen.code[i], i, b.gen.code.len() as int));
        }
    }
}

/// A state goes on from itself, and from one that differs in the tokenizer
/// and the token only.
pub proof fn lemma_extends_same(a: CompView, b: CompView)
    requires
        b.gen == a.gen,
    ensures
        b.extends(a),
{
    reveal(CompView::extends);
}

/// Appending a complete instruction is going on.
pub proof fn lemma_extends_push(a: CompView, b: CompView, inst: Inst)
    requires
        b.gen.table == a.gen.table,
        b.gen.code == a.gen.code.push(inst),
        settled(inst, a.gen.code.len() as int, a.gen.code.len() as int + 1),
    ensures
        b.extends(a),
{
    reveal(CompView::extends);
}

/// What going on leaves as it was: the code that was there, and every entry
/// that was visible.
pub proof fn lemma_extends_keeps(a: CompView, b: CompView)
    requires
        b.extends(a),
    ensures
        b.gen.table.follows(a.gen.table),
        grown(a.gen.code, b.gen.code),
{
    reveal(CompView::extends);
}

/// An entry that was visible is as it was after going on.
pub proof fn lemma_extends_entry(a: CompView, b: CompView, i: int)
    requires
        a.inv(),
        b.inv(),
        b.extends(a),
        0 <= i <= a.gen.table.t_index,
    ensures
        b.gen.table.get(i) == a.gen.table.get(i),
        b.gen.table.get(i) is Some ==> crate::table::consistent(b.gen.table.get(i)->0),
        a.gen.table.t_index <= b.gen.table.t_index,
{
    reveal(CompView::extends);
    reveal(TableView::sound);
    assert(b.gen.table.entries[i] == a.gen.table.entries[i]);
    assert(crate::table::slot_ok(b.gen.table.entries[i]));
}

/// A forward jump that is patched behind the code it leads over is
/// complete.  `b` is the state before the jump `op` was appended with the
/// target 0, `c` a state that goes on from the one behind the jump, and `d`
/// is `c` with the jump patched.
pub proof fn lemma_extends_patch(a: CompView, b: CompView, op: OpCode, c: CompView, d: CompView)
    requires
        b.extends(a),
        op == OpCode::Jmp || op == OpCode::Jpc,
        c.extends(
            CompView {
                gen: GenView {
                    code: b.gen.code.push(Inst { op_code: op, u: InstU::Value(0) }),
                    ..b.gen
                },
                ..b
            },
        ),
        c.gen.code.len() <= MAXCODE,
        d.gen == c.gen.back_patch(b.gen.code.len() as int),
    ensures
        d.extends(a),
        d.gen.table == c.gen.table,
        d.gen.code.len() == c.gen.code.len(),
        b.gen.code.len() < c.gen.code.len(),
        d.gen.code[b.gen.code.len() as int] == (Inst {
            op_code: op,
            u: InstU::Value(c.gen.code.len() as i32),
        }),
{
    reveal(CompView::extends);
    let j = b.gen.code.len() as int;
    let b1 = CompView {
        gen: GenView { code: b.gen.code.push(Inst { op_code: op, u: InstU::Value(0) }), ..b.gen },
        ..b
    };
    assert(c.gen.code[j] == b1.gen.code[j]);
    assert forall|i: int| 0 <= i <= a.gen.table.t_index implies #[trigger] d.gen.table.entries[i]
        == a.gen.table.entries[i] by {
        assert(b.gen.table.entries[i] == a.gen.table.entries[i]);
        assert(c.gen.table.entries[i] == b1.gen.table.entries[i]);
    }
    assert forall|l: int| 0 <= l < a.gen.table.level implies #[trigger] d.gen.table.index[l]
        == a.gen.table.index[l] && d.gen.table.addr[l] == a.gen.table.addr[l] by {
        assert(b.gen.table.index[l] == a.gen.table.index[l]);
        assert(c.gen.table.index[l] == b1.gen.table.index[l]);
    }
    assert forall|i: int| 0 <= i < a.gen.code.len() implies #[trigger] d.gen.code[i]
        == a.gen.code[i] by {
        assert(b.gen.code[i] == a.gen.code[i]);
        assert(c.gen.code[i] == b1.gen.code[i]);
    }
    assert forall|i: int| a.gen.code.len() <= i < d.gen.code.len() implies settled(
        #[trigger] d.gen.code[i],
        i,
        d.gen.code.len() as int,
    ) by {
        if i < j {
            assert(c.gen.code[i] == b1.gen.code[i]);
            assert(settled(b.gen.code[i], i, b.gen.code.len() as int));
        } else if i > j {
            assert(settled(c.gen.code[i], i, c.gen.code.len() as int));
        }
    }
}

/// The head of a function leaves its block open.  `t0` is the table before
/// the head, `t1` the table with the function `name` entered in slot `f`,
/// `t2` the table with the block begun, `t3` the table with the parameters
/// declared, and `t4` the table with their offsets set.
pub proof fn lemma_head_opened(
    t0: TableView,
    name: Seq<char>,
    v: i32,
    t1: TableView,
    t2: TableView,
    t3: TableView,
    t4: TableView,
    f: int,
)
    requires
        t0.wf(),
        t0.level >= 0,
        i32::MIN <= t0.local_addr <= i32::MAX,
        t0.has_room(),
        t1 == t0.enter_func(name, v).0,
        f == t0.t_index + 1,
        t2 == t1.block_begin(FIRST_ADDR).0,
        t1.block_begin(FIRST_ADDR).1 is Ok,
        t3.pars_added(t2),
        t3.at_pars(),
        t3.wf(),
        t4 == t3.end_par(),
    ensures
        t4.opened(t0, f),
        t4.level == t3.level,
        t4.t_index == t3.t_index,
        t4.local_addr == t3.local_addr,
        t4.index == t3.index,
        t4.addr == t3.addr,
        forall|i: int| 0 <= i <= f ==> #[trigger] t4.entries[i] == t3.entries[i],
{
    let p = t3.pars_of(t3.tf_index);
    assert(t1.level == t0.level && t1.tf_index == f && t1.t_index == f);
    assert(t2.level == t0.level + 1 && t2.tf_index == f);
    assert(t2.index[t0.level] == f);
    assert(t2.addr[t0.level] == t0.local_addr);
    assert(t3.tf_index == f);
    assert(t3.index[t0.level] == t2.index[t0.level]);
    assert forall|i: int| 0 <= i <= f implies #[trigger] t4.entries[i] == t3.entries[i] by {
        assert(t4.entries[i] == t3.closed_slot(f, p, i));
    }
    assert forall|i: int| 0 <= i <= t0.t_index implies #[trigger] t4.entries[i]
        == t0.entries[i] by {
        assert(t4.entries[i] == t3.entries[i]);
        assert(t3.entries[i] == t2.entries[i]);
        assert(t1.entries[i] == t0.entries[i]);
    }
    assert forall|l: int| 0 <= l < t0.level implies #[trigger] t4.index[l] == t0.index[l]
        && t4.addr[l] == t0.addr[l] by {
        assert(t3.index[l] == t2.index[l]);
    }
    assert(t4.entries[f] == t3.entries[f]);
}

/// Behind the block of a function the compiler is where it was before the
/// function, with the function entered.  `a` is the state before the head
/// of the function in slot `f`, `h` the state behind the head, and `k` the
/// state behind the block.
pub proof fn lemma_function_closed(a: CompView, h: CompView, k: CompView, f: int)
    requires
        a.inv(),
        h.inv(),
        h.gen.table.opened(a.gen.table, f),
        h.gen.code == a.gen.code,
        k.gen.table.closes(h.gen.table, f),
        k.gen.table.wf(),
        k.gen.table.vars_ok(),
        grown(h.gen.code, k.gen.code),
        k.lex.wf(),
        k.gen.code.len() <= MAXCODE,
    ensures
        k.inv(),
        k.extends(a),
{
    reveal(CompView::extends);
    reveal(TableView::sound);
    let at = a.gen.table;
    let ht = h.gen.table;
    let kt = k.gen.table;
    assert(ht.index[at.level] == f);
    assert forall|i: int| 0 <= i <= at.t_index implies #[trigger] kt.entries[i]
        == at.entries[i] by {
        assert(ht.entries[i] == at.entries[i]);
    }
    assert forall|l: int| 0 <= l < at.level implies #[trigger] kt.index[l] == at.index[l]
        && kt.addr[l] == at.addr[l] by {
        assert(ht.index[l] == at.index[l]);
    }
    assert forall|l: int| 0 <= l < kt.level implies kt.is_func(#[trigger] kt.index[l] as int)
        && FIRST_ADDR <= kt.addr[l] <= FIRST_ADDR + kt.index[l] by {
        assert(kt.index[l] == at.index[l]);
        assert(at.is_func(at.index[l] as int));
        assert(kt.entries[at.index[l] as int] == at.entries[at.index[l] as int]);
    }
}

/// Behind its `Ret` a block is closed.  `a` is the state at the beginning
/// of the block of the function in slot `p`, `c` the state behind the
/// declarations with the leading jump patched, `e` that state with the entry
/// point of the function set, `s` the state behind the `Ret`, and `z` the
/// state with the block ended.
pub proof fn lemma_block_closed(
    a: CompView,
    c: CompView,
    e: CompView,
    s: CompView,
    z: CompView,
    p: int,
)
    requires
        a.inv(),
        a.gen.table.owns(p),
        c.inv(),
        c.extends(a),
        a.gen.code.len() < c.gen.code.len(),
        c.gen.code[a.gen.code.len() as int] == (Inst {
            op_code: OpCode::Jmp,
            u: InstU::Value(c.gen.code.len() as i32),
        }),
        e.gen.code == c.gen.code,
        e.gen.table == c.gen.table.change_v(p, c.gen.code.len() as i32),
        e.inv(),
        s.inv(),
        s.extends(e),
        e.gen.code.len() < s.gen.code.len(),
        s.gen.code[e.gen.code.len() as int].op_code == OpCode::Ict,
        z.gen.code == s.gen.code,
        z.gen.table == s.gen.table.block_end(),
    ensures
        z.gen.table.wf(),
        z.gen.table.closes(a.gen.table, p),
        grown(a.gen.code, z.gen.code),
        opens_at(z.gen.code, a.gen.code.len() as int, c.gen.code.len() as int),
        z.gen.table.addr_of(p).addr == c.gen.code.len(),
        z.gen.table.vars_ok(),
        a.gen.table.level >= 1 ==> z.gen.table.sound(),
{
    reveal(CompView::extends);
    reveal(TableView::sound);
    let at = a.gen.table;
    let ct = c.gen.table;
    let et = e.gen.table;
    let st = s.gen.table;
    let zt = z.gen.table;
    assert(ct.entries[p] == at.entries[p]);
    assert(st.entries[p] == et.entries[p]);
    assert forall|i: int| 0 <= i <= at.t_index && i != p implies #[trigger] zt.entries[i]
        == at.entries[i] by {
        assert(ct.entries[i] == at.entries[i]);
        assert(st.entries[i] == et.entries[i]);
    }
    assert forall|l: int| 0 <= l < at.level implies #[trigger] zt.index[l] == at.index[l]
        && zt.addr[l] == at.addr[l] by {
        assert(ct.index[l] == at.index[l]);
        assert(st.index[l] == et.index[l]);
    }
    assert forall|i: int| 0 <= i < a.gen.code.len() implies #[trigger] z.gen.code[i]
        == a.gen.code[i] by {
        assert(c.gen.code[i] == a.gen.code[i]);
        assert(s.gen.code[i] == e.gen.code[i]);
    }
    assert forall|i: int| a.gen.code.len() <= i < z.gen.code.len() implies settled(
        #[trigger] z.gen.code[i],
        i,
        z.gen.code.len() as int,
    ) by {
        if i < c.gen.code.len() {
            assert(s.gen.code[i] == e.gen.code[i]);
            assert(settled(c.gen.code[i], i, c.gen.code.len() as int));
        }
    }
    assert(s.gen.code[a.gen.code.len() as int] == e.gen.code[a.gen.code.len() as int]);
    assert forall|i: int| 1 <= i < zt.entries.len() implies (#[trigger] zt.entries[i]) is Some by {
        assert(st.entries[i] is Some);
    }
    assert forall|i: int| 0 <= i < zt.entries.len() implies crate::table::slot_ok(
        #[trigger] zt.entries[i],
    ) by {
        assert(crate::table::slot_ok(st.entries[i]));
    }
    assert forall|i: int| 0 <= i < zt.entries.len() implies var_ok(#[trigger] zt.entries[i]) by {
        assert(var_ok(st.entries[i]));
    }
    if at.level >= 1 {
        assert(st.index[at.level - 1] == et.index[at.level - 1]);
        assert(ct.index[at.level - 1] == at.index[at.level - 1]);
        assert forall|l: int| 0 <= l < zt.level implies zt.is_func(#[trigger] zt.index[l] as int)
            && FIRST_ADDR <= zt.addr[l] <= FIRST_ADDR + zt.index[l] by {
            assert(st.is_func(st.index[l] as int));
        }
    }
}

} // verus!
