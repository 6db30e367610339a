//! The name table: what has been declared, at which block level, and where
//! each name lives at run time.
//!
//! Entries are numbered from 1 in the order of their declaration; number 0
//! stands for the main block.  Leaving a block does not erase its entries, it
//! only lowers the index of the last visible one, so that later entries take
//! their place.
use vstd::prelude::*;
use crate::fault::Fatal;

verus! {

/// The number of slots of the name table (slot 0 included).
pub const MAXTABLE: usize = 100;

/// The number of block levels.
pub const MAXLEVEL: usize = 5;

/// What a declared name stands for.
#[derive(Copy, Clone, Debug, PartialEq, Eq, Structural)]
pub enum KindT {
    VarId,
    FuncId,
    ParId,
    ConstId,
}

/// Where a variable, a parameter or a function lives: the level of the block
/// that declares it and an offset in that block's frame (for a function, the
/// index of its first instruction).
#[derive(Copy, Clone, Debug, PartialEq, Eq, Structural)]
pub struct RelAddr {
    pub level: i32,
    pub addr: i32,
}

/// What the table records of a name besides its kind and spelling.
#[derive(Copy, Clone, Debug, PartialEq, Eq, Structural)]
pub enum TableEntryU {
    /// The value of a constant.
    Value(i32),
    /// The entry point of a function and the number of its parameters.
    Func { raddr: RelAddr, pars: i32 },
    /// The address of a variable or of a parameter.
    RelAddr(RelAddr),
}

/// One entry of the name table.
#[derive(Debug)]
pub struct TableEntry {
    pub kind: KindT,
    pub name: String,
    pub u: TableEntryU,
}

/// The model of a [`TableEntry`].
pub struct EntryView {
    pub kind: KindT,
    pub name: Seq<char>,
    pub u: TableEntryU,
}

impl View for TableEntry {
    type V = EntryView;

    open spec fn view(&self) -> EntryView {
        EntryView { kind: self.kind, name: self.name@, u: self.u }
    }
}

impl Clone for TableEntry {
    fn clone(&self) -> (r: Self)
        ensures
            r@ == self@,
    {
        TableEntry { kind: self.kind, name: self.name.clone(), u: self.u }
    }
}

/// The model of one slot of the table.
pub open spec fn slot_view(e: Option<TableEntry>) -> Option<EntryView> {
    match e {
        Some(x) => Some(x@),
        None => None,
    }
}

/// The name table.
pub struct NameTable {
    /// The slots; slot 0 is empty until the main block gets its entry.
    pub table: Vec<Option<TableEntry>>,
    /// The index of the last visible entry.
    pub t_index: i32,
    /// The level of the current block; -1 before the main block begins.
    pub level: i32,
    /// For each enclosing level, the last visible index when it was left for
    /// a nested block.
    pub index: [i32; MAXLEVEL],
    /// For each enclosing level, its next free offset when it was left.
    pub addr: [i32; MAXLEVEL],
    /// The next free offset of the current block.
    pub local_addr: i32,
    /// The index of the function whose parameters are being declared.
    pub tf_index: i32,
}

/// The model of a [`NameTable`].
pub struct TableView {
    pub entries: Seq<Option<EntryView>>,
    pub t_index: int,
    pub level: int,
    pub index: Seq<i32>,
    pub addr: Seq<i32>,
    pub local_addr: int,
    pub tf_index: int,
}

impl View for NameTable {
    type V = TableView;

    open spec fn view(&self) -> TableView {
        TableView {
            entries: self.table@.map_values(|e: Option<TableEntry>| slot_view(e)),
            t_index: self.t_index as int,
            level: self.level as int,
            index: self.index@,
            addr: self.addr@,
            local_addr: self.local_addr as int,
            tf_index: self.tf_index as int,
        }
    }
}

/// The payload of the entry is of the sort that goes with its kind: a value
/// for a constant, an entry point and a count for a function, an address for
/// a variable and for a parameter.
pub open spec fn consistent(e: EntryView) -> bool {
    match e.kind {
        KindT::ConstId => e.u is Value,
        KindT::FuncId => e.u is Func,
        _ => e.u is RelAddr,
    }
}

/// The slot is empty or holds a consistent entry.
pub open spec fn slot_ok(o: Option<EntryView>) -> bool {
    match o {
        Some(e) => consistent(e),
        None => true,
    }
}

/// `s` with `x` at position `i`, which is an old position or the next new one.
pub open spec fn put<T>(s: Seq<T>, i: int, x: T) -> Seq<T> {
    if i < s.len() {
        s.update(i, x)
    } else {
        s.push(x)
    }
}

impl TableView {
    /// The table before anything was declared.
    pub open spec fn initial() -> TableView {
        TableView {
            entries: seq![None],
            t_index: 0,
            level: -1,
            index: seq![0i32, 0i32, 0i32, 0i32, 0i32],
            addr: seq![0i32, 0i32, 0i32, 0i32, 0i32],
            local_addr: 0,
            tf_index: 0,
        }
    }

    /// The table is consistent: the level and the visible index are in range,
    /// every slot from 1 on holds an entry, every entry has the payload that
    /// goes with its kind, and the indices saved for the enclosing levels do
    /// not exceed one another nor the visible index.
    pub open spec fn wf(self) -> bool {
        &&& -1 <= self.level < MAXLEVEL
        &&& self.index.len() == MAXLEVEL
        &&& self.addr.len() == MAXLEVEL
        &&& 0 <= self.t_index < self.entries.len() <= MAXTABLE
        &&& forall|i: int| 1 <= i < self.entries.len() ==> (#[trigger] self.entries[i]) is Some
        &&& forall|i: int| 0 <= i < self.entries.len() ==> slot_ok(#[trigger] self.entries[i])
        &&& forall|l: int| 0 <= l < self.level ==> 0 <= #[trigger] self.index[l] <= self.t_index
        &&& forall|l: int, m: int|
            0 <= l <= m < self.level ==> #[trigger] self.index[l] <= #[trigger] self.index[m]
    }

    /// The entry in slot `i`, if there is one.
    pub open spec fn get(self, i: int) -> Option<EntryView> {
        if 0 <= i < self.entries.len() {
            self.entries[i]
        } else {
            None
        }
    }

    /// Slot `i` holds an entry with an address: a variable, a parameter or a
    /// function.
    pub open spec fn has_addr(self, i: int) -> bool {
        self.get(i) matches Some(e) && !(e.u is Value)
    }

    /// Slot `i` holds a function.
    pub open spec fn is_func(self, i: int) -> bool {
        self.get(i) matches Some(e) && e.u is Func
    }

    /// Slot `i` holds a constant's value.
    pub open spec fn is_value(self, i: int) -> bool {
        self.get(i) matches Some(e) && e.u is Value
    }

    /// The number of parameters recorded for the function in slot `i`.
    pub open spec fn pars_of(self, i: int) -> int
        recommends
            self.is_func(i),
    {
        self.entries[i]->0.u->pars as int
    }

    /// The address recorded in slot `i`.
    pub open spec fn addr_of(self, i: int) -> RelAddr
        recommends
            self.has_addr(i),
    {
        match self.entries[i]->0.u {
            TableEntryU::RelAddr(r) => r,
            TableEntryU::Func { raddr, pars } => raddr,
            TableEntryU::Value(v) => RelAddr { level: 0, addr: 0 },
        }
    }

    /// Entering a block whose first variable gets the offset `first_addr`.
    /// The first block is the main block; every later one saves the visible
    /// index and the next offset of the block it is nested in.  It fails
    /// exactly when the current block is at the deepest level.
    pub open spec fn block_begin(self, first_addr: i32) -> (TableView, Result<(), Fatal>) {
        if self.level == -1 {
            (TableView { local_addr: first_addr as int, t_index: 0, level: 0, ..self }, Ok(()))
        } else if self.level == MAXLEVEL - 1 {
            (self, Err(Fatal::TooManyNestedBlocks))
        } else {
            (
                TableView {
                    index: self.index.update(self.level, self.t_index as i32),
                    addr: self.addr.update(self.level, self.local_addr as i32),
                    local_addr: first_addr as int,
                    level: self.level + 1,
                    ..self
                },
                Ok(()),
            )
        }
    }

    /// Leaving the current block: the enclosing block's visible index and
    /// next offset come back.
    pub open spec fn block_end(self) -> TableView {
        if self.level - 1 >= 0 {
            TableView {
                level: self.level - 1,
                t_index: self.index[self.level - 1] as int,
                local_addr: self.addr[self.level - 1] as int,
                ..self
            }
        } else {
            TableView { level: self.level - 1, ..self }
        }
    }

    /// There is a free slot after the last visible entry.
    pub open spec fn has_room(self) -> bool {
        self.t_index + 1 < MAXTABLE
    }

    /// The table with `e` as its new last visible entry.
    pub open spec fn enter(self, e: EntryView) -> TableView {
        TableView {
            entries: put(self.entries, self.t_index + 1, Some(e)),
            t_index: self.t_index + 1,
            ..self
        }
    }

    /// The table with the payload of slot `i` replaced.
    pub open spec fn with_payload(self, i: int, u: TableEntryU) -> TableView {
        TableView {
            entries: self.entries.update(i, Some(EntryView { u: u, ..self.entries[i]->0 })),
            ..self
        }
    }

    /// Declaring the function `id`, whose code is first taken to start at `v`.
    pub open spec fn enter_func(self, id: Seq<char>, v: i32) -> (TableView, Result<int, Fatal>) {
        if !self.has_room() {
            (self, Err(Fatal::TooManyNames))
        } else {
            let e = EntryView {
                kind: KindT::FuncId,
                name: id,
                u: TableEntryU::Func { raddr: RelAddr { level: self.level as i32, addr: v }, pars: 0 },
            };
            (TableView { tf_index: self.t_index + 1, ..self.enter(e) }, Ok(self.t_index + 1))
        }
    }

    /// Parameters can be declared: the function they belong to is a visible
    /// entry, and its count can grow.
    pub open spec fn par_ready(self) -> bool {
        &&& 0 <= self.tf_index <= self.t_index
        &&& self.is_func(self.tf_index)
        &&& self.pars_of(self.tf_index) < i32::MAX
    }

    /// Declaring the parameter `id` of the current function.  Its offset
    /// stays 0 until the parameter list is closed.
    pub open spec fn enter_par(self, id: Seq<char>) -> (TableView, Result<int, Fatal>) {
        if !self.has_room() {
            (self, Err(Fatal::TooManyNames))
        } else {
            let e = EntryView {
                kind: KindT::ParId,
                name: id,
                u: TableEntryU::RelAddr(RelAddr { level: self.level as i32, addr: 0 }),
            };
            let t = self.enter(e);
            let f = t.entries[self.tf_index]->0.u;
            (
                t.with_payload(
                    self.tf_index,
                    TableEntryU::Func { raddr: f->raddr, pars: (f->pars + 1) as i32 },
                ),
                Ok(self.t_index + 1),
            )
        }
    }

    /// Declaring the variable `id`: it gets the next free offset of the
    /// current block.
    pub open spec fn enter_var(self, id: Seq<char>) -> (TableView, Result<int, Fatal>) {
        if !self.has_room() {
            (self, Err(Fatal::TooManyNames))
        } else {
            let e = EntryView {
                kind: KindT::VarId,
                name: id,
                u: TableEntryU::RelAddr(
                    RelAddr { level: self.level as i32, addr: self.local_addr as i32 },
                ),
            };
            (TableView { local_addr: self.local_addr + 1, ..self.enter(e) }, Ok(self.t_index + 1))
        }
    }

    /// Declaring the constant `id` with value `v`.
    pub open spec fn enter_const(self, id: Seq<char>, v: i32) -> (TableView, Result<int, Fatal>) {
        if !self.has_room() {
            (self, Err(Fatal::TooManyNames))
        } else {
            let e = EntryView { kind: KindT::ConstId, name: id, u: TableEntryU::Value(v) };
            (self.enter(e), Ok(self.t_index + 1))
        }
    }

    /// The parameter list of the current function can be closed: the function
    /// and the slots of its parameters are there.
    pub open spec fn end_par_ready(self) -> bool {
        &&& self.is_func(self.tf_index)
        &&& 0 <= self.pars_of(self.tf_index)
        &&& self.tf_index + self.pars_of(self.tf_index) < self.entries.len()
        &&& forall|j: int|
            self.tf_index < j <= self.tf_index + self.pars_of(self.tf_index) ==> #[trigger] self.has_addr(j)
                && self.entries[j]->0.u is RelAddr
    }

    /// Slot `j` after the parameter list of the function in slot `f`, which
    /// has `p` parameters, was closed: parameter number `j - f` of `p` gets
    /// the offset `(j - f) - 1 - p`.
    pub open spec fn closed_slot(self, f: int, p: int, j: int) -> Option<EntryView> {
        if f < j <= f + p {
            Some(
                EntryView {
                    u: TableEntryU::RelAddr(
                        RelAddr { level: self.addr_of(j).level, addr: (j - f - 1 - p) as i32 },
                    ),
                    ..self.entries[j]->0
                },
            )
        } else {
            self.entries[j]
        }
    }

    /// The table after the first `n` parameters of the function in slot `f`,
    /// which has `p` of them, got their offsets.
    pub open spec fn end_par_upto(self, f: int, p: int, n: int) -> TableView {
        TableView {
            entries: Seq::new(
                self.entries.len(),
                |j: int| if j <= f + n { self.closed_slot(f, p, j) } else { self.entries[j] },
            ),
            ..self
        }
    }

    /// Closing the parameter list of the current function.
    pub open spec fn end_par(self) -> TableView {
        self.end_par_upto(self.tf_index, self.pars_of(self.tf_index), self.pars_of(self.tf_index))
    }

    /// The entry point of the function in slot `ti` can be set: the slot
    /// exists and holds a function or nothing.
    pub open spec fn change_ready(self, ti: int) -> bool {
        &&& 0 <= ti < self.entries.len()
        &&& self.entries[ti] is Some ==> self.entries[ti]->0.u is Func
    }

    /// Setting the entry point of the function in slot `ti`.  An empty slot
    /// gets the entry of the main block.
    pub open spec fn change_v(self, ti: int, new_val: i32) -> TableView {
        match self.entries[ti] {
            Some(e) => self.with_payload(
                ti,
                TableEntryU::Func {
                    raddr: RelAddr { level: e.u->raddr.level, addr: new_val },
                    pars: e.u->pars,
                },
            ),
            None => TableView {
                entries: self.entries.update(
                    ti,
                    Some(
                        EntryView {
                            kind: KindT::FuncId,
                            name: Seq::<char>::empty(),
                            u: TableEntryU::Func {
                                raddr: RelAddr { level: 0, addr: new_val },
                                pars: 0,
                            },
                        },
                    ),
                ),
                ..self
            },
        }
    }

    /// The index of the last entry among slots `1..=i` that is named `id`, or
    /// 0 when there is none.
    pub open spec fn find_from(self, id: Seq<char>, i: int) -> int
        decreases i,
    {
        if i <= 0 {
            0
        } else if self.get(i) matches Some(e) && e.name == id {
            i
        } else {
            self.find_from(id, i - 1)
        }
    }

    /// The index of the innermost visible declaration of `id`, or 0.
    pub open spec fn find(self, id: Seq<char>) -> int {
        self.find_from(id, self.t_index)
    }

    /// Looking `id` up.  A name that is not declared is entered as a variable
    /// when a variable is asked for; otherwise the answer is 0.
    #[verifier::opaque]
    pub open spec fn search(self, id: Seq<char>, k: KindT) -> (TableView, Result<int, Fatal>) {
        if self.find(id) != 0 {
            (self, Ok(self.find(id)))
        } else if k == KindT::VarId {
            self.enter_var(id)
        } else {
            (self, Ok(0))
        }
    }

    /// The number of parameters of the function whose block is the current
    /// one; 0 for the main block.
    pub open spec fn func_pars(self) -> Option<int> {
        if self.level > 0 {
            if self.is_func(self.index[self.level - 1] as int) {
                Some(self.pars_of(self.index[self.level - 1] as int))
            } else {
                None
            }
        } else {
            Some(0)
        }
    }
}

impl NameTable {
    /// An empty table; no block has begun.
    pub fn new() -> (t: NameTable)
        ensures
            t@ == TableView::initial(),
            t@.wf(),
    {
        let mut table: Vec<Option<TableEntry>> = Vec::new();
        table.push(None);
        let t = NameTable {
            table,
            t_index: 0,
            level: -1,
            index: [0, 0, 0, 0, 0],
            addr: [0, 0, 0, 0, 0],
            local_addr: 0,
            tf_index: 0,
        };
        proof {
            assert(t@.entries =~= seq![None]);
            assert(t@.index =~= seq![0i32, 0i32, 0i32, 0i32, 0i32]);
            assert(t@.addr =~= seq![0i32, 0i32, 0i32, 0i32, 0i32]);
        }
        t
    }

    /// Begins a block whose first variable gets the offset `first_addr`.
    pub fn block_begin(&mut self, first_addr: i32) -> (r: Result<(), Fatal>)
        requires
            old(self)@.wf(),
        ensures
            final(self)@ == old(self)@.block_begin(first_addr).0,
            r == old(self)@.block_begin(first_addr).1,
            r is Err <==> old(self)@.level == MAXLEVEL - 1,
            final(self)@.wf(),
    {
        if self.level == -1 {
            self.local_addr = first_addr;
            self.t_index = 0;
            self.level = 0;
            return Ok(());
        }
        if self.level == (MAXLEVEL - 1) as i32 {
            return Err(Fatal::TooManyNestedBlocks);
        }
        let l: usize = self.level as usize;
        self.index[l] = self.t_index;
        self.addr[l] = self.local_addr;
        self.local_addr = first_addr;
        self.level = self.level + 1;
        Ok(())
    }

    /// Ends the current block.
    pub fn block_end(&mut self)
        requires
            old(self)@.wf(),
            old(self)@.level >= 0,
        ensures
            final(self)@ == old(self)@.block_end(),
            final(self)@.wf(),
    {
        self.level = self.level - 1;
        if self.level > -1 {
            let l: usize = self.level as usize;
            self.t_index = self.index[l];
            self.local_addr = self.addr[l];
        }
    }

    /// The level of the current block.
    pub fn block_level(&self) -> (l: i32)
        ensures
            l == self@.level,
    {
        self.level
    }

    /// The number of parameters of the function whose block is the current
    /// one, if the entry saved for it is a function; 0 in the main block.
    pub fn func_pars(&self) -> (r: Option<i32>)
        requires
            self@.wf(),
        ensures
            r is Some <==> self@.func_pars() is Some,
            r is Some ==> r->0 == self@.func_pars()->0,
    {
        if self.level > 0 {
            let i: usize = self.index[(self.level - 1) as usize] as usize;
            match &self.table[i] {
                Some(e) => match e.u {
                    TableEntryU::Func { raddr: _, pars: p } => Some(p),
                    _ => None,
                },
                None => None,
            }
        } else {
            Some(0)
        }
    }

    /// Makes `e` the new last visible entry.
    fn store(&mut self, e: TableEntry)
        requires
            old(self)@.wf(),
            old(self)@.has_room(),
            consistent(e@),
        ensures
            final(self)@ == old(self)@.enter(e@),
            final(self)@.wf(),
    {
        self.t_index = self.t_index + 1;
        let i: usize = self.t_index as usize;
        let ghost ev = e@;
        if i < self.table.len() {
            self.table[i] = Some(e);
        } else {
            self.table.push(Some(e));
        }
        proof {
            assert(self@.entries =~= old(self)@.enter(ev).entries);
        }
    }

    /// Replaces the payload of the entry in slot `i`.
    fn set_payload(&mut self, i: usize, u: TableEntryU)
        requires
            old(self)@.wf(),
            old(self)@.get(i as int) is Some,
            consistent(EntryView { u: u, ..old(self)@.entries[i as int]->0 }),
        ensures
            final(self)@ == old(self)@.with_payload(i as int, u),
            final(self)@.wf(),
    {
        let e = match &self.table[i] {
            Some(e) => TableEntry { kind: e.kind, name: e.name.clone(), u: u },
            None => TableEntry { kind: KindT::VarId, name: String::new(), u: u },
        };
        self.table[i] = Some(e);
        proof {
            assert(self@.entries =~= old(self)@.with_payload(i as int, u).entries);
        }
    }

    /// Enters the function `id`; its entry point is `v` for the time being.
    /// Returns its index, or fails when the table is full.
    pub fn enter_table_func(&mut self, id: String, v: i32) -> (r: Result<i32, Fatal>)
        requires
            old(self)@.wf(),
        ensures
            final(self)@ == old(self)@.enter_func(id@, v).0,
            r is Ok <==> old(self)@.has_room(),
            r is Ok ==> r->Ok_0 == old(self)@.t_index + 1,
            r is Err ==> r->Err_0 == Fatal::TooManyNames,
            final(self)@.wf(),
    {
        if self.t_index + 1 < MAXTABLE as i32 {
            let e = TableEntry {
                kind: KindT::FuncId,
                name: id,
                u: TableEntryU::Func { raddr: RelAddr { level: self.level, addr: v }, pars: 0 },
            };
            self.store(e);
            self.tf_index = self.t_index;
            Ok(self.t_index)
        } else {
            Err(Fatal::TooManyNames)
        }
    }

    /// Enters the parameter `id` of the function entered last and counts it.
    /// Returns its index, or fails when the table is full.
    pub fn enter_table_par(&mut self, id: String) -> (r: Result<i32, Fatal>)
        requires
            old(self)@.wf(),
            old(self)@.par_ready(),
        ensures
            final(self)@ == old(self)@.enter_par(id@).0,
            r is Ok <==> old(self)@.has_room(),
            r is Ok ==> r->Ok_0 == old(self)@.t_index + 1,
            r is Err ==> r->Err_0 == Fatal::TooManyNames,
            final(self)@.wf(),
    {
        if self.t_index + 1 < MAXTABLE as i32 {
            let e = TableEntry {
                kind: KindT::ParId,
                name: id,
                u: TableEntryU::RelAddr(RelAddr { level: self.level, addr: 0 }),
            };
            self.store(e);
            let f: usize = self.tf_index as usize;
            let u = match &self.table[f] {
                Some(e) => e.u,
                None => TableEntryU::Value(0),
            };
            proof {
                assert(self@.entries[f as int] == old(self)@.entries[f as int]);
                assert(self@.entries[f as int] == slot_view(self.table@[f as int]));
            }
            match u {
                TableEntryU::Func { raddr: r, pars: p } => {
                    self.set_payload(f, TableEntryU::Func { raddr: r, pars: p + 1 });
                },
                _ => {},
            }
            Ok(self.t_index)
        } else {
            Err(Fatal::TooManyNames)
        }
    }

    /// Enters the variable `id` at the next free offset of the current
    /// block.  Returns its index, or fails when the table is full.
    pub fn enter_table_var(&mut self, id: String) -> (r: Result<i32, Fatal>)
        requires
            old(self)@.wf(),
            old(self)@.local_addr < i32::MAX,
        ensures
            final(self)@ == old(self)@.enter_var(id@).0,
            r is Ok <==> old(self)@.has_room(),
            r is Ok ==> r->Ok_0 == old(self)@.t_index + 1,
            r is Err ==> r->Err_0 == Fatal::TooManyNames,
            final(self)@.wf(),
    {
        if self.t_index + 1 < MAXTABLE as i32 {
            let e = TableEntry {
                kind: KindT::VarId,
                name: id,
                u: TableEntryU::RelAddr(RelAddr { level: self.level, addr: self.local_addr }),
            };
            self.store(e);
            self.local_addr = self.local_addr + 1;
            Ok(self.t_index)
        } else {
            Err(Fatal::TooManyNames)
        }
    }

    /// Enters the constant `id` with the value `v`.  Returns its index, or
    /// fails when the table is full.
    pub fn enter_table_const(&mut self, id: String, v: i32) -> (r: Result<i32, Fatal>)
        requires
            old(self)@.wf(),
        ensures
            final(self)@ == old(self)@.enter_const(id@, v).0,
            r is Ok <==> old(self)@.has_room(),
            r is Ok ==> r->Ok_0 == old(self)@.t_index + 1,
            r is Err ==> r->Err_0 == Fatal::TooManyNames,
            final(self)@.wf(),
    {
        if self.t_index + 1 < MAXTABLE as i32 {
            let e = TableEntry { kind: KindT::ConstId, name: id, u: TableEntryU::Value(v) };
            self.store(e);
            Ok(self.t_index)
        } else {
            Err(Fatal::TooManyNames)
        }
    }

    /// Closes the parameter list of the function entered last: its `p`
    /// parameters get the offsets `-p, .., -1` in the order of their
    /// declaration.
    pub fn end_par(&mut self)
        requires
            old(self)@.wf(),
            old(self)@.end_par_ready(),
        ensures
            final(self)@ == old(self)@.end_par(),
            final(self)@.wf(),
            forall|i: int|
                1 <= i <= old(self)@.pars_of(old(self)@.tf_index) ==> (#[trigger] final(self)@.get(
                    old(self)@.tf_index + i,
                )) is Some && final(self)@.get(old(self)@.tf_index + i)->0.u == TableEntryU::RelAddr(
                    RelAddr {
                        level: old(self)@.addr_of(old(self)@.tf_index + i).level,
                        addr: (i - 1 - old(self)@.pars_of(old(self)@.tf_index)) as i32,
                    },
                ),
    {
        let f: i32 = self.tf_index;
        let p: i32 = self.pars(f);
        let mut i: i32 = 1;
        proof {
            assert(self@.entries =~= old(self)@.end_par_upto(f as int, p as int, 0).entries);
        }
        while i <= p
            invariant
                1 <= i <= p + 1,
                0 <= f,
                f + p < old(self)@.entries.len(),
                f == old(self)@.tf_index,
                p == old(self)@.pars_of(f as int),
                old(self)@.wf(),
                old(self)@.end_par_ready(),
                self@.wf(),
                self@ == old(self)@.end_par_upto(f as int, p as int, i - 1),
            decreases p + 1 - i,
        {
            let j: i32 = f + i;
            assert(old(self)@.has_addr(j as int));
            let r = self.rel_addr(j);
            self.set_payload(
                j as usize,
                TableEntryU::RelAddr(RelAddr { level: r.level, addr: i - 1 - p }),
            );
            proof {
                assert(self@.entries =~= old(self)@.end_par_upto(f as int, p as int, i as int).entries);
            }
            i = i + 1;
        }
        proof {
            assert forall|i: int| 1 <= i <= p implies (#[trigger] self@.get(f + i)) is Some
                && self@.get(f + i)->0.u == TableEntryU::RelAddr(
                RelAddr { level: old(self)@.addr_of(f + i).level, addr: (i - 1 - p) as i32 },
            ) by {
                assert(self@.entries[f + i] == old(self)@.closed_slot(f as int, p as int, f + i));
            }
        }
    }

    /// Sets the entry point of the function in slot `ti` to `new_val`.  Slot
    /// 0 gets the entry of the main block if it has none yet.
    pub fn change_v(&mut self, ti: i32, new_val: i32)
        requires
            old(self)@.wf(),
            old(self)@.change_ready(ti as int),
        ensures
            final(self)@ == old(self)@.change_v(ti as int, new_val),
            final(self)@.wf(),
    {
        let i: usize = ti as usize;
        let u = match &self.table[i] {
            Some(e) => Some(e.u),
            None => None,
        };
        match u {
            Some(TableEntryU::Func { raddr: r, pars: p }) => {
                self.set_payload(
                    i,
                    TableEntryU::Func { raddr: RelAddr { level: r.level, addr: new_val }, pars: p },
                );
            },
            Some(_) => {},
            None => {
                let e = TableEntry {
                    kind: KindT::FuncId,
                    name: String::new(),
                    u: TableEntryU::Func { raddr: RelAddr { level: 0, addr: new_val }, pars: 0 },
                };
                self.table[i] = Some(e);
                proof {
                    assert(self@.entries =~= old(self)@.change_v(ti as int, new_val).entries);
                }
            },
        }
    }

    /// Looks `id` up among the visible entries, the last declared first.
    /// Returns the index of the entry found.  A name that is not found is
    /// entered as a variable when `k` asks for a variable; otherwise the
    /// result is 0.
    pub fn search_t(&mut self, id: String, k: KindT) -> (r: Result<i32, Fatal>)
        requires
            old(self)@.wf(),
            k == KindT::VarId ==> old(self)@.local_addr < i32::MAX,
        ensures
            final(self)@ == old(self)@.search(id@, k).0,
            r matches Ok(i) ==> old(self)@.search(id@, k).1 == Ok::<int, Fatal>(i as int),
            r matches Err(e) ==> old(self)@.search(id@, k).1 == Err::<int, Fatal>(e),
            r matches Ok(i) ==> 0 <= i <= final(self)@.t_index && (k == KindT::VarId ==> 1 <= i),
            final(self)@.wf(),
    {
        proof {
            reveal(TableView::search);
        }
        let mut i: i32 = self.t_index;
        while i > 0
            invariant
                0 <= i <= self.t_index,
                self@.wf(),
                self@ == old(self)@,
                self@.find(id@) == self@.find_from(id@, i as int),
            decreases i,
        {
            proof {
                reveal(TableView::search);
            }
            let hit = match &self.table[i as usize] {
                Some(e) => e.name == id,
                None => false,
            };
            if hit {
                return Ok(i);
            }
            i = i - 1;
        }
        if k == KindT::VarId {
            self.enter_table_var(id)
        } else {
            Ok(0)
        }
    }

    /// The kind of the entry in slot `i`.
    pub fn kind_t(&self, i: i32) -> (k: KindT)
        requires
            self@.get(i as int) is Some,
        ensures
            k == self@.get(i as int)->0.kind,
    {
        match &self.table[i as usize] {
            Some(e) => e.kind,
            None => KindT::VarId,
        }
    }

    /// The address of the variable, parameter or function in slot `ti`.
    pub fn rel_addr(&self, ti: i32) -> (r: RelAddr)
        requires
            self@.has_addr(ti as int),
        ensures
            r == self@.addr_of(ti as int),
    {
        match &self.table[ti as usize] {
            Some(e) => match e.u {
                TableEntryU::RelAddr(r) => r,
                TableEntryU::Func { raddr: r, pars: _ } => r,
                TableEntryU::Value(_) => RelAddr { level: 0, addr: 0 },
            },
            None => RelAddr { level: 0, addr: 0 },
        }
    }

    /// The value of the constant in slot `ti`.
    pub fn val(&self, ti: i32) -> (v: i32)
        requires
            self@.is_value(ti as int),
        ensures
            self@.get(ti as int)->0.u == TableEntryU::Value(v),
    {
        match &self.table[ti as usize] {
            Some(e) => match e.u {
                TableEntryU::Value(v) => v,
                _ => 0,
            },
            None => 0,
        }
    }

    /// The number of parameters of the function in slot `ti`.
    pub fn pars(&self, ti: i32) -> (p: i32)
        requires
            self@.is_func(ti as int),
        ensures
            p == self@.pars_of(ti as int),
    {
        match &self.table[ti as usize] {
            Some(e) => match e.u {
                TableEntryU::Func { raddr: _, pars: p } => p,
                _ => 0,
            },
            None => 0,
        }
    }

    /// The size of the current block's frame: its next free offset.
    pub fn frame_l(&self) -> (n: i32)
        ensures
            n == self@.local_addr,
    {
        self.local_addr
    }
}

impl TableView {
    /// The table after the parameters `names` were declared one after the
    /// other.
    pub open spec fn enter_pars(self, names: Seq<Seq<char>>) -> TableView
        decreases names.len(),
    {
        if names.len() == 0 {
            self
        } else {
            self.enter_pars(names.drop_last()).enter_par(names.last()).0
        }
    }

    /// The parameter named `name` at `level`, with the offset `addr`.
    pub open spec fn par_entry(name: Seq<char>, level: int, addr: int) -> EntryView {
        EntryView {
            kind: KindT::ParId,
            name: name,
            u: TableEntryU::RelAddr(RelAddr { level: level as i32, addr: addr as i32 }),
        }
    }

    /// The table is inside a block that was begun from `outer`: the visible
    /// index of `outer` is saved, and every entry that was visible in
    /// `outer` is there under its name.
    pub open spec fn inside(self, outer: TableView) -> bool {
        &&& self.level == outer.level + 1
        &&& self.index[outer.level] == outer.t_index
        &&& outer.t_index <= self.t_index
        &&& forall|i: int|
            1 <= i <= outer.t_index ==> (#[trigger] self.get(i)) is Some && self.get(i)->0.name
                == outer.get(i)->0.name
    }
}

/// After a function was declared, a run of parameters after it leaves one
/// entry for each, in the order of the declarations, and the function counts
/// them.
pub proof fn lemma_enter_pars(t: TableView, names: Seq<Seq<char>>)
    requires
        t.wf(),
        1 <= t.tf_index == t.t_index,
        t.is_func(t.tf_index),
        t.pars_of(t.tf_index) == 0,
        t.t_index + names.len() < MAXTABLE,
    ensures
        t.enter_pars(names).wf(),
        t.enter_pars(names).tf_index == t.tf_index,
        t.enter_pars(names).level == t.level,
        t.enter_pars(names).t_index == t.t_index + names.len(),
        t.enter_pars(names).is_func(t.tf_index),
        t.enter_pars(names).pars_of(t.tf_index) == names.len(),
        forall|i: int|
            0 <= i < names.len() ==> #[trigger] t.enter_pars(names).get(t.tf_index + 1 + i) == Some(
                TableView::par_entry(names[i], t.level, 0),
            ),
    decreases names.len(),
{
    if names.len() > 0 {
        let before = names.drop_last();
        lemma_enter_pars(t, before);
        let u = t.enter_pars(before);
        let w = t.enter_pars(names);
        assert(u.has_room());
        assert(w == u.enter_par(names.last()).0);
        assert(slot_ok(u.entries[t.tf_index]));
        assert forall|i: int| 0 <= i < names.len() implies #[trigger] w.get(t.tf_index + 1 + i)
            == Some(TableView::par_entry(names[i], t.level, 0)) by {
            if i < before.len() {
                assert(u.get(t.tf_index + 1 + i) == Some(
                    TableView::par_entry(before[i], t.level, 0),
                ));
            }
        }
        assert forall|i: int| 1 <= i < w.entries.len() implies (#[trigger] w.entries[i]) is Some by {
            if i < u.entries.len() {
                assert(u.entries[i] is Some);
            }
        }
        assert forall|i: int| 0 <= i < w.entries.len() implies slot_ok(#[trigger] w.entries[i]) by {
            if i < u.entries.len() {
                assert(slot_ok(u.entries[i]));
            }
        }
    }
}

/// The offsets of parameters: where a function is declared, then its `k`
/// parameters, and the list is closed, parameter number `i` (from 0) has the
/// offset `i - k`.  So the offsets are `-k, .., -1` in the order of the
/// declarations.
pub proof fn lemma_parameter_offsets(t: TableView, name: Seq<char>, v: i32, names: Seq<Seq<char>>)
    requires
        t.wf(),
        t.t_index + 1 + names.len() < MAXTABLE,
    ensures
        forall|i: int|
            0 <= i < names.len() ==> #[trigger] t.enter_func(name, v).0.enter_pars(names).end_par().get(
                t.t_index + 2 + i,
            ) == Some(TableView::par_entry(names[i], t.level, i - names.len())),
{
    let t1 = t.enter_func(name, v).0;
    let f = t.t_index + 1;
    assert(t1.entries[f] is Some);
    assert(t1.wf()) by {
        assert forall|i: int| 1 <= i < t1.entries.len() implies (#[trigger] t1.entries[i]) is Some by {
            if i < t.entries.len() && i != f {
                assert(t.entries[i] is Some);
            }
        }
        assert forall|i: int| 0 <= i < t1.entries.len() implies slot_ok(#[trigger] t1.entries[i]) by {
            if i < t.entries.len() && i != f {
                assert(slot_ok(t.entries[i]));
            }
        }
    }
    lemma_enter_pars(t1, names);
    let u = t1.enter_pars(names);
    let w = u.end_par();
    assert forall|i: int| 0 <= i < names.len() implies #[trigger] w.get(t.t_index + 2 + i) == Some(
        TableView::par_entry(names[i], t.level, i - names.len()),
    ) by {
        let j = f + 1 + i;
        assert(u.get(f + 1 + i) == Some(TableView::par_entry(names[i], t.level, 0)));
        assert(w.entries[j] == u.closed_slot(f, names.len() as int, j));
    }
}

/// What a look-up finds depends on the names of the visible entries only.
pub proof fn lemma_find_by_names(a: TableView, b: TableView, id: Seq<char>, n: int)
    requires
        forall|i: int|
            1 <= i <= n ==> (#[trigger] a.get(i)) is Some && b.get(i) is Some && a.get(i)->0.name
                == b.get(i)->0.name,
    ensures
        a.find_from(id, n) == b.find_from(id, n),
    decreases n,
{
    if n > 0 {
        assert(a.get(n) is Some);
        lemma_find_by_names(a, b, id, n - 1);
    }
}

/// A look-up finds the innermost declaration: the index it returns is that
/// of a visible entry with the name asked for, and no entry declared later
/// has that name.  It returns 0 exactly when no visible entry has the name.
pub proof fn lemma_find_innermost(t: TableView, id: Seq<char>, n: int)
    requires
        t.wf(),
        0 <= n < t.entries.len(),
    ensures
        0 <= t.find_from(id, n) <= n,
        t.find_from(id, n) > 0 ==> t.get(t.find_from(id, n))->0.name == id,
        forall|j: int| t.find_from(id, n) < j <= n ==> (#[trigger] t.get(j))->0.name != id,
    decreases n,
{
    if n > 0 {
        assert(t.entries[n] is Some);
        lemma_find_innermost(t, id, n - 1);
    }
}

/// Shadowing: the entry declared last is the one that a look-up of its name
/// finds, whatever was declared under that name before.
pub proof fn lemma_declared_last_is_found(t: TableView, e: EntryView)
    requires
        t.wf(),
        t.has_room(),
    ensures
        t.enter(e).find(e.name) == t.t_index + 1,
{
}

/// A declaration under another name leaves a look-up as it was.
pub proof fn lemma_other_name_is_kept(t: TableView, e: EntryView, id: Seq<char>)
    requires
        t.wf(),
        t.has_room(),
        e.name != id,
    ensures
        t.enter(e).find(id) == t.find(id),
{
    let u = t.enter(e);
    assert forall|i: int| 1 <= i <= t.t_index implies (#[trigger] u.get(i)) is Some && t.get(i) is Some
        && u.get(i)->0.name == t.get(i)->0.name by {
        assert(t.entries[i] is Some);
    }
    lemma_find_by_names(u, t, id, t.t_index);
}

/// A block that is begun is inside the block it was begun from.
pub proof fn lemma_begun_is_inside(t: TableView, first_addr: i32)
    requires
        t.wf(),
        0 <= t.level < MAXLEVEL - 1,
    ensures
        t.block_begin(first_addr).0.inside(t),
{
    let u = t.block_begin(first_addr).0;
    assert forall|i: int| 1 <= i <= t.t_index implies (#[trigger] u.get(i)) is Some && u.get(i)->0.name
        == t.get(i)->0.name by {
        assert(t.entries[i] is Some);
    }
}

/// A declaration in a block leaves the table inside the block.
pub proof fn lemma_declared_is_inside(u: TableView, outer: TableView, e: EntryView)
    requires
        u.wf(),
        u.has_room(),
        u.inside(outer),
    ensures
        u.enter(e).inside(outer),
{
    let w = u.enter(e);
    assert forall|i: int| 1 <= i <= outer.t_index implies (#[trigger] w.get(i)) is Some && w.get(i)->0.name
        == outer.get(i)->0.name by {
        assert(u.get(i) is Some);
    }
}

/// The end of a scope: when a block is closed, every look-up finds what it
/// found before the block was begun, whatever was declared inside.
pub proof fn lemma_scope_closes(u: TableView, outer: TableView, id: Seq<char>)
    requires
        outer.wf(),
        outer.level >= 0,
        u.inside(outer),
    ensures
        u.block_end().find(id) == outer.find(id),
{
    let w = u.block_end();
    assert(w.t_index == outer.t_index);
    assert forall|i: int| 1 <= i <= outer.t_index implies (#[trigger] w.get(i)) is Some && outer.get(i) is Some
        && w.get(i)->0.name == outer.get(i)->0.name by {
        assert(u.get(i) is Some);
        assert(outer.entries[i] is Some);
    }
    lemma_find_by_names(w, outer, id, outer.t_index);
}

} // verus!
