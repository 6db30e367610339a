use pl0dash::codegen::{CodeGenerator, Inst, InstU, OpCode, Operator};
use pl0dash::compile::Compiler;
use pl0dash::fault::Fatal;
use pl0dash::get_source::{
    char_class, key_word_of, Diagnostic, KeyId, Lexer, Message, Token, TokenContent,
};
use pl0dash::machine::{Machine, Status, Trap};
use pl0dash::table::{KindT, NameTable, RelAddr, TableEntryU};

fn kinds(source: &str) -> Vec<KeyId> {
    let text = String::from(source);
    let mut lex = Lexer::new(&text);
    let mut out = Vec::new();
    loop {
        match lex.next_token() {
            Ok(t) => {
                out.push(t.kind);
                if t.kind == KeyId::Period {
                    return out;
                }
            }
            Err(_) => return out,
        }
    }
}

#[test]
fn reserved_words_are_recognised() {
    assert_eq!(
        kinds("begin end if then while do return function var const odd write writeln ."),
        vec![
            KeyId::Begin,
            KeyId::End,
            KeyId::If,
            KeyId::Then,
            KeyId::While,
            KeyId::Do,
            KeyId::Ret,
            KeyId::Func,
            KeyId::Var,
            KeyId::Const,
            KeyId::Odd,
            KeyId::Write,
            KeyId::WriteLn,
            KeyId::Period
        ]
    );
}

#[test]
fn symbols_are_recognised() {
    assert_eq!(
        kinds("+ - * / ( ) = < > <> <= >= , ; := : ? ."),
        vec![
            KeyId::Plus,
            KeyId::Minus,
            KeyId::Mult,
            KeyId::Div,
            KeyId::Lparen,
            KeyId::Rparen,
            KeyId::Equal,
            KeyId::Lss,
            KeyId::Gtr,
            KeyId::NotEq,
            KeyId::LssEq,
            KeyId::GtrEq,
            KeyId::Comma,
            KeyId::Semicolon,
            KeyId::Assign,
            KeyId::Nul,
            KeyId::Other,
            KeyId::Period
        ]
    );
}

#[test]
fn symbols_need_no_blanks() {
    assert_eq!(
        kinds("a:=b<=c<>d>=e<f>g."),
        vec![
            KeyId::Id,
            KeyId::Assign,
            KeyId::Id,
            KeyId::LssEq,
            KeyId::Id,
            KeyId::NotEq,
            KeyId::Id,
            KeyId::GtrEq,
            KeyId::Id,
            KeyId::Lss,
            KeyId::Id,
            KeyId::Gtr,
            KeyId::Id,
            KeyId::Period
        ]
    );
}

#[test]
fn names_and_numbers_carry_their_content() {
    let text = String::from("count1 = 1234 Begin.");
    let mut lex = Lexer::new(&text);
    let t = lex.next_token().unwrap();
    assert_eq!(t.kind, KeyId::Id);
    assert!(matches!(&t.u, TokenContent::Id(s) if s == "count1"));
    assert_eq!(lex.next_token().unwrap().kind, KeyId::Equal);
    let t = lex.next_token().unwrap();
    assert_eq!(t.kind, KeyId::Num);
    assert!(matches!(t.u, TokenContent::Value(1234)));
    // reserved words are in lower case
    let t = lex.next_token().unwrap();
    assert_eq!(t.kind, KeyId::Id);
    assert!(matches!(&t.u, TokenContent::Id(s) if s == "Begin"));
    assert_eq!(lex.error_n(), 0);
}

#[test]
fn period_is_handed_out_again_and_again() {
    let text = String::from("x .");
    let mut lex = Lexer::new(&text);
    assert_eq!(lex.next_token().unwrap().kind, KeyId::Id);
    assert_eq!(lex.next_token().unwrap().kind, KeyId::Period);
    assert_eq!(lex.next_token().unwrap().kind, KeyId::Period);
    assert_eq!(lex.error_n(), 0);
}

#[test]
fn name_of_32_characters_is_kept() {
    let name = "a".repeat(32);
    let text = format!("{} .", name);
    let mut lex = Lexer::new(&text);
    let t = lex.next_token().unwrap();
    assert!(matches!(&t.u, TokenContent::Id(s) if *s == name));
    assert_eq!(lex.error_n(), 0);
}

#[test]
fn name_of_33_characters_is_cut_and_diagnosed() {
    let text = format!("{}b .", "a".repeat(32));
    let mut lex = Lexer::new(&text);
    let t = lex.next_token().unwrap();
    assert_eq!(t.kind, KeyId::Id);
    assert!(matches!(&t.u, TokenContent::Id(s) if *s == "a".repeat(32)));
    assert_eq!(lex.error_n(), 1);
    assert_eq!(lex.diags[0].message, Message::TooLong);
    assert_eq!(lex.next_token().unwrap().kind, KeyId::Period);
}

#[test]
fn number_of_14_digits_is_accepted() {
    let text = String::from("00000000000042 .");
    let mut lex = Lexer::new(&text);
    let t = lex.next_token().unwrap();
    assert!(matches!(t.u, TokenContent::Value(42)));
    assert_eq!(lex.error_n(), 0);
}

#[test]
fn number_of_15_digits_is_diagnosed_and_lexing_continues() {
    let text = String::from("000000000000042 + 1 .");
    let mut lex = Lexer::new(&text);
    let t = lex.next_token().unwrap();
    assert_eq!(t.kind, KeyId::Num);
    assert!(matches!(t.u, TokenContent::Value(42)));
    assert_eq!(lex.error_n(), 1);
    assert_eq!(lex.diags[0].message, Message::TooLarge);
    assert_eq!(lex.next_token().unwrap().kind, KeyId::Plus);
    assert_eq!(lex.next_token().unwrap().kind, KeyId::Num);
}

#[test]
fn number_wraps_in_32_bits() {
    let text = String::from("4294967297 .");
    let mut lex = Lexer::new(&text);
    let t = lex.next_token().unwrap();
    assert!(matches!(t.u, TokenContent::Value(1)));
}

#[test]
fn blanks_are_counted() {
    let text = String::from("a \t b\n\n c.");
    let mut lex = Lexer::new(&text);
    lex.next_token().unwrap();
    // the line feed that opens the first line, and the one the tokenizer starts with
    assert_eq!((lex.spaces, lex.cr), (0, 2));
    lex.next_token().unwrap();
    assert_eq!((lex.spaces, lex.cr), (7, 0));
    lex.next_token().unwrap();
    assert_eq!((lex.spaces, lex.cr), (1, 2));
    assert_eq!(lex.line, 3);
}

#[test]
fn end_of_text_is_fatal() {
    let text = String::from("a");
    let mut lex = Lexer::new(&text);
    assert!(matches!(lex.next_token(), Err(Fatal::EndOfFile)));
    assert_eq!(lex.error_n(), 1);
    assert_eq!(lex.diags[0].message, Message::EndOfFile);
}

#[test]
fn character_classes() {
    assert_eq!(char_class('a'), KeyId::Letter);
    assert_eq!(char_class('Z'), KeyId::Letter);
    assert_eq!(char_class('0'), KeyId::Digit);
    assert_eq!(char_class('9'), KeyId::Digit);
    assert_eq!(char_class(':'), KeyId::Colon);
    assert_eq!(char_class('.'), KeyId::Period);
    assert_eq!(char_class('_'), KeyId::Other);
    assert_eq!(char_class('é'), KeyId::Other);
    assert_eq!(key_word_of(&String::from("writeln")), Some(KeyId::WriteLn));
    assert_eq!(key_word_of(&String::from("writel")), None);
}

#[test]
fn kinds_of_keys() {
    assert!(KeyId::Begin.is_key_word());
    assert!(KeyId::WriteLn.is_key_word());
    assert!(!KeyId::EndOfKeyWords.is_key_word());
    assert!(!KeyId::Plus.is_key_word());
    assert!(KeyId::Plus.is_key_symbol());
    assert!(KeyId::Assign.is_key_symbol());
    assert!(!KeyId::EndOfKeySymbol.is_key_symbol());
    assert!(!KeyId::Id.is_key_symbol());
    assert!(!KeyId::EndOfKeyWords.is_key_symbol());
    let t = |kind| Token { kind, u: TokenContent::Nothing };
    assert!(t(KeyId::If).is_st_begin_key());
    assert!(t(KeyId::WriteLn).is_st_begin_key());
    assert!(!t(KeyId::End).is_st_begin_key());
    assert!(!t(KeyId::Id).is_st_begin_key());
}

#[test]
fn checked_step_matches() {
    let text = String::from("; x .");
    let mut lex = Lexer::new(&text);
    let t = lex.next_token().unwrap();
    let next = lex.check_get(t, KeyId::Semicolon).unwrap();
    assert_eq!(next.kind, KeyId::Id);
    assert_eq!(lex.error_n(), 0);
}

#[test]
fn checked_step_substitutes() {
    let text = String::from(", x .");
    let mut lex = Lexer::new(&text);
    let t = lex.next_token().unwrap();
    let next = lex.check_get(t, KeyId::Semicolon).unwrap();
    assert_eq!(next.kind, KeyId::Id);
    assert_eq!(lex.error_n(), 1);
    assert_eq!(
        lex.diags[0].message,
        Message::DeleteInsert { deleted: KeyId::Comma, inserted: KeyId::Semicolon }
    );
}

#[test]
fn checked_step_inserts() {
    let text = String::from("x y .");
    let mut lex = Lexer::new(&text);
    let t = lex.next_token().unwrap();
    let kept = lex.check_get(t, KeyId::Semicolon).unwrap();
    assert!(matches!(&kept.u, TokenContent::Id(s) if s == "x"));
    assert_eq!(lex.error_n(), 1);
    assert_eq!(lex.diags[0].message, Message::Insert(KeyId::Semicolon));
    // a reserved word is not taken for a symbol
    let text = String::from("then .");
    let mut lex = Lexer::new(&text);
    let t = lex.next_token().unwrap();
    let kept = lex.check_get(t, KeyId::Semicolon).unwrap();
    assert_eq!(kept.kind, KeyId::Then);
}

#[test]
fn thirty_errors_are_survived() {
    let text = String::from("x");
    let mut lex = Lexer::new(&text);
    for _ in 0..30 {
        assert_eq!(lex.error(Message::Number), Ok(()));
    }
    assert_eq!(lex.error(Message::Number), Err(Fatal::TooManyErrors));
    assert_eq!(lex.error_n(), 31);
}

#[test]
fn notes_are_not_counted() {
    let text = String::from("x");
    let mut lex = Lexer::new(&text);
    lex.note(Message::Delete(KeyId::Comma));
    assert_eq!(lex.error_n(), 0);
    assert_eq!(lex.diags.len(), 1);
    lex.set_id_kind(KindT::FuncId);
    assert_eq!(lex.id_kind, KindT::FuncId);
}

#[test]
fn table_levels() {
    let mut t = NameTable::new();
    assert_eq!(t.block_level(), -1);
    for level in 0..5 {
        assert_eq!(t.block_begin(2), Ok(()));
        assert_eq!(t.block_level(), level);
    }
    assert_eq!(t.block_begin(2), Err(Fatal::TooManyNestedBlocks));
    assert_eq!(t.block_level(), 4);
}

#[test]
fn variables_get_successive_offsets() {
    let mut t = NameTable::new();
    t.block_begin(2).unwrap();
    assert_eq!(t.frame_l(), 2);
    let a = t.enter_table_var(String::from("a")).unwrap();
    let b = t.enter_table_var(String::from("b")).unwrap();
    assert_eq!((a, b), (1, 2));
    assert_eq!(t.rel_addr(a), RelAddr { level: 0, addr: 2 });
    assert_eq!(t.rel_addr(b), RelAddr { level: 0, addr: 3 });
    assert_eq!(t.kind_t(a), KindT::VarId);
    assert_eq!(t.frame_l(), 4);
    let c = t.enter_table_const(String::from("c"), 42).unwrap();
    assert_eq!(t.kind_t(c), KindT::ConstId);
    assert_eq!(t.val(c), 42);
    assert_eq!(t.frame_l(), 4);
}

#[test]
fn parameters_get_negative_offsets() {
    let mut t = NameTable::new();
    t.block_begin(2).unwrap();
    let f = t.enter_table_func(String::from("f"), 10).unwrap();
    t.block_begin(2).unwrap();
    let a = t.enter_table_par(String::from("a")).unwrap();
    let b = t.enter_table_par(String::from("b")).unwrap();
    let c = t.enter_table_par(String::from("c")).unwrap();
    assert_eq!(t.pars(f), 3);
    assert_eq!(t.rel_addr(a), RelAddr { level: 1, addr: 0 });
    t.end_par();
    assert_eq!(t.rel_addr(a), RelAddr { level: 1, addr: -3 });
    assert_eq!(t.rel_addr(b), RelAddr { level: 1, addr: -2 });
    assert_eq!(t.rel_addr(c), RelAddr { level: 1, addr: -1 });
    assert_eq!(t.kind_t(a), KindT::ParId);
    assert_eq!(t.func_pars(), Some(3));
    assert_eq!(t.rel_addr(f), RelAddr { level: 0, addr: 10 });
    t.change_v(f, 17);
    assert_eq!(t.rel_addr(f), RelAddr { level: 0, addr: 17 });
    assert_eq!(t.pars(f), 3);
    assert_eq!(t.kind_t(f), KindT::FuncId);
}

#[test]
fn function_without_parameters() {
    let mut t = NameTable::new();
    t.block_begin(2).unwrap();
    assert_eq!(t.func_pars(), Some(0));
    let f = t.enter_table_func(String::from("f"), 1).unwrap();
    t.block_begin(2).unwrap();
    t.end_par();
    assert_eq!(t.pars(f), 0);
    assert_eq!(t.func_pars(), Some(0));
}

#[test]
fn enclosing_entry_that_is_no_function_has_no_parameters() {
    let mut t = NameTable::new();
    t.block_begin(2).unwrap();
    t.enter_table_var(String::from("v")).unwrap();
    t.block_begin(2).unwrap();
    assert_eq!(t.func_pars(), None);
}

#[test]
fn search_finds_the_innermost_declaration() {
    let mut t = NameTable::new();
    t.block_begin(2).unwrap();
    let outer = t.enter_table_var(String::from("x")).unwrap();
    let f = t.enter_table_func(String::from("f"), 0).unwrap();
    t.block_begin(2).unwrap();
    assert_eq!(t.search_t(String::from("x"), KindT::VarId), Ok(outer));
    let inner = t.enter_table_const(String::from("x"), 5).unwrap();
    assert_eq!(t.search_t(String::from("x"), KindT::VarId), Ok(inner));
    assert_eq!(t.kind_t(inner), KindT::ConstId);
    t.block_end();
    assert_eq!(t.block_level(), 0);
    assert_eq!(t.search_t(String::from("x"), KindT::VarId), Ok(outer));
    assert_eq!(t.search_t(String::from("f"), KindT::VarId), Ok(f));
    // the entry of the closed block is still there, and the next entry takes its place
    assert_eq!(t.kind_t(inner), KindT::ConstId);
    let y = t.enter_table_var(String::from("y")).unwrap();
    assert_eq!(y, inner);
    assert_eq!(t.kind_t(inner), KindT::VarId);
    assert_eq!(t.rel_addr(y), RelAddr { level: 0, addr: 3 });
}

#[test]
fn search_enters_unknown_variables_only() {
    let mut t = NameTable::new();
    t.block_begin(2).unwrap();
    assert_eq!(t.search_t(String::from("f"), KindT::FuncId), Ok(0));
    assert_eq!(t.search_t(String::from("c"), KindT::ConstId), Ok(0));
    assert_eq!(t.search_t(String::from("v"), KindT::VarId), Ok(1));
    assert_eq!(t.kind_t(1), KindT::VarId);
    assert_eq!(t.search_t(String::from("v"), KindT::VarId), Ok(1));
}

#[test]
fn main_block_entry_is_made_on_demand() {
    let mut t = NameTable::new();
    t.block_begin(2).unwrap();
    assert!(t.table[0].is_none());
    t.change_v(0, 12);
    assert_eq!(t.kind_t(0), KindT::FuncId);
    assert_eq!(t.rel_addr(0), RelAddr { level: 0, addr: 12 });
    assert_eq!(t.pars(0), 0);
    t.change_v(0, 13);
    assert_eq!(t.rel_addr(0), RelAddr { level: 0, addr: 13 });
    assert!(matches!(
        t.table[0].as_ref().unwrap().u,
        TableEntryU::Func { raddr: RelAddr { level: 0, addr: 13 }, pars: 0 }
    ));
}

#[test]
fn table_of_99_names_is_full() {
    let mut t = NameTable::new();
    t.block_begin(2).unwrap();
    for i in 1..=99 {
        assert_eq!(t.enter_table_var(format!("v{}", i)), Ok(i));
    }
    assert_eq!(t.enter_table_var(String::from("w")), Err(Fatal::TooManyNames));
    assert_eq!(t.enter_table_const(String::from("w"), 1), Err(Fatal::TooManyNames));
    assert_eq!(t.enter_table_func(String::from("w"), 1), Err(Fatal::TooManyNames));
    assert_eq!(t.search_t(String::from("w"), KindT::VarId), Err(Fatal::TooManyNames));
}

fn generator() -> CodeGenerator {
    let mut t = NameTable::new();
    t.block_begin(2).unwrap();
    CodeGenerator::new(t)
}

#[test]
fn instructions_are_appended() {
    let mut g = generator();
    assert_eq!(g.next_code(), 0);
    assert_eq!(g.gen_code_v(OpCode::Lit, 5), Ok(0));
    assert_eq!(g.gen_code_o(Operator::Neg), Ok(1));
    let v = g.table.enter_table_var(String::from("v")).unwrap();
    assert_eq!(g.gen_code_t(OpCode::Sto, v), Ok(2));
    assert_eq!(g.next_code(), 3);
    assert_eq!(
        g.code,
        vec![
            Inst { op_code: OpCode::Lit, u: InstU::Value(5) },
            Inst { op_code: OpCode::Opr, u: InstU::Operator(Operator::Neg) },
            Inst { op_code: OpCode::Sto, u: InstU::RelAddr(RelAddr { level: 0, addr: 2 }) },
        ]
    );
}

#[test]
fn ret_is_appended_once() {
    let mut g = generator();
    assert_eq!(g.gen_code_r(), Ok(0));
    assert_eq!(g.gen_code_r(), Ok(0));
    assert_eq!(g.code.len(), 1);
    assert_eq!(
        g.code[0],
        Inst { op_code: OpCode::Ret, u: InstU::RelAddr(RelAddr { level: 0, addr: 0 }) }
    );
    g.gen_code_v(OpCode::Lit, 1).unwrap();
    assert_eq!(g.gen_code_r(), Ok(2));
}

#[test]
fn ret_carries_level_and_parameter_count() {
    let mut g = generator();
    g.table.enter_table_func(String::from("f"), 0).unwrap();
    g.table.block_begin(2).unwrap();
    g.table.enter_table_par(String::from("a")).unwrap();
    g.table.enter_table_par(String::from("b")).unwrap();
    g.table.end_par();
    g.gen_code_r().unwrap();
    assert_eq!(
        g.code[0],
        Inst { op_code: OpCode::Ret, u: InstU::RelAddr(RelAddr { level: 1, addr: 2 }) }
    );
}

#[test]
fn back_patch_keeps_the_operation() {
    let mut g = generator();
    g.gen_code_v(OpCode::Jpc, 0).unwrap();
    g.gen_code_v(OpCode::Lit, 1).unwrap();
    g.gen_code_v(OpCode::Lit, 2).unwrap();
    g.back_patch(0);
    assert_eq!(g.code[0], Inst { op_code: OpCode::Jpc, u: InstU::Value(3) });
    assert_eq!(g.code[1], Inst { op_code: OpCode::Lit, u: InstU::Value(1) });
}

#[test]
fn code_buffer_holds_100_instructions() {
    let mut g = generator();
    for i in 0..100 {
        assert_eq!(g.gen_code_v(OpCode::Lit, i), Ok(i));
    }
    assert_eq!(g.gen_code_v(OpCode::Lit, 0), Err(Fatal::TooManyCode));
    assert_eq!(g.gen_code_o(Operator::Add), Err(Fatal::TooManyCode));
    assert_eq!(g.gen_code_r(), Err(Fatal::TooManyCode));
    assert_eq!(g.code.len(), 100);
}

fn lit(v: i32) -> Inst {
    Inst { op_code: OpCode::Lit, u: InstU::Value(v) }
}

fn opr(p: Operator) -> Inst {
    Inst { op_code: OpCode::Opr, u: InstU::Operator(p) }
}

fn ret0() -> Inst {
    Inst { op_code: OpCode::Ret, u: InstU::RelAddr(RelAddr { level: 0, addr: 0 }) }
}

#[test]
fn machine_steps() {
    let code = vec![
        Inst { op_code: OpCode::Ict, u: InstU::Value(2) },
        lit(6),
        lit(7),
        opr(Operator::Mul),
        opr(Operator::Wrt),
        opr(Operator::Wrl),
        ret0(),
    ];
    let mut m = Machine::new();
    assert_eq!((m.pc, m.top), (0, 0));
    assert_eq!(m.stack.len(), 2000);
    assert_eq!(m.step(&code), Status::Running);
    assert_eq!((m.pc, m.top), (1, 2));
    assert_eq!(m.step(&code), Status::Running);
    assert_eq!(m.step(&code), Status::Running);
    assert_eq!((m.stack[2], m.stack[3], m.top), (6, 7, 4));
    assert_eq!(m.step(&code), Status::Running);
    assert_eq!((m.stack[2], m.top), (42, 3));
    assert_eq!(m.step(&code), Status::Running);
    assert_eq!(m.output, b"42".to_vec());
    assert_eq!(m.step(&code), Status::Running);
    assert_eq!(m.output, b"42\n".to_vec());
    assert_eq!(m.step(&code), Status::Halted);
    assert_eq!(m.pc, 0);
}

#[test]
fn machine_runs_in_turns() {
    let code = vec![
        Inst { op_code: OpCode::Ict, u: InstU::Value(2) },
        lit(1),
        opr(Operator::Wrt),
        lit(2),
        opr(Operator::Wrt),
        ret0(),
    ];
    let mut whole = Machine::new();
    assert_eq!(whole.run(&code, 100), Status::Halted);
    let mut parts = Machine::new();
    assert_eq!(parts.run(&code, 3), Status::Running);
    assert_eq!(parts.output, b"1".to_vec());
    assert_eq!(parts.run(&code, 97), Status::Halted);
    assert_eq!(parts.output, whole.output);
    assert_eq!(whole.output, b"12".to_vec());
    let mut none = Machine::new();
    assert_eq!(none.run(&code, 0), Status::Running);
    assert_eq!(none.pc, 0);
}

#[test]
fn machine_traps() {
    // no code at all
    let mut m = Machine::new();
    assert_eq!(m.step(&vec![]), Status::Trapped(Trap::Fault));
    // an operand of the wrong sort
    let mut m = Machine::new();
    let bad = vec![Inst { op_code: OpCode::Lit, u: InstU::Operator(Operator::Add) }];
    assert_eq!(m.step(&bad), Status::Trapped(Trap::Fault));
    assert_eq!((m.pc, m.top), (0, 0));
    // an operator without operands
    let mut m = Machine::new();
    assert_eq!(m.step(&vec![opr(Operator::Add)]), Status::Trapped(Trap::Fault));
    // a store outside the stack
    let mut m = Machine::new();
    let code = vec![
        lit(1),
        Inst { op_code: OpCode::Sto, u: InstU::RelAddr(RelAddr { level: 0, addr: -1 }) },
    ];
    assert_eq!(m.run(&code, 10), Status::Trapped(Trap::Fault));
    assert_eq!((m.pc, m.top), (1, 1));
    // a frame that leaves no room
    let mut m = Machine::new();
    let code = vec![Inst { op_code: OpCode::Ict, u: InstU::Value(1980) }];
    assert_eq!(m.step(&code), Status::Trapped(Trap::StackOverflow));
    let mut m = Machine::new();
    let code = vec![Inst { op_code: OpCode::Ict, u: InstU::Value(1979) }, lit(0)];
    assert_eq!(m.step(&code), Status::Running);
    assert_eq!(m.top, 1979);
    // division by zero
    let mut m = Machine::new();
    let code = vec![lit(1), lit(0), opr(Operator::Div)];
    assert_eq!(m.run(&code, 10), Status::Trapped(Trap::DivisionByZero));
    assert_eq!(m.top, 2);
}

#[test]
fn machine_jumps() {
    let code = vec![
        Inst { op_code: OpCode::Jmp, u: InstU::Value(2) },
        lit(9),
        lit(0),
        Inst { op_code: OpCode::Jpc, u: InstU::Value(5) },
        lit(8),
        lit(1),
        Inst { op_code: OpCode::Jpc, u: InstU::Value(0) },
        lit(7),
    ];
    let mut m = Machine::new();
    assert_eq!(m.run(&code, 5), Status::Running);
    assert_eq!(m.pc, 7);
    assert_eq!(m.top, 0);
    assert_eq!(m.step(&code), Status::Running);
    assert_eq!(m.stack[0], 7);
    // a jump to 0 ends the program
    let mut m = Machine::new();
    assert_eq!(m.step(&vec![Inst { op_code: OpCode::Jmp, u: InstU::Value(0) }]), Status::Halted);
}

#[test]
fn machine_writes_decimal() {
    let code = vec![
        lit(0),
        opr(Operator::Wrt),
        opr(Operator::Wrl),
        lit(-5),
        opr(Operator::Wrt),
        opr(Operator::Wrl),
        lit(i32::MIN),
        opr(Operator::Wrt),
        opr(Operator::Wrl),
        lit(i32::MAX),
        opr(Operator::Wrt),
        lit(1000),
        opr(Operator::Wrt),
    ];
    let mut m = Machine::new();
    assert_eq!(m.run(&code, 13), Status::Running);
    assert_eq!(m.output, b"0\n-5\n-2147483648\n21474836471000".to_vec());
}

#[test]
fn generator_executes_its_code() {
    let mut g = generator();
    g.gen_code_v(OpCode::Ict, 2).unwrap();
    g.gen_code_v(OpCode::Lit, 3).unwrap();
    g.gen_code_o(Operator::Wrt).unwrap();
    g.gen_code_r().unwrap();
    let (out, status) = g.execute(10);
    assert_eq!(status, Status::Halted);
    assert_eq!(out, b"3".to_vec());
    let (out, status) = g.execute(2);
    assert_eq!(status, Status::Running);
    assert!(out.is_empty());
}

#[test]
fn compiler_by_its_parts() {
    let text = String::from("var a;\nbegin a := 3; write a * a end.");
    let lex = Lexer::new(&text);
    let gen = CodeGenerator::new(NameTable::new());
    let mut c = Compiler::new(lex, gen);
    assert_eq!(c.token.kind, KeyId::Nul);
    assert_eq!(c.compile(), Ok(true));
    assert_eq!(c.gen.table.block_level(), -1);
    assert_eq!(c.lex.line, 2);
    let (out, status) = c.execute(1000);
    assert_eq!(status, Status::Halted);
    assert_eq!(out, b"9".to_vec());
}

#[test]
fn fatal_messages() {
    assert_eq!(Fatal::EndOfFile.message(), "end of file");
    assert_eq!(Fatal::TooManyErrors.message(), "too many errors");
    assert_eq!(Fatal::TooManyNames.message(), "too many names");
    assert_eq!(Fatal::TooManyNestedBlocks.message(), "too many nested blocks");
    assert_eq!(Fatal::TooManyCode.message(), "too many code");
    assert_eq!(Fatal::NoAddress.message(), "assignment to a constant");
    assert_eq!(Fatal::NoRelation.message(), "condition without relation");
    assert_eq!(Fatal::Stalled.message(), "no progress");
}

#[test]
fn messages_have_their_texts() {
    assert_eq!(Message::EndOfFile.describe(), "end of file");
    assert_eq!(Message::TooLong.describe(), "too long");
    assert_eq!(Message::TooLarge.describe(), "too large");
    assert_eq!(Message::Insert(KeyId::Comma).describe(), "insert Comma");
    assert_eq!(
        Message::DeleteInsert { deleted: KeyId::Do, inserted: KeyId::Then }.describe(),
        "delete Do, and insert Then"
    );
    assert_eq!(Message::Delete(KeyId::Rparen).describe(), "delete Rparen");
    assert_eq!(Message::Number.describe(), "number");
    assert_eq!(Message::MissingIdentifier.describe(), "missing Identifier");
    assert_eq!(Message::MissingFunctionName.describe(), "missing identifier");
    assert_eq!(Message::TypeVarPar.describe(), "type error: var/par");
    assert_eq!(Message::TypeRelOp.describe(), "type error: rel-op");
    assert_eq!(Message::UnmatchedPar.describe(), "unmatched par");
    assert_eq!(Message::MissingOperator(KeyId::Num).describe(), "missing operator: Num");
    assert_eq!(Message::Undeclared.describe(), "undeclared");
    assert_eq!(KeyId::WriteLn.name(), "WriteLn");
    assert_eq!(KeyId::EndOfKeySymbol.name(), "EndOfKeySymbol");
}

#[test]
fn errors_are_shown_under_a_caret() {
    let d = Diagnostic { line: 1, column: 9, message: Message::Number };
    assert_eq!(d.caret(), "     ***^");
    assert_eq!(d.render(), vec![String::from("     ***^"), String::from("*** error *** number")]);
    let d = Diagnostic { line: 1, column: 4, message: Message::Number };
    assert_eq!(d.caret(), "***^");
    let d = Diagnostic { line: 1, column: 2, message: Message::Number };
    assert_eq!(d.caret(), "***^");
    let d = Diagnostic { line: 1, column: 0, message: Message::Number };
    assert_eq!(d.caret(), "^");
    let d = Diagnostic { line: 1, column: -1, message: Message::EndOfFile };
    assert_eq!(d.render(), vec![String::from("^"), String::from("*** error *** end of file")]);
    let d = Diagnostic { line: 1, column: 7, message: Message::Delete(KeyId::Var) };
    assert_eq!(d.render(), vec![String::from("delete Var")]);
}

#[test]
fn short_texts_fit() {
    assert!(Lexer::fits(&String::from("")));
    assert!(Lexer::fits(&String::from("begin end.")));
    assert!(Lexer::fits(&"é".repeat(1000)));
}

#[test]
fn trap_messages() {
    assert_eq!(Trap::StackOverflow.message(), "stack overflow");
    assert_eq!(Trap::DivisionByZero.message(), "division by zero");
    assert_eq!(Trap::Fault.message(), "machine fault");
}
