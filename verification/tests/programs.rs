use pl0dash::codegen::{Inst, InstU, OpCode, Operator};
use pl0dash::compile::{run_program, Report, Verdict};
use pl0dash::fault::Fatal;
use pl0dash::get_source::{KeyId, Message};
use pl0dash::machine::{Status, Trap};
use pl0dash::table::RelAddr;

fn run(source: &str) -> Report {
    run_program(&String::from(source), false, 1_000_000).unwrap()
}

fn written(report: &Report) -> String {
    String::from_utf8(report.output.clone()).unwrap()
}

fn messages(report: &Report) -> Vec<Message> {
    report.compiler.lex.diags.iter().map(|d| d.message).collect()
}

#[test]
fn constant_is_written() {
    let r = run("const c=7; begin write c; writeln end.");
    assert_eq!(r.verdict, Verdict::Ran(Status::Halted));
    assert_eq!(written(&r), "7\n");
    assert_eq!(r.compiler.lex.error_n(), 0);
}

#[test]
fn while_loop_counts() {
    let r = run("var i; begin i:=0; while i<3 do begin write i; writeln; i:=i+1 end end.");
    assert_eq!(r.verdict, Verdict::Ran(Status::Halted));
    assert_eq!(written(&r), "0\n1\n2\n");
}

#[test]
fn function_adds_its_parameters() {
    let r = run("var x; function f(a,b) begin return a+b end; begin x:=f(20,22); write x; writeln end.");
    assert_eq!(r.verdict, Verdict::Ran(Status::Halted));
    assert_eq!(written(&r), "42\n");
}

#[test]
fn function_code_is_as_expected() {
    let r = run("var x; function f(a,b) begin return a+b end; begin x:=f(20,22); write x; writeln end.");
    let at = |level: i32, addr: i32| InstU::RelAddr(RelAddr { level, addr });
    let expected = vec![
        Inst { op_code: OpCode::Jmp, u: InstU::Value(7) },
        Inst { op_code: OpCode::Jmp, u: InstU::Value(2) },
        Inst { op_code: OpCode::Ict, u: InstU::Value(2) },
        Inst { op_code: OpCode::Lod, u: at(1, -2) },
        Inst { op_code: OpCode::Lod, u: at(1, -1) },
        Inst { op_code: OpCode::Opr, u: InstU::Operator(Operator::Add) },
        Inst { op_code: OpCode::Ret, u: at(1, 2) },
        Inst { op_code: OpCode::Ict, u: InstU::Value(3) },
        Inst { op_code: OpCode::Lit, u: InstU::Value(20) },
        Inst { op_code: OpCode::Lit, u: InstU::Value(22) },
        Inst { op_code: OpCode::Cal, u: at(0, 2) },
        Inst { op_code: OpCode::Sto, u: at(0, 2) },
        Inst { op_code: OpCode::Lod, u: at(0, 2) },
        Inst { op_code: OpCode::Opr, u: InstU::Operator(Operator::Wrt) },
        Inst { op_code: OpCode::Opr, u: InstU::Operator(Operator::Wrl) },
        Inst { op_code: OpCode::Ret, u: at(0, 0) },
    ];
    assert_eq!(r.compiler.gen.code, expected);
}

#[test]
fn recursive_factorial() {
    let r = run("function fact(n) begin if n=0 then return 1; return n*fact(n-1) end; begin write fact(5); writeln end.");
    assert_eq!(r.verdict, Verdict::Ran(Status::Halted));
    assert_eq!(written(&r), "120\n");
}

#[test]
fn declaration_among_statements_is_no_declaration() {
    // `var` begins no statement: it is skipped, and `x ;` is taken for an
    // assignment to the one `x` there is
    let r = run("var x; function g() begin var x; begin x:=1; return x end end; begin x:=9; write g(); writeln; write x; writeln end.");
    assert_eq!(
        messages(&r),
        vec![
            Message::Delete(KeyId::Var),
            Message::DeleteInsert { deleted: KeyId::Semicolon, inserted: KeyId::Assign },
            Message::Insert(KeyId::Semicolon),
        ]
    );
    assert_eq!(r.compiler.lex.error_n(), 2);
    // the store without a value takes the return address off the frame
    assert_eq!(r.verdict, Verdict::Ran(Status::Halted));
    assert_eq!(written(&r), "");
}

#[test]
fn inner_name_shadows_outer_name() {
    let r = run("var x; function g() var x; begin x:=1; return x end; begin x:=9; write g(); writeln; write x; writeln end.");
    assert_eq!(r.verdict, Verdict::Ran(Status::Halted));
    assert_eq!(r.compiler.lex.error_n(), 0);
    assert_eq!(written(&r), "1\n9\n");
}

#[test]
fn name_of_closed_block_is_not_visible() {
    // `y` is declared in `g` only; in the main block it is entered anew, at
    // the main block's level.
    let r = run("function g() var y; begin y:=1; return y end; begin y:=5; write y; write g() end.");
    assert_eq!(messages(&r), vec![Message::Undeclared]);
    assert_eq!(r.verdict, Verdict::Ran(Status::Halted));
    assert_eq!(written(&r), "51");
    let code = &r.compiler.gen.code;
    let stores: Vec<&Inst> = code.iter().filter(|i| i.op_code == OpCode::Sto).collect();
    assert_eq!(stores.len(), 2);
    assert_eq!(stores[0].u, InstU::RelAddr(RelAddr { level: 1, addr: 2 }));
    assert_eq!(stores[1].u, InstU::RelAddr(RelAddr { level: 0, addr: 2 }));
}

#[test]
fn missing_comma_is_inserted() {
    let r = run("var a b; begin a:=1; b:=2; write a+b; writeln end.");
    assert_eq!(messages(&r), vec![Message::Insert(KeyId::Comma)]);
    assert_eq!(r.compiler.lex.error_n(), 1);
    assert_eq!(r.verdict, Verdict::Ran(Status::Halted));
    assert_eq!(written(&r), "3\n");
}

#[test]
fn two_errors_permit_execution() {
    let r = run("var a b c; begin a:=1; write a end.");
    assert_eq!(r.compiler.lex.error_n(), 2);
    assert_eq!(r.verdict, Verdict::Ran(Status::Halted));
    assert_eq!(written(&r), "1");
}

#[test]
fn three_errors_prevent_execution() {
    let r = run("var a b c d; begin a:=1; write a end.");
    assert_eq!(r.compiler.lex.error_n(), 3);
    assert_eq!(r.verdict, Verdict::Refused);
    assert!(r.output.is_empty());
}

#[test]
fn listing_only_does_not_run() {
    let source = String::from("const c=7; begin write c; writeln end.");
    let listed = run_program(&source, true, 1000).unwrap();
    assert_eq!(listed.verdict, Verdict::Listed);
    assert!(listed.output.is_empty());
    let ran = run_program(&source, false, 1000).unwrap();
    assert_eq!(listed.compiler.gen.code, ran.compiler.gen.code);
    assert_eq!(written(&ran), "7\n");
    // running the code that was listed gives what the program writes
    let (out, status) = listed.compiler.execute(1000);
    assert_eq!(status, Status::Halted);
    assert_eq!(out, ran.output);
}

#[test]
fn same_source_gives_same_output() {
    let source = "var i; begin i:=10; while i>0 do begin write i*i; writeln; i:=i-3 end end.";
    let a = run(source);
    let b = run(source);
    assert_eq!(a.output, b.output);
    assert_eq!(a.verdict, b.verdict);
    assert_eq!(written(&a), "100\n49\n16\n1\n");
}

#[test]
fn four_nested_functions_compile() {
    let r = run("function a() function b() function c() function d() return 4; return d(); return c(); return b(); write a().");
    assert_eq!(r.verdict, Verdict::Ran(Status::Halted));
    assert_eq!(r.compiler.lex.error_n(), 0);
    assert_eq!(written(&r), "4");
}

#[test]
fn five_nested_functions_are_fatal() {
    let r = run("function a() function b() function c() function d() function e() return 5; return e(); return d(); return c(); return b(); write a().");
    assert_eq!(r.verdict, Verdict::Stopped(Fatal::TooManyNestedBlocks));
}

#[test]
fn call_with_wrong_number_of_arguments_is_diagnosed() {
    let r = run("function f(a,b) return a+b; write f(1).");
    assert_eq!(messages(&r), vec![Message::UnmatchedPar]);
    let ok = run("function f(a,b) return a+b; write f(1,2).");
    assert!(messages(&ok).is_empty());
    assert_eq!(written(&ok), "3");
    let none = run("function f() return 3; write f().");
    assert!(messages(&none).is_empty());
    assert_eq!(written(&none), "3");
    let many = run("function f() return 3; write f(1,2,3).");
    assert_eq!(messages(&many), vec![Message::UnmatchedPar]);
}

#[test]
fn call_without_parentheses_inserts_both() {
    let r = run("function f() return 3; write f.");
    assert_eq!(
        messages(&r),
        vec![Message::Insert(KeyId::Lparen), Message::Insert(KeyId::Rparen)]
    );
    assert_eq!(written(&r), "3");
}

fn jumps_are_patched(code: &[Inst]) {
    for (i, inst) in code.iter().enumerate() {
        match (inst.op_code, inst.u) {
            (OpCode::Jpc, InstU::Value(v)) => {
                assert!((v as usize) > i && (v as usize) <= code.len());
            }
            (OpCode::Jmp, InstU::Value(v)) => {
                assert!(v >= 0 && (v as usize) <= code.len());
            }
            (OpCode::Jpc, _) | (OpCode::Jmp, _) => panic!("jump without a target"),
            _ => {}
        }
    }
}

#[test]
fn forward_jumps_lead_forward() {
    let r = run("var i; begin i:=0; while i<3 do begin if odd i then write i; i:=i+1 end end.");
    assert_eq!(written(&r), "1");
    let code = &r.compiler.gen.code;
    jumps_are_patched(code);
    let expected_jpc: Vec<(usize, i32)> = code
        .iter()
        .enumerate()
        .filter_map(|(i, inst)| match (inst.op_code, inst.u) {
            (OpCode::Jpc, InstU::Value(v)) => Some((i, v)),
            _ => None,
        })
        .collect();
    // while: Jpc at 7 leads behind the loop; if: Jpc at 10 leads behind the write
    assert_eq!(expected_jpc, vec![(7, 18), (10, 13)]);
    // the loop closes with a jump back to the condition
    assert_eq!(code[17], Inst { op_code: OpCode::Jmp, u: InstU::Value(4) });
}

#[test]
fn leading_jump_leads_to_main_body() {
    let r = run("function f(a) return a+1; function g(a) return f(a)*2; write g(3).");
    assert_eq!(written(&r), "8");
    let code = &r.compiler.gen.code;
    let target = match code[0] {
        Inst { op_code: OpCode::Jmp, u: InstU::Value(v) } => v as usize,
        _ => panic!("the code does not begin with a jump"),
    };
    assert_eq!(code[target].op_code, OpCode::Ict);
    // the main body is what stands from the target to the end: Ict, Lit 3,
    // Cal g, Wrt, Ret
    assert_eq!(code.len(), target + 5);
    assert_eq!(code[code.len() - 1].op_code, OpCode::Ret);
    assert_eq!(r.compiler.gen.table.rel_addr(0).addr as usize, target);
    jumps_are_patched(code);
}

#[test]
fn return_at_end_of_block_emits_one_ret() {
    let r = run("function f() return 1; write f().");
    let rets = r.compiler.gen.code.iter().filter(|i| i.op_code == OpCode::Ret).count();
    // one for f, one for the main block
    assert_eq!(rets, 2);
    assert_eq!(written(&r), "1");
}

#[test]
fn two_returns_in_a_row_emit_one_ret() {
    let r = run("function f() begin return; return end; write 1.");
    let code = &r.compiler.gen.code;
    // Jmp, Jmp, Ict, Ret of f, Ict, Lit, Wrt, Ret of main
    assert_eq!(code.len(), 8);
    assert_eq!(code[3].op_code, OpCode::Ret);
    assert_eq!(code[4].op_code, OpCode::Ict);
}

#[test]
fn unary_minus_negates_first_term_only() {
    let r = run("write -2*3+10.");
    assert_eq!(written(&r), "4");
    let r = run("write -(2+3).");
    assert_eq!(written(&r), "-5");
    let r = run("write +7-10.");
    assert_eq!(written(&r), "-3");
}

#[test]
fn division_rounds_towards_zero() {
    assert_eq!(written(&run("write (0-7)/2.")), "-3");
    assert_eq!(written(&run("write 7/(0-2).")), "-3");
    assert_eq!(written(&run("write (0-7)/(0-2).")), "3");
    assert_eq!(written(&run("write 7/2.")), "3");
}

#[test]
fn division_by_zero_traps() {
    let r = run("begin write 1; write 1/0; write 2 end.");
    assert_eq!(r.verdict, Verdict::Ran(Status::Trapped(Trap::DivisionByZero)));
    assert_eq!(written(&r), "1");
}

#[test]
fn arithmetic_wraps_around() {
    assert_eq!(written(&run("write 2147483647+1.")), "-2147483648");
    assert_eq!(written(&run("write (0-2147483647-1)/(0-1).")), "-2147483648");
    assert_eq!(written(&run("write -(0-2147483647-1).")), "-2147483648");
    assert_eq!(written(&run("write 65536*65536.")), "0");
}

#[test]
fn relations_give_one_or_zero() {
    let r = run("begin if 1<2 then write 1; if 2<1 then write 2; if 1<=1 then write 3; if 1<>1 then write 4; if 2>=3 then write 5; if 3>2 then write 6; if 4=4 then write 7 end.");
    assert_eq!(written(&r), "1367");
}

#[test]
fn odd_tests_the_last_bit() {
    let r = run("begin if odd 3 then write 1; if odd 4 then write 2; if odd 0-5 then write 3 end.");
    assert_eq!(written(&r), "13");
}

#[test]
fn endless_recursion_overflows_the_stack() {
    let r = run("function f(n) return f(n+1); write f(0).");
    assert_eq!(r.verdict, Verdict::Ran(Status::Trapped(Trap::StackOverflow)));
}

#[test]
fn endless_loop_uses_up_the_steps() {
    let r = run_program(&String::from("while 1=1 do write 1."), false, 100).unwrap();
    assert_eq!(r.verdict, Verdict::Ran(Status::Running));
    assert!(!r.output.is_empty());
}

#[test]
fn source_without_period_ends_the_file() {
    let r = run("begin write 1 end");
    assert_eq!(r.verdict, Verdict::Stopped(Fatal::EndOfFile));
    assert_eq!(messages(&r), vec![Message::EndOfFile]);
    let empty = run("");
    assert_eq!(empty.verdict, Verdict::Stopped(Fatal::EndOfFile));
}

#[test]
fn period_inside_begin_ends_the_file() {
    let r = run("begin write 1 . write 2 end.");
    assert_eq!(r.verdict, Verdict::Stopped(Fatal::EndOfFile));
    assert_eq!(messages(&r), vec![Message::EndOfFile]);
}

#[test]
fn too_many_errors_abort() {
    // every `1 1` is one missing operator
    let mut source = String::from("begin ");
    for _ in 0..40 {
        source.push_str("write 1 1; ");
    }
    source.push_str("end.");
    let r = run(&source);
    assert_eq!(r.verdict, Verdict::Stopped(Fatal::TooManyErrors));
    assert_eq!(r.compiler.lex.error_n(), 31);
}

#[test]
fn too_many_names_abort() {
    let mut source = String::from("var v0");
    for i in 1..120 {
        source.push_str(&format!(", v{}", i));
    }
    source.push_str("; write 1.");
    let r = run(&source);
    assert_eq!(r.verdict, Verdict::Stopped(Fatal::TooManyNames));
}

#[test]
fn ninety_nine_names_fit() {
    let mut source = String::from("var v0");
    for i in 1..99 {
        source.push_str(&format!(", v{}", i));
    }
    source.push_str("; begin v98 := 5; write v98 end.");
    let r = run(&source);
    assert_eq!(r.verdict, Verdict::Ran(Status::Halted));
    assert_eq!(written(&r), "5");
}

#[test]
fn too_much_code_aborts() {
    let mut source = String::from("begin ");
    for _ in 0..60 {
        source.push_str("write 1; ");
    }
    source.push_str("end.");
    let r = run(&source);
    assert_eq!(r.verdict, Verdict::Stopped(Fatal::TooManyCode));
    assert_eq!(r.compiler.gen.code.len(), 100);
}

#[test]
fn assignment_to_constant_has_no_address() {
    let r = run("const c=1; begin c:=2 end.");
    assert_eq!(r.verdict, Verdict::Stopped(Fatal::NoAddress));
    assert_eq!(messages(&r), vec![Message::TypeVarPar]);
}

#[test]
fn assignment_to_function_is_a_type_error() {
    let r = run("function f() return 1; begin f:=2 end.");
    assert_eq!(messages(&r), vec![Message::TypeVarPar]);
    assert_eq!(r.compiler.lex.error_n(), 1);
}

#[test]
fn condition_without_relation_cannot_compare() {
    let r = run("begin if 1 then write 1 end.");
    assert_eq!(r.verdict, Verdict::Stopped(Fatal::NoRelation));
    assert_eq!(messages(&r)[0], Message::TypeRelOp);
}

#[test]
fn adjacent_factors_miss_an_operator() {
    let r = run("write 2 3.");
    assert_eq!(messages(&r), vec![Message::MissingOperator(KeyId::Num)]);
    // both factors are compiled, and the second one is written
    assert_eq!(written(&r), "3");
}

#[test]
fn undeclared_name_is_entered_as_variable() {
    let r = run("begin y := 4; write y end.");
    // one error, where the name is met first
    assert_eq!(messages(&r), vec![Message::Undeclared]);
    assert_eq!(r.compiler.lex.error_n(), 1);
    assert_eq!(r.verdict, Verdict::Ran(Status::Halted));
    assert_eq!(written(&r), "4");
    let r = run("write z + 1.");
    assert_eq!(messages(&r), vec![Message::Undeclared]);
    assert_eq!(written(&r), "1");
}

#[test]
fn stray_semicolon_before_body_is_deleted() {
    let r = run("function f(); return 2; write f().");
    assert_eq!(messages(&r), vec![Message::Delete(KeyId::Semicolon)]);
    assert_eq!(r.compiler.lex.error_n(), 0);
    assert_eq!(written(&r), "2");
}

#[test]
fn tokens_between_statements_are_deleted() {
    let r = run("begin write 1 ) ) ; write 2 end.");
    assert_eq!(
        messages(&r),
        vec![Message::Delete(KeyId::Rparen), Message::Delete(KeyId::Rparen)]
    );
    assert_eq!(written(&r), "12");
}

#[test]
fn forgotten_semicolon_is_inserted() {
    let r = run("begin write 1 write 2 end.");
    assert_eq!(messages(&r), vec![Message::Insert(KeyId::Semicolon)]);
    assert_eq!(written(&r), "12");
}

#[test]
fn missing_names_are_diagnosed() {
    let r = run("var ; write 1.");
    assert_eq!(messages(&r), vec![Message::MissingIdentifier]);
    let r = run("function ; write 1.");
    assert_eq!(messages(&r)[0], Message::MissingFunctionName);
    let r = run("const c = x; write 1.");
    assert_eq!(messages(&r)[0], Message::Number);
    assert_eq!(r.compiler.lex.error_n(), 1);
}

#[test]
fn misspelled_keyword_is_replaced() {
    let r = run("begin if 1=1 do write 5 end.");
    assert_eq!(
        messages(&r),
        vec![Message::DeleteInsert { deleted: KeyId::Do, inserted: KeyId::Then }]
    );
    assert_eq!(written(&r), "5");
}

#[test]
fn diagnostics_carry_their_place() {
    let r = run("var a;\nbegin\n  a := 2 3\nend.");
    let d = r.compiler.lex.diags[0];
    assert_eq!(d.message, Message::MissingOperator(KeyId::Num));
    // the tokenizer has read the `3` and gone on to the line behind it
    assert_eq!(d.line, 4);
    assert_eq!(d.column, -1);
    assert_eq!(written(&r), "");
    let r = run("var a;\nbegin\n  a := 2 3 ;\nend.");
    let d = r.compiler.lex.diags[0];
    assert_eq!((d.line, d.column), (3, 10));
}

#[test]
fn carriage_returns_end_lines_too() {
    let r = run("var a;\r\nbegin\r\n  a := 7;\r\n  write a\r\nend.\r\n");
    assert_eq!(r.verdict, Verdict::Ran(Status::Halted));
    assert_eq!(r.compiler.lex.error_n(), 0);
    assert_eq!(written(&r), "7");
    assert_eq!(r.compiler.lex.line, 5);
}

#[test]
fn inner_function_reads_enclosing_frames() {
    let r = run(
        "var g;\n\
         function outer(a)\n\
           var b;\n\
           function inner(c) return a+b+c+g;\n\
         begin b := 10; return inner(100) end;\n\
         begin g := 1000; write outer(1) end.",
    );
    assert_eq!(r.compiler.lex.error_n(), 0);
    assert_eq!(r.verdict, Verdict::Ran(Status::Halted));
    assert_eq!(written(&r), "1111");
}

#[test]
fn arguments_are_passed_in_order() {
    let r = run("function f(a,b,c) return a*100+b*10+c; write f(1,2,3).");
    assert_eq!(written(&r), "123");
    let r = run("function sub(a,b) return a-b; write sub(5,3).");
    assert_eq!(written(&r), "2");
}

#[test]
fn greatest_common_divisor() {
    let r = run(
        "function gcd(a,b)\n\
         begin\n\
           while a <> b do begin\n\
             if a > b then a := a - b;\n\
             if b > a then b := b - a\n\
           end;\n\
           return a\n\
         end;\n\
         begin write gcd(48, 18); writeln; write gcd(17, 5); writeln end.",
    );
    assert_eq!(r.compiler.lex.error_n(), 0);
    assert_eq!(written(&r), "6\n1\n");
}

#[test]
fn fibonacci_by_recursion() {
    let r = run(
        "function fib(n)\n\
         begin\n\
           if n < 2 then return n;\n\
           return fib(n-1) + fib(n-2)\n\
         end;\n\
         var i;\n\
         begin i := 0; while i < 10 do begin write fib(i); writeln; i := i + 1 end end.",
    );
    assert_eq!(r.compiler.lex.error_n(), 0);
    assert_eq!(written(&r), "0\n1\n1\n2\n3\n5\n8\n13\n21\n34\n");
}

#[test]
fn compilation_never_stalls() {
    // what begins no statement and no factor, at every place
    for source in [
        "then then then .",
        "begin ) ( ; ; end .",
        "const ; var ; function ; .",
        "begin x := ; end.",
        "begin if then end.",
        "begin while do end.",
        "function f(,) ; ; .",
        "write ((((.",
        "var , , , ; .",
    ] {
        let r = run(source);
        assert_ne!(r.verdict, Verdict::Stopped(Fatal::Stalled));
    }
}

#[test]
fn steps_are_counted() {
    let source = String::from("begin write 1; write 2 end.");
    // Jmp, Ict, Lit, Wrt, Lit, Wrt, Ret: seven steps
    let r = run_program(&source, false, 6).unwrap();
    assert_eq!(r.verdict, Verdict::Ran(Status::Running));
    assert_eq!(written(&r), "12");
    let r = run_program(&source, false, 7).unwrap();
    assert_eq!(r.verdict, Verdict::Ran(Status::Halted));
    let r = run_program(&source, false, 3).unwrap();
    assert_eq!(written(&r), "");
    let r = run_program(&source, false, 4).unwrap();
    assert_eq!(written(&r), "1");
}
