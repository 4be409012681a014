use vmtranslator::assembler::{parse_instruction, Instruction};
use vmtranslator::command::{ArithmeticOp, Command, Segment};
use vmtranslator::parser::{parse_arithmetic_op, parse_cmd, strip_trailing_comment, superficial, Parser};
use vmtranslator::syntax::Token;
use vmtranslator::writer::CodeWriter;

const HEADER: &str = "@256\nD=A\n@SP\nM=D\n@Sys.init\n0;JMP\n";

fn body(cmds: &[Command]) -> String {
    let mut writer = CodeWriter::new(true);
    for cmd in cmds {
        writer.write(cmd);
    }
    writer.take_output()
}

#[test]
fn two_comparators_get_distinct_labels() {
    let out = body(&[
        Command::Arithmetic(ArithmeticOp::Equal),
        Command::Arithmetic(ArithmeticOp::LessThan),
    ]);
    assert_eq!(out.matches("(_pos_cond_0)").count(), 1);
    assert_eq!(out.matches("(_neg_cond_0)").count(), 1);
    assert_eq!(out.matches("(_pos_cond_1)").count(), 1);
    assert_eq!(out.matches("(_neg_cond_1)").count(), 1);
}

#[test]
fn comparator_counter_counts_arithmetic_commands() {
    let out = body(&[
        Command::Push(Segment::Constant(1)),
        Command::Arithmetic(ArithmeticOp::Add),
        Command::Arithmetic(ArithmeticOp::GreaterThan),
    ]);
    assert!(out.contains("(_pos_cond_1)"));
    assert!(!out.contains("_pos_cond_0"));
}

#[test]
fn comparator_after_push_is_first() {
    let out = body(&[
        Command::Push(Segment::Constant(0)),
        Command::Arithmetic(ArithmeticOp::Equal),
    ]);
    assert!(out.contains("(_pos_cond_0)"));
    assert!(out.contains("(_neg_cond_0)"));
    assert!(!out.contains("_cond_1"));
}

#[test]
fn label_inside_function_is_namespaced() {
    let out = body(&[
        Command::Function("Foo.bar".to_string(), 0),
        Command::Label("loop".to_string()),
    ]);
    assert_eq!(out, "(Foo.bar)\n(Foo.bar$loop)\n");
}

#[test]
fn label_at_top_level_is_bare() {
    let out = body(&[Command::Label("loop".to_string())]);
    assert_eq!(out, "(loop)\n");
}

#[test]
fn goto_and_if_goto_are_namespaced() {
    let out = body(&[
        Command::Function("F".to_string(), 0),
        Command::Goto("a".to_string()),
        Command::IfGoto("b".to_string()),
    ]);
    let expected = [
        "(F)", "@F$a", "0;JMP", "@SP", "A=M", "A=A-1", "D=M", "@SP", "M=M-1", "@F$b", "D;JNE",
    ]
    .join("\n")
        + "\n";
    assert_eq!(out, expected);
}

#[test]
fn call_declares_its_return_label_once() {
    let out = body(&[
        Command::Function("G".to_string(), 0),
        Command::Call("F".to_string(), 2),
    ]);
    let lines: Vec<&str> = out.lines().collect();
    assert_eq!(lines[1], "@G$ret.0");
    assert_eq!(lines[2], "D=A");
    assert_eq!(out.matches("(G$ret.0)").count(), 1);
    assert_eq!(*lines.last().unwrap(), "(G$ret.0)");
    assert!(out.contains("@7\nD=D-A\n@ARG\nM=D\n"));
    assert!(out.contains("@F\n0;JMP\n(G$ret.0)"));
}

#[test]
fn return_labels_count_per_function() {
    let out = body(&[
        Command::Function("G".to_string(), 0),
        Command::Call("F".to_string(), 0),
        Command::Call("F".to_string(), 1),
        Command::Function("H".to_string(), 0),
        Command::Call("F".to_string(), 0),
    ]);
    assert!(out.contains("(G$ret.0)"));
    assert!(out.contains("(G$ret.1)"));
    assert!(out.contains("(H$ret.0)"));
}

#[test]
fn call_at_top_level_uses_callee_name() {
    let out = body(&[Command::Call("Sys.init".to_string(), 0)]);
    assert!(out.contains("(Sys.init$ret.0)"));
    assert!(out.contains("@5\nD=D-A"));
}

#[test]
fn function_zeroes_its_locals() {
    let out = body(&[Command::Function("F".to_string(), 2)]);
    let push_zero = "@0\nD=A\n@SP\nA=M\nM=D\n@SP\nM=M+1\n";
    assert_eq!(out, format!("(F)\n{}{}", push_zero, push_zero));
}

#[test]
fn return_restores_the_frame() {
    let out = body(&[Command::Return]);
    let expected = [
        "@LCL", "D=M", "@R14", "M=D", "@R14", "D=M", "@5", "A=D-A", "D=M", "@R15", "M=D", "@0",
        "D=A", "@ARG", "A=D+M", "D=A", "@R13", "M=D", "@SP", "A=M", "A=A-1", "D=M", "@R13", "A=M",
        "M=D", "@R13", "M=0", "@SP", "M=M-1", "@ARG", "D=M", "@SP", "M=D+1", "@R14", "D=M", "@1",
        "A=D-A", "D=M", "@THAT", "M=D", "@R14", "D=M", "@2", "A=D-A", "D=M", "@THIS", "M=D",
        "@R14", "D=M", "@3", "A=D-A", "D=M", "@ARG", "M=D", "@R14", "D=M", "@4", "A=D-A", "D=M",
        "@LCL", "M=D", "@R15", "A=M", "0;JMP",
    ]
    .join("\n")
        + "\n";
    assert_eq!(out, expected);
}

#[test]
fn bootstrap_on_starts_with_stack_setup() {
    let mut writer = CodeWriter::new(false);
    writer.write(&Command::Push(Segment::Constant(7)));
    let out = writer.take_output();
    assert!(out.starts_with(HEADER));
    assert!(out[HEADER.len()..].starts_with("@7\nD=A\n"));
}

#[test]
fn bootstrap_off_starts_with_first_command() {
    let mut writer = CodeWriter::new(true);
    writer.write(&Command::Push(Segment::Constant(7)));
    assert!(writer.take_output().starts_with("@7\nD=A\n"));
}

#[test]
fn push_push_add_text() {
    let out = body(&[
        Command::Push(Segment::Constant(7)),
        Command::Push(Segment::Constant(8)),
        Command::Arithmetic(ArithmeticOp::Add),
    ]);
    let expected = [
        "@7", "D=A", "@SP", "A=M", "M=D", "@SP", "M=M+1", "@8", "D=A", "@SP", "A=M", "M=D", "@SP",
        "M=M+1", "@SP", "A=M", "A=A-1", "D=M", "@SP", "M=M-1", "@SP", "A=M", "A=A-1", "M=M+D",
    ]
    .join("\n")
        + "\n";
    assert_eq!(out, expected);
}

#[test]
fn push_then_pop_same_cell_text() {
    let out = body(&[
        Command::Push(Segment::Local(2)),
        Command::Pop(Segment::Local(2)),
    ]);
    assert!(out.starts_with("@2\nD=A\n@LCL\nA=D+M\nD=M\n"));
    assert!(out.ends_with("@R13\nM=0\n@SP\nM=M-1\n"));
}

#[test]
fn segments_resolve_to_their_addresses() {
    assert_eq!(body(&[Command::Push(Segment::Static("Foo".to_string(), 3))]).lines().next(), Some("@Foo.3"));
    assert_eq!(body(&[Command::Push(Segment::Constant(-5))]).lines().next(), Some("@-5"));
    assert_eq!(body(&[Command::Push(Segment::Pointer(0))]).lines().next(), Some("@THIS"));
    assert_eq!(body(&[Command::Push(Segment::Pointer(1))]).lines().next(), Some("@THAT"));
    let temp = body(&[Command::Push(Segment::Temp(3))]);
    assert!(temp.starts_with("@3\nD=A\n@R5\nA=D+A\nD=M\n"));
    let that = body(&[Command::Push(Segment::That(32767))]);
    assert!(that.starts_with("@32767\nD=A\n@THAT\nA=D+M\n"));
}

#[test]
fn new_file_resets_function_but_not_comparators() {
    let mut writer = CodeWriter::new(true);
    writer.write(&Command::Function("A.f".to_string(), 0));
    writer.write(&Command::Arithmetic(ArithmeticOp::Equal));
    writer.on_new_file();
    writer.write(&Command::Label("x".to_string()));
    writer.write(&Command::Arithmetic(ArithmeticOp::Equal));
    let out = writer.take_output();
    assert!(out.contains("\n(x)\n"));
    assert!(out.contains("(_pos_cond_0)"));
    assert!(out.contains("(_pos_cond_1)"));
}

#[test]
fn close_appends_end_loop() {
    let mut writer = CodeWriter::new(true);
    writer.close();
    assert_eq!(writer.take_output(), "(VM_TRANSLATOR_END_LOOP)\n@VM_TRANSLATOR_END_LOOP\n0;JMP\n");
    assert_eq!(writer.take_output(), "");
}

struct TestCase {
    input_str: String,
    expected: Command,
}

fn parser_iter(cases: &[TestCase]) {
    for test_case in cases {
        let lines: Vec<String> = test_case.input_str.lines().map(|l| l.to_string()).collect();
        let parser = Parser::new(lines, "test".to_string());
        assert_eq!(&test_case.expected, parser.command().as_ref().unwrap())
    }
}

#[test]
fn parser_test_parse_arithmetic_op() {
    let test_cases = vec![
        TestCase { input_str: "add".to_string(), expected: Command::Arithmetic(ArithmeticOp::Add) },
        TestCase { input_str: "sub".to_string(), expected: Command::Arithmetic(ArithmeticOp::Subtract) },
        TestCase { input_str: "neg".to_string(), expected: Command::Arithmetic(ArithmeticOp::Negate) },
        TestCase { input_str: "eq".to_string(), expected: Command::Arithmetic(ArithmeticOp::Equal) },
        TestCase { input_str: "gt".to_string(), expected: Command::Arithmetic(ArithmeticOp::GreaterThan) },
        TestCase { input_str: "lt".to_string(), expected: Command::Arithmetic(ArithmeticOp::LessThan) },
        TestCase { input_str: "and".to_string(), expected: Command::Arithmetic(ArithmeticOp::And) },
        TestCase { input_str: "or".to_string(), expected: Command::Arithmetic(ArithmeticOp::Or) },
        TestCase { input_str: "not".to_string(), expected: Command::Arithmetic(ArithmeticOp::Not) },
    ];

    parser_iter(&test_cases);
}

#[test]
fn parser_test_push_pop() {
    let test_cases = vec![
        TestCase { input_str: "pop argument 0".to_string(), expected: Command::Pop(Segment::Argument(0)) },
        TestCase { input_str: "push argument 0".to_string(), expected: Command::Push(Segment::Argument(0)) },
        TestCase { input_str: "push local 0".to_string(), expected: Command::Push(Segment::Local(0)) },
        TestCase { input_str: "push constant 0".to_string(), expected: Command::Push(Segment::Constant(0)) },
    ];

    parser_iter(&test_cases);
}

#[test]
fn parser_skips_comments_and_blank_lines() {
    let lines = vec![
        "// header".to_string(),
        String::new(),
        "push constant 7 // seven".to_string(),
        "add".to_string(),
    ];
    let mut parser = Parser::new(lines, "Main".to_string());
    assert!(parser.has_more_lines());
    assert_eq!(parser.command(), &Some(Command::Push(Segment::Constant(7))));
    parser.advance();
    assert_eq!(parser.command(), &Some(Command::Arithmetic(ArithmeticOp::Add)));
    parser.advance();
    assert!(!parser.has_more_lines());
    assert_eq!(parser.command(), &None);
}

#[test]
fn parse_arithmetic_op_defaults_to_eq() {
    assert_eq!(parse_arithmetic_op("xor"), ArithmeticOp::Equal);
}

#[test]
fn parse_other_commands() {
    assert_eq!(parse_cmd("push static 4", "Foo"), Some(Command::Push(Segment::Static("Foo".to_string(), 4))));
    assert_eq!(parse_cmd("label   LOOP", "t"), Some(Command::Label("LOOP".to_string())));
    assert_eq!(parse_cmd("if-goto END", "t"), Some(Command::IfGoto("END".to_string())));
    assert_eq!(parse_cmd("goto END", "t"), Some(Command::Goto("END".to_string())));
    assert_eq!(parse_cmd("call Math.mul 2", "t"), Some(Command::Call("Math.mul".to_string(), 2)));
    assert_eq!(parse_cmd("function Main.main 3", "t"), Some(Command::Function("Main.main".to_string(), 3)));
    assert_eq!(parse_cmd("return", "t"), Some(Command::Return));
    assert_eq!(parse_cmd("push constant -7", "t"), Some(Command::Push(Segment::Constant(-7))));
}

#[test]
fn parse_malformed_commands() {
    assert_eq!(parse_cmd("", "t"), None);
    assert_eq!(parse_cmd("push local", "t"), None);
    assert_eq!(parse_cmd("push local x", "t"), None);
    assert_eq!(parse_cmd("push constant 40000", "t"), None);
    assert_eq!(parse_cmd("call F -1", "t"), None);
    assert_eq!(parse_cmd("label", "t"), None);
}

#[test]
fn comments_are_stripped() {
    assert!(superficial(""));
    assert!(superficial("// note"));
    assert!(!superficial("add // note"));
    assert_eq!(strip_trailing_comment("  add   // note"), "add");
    assert_eq!(strip_trailing_comment("push local 1"), "push local 1");
}

#[test]
fn token_edge_cases() {
    assert_eq!("-5".parse::<Token>(), Ok(Token::IntConst(-5)));
    assert_eq!("32767".parse::<Token>(), Ok(Token::IntConst(32767)));
    assert_eq!("40000".parse::<Token>(), Err("40000".to_string()));
    assert_eq!("\"\"".parse::<Token>(), Ok(Token::StringConst(String::new())));
    assert_eq!("classy".parse::<Token>(), Ok(Token::Identifier("classy".to_string())));
}

#[test]
fn assembler_instruction_forms() {
    assert_eq!(parse_instruction("@123"), Instruction::AConst(123));
    assert_eq!(parse_instruction("@LOOP"), Instruction::AVar("LOOP".to_string()));
    assert_eq!(parse_instruction("(LOOP)"), Instruction::L("LOOP".to_string()));
    assert_eq!(
        parse_instruction("AM=M+1;JGT"),
        Instruction::C {
            dest: Some("AM".to_string()),
            comp: "M+1".to_string(),
            jump: Some("JGT".to_string()),
        }
    );
    assert_eq!(
        parse_instruction("A;B=C"),
        Instruction::C {
            dest: Some("A;B".to_string()),
            comp: "C".to_string(),
            jump: None,
        }
    );
}

#[test]
fn unicode_whitespace_separates_and_trims() {
    assert_eq!(parse_cmd("push\u{3000}local\u{A0}2", "t"), Some(Command::Push(Segment::Local(2))));
    assert_eq!(strip_trailing_comment("\u{2003}add\u{85} // note"), "add");
    let lines = vec!["let\u{2028}x".to_string()];
    let mut tokenizer = vmtranslator::tokenizer::Tokenizer::new(lines);
    assert_eq!(tokenizer.advance(), Some(Token::Keyword(vmtranslator::syntax::KeywordType::Let)));
    assert_eq!(tokenizer.advance(), Some(Token::Identifier("x".to_string())));
}
