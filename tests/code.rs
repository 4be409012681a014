use vmtranslator::code::{assembly_footer, assembly_header, segment_to_hack};
use vmtranslator::command::{ArithmeticOp, Command, Segment};
use vmtranslator::instruct::instruct_vec_str;
use vmtranslator::writer::CodeWriter;

fn test_iter(cmds: &[Command], expected_body: Option<&str>) {
    let expected = match expected_body {
        Some(body) => format!(
            "{}\n{}\n{}\n",
            instruct_vec_str(&assembly_header()),
            body,
            instruct_vec_str(&assembly_footer())
        ),
        None => format!(
            "{}\n{}\n",
            instruct_vec_str(&assembly_header()),
            instruct_vec_str(&assembly_footer())
        ),
    };

    let mut writer = CodeWriter::new(false);

    for cmd in cmds {
        writer.write(cmd);
    }

    writer.close();

    let actual = writer.take_output();

    assert_eq!(expected, actual);
}

#[test]
fn code_test_end_loop() {
    test_iter(&[], None);
}

#[test]
fn code_test_push_constant() {
    let cmd = [Command::Push(Segment::Constant(0))];
    let expected = ["@0", "D=A", "@SP", "A=M", "M=D", "@SP", "M=M+1"].join("\n");

    test_iter(&cmd, Some(&expected));
}

#[test]
fn code_test_push_local() {
    let cmd = [Command::Push(Segment::Local(0))];
    let expected = [
        "@0", "D=A", "@LCL", "A=D+M", "D=M", "@SP", "A=M", "M=D", "@SP", "M=M+1",
    ]
    .join("\n");

    test_iter(&cmd, Some(&expected));
}

#[test]
fn code_test_pop() {
    let cmd = [Command::Pop(Segment::Local(0))];
    let expected = [
        "@0", "D=A", "@LCL", "A=D+M", "D=A", "@R13", "M=D", "@SP", "A=M", "A=A-1", "D=M", "@R13",
        "A=M", "M=D", "@R13", "M=0", "@SP", "M=M-1",
    ]
    .join("\n");

    test_iter(&cmd, Some(&expected));
}

#[test]
fn code_test_add() {
    let cmd = [Command::Arithmetic(ArithmeticOp::Add)];
    let expected = [
        "@SP", "A=M", "A=A-1", "D=M", "@SP", "M=M-1", "@SP", "A=M", "A=A-1", "M=M+D",
    ]
    .join("\n");

    test_iter(&cmd, Some(&expected));
}

#[test]
fn code_test_sub() {
    let cmd = [Command::Arithmetic(ArithmeticOp::Subtract)];
    let expected = [
        "@SP", "A=M", "A=A-1", "D=M", "@SP", "M=M-1", "@SP", "A=M", "A=A-1", "M=M-D",
    ]
    .join("\n");

    test_iter(&cmd, Some(&expected));
}

#[test]
fn code_test_and() {
    let cmd = [Command::Arithmetic(ArithmeticOp::And)];
    let expected = [
        "@SP", "A=M", "A=A-1", "D=M", "@SP", "M=M-1", "@SP", "A=M", "A=A-1", "M=M&D",
    ]
    .join("\n");

    test_iter(&cmd, Some(&expected));
}

#[test]
fn code_test_or() {
    let cmd = [Command::Arithmetic(ArithmeticOp::Or)];
    let expected = [
        "@SP", "A=M", "A=A-1", "D=M", "@SP", "M=M-1", "@SP", "A=M", "A=A-1", "M=M|D",
    ]
    .join("\n");

    test_iter(&cmd, Some(&expected));
}

#[test]
fn code_test_neg() {
    let cmd = [Command::Arithmetic(ArithmeticOp::Negate)];
    let expected = ["@SP", "A=M", "A=A-1", "M=-M"].join("\n");

    test_iter(&cmd, Some(&expected));
}

#[test]
fn code_test_not() {
    let cmd = [Command::Arithmetic(ArithmeticOp::Not)];
    let expected = ["@SP", "A=M", "A=A-1", "M=!M"].join("\n");

    test_iter(&cmd, Some(&expected));
}

fn comparator_expected(jump: &str) -> String {
    [
        "@SP",
        "A=M",
        "A=A-1",
        "D=M",
        "@SP",
        "M=M-1",
        "@SP",
        "A=M",
        "A=A-1",
        "D=M-D",
        "@_pos_cond_0",
        &format!("D;{}", jump),
        "@_neg_cond_0",
        "D=0",
        "0;JMP",
        "(_pos_cond_0)",
        "D=-1",
        "(_neg_cond_0)",
        "@SP",
        "A=M",
        "A=A-1",
        "M=D",
    ]
    .join("\n")
}

#[test]
fn code_test_eq() {
    let cmd = [Command::Arithmetic(ArithmeticOp::Equal)];
    test_iter(&cmd, Some(&comparator_expected("JEQ")));
}

#[test]
fn code_test_gt() {
    let cmd = [Command::Arithmetic(ArithmeticOp::GreaterThan)];
    test_iter(&cmd, Some(&comparator_expected("JGT")));
}

#[test]
fn code_test_lt() {
    let cmd = [Command::Arithmetic(ArithmeticOp::LessThan)];
    test_iter(&cmd, Some(&comparator_expected("JLT")));
}

#[test]
fn test_this_segment() {
    let input = Segment::This(6);
    let expected = ["@6", "D=A", "@THIS", "A=D+M"].join("\n");

    assert_eq!(expected, instruct_vec_str(&segment_to_hack(&input)));
}

#[test]
fn test_func() {
    let cmds = [Command::Function("Xxx.foo".to_string(), 0)];
    let expected = ["(Xxx.foo)"].join("\n");

    test_iter(&cmds, Some(&expected));
}

#[test]
fn test_func_label() {
    let cmds = [
        Command::Function("Xxx.foo".to_string(), 0),
        Command::Label("bar".to_string()),
    ];
    let expected = ["(Xxx.foo)", "(Xxx.foo$bar)"].join("\n");

    test_iter(&cmds, Some(&expected));
}
