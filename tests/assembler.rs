use vmtranslator::assembler::{comp, dest, encode_instruction, jump, parse_instruction, to_binary16, Instruction, Parser};

struct TestCase {
    input: String,
    expected: String,
}

impl TestCase {
    fn new(input: &str, expected: &str) -> TestCase {
        TestCase {
            input: input.to_string(),
            expected: expected.to_string(),
        }
    }
}

fn test_iter(test_cases: Vec<TestCase>, func: Box<dyn Fn(&str) -> String>) {
    for test_case in test_cases {
        let input = test_case.input;
        let expected = test_case.expected;

        let actual = func(&input);

        assert_eq!(
            actual, expected,
            "Expected {} to be translated into {}, but got {}",
            input, expected, actual
        );
    }
}

#[test]
fn test_dest() {
    let test_cases = vec![
        TestCase::new("", "000"),
        TestCase::new("M", "001"),
        TestCase::new("D", "010"),
        TestCase::new("DM", "011"),
        TestCase::new("A", "100"),
        TestCase::new("AM", "101"),
        TestCase::new("AD", "110"),
        TestCase::new("ADM", "111"),
    ];

    test_iter(test_cases, Box::new(dest));
}

#[test]
fn test_comp() {
    let test_cases = vec![
        TestCase::new("0", "101010"),
        TestCase::new("1", "111111"),
        TestCase::new("-1", "111010"),
        TestCase::new("D", "001100"),
        TestCase::new("A", "110000"),
        TestCase::new("M", "110000"),
        TestCase::new("!D", "001101"),
        TestCase::new("!A", "110001"),
        TestCase::new("!M", "110001"),
        TestCase::new("-D", "001111"),
        TestCase::new("-A", "110011"),
        TestCase::new("-M", "110011"),
        TestCase::new("D+1", "011111"),
        TestCase::new("A+1", "110111"),
        TestCase::new("M+1", "110111"),
        TestCase::new("D-1", "001110"),
        TestCase::new("A-1", "110010"),
        TestCase::new("M-1", "110010"),
        TestCase::new("D+A", "000010"),
        TestCase::new("D+M", "000010"),
        TestCase::new("D-A", "010011"),
        TestCase::new("D-M", "010011"),
        TestCase::new("A-D", "000111"),
        TestCase::new("M-D", "000111"),
        TestCase::new("D&A", "000000"),
        TestCase::new("D&M", "000000"),
        TestCase::new("D|A", "010101"),
        TestCase::new("D|M", "010101"),
    ];

    test_iter(test_cases, Box::new(comp));
}

#[test]
fn test_jump() {
    let test_cases = vec![
        TestCase::new("", "000"),
        TestCase::new("JGT", "001"),
        TestCase::new("JEQ", "010"),
        TestCase::new("JGE", "011"),
        TestCase::new("JLT", "100"),
        TestCase::new("JNE", "101"),
        TestCase::new("JLE", "110"),
        TestCase::new("JMP", "111"),
    ];

    test_iter(test_cases, Box::new(jump));
}

#[test]
fn test_c_instruct() {
    let input = "D=M";
    let expected = Instruction::C {
        dest: Some("D".to_string()),
        comp: "M".to_string(),
        jump: None,
    };

    let actual = parse_instruction(input);

    assert_eq!(expected, actual);

    let input = "0;JMP";
    let expected = Instruction::C {
        dest: None,
        comp: "0".to_string(),
        jump: Some("JMP".to_string()),
    };

    let actual = parse_instruction(input);

    assert_eq!(expected, actual);
}

#[test]
fn encodes_machine_words() {
    assert_eq!(encode_instruction(&parse_instruction("D=M"), 0), Some("1111110000010000".to_string()));
    assert_eq!(encode_instruction(&parse_instruction("0;JMP"), 0), Some("1110101010000111".to_string()));
    assert_eq!(encode_instruction(&parse_instruction("AM=D|A;JNE"), 0), Some("1110010101101101".to_string()));
    assert_eq!(encode_instruction(&parse_instruction("@2"), 0), Some("0000000000000010".to_string()));
    assert_eq!(encode_instruction(&parse_instruction("@i"), 16), Some("0000000000010000".to_string()));
    assert_eq!(encode_instruction(&parse_instruction("(LOOP)"), 0), None);
    assert_eq!(to_binary16(-1), "1".repeat(32));
    assert_eq!(to_binary16(65536), "10000000000000000");
}

#[test]
fn parser_counts_instructions_but_not_labels() {
    let lines: Vec<String> = ["// sum", "@2", "", "(LOOP)", "D=M // load", "0;JMP"]
        .iter()
        .map(|l| l.to_string())
        .collect();
    let expected = vec![
        (Instruction::AConst(2), 1),
        (Instruction::L("LOOP".to_string()), 1),
        (Instruction::C { dest: Some("D".to_string()), comp: "M".to_string(), jump: None }, 2),
        (Instruction::C { dest: None, comp: "0".to_string(), jump: Some("JMP".to_string()) }, 3),
    ];
    let mut parser = Parser::new(lines);
    parser.advance();
    for (inst, count) in expected {
        assert!(parser.has_more_lines());
        assert_eq!(parser.get_current_instruction(), &Some(inst));
        assert_eq!(parser.current_line_number(), count);
        parser.advance();
    }
    assert!(!parser.has_more_lines());
    assert_eq!(parser.get_current_instruction(), &None);
}
