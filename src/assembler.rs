use vstd::prelude::*;
use vstd::string::{StrSliceExecFns, StringExecFns};
use crate::lex::{is_int_literal, literal_value, parse_decimal, str_eq};
use crate::parser::{next_command_line, strip_trailing_comment, superficial, without_comment};

verus! {

/// The three destination bits of a C-instruction, by the registers it names.
pub open spec fn dest_bits(s: Seq<char>) -> Option<Seq<char>> {
    if s == ""@ {
        Some("000"@)
    } else if s == "M"@ {
        Some("001"@)
    } else if s == "D"@ {
        Some("010"@)
    } else if s == "DM"@ {
        Some("011"@)
    } else if s == "A"@ {
        Some("100"@)
    } else if s == "AM"@ {
        Some("101"@)
    } else if s == "AD"@ {
        Some("110"@)
    } else if s == "ADM"@ {
        Some("111"@)
    } else {
        None
    }
}

/// The bits of the dest field spelled `field`.
pub fn dest(field: &str) -> (r: String)
    requires
        dest_bits(field@) is Some,
    ensures
        r@ == dest_bits(field@)->0,
{
    if str_eq(field, "") {
        String::from_str("000")
    } else if str_eq(field, "M") {
        String::from_str("001")
    } else if str_eq(field, "D") {
        String::from_str("010")
    } else if str_eq(field, "DM") {
        String::from_str("011")
    } else if str_eq(field, "A") {
        String::from_str("100")
    } else if str_eq(field, "AM") {
        String::from_str("101")
    } else if str_eq(field, "AD") {
        String::from_str("110")
    } else if str_eq(field, "ADM") {
        String::from_str("111")
    } else {
        String::new()
    }
}

/// The six computation bits of a C-instruction; `A` and `M` share their bits.
pub open spec fn comp_bits(s: Seq<char>) -> Option<Seq<char>> {
    if s == "0"@ {
        Some("101010"@)
    } else if s == "1"@ {
        Some("111111"@)
    } else if s == "-1"@ {
        Some("111010"@)
    } else if s == "D"@ {
        Some("001100"@)
    } else if s == "A"@ {
        Some("110000"@)
    } else if s == "M"@ {
        Some("110000"@)
    } else if s == "!D"@ {
        Some("001101"@)
    } else if s == "!A"@ {
        Some("110001"@)
    } else if s == "!M"@ {
        Some("110001"@)
    } else if s == "-D"@ {
        Some("001111"@)
    } else if s == "-A"@ {
        Some("110011"@)
    } else if s == "-M"@ {
        Some("110011"@)
    } else if s == "D+1"@ {
        Some("011111"@)
    } else if s == "A+1"@ {
        Some("110111"@)
    } else if s == "M+1"@ {
        Some("110111"@)
    } else if s == "D-1"@ {
        Some("001110"@)
    } else if s == "A-1"@ {
        Some("110010"@)
    } else if s == "M-1"@ {
        Some("110010"@)
    } else if s == "D+A"@ {
        Some("000010"@)
    } else if s == "D+M"@ {
        Some("000010"@)
    } else if s == "D-A"@ {
        Some("010011"@)
    } else if s == "D-M"@ {
        Some("010011"@)
    } else if s == "A-D"@ {
        Some("000111"@)
    } else if s == "M-D"@ {
        Some("000111"@)
    } else if s == "D&A"@ {
        Some("000000"@)
    } else if s == "D&M"@ {
        Some("000000"@)
    } else if s == "D|A"@ {
        Some("010101"@)
    } else if s == "D|M"@ {
        Some("010101"@)
    } else {
        None
    }
}

/// The bits of the comp field spelled `field`.
pub fn comp(field: &str) -> (r: String)
    requires
        comp_bits(field@) is Some,
    ensures
        r@ == comp_bits(field@)->0,
{
    if str_eq(field, "0") {
        String::from_str("101010")
    } else if str_eq(field, "1") {
        String::from_str("111111")
    } else if str_eq(field, "-1") {
        String::from_str("111010")
    } else if str_eq(field, "D") {
        String::from_str("001100")
    } else if str_eq(field, "A") {
        String::from_str("110000")
    } else if str_eq(field, "M") {
        String::from_str("110000")
    } else if str_eq(field, "!D") {
        String::from_str("001101")
    } else if str_eq(field, "!A") {
        String::from_str("110001")
    } else if str_eq(field, "!M") {
        String::from_str("110001")
    } else if str_eq(field, "-D") {
        String::from_str("001111")
    } else if str_eq(field, "-A") {
        String::from_str("110011")
    } else if str_eq(field, "-M") {
        String::from_str("110011")
    } else if str_eq(field, "D+1") {
        String::from_str("011111")
    } else if str_eq(field, "A+1") {
        String::from_str("110111")
    } else if str_eq(field, "M+1") {
        String::from_str("110111")
    } else if str_eq(field, "D-1") {
        String::from_str("001110")
    } else if str_eq(field, "A-1") {
        String::from_str("110010")
    } else if str_eq(field, "M-1") {
        String::from_str("110010")
    } else if str_eq(field, "D+A") {
        String::from_str("000010")
    } else if str_eq(field, "D+M") {
        String::from_str("000010")
    } else if str_eq(field, "D-A") {
        String::from_str("010011")
    } else if str_eq(field, "D-M") {
        String::from_str("010011")
    } else if str_eq(field, "A-D") {
        String::from_str("000111")
    } else if str_eq(field, "M-D") {
        String::from_str("000111")
    } else if str_eq(field, "D&A") {
        String::from_str("000000")
    } else if str_eq(field, "D&M") {
        String::from_str("000000")
    } else if str_eq(field, "D|A") {
        String::from_str("010101")
    } else if str_eq(field, "D|M") {
        String::from_str("010101")
    } else {
        String::new()
    }
}

/// The three jump bits of a C-instruction.
pub open spec fn jump_bits(s: Seq<char>) -> Option<Seq<char>> {
    if s == ""@ {
        Some("000"@)
    } else if s == "JGT"@ {
        Some("001"@)
    } else if s == "JEQ"@ {
        Some("010"@)
    } else if s == "JGE"@ {
        Some("011"@)
    } else if s == "JLT"@ {
        Some("100"@)
    } else if s == "JNE"@ {
        Some("101"@)
    } else if s == "JLE"@ {
        Some("110"@)
    } else if s == "JMP"@ {
        Some("111"@)
    } else {
        None
    }
}

/// The bits of the jump field spelled `field`.
pub fn jump(field: &str) -> (r: String)
    requires
        jump_bits(field@) is Some,
    ensures
        r@ == jump_bits(field@)->0,
{
    if str_eq(field, "") {
        String::from_str("000")
    } else if str_eq(field, "JGT") {
        String::from_str("001")
    } else if str_eq(field, "JEQ") {
        String::from_str("010")
    } else if str_eq(field, "JGE") {
        String::from_str("011")
    } else if str_eq(field, "JLT") {
        String::from_str("100")
    } else if str_eq(field, "JNE") {
        String::from_str("101")
    } else if str_eq(field, "JLE") {
        String::from_str("110")
    } else if str_eq(field, "JMP") {
        String::from_str("111")
    } else {
        String::new()
    }
}

/// One line of symbolic Hack assembly, as the assembler reads it.
#[derive(Debug, PartialEq)]
pub enum Instruction {
    AConst(i32),
    AVar(String),
    C { dest: Option<String>, comp: String, jump: Option<String> },
    L(String),
}

pub open spec fn opt_text(o: Option<String>) -> Option<Seq<char>> {
    match o {
        Some(s) => Some(s@),
        None => None,
    }
}

pub open spec fn fits_i32(v: int) -> bool {
    i32::MIN <= v <= i32::MAX
}

/// `dest=comp;jump` split as a greedy pattern splits it: `dest` runs to the last `=`,
/// `comp` from there to the first `;`, `jump` after that `;`.
pub open spec fn c_fields(s: Seq<char>, dest: Option<Seq<char>>, comp: Seq<char>, jump: Option<Seq<char>>) -> bool {
    let start = match dest {
        Some(d) => d.len() + 1,
        None => 0,
    };
    let rest = s.subrange(start as int, s.len() as int);
    &&& match dest {
        Some(d) => d.len() < s.len() && s[d.len() as int] == '=' && d == s.subrange(0, d.len() as int)
            && forall|j: int| d.len() < j < s.len() ==> #[trigger] s[j] != '=',
        None => forall|j: int| 0 <= j < s.len() ==> #[trigger] s[j] != '=',
    }
    &&& comp.len() <= rest.len()
    &&& comp == rest.subrange(0, comp.len() as int)
    &&& forall|j: int| 0 <= j < comp.len() ==> #[trigger] rest[j] != ';'
    &&& match jump {
        Some(jp) => comp.len() < rest.len() && rest[comp.len() as int] == ';'
            && jp == rest.subrange(comp.len() as int + 1, rest.len() as int),
        None => comp.len() == rest.len(),
    }
}

/// Splits a C-instruction into its fields.
pub fn parse_c_instruction(raw_str: &str) -> (r: Instruction)
    ensures
        r matches Instruction::C { dest, comp, jump } && c_fields(raw_str@, opt_text(dest), comp@, opt_text(jump)),
{
    let n = raw_str.unicode_len();
    let mut e: usize = n;
    // the last `=`, or n where there is none
    while e > 0
        invariant
            e <= n,
            n == raw_str@.len(),
            forall|j: int| e <= j < n ==> #[trigger] raw_str@[j] != '=',
        ensures
            e == 0 || raw_str@[e - 1] == '=',
            forall|j: int| e <= j < n ==> #[trigger] raw_str@[j] != '=',
        decreases e,
    {
        if raw_str.get_char(e - 1) == '=' {
            break;
        }
        e = e - 1;
    }
    let ghost s = raw_str@;
    let (dest, start) = if e > 0 {
        (Some(String::from_str(raw_str.substring_char(0, e - 1))), e)
    } else {
        (None, 0)
    };
    let mut k: usize = start;
    while k < n
        invariant
            start <= k <= n,
            n == raw_str@.len(),
            forall|j: int| start <= j < k ==> #[trigger] raw_str@[j] != ';',
        ensures
            start <= k <= n,
            k == n || raw_str@[k as int] == ';',
            forall|j: int| start <= j < k ==> #[trigger] raw_str@[j] != ';',
        decreases n - k,
    {
        if raw_str.get_char(k) == ';' {
            break;
        }
        k = k + 1;
    }
    let comp = String::from_str(raw_str.substring_char(start, k));
    let jump = if k < n {
        Some(String::from_str(raw_str.substring_char(k + 1, n)))
    } else {
        None
    };
    let ghost rest = s.subrange(start as int, n as int);
    assert(dest matches Some(d) ==> d@ =~= s.subrange(0, d@.len() as int));
    assert(forall|j: int| 0 <= j < comp@.len() ==> rest[j] == s[start + j]);
    assert(comp@ =~= rest.subrange(0, comp@.len() as int));
    assert(jump matches Some(jp) ==> jp@ =~= rest.subrange(comp@.len() as int + 1, rest.len() as int));
    Instruction::C { dest, comp, jump }
}

/// What one clean, non-empty line of assembly says.
pub open spec fn parsed_as(s: Seq<char>, r: Instruction) -> bool {
    let rest = s.drop_first();
    match r {
        Instruction::AConst(v) => s[0] == '@' && is_int_literal(rest) && fits_i32(literal_value(rest))
            && v == literal_value(rest),
        Instruction::AVar(x) => s[0] == '@' && !(is_int_literal(rest) && fits_i32(literal_value(rest)))
            && x@ == rest,
        Instruction::L(x) => s[0] == '(' && x@ == s.subrange(1, s.len() - 1),
        Instruction::C { dest, comp, jump } => s[0] != '@' && s[0] != '(' && c_fields(
            s,
            opt_text(dest),
            comp@,
            opt_text(jump),
        ),
    }
}

/// Reads one line of assembly: `@value`, `@symbol`, `(label)` or a C-instruction.
pub fn parse_instruction(line: &str) -> (r: Instruction)
    requires
        line@.len() >= 1,
        line@[0] == '(' ==> line@.len() >= 2,
    ensures
        parsed_as(line@, r),
{
    let n = line.unicode_len();
    let first = line.get_char(0);
    if first == '@' {
        let symbol = line.substring_char(1, n);
        assert(symbol@ =~= line@.drop_first());
        match parse_decimal(symbol) {
            Some(v) => {
                if -2147483648 <= v && v <= 2147483647 {
                    return Instruction::AConst(v as i32);
                }
            },
            None => {},
        }
        Instruction::AVar(String::from_str(symbol))
    } else if first == '(' {
        Instruction::L(String::from_str(line.substring_char(1, n - 1)))
    } else {
        parse_c_instruction(line)
    }
}

// ---------------------------------------------------------------------------
// Machine words.
// ---------------------------------------------------------------------------

pub open spec fn bit_char(b: nat) -> char {
    if b == 0 {
        '0'
    } else {
        '1'
    }
}

/// Binary digits of `n`, most significant first, without leading zeros.
pub open spec fn bin_text(n: nat) -> Seq<char>
    decreases n,
{
    if n < 2 {
        seq![bit_char(n)]
    } else {
        bin_text(n / 2) + seq![bit_char(n % 2)]
    }
}

/// A value written as `{:016b}` writes it: the binary digits of its 32-bit two's complement
/// pattern, padded with zeros to 16.
pub open spec fn binary16(v: int) -> Seq<char> {
    let n = if v < 0 {
        v + 0x1_0000_0000
    } else {
        v
    };
    let b = bin_text(n as nat);
    if b.len() < 16 {
        Seq::new((16 - b.len()) as nat, |i: int| '0') + b
    } else {
        b
    }
}

fn append_bin(out: &mut String, n: u64)
    ensures
        final(out)@ == old(out)@ + bin_text(n as nat),
    decreases n,
{
    if n >= 2 {
        append_bin(out, n / 2);
    }
    if n % 2 == 0 {
        out.append("0");
    } else {
        out.append("1");
    }
    proof {
        reveal_strlit("0");
        reveal_strlit("1");
    }
    assert(final(out)@ =~= old(out)@ + bin_text(n as nat));
}

/// The 16-bit binary word of a value.
pub fn to_binary16(num: i32) -> (r: String)
    ensures
        r@ == binary16(num as int),
{
    let n: u64 = if num < 0 {
        (num as i64 + 0x1_0000_0000) as u64
    } else {
        num as u64
    };
    let mut digits = String::new();
    append_bin(&mut digits, n);
    let len = digits.as_str().unicode_len();
    let mut r = String::new();
    let mut i: usize = len;
    proof {
        reveal_strlit("0");
    }
    while i < 16
        invariant
            len <= i <= 16 || (len > 16 && i == len),
            r@ == Seq::new((i - len) as nat, |k: int| '0'),
        decreases 16 - i,
    {
        r.append("0");
        proof {
            reveal_strlit("0");
        }
        assert(r@ =~= Seq::new((i + 1 - len) as nat, |k: int| '0'));
        i = i + 1;
    }
    let ghost zeros = r@;
    r.append(digits.as_str());
    assert(len >= 16 ==> zeros =~= Seq::<char>::empty());
    assert(r@ =~= binary16(num as int));
    r
}

/// The `a` bit of a computation: 1 where it reads memory through `M`.
pub open spec fn a_bit(comp: Seq<char>) -> Seq<char> {
    if comp.contains('M') {
        "1"@
    } else {
        "0"@
    }
}

pub open spec fn opt_field(f: Option<Seq<char>>) -> Seq<char> {
    match f {
        Some(s) => s,
        None => Seq::empty(),
    }
}

/// The fields of a C-instruction all have codes.
pub open spec fn c_encodable(dest: Option<Seq<char>>, comp: Seq<char>, jump: Option<Seq<char>>) -> bool {
    dest_bits(opt_field(dest)) is Some && comp_bits(comp) is Some && jump_bits(opt_field(jump)) is Some
}

/// The machine word of a C-instruction: `111`, the `a` bit, then the comp, dest and jump bits.
pub open spec fn c_word(dest: Option<Seq<char>>, comp: Seq<char>, jump: Option<Seq<char>>) -> Seq<char> {
    "111"@ + a_bit(comp) + comp_bits(comp)->0 + dest_bits(opt_field(dest))->0 + jump_bits(opt_field(jump))->0
}

fn reads_memory(comp: &str) -> (r: bool)
    ensures
        r == comp@.contains('M'),
{
    let n = comp.unicode_len();
    let mut i: usize = 0;
    while i < n
        invariant
            n == comp@.len(),
            i <= n,
            forall|j: int| 0 <= j < i ==> comp@[j] != 'M',
        decreases n - i,
    {
        if comp.get_char(i) == 'M' {
            assert(comp@[i as int] == 'M');
            return true;
        }
        i = i + 1;
    }
    false
}

fn field_text(f: &Option<String>) -> (r: &str)
    ensures
        r@ == opt_field(opt_text(*f)),
{
    match f {
        Some(s) => s.as_str(),
        None => {
            proof {
                reveal_strlit("");
            }
            ""
        },
    }
}

/// The machine word of a C-instruction.
pub fn encode_c(dest_field: &Option<String>, comp_field: &str, jump_field: &Option<String>) -> (r: String)
    requires
        c_encodable(opt_text(*dest_field), comp_field@, opt_text(*jump_field)),
    ensures
        r@ == c_word(opt_text(*dest_field), comp_field@, opt_text(*jump_field)),
{
    let mut r = String::from_str("111");
    if reads_memory(comp_field) {
        r.append("1");
    } else {
        r.append("0");
    }
    let c = comp(comp_field);
    r.append(c.as_str());
    let d = dest(field_text(dest_field));
    r.append(d.as_str());
    let j = jump(field_text(jump_field));
    r.append(j.as_str());
    assert(r@ =~= c_word(opt_text(*dest_field), comp_field@, opt_text(*jump_field)));
    r
}

/// Whether an instruction can be encoded: a C-instruction's fields all have codes.
pub open spec fn encodable(inst: Instruction) -> bool {
    match inst {
        Instruction::C { dest, comp, jump } => c_encodable(opt_text(dest), comp@, opt_text(jump)),
        _ => true,
    }
}

/// The machine word of an instruction; `address` is where a variable's symbol resolved to.
/// A label declaration has no word.
pub fn encode_instruction(inst: &Instruction, address: i32) -> (r: Option<String>)
    requires
        encodable(*inst),
    ensures
        match *inst {
            Instruction::AConst(n) => r matches Some(w) && w@ == binary16(n as int),
            Instruction::AVar(_) => r matches Some(w) && w@ == binary16(address as int),
            Instruction::L(_) => r is None,
            Instruction::C { dest, comp, jump } => r matches Some(w) && w@ == c_word(
                opt_text(dest),
                comp@,
                opt_text(jump),
            ),
        },
{
    match inst {
        Instruction::C { dest, comp, jump } => Some(encode_c(dest, comp.as_str(), jump)),
        Instruction::AConst(num) => Some(to_binary16(*num)),
        Instruction::AVar(_) => Some(to_binary16(address)),
        Instruction::L(_) => None,
    }
}

/// Whether a clean line can be read as an instruction.
pub open spec fn readable(s: Seq<char>) -> bool {
    s.len() >= 1 && (s[0] == '(' ==> s.len() >= 2)
}

/// What a source line reads as, if anything: a clean line that is readable and parses as `r`.
pub open spec fn line_reads_as(line: Seq<char>, r: Option<Instruction>) -> bool {
    let clean = without_comment(line);
    match r {
        Some(i) => readable(clean) && parsed_as(clean, i),
        None => !readable(clean),
    }
}

/// Reads the instructions of an assembly file, line by line, counting the instructions that
/// take a word of memory.
pub struct Parser {
    lines: Vec<String>,
    next_line: usize,
    curr_line_idx: usize,
    curr_inst: Option<Instruction>,
    has_more_lines: bool,
}

impl Parser {
    pub closed spec fn lines(&self) -> Seq<Seq<char>> {
        self.lines@.map_values(|s: String| s@)
    }

    /// The next line to read.
    pub closed spec fn position(&self) -> nat {
        self.next_line as nat
    }

    /// How many instructions other than label declarations have been read.
    pub closed spec fn count(&self) -> nat {
        self.curr_line_idx as nat
    }

    pub closed spec fn more(&self) -> bool {
        self.has_more_lines
    }

    pub closed spec fn current(&self) -> Option<Instruction> {
        self.curr_inst
    }

    pub closed spec fn wf(&self) -> bool {
        self.next_line <= self.lines@.len()
    }

    /// A parser over `lines`, before its first line; `advance` reads the first instruction.
    pub fn new(lines: Vec<String>) -> (r: Parser)
        ensures
            r.wf(),
            r.lines() == lines@.map_values(|s: String| s@),
            r.position() == 0,
            r.count() == 0,
            r.more(),
            r.current() is None,
    {
        Parser { lines, next_line: 0, curr_line_idx: 0, curr_inst: None, has_more_lines: true }
    }

    pub fn has_more_lines(&self) -> (r: bool)
        ensures
            r == self.more(),
    {
        self.has_more_lines
    }

    /// Moves to the next line that is not empty or a comment and reads its instruction, counting
    /// it unless it declares a label; at the end of the lines, reports that no line is left.
    pub fn advance(&mut self)
        requires
            old(self).wf(),
            old(self).count() < usize::MAX,
        ensures
            final(self).wf(),
            final(self).lines() == old(self).lines(),
            ({
                let i = next_command_line(old(self).lines(), old(self).position());
                if i >= old(self).lines().len() {
                    !final(self).more() && final(self).current() is None && final(self).position()
                        == old(self).lines().len() && final(self).count() == old(self).count()
                } else {
                    &&& final(self).more() == old(self).more()
                    &&& final(self).position() == i + 1
                    &&& line_reads_as(old(self).lines()[i as int], final(self).current())
                    &&& final(self).count() == if final(self).current() matches Some(Instruction::L(_)) {
                        old(self).count()
                    } else {
                        old(self).count() + 1
                    }
                }
            }),
    {
        let ghost ls = self.lines();
        while self.next_line < self.lines.len()
            invariant
                ls == self.lines(),
                ls == old(self).lines(),
                self.lines@ == old(self).lines@,
                self.has_more_lines == old(self).has_more_lines,
                self.curr_line_idx == old(self).curr_line_idx,
                self.curr_line_idx < usize::MAX,
                self.next_line <= self.lines@.len(),
                next_command_line(ls, old(self).position()) == next_command_line(ls, self.next_line as nat),
            decreases self.lines@.len() - self.next_line,
        {
            let i = self.next_line;
            self.next_line = i + 1;
            let line = self.lines[i].as_str();
            assert(line@ == ls[i as int]);
            if !superficial(line) {
                let clean_line = strip_trailing_comment(line);
                let clean = clean_line.as_str();
                let n = clean.unicode_len();
                if n >= 1 && (clean.get_char(0) != '(' || n >= 2) {
                    let inst = parse_instruction(clean);
                    match inst {
                        Instruction::L(_) => {},
                        _ => self.curr_line_idx = self.curr_line_idx + 1,
                    }
                    self.curr_inst = Some(inst);
                } else {
                    self.curr_line_idx = self.curr_line_idx + 1;
                    self.curr_inst = None;
                }
                return;
            }
        }
        self.has_more_lines = false;
        self.curr_inst = None;
    }

    /// The instruction of the current line; `None` before the first `advance`, at the end, or where
    /// the line cannot be read.
    pub fn get_current_instruction(&self) -> (r: &Option<Instruction>)
        ensures
            *r == self.current(),
    {
        &self.curr_inst
    }

    /// How many instructions other than label declarations have been read.
    pub fn current_line_number(&self) -> (r: usize)
        ensures
            r == self.count(),
    {
        self.curr_line_idx
    }
}

} // verus!
