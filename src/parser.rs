use vstd::prelude::*;
use vstd::string::{StrSliceExecFns, StringExecFns};
use crate::command::{ArithmeticOp, Command, SegModel, Segment};
use crate::lex::{is_int_literal, literal_value, parse_decimal, run_len, str_eq, white, VALUE_CAP};

verus! {

/// `s` without its leading and trailing whitespace.
pub open spec fn trimmed(s: Seq<char>) -> Seq<char>
    decreases s.len(),
{
    if s.len() > 0 && white(s[0]) {
        trimmed(s.drop_first())
    } else if s.len() > 0 && white(s.last()) {
        trimmed(s.drop_last())
    } else {
        s
    }
}

/// The maximal runs of non-whitespace characters of `s` from `p` on, in order.
pub open spec fn words_from(s: Seq<char>, p: nat) -> Seq<Seq<char>>
    decreases s.len() - p,
{
    if p >= s.len() {
        Seq::empty()
    } else if white(s[p as int]) {
        words_from(s, p + 1)
    } else {
        let e = p + 1 + run_len(s, p + 1);
        if e <= s.len() {
            seq![s.subrange(p as int, e as int)] + words_from(s, e)
        } else {
            Seq::empty()
        }
    }
}

/// The words of `s`: its maximal runs of non-whitespace characters, in order.
pub open spec fn words_of(s: Seq<char>) -> Seq<Seq<char>> {
    words_from(s, 0)
}

/// Relies on `str::trim`: leading and trailing whitespace removed.
#[verifier::external_body]
pub(crate) fn trim(s: &str) -> (r: String)
    ensures
        r@ == trimmed(s@),
{
    s.trim().to_string()
}

/// Relies on `str::split_whitespace`: the non-empty runs between whitespace, in order.
#[verifier::external_body]
fn split_words(s: &str) -> (r: Vec<String>)
    ensures
        r@.len() == words_of(s@).len(),
        forall|i: int| 0 <= i < r@.len() ==> #[trigger] r@[i]@ == words_of(s@)[i],
{
    s.split_whitespace().map(|w| w.to_string()).collect()
}

pub open spec fn starts_with_comment(line: Seq<char>) -> bool {
    line.len() >= 2 && line[0] == '/' && line[1] == '/'
}

pub fn is_comment(line: &str) -> (r: bool)
    ensures
        r == starts_with_comment(line@),
{
    line.unicode_len() >= 2 && line.get_char(0) == '/' && line.get_char(1) == '/'
}

/// Determines if a line has no effect on the program.
pub fn superficial(line: &str) -> (r: bool)
    ensures
        r == (line@.len() == 0 || starts_with_comment(line@)),
{
    line.unicode_len() == 0 || is_comment(line)
}

/// Where the first `//` of `line` starts, if anywhere.
pub open spec fn comment_at(line: Seq<char>, i: int) -> bool {
    0 <= i && i + 1 < line.len() && line[i] == '/' && line[i + 1] == '/'
}

/// Where the first `//` at or after `k` starts, if anywhere.
pub open spec fn first_comment(line: Seq<char>, k: nat) -> Option<nat>
    decreases line.len() - k,
{
    if k + 1 >= line.len() {
        None
    } else if comment_at(line, k as int) {
        Some(k)
    } else {
        first_comment(line, k + 1)
    }
}

/// The line cut before its first `//` and trimmed, or the line itself where it has no `//`.
pub open spec fn without_comment(line: Seq<char>) -> Seq<char> {
    match first_comment(line, 0) {
        Some(i) => trimmed(line.subrange(0, i as int)),
        None => line,
    }
}

/// The line without a trailing `//` comment, trimmed; a line with no comment is kept as it is.
pub fn strip_trailing_comment(line: &str) -> (r: String)
    ensures
        r@ == without_comment(line@),
{
    let n = line.unicode_len();
    let mut i: usize = 0;
    while i < n && i + 1 < n
        invariant
            n == line@.len(),
            first_comment(line@, 0) == first_comment(line@, i as nat),
        decreases n - i,
    {
        if line.get_char(i) == '/' && line.get_char(i + 1) == '/' {
            let head = line.substring_char(0, i);
            return trim(head);
        }
        i = i + 1;
    }
    String::from_str(line)
}

/// The segment a push or pop names; an unknown name reads as `constant`.
pub open spec fn seg_of(name: Seq<char>, val: int, file: Seq<char>) -> SegModel {
    if name == "argument"@ {
        SegModel::Argument(val)
    } else if name == "local"@ {
        SegModel::Local(val)
    } else if name == "static"@ {
        SegModel::Static(file, val)
    } else if name == "this"@ {
        SegModel::This(val)
    } else if name == "that"@ {
        SegModel::That(val)
    } else if name == "temp"@ {
        SegModel::Temp(val)
    } else if name == "pointer"@ {
        SegModel::Pointer(val)
    } else {
        SegModel::Constant(val)
    }
}

pub fn parse_seg(seg_str: &str, val: i16, file_name: &str) -> (r: Segment)
    ensures
        r@ == seg_of(seg_str@, val as int, file_name@),
{
    if str_eq(seg_str, "argument") {
        Segment::Argument(val)
    } else if str_eq(seg_str, "local") {
        Segment::Local(val)
    } else if str_eq(seg_str, "static") {
        Segment::Static(String::from_str(file_name), val)
    } else if str_eq(seg_str, "this") {
        Segment::This(val)
    } else if str_eq(seg_str, "that") {
        Segment::That(val)
    } else if str_eq(seg_str, "temp") {
        Segment::Temp(val)
    } else if str_eq(seg_str, "pointer") {
        Segment::Pointer(val)
    } else {
        Segment::Constant(val)
    }
}

/// The operation a line names; an unknown one reads as `eq`.
pub open spec fn arith_of(s: Seq<char>) -> ArithmeticOp {
    if s == "add"@ {
        ArithmeticOp::Add
    } else if s == "sub"@ {
        ArithmeticOp::Subtract
    } else if s == "neg"@ {
        ArithmeticOp::Negate
    } else if s == "eq"@ {
        ArithmeticOp::Equal
    } else if s == "gt"@ {
        ArithmeticOp::GreaterThan
    } else if s == "lt"@ {
        ArithmeticOp::LessThan
    } else if s == "and"@ {
        ArithmeticOp::And
    } else if s == "or"@ {
        ArithmeticOp::Or
    } else if s == "not"@ {
        ArithmeticOp::Not
    } else {
        ArithmeticOp::Equal
    }
}

pub fn parse_arithmetic_op(line: &str) -> (r: ArithmeticOp)
    ensures
        r == arith_of(line@),
{
    if str_eq(line, "add") {
        ArithmeticOp::Add
    } else if str_eq(line, "sub") {
        ArithmeticOp::Subtract
    } else if str_eq(line, "neg") {
        ArithmeticOp::Negate
    } else if str_eq(line, "eq") {
        ArithmeticOp::Equal
    } else if str_eq(line, "gt") {
        ArithmeticOp::GreaterThan
    } else if str_eq(line, "lt") {
        ArithmeticOp::LessThan
    } else if str_eq(line, "and") {
        ArithmeticOp::And
    } else if str_eq(line, "or") {
        ArithmeticOp::Or
    } else if str_eq(line, "not") {
        ArithmeticOp::Not
    } else {
        ArithmeticOp::Equal
    }
}

/// A command as values.
pub ghost enum CmdModel {
    Arithmetic(ArithmeticOp),
    Push(SegModel),
    Pop(SegModel),
    Label(Seq<char>),
    Goto(Seq<char>),
    IfGoto(Seq<char>),
    Function(Seq<char>, nat),
    Return,
    Call(Seq<char>, nat),
}

impl View for Command {
    type V = CmdModel;

    open spec fn view(&self) -> CmdModel {
        match self {
            Command::Arithmetic(op) => CmdModel::Arithmetic(*op),
            Command::Push(s) => CmdModel::Push(s@),
            Command::Pop(s) => CmdModel::Pop(s@),
            Command::Label(l) => CmdModel::Label(l@),
            Command::Goto(l) => CmdModel::Goto(l@),
            Command::IfGoto(l) => CmdModel::IfGoto(l@),
            Command::Function(f, n) => CmdModel::Function(f@, *n as nat),
            Command::Return => CmdModel::Return,
            Command::Call(f, n) => CmdModel::Call(f@, *n as nat),
        }
    }
}

/// A segment offset: a decimal literal that fits 16 bits.
pub open spec fn is_offset(w: Seq<char>) -> bool {
    is_int_literal(w) && i16::MIN <= literal_value(w) <= i16::MAX
}

/// A count of locals or arguments: a decimal literal without a minus sign, below `VALUE_CAP`.
pub open spec fn is_count(w: Seq<char>) -> bool {
    is_int_literal(w) && !(w.len() > 0 && w[0] == '-') && 0 <= literal_value(w) < VALUE_CAP
        && literal_value(w) <= usize::MAX
}

/// The command a line's words spell, `None` where a word the keyword needs is missing or is not
/// a number; any other first word makes the whole line an arithmetic command.
pub open spec fn command_of(line: Seq<char>, words: Seq<Seq<char>>, file: Seq<char>) -> Option<CmdModel> {
    if words.len() == 0 {
        None
    } else {
        let w0 = words[0];
        if w0 == "push"@ || w0 == "pop"@ {
            if words.len() < 3 || !is_offset(words[2]) {
                None
            } else {
                let seg = seg_of(words[1], literal_value(words[2]), file);
                Some(if w0 == "push"@ { CmdModel::Push(seg) } else { CmdModel::Pop(seg) })
            }
        } else if w0 == "label"@ || w0 == "goto"@ || w0 == "if-goto"@ {
            if words.len() < 2 {
                None
            } else if w0 == "label"@ {
                Some(CmdModel::Label(words[1]))
            } else if w0 == "goto"@ {
                Some(CmdModel::Goto(words[1]))
            } else {
                Some(CmdModel::IfGoto(words[1]))
            }
        } else if w0 == "call"@ || w0 == "function"@ {
            if words.len() < 3 || !is_count(words[2]) {
                None
            } else if w0 == "call"@ {
                Some(CmdModel::Call(words[1], literal_value(words[2]) as nat))
            } else {
                Some(CmdModel::Function(words[1], literal_value(words[2]) as nat))
            }
        } else if w0 == "return"@ {
            Some(CmdModel::Return)
        } else {
            Some(CmdModel::Arithmetic(arith_of(line)))
        }
    }
}

fn parse_offset(w: &str) -> (r: Option<i16>)
    ensures
        r is Some <==> is_offset(w@),
        r matches Some(v) ==> v == literal_value(w@),
{
    match parse_decimal(w) {
        Some(v) => if -32768 <= v && v <= 32767 {
            Some(v as i16)
        } else {
            None
        },
        None => None,
    }
}

fn parse_count(w: &str) -> (r: Option<usize>)
    ensures
        r is Some <==> is_count(w@),
        r matches Some(v) ==> v == literal_value(w@),
{
    if w.unicode_len() > 0 && w.get_char(0) == '-' {
        return None;
    }
    match parse_decimal(w) {
        Some(v) => if 0 <= v && v as u64 <= usize::MAX as u64 {
            Some(v as usize)
        } else {
            None
        },
        None => None,
    }
}

/// The command that a clean line spells, from its words.
pub fn parse_words(line: &str, words: &Vec<String>, file_name: &str) -> (r: Option<Command>)
    ensures
        match r {
            Some(c) => command_of(line@, words@.map_values(|w: String| w@), file_name@) == Some(c@),
            None => command_of(line@, words@.map_values(|w: String| w@), file_name@) is None,
        },
{
    let ghost ws = words@.map_values(|w: String| w@);
    if words.len() == 0 {
        return None;
    }
    let w0 = words[0].as_str();
    assert(w0@ == ws[0]);
    if str_eq(w0, "push") || str_eq(w0, "pop") {
        if words.len() < 3 {
            return None;
        }
        assert(words[2]@ == ws[2] && words[1]@ == ws[1]);
        match parse_offset(words[2].as_str()) {
            Some(v) => {
                let seg = parse_seg(words[1].as_str(), v, file_name);
                if str_eq(w0, "push") {
                    Some(Command::Push(seg))
                } else {
                    Some(Command::Pop(seg))
                }
            },
            None => None,
        }
    } else if str_eq(w0, "label") || str_eq(w0, "goto") || str_eq(w0, "if-goto") {
        if words.len() < 2 {
            return None;
        }
        assert(words[1]@ == ws[1]);
        let name = words[1].clone();
        if str_eq(w0, "label") {
            Some(Command::Label(name))
        } else if str_eq(w0, "goto") {
            Some(Command::Goto(name))
        } else {
            Some(Command::IfGoto(name))
        }
    } else if str_eq(w0, "call") || str_eq(w0, "function") {
        if words.len() < 3 {
            return None;
        }
        assert(words[2]@ == ws[2] && words[1]@ == ws[1]);
        match parse_count(words[2].as_str()) {
            Some(n) => {
                let name = words[1].clone();
                if str_eq(w0, "call") {
                    Some(Command::Call(name, n))
                } else {
                    Some(Command::Function(name, n))
                }
            },
            None => None,
        }
    } else if str_eq(w0, "return") {
        Some(Command::Return)
    } else {
        Some(Command::Arithmetic(parse_arithmetic_op(line)))
    }
}

/// The command that a clean line (comment stripped, not empty) spells; `None` where it is malformed.
pub fn parse_cmd(clean_line: &str, file_name: &str) -> (r: Option<Command>)
    ensures
        match r {
            Some(c) => command_of(clean_line@, words_of(clean_line@), file_name@) == Some(c@),
            None => command_of(clean_line@, words_of(clean_line@), file_name@) is None,
        },
{
    let words = split_words(clean_line);
    assert(words@.map_values(|w: String| w@) =~= words_of(clean_line@));
    parse_words(clean_line, &words, file_name)
}

/// Whether a line is skipped: empty, or a comment from its first character.
pub open spec fn is_superficial(line: Seq<char>) -> bool {
    line.len() == 0 || starts_with_comment(line)
}

/// The first line at or after `k` that is not skipped; the number of lines if there is none.
pub open spec fn next_command_line(ls: Seq<Seq<char>>, k: nat) -> nat
    decreases ls.len() - k,
{
    if k >= ls.len() {
        ls.len()
    } else if !is_superficial(ls[k as int]) {
        k
    } else {
        next_command_line(ls, k + 1)
    }
}

/// The command a source line spells, `None` where it is malformed.
pub open spec fn line_command(line: Seq<char>, file: Seq<char>) -> Option<CmdModel> {
    command_of(without_comment(line), words_of(without_comment(line)), file)
}

pub open spec fn opt_cmd(c: Option<Command>) -> Option<CmdModel> {
    match c {
        Some(c) => Some(c@),
        None => None,
    }
}

/// Reads the commands of one source unit, line by line.
pub struct Parser {
    lines: Vec<String>,
    next_line: usize,
    cur_cmd: Option<Command>,
    more_lines: bool,
    file_name: String,
}

impl Parser {
    pub closed spec fn lines(&self) -> Seq<Seq<char>> {
        self.lines@.map_values(|s: String| s@)
    }

    /// The next line to read.
    pub closed spec fn position(&self) -> nat {
        self.next_line as nat
    }

    pub closed spec fn file(&self) -> Seq<char> {
        self.file_name@
    }

    pub closed spec fn more(&self) -> bool {
        self.more_lines
    }

    pub closed spec fn current(&self) -> Option<CmdModel> {
        opt_cmd(self.cur_cmd)
    }

    pub closed spec fn wf(&self) -> bool {
        self.next_line <= self.lines@.len()
    }

    /// A parser over the lines of the unit named `file`, standing on its first command.
    pub fn new(lines: Vec<String>, file: String) -> (r: Parser)
        ensures
            r.wf(),
            r.lines() == lines@.map_values(|s: String| s@),
            r.file() == file@,
            ({
                let i = next_command_line(r.lines(), 0);
                if i >= r.lines().len() {
                    !r.more() && r.current() is None && r.position() == r.lines().len()
                } else {
                    r.more() && r.position() == i + 1 && r.current() == line_command(r.lines()[i as int], file@)
                }
            }),
    {
        let mut parser = Parser { lines, next_line: 0, cur_cmd: None, more_lines: true, file_name: file };
        parser.advance();
        parser
    }

    /// Whether the last `advance` found a line to read.
    pub fn has_more_lines(&self) -> (r: bool)
        ensures
            r == self.more(),
    {
        self.more_lines
    }

    /// Moves to the next line that is not empty or a comment, and reads its command; at the end
    /// of the lines, reports that no line is left.
    pub fn advance(&mut self)
        requires
            old(self).wf(),
        ensures
            final(self).wf(),
            final(self).lines() == old(self).lines(),
            final(self).file() == old(self).file(),
            ({
                let i = next_command_line(old(self).lines(), old(self).position());
                if i >= old(self).lines().len() {
                    !final(self).more() && final(self).current() is None && final(self).position()
                        == old(self).lines().len()
                } else {
                    final(self).more() == old(self).more() && final(self).position() == i + 1
                        && final(self).current() == line_command(old(self).lines()[i as int], old(self).file())
                }
            }),
    {
        let ghost ls = self.lines();
        while self.next_line < self.lines.len()
            invariant
                ls == self.lines(),
                ls == old(self).lines(),
                self.lines@ == old(self).lines@,
                self.file_name@ == old(self).file_name@,
                self.more_lines == old(self).more_lines,
                self.next_line <= self.lines@.len(),
                next_command_line(ls, old(self).position()) == next_command_line(ls, self.next_line as nat),
            decreases self.lines@.len() - self.next_line,
        {
            let i = self.next_line;
            self.next_line = i + 1;
            let line = self.lines[i].as_str();
            assert(line@ == ls[i as int]);
            if !superficial(line) {
                let clean_line = strip_trailing_comment(line);
                let cmd = parse_cmd(clean_line.as_str(), self.file_name.as_str());
                self.cur_cmd = cmd;
                return;
            }
        }
        self.more_lines = false;
        self.cur_cmd = None;
    }

    /// The command of the current line; `None` at the end, or where the line is malformed.
    pub fn command(&self) -> (r: &Option<Command>)
        ensures
            opt_cmd(*r) == self.current(),
    {
        &self.cur_cmd
    }
}

} // verus!
