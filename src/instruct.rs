use vstd::prelude::*;
use vstd::string::StringExecFns;
use crate::text::{append_int, int_text};

verus! {

/// One line of symbolic Hack assembly.
pub enum Instruction {
    /// `@value`: loads a literal into the address register.
    AConst(i16),
    /// `@symbol`: loads a symbol's address into the address register.
    ASymbolic(String),
    /// `dest=comp;jump`, where `dest` and `jump` may be absent.
    C(Option<String>, String, Option<String>),
    /// `(label)`: declares a label at the next instruction.
    Label(String),
}

/// The mathematical value of an instruction: its text parts as character sequences.
pub ghost enum Asm {
    Const(int),
    Sym(Seq<char>),
    Comp(Option<Seq<char>>, Seq<char>, Option<Seq<char>>),
    Lbl(Seq<char>),
}

pub open spec fn opt_view(o: Option<String>) -> Option<Seq<char>> {
    match o {
        Some(s) => Some(s@),
        None => None,
    }
}

impl View for Instruction {
    type V = Asm;

    open spec fn view(&self) -> Asm {
        match self {
            Instruction::AConst(v) => Asm::Const(*v as int),
            Instruction::ASymbolic(s) => Asm::Sym(s@),
            Instruction::C(d, c, j) => Asm::Comp(opt_view(*d), c@, opt_view(*j)),
            Instruction::Label(s) => Asm::Lbl(s@),
        }
    }
}

/// The models of a sequence of instructions.
pub open spec fn models(v: Seq<Instruction>) -> Seq<Asm> {
    v.map_values(|i: Instruction| i@)
}

/// The text of one instruction, without a line break.
pub open spec fn render(i: Asm) -> Seq<char> {
    match i {
        Asm::Const(v) => seq!['@'] + int_text(v),
        Asm::Sym(s) => seq!['@'] + s,
        Asm::Lbl(s) => seq!['('] + s + seq![')'],
        Asm::Comp(d, c, j) => {
            let head = match d {
                Some(d) => d + seq!['='],
                None => Seq::<char>::empty(),
            };
            let tail = match j {
                Some(j) => seq![';'] + j,
                None => Seq::<char>::empty(),
            };
            head + c + tail
        },
    }
}

/// The text of a sequence of instructions: each one on a line of its own, every line ended by `\n`.
pub open spec fn lines(s: Seq<Asm>) -> Seq<char>
    decreases s.len(),
{
    if s.len() == 0 {
        Seq::empty()
    } else {
        lines(s.drop_last()) + render(s.last()) + seq!['\n']
    }
}

impl Instruction {
    /// Appends the text of this instruction to `out`.
    pub fn append_to(&self, out: &mut String)
        ensures
            final(out)@ == old(out)@ + render(self@),
    {
        proof {
            reveal_strlit("@");
            reveal_strlit("(");
            reveal_strlit(")");
            reveal_strlit("=");
            reveal_strlit(";");
        }
        match self {
            Instruction::AConst(v) => {
                out.append("@");
                append_int(out, *v);
            },
            Instruction::ASymbolic(s) => {
                out.append("@");
                out.append(s.as_str());
            },
            Instruction::Label(s) => {
                out.append("(");
                out.append(s.as_str());
                out.append(")");
            },
            Instruction::C(d, c, j) => {
                match d {
                    Some(d) => {
                        out.append(d.as_str());
                        out.append("=");
                    },
                    None => {},
                }
                out.append(c.as_str());
                match j {
                    Some(j) => {
                        out.append(";");
                        out.append(j.as_str());
                    },
                    None => {},
                }
            },
        }
        assert(final(out)@ =~= old(out)@ + render(self@));
    }

    /// The text of this instruction.
    pub fn to_text(&self) -> (r: String)
        ensures
            r@ == render(self@),
    {
        let mut r = String::new();
        self.append_to(&mut r);
        assert(r@ =~= render(self@));
        r
    }
}

/// The text of a sequence of instructions, one per line, each line ended by `\n`.
pub fn instruct_lines(instructs: &Vec<Instruction>) -> (r: String)
    ensures
        r@ == lines(models(instructs@)),
{
    let mut r = String::new();
    let mut i: usize = 0;
    while i < instructs.len()
        invariant
            i <= instructs@.len(),
            r@ == lines(models(instructs@.subrange(0, i as int))),
        decreases instructs@.len() - i,
    {
        proof {
            reveal_strlit("\n");
            assert(instructs@.subrange(0, i as int + 1).drop_last() =~= instructs@.subrange(0, i as int));
            assert(models(instructs@.subrange(0, i as int + 1)).drop_last()
                =~= models(instructs@.subrange(0, i as int)));
        }
        instructs[i].append_to(&mut r);
        r.append("\n");
        i = i + 1;
    }
    assert(instructs@.subrange(0, i as int) =~= instructs@);
    r
}

/// The instructions' text joined by `\n`, with no line break after the last.
pub open spec fn joined(s: Seq<Asm>) -> Seq<char> {
    if s.len() == 0 {
        Seq::empty()
    } else {
        lines(s.drop_last()) + render(s.last())
    }
}

/// The text of a sequence of instructions, joined by `\n`.
pub fn instruct_vec_str(instructs: &Vec<Instruction>) -> (r: String)
    ensures
        r@ == joined(models(instructs@)),
{
    let n = instructs.len();
    if n == 0 {
        let r = String::new();
        assert(r@ =~= joined(models(instructs@)));
        return r;
    }
    let mut r = String::new();
    let mut i: usize = 0;
    while i < n - 1
        invariant
            n == instructs@.len(),
            n > 0,
            i <= n - 1,
            r@ == lines(models(instructs@.subrange(0, i as int))),
        decreases n - 1 - i,
    {
        proof {
            reveal_strlit("\n");
            assert(instructs@.subrange(0, i as int + 1).drop_last() =~= instructs@.subrange(0, i as int));
            assert(models(instructs@.subrange(0, i as int + 1)).drop_last()
                =~= models(instructs@.subrange(0, i as int)));
        }
        instructs[i].append_to(&mut r);
        r.append("\n");
        i = i + 1;
    }
    instructs[n - 1].append_to(&mut r);
    assert(models(instructs@).drop_last() =~= models(instructs@.subrange(0, n - 1)));
    r
}

} // verus!
