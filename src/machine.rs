use vstd::prelude::*;
use crate::code::{
    call_setup_spec, frame_sub_spec, goto_asm, header_spec, return_restore_spec, address_spec, asg, dec_sp_spec, inc_sp_spec, offset_spec, pointer_symbol, pop_spec, push_spec,
    pushes_address, sp_asm, stack_top_spec, static_symbol,
};
use crate::code::arithmetic_spec;
use crate::command::{ArithmeticOp, Command, SegModel, Segment};
use crate::writer::{next_state, translate, WriterState};
use crate::instruct::Asm;

verus! {

/// The registers and memory of a Hack computer.
pub ghost struct Machine {
    pub a: int,
    pub d: int,
    pub mem: spec_fn(int) -> int,
}

/// A value reduced to a 16-bit two's complement word.
pub open spec fn word(x: int) -> int {
    (x + 32768) % 65536 - 32768
}

pub open spec fn store(mem: spec_fn(int) -> int, addr: int, v: int) -> spec_fn(int) -> int {
    |x: int| if x == addr { v } else { mem(x) }
}

/// The built-in symbols that the generated code relies on, at their fixed addresses.
pub open spec fn standard_symbols(sym: spec_fn(Seq<char>) -> int) -> bool {
    &&& sym("SP"@) == 0
    &&& sym("LCL"@) == 1
    &&& sym("ARG"@) == 2
    &&& sym("THIS"@) == 3
    &&& sym("THAT"@) == 4
    &&& sym("R5"@) == 5
    &&& sym("R13"@) == 13
    &&& sym("R14"@) == 14
    &&& sym("R15"@) == 15
}

/// The value of a one-character operand of a computation.
pub open spec fn operand(ch: char, a: int, d: int, m: int) -> Option<int> {
    if ch == 'A' {
        Some(a)
    } else if ch == 'D' {
        Some(d)
    } else if ch == 'M' {
        Some(m)
    } else if ch == '0' {
        Some(0)
    } else if ch == '1' {
        Some(1)
    } else {
        None
    }
}

/// The value a computation field yields: an operand, its negation, or the sum or difference of
/// two; `None` for the bitwise forms, which this model leaves out.
pub open spec fn comp_value(c: Seq<char>, a: int, d: int, m: int) -> Option<int> {
    if c.len() == 1 {
        operand(c[0], a, d, m)
    } else if c.len() == 2 && c[0] == '-' {
        match operand(c[1], a, d, m) {
            Some(x) => Some(word(-x)),
            None => None,
        }
    } else if c.len() == 3 && (c[1] == '+' || c[1] == '-') {
        match (operand(c[0], a, d, m), operand(c[2], a, d, m)) {
            (Some(x), Some(y)) => Some(if c[1] == '+' { word(x + y) } else { word(x - y) }),
            _ => None,
        }
    } else {
        None
    }
}

/// One instruction of straight-line code; `None` at a jump or a computation the model lacks.
pub open spec fn step(m: Machine, sym: spec_fn(Seq<char>) -> int, i: Asm) -> Option<Machine> {
    match i {
        Asm::Const(v) => Some(Machine { a: v, ..m }),
        Asm::Sym(s) => Some(Machine { a: sym(s), ..m }),
        Asm::Lbl(_) => Some(m),
        Asm::Comp(dest, c, jump) => {
            if jump is Some || dest is None {
                None
            } else {
                match comp_value(c, m.a, m.d, (m.mem)(m.a)) {
                    None => None,
                    Some(v) => {
                        let dst = dest->0;
                        if dst.len() != 1 {
                            None
                        } else if dst[0] == 'M' {
                            Some(Machine { mem: store(m.mem, m.a, v), ..m })
                        } else if dst[0] == 'A' {
                            Some(Machine { a: v, ..m })
                        } else if dst[0] == 'D' {
                            Some(Machine { d: v, ..m })
                        } else {
                            None
                        }
                    },
                }
            }
        },
    }
}

/// Runs straight-line code from `m`.
pub open spec fn run(m: Machine, sym: spec_fn(Seq<char>) -> int, code: Seq<Asm>) -> Option<Machine>
    decreases code.len(),
{
    if code.len() == 0 {
        Some(m)
    } else {
        match run(m, sym, code.drop_last()) {
            Some(m1) => step(m1, sym, code.last()),
            None => None,
        }
    }
}

pub proof fn lemma_run_concat(m: Machine, sym: spec_fn(Seq<char>) -> int, a: Seq<Asm>, b: Seq<Asm>)
    ensures
        run(m, sym, a + b) == match run(m, sym, a) {
            Some(m1) => run(m1, sym, b),
            None => None,
        },
    decreases b.len(),
{
    if b.len() == 0 {
        assert(a + b =~= a);
    } else {
        assert((a + b).drop_last() =~= a + b.drop_last());
        lemma_run_concat(m, sym, a, b.drop_last());
    }
}

/// The characters of the literals that the generated code and this model use.
pub proof fn lemma_literals()
    ensures
        "0"@ == seq!['0'],
        "-1"@ == seq!['-', '1'],
        "A"@ == seq!['A'],
        "D"@ == seq!['D'],
        "M"@ == seq!['M'],
        "-M"@ == seq!['-', 'M'],
        "M+1"@ == seq!['M', '+', '1'],
        "M-1"@ == seq!['M', '-', '1'],
        "A-1"@ == seq!['A', '-', '1'],
        "D+1"@ == seq!['D', '+', '1'],
        "D+A"@ == seq!['D', '+', 'A'],
        "D+M"@ == seq!['D', '+', 'M'],
        "D-A"@ == seq!['D', '-', 'A'],
        "M+D"@ == seq!['M', '+', 'D'],
        "M-D"@ == seq!['M', '-', 'D'],
{
    reveal_strlit("0");
    reveal_strlit("-1");
    reveal_strlit("A");
    reveal_strlit("D");
    reveal_strlit("M");
    reveal_strlit("-M");
    reveal_strlit("M+1");
    reveal_strlit("M-1");
    reveal_strlit("A-1");
    reveal_strlit("D+1");
    reveal_strlit("D+A");
    reveal_strlit("D+M");
    reveal_strlit("D-A");
    reveal_strlit("M+D");
    reveal_strlit("M-D");
}

/// The address of the cell a segment selects (for `Constant`, the constant itself).
pub open spec fn eff_addr(m: Machine, sym: spec_fn(Seq<char>) -> int, seg: SegModel) -> int {
    match seg {
        SegModel::Argument(o) => word(o + (m.mem)(2)),
        SegModel::Local(o) => word(o + (m.mem)(1)),
        SegModel::This(o) => word(o + (m.mem)(3)),
        SegModel::That(o) => word(o + (m.mem)(4)),
        SegModel::Temp(o) => word(o + 5),
        SegModel::Static(unit, o) => sym(static_symbol(unit, o)),
        SegModel::Pointer(v) => sym(pointer_symbol(v)),
        SegModel::Constant(v) => v,
        SegModel::Named(n) => sym(n),
        SegModel::NamedPtr(n) => sym(n),
    }
}

/// The value `push` puts on the stack.
pub open spec fn pushed_value(m: Machine, sym: spec_fn(Seq<char>) -> int, seg: SegModel) -> int {
    if pushes_address(seg) {
        eff_addr(m, sym, seg)
    } else {
        (m.mem)(eff_addr(m, sym, seg))
    }
}

pub proof fn lemma_address(m: Machine, sym: spec_fn(Seq<char>) -> int, seg: SegModel)
    requires
        standard_symbols(sym),
    ensures
        run(m, sym, address_spec(seg)) matches Some(m1) && m1.a == eff_addr(m, sym, seg) && m1.mem == m.mem,
{
    lemma_literals();
    match seg {
        SegModel::Argument(o) => lemma_offset(m, sym, "ARG"@, o, "D+M"@),
        SegModel::Local(o) => lemma_offset(m, sym, "LCL"@, o, "D+M"@),
        SegModel::This(o) => lemma_offset(m, sym, "THIS"@, o, "D+M"@),
        SegModel::That(o) => lemma_offset(m, sym, "THAT"@, o, "D+M"@),
        SegModel::Temp(o) => lemma_offset(m, sym, "R5"@, o, "D+A"@),
        _ => {
            let c = address_spec(seg);
            assert(c.drop_last() =~= Seq::<Asm>::empty());
            assert(run(m, sym, Seq::<Asm>::empty()) == Some(m));
        },
    }
}

proof fn lemma_offset(m: Machine, sym: spec_fn(Seq<char>) -> int, base: Seq<char>, o: int, comp: Seq<char>)
    requires
        comp == "D+M"@ || comp == "D+A"@,
    ensures
        run(m, sym, offset_spec(base, o, comp)) matches Some(m1) && m1.mem == m.mem && m1.a == if comp
            == "D+M"@ {
            word(o + (m.mem)(sym(base)))
        } else {
            word(o + sym(base))
        },
{
    lemma_literals();
    let c = offset_spec(base, o, comp);
    let c3 = seq![Asm::Const(o), asg("D"@, "A"@), Asm::Sym(base)];
    let c2 = seq![Asm::Const(o), asg("D"@, "A"@)];
    let c1 = seq![Asm::Const(o)];
    assert(c.drop_last() =~= c3);
    assert(c3.drop_last() =~= c2);
    assert(c2.drop_last() =~= c1);
    assert(c1.drop_last() =~= Seq::<Asm>::empty());
    assert(run(m, sym, Seq::<Asm>::empty()) == Some(m));
    let m1 = Machine { a: o, ..m };
    assert(run(m, sym, c1) == Some(m1));
    let m2 = Machine { a: o, d: o, ..m };
    assert(run(m, sym, c2) == Some(m2));
    let m3 = Machine { a: sym(base), d: o, ..m };
    assert(run(m, sym, c3) == Some(m3));
}

pub proof fn lemma_push(m: Machine, sym: spec_fn(Seq<char>) -> int, seg: SegModel)
    requires
        standard_symbols(sym),
        (m.mem)(0) != 0,
    ensures
        run(m, sym, push_spec(seg)) matches Some(m1) && forall|x: int| #[trigger] (m1.mem)(x) == if x == 0 {
            word((m.mem)(0) + 1)
        } else if x == (m.mem)(0) {
            pushed_value(m, sym, seg)
        } else {
            (m.mem)(x)
        },
{
    lemma_literals();
    lemma_address(m, sym, seg);
    let m1 = run(m, sym, address_spec(seg))->0;
    let tail = seq![
        asg("D"@, if pushes_address(seg) { "A"@ } else { "M"@ }),
        sp_asm(),
        asg("A"@, "M"@),
        asg("M"@, "D"@),
    ];
    assert(push_spec(seg) =~= address_spec(seg) + (tail + inc_sp_spec()));
    lemma_run_concat(m, sym, address_spec(seg), tail + inc_sp_spec());
    reveal_with_fuel(run, 7);
}

proof fn lemma_save_address(m: Machine, sym: spec_fn(Seq<char>) -> int)
    requires
        standard_symbols(sym),
    ensures
        run(m, sym, seq![asg("D"@, "A"@), Asm::Sym("R13"@), asg("M"@, "D"@)]) == Some(
            Machine { a: 13, d: m.a, mem: store(m.mem, 13, m.a) },
        ),
{
    lemma_literals();
    reveal_with_fuel(run, 4);
}

proof fn lemma_stack_top(m: Machine, sym: spec_fn(Seq<char>) -> int)
    requires
        standard_symbols(sym),
    ensures
        run(m, sym, stack_top_spec()) == Some(Machine { a: word((m.mem)(0) - 1), ..m }),
{
    lemma_literals();
    reveal_with_fuel(run, 4);
}

proof fn lemma_move_through_r13(m: Machine, sym: spec_fn(Seq<char>) -> int)
    requires
        standard_symbols(sym),
    ensures
        run(
            m,
            sym,
            seq![
                asg("D"@, "M"@),
                Asm::Sym("R13"@),
                asg("A"@, "M"@),
                asg("M"@, "D"@),
                Asm::Sym("R13"@),
                asg("M"@, "0"@),
            ],
        ) == Some(
            Machine {
                a: 13,
                d: (m.mem)(m.a),
                mem: store(store(m.mem, (m.mem)(13), (m.mem)(m.a)), 13, 0),
            },
        ),
{
    lemma_literals();
    reveal_with_fuel(run, 7);
}

proof fn lemma_dec_sp(m: Machine, sym: spec_fn(Seq<char>) -> int)
    requires
        standard_symbols(sym),
    ensures
        run(m, sym, dec_sp_spec()) == Some(Machine { a: 0, mem: store(m.mem, 0, word((m.mem)(0) - 1)), ..m }),
{
    lemma_literals();
    reveal_with_fuel(run, 3);
}

pub proof fn lemma_pop(m: Machine, sym: spec_fn(Seq<char>) -> int, seg: SegModel)
    requires
        standard_symbols(sym),
        -32768 <= (m.mem)(0) - 1 < 32768,
        (m.mem)(0) - 1 != 13,
        eff_addr(m, sym, seg) != 0,
    ensures
        run(m, sym, pop_spec(seg)) matches Some(m1) && forall|x: int| #[trigger] (m1.mem)(x) == if x == 0 {
            (m.mem)(0) - 1
        } else if x == 13 {
            0
        } else if x == eff_addr(m, sym, seg) {
            (m.mem)((m.mem)(0) - 1)
        } else {
            (m.mem)(x)
        },
{
    let e = eff_addr(m, sym, seg);
    let sp = (m.mem)(0);
    let save = seq![asg("D"@, "A"@), Asm::Sym("R13"@), asg("M"@, "D"@)];
    let mv = seq![
        asg("D"@, "M"@),
        Asm::Sym("R13"@),
        asg("A"@, "M"@),
        asg("M"@, "D"@),
        Asm::Sym("R13"@),
        asg("M"@, "0"@),
    ];
    let addr = address_spec(seg);
    assert(pop_spec(seg) =~= addr + save + stack_top_spec() + mv + dec_sp_spec());
    lemma_address(m, sym, seg);
    let m1 = run(m, sym, addr)->0;
    lemma_save_address(m1, sym);
    let m2 = Machine { a: 13, d: e, mem: store(m.mem, 13, e) };
    lemma_run_concat(m, sym, addr, save);
    lemma_stack_top(m2, sym);
    assert(word(sp - 1) == sp - 1);
    let m3 = Machine { a: sp - 1, ..m2 };
    lemma_run_concat(m, sym, addr + save, stack_top_spec());
    lemma_move_through_r13(m3, sym);
    let t = (m.mem)(sp - 1);
    let m4 = Machine { a: 13, d: t, mem: store(store(m2.mem, e, t), 13, 0) };
    lemma_run_concat(m, sym, addr + save + stack_top_spec(), mv);
    lemma_dec_sp(m4, sym);
    lemma_run_concat(m, sym, addr + save + stack_top_spec() + mv, dec_sp_spec());
}

/// The cell that holds the base address of a pointer-based segment, if the segment is one.
pub open spec fn base_cell(seg: SegModel) -> Option<int> {
    match seg {
        SegModel::Argument(_) => Some(2),
        SegModel::Local(_) => Some(1),
        SegModel::This(_) => Some(3),
        SegModel::That(_) => Some(4),
        _ => None,
    }
}

/// Pushing a segment cell and popping it straight back into the same cell leaves the stack
/// pointer and every memory cell as they were, except the scratch cell R13, which ends at 0,
/// and the cell just above the stack, which keeps the value that passed through it.
///
/// Left out are the inputs on which this fails: segments that push an address rather than a
/// cell (`Constant`, `NamedPtr`: popping writes the value into the cell the constant names);
/// a cell that resolves to the stack pointer itself; and a stack pointer whose top cell is the
/// stack pointer, R13 or the segment's base register (the push would overwrite them), or that
/// leaves the 16-bit range.
pub proof fn push_then_pop_restores(m: Machine, sym: spec_fn(Seq<char>) -> int, seg: SegModel)
    requires
        standard_symbols(sym),
        !pushes_address(seg),
        -32768 <= (m.mem)(0) < 32767,
        (m.mem)(0) != 0,
        (m.mem)(0) != 13,
        base_cell(seg) != Some((m.mem)(0)),
        eff_addr(m, sym, seg) != 0,
    ensures
        run(m, sym, push_spec(seg) + pop_spec(seg)) matches Some(m2) && {
            &&& (m2.mem)(0) == (m.mem)(0)
            &&& (m2.mem)(13) == 0
            &&& (m2.mem)((m.mem)(0)) == pushed_value(m, sym, seg)
            &&& forall|x: int| x != 13 && x != (m.mem)(0) ==> #[trigger] (m2.mem)(x) == (m.mem)(x)
        },
{
    let sp = (m.mem)(0);
    lemma_push(m, sym, seg);
    let m1 = run(m, sym, push_spec(seg))->0;
    assert(word(sp + 1) == sp + 1);
    assert((m1.mem)(0) == sp + 1);
    match base_cell(seg) {
        Some(b) => assert((m1.mem)(b) == (m.mem)(b)),
        None => {},
    }
    assert(eff_addr(m1, sym, seg) == eff_addr(m, sym, seg));
    lemma_pop(m1, sym, seg);
    lemma_run_concat(m, sym, push_spec(seg), pop_spec(seg));
    let m2 = run(m1, sym, pop_spec(seg))->0;
    assert forall|x: int| x != 13 && x != sp implies #[trigger] (m2.mem)(x) == (m.mem)(x) by {
        if x == eff_addr(m, sym, seg) {
            assert((m1.mem)(sp) == pushed_value(m, sym, seg));
        }
    }
}

/// Translating `push constant x`, `push constant y`, `add` from any writer state gives code
/// that leaves the 16-bit sum of x and y on top of the stack, with the stack one cell higher.
/// Left out are the stack pointers on which this fails: one whose first or second pushed cell
/// is the stack pointer itself (0 or -1), and one that leaves the 16-bit range.
pub proof fn translated_addition(m: Machine, sym: spec_fn(Seq<char>) -> int, s: WriterState, x: i16, y: i16)
    requires
        standard_symbols(sym),
        -32768 <= (m.mem)(0) < 32766,
        (m.mem)(0) != 0,
        (m.mem)(0) != -1,
    ensures
        ({
            let c1 = Command::Push(Segment::Constant(x));
            let c2 = Command::Push(Segment::Constant(y));
            let c3 = Command::Arithmetic(ArithmeticOp::Add);
            let s1 = next_state(s, c1);
            let s2 = next_state(s1, c2);
            run(m, sym, translate(s, c1) + translate(s1, c2) + translate(s2, c3)) matches Some(m2)
                && (m2.mem)(0) == (m.mem)(0) + 1 && (m2.mem)((m.mem)(0)) == word(x + y)
        }),
{
    let s2 = next_state(next_state(s, Command::Push(Segment::Constant(x))), Command::Push(Segment::Constant(y)));
    push_push_add(m, sym, x as int, y as int, s2.line_idx);
}

/// Pushing two constants and adding them leaves their 16-bit sum on top of the stack, with
/// the stack one cell higher than before.
proof fn lemma_single_step(m: Machine, sym: spec_fn(Seq<char>) -> int, i: Asm)
    ensures
        run(m, sym, seq![i]) == step(m, sym, i),
{
    reveal_with_fuel(run, 2);
    assert(seq![i].drop_last() =~= Seq::<Asm>::empty());
}

#[verifier::rlimit(60)]
pub proof fn push_push_add(m: Machine, sym: spec_fn(Seq<char>) -> int, x: int, y: int, idx: nat)
    requires
        standard_symbols(sym),
        -32768 <= (m.mem)(0) < 32766,
        (m.mem)(0) != 0,
        (m.mem)(0) != -1,
    ensures
        run(
            m,
            sym,
            push_spec(SegModel::Constant(x)) + push_spec(SegModel::Constant(y)) + arithmetic_spec(
                ArithmeticOp::Add,
                idx,
            ),
        ) matches Some(m2) && (m2.mem)(0) == (m.mem)(0) + 1 && (m2.mem)((m.mem)(0)) == word(x + y),
{
    lemma_literals();
    let sp = (m.mem)(0);
    let push_x = push_spec(SegModel::Constant(x));
    let push_y = push_spec(SegModel::Constant(y));
    lemma_push(m, sym, SegModel::Constant(x));
    let m1 = run(m, sym, push_x)->0;
    assert(word(sp + 1) == sp + 1);
    lemma_push(m1, sym, SegModel::Constant(y));
    let m2 = run(m1, sym, push_y)->0;
    assert(word(sp + 2) == sp + 2);
    lemma_run_concat(m, sym, push_x, push_y);
    assert((m2.mem)(0) == sp + 2);
    assert((m2.mem)(sp + 1) == y);
    assert((m2.mem)(sp) == x);
    let take = seq![asg("D"@, "M"@)];
    let combine = seq![asg("M"@, "M+D"@)];
    assert(arithmetic_spec(ArithmeticOp::Add, idx) =~= stack_top_spec() + take + dec_sp_spec() + stack_top_spec()
        + combine);
    lemma_stack_top(m2, sym);
    let m3 = Machine { a: sp + 1, ..m2 };
    lemma_run_concat(m2, sym, stack_top_spec(), take);
    lemma_single_step(m3, sym, asg("D"@, "M"@));
    let m4 = Machine { d: y, ..m3 };
    assert(run(m3, sym, take) == Some(m4));
    lemma_dec_sp(m4, sym);
    let m5 = Machine { a: 0, mem: store(m4.mem, 0, word(sp + 2 - 1)), ..m4 };
    lemma_run_concat(m2, sym, stack_top_spec() + take, dec_sp_spec());
    lemma_stack_top(m5, sym);
    let m6 = Machine { a: word(sp + 1 - 1), ..m5 };
    lemma_run_concat(m2, sym, stack_top_spec() + take + dec_sp_spec(), stack_top_spec());
    lemma_single_step(m6, sym, asg("M"@, "M+D"@));
    assert(run(m6, sym, combine) == Some(Machine { mem: store(m6.mem, sp, word(x + y)), ..m6 }));
    lemma_run_concat(m2, sym, stack_top_spec() + take + dec_sp_spec() + stack_top_spec(), combine);
    lemma_run_concat(m, sym, push_x + push_y, arithmetic_spec(ArithmeticOp::Add, idx));
}

proof fn lemma_push_frame_cell(m: Machine, sym: spec_fn(Seq<char>) -> int, seg: SegModel)
    requires
        standard_symbols(sym),
        16 <= (m.mem)(0) < 32766,
    ensures
        run(m, sym, push_spec(seg)) matches Some(m1) && (m1.mem)(0) == (m.mem)(0) + 1 && (m1.mem)((m.mem)(0))
            == pushed_value(m, sym, seg) && forall|x: int|
            x != 0 && x != (m.mem)(0) ==> #[trigger] (m1.mem)(x) == (m.mem)(x),
{
    lemma_push(m, sym, seg);
    assert(word((m.mem)(0) + 1) == (m.mem)(0) + 1);
}

proof fn lemma_point_frame(m: Machine, sym: spec_fn(Seq<char>) -> int, n: nat)
    requires
        standard_symbols(sym),
        16 <= (m.mem)(0) < 32767,
        n + 5 <= (m.mem)(0),
    ensures
        run(
            m,
            sym,
            seq![
                sp_asm(),
                asg("D"@, "M"@),
                Asm::Const(5 + n as int),
                asg("D"@, "D-A"@),
                Asm::Sym("ARG"@),
                asg("M"@, "D"@),
                sp_asm(),
                asg("D"@, "M"@),
                Asm::Sym("LCL"@),
                asg("M"@, "D"@),
            ],
        ) matches Some(m1) && m1.mem == store(store(m.mem, 2, (m.mem)(0) - 5 - n), 1, (m.mem)(0)),
{
    lemma_literals();
    reveal_with_fuel(run, 11);
    assert(word((m.mem)(0) - (5 + n)) == (m.mem)(0) - 5 - n);
}

/// What a call does before it jumps, from a stack pointer `s`: the return address and the
/// caller's LCL, ARG, THIS and THAT fill cells `s` to `s + 4`, SP is `s + 5`, LCL is `s + 5` and
/// ARG is `s - n`, the first of the `n` arguments; no other cell changes.
pub proof fn call_sets_up_frame(m: Machine, sym: spec_fn(Seq<char>) -> int, ret: Seq<char>, n: nat)
    requires
        standard_symbols(sym),
        16 + n <= (m.mem)(0),
        (m.mem)(0) + 5 < 32767,
    ensures
        run(m, sym, call_setup_spec(ret, n)) matches Some(m1) && {
            let s = (m.mem)(0);
            &&& (m1.mem)(0) == s + 5
            &&& (m1.mem)(1) == s + 5
            &&& (m1.mem)(2) == s - n
            &&& (m1.mem)(s) == sym(ret)
            &&& (m1.mem)(s + 1) == (m.mem)(1)
            &&& (m1.mem)(s + 2) == (m.mem)(2)
            &&& (m1.mem)(s + 3) == (m.mem)(3)
            &&& (m1.mem)(s + 4) == (m.mem)(4)
            &&& forall|x: int| x != 0 && x != 1 && x != 2 && !(s <= x < s + 5) ==> #[trigger] (m1.mem)(x) == (m.mem)(x)
        },
{
    lemma_literals();
    let s = (m.mem)(0);
    let push_ret = push_spec(SegModel::NamedPtr(ret));
    let push_lcl = push_spec(SegModel::Named("LCL"@));
    let push_arg = push_spec(SegModel::Named("ARG"@));
    let push_this = push_spec(SegModel::Named("THIS"@));
    let push_that = push_spec(SegModel::Named("THAT"@));
    let mid = seq![
        sp_asm(),
        asg("D"@, "M"@),
        Asm::Const(5 + n as int),
        asg("D"@, "D-A"@),
        Asm::Sym("ARG"@),
        asg("M"@, "D"@),
        sp_asm(),
        asg("D"@, "M"@),
        Asm::Sym("LCL"@),
        asg("M"@, "D"@),
    ];
    assert(call_setup_spec(ret, n) =~= push_ret + push_lcl + push_arg + push_this + push_that + mid);
    lemma_push_frame_cell(m, sym, SegModel::NamedPtr(ret));
    let m1 = run(m, sym, push_ret)->0;
    lemma_push_frame_cell(m1, sym, SegModel::Named("LCL"@));
    let m2 = run(m1, sym, push_lcl)->0;
    lemma_run_concat(m, sym, push_ret, push_lcl);
    lemma_push_frame_cell(m2, sym, SegModel::Named("ARG"@));
    let m3 = run(m2, sym, push_arg)->0;
    lemma_run_concat(m, sym, push_ret + push_lcl, push_arg);
    lemma_push_frame_cell(m3, sym, SegModel::Named("THIS"@));
    let m4 = run(m3, sym, push_this)->0;
    lemma_run_concat(m, sym, push_ret + push_lcl + push_arg, push_this);
    lemma_push_frame_cell(m4, sym, SegModel::Named("THAT"@));
    let m5 = run(m4, sym, push_that)->0;
    lemma_run_concat(m, sym, push_ret + push_lcl + push_arg + push_this, push_that);
    lemma_point_frame(m5, sym, n);
    lemma_run_concat(m, sym, push_ret + push_lcl + push_arg + push_this + push_that, mid);
}

proof fn lemma_frame_sub(m: Machine, sym: spec_fn(Seq<char>) -> int, dest: Seq<char>, off: int)
    requires
        standard_symbols(sym),
    ensures
        run(m, sym, frame_sub_spec(dest, off)) == Some(
            Machine {
                a: sym(dest),
                d: (m.mem)(word((m.mem)(14) - off)),
                mem: store(m.mem, sym(dest), (m.mem)(word((m.mem)(14) - off))),
            },
        ),
{
    lemma_literals();
    reveal_with_fuel(run, 8);
}

proof fn lemma_save_frame(m: Machine, sym: spec_fn(Seq<char>) -> int)
    requires
        standard_symbols(sym),
    ensures
        run(m, sym, seq![Asm::Sym("LCL"@), asg("D"@, "M"@), Asm::Sym("R14"@), asg("M"@, "D"@)]) == Some(
            Machine { a: 14, d: (m.mem)(1), mem: store(m.mem, 14, (m.mem)(1)) },
        ),
{
    lemma_literals();
    reveal_with_fuel(run, 5);
}

proof fn lemma_reset_sp(m: Machine, sym: spec_fn(Seq<char>) -> int)
    requires
        standard_symbols(sym),
    ensures
        run(m, sym, seq![Asm::Sym("ARG"@), asg("D"@, "M"@), sp_asm(), asg("M"@, "D+1"@)]) == Some(
            Machine { a: 0, d: (m.mem)(2), mem: store(m.mem, 0, word((m.mem)(2) + 1)) },
        ),
{
    lemma_literals();
    reveal_strlit("D+1");
    reveal_with_fuel(run, 5);
}

proof fn lemma_load_return(m: Machine, sym: spec_fn(Seq<char>) -> int)
    requires
        standard_symbols(sym),
    ensures
        run(m, sym, seq![Asm::Sym("R15"@), asg("A"@, "M"@)]) == Some(Machine { a: (m.mem)(15), ..m }),
{
    lemma_literals();
    reveal_with_fuel(run, 3);
}

/// What a return does before it jumps, with LCL at `f` and ARG at `p` below the frame: the value
/// on top of the stack goes to cell `p`, SP becomes `p + 1`, THAT, THIS, ARG and LCL get the
/// values saved at `f - 1` to `f - 4`, and A holds the return address saved at `f - 5`.
#[verifier::rlimit(80)]
pub proof fn return_restores_caller(m: Machine, sym: spec_fn(Seq<char>) -> int)
    requires
        standard_symbols(sym),
        ({
            let f = (m.mem)(1);
            let p = (m.mem)(2);
            let q = (m.mem)(0);
            &&& 16 <= p && p + 5 <= f && f < q && q < 32767
        }),
    ensures
        run(m, sym, return_restore_spec()) matches Some(m1) && {
            let f = (m.mem)(1);
            let p = (m.mem)(2);
            let q = (m.mem)(0);
            &&& (m1.mem)(0) == p + 1
            &&& (m1.mem)(p) == (m.mem)(q - 1)
            &&& (m1.mem)(4) == (m.mem)(f - 1)
            &&& (m1.mem)(3) == (m.mem)(f - 2)
            &&& (m1.mem)(2) == (m.mem)(f - 3)
            &&& (m1.mem)(1) == (m.mem)(f - 4)
            &&& m1.a == (m.mem)(f - 5)
        },
{
    let f = (m.mem)(1);
    let p = (m.mem)(2);
    let q = (m.mem)(0);
    let save = seq![Asm::Sym("LCL"@), asg("D"@, "M"@), Asm::Sym("R14"@), asg("M"@, "D"@)];
    let fs5 = frame_sub_spec("R15"@, 5);
    let pop0 = pop_spec(SegModel::Argument(0));
    let reset = seq![Asm::Sym("ARG"@), asg("D"@, "M"@), sp_asm(), asg("M"@, "D+1"@)];
    let fs1 = frame_sub_spec("THAT"@, 1);
    let fs2 = frame_sub_spec("THIS"@, 2);
    let fs3 = frame_sub_spec("ARG"@, 3);
    let fs4 = frame_sub_spec("LCL"@, 4);
    let load = seq![Asm::Sym("R15"@), asg("A"@, "M"@)];
    assert(return_restore_spec() =~= save + fs5 + pop0 + reset + fs1 + fs2 + fs3 + fs4 + load);
    assert(word(f - 5) == f - 5 && word(f - 4) == f - 4 && word(f - 3) == f - 3);
    assert(word(f - 2) == f - 2 && word(f - 1) == f - 1 && word(p + 1) == p + 1 && word(0 + p) == p);

    lemma_save_frame(m, sym);
    let m1 = run(m, sym, save)->0;
    lemma_frame_sub(m1, sym, "R15"@, 5);
    let m2 = run(m1, sym, fs5)->0;
    lemma_run_concat(m, sym, save, fs5);
    assert((m2.mem)(0) == q && (m2.mem)(2) == p && (m2.mem)(15) == (m.mem)(f - 5));
    assert(eff_addr(m2, sym, SegModel::Argument(0)) == p);
    lemma_pop(m2, sym, SegModel::Argument(0));
    let m3 = run(m2, sym, pop0)->0;
    lemma_run_concat(m, sym, save + fs5, pop0);
    assert((m3.mem)(p) == (m.mem)(q - 1));
    assert((m3.mem)(14) == f && (m3.mem)(2) == p && (m3.mem)(15) == (m.mem)(f - 5));
    lemma_reset_sp(m3, sym);
    let m4 = run(m3, sym, reset)->0;
    lemma_run_concat(m, sym, save + fs5 + pop0, reset);
    lemma_frame_sub(m4, sym, "THAT"@, 1);
    let m5 = run(m4, sym, fs1)->0;
    lemma_run_concat(m, sym, save + fs5 + pop0 + reset, fs1);
    lemma_frame_sub(m5, sym, "THIS"@, 2);
    let m6 = run(m5, sym, fs2)->0;
    lemma_run_concat(m, sym, save + fs5 + pop0 + reset + fs1, fs2);
    lemma_frame_sub(m6, sym, "ARG"@, 3);
    let m7 = run(m6, sym, fs3)->0;
    lemma_run_concat(m, sym, save + fs5 + pop0 + reset + fs1 + fs2, fs3);
    lemma_frame_sub(m7, sym, "LCL"@, 4);
    let m8 = run(m7, sym, fs4)->0;
    lemma_run_concat(m, sym, save + fs5 + pop0 + reset + fs1 + fs2 + fs3, fs4);
    lemma_load_return(m8, sym);
    lemma_run_concat(m, sym, save + fs5 + pop0 + reset + fs1 + fs2 + fs3 + fs4, load);
}

/// A call paired with the return of the function it calls. If the callee leaves LCL, ARG and the
/// frame the call saved as the call set them, and ends with its return value on top of a stack
/// above that frame, then the return leaves SP one cell above where the call's arguments began
/// (the stack as it was before the arguments were pushed, plus the return value), puts the
/// return value in that cell, gives the caller back its LCL, ARG, THIS and THAT, and holds the
/// address of the call's return label in A for its final jump; for any number of arguments.
pub proof fn call_return_depth(
    m: Machine,
    sym: spec_fn(Seq<char>) -> int,
    ret: Seq<char>,
    n: nat,
    callee_end: Machine,
)
    requires
        standard_symbols(sym),
        16 + n <= (m.mem)(0),
        (m.mem)(0) + 5 < 32767,
        ({
            let s = (m.mem)(0);
            let m1 = run(m, sym, call_setup_spec(ret, n))->0;
            &&& (callee_end.mem)(1) == (m1.mem)(1)
            &&& (callee_end.mem)(2) == (m1.mem)(2)
            &&& forall|x: int| s <= x < s + 5 ==> #[trigger] (callee_end.mem)(x) == (m1.mem)(x)
            &&& s + 5 < (callee_end.mem)(0) < 32767
        }),
    ensures
        run(callee_end, sym, return_restore_spec()) matches Some(m3) && {
            let below_args = (m.mem)(0) - n;
            &&& (m3.mem)(0) == below_args + 1
            &&& (m3.mem)(below_args) == (callee_end.mem)((callee_end.mem)(0) - 1)
            &&& (m3.mem)(1) == (m.mem)(1)
            &&& (m3.mem)(2) == (m.mem)(2)
            &&& (m3.mem)(3) == (m.mem)(3)
            &&& (m3.mem)(4) == (m.mem)(4)
            &&& m3.a == sym(ret)
        },
{
    let s = (m.mem)(0);
    call_sets_up_frame(m, sym, ret, n);
    let m1 = run(m, sym, call_setup_spec(ret, n))->0;
    assert((callee_end.mem)(s + 0) == (m1.mem)(s + 0));
    assert((callee_end.mem)(s + 1) == (m1.mem)(s + 1));
    assert((callee_end.mem)(s + 2) == (m1.mem)(s + 2));
    assert((callee_end.mem)(s + 3) == (m1.mem)(s + 3));
    assert((callee_end.mem)(s + 4) == (m1.mem)(s + 4));
    return_restores_caller(callee_end, sym);
}

/// The bootstrap sets the stack pointer to 256, then jumps to `Sys.init`.
pub proof fn bootstrap_sets_stack(m: Machine, sym: spec_fn(Seq<char>) -> int)
    requires
        standard_symbols(sym),
    ensures
        header_spec().len() == 6,
        header_spec()[5] == goto_asm(),
        run(m, sym, header_spec().subrange(0, 5)) matches Some(m1) && (m1.mem)(0) == 256 && m1.a == sym(
            "Sys.init"@,
        ),
{
    lemma_literals();
    assert(header_spec().subrange(0, 5) =~= seq![
        Asm::Const(256),
        asg("D"@, "A"@),
        sp_asm(),
        asg("M"@, "D"@),
        Asm::Sym("Sys.init"@),
    ]);
    reveal_with_fuel(run, 6);
}

} // verus!
