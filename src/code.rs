use vstd::prelude::*;
use vstd::string::StringExecFns;
use crate::command::{ArithmeticOp, Command, SegModel, Segment};
use crate::instruct::{models, Asm, Instruction};
use crate::text::{append_int, append_nat, int_text, nat_text};

verus! {

// ---------------------------------------------------------------------------
// The instruction sequences each command stands for.
// ---------------------------------------------------------------------------

/// `dest=comp`.
pub open spec fn asg(dest: Seq<char>, comp: Seq<char>) -> Asm {
    Asm::Comp(Some(dest), comp, None)
}

/// `comp;jump`.
pub open spec fn jmp_spec(comp: Seq<char>, jump: Seq<char>) -> Asm {
    Asm::Comp(None, comp, Some(jump))
}

/// `0;JMP`: an unconditional jump to the address register.
pub open spec fn goto_asm() -> Asm {
    jmp_spec("0"@, "JMP"@)
}

/// `@SP`.
pub open spec fn sp_asm() -> Asm {
    Asm::Sym("SP"@)
}

/// `offset` into D, then the base symbol, then the effective address into A by `comp`.
pub open spec fn offset_spec(base: Seq<char>, offset: int, comp: Seq<char>) -> Seq<Asm> {
    seq![Asm::Const(offset), asg("D"@, "A"@), Asm::Sym(base), asg("A"@, comp)]
}

/// The symbol of a pointer cell: `THIS` for 0, `THAT` for 1.
pub open spec fn pointer_symbol(v: int) -> Seq<char> {
    if v == 0 {
        "THIS"@
    } else {
        "THAT"@
    }
}

/// A pointer segment is selected by 0 or 1; every other segment is valid as it stands.
pub open spec fn segment_ok(seg: SegModel) -> bool {
    seg matches SegModel::Pointer(v) ==> v == 0 || v == 1
}

/// The symbol of a static cell: the unit's name, a dot, the offset.
pub open spec fn static_symbol(unit: Seq<char>, offset: int) -> Seq<char> {
    unit + seq!['.'] + int_text(offset)
}

/// Instructions that leave the segment cell's address (or the constant) in A.
pub open spec fn address_spec(seg: SegModel) -> Seq<Asm> {
    match seg {
        SegModel::Argument(o) => offset_spec("ARG"@, o, "D+M"@),
        SegModel::Local(o) => offset_spec("LCL"@, o, "D+M"@),
        SegModel::This(o) => offset_spec("THIS"@, o, "D+M"@),
        SegModel::That(o) => offset_spec("THAT"@, o, "D+M"@),
        SegModel::Static(unit, o) => seq![Asm::Sym(static_symbol(unit, o))],
        SegModel::Temp(o) => offset_spec("R5"@, o, "D+A"@),
        SegModel::Pointer(v) => seq![Asm::Sym(pointer_symbol(v))],
        SegModel::Constant(v) => seq![Asm::Const(v)],
        SegModel::Named(n) => seq![Asm::Sym(n)],
        SegModel::NamedPtr(n) => seq![Asm::Sym(n)],
    }
}

/// Segments whose pushed value is the address itself rather than the cell it selects.
pub open spec fn pushes_address(seg: SegModel) -> bool {
    seg is Constant || seg is NamedPtr
}

/// `@SP`, `A=M`, `A=A-1`: A at the top cell of the stack.
pub open spec fn stack_top_spec() -> Seq<Asm> {
    seq![sp_asm(), asg("A"@, "M"@), asg("A"@, "A-1"@)]
}

/// `@SP`, `M=M+1`.
pub open spec fn inc_sp_spec() -> Seq<Asm> {
    seq![sp_asm(), asg("M"@, "M+1"@)]
}

/// `@SP`, `M=M-1`.
pub open spec fn dec_sp_spec() -> Seq<Asm> {
    seq![sp_asm(), asg("M"@, "M-1"@)]
}

/// The value of the segment cell (or the address itself) into D, stored at the stack top, SP one up.
pub open spec fn push_spec(seg: SegModel) -> Seq<Asm> {
    address_spec(seg) + seq![
        asg("D"@, if pushes_address(seg) { "A"@ } else { "M"@ }),
        sp_asm(),
        asg("A"@, "M"@),
        asg("M"@, "D"@),
    ] + inc_sp_spec()
}

/// The cell's address kept in R13, the top value read into D and written there, R13 cleared, SP one down.
pub open spec fn pop_spec(seg: SegModel) -> Seq<Asm> {
    address_spec(seg) + seq![asg("D"@, "A"@), Asm::Sym("R13"@), asg("M"@, "D"@)]
        + stack_top_spec() + seq![
        asg("D"@, "M"@),
        Asm::Sym("R13"@),
        asg("A"@, "M"@),
        asg("M"@, "D"@),
        Asm::Sym("R13"@),
        asg("M"@, "0"@),
    ] + dec_sp_spec()
}

/// The bootstrap: SP = 256, then a jump to `Sys.init`.
pub open spec fn header_spec() -> Seq<Asm> {
    seq![Asm::Const(256), asg("D"@, "A"@), sp_asm(), asg("M"@, "D"@), Asm::Sym("Sys.init"@), goto_asm()]
}

/// The label of the loop that ends every output.
pub open spec fn end_label() -> Seq<char> {
    "VM_TRANSLATOR_END_LOOP"@
}

/// The infinite loop the output ends with.
pub open spec fn footer_spec() -> Seq<Asm> {
    seq![Asm::Lbl(end_label()), Asm::Sym(end_label()), goto_asm()]
}

/// The two labels of the comparator with index `idx`.
pub open spec fn pos_label(idx: nat) -> Seq<char> {
    "_pos_cond_"@ + nat_text(idx)
}

pub open spec fn neg_label(idx: nat) -> Seq<char> {
    "_neg_cond_"@ + nat_text(idx)
}

/// `D = second - top`, then D = -1 where `jump` holds of it and 0 where not, stored at the top.
pub open spec fn comparator_spec(jump: Seq<char>, idx: nat) -> Seq<Asm> {
    seq![
        asg("D"@, "M-D"@),
        Asm::Sym(pos_label(idx)),
        jmp_spec("D"@, jump),
        Asm::Sym(neg_label(idx)),
        asg("D"@, "0"@),
        goto_asm(),
        Asm::Lbl(pos_label(idx)),
        asg("D"@, "-1"@),
        Asm::Lbl(neg_label(idx)),
    ] + stack_top_spec() + seq![asg("M"@, "D"@)]
}

/// The part of a binary operation that combines D (the old top) with M (the new top).
pub open spec fn binary_op_spec(op: ArithmeticOp, idx: nat) -> Seq<Asm> {
    match op {
        ArithmeticOp::Add => seq![asg("M"@, "M+D"@)],
        ArithmeticOp::Subtract => seq![asg("M"@, "M-D"@)],
        ArithmeticOp::And => seq![asg("M"@, "M&D"@)],
        ArithmeticOp::Or => seq![asg("M"@, "M|D"@)],
        ArithmeticOp::Equal => comparator_spec("JEQ"@, idx),
        ArithmeticOp::GreaterThan => comparator_spec("JGT"@, idx),
        ArithmeticOp::LessThan => comparator_spec("JLT"@, idx),
        _ => Seq::empty(),
    }
}

/// A binary operation: the top into D, SP one down, then the new top combined with D in place.
pub open spec fn binary_spec(op: ArithmeticOp, idx: nat) -> Seq<Asm> {
    stack_top_spec() + seq![asg("D"@, "M"@)] + dec_sp_spec() + stack_top_spec() + binary_op_spec(op, idx)
}

/// A unary operation on the top cell, in place.
pub open spec fn unary_spec(op: ArithmeticOp) -> Seq<Asm> {
    stack_top_spec() + seq![
        asg(
            "M"@,
            match op {
                ArithmeticOp::Negate => "-M"@,
                ArithmeticOp::Not => "!M"@,
                _ => "M"@,
            },
        ),
    ]
}

pub open spec fn is_unary(op: ArithmeticOp) -> bool {
    op is Negate || op is Not
}

/// The code of an arithmetic or logic command; `idx` keys the comparator labels.
pub open spec fn arithmetic_spec(op: ArithmeticOp, idx: nat) -> Seq<Asm> {
    if is_unary(op) {
        unary_spec(op)
    } else {
        binary_spec(op, idx)
    }
}

/// A label as seen inside the active function: `func$label`, or the bare label at top level.
pub open spec fn scoped(label: Seq<char>, func: Option<Seq<char>>) -> Seq<char> {
    match func {
        Some(f) => f + seq!['$'] + label,
        None => label,
    }
}

/// An unconditional jump to a scoped label.
pub open spec fn goto_spec(label: Seq<char>, func: Option<Seq<char>>) -> Seq<Asm> {
    seq![Asm::Sym(scoped(label, func)), goto_asm()]
}

/// The top popped into D, then a jump to the scoped label where D is not zero.
pub open spec fn if_goto_spec(label: Seq<char>, func: Option<Seq<char>>) -> Seq<Asm> {
    stack_top_spec() + seq![asg("D"@, "M"@)] + dec_sp_spec() + seq![
        Asm::Sym(scoped(label, func)),
        jmp_spec("D"@, "JNE"@),
    ]
}

/// `n` pushes of the constant 0.
pub open spec fn zero_locals_spec(n: nat) -> Seq<Asm>
    decreases n,
{
    if n == 0 {
        Seq::empty()
    } else {
        zero_locals_spec((n - 1) as nat) + push_spec(SegModel::Constant(0))
    }
}

/// A function's entry label, then its locals pushed as zeros.
pub open spec fn func_spec(name: Seq<char>, n_locals: nat) -> Seq<Asm> {
    seq![Asm::Lbl(name)] + zero_locals_spec(n_locals)
}

/// The label a call resumes at: the caller's name (the callee's at top level), `$ret.`, the counter.
pub open spec fn return_label(callee: Seq<char>, ret_cnt: nat, caller: Option<Seq<char>>) -> Seq<char> {
    let owner = match caller {
        Some(c) => c,
        None => callee,
    };
    owner + "$ret."@ + nat_text(ret_cnt)
}

/// Everything a call does before it jumps: push the return address and the caller's LCL, ARG,
/// THIS and THAT, then point ARG at the arguments and LCL at the top of the stack.
pub open spec fn call_setup_spec(ret: Seq<char>, n_args: nat) -> Seq<Asm> {
    push_spec(SegModel::NamedPtr(ret)) + push_spec(SegModel::Named("LCL"@)) + push_spec(
        SegModel::Named("ARG"@),
    ) + push_spec(SegModel::Named("THIS"@)) + push_spec(SegModel::Named("THAT"@)) + seq![
        sp_asm(),
        asg("D"@, "M"@),
        Asm::Const(5 + n_args as int),
        asg("D"@, "D-A"@),
        Asm::Sym("ARG"@),
        asg("M"@, "D"@),
        sp_asm(),
        asg("D"@, "M"@),
        Asm::Sym("LCL"@),
        asg("M"@, "D"@),
    ]
}

/// A call: the frame set up, a jump to the callee, and the return label declared after it.
pub open spec fn call_spec(callee: Seq<char>, n_args: nat, ret_cnt: nat, caller: Option<Seq<char>>) -> Seq<Asm> {
    let ret = return_label(callee, ret_cnt, caller);
    call_setup_spec(ret, n_args) + goto_spec(callee, None) + seq![Asm::Lbl(ret)]
}

/// `dest = *(R14 - offset)`.
pub open spec fn frame_sub_spec(dest: Seq<char>, offset: int) -> Seq<Asm> {
    seq![
        Asm::Sym("R14"@),
        asg("D"@, "M"@),
        Asm::Const(offset),
        asg("A"@, "D-A"@),
        asg("D"@, "M"@),
        Asm::Sym(dest),
        asg("M"@, "D"@),
    ]
}

/// Everything a return does before it jumps back: keep the frame pointer in R14 and the return
/// address in R15, move the return value to the caller's ARG 0, set SP just past it, restore the
/// caller's THAT, THIS, ARG and LCL from the frame, and load the return address into A.
pub open spec fn return_restore_spec() -> Seq<Asm> {
    seq![Asm::Sym("LCL"@), asg("D"@, "M"@), Asm::Sym("R14"@), asg("M"@, "D"@)]
        + frame_sub_spec("R15"@, 5) + pop_spec(SegModel::Argument(0)) + seq![
        Asm::Sym("ARG"@),
        asg("D"@, "M"@),
        sp_asm(),
        asg("M"@, "D+1"@),
    ] + frame_sub_spec("THAT"@, 1) + frame_sub_spec("THIS"@, 2) + frame_sub_spec("ARG"@, 3)
        + frame_sub_spec("LCL"@, 4) + seq![Asm::Sym("R15"@), asg("A"@, "M"@)]
}

/// A return: the caller restored, then a jump to the saved return address.
pub open spec fn return_spec() -> Seq<Asm> {
    return_restore_spec() + seq![goto_asm()]
}

// ---------------------------------------------------------------------------
// Single instructions.
// ---------------------------------------------------------------------------

fn a_const(val: i16) -> (r: Instruction)
    ensures
        r@ == Asm::Const(val as int),
{
    Instruction::AConst(val)
}

fn a_sym(sym: &str) -> (r: Instruction)
    ensures
        r@ == Asm::Sym(sym@),
{
    Instruction::ASymbolic(String::from_str(sym))
}

fn addr_assign(lhs: &str, rhs: &str) -> (r: Instruction)
    ensures
        r@ == asg(lhs@, rhs@),
{
    Instruction::C(Some(String::from_str(lhs)), String::from_str(rhs), None)
}

fn jmp(comp: &str, jump: &str) -> (r: Instruction)
    ensures
        r@ == jmp_spec(comp@, jump@),
{
    Instruction::C(None, String::from_str(comp), Some(String::from_str(jump)))
}

fn jmp_no_cond() -> (r: Instruction)
    ensures
        r@ == goto_asm(),
{
    jmp("0", "JMP")
}

fn label(name: &str) -> (r: Instruction)
    ensures
        r@ == Asm::Lbl(name@),
{
    Instruction::Label(String::from_str(name))
}

fn sp() -> (r: Instruction)
    ensures
        r@ == sp_asm(),
{
    a_sym("SP")
}

// ---------------------------------------------------------------------------
// Segments and the stack.
// ---------------------------------------------------------------------------

fn segment_offset_template(base_reg: &str, offset: i16, comp: &str) -> (r: Vec<Instruction>)
    ensures
        models(r@) == offset_spec(base_reg@, offset as int, comp@),
{
    let r = vec![a_const(offset), addr_assign("D", "A"), a_sym(base_reg), addr_assign("A", comp)];
    assert(models(r@) =~= offset_spec(base_reg@, offset as int, comp@));
    r
}

/// The cell `offset` past a fixed base address.
fn segment_with_offset(base_reg: &str, offset: i16) -> (r: Vec<Instruction>)
    ensures
        models(r@) == offset_spec(base_reg@, offset as int, "D+A"@),
{
    segment_offset_template(base_reg, offset, "D+A")
}

/// The cell `offset` past the address held in a base pointer cell.
fn segment_with_offset_ptr(base_reg: &str, offset: i16) -> (r: Vec<Instruction>)
    ensures
        models(r@) == offset_spec(base_reg@, offset as int, "D+M"@),
{
    segment_offset_template(base_reg, offset, "D+M")
}

fn single(i: Instruction) -> (r: Vec<Instruction>)
    ensures
        models(r@) == seq![i@],
{
    let r = vec![i];
    assert(models(r@) =~= seq![i@]);
    r
}

/// Instructions that leave the segment cell's address (or the constant) in A.
pub fn segment_to_hack(segment: &Segment) -> (r: Vec<Instruction>)
    requires
        segment_ok(segment@),
    ensures
        models(r@) == address_spec(segment@),
{
    match segment {
        Segment::Argument(offset) => {
            let r = segment_with_offset_ptr("ARG", *offset);
            assert(segment@ == SegModel::Argument(*offset as int));
            r
        },
        Segment::Local(offset) => segment_with_offset_ptr("LCL", *offset),
        Segment::This(offset) => segment_with_offset_ptr("THIS", *offset),
        Segment::That(offset) => segment_with_offset_ptr("THAT", *offset),
        Segment::Static(unit, offset) => {
            let mut name = unit.clone();
            name.append(".");
            append_int(&mut name, *offset);
            proof {
                reveal_strlit(".");
            }
            assert(name@ =~= static_symbol(unit@, *offset as int));
            single(Instruction::ASymbolic(name))
        },
        Segment::Temp(offset) => segment_with_offset("R5", *offset),
        Segment::Pointer(val) => {
            let sym = if *val == 0 {
                "THIS"
            } else {
                "THAT"
            };
            assert(sym@ == pointer_symbol(*val as int));
            single(a_sym(sym))
        },
        Segment::Constant(val) => {
            let r = single(a_const(*val));
            assert(models(r@) == address_spec(segment@));
            r
        },
        Segment::Named(name) => single(a_sym(name.as_str())),
        Segment::NamedPtr(name) => single(a_sym(name.as_str())),
    }
}

/// The bootstrap that starts every output unless it is switched off.
pub fn assembly_header() -> (r: Vec<Instruction>)
    ensures
        models(r@) == header_spec(),
{
    let r = vec![a_const(256), addr_assign("D", "A"), sp(), addr_assign("M", "D"), a_sym("Sys.init"), jmp_no_cond()];
    assert(models(r@) =~= header_spec());
    r
}

/// The infinite loop that ends every output.
pub fn assembly_footer() -> (r: Vec<Instruction>)
    ensures
        models(r@) == footer_spec(),
{
    let r = vec![label("VM_TRANSLATOR_END_LOOP"), a_sym("VM_TRANSLATOR_END_LOOP"), jmp_no_cond()];
    assert(models(r@) =~= footer_spec());
    r
}

fn stack_top() -> (r: Vec<Instruction>)
    ensures
        models(r@) == stack_top_spec(),
{
    let r = vec![sp(), addr_assign("A", "M"), addr_assign("A", "A-1")];
    assert(models(r@) =~= stack_top_spec());
    r
}

fn inc_stack_ptr() -> (r: Vec<Instruction>)
    ensures
        models(r@) == inc_sp_spec(),
{
    let r = vec![sp(), addr_assign("M", "M+1")];
    assert(models(r@) =~= inc_sp_spec());
    r
}

fn dec_stack_ptr() -> (r: Vec<Instruction>)
    ensures
        models(r@) == dec_sp_spec(),
{
    let r = vec![sp(), addr_assign("M", "M-1")];
    assert(models(r@) =~= dec_sp_spec());
    r
}

/// Appends `tail` to `head`, keeping the models in order.
fn extend(head: &mut Vec<Instruction>, tail: Vec<Instruction>)
    ensures
        models(final(head)@) == models(old(head)@) + models(tail@),
{
    let ghost t = tail@;
    let mut tail = tail;
    head.append(&mut tail);
    assert(models(final(head)@) =~= models(old(head)@) + models(t));
}

fn put(head: &mut Vec<Instruction>, i: Instruction)
    ensures
        models(final(head)@) == models(old(head)@) + seq![i@],
{
    head.push(i);
    assert(models(final(head)@) =~= models(old(head)@) + seq![i@]);
}

/// The code of `push segment`.
pub fn push(segment: &Segment) -> (r: Vec<Instruction>)
    requires
        segment_ok(segment@),
    ensures
        models(r@) == push_spec(segment@),
{
    let mut instructs = segment_to_hack(segment);
    let load = match segment {
        Segment::Constant(_) | Segment::NamedPtr(_) => addr_assign("D", "A"),
        _ => addr_assign("D", "M"),
    };
    put(&mut instructs, load);
    put(&mut instructs, sp());
    put(&mut instructs, addr_assign("A", "M"));
    put(&mut instructs, addr_assign("M", "D"));
    extend(&mut instructs, inc_stack_ptr());
    assert(models(instructs@) =~= push_spec(segment@));
    instructs
}

/// The code of `pop segment`.
pub fn pop(segment: &Segment) -> (r: Vec<Instruction>)
    requires
        segment_ok(segment@),
    ensures
        models(r@) == pop_spec(segment@),
{
    let mut instructs = segment_to_hack(segment);
    put(&mut instructs, addr_assign("D", "A"));
    put(&mut instructs, a_sym("R13"));
    put(&mut instructs, addr_assign("M", "D"));
    extend(&mut instructs, stack_top());
    put(&mut instructs, addr_assign("D", "M"));
    put(&mut instructs, a_sym("R13"));
    put(&mut instructs, addr_assign("A", "M"));
    put(&mut instructs, addr_assign("M", "D"));
    put(&mut instructs, a_sym("R13"));
    put(&mut instructs, addr_assign("M", "0"));
    extend(&mut instructs, dec_stack_ptr());
    assert(models(instructs@) =~= pop_spec(segment@));
    instructs
}

fn comparator_template(jump: &str, line_idx: usize) -> (r: Vec<Instruction>)
    ensures
        models(r@) == comparator_spec(jump@, line_idx as nat),
{
    let mut pos_cond = String::from_str("_pos_cond_");
    append_nat(&mut pos_cond, line_idx as u64);
    let mut neg_cond = String::from_str("_neg_cond_");
    append_nat(&mut neg_cond, line_idx as u64);
    let mut instructs = vec![
        addr_assign("D", "M-D"),
        a_sym(pos_cond.as_str()),
        jmp("D", jump),
        a_sym(neg_cond.as_str()),
        addr_assign("D", "0"),
        jmp_no_cond(),
        label(pos_cond.as_str()),
        addr_assign("D", "-1"),
        label(neg_cond.as_str()),
    ];
    extend(&mut instructs, stack_top());
    put(&mut instructs, addr_assign("M", "D"));
    assert(models(instructs@) =~= comparator_spec(jump@, line_idx as nat));
    instructs
}

fn arithmetic_two_stack_val(op: ArithmeticOp, line_idx: usize) -> (r: Vec<Instruction>)
    ensures
        models(r@) == binary_spec(op, line_idx as nat),
{
    let op_part = match op {
        ArithmeticOp::Add => single(addr_assign("M", "M+D")),
        ArithmeticOp::Subtract => single(addr_assign("M", "M-D")),
        ArithmeticOp::And => single(addr_assign("M", "M&D")),
        ArithmeticOp::Or => single(addr_assign("M", "M|D")),
        ArithmeticOp::Equal => comparator_template("JEQ", line_idx),
        ArithmeticOp::GreaterThan => comparator_template("JGT", line_idx),
        ArithmeticOp::LessThan => comparator_template("JLT", line_idx),
        _ => Vec::new(),
    };
    assert(models(op_part@) =~= binary_op_spec(op, line_idx as nat));
    let mut instructs = stack_top();
    put(&mut instructs, addr_assign("D", "M"));
    extend(&mut instructs, dec_stack_ptr());
    extend(&mut instructs, stack_top());
    extend(&mut instructs, op_part);
    assert(models(instructs@) =~= binary_spec(op, line_idx as nat));
    instructs
}

fn arithmetic_one_stack_val(op: ArithmeticOp) -> (r: Vec<Instruction>)
    ensures
        models(r@) == unary_spec(op),
{
    let op_part = match op {
        ArithmeticOp::Negate => addr_assign("M", "-M"),
        ArithmeticOp::Not => addr_assign("M", "!M"),
        _ => addr_assign("M", "M"),
    };
    let mut instructs = stack_top();
    put(&mut instructs, op_part);
    assert(models(instructs@) =~= unary_spec(op));
    instructs
}

/// The code of an arithmetic or logic command; `line_idx` makes comparator labels unique.
pub fn arithmetic(op: ArithmeticOp, line_idx: usize) -> (r: Vec<Instruction>)
    ensures
        models(r@) == arithmetic_spec(op, line_idx as nat),
{
    match op {
        ArithmeticOp::Negate | ArithmeticOp::Not => arithmetic_one_stack_val(op),
        _ => arithmetic_two_stack_val(op, line_idx),
    }
}

// ---------------------------------------------------------------------------
// Control flow and the calling convention.
// ---------------------------------------------------------------------------

fn scoped_label(base_label: &str, func: &Option<String>) -> (r: String)
    ensures
        r@ == scoped(base_label@, crate::instruct::opt_view(*func)),
{
    match func {
        Some(f) => {
            let mut r = f.clone();
            r.append("$");
            r.append(base_label);
            proof {
                reveal_strlit("$");
            }
            assert(r@ =~= scoped(base_label@, crate::instruct::opt_view(*func)));
            r
        },
        None => String::from_str(base_label),
    }
}

/// A label declaration, scoped to the active function.
pub fn emit_label(base_label: &str, func: &Option<String>) -> (r: Instruction)
    ensures
        r@ == Asm::Lbl(scoped(base_label@, crate::instruct::opt_view(*func))),
{
    let lbl = scoped_label(base_label, func);
    Instruction::Label(lbl)
}

/// An unconditional jump to a label scoped to the active function.
pub fn emit_goto(base_label: &str, func: &Option<String>) -> (r: Vec<Instruction>)
    ensures
        models(r@) == goto_spec(base_label@, crate::instruct::opt_view(*func)),
{
    let lbl = scoped_label(base_label, func);
    let r = vec![Instruction::ASymbolic(lbl), jmp_no_cond()];
    assert(models(r@) =~= goto_spec(base_label@, crate::instruct::opt_view(*func)));
    r
}

/// Pops the top and jumps to a label scoped to the active function where it is not zero.
pub fn emit_if_goto(base_label: &str, cur_func: &Option<String>) -> (r: Vec<Instruction>)
    ensures
        models(r@) == if_goto_spec(base_label@, crate::instruct::opt_view(*cur_func)),
{
    let lbl = scoped_label(base_label, cur_func);
    let mut instructs = stack_top();
    put(&mut instructs, addr_assign("D", "M"));
    extend(&mut instructs, dec_stack_ptr());
    put(&mut instructs, Instruction::ASymbolic(lbl));
    put(&mut instructs, jmp("D", "JNE"));
    assert(models(instructs@) =~= if_goto_spec(base_label@, crate::instruct::opt_view(*cur_func)));
    instructs
}

/// A function's entry label, then `n_locals` zeros pushed to make its local segment.
pub fn emit_func(func: &str, n_locals: usize) -> (r: Vec<Instruction>)
    ensures
        models(r@) == func_spec(func@, n_locals as nat),
{
    let mut instructs = single(label(func));
    let mut i: usize = 0;
    while i < n_locals
        invariant
            i <= n_locals,
            models(instructs@) == func_spec(func@, i as nat),
        decreases n_locals - i,
    {
        let zero = Segment::Constant(0);
        let p = push(&zero);
        extend(&mut instructs, p);
        i = i + 1;
        assert(func_spec(func@, i as nat) =~= func_spec(func@, (i - 1) as nat) + push_spec(SegModel::Constant(0)));
    }
    instructs
}

fn return_label_text(func: &str, ret_cnt: usize, parent_func: &Option<String>) -> (r: String)
    ensures
        r@ == return_label(func@, ret_cnt as nat, crate::instruct::opt_view(*parent_func)),
{
    let mut lbl = match parent_func {
        Some(p) => p.clone(),
        None => String::from_str(func),
    };
    lbl.append("$ret.");
    append_nat(&mut lbl, ret_cnt as u64);
    proof {
        reveal_strlit("$ret.");
    }
    assert(lbl@ =~= return_label(func@, ret_cnt as nat, crate::instruct::opt_view(*parent_func)));
    lbl
}

fn push_named(name: &str) -> (r: Vec<Instruction>)
    ensures
        models(r@) == push_spec(SegModel::Named(name@)),
{
    let seg = Segment::Named(String::from_str(name));
    push(&seg)
}

/// Saves the caller's frame, repositions ARG and LCL, jumps to `func`, and declares the return label.
pub fn emit_call(func: &str, n_args: usize, ret_cnt: usize, parent_func: &Option<String>) -> (r: Vec<Instruction>)
    requires
        n_args + 5 <= i16::MAX,
    ensures
        models(r@) == call_spec(func@, n_args as nat, ret_cnt as nat, crate::instruct::opt_view(*parent_func)),
{
    let lbl = return_label_text(func, ret_cnt, parent_func);
    let ret_seg = Segment::NamedPtr(lbl.clone());
    let mut instructs = push(&ret_seg);
    extend(&mut instructs, push_named("LCL"));
    extend(&mut instructs, push_named("ARG"));
    extend(&mut instructs, push_named("THIS"));
    extend(&mut instructs, push_named("THAT"));
    // ARG = SP - 5 - n_args
    put(&mut instructs, sp());
    put(&mut instructs, addr_assign("D", "M"));
    put(&mut instructs, a_const((5 + n_args) as i16));
    put(&mut instructs, addr_assign("D", "D-A"));
    put(&mut instructs, a_sym("ARG"));
    put(&mut instructs, addr_assign("M", "D"));
    // LCL = SP
    put(&mut instructs, sp());
    put(&mut instructs, addr_assign("D", "M"));
    put(&mut instructs, a_sym("LCL"));
    put(&mut instructs, addr_assign("M", "D"));
    extend(&mut instructs, emit_goto(func, &None));
    put(&mut instructs, Instruction::Label(lbl));
    assert(models(instructs@) =~= call_spec(
        func@,
        n_args as nat,
        ret_cnt as nat,
        crate::instruct::opt_view(*parent_func),
    ));
    instructs
}

fn frame_sub(dest: &str, offset: i16) -> (r: Vec<Instruction>)
    ensures
        models(r@) == frame_sub_spec(dest@, offset as int),
{
    let r = vec![
        a_sym("R14"),
        addr_assign("D", "M"),
        a_const(offset),
        addr_assign("A", "D-A"),
        addr_assign("D", "M"),
        a_sym(dest),
        addr_assign("M", "D"),
    ];
    assert(models(r@) =~= frame_sub_spec(dest@, offset as int));
    r
}

/// Restores the caller's frame, leaves the return value in place of the arguments, and jumps back.
pub fn emit_return() -> (r: Vec<Instruction>)
    ensures
        models(r@) == return_spec(),
{
    let mut instructs = vec![a_sym("LCL"), addr_assign("D", "M"), a_sym("R14"), addr_assign("M", "D")];
    // return address = *(frame - 5)
    extend(&mut instructs, frame_sub("R15", 5));
    // *ARG = pop()
    let arg0 = Segment::Argument(0);
    extend(&mut instructs, pop(&arg0));
    // SP = ARG + 1
    put(&mut instructs, a_sym("ARG"));
    put(&mut instructs, addr_assign("D", "M"));
    put(&mut instructs, sp());
    put(&mut instructs, addr_assign("M", "D+1"));
    extend(&mut instructs, frame_sub("THAT", 1));
    extend(&mut instructs, frame_sub("THIS", 2));
    extend(&mut instructs, frame_sub("ARG", 3));
    extend(&mut instructs, frame_sub("LCL", 4));
    // goto return address
    put(&mut instructs, a_sym("R15"));
    put(&mut instructs, addr_assign("A", "M"));
    put(&mut instructs, jmp_no_cond());
    assert(models(instructs@) =~= return_spec());
    instructs
}

} // verus!
