use vstd::prelude::*;
use crate::code::{
    arithmetic_spec, asg, call_setup_spec, call_spec, dec_sp_spec, goto_asm, goto_spec, inc_sp_spec, jmp_spec, neg_label,
    pos_label, address_spec, push_spec, pushes_address, return_label, sp_asm, stack_top_spec,
};
use crate::command::{ArithmeticOp, Command, SegModel};
use crate::instruct::Asm;
use crate::text::{lemma_nat_text_injective, nat_text};
use crate::writer::{next_state, translate, WriterState};

verus! {

/// Whether `code` declares the label `l`.
pub open spec fn declares(code: Seq<Asm>, l: Seq<char>) -> bool {
    exists|i: int| 0 <= i < code.len() && code[i] == Asm::Lbl(l)
}

/// Whether `code` declares no label at all.
pub open spec fn no_labels(code: Seq<Asm>) -> bool {
    forall|i: int| 0 <= i < code.len() ==> !(#[trigger] code[i] is Lbl)
}

pub open spec fn is_comparator(op: ArithmeticOp) -> bool {
    op is Equal || op is GreaterThan || op is LessThan
}

proof fn lemma_no_labels_concat(a: Seq<Asm>, b: Seq<Asm>)
    requires
        no_labels(a),
        no_labels(b),
    ensures
        no_labels(a + b),
{
    assert forall|i: int| 0 <= i < (a + b).len() implies !(#[trigger] (a + b)[i] is Lbl) by {
        if i < a.len() {
            assert((a + b)[i] == a[i]);
        } else {
            assert((a + b)[i] == b[i - a.len()]);
        }
    }
}

proof fn lemma_push_no_labels(seg: SegModel)
    ensures
        no_labels(push_spec(seg)),
{
    let tail = seq![
        asg("D"@, if pushes_address(seg) { "A"@ } else { "M"@ }),
        sp_asm(),
        asg("A"@, "M"@),
        asg("M"@, "D"@),
    ];
    assert(no_labels(address_spec(seg)));
    assert(no_labels(tail));
    assert(no_labels(inc_sp_spec()));
    lemma_no_labels_concat(address_spec(seg), tail);
    lemma_no_labels_concat(address_spec(seg) + tail, inc_sp_spec());
}

proof fn lemma_comparator_declares(op: ArithmeticOp, idx: nat, l: Seq<char>)
    requires
        is_comparator(op),
        declares(arithmetic_spec(op, idx), l),
    ensures
        l == pos_label(idx) || l == neg_label(idx),
{
    let jump = if op is Equal {
        "JEQ"@
    } else if op is GreaterThan {
        "JGT"@
    } else {
        "JLT"@
    };
    let prefix = stack_top_spec() + seq![asg("D"@, "M"@)] + dec_sp_spec() + stack_top_spec();
    let head = seq![asg("D"@, "M-D"@), Asm::Sym(pos_label(idx)), jmp_spec("D"@, jump), Asm::Sym(neg_label(idx)),
        asg("D"@, "0"@), goto_asm()];
    let tail = seq![asg("D"@, "-1"@)];
    let end = stack_top_spec() + seq![asg("M"@, "D"@)];
    let code = arithmetic_spec(op, idx);
    assert(code =~= prefix + head + seq![Asm::Lbl(pos_label(idx))] + tail + seq![Asm::Lbl(neg_label(idx))] + end);
    let i = choose|i: int| 0 <= i < code.len() && code[i] == Asm::Lbl(l);
    assert(no_labels(prefix));
    assert(no_labels(head));
    assert(no_labels(end));
    if i < prefix.len() {
        assert(code[i] == prefix[i]);
    } else if i < prefix.len() + 6 {
        assert(code[i] == head[i - prefix.len()]);
    } else if i > prefix.len() + 8 {
        assert(code[i] == end[i - prefix.len() - 9]);
    }
}

proof fn lemma_comparator_labels_distinct(a: nat, b: nat)
    requires
        a != b,
    ensures
        pos_label(a) != pos_label(b),
        neg_label(a) != neg_label(b),
        pos_label(a) != neg_label(b),
        neg_label(a) != pos_label(b),
{
    reveal_strlit("_pos_cond_");
    reveal_strlit("_neg_cond_");
    if pos_label(a) == pos_label(b) {
        assert(pos_label(a).subrange(10, pos_label(a).len() as int) =~= nat_text(a));
        assert(pos_label(b).subrange(10, pos_label(b).len() as int) =~= nat_text(b));
        lemma_nat_text_injective(a, b);
    }
    if neg_label(a) == neg_label(b) {
        assert(neg_label(a).subrange(10, neg_label(a).len() as int) =~= nat_text(a));
        assert(neg_label(b).subrange(10, neg_label(b).len() as int) =~= nat_text(b));
        lemma_nat_text_injective(a, b);
    }
    assert(pos_label(a)[1] != neg_label(b)[1]);
    assert(neg_label(a)[1] != pos_label(b)[1]);
}

/// Two comparison commands written one after the other never declare the same label.
pub proof fn comparator_labels_unique(s: WriterState, op1: ArithmeticOp, op2: ArithmeticOp)
    requires
        is_comparator(op1),
        is_comparator(op2),
    ensures
        forall|l: Seq<char>|
            declares(translate(s, Command::Arithmetic(op1)), l) ==> !declares(
                translate(next_state(s, Command::Arithmetic(op1)), Command::Arithmetic(op2)),
                l,
            ),
{
    let s2 = next_state(s, Command::Arithmetic(op1));
    assert forall|l: Seq<char>|
        declares(translate(s, Command::Arithmetic(op1)), l) implies !declares(
            translate(s2, Command::Arithmetic(op2)),
            l,
        ) by {
        lemma_comparator_declares(op1, s.line_idx, l);
        lemma_comparator_labels_distinct(s.line_idx, s2.line_idx);
        if declares(translate(s2, Command::Arithmetic(op2)), l) {
            lemma_comparator_declares(op2, s2.line_idx, l);
        }
    }
}

/// A call saves its return label's address first and declares that label exactly once,
/// as its last instruction, where the callee's return resumes.
pub proof fn call_return_label_once(callee: Seq<char>, n_args: nat, ret_cnt: nat, caller: Option<Seq<char>>)
    ensures
        ({
            let code = call_spec(callee, n_args, ret_cnt, caller);
            let l = return_label(callee, ret_cnt, caller);
            &&& code[0] == Asm::Sym(l)
            &&& code.last() == Asm::Lbl(l)
            &&& forall|i: int| 0 <= i < code.len() - 1 ==> code[i] != Asm::Lbl(l)
        }),
{
    let l = return_label(callee, ret_cnt, caller);
    let code = call_spec(callee, n_args, ret_cnt, caller);
    let mid = seq![
        sp_asm(),
        asg("D"@, "M"@),
        Asm::Const(5 + n_args as int),
        asg("D"@, "D-A"@),
        Asm::Sym("ARG"@),
        asg("M"@, "D"@),
        sp_asm(),
        asg("D"@, "M"@),
        Asm::Sym("LCL"@),
        asg("M"@, "D"@),
    ];
    let pushes = push_spec(SegModel::NamedPtr(l)) + push_spec(SegModel::Named("LCL"@)) + push_spec(
        SegModel::Named("ARG"@),
    ) + push_spec(SegModel::Named("THIS"@)) + push_spec(SegModel::Named("THAT"@));
    let body = pushes + mid + goto_spec(callee, None);
    assert(call_setup_spec(l, n_args) =~= pushes + mid);
    assert(code =~= body + seq![Asm::Lbl(l)]);
    lemma_push_no_labels(SegModel::NamedPtr(l));
    lemma_push_no_labels(SegModel::Named("LCL"@));
    lemma_push_no_labels(SegModel::Named("ARG"@));
    lemma_push_no_labels(SegModel::Named("THIS"@));
    lemma_push_no_labels(SegModel::Named("THAT"@));
    lemma_no_labels_concat(push_spec(SegModel::NamedPtr(l)), push_spec(SegModel::Named("LCL"@)));
    lemma_no_labels_concat(
        push_spec(SegModel::NamedPtr(l)) + push_spec(SegModel::Named("LCL"@)),
        push_spec(SegModel::Named("ARG"@)),
    );
    lemma_no_labels_concat(
        push_spec(SegModel::NamedPtr(l)) + push_spec(SegModel::Named("LCL"@)) + push_spec(SegModel::Named("ARG"@)),
        push_spec(SegModel::Named("THIS"@)),
    );
    lemma_no_labels_concat(
        push_spec(SegModel::NamedPtr(l)) + push_spec(SegModel::Named("LCL"@)) + push_spec(SegModel::Named("ARG"@))
            + push_spec(SegModel::Named("THIS"@)),
        push_spec(SegModel::Named("THAT"@)),
    );
    assert(no_labels(mid));
    assert(no_labels(goto_spec(callee, None)));
    lemma_no_labels_concat(pushes, mid);
    lemma_no_labels_concat(pushes + mid, goto_spec(callee, None));
    assert forall|i: int| 0 <= i < code.len() - 1 implies code[i] != Asm::Lbl(l) by {
        assert(code[i] == body[i]);
    }
    assert(code[0] == push_spec(SegModel::NamedPtr(l))[0]);
}

/// Two calls made from the same function, with different return counters, resume at different
/// labels, whatever they call.
pub proof fn return_labels_distinct(caller: Seq<char>, callee1: Seq<char>, k1: nat, callee2: Seq<char>, k2: nat)
    requires
        k1 != k2,
    ensures
        return_label(callee1, k1, Some(caller)) != return_label(callee2, k2, Some(caller)),
{
    reveal_strlit("$ret.");
    let l1 = return_label(callee1, k1, Some(caller));
    let l2 = return_label(callee2, k2, Some(caller));
    let n = caller.len() + 5;
    if l1 == l2 {
        assert(l1.subrange(n as int, l1.len() as int) =~= nat_text(k1));
        assert(l2.subrange(n as int, l2.len() as int) =~= nat_text(k2));
        lemma_nat_text_injective(k1, k2);
    }
}

/// Within one function, each call the writer translates advances the return counter, so the
/// next call from that function uses a larger one.
pub proof fn calls_advance_return_counter(s: WriterState, cmd: Command)
    requires
        cmd is Call,
    ensures
        next_state(s, cmd).ret_count == s.ret_count + 1,
        next_state(s, cmd).cur_func == s.cur_func,
{
}

} // verus!
