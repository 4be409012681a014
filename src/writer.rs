use vstd::prelude::*;
use crate::code::{
    arithmetic, arithmetic_spec, assembly_footer, assembly_header, call_spec, emit_call, emit_func,
    emit_goto, emit_if_goto, emit_label, emit_return, footer_spec, func_spec, goto_spec, header_spec,
    if_goto_spec, pop, pop_spec, push, push_spec, return_spec, scoped, segment_ok,
};
use crate::command::Command;
use crate::instruct::{instruct_lines, lines, models, opt_view, Asm, Instruction};

verus! {

/// What the translator remembers between commands.
pub ghost struct WriterState {
    /// One more for every arithmetic command written, never reset; makes comparator labels unique
    /// over the whole output.
    pub line_idx: nat,
    /// Calls made so far from the active function; makes its return labels unique.
    pub ret_count: nat,
    /// The function whose body is being translated, if any.
    pub cur_func: Option<Seq<char>>,
}

/// The code a command stands for in state `s`.
pub open spec fn translate(s: WriterState, cmd: Command) -> Seq<Asm> {
    match cmd {
        Command::Push(seg) => push_spec(seg@),
        Command::Pop(seg) => pop_spec(seg@),
        Command::Arithmetic(op) => arithmetic_spec(op, s.line_idx),
        Command::Label(l) => seq![Asm::Lbl(scoped(l@, s.cur_func))],
        Command::Goto(l) => goto_spec(l@, s.cur_func),
        Command::IfGoto(l) => if_goto_spec(l@, s.cur_func),
        Command::Call(f, n) => call_spec(f@, n as nat, s.ret_count, s.cur_func),
        Command::Function(f, n) => func_spec(f@, n as nat),
        Command::Return => return_spec(),
    }
}

/// The state after translating `cmd` in state `s`.
pub open spec fn next_state(s: WriterState, cmd: Command) -> WriterState {
    match cmd {
        Command::Arithmetic(_) => WriterState { line_idx: s.line_idx + 1, ..s },
        Command::Call(_, _) => WriterState { ret_count: s.ret_count + 1, ..s },
        Command::Function(f, _) => WriterState { ret_count: 0, cur_func: Some(f@), ..s },
        _ => s,
    }
}

/// A call's argument count must leave room for the five saved cells in one address literal, and a
/// pointer segment is selected by 0 or 1.
pub open spec fn command_fits(cmd: Command) -> bool {
    match cmd {
        Command::Call(_, n) => n + 5 <= i16::MAX,
        Command::Push(seg) => segment_ok(seg@),
        Command::Pop(seg) => segment_ok(seg@),
        _ => true,
    }
}

/// Translates stack-machine commands into Hack assembly, one after another.
///
/// The code produced is kept until `take_output` hands it out as text.
pub struct CodeWriter {
    pending: Vec<Instruction>,
    cur_line_idx: usize,
    cur_ret_count: usize,
    cur_func: Option<String>,
}

impl CodeWriter {
    pub closed spec fn state(&self) -> WriterState {
        WriterState {
            line_idx: self.cur_line_idx as nat,
            ret_count: self.cur_ret_count as nat,
            cur_func: opt_view(self.cur_func),
        }
    }

    /// The code produced and not yet taken.
    pub closed spec fn pending(&self) -> Seq<Asm> {
        models(self.pending@)
    }

    /// A writer with no function active; unless `no_sys_init`, its code starts with the bootstrap
    /// that sets the stack pointer to 256 and jumps to `Sys.init`.
    pub fn new(no_sys_init: bool) -> (r: CodeWriter)
        ensures
            r.state() == (WriterState { line_idx: 0, ret_count: 0, cur_func: None }),
            r.pending() == if no_sys_init {
                Seq::<Asm>::empty()
            } else {
                header_spec()
            },
    {
        let pending = if no_sys_init {
            Vec::new()
        } else {
            assembly_header()
        };
        let r = CodeWriter { pending, cur_line_idx: 0, cur_ret_count: 0, cur_func: None };
        assert(no_sys_init ==> r.pending() =~= Seq::<Asm>::empty());
        r
    }

    /// Translates one command and appends its code.
    pub fn write(&mut self, cmd: &Command)
        requires
            command_fits(*cmd),
            old(self).state().line_idx < usize::MAX,
            old(self).state().ret_count < usize::MAX,
        ensures
            final(self).pending() == old(self).pending() + translate(old(self).state(), *cmd),
            final(self).state() == next_state(old(self).state(), *cmd),
    {
        let output = match cmd {
            Command::Push(seg) => push(seg),
            Command::Pop(seg) => pop(seg),
            Command::Arithmetic(op) => {
                let out = arithmetic(*op, self.cur_line_idx);
                self.cur_line_idx = self.cur_line_idx + 1;
                out
            },
            Command::Label(l) => {
                let i = emit_label(l.as_str(), &self.cur_func);
                let v = vec![i];
                assert(models(v@) =~= seq![i@]);
                v
            },
            Command::Goto(l) => emit_goto(l.as_str(), &self.cur_func),
            Command::IfGoto(l) => emit_if_goto(l.as_str(), &self.cur_func),
            Command::Call(f, n_args) => {
                let out = emit_call(f.as_str(), *n_args, self.cur_ret_count, &self.cur_func);
                self.cur_ret_count = self.cur_ret_count + 1;
                out
            },
            Command::Function(f, n_locals) => {
                self.cur_func = Some(f.clone());
                self.cur_ret_count = 0;
                emit_func(f.as_str(), *n_locals)
            },
            Command::Return => emit_return(),
        };
        let ghost before = self.pending@;
        let ghost out = output@;
        let mut output = output;
        self.pending.append(&mut output);
        assert(models(self.pending@) =~= models(before) + models(out));
    }

    /// Starts a new source unit: no function is active and the return counter restarts.
    /// The comparator counter goes on.
    pub fn on_new_file(&mut self)
        ensures
            final(self).pending() == old(self).pending(),
            final(self).state() == (WriterState {
                line_idx: old(self).state().line_idx,
                ret_count: 0,
                cur_func: None,
            }),
    {
        self.cur_func = None;
        self.cur_ret_count = 0;
    }

    /// Ends the output with the infinite loop that keeps the program from running off its end.
    pub fn close(&mut self)
        ensures
            final(self).pending() == old(self).pending() + footer_spec(),
            final(self).state() == old(self).state(),
    {
        let ghost before = self.pending@;
        let mut end_loop = assembly_footer();
        let ghost tail = end_loop@;
        self.pending.append(&mut end_loop);
        assert(models(self.pending@) =~= models(before) + models(tail));
    }

    /// The text of the code produced since the last call, one instruction per line.
    pub fn take_output(&mut self) -> (r: String)
        ensures
            r@ == lines(old(self).pending()),
            final(self).pending() == Seq::<Asm>::empty(),
            final(self).state() == old(self).state(),
    {
        let r = instruct_lines(&self.pending);
        self.pending = Vec::new();
        assert(self.pending() =~= Seq::<Asm>::empty());
        r
    }
}

} // verus!
