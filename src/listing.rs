//! The assembly lines that the translation emits, and their text.
use vstd::prelude::*;

use crate::decimal::{decimal, push_decimal};

verus! {

/// Size in bytes of the zero-initialised tape reserved on the stack.
/// It is a multiple of 16, the chunk that the zeroing loop clears at a time.
pub const TAPE_BYTES: usize = 320;

/// One emitted line. Register roles: `rax` holds the cursor, `bl` the
/// accumulator (the cached value of the current cell), and the cell under the
/// cursor lives at `[rbp + rax - 9]`; `[rbp - 8]` is the slot that keeps the
/// cursor across a system call.
#[derive(Clone, Copy, Debug, PartialEq, Eq)]
pub enum Op {
    /// `inc bl`
    IncAcc,
    /// `dec bl`
    DecAcc,
    /// `mov byte [rbp + rax - 9], bl`: flush the accumulator to the tape.
    StoreAcc,
    /// `mov bl, byte [rbp + rax - 9]`: reload the accumulator from the tape.
    LoadAcc,
    /// `inc rax`: the cursor step of `<`.
    CursorUp,
    /// `dec rax`: the cursor step of `>`.
    CursorDown,
    /// `lea rsi, [rbp + rax - 9]`: address of the current cell.
    CellAddress,
    /// `mov qword [rbp - 8], rax`
    SaveCursor,
    /// `mov rax, qword [rbp - 8]`
    RestoreCursor,
    /// `mov rax, 1`: the write system call.
    SysWrite,
    /// `mov rax, 0`: the read system call.
    SysRead,
    /// `mov rdi, 1`
    FdStdout,
    /// `mov rdi, 0`
    FdStdin,
    /// `mov rdx, 1`: transfer one byte.
    OneByte,
    /// `syscall`
    Syscall,
    /// `entry_k:`
    Entry(usize),
    /// `cmp bl, 0`
    TestAcc,
    /// `jle exit_k`: leave the loop when the accumulator, read as signed, is not positive.
    SkipIfNonPositive(usize),
    /// `jmp entry_k`
    JumpEntry(usize),
    /// `exit_k:`
    Exit(usize),
}

/// The text of one line, newline included.
pub open spec fn line(op: Op) -> Seq<char> {
    match op {
        Op::IncAcc => "    inc bl\n"@,
        Op::DecAcc => "    dec bl\n"@,
        Op::StoreAcc => "    mov byte [rbp + rax - 9], bl\n"@,
        Op::LoadAcc => "    mov bl, byte [rbp + rax - 9]\n"@,
        Op::CursorUp => "    inc rax\n"@,
        Op::CursorDown => "    dec rax\n"@,
        Op::CellAddress => "    lea rsi, [rbp + rax - 9]\n"@,
        Op::SaveCursor => "    mov qword [rbp - 8], rax\n"@,
        Op::RestoreCursor => "    mov rax, qword [rbp - 8]\n"@,
        Op::SysWrite => "    mov rax, 1\n"@,
        Op::SysRead => "    mov rax, 0\n"@,
        Op::FdStdout => "    mov rdi, 1\n"@,
        Op::FdStdin => "    mov rdi, 0\n"@,
        Op::OneByte => "    mov rdx, 1\n"@,
        Op::Syscall => "    syscall\n"@,
        Op::Entry(k) => "entry_"@ + decimal(k as nat) + ":\n"@,
        Op::TestAcc => "    cmp bl, 0\n"@,
        Op::SkipIfNonPositive(k) => "    jle exit_"@ + decimal(k as nat) + "\n"@,
        Op::JumpEntry(k) => "    jmp entry_"@ + decimal(k as nat) + "\n"@,
        Op::Exit(k) => "exit_"@ + decimal(k as nat) + ":\n"@,
    }
}

/// The text of a sequence of lines.
pub open spec fn render(ops: Seq<Op>) -> Seq<char>
    decreases ops.len(),
{
    if ops.len() == 0 {
        Seq::empty()
    } else {
        render(ops.drop_last()) + line(ops.last())
    }
}

/// The text before the first instruction: entry point, stack frame, a tape of
/// `TAPE_BYTES` bytes zeroed 16 bytes at a time, cursor and accumulator at 0.
pub open spec fn prologue() -> Seq<char> {
    "global _start\n_start:\n    mov rbp, rsp\n    sub rsp, "@ + decimal(TAPE_BYTES as nat)
        + "\n    pxor xmm0, xmm0\n    mov rax, -16\ninit_zero_loop:\n    movdqa [rbp + rax], xmm0\n    sub rax, 16\n    cmp rax, -"@
        + decimal(TAPE_BYTES as nat)
        + "\n    jge init_zero_loop\n    mov rax, 0\n    mov rbx, 0\n"@
}

/// The text after the last instruction: the exit system call.
pub open spec fn epilogue() -> Seq<char> {
    "    mov rax, 60\n    syscall\n"@
}

/// Text of `a + b` is the text of `a` followed by that of `b`.
pub proof fn lemma_render_concat(a: Seq<Op>, b: Seq<Op>)
    ensures
        render(a + b) == render(a) + render(b),
    decreases b.len(),
{
    if b.len() == 0 {
        assert(a + b =~= a);
    } else {
        lemma_render_concat(a, b.drop_last());
        assert((a + b).drop_last() =~= a + b.drop_last());
    }
}

/// Appends the text of one line.
pub fn emit(out: &mut String, op: Op)
    ensures
        final(out)@ == old(out)@ + line(op),
{
    match op {
        Op::IncAcc => out.append("    inc bl\n"),
        Op::DecAcc => out.append("    dec bl\n"),
        Op::StoreAcc => out.append("    mov byte [rbp + rax - 9], bl\n"),
        Op::LoadAcc => out.append("    mov bl, byte [rbp + rax - 9]\n"),
        Op::CursorUp => out.append("    inc rax\n"),
        Op::CursorDown => out.append("    dec rax\n"),
        Op::CellAddress => out.append("    lea rsi, [rbp + rax - 9]\n"),
        Op::SaveCursor => out.append("    mov qword [rbp - 8], rax\n"),
        Op::RestoreCursor => out.append("    mov rax, qword [rbp - 8]\n"),
        Op::SysWrite => out.append("    mov rax, 1\n"),
        Op::SysRead => out.append("    mov rax, 0\n"),
        Op::FdStdout => out.append("    mov rdi, 1\n"),
        Op::FdStdin => out.append("    mov rdi, 0\n"),
        Op::OneByte => out.append("    mov rdx, 1\n"),
        Op::Syscall => out.append("    syscall\n"),
        Op::Entry(k) => {
            out.append("entry_");
            push_decimal(out, k);
            out.append(":\n");
        },
        Op::TestAcc => out.append("    cmp bl, 0\n"),
        Op::SkipIfNonPositive(k) => {
            out.append("    jle exit_");
            push_decimal(out, k);
            out.append("\n");
        },
        Op::JumpEntry(k) => {
            out.append("    jmp entry_");
            push_decimal(out, k);
            out.append("\n");
        },
        Op::Exit(k) => {
            out.append("exit_");
            push_decimal(out, k);
            out.append(":\n");
        },
    }
}

/// Appends the text of a sequence of lines.
pub fn emit_all(out: &mut String, ops: &Vec<Op>)
    ensures
        final(out)@ == old(out)@ + render(ops@),
{
    let ghost start = out@;
    let mut k: usize = 0;
    while k < ops.len()
        invariant
            k <= ops@.len(),
            out@ == start + render(ops@.take(k as int)),
        decreases ops@.len() - k,
    {
        let op = ops[k];
        emit(out, op);
        assert(ops@.take(k as int + 1).drop_last() =~= ops@.take(k as int));
        k = k + 1;
    }
    assert(ops@.take(k as int) =~= ops@);
}

/// Appends the prologue.
pub fn emit_prologue(out: &mut String)
    ensures
        final(out)@ == old(out)@ + prologue(),
{
    out.append("global _start\n_start:\n    mov rbp, rsp\n    sub rsp, ");
    push_decimal(out, TAPE_BYTES);
    out.append(
        "\n    pxor xmm0, xmm0\n    mov rax, -16\ninit_zero_loop:\n    movdqa [rbp + rax], xmm0\n    sub rax, 16\n    cmp rax, -",
    );
    push_decimal(out, TAPE_BYTES);
    out.append("\n    jge init_zero_loop\n    mov rax, 0\n    mov rbx, 0\n");
}

/// Appends the epilogue.
pub fn emit_epilogue(out: &mut String)
    ensures
        final(out)@ == old(out)@ + epilogue(),
{
    out.append("    mov rax, 60\n    syscall\n");
}

} // verus!
