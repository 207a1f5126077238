//! The single forward pass from source bytes to assembly text.
use vstd::prelude::*;
use vstd::string::StringSliceAdditionalSpecFns;

use crate::instr::{decode, decode_byte, Instr};
use crate::listing::{
    emit_all, emit_epilogue, emit_prologue, epilogue, lemma_render_concat, prologue, render,
    Op,
};

verus! {

/// Why a source program has no translation.
#[derive(Clone, Copy, Debug, PartialEq, Eq)]
pub enum GenerateX86Error {
    /// A `]` with no open `[` before it.
    BracketMismatch,
    /// One or more `[` still open at the end of the source.
    UnterminatedLoop,
}

/// State of the pass after a prefix of the source: the next fresh label, the
/// labels of the loops still open (innermost last), and the lines emitted so far.
pub struct Pass {
    pub next: nat,
    pub open: Seq<usize>,
    pub ops: Seq<Op>,
}

/// The lines emitted for an instruction other than a bracket.
pub open spec fn instr_ops(i: Instr) -> Seq<Op> {
    match i {
        Instr::Inc => seq![Op::IncAcc],
        Instr::Dec => seq![Op::DecAcc],
        Instr::Left => seq![Op::StoreAcc, Op::CursorUp, Op::LoadAcc],
        Instr::Right => seq![Op::StoreAcc, Op::CursorDown, Op::LoadAcc],
        Instr::Output => seq![
            Op::StoreAcc,
            Op::CellAddress,
            Op::SaveCursor,
            Op::SysWrite,
            Op::FdStdout,
            Op::OneByte,
            Op::Syscall,
            Op::RestoreCursor,
        ],
        Instr::Input => seq![
            Op::StoreAcc,
            Op::CellAddress,
            Op::SaveCursor,
            Op::SysRead,
            Op::FdStdin,
            Op::OneByte,
            Op::Syscall,
            Op::RestoreCursor,
            Op::LoadAcc,
        ],
        Instr::LoopStart => seq![],
        Instr::LoopEnd => seq![],
    }
}

/// The lines that open loop `k`.
pub open spec fn open_ops(k: usize) -> Seq<Op> {
    seq![Op::Entry(k), Op::TestAcc, Op::SkipIfNonPositive(k)]
}

/// The lines that close loop `k`.
pub open spec fn close_ops(k: usize) -> Seq<Op> {
    seq![Op::JumpEntry(k), Op::Exit(k)]
}

/// One step of the pass on one source byte.
pub open spec fn step(p: Pass, b: u8) -> Result<Pass, GenerateX86Error> {
    match decode(b) {
        None => Ok(p),
        Some(Instr::LoopStart) => Ok(
            Pass {
                next: p.next + 1,
                open: p.open.push(p.next as usize),
                ops: p.ops + open_ops(p.next as usize),
            },
        ),
        Some(Instr::LoopEnd) => if p.open.len() == 0 {
            Err(GenerateX86Error::BracketMismatch)
        } else {
            Ok(
                Pass {
                    next: p.next,
                    open: p.open.drop_last(),
                    ops: p.ops + close_ops(p.open.last()),
                },
            )
        },
        Some(i) => Ok(Pass { next: p.next, open: p.open, ops: p.ops + instr_ops(i) }),
    }
}

/// The pass over a whole source, left to right; the first error stops it.
pub open spec fn pass(src: Seq<u8>) -> Result<Pass, GenerateX86Error>
    decreases src.len(),
{
    if src.len() == 0 {
        Ok(Pass { next: 0, open: Seq::empty(), ops: Seq::empty() })
    } else {
        match pass(src.drop_last()) {
            Ok(p) => step(p, src.last()),
            Err(e) => Err(e),
        }
    }
}

/// The assembly text of a source, or why there is none.
pub open spec fn translation(src: Seq<u8>) -> Result<Seq<char>, GenerateX86Error> {
    match pass(src) {
        Err(e) => Err(e),
        Ok(p) => if p.open.len() > 0 {
            Err(GenerateX86Error::UnterminatedLoop)
        } else {
            Ok(prologue() + render(p.ops) + epilogue())
        },
    }
}

/// Once the pass has failed on a prefix, it fails with the same error on the whole.
pub proof fn lemma_error_persists(src: Seq<u8>, j: int)
    requires
        0 <= j <= src.len(),
        pass(src.take(j)) is Err,
    ensures
        pass(src) == pass(src.take(j)),
    decreases src.len() - j,
{
    if j == src.len() {
        assert(src.take(j) =~= src);
    } else {
        assert(src.take(j + 1).drop_last() =~= src.take(j));
        lemma_error_persists(src, j + 1);
    }
}

fn instr_ops_exec(i: Instr) -> (r: Vec<Op>)
    ensures
        r@ == instr_ops(i),
{
    match i {
        Instr::Inc => vec![Op::IncAcc],
        Instr::Dec => vec![Op::DecAcc],
        Instr::Left => vec![Op::StoreAcc, Op::CursorUp, Op::LoadAcc],
        Instr::Right => vec![Op::StoreAcc, Op::CursorDown, Op::LoadAcc],
        Instr::Output => vec![
            Op::StoreAcc,
            Op::CellAddress,
            Op::SaveCursor,
            Op::SysWrite,
            Op::FdStdout,
            Op::OneByte,
            Op::Syscall,
            Op::RestoreCursor,
        ],
        Instr::Input => vec![
            Op::StoreAcc,
            Op::CellAddress,
            Op::SaveCursor,
            Op::SysRead,
            Op::FdStdin,
            Op::OneByte,
            Op::Syscall,
            Op::RestoreCursor,
            Op::LoadAcc,
        ],
        Instr::LoopStart => vec![],
        Instr::LoopEnd => vec![],
    }
}

/// Translates a source program into x86-64 assembly text for Linux.
/// Bytes other than the eight instructions are ignored. The emitted program
/// does not check the cursor against the tape's bounds: moving it past either
/// end reaches the memory next to the tape.
pub fn generate_x86(src: &str) -> (r: Result<String, GenerateX86Error>)
    ensures
        match translation(src.spec_bytes()) {
            Ok(text) => r is Ok && r->Ok_0@ == text,
            Err(e) => r == Err::<String, GenerateX86Error>(e),
        },
{
    let bytes = src.as_bytes();
    let ghost s = bytes@;
    let mut out = String::new();
    emit_prologue(&mut out);
    let mut next: usize = 0;
    let mut open: Vec<usize> = Vec::new();
    let mut i: usize = 0;
    assert(s.take(0) =~= Seq::<u8>::empty());
    while i < bytes.len()
        invariant
            s == src.spec_bytes(),
            bytes@ == s,
            i <= s.len(),
            pass(s.take(i as int)) is Ok,
            next as nat == pass(s.take(i as int))->Ok_0.next,
            next <= i,
            open@ == pass(s.take(i as int))->Ok_0.open,
            out@ == prologue() + render(pass(s.take(i as int))->Ok_0.ops),
        decreases s.len() - i,
    {
        let ghost p = pass(s.take(i as int))->Ok_0;
        let b = bytes[i];
        assert(s.take(i + 1).drop_last() =~= s.take(i as int));
        assert(s.take(i + 1).last() == b);
        match decode_byte(b) {
            None => {},
            Some(Instr::LoopStart) => {
                proof {
                    lemma_render_concat(p.ops, open_ops(next));
                }
                open.push(next);
                emit_all(&mut out, &vec![Op::Entry(next), Op::TestAcc, Op::SkipIfNonPositive(next)]);
                next = next + 1;
            },
            Some(Instr::LoopEnd) => {
                match open.pop() {
                    None => {
                        proof {
                            lemma_error_persists(s, i + 1);
                        }
                        return Err(GenerateX86Error::BracketMismatch);
                    },
                    Some(k) => {
                        proof {
                            lemma_render_concat(p.ops, close_ops(k));
                        }
                        emit_all(&mut out, &vec![Op::JumpEntry(k), Op::Exit(k)]);
                    },
                }
            },
            Some(ins) => {
                let ops = instr_ops_exec(ins);
                proof {
                    lemma_render_concat(p.ops, ops@);
                }
                emit_all(&mut out, &ops);
            },
        }
        i = i + 1;
    }
    assert(s.take(i as int) =~= s);
    if open.len() > 0 {
        return Err(GenerateX86Error::UnterminatedLoop);
    }
    emit_epilogue(&mut out);
    Ok(out)
}

} // verus!
