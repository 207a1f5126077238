//! What the emitted straight-line code does to the machine, and the laws that
//! follow for the cursor and the accumulator.
use vstd::prelude::*;

use crate::instr::{decode, Instr};
use crate::listing::Op;
use crate::translate::{instr_ops, pass, Pass};

verus! {

/// The machine state that the emitted lines act on. Addresses are offsets
/// from `rbp`. `rsi` holds an address; `slot` is the qword at `[rbp - 8]`,
/// kept apart from the tape cells, which lie at `rax - 9` and below while the
/// cursor does not move left of its start.
pub struct Machine {
    pub rax: int,
    pub rsi: int,
    pub rdi: int,
    pub rdx: int,
    pub bl: u8,
    pub slot: int,
    pub mem: Map<int, u8>,
    pub input: Seq<u8>,
    pub output: Seq<u8>,
}

/// The byte at address `a`; the tape starts zeroed.
pub open spec fn byte_at(mem: Map<int, u8>, a: int) -> u8 {
    if mem.dom().contains(a) {
        mem[a]
    } else {
        0
    }
}

/// The effect of the system call selected by `rax`, `rdi` and `rdx`: a one-byte
/// write to standard output, or a one-byte read from standard input that
/// leaves the cell unchanged at end of input. `rax` receives the byte count.
pub open spec fn syscall(m: Machine) -> Machine {
    if m.rax == 1 && m.rdi == 1 && m.rdx == 1 {
        Machine { rax: 1, output: m.output.push(byte_at(m.mem, m.rsi)), ..m }
    } else if m.rax == 0 && m.rdi == 0 && m.rdx == 1 {
        if m.input.len() > 0 {
            Machine {
                rax: 1,
                mem: m.mem.insert(m.rsi, m.input[0]),
                input: m.input.drop_first(),
                ..m
            }
        } else {
            Machine { rax: 0, ..m }
        }
    } else {
        m
    }
}

/// The effect of one line. Labels, the comparison and the jumps leave the
/// state as it is: this model is for code without branches.
pub open spec fn exec_op(op: Op, m: Machine) -> Machine {
    match op {
        Op::IncAcc => Machine { bl: ((m.bl + 1) % 256) as u8, ..m },
        Op::DecAcc => Machine { bl: ((m.bl + 255) % 256) as u8, ..m },
        Op::StoreAcc => Machine { mem: m.mem.insert(m.rax - 9, m.bl), ..m },
        Op::LoadAcc => Machine { bl: byte_at(m.mem, m.rax - 9), ..m },
        Op::CursorUp => Machine { rax: m.rax + 1, ..m },
        Op::CursorDown => Machine { rax: m.rax - 1, ..m },
        Op::CellAddress => Machine { rsi: m.rax - 9, ..m },
        Op::SaveCursor => Machine { slot: m.rax, ..m },
        Op::RestoreCursor => Machine { rax: m.slot, ..m },
        Op::SysWrite => Machine { rax: 1, ..m },
        Op::SysRead => Machine { rax: 0, ..m },
        Op::FdStdout => Machine { rdi: 1, ..m },
        Op::FdStdin => Machine { rdi: 0, ..m },
        Op::OneByte => Machine { rdx: 1, ..m },
        Op::Syscall => syscall(m),
        _ => m,
    }
}

/// The effect of a sequence of lines, first to last.
pub open spec fn exec_ops(ops: Seq<Op>, m: Machine) -> Machine
    decreases ops.len(),
{
    if ops.len() == 0 {
        m
    } else {
        exec_op(ops.last(), exec_ops(ops.drop_last(), m))
    }
}

/// Whether `s` holds no bracket.
pub open spec fn bracket_free(s: Seq<u8>) -> bool {
    forall|j: int| 0 <= j < s.len() ==> decode(#[trigger] s[j]) != Some(Instr::LoopStart)
        && decode(s[j]) != Some(Instr::LoopEnd)
}

/// The lines that a bracket-free source emits.
pub open spec fn straight_ops(s: Seq<u8>) -> Seq<Op>
    decreases s.len(),
{
    if s.len() == 0 {
        Seq::empty()
    } else {
        straight_ops(s.drop_last()) + match decode(s.last()) {
            Some(i) => instr_ops(i),
            None => Seq::empty(),
        }
    }
}

/// Running `a` then `b` is running `a + b`.
pub proof fn lemma_exec_concat(a: Seq<Op>, b: Seq<Op>, m: Machine)
    ensures
        exec_ops(a + b, m) == exec_ops(b, exec_ops(a, m)),
    decreases b.len(),
{
    if b.len() == 0 {
        assert(a + b =~= a);
    } else {
        lemma_exec_concat(a, b.drop_last(), m);
        assert((a + b).drop_last() =~= a + b.drop_last());
    }
}

/// The lines of `a + b` are those of `a` followed by those of `b`.
pub proof fn lemma_straight_concat(a: Seq<u8>, b: Seq<u8>)
    ensures
        straight_ops(a + b) == straight_ops(a) + straight_ops(b),
    decreases b.len(),
{
    if b.len() == 0 {
        assert(a + b =~= a);
        assert(straight_ops(a) + straight_ops(b) =~= straight_ops(a));
    } else {
        lemma_straight_concat(a, b.drop_last());
        assert((a + b).drop_last() =~= a + b.drop_last());
        assert((a + b).last() == b.last());
        assert(straight_ops(a + b) =~= straight_ops(a) + straight_ops(b));
    }
}

/// After a prefix that the pass accepts, a bracket-free source is accepted too,
/// leaves labels and open loops alone, and appends its straight-line lines.
pub proof fn lemma_pass_straight(prefix: Seq<u8>, s: Seq<u8>)
    requires
        pass(prefix) is Ok,
        bracket_free(s),
    ensures
        pass(prefix + s) == Ok::<Pass, crate::translate::GenerateX86Error>(
            Pass {
                next: pass(prefix)->Ok_0.next,
                open: pass(prefix)->Ok_0.open,
                ops: pass(prefix)->Ok_0.ops + straight_ops(s),
            },
        ),
    decreases s.len(),
{
    let p = pass(prefix)->Ok_0;
    if s.len() == 0 {
        assert(prefix + s =~= prefix);
        assert(p.ops + straight_ops(s) =~= p.ops);
    } else {
        let t = s.drop_last();
        assert forall|j: int| 0 <= j < t.len() implies decode(#[trigger] t[j]) != Some(
            Instr::LoopStart,
        ) && decode(t[j]) != Some(Instr::LoopEnd) by {
            assert(t[j] == s[j]);
        }
        lemma_pass_straight(prefix, t);
        assert((prefix + s).drop_last() =~= prefix + t);
        assert((prefix + s).last() == s[s.len() - 1]);
        assert(p.ops + straight_ops(t) + match decode(s.last()) {
            Some(i) => instr_ops(i),
            None => Seq::empty(),
        } =~= p.ops + straight_ops(s));
    }
}

/// Whether every byte of `s` is `+` or `-`.
pub open spec fn acc_only(s: Seq<u8>) -> bool {
    forall|j: int| 0 <= j < s.len() ==> #[trigger] s[j] == 43u8 || s[j] == 45u8
}

proof fn lemma_single(b: u8)
    ensures
        straight_ops(seq![b]) == match decode(b) {
            Some(i) => instr_ops(i),
            None => Seq::<Op>::empty(),
        },
{
    assert(seq![b].drop_last() =~= Seq::<u8>::empty());
    assert(seq![b].last() == b);
    assert(straight_ops(Seq::<u8>::empty()) == Seq::<Op>::empty());
    let tail = match decode(b) {
        Some(i) => instr_ops(i),
        None => Seq::<Op>::empty(),
    };
    assert(Seq::<Op>::empty() + tail =~= tail);
    assert(straight_ops(seq![b]) =~= match decode(b) {
        Some(i) => instr_ops(i),
        None => Seq::<Op>::empty(),
    });
}

proof fn lemma_move_right(m: Machine)
    ensures
        exec_ops(straight_ops(seq![62u8]), m) == (Machine {
            rax: m.rax - 1,
            bl: byte_at(m.mem.insert(m.rax - 9, m.bl), m.rax - 10),
            mem: m.mem.insert(m.rax - 9, m.bl),
            ..m
        }),
{
    lemma_single(62u8);
    reveal_with_fuel(exec_ops, 4);
    assert(instr_ops(Instr::Right).drop_last().drop_last().drop_last() =~= Seq::<Op>::empty());
    assert(instr_ops(Instr::Right).drop_last().drop_last() =~= seq![Op::StoreAcc]);
    assert(instr_ops(Instr::Right).drop_last() =~= seq![Op::StoreAcc, Op::CursorDown]);
}

proof fn lemma_move_left(m: Machine)
    ensures
        exec_ops(straight_ops(seq![60u8]), m) == (Machine {
            rax: m.rax + 1,
            bl: byte_at(m.mem.insert(m.rax - 9, m.bl), m.rax - 8),
            mem: m.mem.insert(m.rax - 9, m.bl),
            ..m
        }),
{
    lemma_single(60u8);
    reveal_with_fuel(exec_ops, 4);
    assert(instr_ops(Instr::Left).drop_last().drop_last().drop_last() =~= Seq::<Op>::empty());
    assert(instr_ops(Instr::Left).drop_last().drop_last() =~= seq![Op::StoreAcc]);
    assert(instr_ops(Instr::Left).drop_last() =~= seq![Op::StoreAcc, Op::CursorUp]);
}

/// `+` and `-` change the accumulator and nothing else.
proof fn lemma_acc_only(x: Seq<u8>, m: Machine)
    requires
        acc_only(x),
    ensures
        exec_ops(straight_ops(x), m) == (Machine { bl: exec_ops(straight_ops(x), m).bl, ..m }),
    decreases x.len(),
{
    if x.len() > 0 {
        let t = x.drop_last();
        assert forall|j: int| 0 <= j < t.len() implies #[trigger] t[j] == 43u8 || t[j] == 45u8 by {
            assert(t[j] == x[j]);
        }
        lemma_acc_only(t, m);
        assert(x.last() == x[x.len() - 1]);
        lemma_exec_concat(straight_ops(t), instr_ops(decode(x.last())->Some_0), m);
        reveal_with_fuel(exec_ops, 2);
        assert(instr_ops(decode(x.last())->Some_0).drop_last() =~= Seq::<Op>::empty());
    }
}

/// Moving three cells with `>>>`, changing only the cell reached there with
/// `+` and `-`, and coming back with `<<<` restores the cursor and the
/// accumulator, leaves the two cells passed over as they were, and leaves the
/// last accumulator value in the far cell. After any prefix that the pass
/// accepts, such a fragment is accepted and emits exactly these lines.
pub proof fn round_trip_restores_cursor(prefix: Seq<u8>, x: Seq<u8>, m: Machine)
    requires
        pass(prefix) is Ok,
        acc_only(x),
    ensures
        ({
            let frag = seq![62u8, 62u8, 62u8] + x + seq![60u8, 60u8, 60u8];
            &&& pass(prefix + frag) is Ok
            &&& pass(prefix + frag)->Ok_0.ops == pass(prefix)->Ok_0.ops + straight_ops(frag)
            &&& pass(prefix + frag)->Ok_0.open == pass(prefix)->Ok_0.open
        }),
        ({
            let frag = seq![62u8, 62u8, 62u8] + x + seq![60u8, 60u8, 60u8];
            let before_back = exec_ops(straight_ops(seq![62u8, 62u8, 62u8] + x), m);
            let after = exec_ops(straight_ops(frag), m);
            &&& after.rax == m.rax
            &&& after.bl == m.bl
            &&& byte_at(after.mem, m.rax - 9) == m.bl
            &&& byte_at(after.mem, m.rax - 10) == byte_at(m.mem, m.rax - 10)
            &&& byte_at(after.mem, m.rax - 11) == byte_at(m.mem, m.rax - 11)
            &&& byte_at(after.mem, m.rax - 12) == before_back.bl
            &&& after.output == m.output
            &&& after.input == m.input
        }),
{
    let r = seq![62u8];
    let l = seq![60u8];
    let r3 = seq![62u8, 62u8, 62u8];
    let l3 = seq![60u8, 60u8, 60u8];
    let frag = r3 + x + l3;
    assert(r3 =~= r + r + r);
    assert(l3 =~= l + l + l);
    assert forall|j: int| 0 <= j < frag.len() implies decode(#[trigger] frag[j]) != Some(
        Instr::LoopStart,
    ) && decode(frag[j]) != Some(Instr::LoopEnd) by {
        if j >= 3 && j < 3 + x.len() {
            assert(frag[j] == x[j - 3]);
        }
    }
    lemma_pass_straight(prefix, frag);

    lemma_straight_concat(r, r);
    lemma_straight_concat(r + r, r);
    lemma_straight_concat(l, l);
    lemma_straight_concat(l + l, l);
    lemma_straight_concat(r3, x);
    lemma_straight_concat(r3 + x, l3);

    let m1 = exec_ops(straight_ops(r), m);
    let m2 = exec_ops(straight_ops(r), m1);
    let m3 = exec_ops(straight_ops(r), m2);
    let m4 = exec_ops(straight_ops(x), m3);
    let m5 = exec_ops(straight_ops(l), m4);
    let m6 = exec_ops(straight_ops(l), m5);
    let m7 = exec_ops(straight_ops(l), m6);
    lemma_exec_concat(straight_ops(r), straight_ops(r), m);
    lemma_exec_concat(straight_ops(r + r), straight_ops(r), m);
    lemma_exec_concat(straight_ops(r3), straight_ops(x), m);
    lemma_exec_concat(straight_ops(l), straight_ops(l), m4);
    lemma_exec_concat(straight_ops(l + l), straight_ops(l), m4);
    lemma_exec_concat(straight_ops(r3 + x), straight_ops(l3), m);
    assert(exec_ops(straight_ops(r3 + x), m) == m4);
    assert(exec_ops(straight_ops(frag), m) == m7);

    lemma_move_right(m);
    lemma_move_right(m1);
    lemma_move_right(m2);
    lemma_acc_only(x, m3);
    lemma_move_left(m4);
    lemma_move_left(m5);
    lemma_move_left(m6);
}

} // verus!
