//! The meaning of a loop-free source on its own tape, and the proof that the
//! emitted code computes it.
use vstd::prelude::*;

use crate::instr::{decode, Instr};
use crate::listing::Op;
use crate::listing::{epilogue, prologue, render};
use crate::machine::{
    bracket_free, byte_at, exec_ops, lemma_exec_concat, lemma_pass_straight, straight_ops, Machine,
};
use crate::translate::{instr_ops, pass, translation, GenerateX86Error};

verus! {

/// The state of a source program: the selected cell, the cells (absent ones
/// hold zero), the input not yet read and the output written so far.
pub struct Tape {
    pub head: int,
    pub cells: Map<int, u8>,
    pub input: Seq<u8>,
    pub output: Seq<u8>,
}

/// The value of cell `a`.
pub open spec fn cell(t: Tape, a: int) -> u8 {
    byte_at(t.cells, a)
}

/// One instruction other than a bracket, with 8-bit wraparound; `,` at the end
/// of input leaves the cell as it is.
pub open spec fn run_instr(i: Instr, t: Tape) -> Tape {
    match i {
        Instr::Inc => Tape { cells: t.cells.insert(t.head, ((cell(t, t.head) + 1) % 256) as u8), ..t },
        Instr::Dec => Tape {
            cells: t.cells.insert(t.head, ((cell(t, t.head) + 255) % 256) as u8),
            ..t
        },
        Instr::Left => Tape { head: t.head - 1, ..t },
        Instr::Right => Tape { head: t.head + 1, ..t },
        Instr::Output => Tape { output: t.output.push(cell(t, t.head)), ..t },
        Instr::Input => if t.input.len() > 0 {
            Tape { cells: t.cells.insert(t.head, t.input[0]), input: t.input.drop_first(), ..t }
        } else {
            t
        },
        _ => t,
    }
}

/// A loop-free source run from `t`, first byte to last; comments do nothing.
pub open spec fn run_source(s: Seq<u8>, t: Tape) -> Tape
    decreases s.len(),
{
    if s.len() == 0 {
        t
    } else {
        let u = run_source(s.drop_last(), t);
        match decode(s.last()) {
            Some(i) => run_instr(i, u),
            None => u,
        }
    }
}

/// How the machine holds a tape: `rax` is the negated head, `bl` the value
/// of the current cell, every other cell `a` sits at address `-a - 9`, and the
/// streams agree.
pub open spec fn holds(m: Machine, t: Tape) -> bool {
    &&& m.rax == -t.head
    &&& m.bl == cell(t, t.head)
    &&& forall|a: int| a != t.head ==> #[trigger] byte_at(m.mem, -a - 9) == cell(t, a)
    &&& m.input == t.input
    &&& m.output == t.output
}

proof fn lemma_instr_holds(i: Instr, m: Machine, t: Tape)
    requires
        holds(m, t),
        i != Instr::LoopStart,
        i != Instr::LoopEnd,
    ensures
        holds(exec_ops(instr_ops(i), m), run_instr(i, t)),
{
    reveal_with_fuel(exec_ops, 10);
    let ops = instr_ops(i);
    let m1 = exec_ops(instr_ops(i), m);
    let u = run_instr(i, t);
    match i {
        Instr::Inc => {
            assert(ops.drop_last() =~= Seq::<Op>::empty());
            assert(m1.bl == cell(u, u.head));
        },
        Instr::Dec => {
            assert(ops.drop_last() =~= Seq::<Op>::empty());
            assert(m1.bl == cell(u, u.head));
        },
        Instr::Left | Instr::Right => {
            assert(ops.drop_last().drop_last().drop_last() =~= Seq::<Op>::empty());
            assert(ops.drop_last().drop_last() =~= seq![Op::StoreAcc]);
            assert(ops.drop_last() =~= seq![ops[0], ops[1]]);
            let stored = m.mem.insert(m.rax - 9, m.bl);
            assert(m1.mem == stored);
            assert forall|a: int| a != u.head implies #[trigger] byte_at(m1.mem, -a - 9) == cell(
                u,
                a,
            ) by {
                if a != t.head {
                    assert(byte_at(m.mem, -a - 9) == cell(t, a));
                }
            }
            assert(byte_at(m.mem, -u.head - 9) == cell(t, u.head));
        },
        Instr::Output => {
            assert(ops.drop_last() =~= ops.take(7));
            assert(ops.take(7).drop_last() =~= ops.take(6));
            assert(ops.take(6).drop_last() =~= ops.take(5));
            assert(ops.take(5).drop_last() =~= ops.take(4));
            assert(ops.take(4).drop_last() =~= ops.take(3));
            assert(ops.take(3).drop_last() =~= ops.take(2));
            assert(ops.take(2).drop_last() =~= ops.take(1));
            assert(ops.take(1).drop_last() =~= Seq::<Op>::empty());
            assert forall|a: int| a != u.head implies #[trigger] byte_at(m1.mem, -a - 9) == cell(
                u,
                a,
            ) by {
                assert(byte_at(m.mem, -a - 9) == cell(t, a));
            }
        },
        Instr::Input => {
            assert(ops.drop_last() =~= ops.take(8));
            assert(ops.take(8).drop_last() =~= ops.take(7));
            assert(ops.take(7).drop_last() =~= ops.take(6));
            assert(ops.take(6).drop_last() =~= ops.take(5));
            assert(ops.take(5).drop_last() =~= ops.take(4));
            assert(ops.take(4).drop_last() =~= ops.take(3));
            assert(ops.take(3).drop_last() =~= ops.take(2));
            assert(ops.take(2).drop_last() =~= ops.take(1));
            assert(ops.take(1).drop_last() =~= Seq::<Op>::empty());
            assert forall|a: int| a != u.head implies #[trigger] byte_at(m1.mem, -a - 9) == cell(
                u,
                a,
            ) by {
                assert(byte_at(m.mem, -a - 9) == cell(t, a));
            }
        },
        _ => {},
    }
}

/// On a loop-free source the emitted lines do what the source means: from a
/// machine that holds a tape, they lead to a machine that holds the tape that
/// the source leads to, with the same bytes read and written.
pub proof fn straight_code_computes_source(s: Seq<u8>, m: Machine, t: Tape)
    requires
        bracket_free(s),
        holds(m, t),
    ensures
        holds(exec_ops(straight_ops(s), m), run_source(s, t)),
    decreases s.len(),
{
    if s.len() > 0 {
        let r = s.drop_last();
        assert forall|j: int| 0 <= j < r.len() implies decode(#[trigger] r[j]) != Some(
            Instr::LoopStart,
        ) && decode(r[j]) != Some(Instr::LoopEnd) by {
            assert(r[j] == s[j]);
        }
        straight_code_computes_source(r, m, t);
        assert(s.last() == s[s.len() - 1]);
        let mr = exec_ops(straight_ops(r), m);
        match decode(s.last()) {
            Some(i) => {
                lemma_exec_concat(straight_ops(r), instr_ops(i), m);
                lemma_instr_holds(i, mr, run_source(r, t));
            },
            None => {
                assert(straight_ops(r) + Seq::<Op>::empty() =~= straight_ops(r));
            },
        }
    }
}

/// A loop-free source is translated into the prologue, its own lines and the
/// epilogue; run from the state the prologue sets up (cursor and accumulator
/// zero, tape zeroed), those lines write exactly the bytes that the source
/// writes on a zeroed tape with the same input, using 8-bit wraparound.
pub proof fn loop_free_program_output(s: Seq<u8>, m: Machine)
    requires
        bracket_free(s),
        m.rax == 0,
        m.bl == 0,
        forall|a: int| #[trigger] byte_at(m.mem, a) == 0,
        m.output == Seq::<u8>::empty(),
    ensures
        translation(s) == Ok::<Seq<char>, GenerateX86Error>(
            prologue() + render(straight_ops(s)) + epilogue(),
        ),
        exec_ops(straight_ops(s), m).output == run_source(
            s,
            Tape { head: 0, cells: Map::empty(), input: m.input, output: Seq::empty() },
        ).output,
{
    let t = Tape { head: 0, cells: Map::empty(), input: m.input, output: Seq::<u8>::empty() };
    assert forall|a: int| a != t.head implies #[trigger] byte_at(m.mem, -a - 9) == cell(t, a) by {
        assert(byte_at(m.mem, -a - 9) == 0);
    }
    straight_code_computes_source(s, m, t);
    let e = Seq::<u8>::empty();
    assert(pass(e) is Ok);
    lemma_pass_straight(e, s);
    assert(e + s =~= s);
    assert(Seq::<Op>::empty() + straight_ops(s) =~= straight_ops(s));
}

} // verus!
