//! When a source has a translation: the bracket discipline.
use vstd::prelude::*;

use crate::instr::decode;
use crate::translate::{pass, translation, GenerateX86Error};

verus! {

/// How many bytes of `s` equal `c`.
pub open spec fn count(s: Seq<u8>, c: u8) -> nat
    decreases s.len(),
{
    if s.len() == 0 {
        0
    } else {
        count(s.drop_last(), c) + if s.last() == c {
            1nat
        } else {
            0nat
        }
    }
}

/// Number of `[` minus number of `]`.
pub open spec fn balance(s: Seq<u8>) -> int {
    count(s, 91u8) - count(s, 93u8)
}

/// Whether some non-empty prefix of `s` holds more `]` than `[`.
pub open spec fn closes_early(s: Seq<u8>) -> bool
    decreases s.len(),
{
    s.len() > 0 && (closes_early(s.drop_last()) || balance(s) < 0)
}

proof fn lemma_pass_tracks_balance(s: Seq<u8>)
    ensures
        pass(s) is Ok <==> !closes_early(s),
        pass(s) is Err ==> pass(s) == Err::<crate::translate::Pass, GenerateX86Error>(
            GenerateX86Error::BracketMismatch,
        ),
        pass(s) is Ok ==> pass(s)->Ok_0.open.len() == balance(s),
    decreases s.len(),
{
    if s.len() > 0 {
        lemma_pass_tracks_balance(s.drop_last());
    }
}

/// A source has a translation exactly when no prefix closes more loops than it
/// opened and it holds as many `[` as `]`. An excess `]` gives `BracketMismatch`;
/// otherwise an excess `[` gives `UnterminatedLoop`. In particular, where no
/// prefix closes early, translation succeeds if and only if the two counts are
/// equal.
pub proof fn bracket_counts_decide(src: Seq<u8>)
    ensures
        translation(src) is Ok <==> (!closes_early(src) && count(src, 91u8) == count(src, 93u8)),
        translation(src) == Err::<Seq<char>, GenerateX86Error>(GenerateX86Error::BracketMismatch)
            <==> closes_early(src),
        translation(src) == Err::<Seq<char>, GenerateX86Error>(GenerateX86Error::UnterminatedLoop)
            <==> (!closes_early(src) && count(src, 91u8) > count(src, 93u8)),
        !closes_early(src) ==> (translation(src) is Ok <==> count(src, 91u8) == count(src, 93u8)),
{
    lemma_pass_tracks_balance(src);
}

/// Translation is a function of the source bytes alone: equal sources give
/// equal results, and after any accepted prefix the next fresh label is the
/// number of `[` seen so far, so loops are numbered in source order.
pub proof fn translation_is_deterministic(a: Seq<u8>, b: Seq<u8>)
    requires
        a == b,
    ensures
        translation(a) == translation(b),
        pass(a) is Ok ==> pass(a)->Ok_0.next == count(a, 91u8),
    decreases a.len(),
{
    if a.len() > 0 {
        translation_is_deterministic(a.drop_last(), b.drop_last());
    }
}

/// A byte that is not an instruction, inserted anywhere, changes neither the
/// emitted code nor the label numbering nor the outcome.
pub proof fn comments_are_ignored(before: Seq<u8>, c: u8, after: Seq<u8>)
    requires
        decode(c) is None,
    ensures
        pass(before + seq![c] + after) == pass(before + after),
        translation(before + seq![c] + after) == translation(before + after),
    decreases after.len(),
{
    if after.len() == 0 {
        assert(before + seq![c] + after =~= before.push(c));
        assert(before.push(c).drop_last() =~= before);
        assert(before + after =~= before);
    } else {
        comments_are_ignored(before, c, after.drop_last());
        assert((before + seq![c] + after).drop_last() =~= before + seq![c] + after.drop_last());
        assert((before + after).drop_last() =~= before + after.drop_last());
        assert((before + seq![c] + after).last() == after.last());
        assert((before + after).last() == after.last());
    }
}

} // verus!
