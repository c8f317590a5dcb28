//! Lexicographic order on character sequences, as used to sort paths and
//! preview texts.

use vstd::prelude::*;

verus! {

/// Sort rank of a character; where `sep_first` holds, the path separator
/// `/` ranks below every other character, so that paths compare component
/// by component.
pub open spec fn rank(c: char, sep_first: bool) -> int {
    if sep_first && c == '/' {
        0
    } else {
        c as u32 + 1
    }
}

/// `a` sorts before or equal to `b`, character by character.
pub open spec fn lex_le(a: Seq<char>, b: Seq<char>, sep_first: bool) -> bool
    decreases a.len(),
{
    if a.len() == 0 {
        true
    } else if b.len() == 0 {
        false
    } else if rank(a[0], sep_first) != rank(b[0], sep_first) {
        rank(a[0], sep_first) < rank(b[0], sep_first)
    } else {
        lex_le(a.drop_first(), b.drop_first(), sep_first)
    }
}

pub proof fn lemma_rank_injective(c: char, d: char, sep_first: bool)
    ensures
        rank(c, sep_first) == rank(d, sep_first) ==> c == d,
{
    if rank(c, sep_first) == rank(d, sep_first) {
        assert(c as u32 == d as u32);
    }
}

pub proof fn lemma_lex_total(a: Seq<char>, b: Seq<char>, sep_first: bool)
    ensures
        lex_le(a, b, sep_first) || lex_le(b, a, sep_first),
    decreases a.len(),
{
    if a.len() > 0 && b.len() > 0 && rank(a[0], sep_first) == rank(b[0], sep_first) {
        lemma_lex_total(a.drop_first(), b.drop_first(), sep_first);
    }
}

pub proof fn lemma_lex_antisym(a: Seq<char>, b: Seq<char>, sep_first: bool)
    ensures
        lex_le(a, b, sep_first) && lex_le(b, a, sep_first) ==> a == b,
    decreases a.len(),
{
    if lex_le(a, b, sep_first) && lex_le(b, a, sep_first) {
        if a.len() > 0 {
            lemma_rank_injective(a[0], b[0], sep_first);
            lemma_lex_antisym(a.drop_first(), b.drop_first(), sep_first);
            assert(a == seq![a[0]] + a.drop_first());
            assert(b == seq![b[0]] + b.drop_first());
        } else {
            assert(b.len() == 0);
        }
    }
}

pub proof fn lemma_lex_trans(a: Seq<char>, b: Seq<char>, c: Seq<char>, sep_first: bool)
    ensures
        lex_le(a, b, sep_first) && lex_le(b, c, sep_first) ==> lex_le(a, c, sep_first),
    decreases a.len(),
{
    if a.len() > 0 && b.len() > 0 && c.len() > 0 {
        lemma_lex_trans(a.drop_first(), b.drop_first(), c.drop_first(), sep_first);
    }
}

/// Compares two character sequences.
pub fn lex_le_exec(a: &Vec<char>, b: &Vec<char>, sep_first: bool) -> (r: bool)
    ensures
        r == lex_le(a@, b@, sep_first),
{
    let mut i: usize = 0;
    assert(a@.subrange(0, a.len() as int) == a@);
    assert(b@.subrange(0, b.len() as int) == b@);
    while i < a.len() && i < b.len()
        invariant
            i <= a.len(),
            i <= b.len(),
            lex_le(a@, b@, sep_first) == lex_le(
                a@.subrange(i as int, a.len() as int),
                b@.subrange(i as int, b.len() as int),
                sep_first,
            ),
        decreases a.len() - i,
    {
        let ra: u64 = if sep_first && a[i] == '/' { 0 } else { a[i] as u32 as u64 + 1 };
        let rb: u64 = if sep_first && b[i] == '/' { 0 } else { b[i] as u32 as u64 + 1 };
        let ghost sa = a@.subrange(i as int, a.len() as int);
        let ghost sb = b@.subrange(i as int, b.len() as int);
        assert(sa[0] == a@[i as int] && sb[0] == b@[i as int]);
        if ra != rb {
            return ra < rb;
        }
        assert(sa.drop_first() == a@.subrange(i + 1, a.len() as int));
        assert(sb.drop_first() == b@.subrange(i + 1, b.len() as int));
        i = i + 1;
    }
    i == a.len()
}

} // verus!
