//! Splitting a text into lines, as `str::lines` does.

use vstd::prelude::*;

verus! {

/// The pieces of `s` that end after each `\n`, the last one possibly without
/// it; an empty text has none.
pub open spec fn pieces(s: Seq<char>) -> Seq<Seq<char>>
    decreases s.len(),
{
    if s.len() == 0 {
        Seq::empty()
    } else {
        let p = pieces(s.drop_last());
        if s.len() == 1 || s[s.len() - 2] == '\n' {
            p.push(seq![s.last()])
        } else {
            p.update(p.len() - 1, p.last().push(s.last()))
        }
    }
}

/// A piece without its line ending: a final `\n`, and a `\r` before it.
pub open spec fn strip_eol(l: Seq<char>) -> Seq<char> {
    if l.len() > 0 && l.last() == '\n' {
        let l1 = l.drop_last();
        if l1.len() > 0 && l1.last() == '\r' {
            l1.drop_last()
        } else {
            l1
        }
    } else {
        l
    }
}

/// The lines of `s`, without their line endings.
pub open spec fn lines_of(s: Seq<char>) -> Seq<Seq<char>> {
    pieces(s).map_values(|l: Seq<char>| strip_eol(l))
}

/// The views of a vector of lines.
pub open spec fn views_of(v: Seq<Vec<char>>) -> Seq<Seq<char>> {
    v.map_values(|l: Vec<char>| l@)
}

proof fn lemma_pieces_nonempty(s: Seq<char>)
    ensures
        s.len() > 0 ==> pieces(s).len() > 0,
        pieces(s).len() <= s.len(),
        s.len() > 0 ==> pieces(s).last().len() > 0 && pieces(s).last().last() == s.last(),
    decreases s.len(),
{
    if s.len() > 0 {
        lemma_pieces_nonempty(s.drop_last());
    }
}

/// Relies on str::chars: the characters of `s`, in order.
#[verifier::external_body]
pub(crate) fn chars_of(s: &str) -> (r: Vec<char>)
    ensures
        r@ == s@,
{
    s.chars().collect()
}

/// Splits `s` into its lines, without line endings.
pub fn split_lines(s: &Vec<char>) -> (r: Vec<Vec<char>>)
    ensures
        views_of(r@) == lines_of(s@),
{
    let mut done: Vec<Vec<char>> = Vec::new();
    let mut cur: Vec<char> = Vec::new();
    let mut i: usize = 0;
    while i < s.len()
        invariant
            i <= s@.len(),
            ({
                let pre = s@.subrange(0, i as int);
                let open = cur@.len() > 0;
                &&& open <==> (i > 0 && s@[i - 1] != '\n')
                &&& done@.len() + (if open { 1int } else { 0 }) == pieces(pre).len()
                &&& open ==> cur@ == pieces(pre).last()
                &&& forall|k: int| 0 <= k < done@.len() ==> #[trigger] done@[k]@ == strip_eol(pieces(pre)[k])
            }),
        decreases s@.len() - i,
    {
        let ghost pre = s@.subrange(0, i as int);
        let ghost next = s@.subrange(0, i as int + 1);
        assert(next.drop_last() =~= pre);
        proof {
            lemma_pieces_nonempty(pre);
        }
        let c = s[i];
        let was_open = cur.len() > 0;
        cur.push(c);
        if was_open {
            assert(!(next.len() == 1 || next[next.len() - 2] == '\n'));
            assert(pieces(next) == pieces(pre).update(pieces(pre).len() - 1, pieces(pre).last().push(c)));
        } else {
            assert(next.len() == 1 || next[next.len() - 2] == '\n');
            assert(pieces(next) == pieces(pre).push(seq![c]));
            assert(cur@ =~= seq![c]);
        }
        if c == '\n' {
            let ghost piece = cur@;
            cur.pop();
            if cur.len() > 0 && cur[cur.len() - 1] == '\r' {
                cur.pop();
            }
            assert(cur@ == strip_eol(piece));
            done.push(cur);
            cur = Vec::new();
        }
        i = i + 1;
    }
    assert(s@.subrange(0, i as int) =~= s@);
    proof {
        lemma_pieces_nonempty(s@);
    }
    if cur.len() > 0 {
        assert(strip_eol(cur@) == cur@);
        done.push(cur);
    }
    assert(views_of(done@) =~= lines_of(s@));
    done
}

} // verus!
