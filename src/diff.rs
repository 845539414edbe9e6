//! Turning a line diff of two texts into the text edits an editor applies.

use vstd::prelude::*;
use crate::lines::{chars_of, lines_of, split_lines, views_of};
use crate::position::{Position, Range};

verus! {

/// One operation of a line diff, over line indices of the old and new texts.
#[derive(Clone, Copy, Debug, PartialEq, Eq, Structural)]
pub enum DiffOp {
    Equal { old_index: usize, new_index: usize, len: usize },
    Delete { old_index: usize, old_len: usize, new_index: usize },
    Insert { old_index: usize, new_index: usize, new_len: usize },
    Replace { old_index: usize, old_len: usize, new_index: usize, new_len: usize },
}

/// The line ending written after each inserted line.
#[derive(Clone, Copy, Debug, PartialEq, Eq, Structural)]
pub enum LineEndings {
    Unix,
    Windows,
}

/// Replace the text inside `range` by `new_text`.
#[derive(Clone, Debug)]
pub struct TextEdit {
    pub range: Range,
    pub new_text: String,
}

pub open spec fn eol_chars(line_endings: LineEndings) -> Seq<char> {
    match line_endings {
        LineEndings::Unix => seq!['\n'],
        LineEndings::Windows => seq!['\r', '\n'],
    }
}

/// Each line followed by `eol`.
pub open spec fn joined(lines: Seq<Seq<char>>, eol: Seq<char>) -> Seq<char>
    decreases lines.len(),
{
    if lines.len() == 0 {
        Seq::empty()
    } else {
        joined(lines.drop_last(), eol) + lines.last() + eol
    }
}

/// The lines from `index` on, at most `len` of them.
pub open spec fn selected(lines: Seq<Seq<char>>, index: int, len: int) -> Seq<Seq<char>> {
    let n = lines.len() as int;
    let lo = if index < n { index } else { n };
    let hi = if index + len < n { index + len } else { n };
    lines.subrange(lo, hi)
}

/// From the start of line `from` to the start of line `to`.
pub open spec fn line_span(from: int, to: int) -> Range {
    Range {
        start: Position { line: from as u32, character: 0 },
        end: Position { line: to as u32, character: 0 },
    }
}

/// The index sums of `op` fit in a `usize`.
pub open spec fn op_fits(op: DiffOp) -> bool {
    match op {
        DiffOp::Delete { old_index, old_len, .. } => old_index + old_len <= usize::MAX,
        DiffOp::Replace { old_index, old_len, .. } => old_index + old_len <= usize::MAX,
        _ => true,
    }
}

/// `edit` is the edit for `op`, where `new_lines` are the lines of the new text.
pub open spec fn edit_matches(op: DiffOp, new_lines: Seq<Seq<char>>, eol: Seq<char>, edit: TextEdit) -> bool {
    match op {
        DiffOp::Equal { .. } => false,
        DiffOp::Delete { old_index, old_len, .. } => edit.range == line_span(
            old_index as int,
            old_index + old_len,
        ) && edit.new_text@ == Seq::<char>::empty(),
        DiffOp::Insert { old_index, new_index, new_len } => edit.range == line_span(
            old_index as int,
            old_index as int,
        ) && edit.new_text@ == joined(selected(new_lines, new_index as int, new_len as int), eol),
        DiffOp::Replace { old_index, old_len, new_index, new_len } => edit.range == line_span(
            old_index as int,
            old_index + old_len,
        ) && edit.new_text@ == joined(selected(new_lines, new_index as int, new_len as int), eol),
    }
}

/// Relies on String::push: `c` is appended.
#[verifier::external_body]
fn push_char(s: &mut String, c: char)
    ensures
        final(s)@ == old(s)@.push(c),
{
    s.push(c)
}

/// The selected lines, each followed by the line ending.
fn join_lines(lines: &Vec<Vec<char>>, index: usize, len: usize, line_endings: LineEndings) -> (r: String)
    ensures
        r@ == joined(selected(views_of(lines@), index as int, len as int), eol_chars(line_endings)),
{
    let ghost ls = views_of(lines@);
    let ghost eol = eol_chars(line_endings);
    let n = lines.len();
    let lo = if index < n { index } else { n };
    let hi = if len <= n - lo { lo + len } else { n };
    assert(selected(ls, index as int, len as int) == ls.subrange(lo as int, hi as int));
    let mut out = String::new();
    let mut j: usize = lo;
    while j < hi
        invariant
            lo <= j <= hi <= n == lines@.len() == ls.len(),
            ls == views_of(lines@),
            eol == eol_chars(line_endings),
            out@ == joined(ls.subrange(lo as int, j as int), eol),
        decreases hi - j,
    {
        let line = &lines[j];
        let ghost base = out@;
        let mut t: usize = 0;
        while t < line.len()
            invariant
                t <= line@.len(),
                out@ == base + line@.subrange(0, t as int),
            decreases line@.len() - t,
        {
            push_char(&mut out, line[t]);
            assert(line@.subrange(0, t as int + 1) =~= line@.subrange(0, t as int).push(line@[t as int]));
            t = t + 1;
        }
        match line_endings {
            LineEndings::Unix => push_char(&mut out, '\n'),
            LineEndings::Windows => {
                push_char(&mut out, '\r');
                push_char(&mut out, '\n');
            },
        }
        assert(line@.subrange(0, t as int) =~= line@);
        assert(ls[j as int] == line@);
        assert(ls.subrange(lo as int, j as int + 1).drop_last() =~= ls.subrange(lo as int, j as int));
        assert(out@ =~= joined(ls.subrange(lo as int, j as int), eol) + ls[j as int] + eol);
        j = j + 1;
    }
    out
}

/// The edit for `op`, given the lines of the new text.
fn edit_for_op(op: DiffOp, new_lines: &Vec<Vec<char>>, line_endings: LineEndings) -> (r: Option<TextEdit>)
    requires
        op_fits(op),
    ensures
        r is None <==> op is Equal,
        r matches Some(e) ==> edit_matches(op, views_of(new_lines@), eol_chars(line_endings), e),
{
    match op {
        DiffOp::Equal { .. } => None,
        DiffOp::Delete { old_index, old_len, .. } => Some(
            TextEdit {
                range: Range {
                    start: Position { line: old_index as u32, character: 0 },
                    end: Position { line: (old_index + old_len) as u32, character: 0 },
                },
                new_text: String::new(),
            },
        ),
        DiffOp::Insert { old_index, new_index, new_len } => Some(
            TextEdit {
                range: Range {
                    start: Position { line: old_index as u32, character: 0 },
                    end: Position { line: old_index as u32, character: 0 },
                },
                new_text: join_lines(new_lines, new_index, new_len, line_endings),
            },
        ),
        DiffOp::Replace { old_index, old_len, new_index, new_len } => Some(
            TextEdit {
                range: Range {
                    start: Position { line: old_index as u32, character: 0 },
                    end: Position { line: (old_index + old_len) as u32, character: 0 },
                },
                new_text: join_lines(new_lines, new_index, new_len, line_endings),
            },
        ),
    }
}

/// The edit that applies `diff_op` to the old text: none for an unchanged
/// run; for a deletion the old lines replaced by nothing; for an insertion a
/// zero-width edit at the start of the old line; for a replacement the old
/// lines replaced. Inserted lines come from `new_text`, each followed by the
/// line ending of `line_endings`.
pub fn diff_op_to_text_edit(diff_op: DiffOp, new_text: &str, line_endings: LineEndings) -> (r: Option<TextEdit>)
    requires
        op_fits(diff_op),
    ensures
        r is None <==> diff_op is Equal,
        r matches Some(e) ==> edit_matches(diff_op, lines_of(new_text@), eol_chars(line_endings), e),
{
    let chars = chars_of(new_text);
    let lines = split_lines(&chars);
    edit_for_op(diff_op, &lines, line_endings)
}

/// The line diff of `old` against `new`, as `similar` computes it, cut into
/// groups of changes with no unchanged lines of context around them.
pub uninterp spec fn line_diff(old: Seq<char>, new: Seq<char>) -> Seq<Seq<DiffOp>>;

/// The line ranges of `op` lie within `n_old` and `n_new` lines.
pub open spec fn op_within(op: DiffOp, n_old: int, n_new: int) -> bool {
    match op {
        DiffOp::Equal { old_index, new_index, len } => old_index + len <= n_old && new_index + len <= n_new,
        DiffOp::Delete { old_index, old_len, new_index } => old_index + old_len <= n_old && new_index <= n_new,
        DiffOp::Insert { old_index, new_index, new_len } => old_index <= n_old && new_index + new_len <= n_new,
        DiffOp::Replace { old_index, old_len, new_index, new_len } => old_index + old_len <= n_old
            && new_index + new_len <= n_new,
    }
}

/// Relies on similar::TextDiff::from_lines and TextDiff::grouped_ops with no
/// context: the grouped operations of the line diff, converted one for one.
/// Every line holds at least one byte, so the ranges lie within the byte
/// lengths; for equal texts the diff is a single unchanged run, which leaves
/// no group.
#[verifier::external_body]
fn grouped_line_diff(old: &str, new: &str) -> (r: Vec<Vec<DiffOp>>)
    ensures
        r@.len() == line_diff(old@, new@).len(),
        forall|g: int| 0 <= g < r@.len() ==> #[trigger] r@[g]@ == line_diff(old@, new@)[g],
        forall|g: int, k: int|
            0 <= g < r@.len() && 0 <= k < r@[g]@.len() ==> op_within(#[trigger] r@[g]@[k], old.len() as int, new.len() as int),
        old@ == new@ ==> r@.len() == 0,
{
    similar::TextDiff::from_lines(old, new).grouped_ops(0).iter().map(|group| group.iter().map(|op| match *op {
        similar::DiffOp::Equal { old_index, new_index, len } => DiffOp::Equal { old_index, new_index, len },
        similar::DiffOp::Delete { old_index, old_len, new_index } => DiffOp::Delete { old_index, old_len, new_index },
        similar::DiffOp::Insert { old_index, new_index, new_len } => DiffOp::Insert { old_index, new_index, new_len },
        similar::DiffOp::Replace { old_index, old_len, new_index, new_len } => DiffOp::Replace { old_index, old_len, new_index, new_len },
    }).collect()).collect()
}

/// The operations of `ops` that change something, in order.
pub open spec fn changes_in(ops: Seq<DiffOp>) -> Seq<DiffOp>
    decreases ops.len(),
{
    if ops.len() == 0 {
        Seq::empty()
    } else if ops.last() is Equal {
        changes_in(ops.drop_last())
    } else {
        changes_in(ops.drop_last()).push(ops.last())
    }
}

/// The changing operations of all groups, in order.
pub open spec fn changes_of(groups: Seq<Seq<DiffOp>>) -> Seq<DiffOp>
    decreases groups.len(),
{
    if groups.len() == 0 {
        Seq::empty()
    } else {
        changes_of(groups.drop_last()) + changes_in(groups.last())
    }
}

/// `edits` holds, in order, the edit of each changing operation of `groups`.
pub open spec fn edits_for(groups: Seq<Seq<DiffOp>>, new_lines: Seq<Seq<char>>, eol: Seq<char>, edits: Seq<TextEdit>) -> bool {
    &&& edits.len() == changes_of(groups).len()
    &&& forall|k: int| 0 <= k < edits.len() ==> edit_matches(#[trigger] changes_of(groups)[k], new_lines, eol, edits[k])
}

/// The edits that turn `old` into `new`, line by line: one for each changing
/// operation of the line diff, in order. Equal texts give none.
pub fn text_edits(old: &str, new: &str, line_endings: LineEndings) -> (r: Vec<TextEdit>)
    ensures
        edits_for(line_diff(old@, new@), lines_of(new@), eol_chars(line_endings), r@),
        old@ == new@ ==> r@.len() == 0,
{
    let groups = grouped_line_diff(old, new);
    let ghost gs = line_diff(old@, new@);
    let ghost nl = lines_of(new@);
    let ghost eol = eol_chars(line_endings);
    let chars = chars_of(new);
    let lines = split_lines(&chars);
    let mut out: Vec<TextEdit> = Vec::new();
    let mut g: usize = 0;
    while g < groups.len()
        invariant
            g <= groups@.len() == gs.len(),
            gs == line_diff(old@, new@),
            forall|h: int| 0 <= h < groups@.len() ==> #[trigger] groups@[h]@ == gs[h],
            forall|h: int, k: int|
                0 <= h < groups@.len() && 0 <= k < groups@[h]@.len() ==> op_within(#[trigger] groups@[h]@[k], old.len() as int, new.len() as int),
            views_of(lines@) == nl,
            eol == eol_chars(line_endings),
            edits_for(gs.subrange(0, g as int), nl, eol, out@),
        decreases groups@.len() - g,
    {
        let group = &groups[g];
        let ghost done = changes_of(gs.subrange(0, g as int));
        assert(group@ == gs[g as int]);
        let mut k: usize = 0;
        while k < group.len()
            invariant
                k <= group@.len(),
                forall|j: int| 0 <= j < group@.len() ==> op_within(#[trigger] group@[j], old.len() as int, new.len() as int),
                views_of(lines@) == nl,
                eol == eol_chars(line_endings),
                out@.len() == done.len() + changes_in(group@.subrange(0, k as int)).len(),
                forall|j: int| 0 <= j < out@.len() ==> edit_matches(
                    #[trigger] (done + changes_in(group@.subrange(0, k as int)))[j],
                    nl,
                    eol,
                    out@[j],
                ),
            decreases group@.len() - k,
        {
            let op = group[k];
            assert(op_within(op, old.len() as int, new.len() as int));
            let ghost before = out@;
            assert(group@.subrange(0, k as int + 1).drop_last() =~= group@.subrange(0, k as int));
            match edit_for_op(op, &lines, line_endings) {
                Some(e) => {
                    out.push(e);
                    assert(done + changes_in(group@.subrange(0, k as int + 1)) =~= (done + changes_in(
                        group@.subrange(0, k as int),
                    )).push(op));
                },
                None => {},
            }
            k = k + 1;
        }
        assert(group@.subrange(0, k as int) =~= group@);
        assert(gs.subrange(0, g as int + 1).drop_last() =~= gs.subrange(0, g as int));
        g = g + 1;
    }
    assert(gs.subrange(0, g as int) =~= gs);
    out
}

} // verus!
