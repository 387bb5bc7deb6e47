use vstd::prelude::*;
use crate::export::join_lines;

verus! {

/// A position in a multi-line text: the row and the byte column within it.
#[derive(Debug, Clone, Copy, PartialEq, Eq, Structural)]
pub struct CursorLocation {
    pub row: usize,
    pub col: usize,
}

/// A change that the text editor reports.
#[derive(Debug, Clone, Copy, PartialEq, Eq, Structural)]
pub enum TextChange {
    Insert(CursorLocation, CursorLocation),
    Delete(CursorLocation, CursorLocation),
    DeleteLine(usize),
}

/// The rows that a change touches, each with its new text, or `None` for a deleted line:
/// an insertion or deletion touches the rows from its start to its end that the text has.
pub open spec fn spec_dirty_rows(text: Seq<Seq<char>>, change: TextChange) -> Seq<(usize, Option<Seq<char>>)> {
    match change {
        TextChange::DeleteLine(row) => seq![(row, None)],
        TextChange::Insert(start, end) | TextChange::Delete(start, end) => {
            let stop = if end.row + 1 < text.len() { end.row + 1 } else { text.len() as int };
            let count = if stop > start.row { stop - start.row } else { 0 };
            Seq::new(
                count as nat,
                |k: int| ((start.row + k) as usize, Some(text[start.row + k])),
            )
        },
    }
}

/// The view of a row update.
pub open spec fn row_update_view(u: (usize, Option<String>)) -> (usize, Option<Seq<char>>) {
    (
        u.0,
        match u.1 {
            Some(t) => Some(t@),
            None => None,
        },
    )
}

/// The row updates that a change of the text editor causes, in row order.
pub fn dirty_rows(text: &Vec<String>, change: TextChange) -> (rows: Vec<(usize, Option<String>)>)
    requires
        match change {
            TextChange::Insert(_, end) | TextChange::Delete(_, end) => end.row < usize::MAX,
            TextChange::DeleteLine(_) => true,
        },
    ensures
        rows@.map_values(|u: (usize, Option<String>)| row_update_view(u)) == spec_dirty_rows(
            text@.map_values(|t: String| t@),
            change,
        ),
{
    let ghost view = text@.map_values(|t: String| t@);
    let mut rows: Vec<(usize, Option<String>)> = Vec::new();
    match change {
        TextChange::DeleteLine(row) => {
            rows.push((row, None));
            proof {
                assert(rows@.map_values(|u: (usize, Option<String>)| row_update_view(u)) =~= spec_dirty_rows(view, change));
            }
        },
        TextChange::Insert(start, end) | TextChange::Delete(start, end) => {
            let stop = if end.row + 1 < text.len() { end.row + 1 } else { text.len() };
            let mut row = start.row;
            let ghost expected = spec_dirty_rows(view, change);
            while row < stop
                invariant
                    start.row <= row <= stop || (row == start.row && stop <= start.row),
                    stop <= text.len(),
                    stop == if end.row + 1 < text.len() { end.row + 1 } else { text.len() as int },
                    view == text@.map_values(|t: String| t@),
                    expected == spec_dirty_rows(view, change),
                    change == TextChange::Insert(start, end) || change == TextChange::Delete(start, end),
                    rows@.map_values(|u: (usize, Option<String>)| row_update_view(u)) == expected.take(
                        row - start.row,
                    ),
                decreases stop - row,
            {
                let line = text[row].clone();
                let ghost before = rows@;
                rows.push((row, Some(line)));
                proof {
                    assert(expected.len() == stop - start.row);
                    assert(expected[row - start.row] == (row, Some(view[row as int])));
                    assert(view[row as int] == text@[row as int]@);
                    assert(rows@ == before.push((row, Some(line))));
                    let mapped = rows@.map_values(|u: (usize, Option<String>)| row_update_view(u));
                    let prev = before.map_values(|u: (usize, Option<String>)| row_update_view(u));
                    assert(prev == expected.take(row - start.row));
                    assert(prev.len() == row - start.row);
                    assert(before.len() == row - start.row);
                    assert(mapped.len() == row + 1 - start.row);
                    assert(expected.take(row + 1 - start.row).len() == row + 1 - start.row);
                    assert forall|k: int| 0 <= k < mapped.len() implies mapped[k] == expected.take(
                        row + 1 - start.row,
                    )[k] by {
                        if k < before.len() {
                            assert(mapped[k] == prev[k]);
                        }
                    }
                    assert(mapped =~= expected.take(row + 1 - start.row));
                }
                row += 1;
            }
            proof {
                assert(expected.take(row - start.row) =~= expected);
            }
        },
    }
    rows
}

/// An insertion or deletion from `start` to `end` updates every row from `start.row` to
/// `end.row` that the text has, each once, in increasing row order, each with its text; no other
/// row is touched. Deleting a line removes exactly that line.
pub proof fn lemma_dirty_rows_cover_change(text: Seq<Seq<char>>, change: TextChange)
    ensures
        match change {
            TextChange::DeleteLine(row) => spec_dirty_rows(text, change) == seq![(row, None::<Seq<char>>)],
            TextChange::Insert(start, end) | TextChange::Delete(start, end) => {
                let rows = spec_dirty_rows(text, change);
                &&& forall|k: int|
                    0 <= k < rows.len() ==> start.row <= (#[trigger] rows[k]).0 <= end.row && rows[k].0 < text.len()
                        && rows[k].1 == Some(text[rows[k].0 as int])
                &&& forall|k: int, j: int| 0 <= k < j < rows.len() ==> (#[trigger] rows[k]).0 < (#[trigger] rows[j]).0
                &&& forall|r: int|
                    start.row <= r <= end.row && r < text.len() ==> rows.contains(
                        (r as usize, Some(#[trigger] text[r])),
                    )
            },
        },
{
    match change {
        TextChange::DeleteLine(row) => {},
        TextChange::Insert(start, end) | TextChange::Delete(start, end) => {
            let rows = spec_dirty_rows(text, change);
            assert forall|r: int| start.row <= r <= end.row && r < text.len() implies rows.contains(
                (r as usize, Some(#[trigger] text[r])),
            ) by {
                let k = r - start.row;
                assert(rows[k] == (r as usize, Some(text[r])));
            }
        },
    }
}

/// What the text view does for a row update.
#[derive(Debug, Clone, Copy, PartialEq, Eq, Structural)]
pub enum RowAction {
    /// The row exists: set the text of this widget.
    Update(u64),
    /// The row is new: attach a widget for it and append its id.
    Attach,
    /// The row was deleted: detach this widget, which was removed from the rows.
    Detach(u64),
}

/// Decides what a row update does to the widgets of the rows, `items`: a row with text updates
/// its widget, or asks for a new one when there is no widget at that row; a deleted row's widget
/// is removed from `items` and detached.
pub fn apply_row_change(items: &mut Vec<u64>, row: usize, has_text: bool) -> (action: RowAction)
    requires
        !has_text ==> row < old(items).len(),
    ensures
        has_text && row < old(items).len() ==> action == RowAction::Update(old(items)[row as int])
            && final(items)@ == old(items)@,
        has_text && row >= old(items).len() ==> action == RowAction::Attach && final(items)@ == old(
            items,
        )@,
        !has_text ==> action == RowAction::Detach(old(items)[row as int]) && final(items)@ == old(
            items,
        )@.remove(row as int),
{
    if has_text {
        if row < items.len() {
            RowAction::Update(items[row])
        } else {
            RowAction::Attach
        }
    } else {
        let id = items.remove(row);
        RowAction::Detach(id)
    }
}

/// The byte range of a laid out glyph within its row.
#[derive(Debug, Clone, Copy, PartialEq, Eq, Structural)]
pub struct GlyphSpan {
    pub start: usize,
    pub end: usize,
}

/// The glyphs of one laid out line, and the text row it belongs to.
pub struct LineGlyphs {
    pub row: usize,
    pub glyphs: Vec<GlyphSpan>,
}

/// A glyph can start the selection on the first selected row when it starts at or after the
/// selection start and, on a single-row selection, before its end.
pub open spec fn left_ok(g: GlyphSpan, start: CursorLocation, end: CursorLocation) -> bool {
    g.start >= start.col && (start.row != end.row || g.start < end.col)
}

/// A glyph can end the selection on the last selected row when it ends at or before the
/// selection end and, on a single-row selection, after its start.
pub open spec fn right_ok(g: GlyphSpan, start: CursorLocation, end: CursorLocation) -> bool {
    g.end <= end.col && (start.row != end.row || g.end > start.col)
}

/// The first glyph from `k` on that can start the selection.
pub open spec fn first_left(gl: Seq<GlyphSpan>, start: CursorLocation, end: CursorLocation, k: int) -> Option<int>
    decreases gl.len() - k,
{
    if k < 0 || k >= gl.len() {
        None
    } else if left_ok(gl[k], start, end) {
        Some(k)
    } else {
        first_left(gl, start, end, k + 1)
    }
}

/// The last glyph before `k` that can end the selection.
pub open spec fn last_right(gl: Seq<GlyphSpan>, start: CursorLocation, end: CursorLocation, k: int) -> Option<int>
    decreases k,
{
    if k <= 0 || k > gl.len() {
        None
    } else if right_ok(gl[k - 1], start, end) {
        Some(k - 1)
    } else {
        last_right(gl, start, end, k - 1)
    }
}

/// The glyphs at which the selection starts and ends on a line of row `row`, when the row is
/// selected: on the first selected row the first glyph that may start it, else the first glyph;
/// on the last selected row the last glyph that may end it, else the last glyph.
pub open spec fn line_selection(row: usize, gl: Seq<GlyphSpan>, start: CursorLocation, end: CursorLocation) -> Option<(int, int)> {
    if row < start.row || row > end.row {
        None
    } else {
        let left = if row == start.row {
            first_left(gl, start, end, 0)
        } else if gl.len() > 0 {
            Some(0int)
        } else {
            None
        };
        let right = if row == end.row {
            last_right(gl, start, end, gl.len() as int)
        } else if gl.len() > 0 {
            Some(gl.len() - 1)
        } else {
            None
        };
        match (left, right) {
            (Some(l), Some(r)) => Some((l, r)),
            _ => None,
        }
    }
}

/// The selection on each laid out line that has one: the line's index with the first and last
/// selected glyph.
pub open spec fn spec_selection_spans(lines: Seq<(usize, Seq<GlyphSpan>)>, start: CursorLocation, end: CursorLocation) -> Seq<(usize, usize, usize)>
    decreases lines.len(),
{
    if lines.len() == 0 {
        seq![]
    } else {
        let ln = lines.len() - 1;
        let prev = spec_selection_spans(lines.drop_last(), start, end);
        match line_selection(lines.last().0, lines.last().1, start, end) {
            Some((l, r)) => prev.push((ln as usize, l as usize, r as usize)),
            None => prev,
        }
    }
}

/// The glyph at which the selection may start lies between `k` and the end of the line.
proof fn lemma_first_left_in(gl: Seq<GlyphSpan>, start: CursorLocation, end: CursorLocation, k: int)
    ensures
        first_left(gl, start, end, k) matches Some(i) ==> k <= i < gl.len(),
    decreases gl.len() - k,
{
    if 0 <= k < gl.len() && !left_ok(gl[k], start, end) {
        lemma_first_left_in(gl, start, end, k + 1);
    }
}

/// The glyph at which the selection may end lies before `k`.
proof fn lemma_last_right_in(gl: Seq<GlyphSpan>, start: CursorLocation, end: CursorLocation, k: int)
    ensures
        last_right(gl, start, end, k) matches Some(i) ==> 0 <= i < k,
    decreases k,
{
    if 0 < k <= gl.len() && !right_ok(gl[k - 1], start, end) {
        lemma_last_right_in(gl, start, end, k - 1);
    }
}

/// The selection on a line names glyphs of that line.
proof fn lemma_line_selection_in_line(row: usize, gl: Seq<GlyphSpan>, start: CursorLocation, end: CursorLocation)
    ensures
        line_selection(row, gl, start, end) matches Some((l, r)) ==> 0 <= l < gl.len() && 0 <= r < gl.len(),
{
    lemma_first_left_in(gl, start, end, 0);
    lemma_last_right_in(gl, start, end, gl.len() as int);
}

/// `first_left` finds the first glyph from `k` on that can start the selection, and finds none
/// only when no glyph from `k` on can.
proof fn lemma_first_left_first(gl: Seq<GlyphSpan>, start: CursorLocation, end: CursorLocation, k: int)
    requires
        0 <= k,
    ensures
        match first_left(gl, start, end, k) {
            Some(i) => left_ok(gl[i], start, end) && forall|j: int| k <= j < i ==> !left_ok(#[trigger] gl[j], start, end),
            None => forall|j: int| k <= j < gl.len() ==> !left_ok(#[trigger] gl[j], start, end),
        },
    decreases gl.len() - k,
{
    if k < gl.len() && !left_ok(gl[k], start, end) {
        lemma_first_left_first(gl, start, end, k + 1);
    }
}

/// `last_right` finds the last glyph before `k` that can end the selection, and finds none only
/// when no glyph before `k` can.
proof fn lemma_last_right_last(gl: Seq<GlyphSpan>, start: CursorLocation, end: CursorLocation, k: int)
    requires
        k <= gl.len(),
    ensures
        match last_right(gl, start, end, k) {
            Some(i) => right_ok(gl[i], start, end) && forall|j: int| i < j < k ==> !right_ok(#[trigger] gl[j], start, end),
            None => forall|j: int| 0 <= j < k ==> !right_ok(#[trigger] gl[j], start, end),
        },
    decreases k,
{
    if k > 0 && !right_ok(gl[k - 1], start, end) {
        lemma_last_right_last(gl, start, end, k - 1);
    }
}

/// The selection on a laid out line of row `row`: none outside the selected rows; on a row
/// strictly inside, all its glyphs; on the first selected row it starts at the first glyph that
/// starts at or after the selection start (and before its end on a one-row selection); on the
/// last selected row it ends at the last glyph that ends at or before the selection end (and
/// after its start on a one-row selection); without such glyphs the line has no selection.
pub proof fn lemma_line_selection_extent(row: usize, gl: Seq<GlyphSpan>, start: CursorLocation, end: CursorLocation)
    ensures
        row < start.row || row > end.row ==> line_selection(row, gl, start, end) is None,
        start.row < row < end.row ==> line_selection(row, gl, start, end) == if gl.len() > 0 {
            Some((0int, gl.len() - 1))
        } else {
            None
        },
        line_selection(row, gl, start, end) matches Some((l, r)) ==> 0 <= l < gl.len() && 0 <= r < gl.len()
            && (row == start.row ==> left_ok(gl[l], start, end) && forall|j: int| 0 <= j < l ==> !left_ok(
            #[trigger] gl[j],
            start,
            end,
        )) && (row != start.row ==> l == 0) && (row == end.row ==> right_ok(gl[r], start, end) && forall|j: int|
            r < j < gl.len() ==> !right_ok(#[trigger] gl[j], start, end)) && (row != end.row ==> r == gl.len() - 1),
        start.row <= row <= end.row && line_selection(row, gl, start, end) is None ==> gl.len() == 0 || (row
            == start.row && forall|j: int| 0 <= j < gl.len() ==> !left_ok(#[trigger] gl[j], start, end)) || (row
            == end.row && forall|j: int| 0 <= j < gl.len() ==> !right_ok(#[trigger] gl[j], start, end)),
{
    lemma_first_left_first(gl, start, end, 0);
    lemma_last_right_last(gl, start, end, gl.len() as int);
    lemma_line_selection_in_line(row, gl, start, end);
}

/// Every span of a selection names a laid out line by its place among the lines: the place is
/// below the number of lines, the span holds the selection of that line, the places strictly
/// increase, and every line with a part of the selection has its span. The place, not the text
/// row, sets where the highlight is drawn, so wrapped rows get one span per laid out line.
pub proof fn lemma_selection_spans_by_line(lines: Seq<(usize, Seq<GlyphSpan>)>, start: CursorLocation, end: CursorLocation)
    requires
        lines.len() <= usize::MAX,
        forall|i: int| 0 <= i < lines.len() ==> (#[trigger] lines[i]).1.len() <= usize::MAX,
    ensures
        ({
            let spans = spec_selection_spans(lines, start, end);
            &&& forall|k: int|
                0 <= k < spans.len() ==> (#[trigger] spans[k]).0 < lines.len() && line_selection(
                    lines[spans[k].0 as int].0,
                    lines[spans[k].0 as int].1,
                    start,
                    end,
                ) == Some((spans[k].1 as int, spans[k].2 as int))
            &&& forall|k: int, j: int| 0 <= k < j < spans.len() ==> (#[trigger] spans[k]).0 < (#[trigger] spans[j]).0
            &&& forall|i: int|
                0 <= i < lines.len() && #[trigger] line_selection(lines[i].0, lines[i].1, start, end) is Some
                    ==> exists|k: int| 0 <= k < spans.len() && (#[trigger] spans[k]).0 == i
        }),
    decreases lines.len(),
{
    if lines.len() > 0 {
        let front = lines.drop_last();
        let prev = spec_selection_spans(front, start, end);
        let spans = spec_selection_spans(lines, start, end);
        let ln = lines.len() - 1;
        assert forall|i: int| 0 <= i < front.len() implies (#[trigger] front[i]).1.len() <= usize::MAX by {
            assert(front[i] == lines[i]);
        }
        lemma_selection_spans_by_line(front, start, end);
        lemma_line_selection_in_line(lines.last().0, lines.last().1, start, end);
        assert forall|k: int| 0 <= k < prev.len() implies (#[trigger] prev[k]).0 < ln by {}
        assert forall|i: int| 0 <= i < ln implies #[trigger] lines[i] == front[i] by {}
        assert forall|k: int|
            0 <= k < spans.len() implies (#[trigger] spans[k]).0 < lines.len() && line_selection(
                lines[spans[k].0 as int].0,
                lines[spans[k].0 as int].1,
                start,
                end,
            ) == Some((spans[k].1 as int, spans[k].2 as int)) by {
            if k < prev.len() {
                assert(spans[k] == prev[k]);
                assert(lines[prev[k].0 as int] == front[prev[k].0 as int]);
            } else {
                assert(spans[k].0 == ln);
            }
        }
        assert forall|k: int, j: int| 0 <= k < j < spans.len() implies (#[trigger] spans[k]).0 < (#[trigger] spans[j]).0 by {
            if j < prev.len() {
                assert(spans[k] == prev[k] && spans[j] == prev[j]);
            } else {
                assert(spans[k] == prev[k]);
            }
        }
        assert forall|i: int|
            0 <= i < lines.len() && #[trigger] line_selection(lines[i].0, lines[i].1, start, end) is Some implies exists|k: int|
                0 <= k < spans.len() && (#[trigger] spans[k]).0 == i by {
            if i < ln {
                assert(lines[i] == front[i]);
                assert(line_selection(front[i].0, front[i].1, start, end) is Some);
                let k = choose|k: int| 0 <= k < prev.len() && (#[trigger] prev[k]).0 == i;
                assert(spans[k] == prev[k]);
            } else {
                assert(spans[prev.len() as int].0 == ln);
            }
        }
    }
}

/// The view of the laid out lines.
pub open spec fn lines_view(lines: Seq<LineGlyphs>) -> Seq<(usize, Seq<GlyphSpan>)> {
    lines.map_values(|l: LineGlyphs| (l.row, l.glyphs@))
}

/// Finds the first glyph that can start the selection.
fn find_left(gl: &Vec<GlyphSpan>, start: CursorLocation, end: CursorLocation) -> (r: Option<usize>)
    ensures
        match first_left(gl@, start, end, 0) {
            Some(k) => r == Some(k as usize),
            None => r is None,
        },
{
    let mut k: usize = 0;
    while k < gl.len()
        invariant
            k <= gl.len(),
            first_left(gl@, start, end, 0) == first_left(gl@, start, end, k as int),
        decreases gl.len() - k,
    {
        let g = gl[k];
        if g.start >= start.col && (start.row != end.row || g.start < end.col) {
            return Some(k);
        }
        k += 1;
    }
    None
}

/// Finds the last glyph that can end the selection.
fn find_right(gl: &Vec<GlyphSpan>, start: CursorLocation, end: CursorLocation) -> (r: Option<usize>)
    ensures
        match last_right(gl@, start, end, gl.len() as int) {
            Some(k) => r == Some(k as usize),
            None => r is None,
        },
{
    let mut k: usize = gl.len();
    while k > 0
        invariant
            k <= gl.len(),
            last_right(gl@, start, end, gl.len() as int) == last_right(gl@, start, end, k as int),
        decreases k,
    {
        let g = gl[k - 1];
        if g.end <= end.col && (start.row != end.row || g.end > start.col) {
            return Some(k - 1);
        }
        k -= 1;
    }
    None
}

/// For each laid out line with a part of the selection `start .. end` on it, the line's index
/// and its first and last selected glyph, in line order.
pub fn selection_spans(lines: &Vec<LineGlyphs>, start: CursorLocation, end: CursorLocation) -> (spans: Vec<(usize, usize, usize)>)
    ensures
        spans@ == spec_selection_spans(lines_view(lines@), start, end),
{
    let mut spans: Vec<(usize, usize, usize)> = Vec::new();
    let mut ln: usize = 0;
    while ln < lines.len()
        invariant
            ln <= lines.len(),
            spans@ == spec_selection_spans(lines_view(lines@).take(ln as int), start, end),
        decreases lines.len() - ln,
    {
        let line = &lines[ln];
        let row = line.row;
        proof {
            assert(lines_view(lines@).take(ln + 1).drop_last() == lines_view(lines@).take(ln as int));
            assert(lines_view(lines@).take(ln + 1).last() == (row, line.glyphs@));
        }
        if row >= start.row && row <= end.row {
            let n = line.glyphs.len();
            let left = if row == start.row {
                find_left(&line.glyphs, start, end)
            } else if n > 0 {
                Some(0)
            } else {
                None
            };
            let right = if row == end.row {
                find_right(&line.glyphs, start, end)
            } else if n > 0 {
                Some(n - 1)
            } else {
                None
            };
            match (left, right) {
                (Some(l), Some(r)) => {
                    spans.push((ln, l, r));
                },
                _ => {},
            }
        }
        ln += 1;
    }
    proof {
        assert(lines_view(lines@).take(lines.len() as int) == lines_view(lines@));
    }
    spans
}

/// The lines of the text joined by line breaks: the content of a text input, and what copying a
/// selection puts on the clipboard.
pub fn join_text_lines(lines: &Vec<String>) -> (text: String)
    ensures
        text@ == join_lines(lines@.map_values(|l: String| l@)),
{
    let ghost view = lines@.map_values(|l: String| l@);
    let mut text = String::new();
    let mut i: usize = 0;
    while i < lines.len()
        invariant
            i <= lines.len(),
            view == lines@.map_values(|l: String| l@),
            text@ == join_lines(view.take(i as int)),
        decreases lines.len() - i,
    {
        proof {
            reveal_strlit("\n");
            assert(view.take(i + 1).drop_last() == view.take(i as int));
            assert(view.take(i + 1).last() == lines@[i as int]@);
        }
        if i > 0 {
            text.append("\n");
        }
        text.append(lines[i].as_str());
        proof {
            if i == 0 {
                assert(view.take(1) =~= seq![lines@[0]@]);
            }
            assert(text@ =~= join_lines(view.take(i + 1)));
        }
        i += 1;
    }
    proof {
        assert(view.take(lines.len() as int) == view);
    }
    text
}

/// What copying or cutting puts on the clipboard: the selected lines, joined, when there is a
/// selection.
pub fn clipboard_text(selection: Option<Vec<String>>) -> (text: Option<String>)
    ensures
        match selection {
            Some(lines) => text is Some && text->0@ == join_lines(lines@.map_values(|l: String| l@)),
            None => text is None,
        },
{
    match selection {
        Some(lines) => Some(join_text_lines(&lines)),
        None => None,
    }
}

/// A laid out run of glyphs on a row: the byte range it covers and the index of its first glyph
/// among the glyphs of the row.
#[derive(Debug, Clone, Copy, PartialEq, Eq, Structural)]
pub struct RunLayout {
    pub row: usize,
    pub start: usize,
    pub end: usize,
    pub first_index: usize,
}

/// The number of glyphs in the runs before run `r`.
pub open spec fn glyphs_before(runs: Seq<Seq<GlyphSpan>>, r: int) -> int
    decreases r,
{
    if r <= 0 {
        0
    } else {
        glyphs_before(runs, r - 1) + runs[r - 1].len()
    }
}

/// The byte offset where run `r` starts: the end of the last glyph before it, or 0.
pub open spec fn offset_before(runs: Seq<Seq<GlyphSpan>>, r: int) -> int
    decreases r,
{
    if r <= 0 {
        0
    } else if runs[r - 1].len() > 0 {
        runs[r - 1].last().end as int
    } else {
        offset_before(runs, r - 1)
    }
}

/// The layout of the runs of row `row`: run `r` starts where the glyphs before it end, ends where
/// its own last glyph ends (or where it starts, when it has none), and numbers its glyphs on from
/// the glyphs before it.
pub fn layout_runs(row: usize, runs: &Vec<Vec<GlyphSpan>>) -> (out: Vec<RunLayout>)
    requires
        glyphs_before(runs@.map_values(|r: Vec<GlyphSpan>| r@), runs.len() as int) <= usize::MAX,
    ensures
        out.len() == runs.len(),
        forall|r: int|
            0 <= r < runs.len() ==> (#[trigger] out[r]) == (RunLayout {
                row,
                start: offset_before(runs@.map_values(|v: Vec<GlyphSpan>| v@), r) as usize,
                end: offset_before(runs@.map_values(|v: Vec<GlyphSpan>| v@), r + 1) as usize,
                first_index: glyphs_before(runs@.map_values(|v: Vec<GlyphSpan>| v@), r) as usize,
            }),
{
    let ghost view = runs@.map_values(|v: Vec<GlyphSpan>| v@);
    let mut out: Vec<RunLayout> = Vec::new();
    let mut offset: usize = 0;
    let mut index: usize = 0;
    let mut r: usize = 0;
    proof {
        lemma_glyphs_before_monotone(view, 0, runs.len() as int);
    }
    while r < runs.len()
        invariant
            r <= runs.len(),
            view == runs@.map_values(|v: Vec<GlyphSpan>| v@),
            glyphs_before(view, runs.len() as int) <= usize::MAX,
            offset == offset_before(view, r as int),
            index == glyphs_before(view, r as int),
            out.len() == r,
            forall|q: int|
                0 <= q < r ==> (#[trigger] out[q]) == (RunLayout {
                    row,
                    start: offset_before(view, q) as usize,
                    end: offset_before(view, q + 1) as usize,
                    first_index: glyphs_before(view, q) as usize,
                }),
        decreases runs.len() - r,
    {
        let run = &runs[r];
        let start = offset;
        if run.len() > 0 {
            offset = run[run.len() - 1].end;
        }
        proof {
            assert(view[r as int] == run@);
            lemma_glyphs_before_monotone(view, r + 1, runs.len() as int);
        }
        out.push(RunLayout { row, start, end: offset, first_index: index });
        index = index + run.len();
        r += 1;
    }
    out
}

/// Fewer runs hold no more glyphs.
proof fn lemma_glyphs_before_monotone(runs: Seq<Seq<GlyphSpan>>, a: int, b: int)
    requires
        0 <= a <= b,
    ensures
        glyphs_before(runs, a) <= glyphs_before(runs, b),
    decreases b - a,
{
    if a < b {
        lemma_glyphs_before_monotone(runs, a, b - 1);
    }
}

} // verus!
