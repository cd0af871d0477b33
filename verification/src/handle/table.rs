//! GFM tables.

use vstd::prelude::*;
use crate::mdast::{lemma_children_decrease, node_children, AlignKind, Node};
use crate::output::{cells_acc, cell_value, inside, row_data, table_rows, trail_of, cfg_of, ctx_of, opt_node, ser_with, wrote};
use crate::state::{lemma_children_ok, marker_ok, preserved, serializable, State};
use crate::text::{owned, push_str, repeat_char, repeat_spec, substring};
use crate::types::{ConstructName, HandlerFn, Info};

verus! {

/// The cell of a row at a column; empty past the end of the row.
pub open spec fn cell_at(row: Seq<Seq<char>>, col: int) -> Seq<char> {
    if 0 <= col < row.len() {
        row[col]
    } else {
        Seq::empty()
    }
}

/// The length of the longest of the first `k` rows.
pub open spec fn max_row_len(m: Seq<Seq<Seq<char>>>, k: int) -> nat
    decreases k,
{
    if k <= 0 || k > m.len() {
        0
    } else {
        let prev = max_row_len(m, k - 1);
        if m[k - 1].len() > prev { m[k - 1].len() } else { prev }
    }
}

/// The width of a column's cells: at least 1, and, when aligning, the longest
/// cell of the column among the first `k` rows.
pub open spec fn col_width(m: Seq<Seq<Seq<char>>>, col: int, k: int, align_delimiters: bool) -> nat
    decreases k,
{
    if !align_delimiters || k <= 0 || k > m.len() {
        1
    } else {
        let prev = col_width(m, col, k - 1, align_delimiters);
        let len = cell_at(m[k - 1], col).len();
        if len > prev { len } else { prev }
    }
}

/// The alignment of a column (none past the given alignments).
pub open spec fn col_align(align: Option<Seq<AlignKind>>, col: int) -> AlignKind {
    match align {
        Some(a) => if 0 <= col < a.len() { a[col] } else { AlignKind::Unset },
        None => AlignKind::Unset,
    }
}

/// A cell padded to the width of its column as its alignment says.
pub open spec fn padded_cell(cell: Seq<char>, width: nat, align: AlignKind) -> Seq<char> {
    let pad: nat = if width > cell.len() { (width - cell.len()) as nat } else { 0 };
    match align {
        AlignKind::Right => repeat_spec(' ', pad) + cell,
        AlignKind::Center => repeat_spec(' ', pad / 2) + cell + repeat_spec(' ', (pad - pad / 2) as nat),
        _ => cell + repeat_spec(' ', pad),
    }
}

/// The delimiter cell of a column: as wide as its cells, and at least three
/// characters.
pub open spec fn delimiter_cell(width: nat, align: AlignKind) -> Seq<char> {
    let dc: nat = if width > 3 { width } else { 3 };
    match align {
        AlignKind::Left => ":"@ + repeat_spec('-', (dc - 1) as nat),
        AlignKind::Right => repeat_spec('-', (dc - 1) as nat) + ":"@,
        AlignKind::Center => ":"@ + repeat_spec('-', if dc > 2 { (dc - 2) as nat } else { 1 }) + ":"@,
        AlignKind::Unset => repeat_spec('-', dc),
    }
}

/// The first `k` parts joined by `sep`.
pub open spec fn join_with(parts: Seq<Seq<char>>, sep: Seq<char>, k: int) -> Seq<char>
    decreases k,
{
    if k <= 0 {
        Seq::empty()
    } else if k == 1 {
        parts[0]
    } else {
        join_with(parts, sep, k - 1) + sep + parts[k - 1]
    }
}

/// A line of cells between pipes.
pub open spec fn pipe_line(cells: Seq<Seq<char>>, padding: bool) -> Seq<char> {
    if padding {
        "| "@ + join_with(cells, " | "@, cells.len() as int) + " |"@
    } else {
        "|"@ + join_with(cells, "|"@, cells.len() as int) + "|"@
    }
}

/// The cells of a row, padded when aligning.
pub open spec fn row_cells(
    m: Seq<Seq<Seq<char>>>,
    row: Seq<Seq<char>>,
    align: Option<Seq<AlignKind>>,
    align_delimiters: bool,
) -> Seq<Seq<char>> {
    Seq::new(
        max_row_len(m, m.len() as int),
        |c: int|
            if align_delimiters {
                padded_cell(cell_at(row, c), col_width(m, c, m.len() as int, true), col_align(align, c))
            } else {
                cell_at(row, c)
            },
    )
}

/// The delimiter cells.
pub open spec fn delimiter_cells(
    m: Seq<Seq<Seq<char>>>,
    align: Option<Seq<AlignKind>>,
    align_delimiters: bool,
) -> Seq<Seq<char>> {
    Seq::new(
        max_row_len(m, m.len() as int),
        |c: int| delimiter_cell(col_width(m, c, m.len() as int, align_delimiters), col_align(align, c)),
    )
}

/// The lines of the table: each row, with the delimiter row after the first.
pub open spec fn table_lines(
    m: Seq<Seq<Seq<char>>>,
    align: Option<Seq<AlignKind>>,
    align_delimiters: bool,
    padding: bool,
) -> Seq<Seq<char>> {
    Seq::new(
        m.len() + 1,
        |i: int|
            if i == 0 {
                pipe_line(row_cells(m, m[0], align, align_delimiters), padding)
            } else if i == 1 {
                pipe_line(delimiter_cells(m, align, align_delimiters), padding)
            } else {
                pipe_line(row_cells(m, m[i - 1], align, align_delimiters), padding)
            },
    )
}

/// A matrix of cells as a markdown table; empty when no row has a cell.
pub open spec fn table_spec(
    m: Seq<Seq<Seq<char>>>,
    align: Option<Seq<AlignKind>>,
    align_delimiters: bool,
    padding: bool,
) -> Seq<char> {
    if max_row_len(m, m.len() as int) == 0 {
        Seq::empty()
    } else {
        let lines = table_lines(m, align, align_delimiters, padding);
        join_with(lines, "\n"@, lines.len() as int)
    }
}

/// The matrix as character sequences.
pub open spec fn matrix_view(m: Seq<Vec<String>>) -> Seq<Seq<Seq<char>>> {
    m.map_values(|r: Vec<String>| r@.map_values(|c: String| c@))
}

/// Append `parts` joined by `sep` to `out`.
fn push_joined(out: &mut String, parts: &Vec<String>, sep: &str)
    ensures
        final(out)@ == old(out)@ + join_with(
            parts@.map_values(|c: String| c@),
            sep@,
            parts@.len() as int,
        ),
{
    let ghost views = parts@.map_values(|c: String| c@);
    let ghost start = out@;
    let mut i: usize = 0;
    while i < parts.len()
        invariant
            i <= parts.len(),
            views == parts@.map_values(|c: String| c@),
            out@ == start + join_with(views, sep@, i as int),
        decreases parts.len() - i,
    {
        if i > 0 {
            push_str(out, sep);
        }
        push_str(out, parts[i].as_str());
        proof {
            assert(views[i as int] == parts@[i as int]@);
            if i == 0 {
                assert(join_with(views, sep@, 1) == views[0]);
            }
        }
        i += 1;
    }
}

/// Append a line of cells between pipes.
fn push_pipe_line(out: &mut String, cells: &Vec<String>, padding: bool)
    ensures
        final(out)@ == old(out)@ + pipe_line(cells@.map_values(|c: String| c@), padding),
{
    proof {
        reveal_strlit("| ");
        reveal_strlit(" | ");
        reveal_strlit(" |");
        reveal_strlit("|");
    }
    let ghost start = out@;
    if padding {
        push_str(out, "| ");
        push_joined(out, cells, " | ");
        push_str(out, " |");
    } else {
        push_str(out, "|");
        push_joined(out, cells, "|");
        push_str(out, "|");
    }
    proof {
        assert(out@ =~= start + pipe_line(cells@.map_values(|c: String| c@), padding));
    }
}

/// The number of columns: the length of the longest row.
fn column_count_of(matrix: &Vec<Vec<String>>) -> (r: usize)
    ensures
        r == max_row_len(matrix_view(matrix@), matrix@.len() as int),
{
    let ghost m = matrix_view(matrix@);
    let mut column_count: usize = 0;
    let mut k: usize = 0;
    while k < matrix.len()
        invariant
            k <= matrix.len(),
            m == matrix_view(matrix@),
            m.len() == matrix@.len(),
            column_count == max_row_len(m, k as int),
        decreases matrix.len() - k,
    {
        assert(m[k as int].len() == matrix@[k as int]@.len());
        if matrix[k].len() > column_count {
            column_count = matrix[k].len();
        }
        k += 1;
    }
    column_count
}

/// The alignment of each of the first `n` columns.
fn column_alignments(align: Option<&Vec<AlignKind>>, n: usize) -> (r: Vec<AlignKind>)
    ensures
        r@.len() == n,
        forall|j: int| 0 <= j < n ==> #[trigger] r@[j] == col_align(
            match align {
                Some(a) => Some(a@),
                None => None,
            },
            j,
        ),
{
    let ghost al: Option<Seq<AlignKind>> = match align {
        Some(a) => Some(a@),
        None => None,
    };
    let mut alignments: Vec<AlignKind> = Vec::new();
    let mut c: usize = 0;
    while c < n
        invariant
            c <= n,
            al == match align {
                Some(a) => Some(a@),
                None => None,
            },
            alignments@.len() == c,
            forall|j: int| 0 <= j < c ==> #[trigger] alignments@[j] == col_align(al, j),
        decreases n - c,
    {
        let a = match align {
            Some(v) => if c < v.len() { v[c] } else { AlignKind::Unset },
            None => AlignKind::Unset,
        };
        alignments.push(a);
        c += 1;
    }
    alignments
}

/// The width of each of the `n` columns.
fn column_widths(matrix: &Vec<Vec<String>>, n: usize, align_delimiters: bool) -> (r: Vec<usize>)
    requires
        n == max_row_len(matrix_view(matrix@), matrix@.len() as int),
    ensures
        r@.len() == n,
        forall|j: int| 0 <= j < n ==> #[trigger] r@[j] == col_width(
            matrix_view(matrix@),
            j,
            matrix@.len() as int,
            align_delimiters,
        ),
{
    let ghost m = matrix_view(matrix@);
    let mut widths: Vec<usize> = Vec::new();
    let mut c: usize = 0;
    while c < n
        invariant
            c <= n,
            widths@.len() == c,
            forall|j: int| 0 <= j < c ==> #[trigger] widths@[j] == 1,
        decreases n - c,
    {
        widths.push(1);
        c += 1;
    }
    if !align_delimiters {
        proof {
            assert forall|j: int| 0 <= j < n implies #[trigger] widths@[j] == col_width(m, j, m.len() as int, false) by {}
        }
        return widths;
    }
    let mut k: usize = 0;
    while k < matrix.len()
        invariant
            k <= matrix.len(),
            m == matrix_view(matrix@),
            m.len() == matrix@.len(),
            widths@.len() == n,
            n == max_row_len(m, m.len() as int),
            align_delimiters,
            forall|j: int| 0 <= j < n ==> #[trigger] widths@[j] == col_width(m, j, k as int, true),
        decreases matrix.len() - k,
    {
        let row = &matrix[k];
        proof {
            lemma_max_row_len(m, k as int, m.len() as int);
        }
        let mut i: usize = 0;
        while i < n
            invariant
                i <= n,
                k < matrix.len(),
                m.len() == matrix@.len(),
                widths@.len() == n,
                *row == matrix@[k as int],
                m[k as int] == row@.map_values(|c: String| c@),
                row@.len() <= n,
                forall|j: int| 0 <= j < i ==> #[trigger] widths@[j] == col_width(m, j, k + 1, true),
                forall|j: int| i <= j < n ==> #[trigger] widths@[j] == col_width(m, j, k as int, true),
            decreases n - i,
        {
            let len = if i < row.len() { row[i].as_str().unicode_len() } else { 0 };
            assert(len == cell_at(m[k as int], i as int).len());
            if len > widths[i] {
                widths.set(i, len);
            }
            i += 1;
        }
        k += 1;
    }
    widths
}

/// A cell padded to its column.
fn pad_cell(cell: &str, width: usize, align: AlignKind) -> (r: String)
    ensures
        r@ == padded_cell(cell@, width as nat, align),
{
    let cell_len = cell.unicode_len();
    let pad_len = if width > cell_len { width - cell_len } else { 0 };
    match align {
        AlignKind::Right => {
            let mut s = repeat_char(' ', pad_len);
            push_str(&mut s, cell);
            s
        },
        AlignKind::Center => {
            let left = pad_len / 2;
            let right = pad_len - left;
            let mut s = repeat_char(' ', left);
            push_str(&mut s, cell);
            let tail = repeat_char(' ', right);
            push_str(&mut s, tail.as_str());
            s
        },
        _ => {
            let mut s = owned(cell);
            let tail = repeat_char(' ', pad_len);
            push_str(&mut s, tail.as_str());
            s
        },
    }
}

/// The cells of one row, padded when aligning.
fn row_cell_strings(
    row: &Vec<String>,
    widths: &Vec<usize>,
    alignments: &Vec<AlignKind>,
    align_delimiters: bool,
    Ghost(m): Ghost<Seq<Seq<Seq<char>>>>,
    Ghost(al): Ghost<Option<Seq<AlignKind>>>,
) -> (r: Vec<String>)
    requires
        widths@.len() == max_row_len(m, m.len() as int),
        alignments@.len() == widths@.len(),
        forall|j: int| 0 <= j < widths@.len() ==> #[trigger] widths@[j] == col_width(m, j, m.len() as int, align_delimiters),
        forall|j: int| 0 <= j < widths@.len() ==> #[trigger] alignments@[j] == col_align(al, j),
    ensures
        r@.map_values(|c: String| c@) =~= row_cells(m, row@.map_values(|c: String| c@), al, align_delimiters),
{
    let ghost rv = row@.map_values(|c: String| c@);
    let n = widths.len();
    let mut cells: Vec<String> = Vec::new();
    let mut col: usize = 0;
    while col < n
        invariant
            col <= n,
            n == widths@.len(),
            n == max_row_len(m, m.len() as int),
            alignments@.len() == n,
            rv == row@.map_values(|c: String| c@),
            forall|j: int| 0 <= j < n ==> #[trigger] widths@[j] == col_width(m, j, m.len() as int, align_delimiters),
            forall|j: int| 0 <= j < n ==> #[trigger] alignments@[j] == col_align(al, j),
            cells@.len() == col,
            forall|j: int| 0 <= j < col ==> #[trigger] cells@[j]@ == row_cells(m, rv, al, align_delimiters)[j],
        decreases n - col,
    {
        let cell: &str = if col < row.len() { row[col].as_str() } else { "" };
        proof {
            if col >= row.len() {
                reveal_strlit("");
            }
        }
        assert(cell@ == cell_at(rv, col as int));
        if align_delimiters {
            cells.push(pad_cell(cell, widths[col], alignments[col]));
        } else {
            cells.push(owned(cell));
        }
        col += 1;
    }
    cells
}

/// The delimiter cells.
fn delimiter_cell_strings(
    widths: &Vec<usize>,
    alignments: &Vec<AlignKind>,
    align_delimiters: bool,
    Ghost(m): Ghost<Seq<Seq<Seq<char>>>>,
    Ghost(al): Ghost<Option<Seq<AlignKind>>>,
) -> (r: Vec<String>)
    requires
        widths@.len() == max_row_len(m, m.len() as int),
        alignments@.len() == widths@.len(),
        forall|j: int| 0 <= j < widths@.len() ==> #[trigger] widths@[j] == col_width(m, j, m.len() as int, align_delimiters),
        forall|j: int| 0 <= j < widths@.len() ==> #[trigger] alignments@[j] == col_align(al, j),
    ensures
        r@.map_values(|c: String| c@) =~= delimiter_cells(m, al, align_delimiters),
{
    proof {
        reveal_strlit(":");
    }
    let n = widths.len();
    let mut delimiters: Vec<String> = Vec::new();
    let mut col: usize = 0;
    while col < n
        invariant
            col <= n,
            n == widths@.len(),
            n == max_row_len(m, m.len() as int),
            alignments@.len() == n,
            forall|j: int| 0 <= j < n ==> #[trigger] widths@[j] == col_width(m, j, m.len() as int, align_delimiters),
            forall|j: int| 0 <= j < n ==> #[trigger] alignments@[j] == col_align(al, j),
            delimiters@.len() == col,
            forall|j: int| 0 <= j < col ==> #[trigger] delimiters@[j]@ == delimiter_cells(m, al, align_delimiters)[j],
        decreases n - col,
    {
        let width = widths[col];
        let dash_count = if width > 3 { width } else { 3 };
        let piece = match alignments[col] {
            AlignKind::Left => {
                let mut s = owned(":");
                let dashes = repeat_char('-', dash_count - 1);
                push_str(&mut s, dashes.as_str());
                s
            },
            AlignKind::Right => {
                let mut s = repeat_char('-', dash_count - 1);
                push_str(&mut s, ":");
                s
            },
            AlignKind::Center => {
                let mut s = owned(":");
                let dashes = repeat_char('-', if dash_count > 2 { dash_count - 2 } else { 1 });
                push_str(&mut s, dashes.as_str());
                push_str(&mut s, ":");
                s
            },
            AlignKind::Unset => repeat_char('-', dash_count),
        };
        delimiters.push(piece);
        col += 1;
    }
    delimiters
}

/// Format a matrix of strings into a markdown table.
pub fn serialize_data(
    matrix: &Vec<Vec<String>>,
    align: Option<&Vec<AlignKind>>,
    align_delimiters: bool,
    padding: bool,
) -> (r: String)
    ensures
        r@ == table_spec(
            matrix_view(matrix@),
            match align {
                Some(a) => Some(a@),
                None => None,
            },
            align_delimiters,
            padding,
        ),
{
    let ghost m = matrix_view(matrix@);
    let ghost al: Option<Seq<AlignKind>> = match align {
        Some(a) => Some(a@),
        None => None,
    };
    let column_count = column_count_of(matrix);
    if column_count == 0 {
        return String::new();
    }
    let alignments = column_alignments(align, column_count);
    let widths = column_widths(matrix, column_count, align_delimiters);
    let ghost lines = table_lines(m, al, align_delimiters, padding);
    proof {
        reveal_strlit("\n");
        assert(m.len() > 0);
    }
    let mut out = String::new();
    let mut row_idx: usize = 0;
    while row_idx < matrix.len()
        invariant
            row_idx <= matrix.len(),
            m == matrix_view(matrix@),
            m.len() == matrix@.len(),
            m.len() > 0,
            column_count == max_row_len(m, m.len() as int),
            widths@.len() == column_count,
            alignments@.len() == column_count,
            forall|j: int| 0 <= j < column_count ==> #[trigger] widths@[j] == col_width(m, j, m.len() as int, align_delimiters),
            forall|j: int| 0 <= j < column_count ==> #[trigger] alignments@[j] == col_align(al, j),
            lines == table_lines(m, al, align_delimiters, padding),
            out@ == join_with(lines, "\n"@, if row_idx == 0 { 0 } else { row_idx + 1 }),
        decreases matrix.len() - row_idx,
    {
        let cells = row_cell_strings(&matrix[row_idx], &widths, &alignments, align_delimiters, Ghost(m), Ghost(al));
        proof {
            assert(m[row_idx as int] == matrix@[row_idx as int]@.map_values(|c: String| c@));
        }
        if row_idx > 0 {
            push_str(&mut out, "\n");
        }
        push_pipe_line(&mut out, &cells, padding);
        if row_idx == 0 {
            let delimiters = delimiter_cell_strings(&widths, &alignments, align_delimiters, Ghost(m), Ghost(al));
            push_str(&mut out, "\n");
            push_pipe_line(&mut out, &delimiters, padding);
            proof {
                assert(join_with(lines, "\n"@, 1) == lines[0]);
                assert(out@ =~= join_with(lines, "\n"@, 2));
            }
        } else {
            proof {
                assert(out@ =~= join_with(lines, "\n"@, row_idx + 2));
            }
        }
        row_idx += 1;
    }
    proof {
        assert(lines.len() == m.len() + 1);
    }
    out
}

/// Every row of the first `k` is at most as long as the longest of them.
proof fn lemma_max_row_len(m: Seq<Seq<Seq<char>>>, i: int, k: int)
    requires
        0 <= i < k <= m.len(),
    ensures
        m[i].len() <= max_row_len(m, k),
    decreases k,
{
    if i < k - 1 {
        lemma_max_row_len(m, i, k - 1);
    }
}

/// Serialize a table cell to its string value: its children as phrasing
/// between spaces.
#[verifier::loop_isolation(false)]
fn handle_table_cell_value(node: &Node, state: &mut State, info: &Info, padding: bool) -> (r: String)
    requires
        marker_ok(*old(state)),
        crate::container_phrasing::phrasing_children(*node).len() == 0 || crate::state::children_ok(
            old(state).handlers.lookup_fn(),
            old(state).options,
            *node,
            old(state).bullet_current is Some,
            node_children(*node).len() as int,
        ),
    ensures
        preserved(*old(state), *final(state)),
        padding ==> wrote(*final(state), r@, cell_value(cfg_of(*old(state)), ctx_of(*old(state)), *node)),
    decreases node, 6int,
{
    let ghost s0 = *state;
    let around = if padding { " " } else { "|" };
    state.enter(ConstructName::TableCell);
    state.enter(ConstructName::Phrasing);
    let value = state.container_phrasing(
        node,
        &Info {
            before: owned(around),
            after: owned(around),
            line: info.line,
            column: info.column,
            line_shift: info.line_shift,
        },
    );
    state.exit();
    state.exit();
    proof {
        assert(state.stack@ =~= s0.stack@);
    }
    value
}

/// Convert a table row node to its cell strings (none for another node).
#[verifier::loop_isolation(false)]
fn handle_table_row_as_data(node: &Node, state: &mut State, info: &Info) -> (r: Vec<String>)
    requires
        marker_ok(*old(state)),
        node is TableRow ==> crate::state::children_ok(
            old(state).handlers.lookup_fn(),
            old(state).options,
            *node,
            old(state).bullet_current is Some,
            node_children(*node).len() as int,
        ),
    ensures
        preserved(*old(state), *final(state)),
        r@.len() == match *node {
            Node::TableRow(row) => row.children@.len(),
            _ => 0,
        },
        r@.map_values(|c: String| c@) == row_data(cfg_of(*old(state)), ctx_of(*old(state)), *node).0,
        trail_of(*final(state)) == row_data(cfg_of(*old(state)), ctx_of(*old(state)), *node).1,
    decreases node, 7int,
{
    let ghost s0 = *state;
    let ghost cfg = cfg_of(*state);
    let ghost c0 = ctx_of(*state);
    let children = match node {
        Node::TableRow(row) => &row.children,
        _ => {
            return Vec::new();
        },
    };
    state.enter(ConstructName::TableRow);
    let mut result: Vec<String> = Vec::new();
    let mut i: usize = 0;
    proof {
        assert(result@.map_values(|c: String| c@) =~= Seq::<Seq<char>>::empty());
        assert(ctx_of(*state) =~= inside(c0, ConstructName::TableRow));
    }
    while i < children.len()
        invariant
            cfg == cfg_of(s0),
            c0 == ctx_of(s0),
            result@.map_values(|c: String| c@) == cells_acc(cfg, inside(c0, ConstructName::TableRow), *node, i as int).0,
            ctx_of(*state) == cells_acc(cfg, inside(c0, ConstructName::TableRow), *node, i as int).1,
            *children == match *node {
                Node::TableRow(row) => row.children,
                _ => *children,
            },
            children@ == node_children(*node),
            i <= children.len(),
            result@.len() == i,
            state.stack@ == s0.stack@.push(ConstructName::TableRow),
            state.index_stack@ == s0.index_stack@,
            state.handlers == s0.handlers,
            state.peek_handlers == s0.peek_handlers,
            state.unsafe_patterns@ == s0.unsafe_patterns@,
            state.join@ == s0.join@,
            state.options == s0.options,
            state.bullet_current == s0.bullet_current,
        decreases children.len() - i,
    {
        proof {
            lemma_children_decrease(*node);
            assert(decreases_to!(*node => children@[i as int]));
            lemma_children_ok(
                s0.handlers.lookup_fn(),
                s0.options,
                *node,
                s0.bullet_current is Some,
                node_children(*node).len() as int,
                i as int,
            );
            if !(children@[i as int] is List) {
                lemma_tree_children(s0, children@[i as int]);
            }
        }
        let ghost pre = result@.map_values(|c: String| c@);
        let value = handle_table_cell_value(&children[i], state, info, true);
        result.push(value);
        proof {
            assert(result@.map_values(|c: String| c@) =~= pre.push(value@));
            assert(ctx_of(*state) =~= cells_acc(cfg, inside(c0, ConstructName::TableRow), *node, i + 1).1);
        }
        i += 1;
    }
    state.exit();
    proof {
        assert(state.stack@ =~= s0.stack@);
    }
    result
}

/// A node other than a list that can be serialized has children that can be,
/// with the same list marker in use.
proof fn lemma_tree_children(s: State, n: Node)
    requires
        crate::state::tree_ok(s.handlers.lookup_fn(), s.options, n, s.bullet_current is Some),
        !(n is List),
    ensures
        crate::state::children_ok(
            s.handlers.lookup_fn(),
            s.options,
            n,
            s.bullet_current is Some,
            node_children(n).len() as int,
        ),
{
}

/// Handle a table node: its rows as a matrix of cells, laid out as a table with
/// the column alignments.
#[verifier::loop_isolation(false)]
pub fn handle_table(node: &Node, _parent: Option<&Node>, state: &mut State, info: &Info) -> (r: String)
    requires
        serializable(*old(state), *node, HandlerFn::Table),
    ensures
        wrote(
            *final(state),
            r@,
            ser_with(
                cfg_of(*old(state)),
                ctx_of(*old(state)),
                HandlerFn::Table,
                *node,
                opt_node(_parent),
                info.before@,
                info.after@,
            ),
        ),
        preserved(*old(state), *final(state)),
    decreases node, 8int,
{
    match node {
        Node::Table(table) => {
            let ghost s0 = *state;
            let ghost cfg = cfg_of(*state);
            let ghost c0 = ctx_of(*state);
            let mut matrix: Vec<Vec<String>> = Vec::new();
            state.enter(ConstructName::Table);
            let mut i: usize = 0;
            proof {
                assert(matrix_view(matrix@) =~= Seq::<Seq<Seq<char>>>::empty());
                assert(ctx_of(*state) =~= inside(c0, ConstructName::Table));
            }
            while i < table.children.len()
                invariant
                    cfg == cfg_of(s0),
                    c0 == ctx_of(s0),
                    matrix_view(matrix@) == table_rows(cfg, inside(c0, ConstructName::Table), *node, i as int).0,
                    ctx_of(*state) == table_rows(cfg, inside(c0, ConstructName::Table), *node, i as int).1,
                    i <= table.children.len(),
                    table.children@ == node_children(*node),
                    matrix@.len() == i,
                    state.stack@ == s0.stack@.push(ConstructName::Table),
                    state.index_stack@ == s0.index_stack@,
                    state.handlers == s0.handlers,
                    state.peek_handlers == s0.peek_handlers,
                    state.unsafe_patterns@ == s0.unsafe_patterns@,
                    state.join@ == s0.join@,
                    state.options == s0.options,
                    state.bullet_current == s0.bullet_current,
                decreases table.children.len() - i,
            {
                proof {
                    lemma_children_decrease(*node);
                    assert(decreases_to!(*node => table.children@[i as int]));
                    lemma_children_ok(
                        s0.handlers.lookup_fn(),
                        s0.options,
                        *node,
                        s0.bullet_current is Some,
                        node_children(*node).len() as int,
                        i as int,
                    );
                    if table.children@[i as int] is TableRow {
                        lemma_tree_children(s0, table.children@[i as int]);
                    }
                }
                let ghost pre = matrix_view(matrix@);
                let row = handle_table_row_as_data(&table.children[i], state, info);
                let ghost rv = row@.map_values(|c: String| c@);
                matrix.push(row);
                proof {
                    assert(matrix_view(matrix@) =~= pre.push(rv));
                    assert(ctx_of(*state) =~= table_rows(cfg, inside(c0, ConstructName::Table), *node, i + 1).1);
                }
                i += 1;
            }
            state.exit();
            proof {
                assert(state.stack@ =~= s0.stack@);
            }
            serialize_data(&matrix, Some(&table.align), true, true)
        },
        _ => String::new(),
    }
}

/// The end of the line that position `i` is on: the next line feed, or the end.
pub open spec fn line_end(v: Seq<char>, i: int) -> int
    decreases v.len() - i,
{
    if i < 0 || i >= v.len() {
        v.len() as int
    } else if v[i] == '\n' {
        i
    } else {
        line_end(v, i + 1)
    }
}

/// The text before the first line feed.
pub open spec fn first_line(v: Seq<char>) -> Seq<char> {
    v.subrange(0, line_end(v, 0))
}

/// Handle a table row node on its own: the first line of a table of that row.
#[verifier::loop_isolation(false)]
pub fn handle_table_row(node: &Node, _parent: Option<&Node>, state: &mut State, info: &Info) -> (r: String)
    requires
        serializable(*old(state), *node, HandlerFn::TableRow),
    ensures
        wrote(
            *final(state),
            r@,
            ser_with(
                cfg_of(*old(state)),
                ctx_of(*old(state)),
                HandlerFn::TableRow,
                *node,
                opt_node(_parent),
                info.before@,
                info.after@,
            ),
        ),
        preserved(*old(state), *final(state)),
    decreases node, 8int,
{
    let row = handle_table_row_as_data(node, state, info);
    let mut rows: Vec<Vec<String>> = Vec::new();
    let ghost rv = row@.map_values(|c: String| c@);
    rows.push(row);
    proof {
        assert(matrix_view(rows@) =~= seq![rv]);
    }
    let value = serialize_data(&rows, None, true, true);
    let v = crate::text::chars_of(value.as_str());
    let mut i: usize = 0;
    while i < v.len()
        invariant
            i <= v.len(),
            v@ == value@,
            line_end(value@, 0) == line_end(value@, i as int),
        decreases v.len() - i,
    {
        if v[i] == '\n' {
            return substring(value.as_str(), 0, i);
        }
        i += 1;
    }
    proof {
        assert(value@.subrange(0, value@.len() as int) =~= value@);
    }
    value
}

/// Handle a table cell node on its own.
pub fn handle_table_cell(node: &Node, _parent: Option<&Node>, state: &mut State, info: &Info) -> (r: String)
    requires
        serializable(*old(state), *node, HandlerFn::TableCell),
    ensures
        wrote(
            *final(state),
            r@,
            ser_with(
                cfg_of(*old(state)),
                ctx_of(*old(state)),
                HandlerFn::TableCell,
                *node,
                opt_node(_parent),
                info.before@,
                info.after@,
            ),
        ),
        preserved(*old(state), *final(state)),
    decreases node, 8int,
{
    handle_table_cell_value(node, state, info, true)
}

}
