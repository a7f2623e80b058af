//! Tables with a frame, as the command line tool prints them.
use crate::error::{failure, Error, ErrorView};
use crate::text::{byte_len, chars_of, repeat};
use vstd::prelude::*;
use vstd::utf8::encode_utf8;

verus! {

/// The title above every table.
pub const REPORT_PRODUCT_TITLE: &'static str = "CUSTOS USB AUTHORIZATION DAEMON";

// ---- Widths ----------------------------------------------------------------------------------

/// The room that a text is given: its length in bytes.
pub open spec fn text_width(s: Seq<char>) -> nat {
    encode_utf8(s).len()
}

/// The larger of two numbers.
pub open spec fn larger(a: nat, b: nat) -> nat {
    if a < b {
        b
    } else {
        a
    }
}

/// The width of a column: that of its widest cell.
pub open spec fn column_width(header: Seq<char>, rows: Seq<Seq<Seq<char>>>, column: int) -> nat
    decreases rows.len(),
{
    if rows.len() == 0 {
        text_width(header)
    } else {
        larger(
            column_width(header, rows.drop_last(), column),
            text_width(rows.last()[column]),
        )
    }
}

/// The widths of the columns.
pub open spec fn table_widths(headers: Seq<Seq<char>>, rows: Seq<Seq<Seq<char>>>) -> Seq<nat> {
    Seq::new(headers.len(), |i: int| column_width(headers[i], rows, i))
}

/// The sum of some widths.
pub open spec fn widths_sum(widths: Seq<nat>) -> nat
    decreases widths.len(),
{
    if widths.len() == 0 {
        0
    } else {
        widths_sum(widths.drop_last()) + widths.last()
    }
}

/// The width of a table: of every column, with a space on both sides, and of the lines between
/// and around them.
pub open spec fn table_width(widths: Seq<nat>) -> nat {
    widths_sum(widths) + widths.len() * 3 + 1
}

/// Why a table cannot be printed.
pub open spec fn table_failure(headers: Seq<Seq<char>>, rows: Seq<Seq<Seq<char>>>) -> Option<
    ErrorView,
> {
    if headers.len() == 0 {
        Some(ErrorView::Protocol("cannot render a table without headers"@))
    } else if exists|i: int| 0 <= i < rows.len() && (#[trigger] rows[i]).len() != headers.len() {
        Some(ErrorView::Protocol("cannot render a table with inconsistent row widths"@))
    } else {
        None
    }
}

// ---- Lines -----------------------------------------------------------------------------------

/// A text with spaces behind it up to a width, in characters.
pub open spec fn padded(cell: Seq<char>, width: nat) -> Seq<char> {
    if cell.len() < width {
        cell + repeat(' ', (width - cell.len()) as nat)
    } else {
        cell
    }
}

/// The cells of a row, each behind a line.
pub open spec fn cells_text(cells: Seq<Seq<char>>, widths: Seq<nat>) -> Seq<char>
    decreases cells.len(),
{
    if cells.len() == 0 {
        Seq::empty()
    } else {
        cells_text(cells.drop_last(), widths) + ("│ "@ + padded(
            cells.last(),
            widths[cells.len() - 1],
        ) + " "@)
    }
}

/// A row.
pub open spec fn row_text(cells: Seq<Seq<char>>, widths: Seq<nat>) -> Seq<char> {
    cells_text(cells, widths) + "│\n"@
}

/// The rows.
pub open spec fn rows_text(rows: Seq<Seq<Seq<char>>>, widths: Seq<nat>) -> Seq<char>
    decreases rows.len(),
{
    if rows.len() == 0 {
        Seq::empty()
    } else {
        rows_text(rows.drop_last(), widths) + row_text(rows.last(), widths)
    }
}

/// The part of a line across the table that the first `n` columns take up.
pub open spec fn rule_columns(widths: Seq<nat>, n: int, middle: char, right: char) -> Seq<char>
    decreases n,
{
    if n <= 0 {
        Seq::empty()
    } else {
        rule_columns(widths, n - 1, middle, right) + repeat(
            '─',
            (widths[n - 1] + 2) as nat,
        ).push(
            if n == widths.len() {
                right
            } else {
                middle
            },
        )
    }
}

/// A line across the table.
pub open spec fn rule_text(widths: Seq<nat>, left: char, middle: char, right: char) -> Seq<char> {
    seq![left] + rule_columns(widths, widths.len() as int, middle, right) + seq!['\n']
}

/// The two lines at the top.
pub open spec fn header_text(widths: Seq<nat>) -> Seq<char> {
    let inner = (table_width(widths) - 2) as nat;
    seq!['┌'] + repeat('┬', inner) + "┐\n"@ + seq!['├'] + repeat('┴', inner) + "┤\n"@
}

/// A text in the middle of some room, with the odd space behind it.
pub open spec fn centered(value: Seq<char>, width: int) -> Seq<char> {
    let padding = if width > text_width(value) {
        width - text_width(value)
    } else {
        0
    };
    repeat(' ', (padding / 2) as nat) + value + repeat(' ', (padding - padding / 2) as nat)
}

/// A title.
pub open spec fn title_text(widths: Seq<nat>, title: Seq<char>) -> Seq<char> {
    "│ "@ + centered(title, table_width(widths) - 4) + " │\n"@
}

/// The titles.
pub open spec fn titles_text(widths: Seq<nat>, titles: Seq<Seq<char>>) -> Seq<char>
    decreases titles.len(),
{
    if titles.len() == 0 {
        Seq::empty()
    } else {
        titles_text(widths, titles.drop_last()) + title_text(widths, titles.last())
    }
}

/// A table.
pub open spec fn table_text(
    titles: Seq<Seq<char>>,
    headers: Seq<Seq<char>>,
    rows: Seq<Seq<Seq<char>>>,
) -> Seq<char> {
    let widths = table_widths(headers, rows);
    header_text(widths) + title_text(widths, REPORT_PRODUCT_TITLE@) + titles_text(widths, titles)
        + rule_text(widths, '├', '┬', '┤') + row_text(headers, widths) + rule_text(
        widths,
        '├',
        '┼',
        '┤',
    ) + rows_text(rows, widths) + rule_text(widths, '└', '┴', '┘')
}

// ---- Printing --------------------------------------------------------------------------------

/// The widths, as plain numbers.
pub open spec fn numbers(widths: Seq<usize>) -> Seq<nat> {
    Seq::new(widths.len(), |i: int| widths[i] as nat)
}

fn push_many(s: &mut String, c: char, n: u128)
    ensures
        final(s)@ == old(s)@ + repeat(c, n as nat),
{
    let ghost start = s@;
    let mut i: u128 = 0;
    assert(start =~= start + repeat(c, 0));
    while i < n
        invariant
            i <= n,
            s@ == start + repeat(c, i as nat),
        decreases n - i,
    {
        s.push(c);
        assert(s@ =~= start + repeat(c, (i + 1) as nat));
        i += 1;
    }
}

fn report_table_widths(headers: &Vec<String>, rows: &Vec<Vec<String>>) -> (r: Result<
    Vec<usize>,
    Error,
>)
    ensures
        match r {
            Ok(widths) => table_failure(headers.deep_view(), rows.deep_view()) is None && numbers(
                widths@,
            ) == table_widths(headers.deep_view(), rows.deep_view()),
            Err(error) => Some(error@) == table_failure(headers.deep_view(), rows.deep_view()),
        },
{
    let ghost h = headers.deep_view();
    let ghost all = rows.deep_view();
    if headers.len() == 0 {
        return Err(Error::Protocol("cannot render a table without headers".to_owned()));
    }
    let mut widths: Vec<usize> = Vec::new();
    for i in 0..headers.len()
        invariant
            h == headers.deep_view(),
            widths@.len() == i,
            forall|j: int| 0 <= j < i ==> #[trigger] widths@[j] == text_width(h[j]),
    {
        assert(h[i as int] == headers@[i as int]@);
        widths.push(byte_len(headers[i].as_str()));
    }
    assert(all.take(0) =~= Seq::empty());
    for k in 0..rows.len()
        invariant
            h == headers.deep_view(),
            h.len() == headers@.len(),
            h.len() > 0,
            all == rows.deep_view(),
            widths@.len() == h.len(),
            forall|j: int| 0 <= j < k ==> (#[trigger] all[j]).len() == h.len(),
            forall|j: int|
                0 <= j < h.len() ==> #[trigger] widths@[j] == column_width(
                    h[j],
                    all.take(k as int),
                    j,
                ),
    {
        let row = &rows[k];
        proof {
            assert(all[k as int] == row.deep_view());
            assert(all.take(k + 1).drop_last() =~= all.take(k as int));
            assert(all.take(k + 1).last() == all[k as int]);
        }
        if row.len() != headers.len() {
            assert(all[k as int].len() != h.len());
            return Err(
                Error::Protocol("cannot render a table with inconsistent row widths".to_owned()),
            );
        }
        for i in 0..row.len()
            invariant
                row.deep_view() == all[k as int],
                k < all.len(),
                row@.len() == h.len(),
                widths@.len() == h.len(),
                all.take(k + 1).drop_last() == all.take(k as int),
                all.take(k + 1).last() == all[k as int],
                forall|j: int|
                    0 <= j < i ==> #[trigger] widths@[j] == column_width(
                        h[j],
                        all.take(k + 1),
                        j,
                    ),
                forall|j: int|
                    i <= j < h.len() ==> #[trigger] widths@[j] == column_width(
                        h[j],
                        all.take(k as int),
                        j,
                    ),
        {
            assert(all[k as int][i as int] == row@[i as int]@);
            let width = byte_len(row[i].as_str());
            if widths[i] < width {
                widths.set(i, width);
            }
        }
    }
    proof {
        assert(all.take(all.len() as int) =~= all);
        assert(numbers(widths@) =~= table_widths(h, all));
    }
    Ok(widths)
}

proof fn lemma_sum_bound(widths: Seq<usize>)
    ensures
        widths_sum(numbers(widths)) <= widths.len() * (usize::MAX as nat),
    decreases widths.len(),
{
    if widths.len() > 0 {
        lemma_sum_bound(widths.drop_last());
        assert(numbers(widths).drop_last() =~= numbers(widths.drop_last()));
        assert(widths.len() * (usize::MAX as nat) == (widths.len() - 1) * (usize::MAX as nat)
            + (usize::MAX as nat)) by (nonlinear_arith)
            requires
                widths.len() > 0,
        ;
    }
}

proof fn lemma_sum_grows(widths: Seq<nat>, n: int)
    requires
        0 <= n <= widths.len(),
    ensures
        widths_sum(widths.take(n)) <= widths_sum(widths),
    decreases widths.len() - n,
{
    if n == widths.len() {
        assert(widths.take(n) =~= widths);
    } else {
        lemma_sum_grows(widths, n + 1);
        assert(widths.take(n + 1).drop_last() =~= widths.take(n));
    }
}

/// The width of a table in two parts: the columns, and what stands between and around them. The
/// parts are kept apart since their sum need not fit.
fn report_table_width(widths: &Vec<usize>) -> (r: (u128, u128))
    ensures
        r.0 + r.1 == table_width(numbers(widths@)),
        r.1 == widths@.len() * 3 + 1,
{
    let ghost all = numbers(widths@);
    let mut sum: u128 = 0;
    proof {
        lemma_sum_bound(widths@);
        assert(widths@.len() * (usize::MAX as nat) <= 0xffff_ffff_ffff_ffff * 0xffff_ffff_ffff_ffff)
            by (nonlinear_arith)
            requires
                widths@.len() <= 0xffff_ffff_ffff_ffff,
                usize::MAX as nat <= 0xffff_ffff_ffff_ffff,
        ;
        assert(all.take(0) =~= Seq::empty());
    }
    for i in 0..widths.len()
        invariant
            all == numbers(widths@),
            widths_sum(all) <= 0xffff_ffff_ffff_ffff * 0xffff_ffff_ffff_ffff,
            sum == widths_sum(all.take(i as int)),
    {
        proof {
            assert(all.take(i + 1).drop_last() =~= all.take(i as int));
            lemma_sum_grows(all, i + 1);
        }
        sum += widths[i] as u128;
    }
    assert(all.take(all.len() as int) =~= all);
    (sum, widths.len() as u128 * 3 + 1)
}

fn render_report_table_header(output: &mut String, widths: &Vec<usize>)
    requires
        0 < widths@.len(),
    ensures
        final(output)@ == old(output)@ + header_text(numbers(widths@)),
{
    let ghost start = output@;
    let (columns, frame) = report_table_width(widths);
    output.push('┌');
    push_many(output, '┬', columns);
    push_many(output, '┬', frame - 2);
    output.append("┐\n");
    output.push('├');
    push_many(output, '┴', columns);
    push_many(output, '┴', frame - 2);
    output.append("┤\n");
    assert(output@ =~= start + header_text(numbers(widths@)));
}

fn push_padded(output: &mut String, cell: &str, width: usize)
    ensures
        final(output)@ == old(output)@ + padded(cell@, width as nat),
{
    let ghost start = output@;
    let count = chars_of(cell).len();
    output.append(cell);
    if count < width {
        push_many(output, ' ', (width - count) as u128);
    }
    assert(output@ =~= start + padded(cell@, width as nat));
}

fn render_report_table_row(output: &mut String, widths: &Vec<usize>, cells: &Vec<String>)
    requires
        cells@.len() == widths@.len(),
    ensures
        final(output)@ == old(output)@ + row_text(cells.deep_view(), numbers(widths@)),
{
    let ghost start = output@;
    let ghost all = cells.deep_view();
    let ghost w = numbers(widths@);
    proof {
        assert(all.take(0) =~= Seq::empty());
        assert(output@ =~= start + cells_text(all.take(0), w));
    }
    for i in 0..cells.len()
        invariant
            all == cells.deep_view(),
            w == numbers(widths@),
            cells@.len() == widths@.len(),
            output@ == start + cells_text(all.take(i as int), w),
    {
        let ghost before = cells_text(all.take(i as int), w);
        proof {
            assert(all.take(i + 1).drop_last() =~= all.take(i as int));
            assert(all[i as int] == cells@[i as int]@);
        }
        output.append("│ ");
        push_padded(output, cells[i].as_str(), widths[i]);
        output.append(" ");
        assert(output@ =~= start + (before + ("│ "@ + padded(all[i as int], w[i as int]) + " "@)));
    }
    assert(all.take(all.len() as int) =~= all);
    output.append("│\n");
    assert(output@ =~= start + row_text(all, w));
}

fn render_report_table_rule(
    output: &mut String,
    widths: &Vec<usize>,
    left: char,
    middle: char,
    right: char,
)
    ensures
        final(output)@ == old(output)@ + rule_text(numbers(widths@), left, middle, right),
{
    let ghost start = output@;
    let ghost w = numbers(widths@);
    output.push(left);
    assert(output@ =~= start + (seq![left] + rule_columns(w, 0, middle, right)));
    for i in 0..widths.len()
        invariant
            w == numbers(widths@),
            output@ == start + (seq![left] + rule_columns(w, i as int, middle, right)),
    {
        let ghost before = rule_columns(w, i as int, middle, right);
        push_many(output, '─', widths[i] as u128 + 2);
        if i + 1 == widths.len() {
            output.push(right);
        } else {
            output.push(middle);
        }
        let ghost last = if i + 1 == w.len() {
            right
        } else {
            middle
        };
        assert(output@ =~= start + (seq![left] + (before + repeat(
            '─',
            (w[i as int] + 2) as nat,
        ).push(last))));
    }
    output.push('\n');
    assert(output@ =~= start + rule_text(w, left, middle, right));
}

fn render_report_table_title(output: &mut String, widths: &Vec<usize>, title: &str)
    requires
        0 < widths@.len(),
    ensures
        final(output)@ == old(output)@ + title_text(numbers(widths@), title@),
{
    let ghost start = output@;
    let (columns, frame) = report_table_width(widths);
    assert(widths@.len() == widths.len());
    let room: u128 = frame - 4;
    let length = byte_len(title) as u128;
    let left: u128;
    let right: u128;
    if length <= columns {
        let rest: u128 = columns - length;
        let odd: u128 = rest % 2 + room % 2;
        left = rest / 2 + room / 2 + odd / 2;
        right = left + odd % 2;
    } else if length < columns + room {
        let padding: u128 = columns + room - length;
        left = padding / 2;
        right = padding - left;
    } else {
        left = 0;
        right = 0;
    }
    output.append("│ ");
    push_many(output, ' ', left);
    output.append(title);
    push_many(output, ' ', right);
    output.append(" │\n");
    assert(output@ =~= start + title_text(numbers(widths@), title@));
}

fn render_titles(output: &mut String, widths: &Vec<usize>, titles: &Vec<String>)
    requires
        0 < widths@.len(),
    ensures
        final(output)@ == old(output)@ + titles_text(numbers(widths@), titles.deep_view()),
{
    let ghost start = output@;
    let ghost all = titles.deep_view();
    let ghost w = numbers(widths@);
    proof {
        assert(all.take(0) =~= Seq::empty());
        assert(output@ =~= start + titles_text(w, all.take(0)));
    }
    for i in 0..titles.len()
        invariant
            all == titles.deep_view(),
            w == numbers(widths@),
            0 < widths@.len(),
            output@ == start + titles_text(w, all.take(i as int)),
    {
        let ghost before = titles_text(w, all.take(i as int));
        proof {
            assert(all.take(i + 1).drop_last() =~= all.take(i as int));
            assert(all[i as int] == titles@[i as int]@);
        }
        render_report_table_title(output, widths, titles[i].as_str());
        assert(output@ =~= start + (before + title_text(w, all[i as int])));
    }
    assert(all.take(all.len() as int) =~= all);
}

fn render_rows(output: &mut String, widths: &Vec<usize>, rows: &Vec<Vec<String>>)
    requires
        forall|i: int| 0 <= i < rows@.len() ==> (#[trigger] rows@[i])@.len() == widths@.len(),
    ensures
        final(output)@ == old(output)@ + rows_text(rows.deep_view(), numbers(widths@)),
{
    let ghost start = output@;
    let ghost all = rows.deep_view();
    let ghost w = numbers(widths@);
    proof {
        assert(all.take(0) =~= Seq::empty());
        assert(output@ =~= start + rows_text(all.take(0), w));
    }
    for i in 0..rows.len()
        invariant
            all == rows.deep_view(),
            w == numbers(widths@),
            forall|j: int| 0 <= j < rows@.len() ==> (#[trigger] rows@[j])@.len() == widths@.len(),
            output@ == start + rows_text(all.take(i as int), w),
    {
        let ghost before = rows_text(all.take(i as int), w);
        proof {
            assert(all.take(i + 1).drop_last() =~= all.take(i as int));
            assert(all[i as int] == rows@[i as int].deep_view());
        }
        render_report_table_row(output, widths, &rows[i]);
        assert(output@ =~= start + (before + row_text(all[i as int], w)));
    }
    assert(all.take(all.len() as int) =~= all);
}

proof fn lemma_appended(start: Seq<char>, text: Seq<char>, more: Seq<char>)
    ensures
        (start + text) + more == start + (text + more),
{
    assert((start + text) + more =~= start + (text + more));
}

/// Adds a table to what is printed.
pub fn render_report_table(
    output: &mut String,
    titles: &Vec<String>,
    headers: &Vec<String>,
    rows: &Vec<Vec<String>>,
) -> (r: Result<(), Error>)
    ensures
        failure(r) == table_failure(headers.deep_view(), rows.deep_view()),
        final(output)@ == (if r is Ok {
            old(output)@ + table_text(titles.deep_view(), headers.deep_view(), rows.deep_view())
        } else {
            old(output)@
        }),
{
    let ghost start = output@;
    let ghost h = headers.deep_view();
    let ghost all = rows.deep_view();
    let widths = match report_table_widths(headers, rows) {
        Err(error) => {
            return Err(error);
        },
        Ok(widths) => widths,
    };
    let ghost w = numbers(widths@);
    proof {
        assert(w.len() == table_widths(h, all).len());
        assert forall|i: int| 0 <= i < rows@.len() implies (#[trigger] rows@[i])@.len()
            == widths@.len() by {
            assert(all[i] == rows@[i].deep_view());
        }
    }
    render_report_table_header(output, &widths);
    let ghost mut text = header_text(w);
    render_report_table_title(output, &widths, REPORT_PRODUCT_TITLE);
    proof {
        lemma_appended(start, text, title_text(w, REPORT_PRODUCT_TITLE@));
        text = text + title_text(w, REPORT_PRODUCT_TITLE@);
    }
    render_titles(output, &widths, titles);
    proof {
        lemma_appended(start, text, titles_text(w, titles.deep_view()));
        text = text + titles_text(w, titles.deep_view());
    }
    render_report_table_rule(output, &widths, '├', '┬', '┤');
    proof {
        lemma_appended(start, text, rule_text(w, '├', '┬', '┤'));
        text = text + rule_text(w, '├', '┬', '┤');
    }
    render_report_table_row(output, &widths, headers);
    proof {
        lemma_appended(start, text, row_text(h, w));
        text = text + row_text(h, w);
    }
    render_report_table_rule(output, &widths, '├', '┼', '┤');
    proof {
        lemma_appended(start, text, rule_text(w, '├', '┼', '┤'));
        text = text + rule_text(w, '├', '┼', '┤');
    }
    render_rows(output, &widths, rows);
    proof {
        lemma_appended(start, text, rows_text(all, w));
        text = text + rows_text(all, w);
    }
    render_report_table_rule(output, &widths, '└', '┴', '┘');
    proof {
        lemma_appended(start, text, rule_text(w, '└', '┴', '┘'));
        text = text + rule_text(w, '└', '┴', '┘');
    }
    Ok(())
}

// ---- Laws ------------------------------------------------------------------------------------

proof fn lemma_cells_length(cells: Seq<Seq<char>>, widths: Seq<nat>)
    requires
        cells.len() <= widths.len(),
        forall|i: int| 0 <= i < cells.len() ==> (#[trigger] cells[i]).len() <= widths[i],
    ensures
        cells_text(cells, widths).len() == widths_sum(widths.take(cells.len() as int))
            + cells.len() * 3,
    decreases cells.len(),
{
    reveal_strlit("│ ");
    reveal_strlit(" ");
    let n = cells.len() as int;
    if n == 0 {
        assert(widths.take(0) =~= Seq::empty());
    } else {
        assert forall|i: int| 0 <= i < n - 1 implies (
        #[trigger] cells.drop_last()[i]).len() <= widths[i] by {
            assert(cells.drop_last()[i] == cells[i]);
        }
        lemma_cells_length(cells.drop_last(), widths);
        assert(widths.take(n).drop_last() =~= widths.take(n - 1));
        assert(cells[n - 1].len() <= widths[n - 1]);
    }
}

proof fn lemma_rule_length(widths: Seq<nat>, n: int, middle: char, right: char)
    requires
        0 <= n <= widths.len(),
    ensures
        rule_columns(widths, n, middle, right).len() == widths_sum(widths.take(n)) + n * 3,
    decreases n,
{
    if n == 0 {
        assert(widths.take(0) =~= Seq::empty());
    } else {
        lemma_rule_length(widths, n - 1, middle, right);
        assert(widths.take(n).drop_last() =~= widths.take(n - 1));
    }
}

/// Rows and the lines between them are all of the table's width, where no cell has more
/// characters than its column has room.
pub proof fn law_lines_are_as_wide_as_the_table(
    cells: Seq<Seq<char>>,
    widths: Seq<nat>,
    left: char,
    middle: char,
    right: char,
)
    requires
        cells.len() == widths.len(),
        forall|i: int| 0 <= i < cells.len() ==> (#[trigger] cells[i]).len() <= widths[i],
    ensures
        row_text(cells, widths).len() == table_width(widths) + 1,
        rule_text(widths, left, middle, right).len() == table_width(widths) + 1,
{
    reveal_strlit("│\n");
    lemma_cells_length(cells, widths);
    lemma_rule_length(widths, widths.len() as int, middle, right);
    assert(widths.take(widths.len() as int) =~= widths);
}

proof fn lemma_text_width(s: Seq<char>)
    ensures
        s.len() <= text_width(s),
    decreases s.len(),
{
    if s.len() > 0 {
        lemma_text_width(s.drop_first());
        assert(vstd::utf8::encode_scalar(s[0] as u32).len() >= 1);
    }
}

proof fn lemma_column_width(header: Seq<char>, rows: Seq<Seq<Seq<char>>>, column: int)
    ensures
        text_width(header) <= column_width(header, rows, column),
        forall|i: int|
            0 <= i < rows.len() ==> text_width(#[trigger] rows[i][column]) <= column_width(
                header,
                rows,
                column,
            ),
    decreases rows.len(),
{
    if rows.len() > 0 {
        lemma_column_width(header, rows.drop_last(), column);
        assert forall|i: int| 0 <= i < rows.len() implies text_width(#[trigger] rows[i][column])
            <= column_width(header, rows, column) by {
            if i < rows.len() - 1 {
                assert(rows.drop_last()[i][column] == rows[i][column]);
            }
        }
    }
}

/// No column is wider than its widest cell: its width is that of its header or of a cell.
pub proof fn law_columns_are_no_wider_than_needed(
    header: Seq<char>,
    rows: Seq<Seq<Seq<char>>>,
    column: int,
)
    ensures
        column_width(header, rows, column) == encode_utf8(header).len() || exists|i: int|
            0 <= i < rows.len() && column_width(header, rows, column) == encode_utf8(
                #[trigger] rows[i][column],
            ).len(),
    decreases rows.len(),
{
    if rows.len() > 0 {
        let rest = rows.drop_last();
        law_columns_are_no_wider_than_needed(header, rest, column);
        let before = column_width(header, rest, column);
        let n = rows.len() - 1;
        if column_width(header, rows, column) == before {
            if before != encode_utf8(header).len() {
                let i = choose|i: int|
                    0 <= i < rest.len() && before == encode_utf8(#[trigger] rest[i][column]).len();
                assert(rows[i][column] == rest[i][column]);
            }
        } else {
            assert(rows[n][column] == rows.last()[column]);
        }
    }
}

/// Every column of a table has room for each of its cells.
pub proof fn law_columns_have_room(headers: Seq<Seq<char>>, rows: Seq<Seq<Seq<char>>>)
    requires
        table_failure(headers, rows) is None,
    ensures
        forall|i: int|
            0 <= i < headers.len() ==> (#[trigger] headers[i]).len() <= table_widths(
                headers,
                rows,
            )[i],
        forall|k: int, i: int|
            0 <= k < rows.len() && 0 <= i < headers.len() ==> (#[trigger] rows[k][i]).len()
                <= table_widths(headers, rows)[i],
{
    assert forall|i: int| 0 <= i < headers.len() implies (#[trigger] headers[i]).len()
        <= table_widths(headers, rows)[i] by {
        lemma_column_width(headers[i], rows, i);
        lemma_text_width(headers[i]);
    }
    assert forall|k: int, i: int| 0 <= k < rows.len() && 0 <= i < headers.len() implies (
    #[trigger] rows[k][i]).len() <= table_widths(headers, rows)[i] by {
        lemma_column_width(headers[i], rows, i);
        lemma_text_width(rows[k][i]);
    }
}

} // verus!
