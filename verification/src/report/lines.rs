//! The lines that a table is made of.
use super::table::{
    cells_text, centered, header_text, law_columns_have_room, law_lines_are_as_wide_as_the_table,
    padded, row_text, rows_text, rule_columns, rule_text, table_failure, table_text, table_width,
    table_widths, text_width, title_text, titles_text, REPORT_PRODUCT_TITLE,
};
use crate::text::repeat;
use vstd::prelude::*;
use vstd::utf8::{is_ascii_chars, is_ascii_chars_encode_utf8};

verus! {

/// Lines, each with its end.
pub open spec fn lines_text(lines: Seq<Seq<char>>) -> Seq<char>
    decreases lines.len(),
{
    if lines.len() == 0 {
        Seq::empty()
    } else {
        lines_text(lines.drop_last()) + lines.last().push('\n')
    }
}

/// A text that no line ends in.
pub open spec fn one_line(s: Seq<char>) -> bool {
    forall|i: int| 0 <= i < s.len() ==> #[trigger] s[i] != '\n'
}

/// Texts that no line ends in.
pub open spec fn all_one_line(texts: Seq<Seq<char>>) -> bool {
    forall|i: int| 0 <= i < texts.len() ==> one_line(#[trigger] texts[i])
}

/// One of the two lines at the top.
pub open spec fn head_line(widths: Seq<nat>, left: char, middle: char, right: char) -> Seq<char> {
    seq![left] + repeat(middle, (table_width(widths) - 2) as nat) + seq![right]
}

/// The line of a title.
pub open spec fn title_line(widths: Seq<nat>, title: Seq<char>) -> Seq<char> {
    "│ "@ + centered(title, table_width(widths) - 4) + " │"@
}

/// A line across the table.
pub open spec fn rule_line(widths: Seq<nat>, left: char, middle: char, right: char) -> Seq<char> {
    seq![left] + rule_columns(widths, widths.len() as int, middle, right)
}

/// The line of a row.
pub open spec fn row_line(widths: Seq<nat>, cells: Seq<Seq<char>>) -> Seq<char> {
    cells_text(cells, widths) + "│"@
}

/// The lines of some titles.
pub open spec fn title_lines(widths: Seq<nat>, titles: Seq<Seq<char>>) -> Seq<Seq<char>> {
    Seq::new(titles.len(), |i: int| title_line(widths, titles[i]))
}

/// The lines of some rows.
pub open spec fn row_lines(widths: Seq<nat>, rows: Seq<Seq<Seq<char>>>) -> Seq<Seq<char>> {
    Seq::new(rows.len(), |i: int| row_line(widths, rows[i]))
}

/// The lines above the titles of a table.
pub open spec fn top_lines(widths: Seq<nat>) -> Seq<Seq<char>> {
    seq![
        head_line(widths, '┌', '┬', '┐'),
        head_line(widths, '├', '┴', '┤'),
        title_line(widths, REPORT_PRODUCT_TITLE@),
    ]
}

/// The lines between the titles and the rows of a table.
pub open spec fn middle_lines(widths: Seq<nat>, headers: Seq<Seq<char>>) -> Seq<Seq<char>> {
    seq![
        rule_line(widths, '├', '┬', '┤'),
        row_line(widths, headers),
        rule_line(widths, '├', '┼', '┤'),
    ]
}

/// The line below the rows of a table.
pub open spec fn bottom_lines(widths: Seq<nat>) -> Seq<Seq<char>> {
    seq![rule_line(widths, '└', '┴', '┘')]
}

/// The lines of a table.
pub open spec fn table_lines(
    titles: Seq<Seq<char>>,
    headers: Seq<Seq<char>>,
    rows: Seq<Seq<Seq<char>>>,
) -> Seq<Seq<char>> {
    let widths = table_widths(headers, rows);
    top_lines(widths) + title_lines(widths, titles) + middle_lines(widths, headers) + row_lines(
        widths,
        rows,
    ) + bottom_lines(widths)
}

// ---- Texts made of lines ---------------------------------------------------------------------

proof fn lemma_lines_of_both(a: Seq<Seq<char>>, b: Seq<Seq<char>>)
    ensures
        lines_text(a + b) == lines_text(a) + lines_text(b),
    decreases b.len(),
{
    if b.len() == 0 {
        assert(a + b =~= a);
        assert(lines_text(a + b) =~= lines_text(a) + lines_text(b));
    } else {
        lemma_lines_of_both(a, b.drop_last());
        assert((a + b).drop_last() =~= a + b.drop_last());
        assert((a + b).last() == b.last());
        assert(lines_text(a + b) =~= lines_text(a) + lines_text(b));
    }
}

proof fn lemma_single_line(line: Seq<char>)
    ensures
        lines_text(seq![line]) == line.push('\n'),
{
    reveal_with_fuel(lines_text, 2);
    assert(seq![line].drop_last() =~= Seq::<Seq<char>>::empty());
    assert(lines_text(seq![line]) =~= line.push('\n'));
}

proof fn lemma_three_lines(a: Seq<char>, b: Seq<char>, c: Seq<char>)
    ensures
        lines_text(seq![a, b, c]) == a.push('\n') + b.push('\n') + c.push('\n'),
{
    lemma_single_line(a);
    lemma_single_line(b);
    lemma_single_line(c);
    lemma_lines_of_both(seq![a], seq![b]);
    lemma_lines_of_both(seq![a] + seq![b], seq![c]);
    assert(seq![a] + seq![b] + seq![c] =~= seq![a, b, c]);
}

proof fn lemma_title_line(widths: Seq<nat>, title: Seq<char>)
    ensures
        title_text(widths, title) == title_line(widths, title).push('\n'),
{
    reveal_strlit(" │");
    reveal_strlit(" │\n");
    assert(" │\n"@ =~= " │"@.push('\n'));
    assert(title_text(widths, title) =~= title_line(widths, title).push('\n'));
}

proof fn lemma_row_line(widths: Seq<nat>, cells: Seq<Seq<char>>)
    ensures
        row_text(cells, widths) == row_line(widths, cells).push('\n'),
{
    reveal_strlit("│");
    reveal_strlit("│\n");
    assert("│\n"@ =~= "│"@.push('\n'));
    assert(row_text(cells, widths) =~= row_line(widths, cells).push('\n'));
}

proof fn lemma_rule_line(widths: Seq<nat>, left: char, middle: char, right: char)
    ensures
        rule_text(widths, left, middle, right) == rule_line(widths, left, middle, right).push('\n'),
{
    assert(rule_text(widths, left, middle, right) =~= rule_line(
        widths,
        left,
        middle,
        right,
    ).push('\n'));
}

proof fn lemma_head_lines(widths: Seq<nat>)
    ensures
        header_text(widths) == head_line(widths, '┌', '┬', '┐').push('\n') + head_line(
            widths,
            '├',
            '┴',
            '┤',
        ).push('\n'),
{
    reveal_strlit("┐\n");
    reveal_strlit("┤\n");
    assert("┐\n"@ =~= seq!['┐'].push('\n'));
    assert("┤\n"@ =~= seq!['┤'].push('\n'));
    assert(header_text(widths) =~= head_line(widths, '┌', '┬', '┐').push('\n') + head_line(
        widths,
        '├',
        '┴',
        '┤',
    ).push('\n'));
}

proof fn lemma_title_lines(widths: Seq<nat>, titles: Seq<Seq<char>>)
    ensures
        titles_text(widths, titles) == lines_text(title_lines(widths, titles)),
    decreases titles.len(),
{
    if titles.len() > 0 {
        lemma_title_lines(widths, titles.drop_last());
        lemma_title_line(widths, titles.last());
        assert(title_lines(widths, titles).drop_last() =~= title_lines(
            widths,
            titles.drop_last(),
        ));
    }
}

proof fn lemma_row_lines(widths: Seq<nat>, rows: Seq<Seq<Seq<char>>>)
    ensures
        rows_text(rows, widths) == lines_text(row_lines(widths, rows)),
    decreases rows.len(),
{
    if rows.len() > 0 {
        lemma_row_lines(widths, rows.drop_last());
        lemma_row_line(widths, rows.last());
        assert(row_lines(widths, rows).drop_last() =~= row_lines(widths, rows.drop_last()));
    }
}

// ---- Lines without an end inside -------------------------------------------------------------

proof fn lemma_cells_one_line(widths: Seq<nat>, cells: Seq<Seq<char>>)
    requires
        all_one_line(cells),
    ensures
        one_line(cells_text(cells, widths)),
    decreases cells.len(),
{
    reveal_strlit("│ ");
    reveal_strlit(" ");
    if cells.len() > 0 {
        let rest = cells.drop_last();
        assert forall|i: int| 0 <= i < rest.len() implies one_line(#[trigger] rest[i]) by {
            assert(rest[i] == cells[i]);
        }
        lemma_cells_one_line(widths, rest);
        assert(one_line(cells[cells.len() - 1]));
        assert(one_line(padded(cells.last(), widths[cells.len() - 1])));
    }
}

proof fn lemma_rule_one_line(widths: Seq<nat>, n: int, middle: char, right: char)
    requires
        middle != '\n',
        right != '\n',
    ensures
        one_line(rule_columns(widths, n, middle, right)),
    decreases n,
{
    if n > 0 {
        lemma_rule_one_line(widths, n - 1, middle, right);
    }
}

proof fn lemma_title_one_line(widths: Seq<nat>, title: Seq<char>)
    requires
        one_line(title),
    ensures
        one_line(title_line(widths, title)),
{
    reveal_strlit("│ ");
    reveal_strlit(" │");
    assert(one_line(centered(title, table_width(widths) - 4)));
}

proof fn lemma_row_one_line(widths: Seq<nat>, cells: Seq<Seq<char>>)
    requires
        all_one_line(cells),
    ensures
        one_line(row_line(widths, cells)),
{
    reveal_strlit("│");
    lemma_cells_one_line(widths, cells);
}

proof fn lemma_product_title()
    ensures
        one_line(REPORT_PRODUCT_TITLE@),
        REPORT_PRODUCT_TITLE@.len() == 31,
        text_width(REPORT_PRODUCT_TITLE@) == 31,
{
    reveal_strlit("CUSTOS USB AUTHORIZATION DAEMON");
    assert(is_ascii_chars(REPORT_PRODUCT_TITLE@));
    is_ascii_chars_encode_utf8(REPORT_PRODUCT_TITLE@);
}

// ---- Laws ------------------------------------------------------------------------------------

/// A table consists of its lines: one for each title and each row, and seven more. Where neither
/// the titles nor the cells hold the end of a line, no line does.
pub proof fn law_tables_are_made_of_lines(
    titles: Seq<Seq<char>>,
    headers: Seq<Seq<char>>,
    rows: Seq<Seq<Seq<char>>>,
)
    ensures
        table_text(titles, headers, rows) == lines_text(table_lines(titles, headers, rows)),
        table_lines(titles, headers, rows).len() == titles.len() + rows.len() + 7,
        all_one_line(titles) && all_one_line(headers) && (forall|i: int|
            0 <= i < rows.len() ==> all_one_line(#[trigger] rows[i])) ==> all_one_line(
            table_lines(titles, headers, rows),
        ),
{
    let widths = table_widths(headers, rows);
    let top = top_lines(widths);
    let named = title_lines(widths, titles);
    let middle = middle_lines(widths, headers);
    let body = row_lines(widths, rows);
    let bottom = bottom_lines(widths);
    lemma_lines_of_both(top, named);
    lemma_lines_of_both(top + named, middle);
    lemma_lines_of_both(top + named + middle, body);
    lemma_lines_of_both(top + named + middle + body, bottom);
    lemma_three_lines(top[0], top[1], top[2]);
    lemma_three_lines(middle[0], middle[1], middle[2]);
    lemma_single_line(bottom[0]);
    lemma_head_lines(widths);
    lemma_title_line(widths, REPORT_PRODUCT_TITLE@);
    lemma_title_lines(widths, titles);
    lemma_rule_line(widths, '├', '┬', '┤');
    lemma_row_line(widths, headers);
    lemma_rule_line(widths, '├', '┼', '┤');
    lemma_row_lines(widths, rows);
    lemma_rule_line(widths, '└', '┴', '┘');
    assert(table_text(titles, headers, rows) =~= lines_text(top) + lines_text(named) + lines_text(
        middle,
    ) + lines_text(body) + lines_text(bottom));
    if all_one_line(titles) && all_one_line(headers) && (forall|i: int|
        0 <= i < rows.len() ==> all_one_line(#[trigger] rows[i])) {
        lemma_product_title();
        lemma_title_one_line(widths, REPORT_PRODUCT_TITLE@);
        assert(all_one_line(top));
        assert forall|i: int| 0 <= i < named.len() implies one_line(#[trigger] named[i]) by {
            assert(one_line(titles[i]));
            lemma_title_one_line(widths, titles[i]);
        }
        lemma_row_one_line(widths, headers);
        lemma_rule_one_line(widths, widths.len() as int, '┬', '┤');
        lemma_rule_one_line(widths, widths.len() as int, '┼', '┤');
        lemma_rule_one_line(widths, widths.len() as int, '┴', '┘');
        assert(all_one_line(middle));
        assert forall|i: int| 0 <= i < body.len() implies one_line(#[trigger] body[i]) by {
            assert(all_one_line(rows[i]));
            lemma_row_one_line(widths, rows[i]);
        }
        assert(all_one_line(bottom));
    }
}

/// A title that fits, with one byte to each character.
pub open spec fn title_fits(widths: Seq<nat>, title: Seq<char>) -> bool {
    text_width(title) == title.len() && title.len() + 4 <= table_width(widths)
}

/// The lines at the top are of the table's width.
pub proof fn law_head_lines_are_as_wide_as_the_table(
    widths: Seq<nat>,
    left: char,
    middle: char,
    right: char,
)
    requires
        widths.len() > 0,
    ensures
        head_line(widths, left, middle, right).len() == table_width(widths),
{
}

/// The line of a title that fits is of the table's width. That of any other holds the title and
/// the frame, with the room that is left by the title's bytes.
pub proof fn law_title_lines_are_as_wide_as_the_table(widths: Seq<nat>, title: Seq<char>)
    requires
        widths.len() > 0,
    ensures
        title_fits(widths, title) ==> title_line(widths, title).len() == table_width(widths),
        title_line(widths, title).len() == title.len() + 4 + (if text_width(title) + 4
            < table_width(widths) {
            table_width(widths) - 4 - text_width(title)
        } else {
            0
        }),
{
    reveal_strlit("│ ");
    reveal_strlit(" │");
}

/// A title stands in the middle of its line, with spaces on both sides. Where their number is odd
/// the one space more stands behind it.
pub proof fn law_titles_stand_in_the_middle(value: Seq<char>, width: int)
    ensures
        exists|left: nat, right: nat|
            #![trigger repeat(' ', left), repeat(' ', right)]
            centered(value, width) == repeat(' ', left) + value + repeat(' ', right) && (left
                == right || left + 1 == right) && (left + right == width - text_width(value) || (
            width <= text_width(value) && left + right == 0)),
{
    let padding = if width > text_width(value) {
        width - text_width(value)
    } else {
        0
    };
    let left = (padding / 2) as nat;
    let right = (padding - padding / 2) as nat;
    assert(centered(value, width) == repeat(' ', left) + value + repeat(' ', right));
}

/// Every line of a table is of the table's width, where the titles fit: those at the top and of
/// the titles, the lines across the table and the rows.
pub proof fn law_tables_are_boxes(
    titles: Seq<Seq<char>>,
    headers: Seq<Seq<char>>,
    rows: Seq<Seq<Seq<char>>>,
)
    requires
        table_failure(headers, rows) is None,
        REPORT_PRODUCT_TITLE@.len() + 4 <= table_width(table_widths(headers, rows)),
        forall|i: int|
            0 <= i < titles.len() ==> title_fits(table_widths(headers, rows), #[trigger] titles[i]),
    ensures
        forall|i: int|
            0 <= i < table_lines(titles, headers, rows).len() ==> (#[trigger] table_lines(
                titles,
                headers,
                rows,
            )[i]).len() == table_width(table_widths(headers, rows)),
{
    let widths = table_widths(headers, rows);
    let width = table_width(widths);
    let named = title_lines(widths, titles);
    let body = row_lines(widths, rows);
    law_columns_have_room(headers, rows);
    lemma_product_title();
    law_title_lines_are_as_wide_as_the_table(widths, REPORT_PRODUCT_TITLE@);
    law_head_lines_are_as_wide_as_the_table(widths, '┌', '┬', '┐');
    law_head_lines_are_as_wide_as_the_table(widths, '├', '┴', '┤');
    assert forall|i: int| 0 <= i < named.len() implies (#[trigger] named[i]).len() == width by {
        assert(title_fits(widths, titles[i]));
        law_title_lines_are_as_wide_as_the_table(widths, titles[i]);
    }
    lemma_row_width(widths, headers);
    lemma_rule_width(widths, headers, '├', '┬', '┤');
    lemma_rule_width(widths, headers, '├', '┼', '┤');
    lemma_rule_width(widths, headers, '└', '┴', '┘');
    assert forall|i: int| 0 <= i < body.len() implies (#[trigger] body[i]).len() == width by {
        assert(rows[i].len() == headers.len());
        assert forall|j: int| 0 <= j < rows[i].len() implies (#[trigger] rows[i][j]).len()
            <= widths[j] by {}
        lemma_row_width(widths, rows[i]);
    }
    let top = top_lines(widths);
    let middle = middle_lines(widths, headers);
    assert(top[0].len() == width && top[1].len() == width && top[2].len() == width);
    assert(middle[0].len() == width && middle[1].len() == width && middle[2].len() == width);
    assert(bottom_lines(widths)[0].len() == width);
}

proof fn lemma_row_width(widths: Seq<nat>, cells: Seq<Seq<char>>)
    requires
        cells.len() == widths.len(),
        forall|i: int| 0 <= i < cells.len() ==> (#[trigger] cells[i]).len() <= widths[i],
    ensures
        row_line(widths, cells).len() == table_width(widths),
{
    law_lines_are_as_wide_as_the_table(cells, widths, ' ', ' ', ' ');
    lemma_row_line(widths, cells);
}

proof fn lemma_rule_width(
    widths: Seq<nat>,
    cells: Seq<Seq<char>>,
    left: char,
    middle: char,
    right: char,
)
    requires
        cells.len() == widths.len(),
        forall|i: int| 0 <= i < cells.len() ==> (#[trigger] cells[i]).len() <= widths[i],
    ensures
        rule_line(widths, left, middle, right).len() == table_width(widths),
{
    law_lines_are_as_wide_as_the_table(cells, widths, left, middle, right);
    lemma_rule_line(widths, left, middle, right);
}

} // verus!
