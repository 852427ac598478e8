//! The two shapes of the output: a table of rows, or the total alone.

use vstd::prelude::*;

verus! {

/// One measured file as it is displayed: its path and its duration as text.
#[derive(Debug, PartialEq, Eq)]
pub struct Row {
    pub label: String,
    pub duration: String,
}

/// A [`Row`] with its texts as sequences of characters.
pub struct RowView {
    pub label: Seq<char>,
    pub duration: Seq<char>,
}

impl View for Row {
    type V = RowView;

    open spec fn view(&self) -> RowView {
        RowView { label: self.label@, duration: self.duration@ }
    }
}

/// The views of a list of rows, in order.
pub open spec fn row_views(rows: Seq<Row>) -> Seq<RowView> {
    rows.map_values(|row: Row| row@)
}

/// One cell of the table: a text and how it is set.
#[derive(Debug, PartialEq, Eq)]
pub struct Cell {
    pub text: String,
    /// Set in bold type.
    pub bold: bool,
    /// Set flush right instead of flush left.
    pub right: bool,
}

/// A [`Cell`] with its text as a sequence of characters.
pub struct CellView {
    pub text: Seq<char>,
    pub bold: bool,
    pub right: bool,
}

impl View for Cell {
    type V = CellView;

    open spec fn view(&self) -> CellView {
        CellView { text: self.text@, bold: self.bold, right: self.right }
    }
}

/// One line of the table: the cell under "File path" and the cell under
/// "Duration".
#[derive(Debug, PartialEq, Eq)]
pub struct Line {
    pub label: Cell,
    pub duration: Cell,
}

/// A [`Line`] with its texts as sequences of characters.
pub struct LineView {
    pub label: CellView,
    pub duration: CellView,
}

impl View for Line {
    type V = LineView;

    open spec fn view(&self) -> LineView {
        LineView { label: self.label@, duration: self.duration@ }
    }
}

/// The views of a list of lines, in order.
pub open spec fn line_views(lines: Seq<Line>) -> Seq<LineView> {
    lines.map_values(|line: Line| line@)
}

/// What is shown at the end of a run.
#[derive(Debug, PartialEq, Eq)]
pub enum Output {
    /// The total alone, on one line.
    Summary(String),
    /// The table, line by line from the heading to the total.
    Table(Vec<Line>),
}

/// An [`Output`] with its texts as sequences of characters.
pub enum OutputView {
    Summary(Seq<char>),
    Table(Seq<LineView>),
}

impl View for Output {
    type V = OutputView;

    open spec fn view(&self) -> OutputView {
        match self {
            Output::Summary(total) => OutputView::Summary(total@),
            Output::Table(lines) => OutputView::Table(line_views(lines@)),
        }
    }
}

/// The heading of the table: the names of its two columns, set plainly.
pub open spec fn heading() -> LineView {
    LineView {
        label: CellView { text: "File path"@, bold: false, right: false },
        duration: CellView { text: "Duration"@, bold: false, right: false },
    }
}

/// The line of one measured file: its path, and its duration flush right.
pub open spec fn file_line(row: RowView) -> LineView {
    LineView {
        label: CellView { text: row.label, bold: false, right: false },
        duration: CellView { text: row.duration, bold: false, right: true },
    }
}

/// The closing line of the table: the total, in bold, its duration flush
/// right.
pub open spec fn total_line(total: Seq<char>) -> LineView {
    LineView {
        label: CellView { text: "TOTAL:"@, bold: true, right: false },
        duration: CellView { text: total, bold: true, right: true },
    }
}

/// The output for the given rows and total: the total alone where `quiet` is
/// set; otherwise the heading, one line for each row in the order of the rows,
/// and the line of the total.
pub open spec fn composed(rows: Seq<RowView>, total: Seq<char>, quiet: bool) -> OutputView {
    if quiet {
        OutputView::Summary(total)
    } else {
        OutputView::Table(
            seq![heading()] + rows.map_values(|row: RowView| file_line(row)) + seq![
                total_line(total),
            ],
        )
    }
}

/// The total as an output shows it: the summary itself, or the duration in
/// the last line of the table.
pub open spec fn shown_total(output: OutputView) -> Seq<char> {
    match output {
        OutputView::Summary(total) => total,
        OutputView::Table(lines) => lines.last().duration.text,
    }
}

/// Lays out the rows of the measured files and the text of their total.
pub fn compose(rows: &Vec<Row>, total: String, quiet: bool) -> (output: Output)
    ensures
        output@ == composed(row_views(rows@), total@, quiet),
{
    if quiet {
        return Output::Summary(total);
    }
    let mut lines: Vec<Line> = Vec::new();
    lines.push(
        Line {
            label: Cell { text: String::from_str("File path"), bold: false, right: false },
            duration: Cell { text: String::from_str("Duration"), bold: false, right: false },
        },
    );
    let ghost files = row_views(rows@).map_values(|row: RowView| file_line(row));
    let mut i: usize = 0;
    while i < rows.len()
        invariant
            i <= rows.len(),
            files == row_views(rows@).map_values(|row: RowView| file_line(row)),
            line_views(lines@) =~= seq![heading()] + files.take(i as int),
        decreases rows.len() - i,
    {
        let row = &rows[i];
        let line = Line {
            label: Cell { text: row.label.clone(), bold: false, right: false },
            duration: Cell { text: row.duration.clone(), bold: false, right: true },
        };
        let ghost before = lines@;
        lines.push(line);
        assert(line_views(lines@) =~= line_views(before).push(line@));
        i = i + 1;
    }
    let closing = Line {
        label: Cell { text: String::from_str("TOTAL:"), bold: true, right: false },
        duration: Cell { text: total, bold: true, right: true },
    };
    lines.push(closing);
    assert(files.take(rows.len() as int) =~= files);
    assert(line_views(lines@) =~= seq![heading()] + files + seq![total_line(total@)]);
    Output::Table(lines)
}

/// Either shape of the output shows the total it was composed with. The
/// table has two lines more than there are rows, and closes with the line of
/// the total.
pub proof fn lemma_composed_total(rows: Seq<RowView>, total: Seq<char>, quiet: bool)
    ensures
        shown_total(composed(rows, total, quiet)) == total,
        quiet ==> composed(rows, total, quiet) == OutputView::Summary(total),
        !quiet ==> composed(rows, total, quiet) is Table,
        !quiet ==> composed(rows, total, quiet)->Table_0.len() == rows.len() + 2,
        !quiet ==> composed(rows, total, quiet)->Table_0.first() == heading(),
        !quiet ==> composed(rows, total, quiet)->Table_0.last() == total_line(total),
        forall|i: int|
            #![trigger rows[i]]
            !quiet && 0 <= i < rows.len() ==> composed(rows, total, quiet)->Table_0[i + 1]
                == file_line(rows[i]),
{
}

} // verus!
