//! The row sink: what is written for each row, as a line of its own or as
//! one table at the end of the run.

use crate::driver::Outlook;
use crate::extract::{absolute, extracted};
use crate::model::{Backend, NodeView, Options, Row, RowView};
use crate::text::{
    decimal, decimal_text, insert_newlines, optional_to_string_or_empty, pad_right, padded,
    text_or_empty, truncate_line, truncated, wrapped, DESCRIPTION_WIDTH,
};
use vstd::prelude::*;
use vstd::string::*;

verus! {

/// The width, in characters, of the column of addresses in a line.
pub const URL_WIDTH: usize = 60;

/// What separates the columns of a line.
pub const COLUMN_SEPARATOR: char = '\t';

/// The titles of the three columns.
pub const STARS_TITLE: &'static str = "Stars";

pub const URL_TITLE: &'static str = "URL";

pub const DESCRIPTION_TITLE: &'static str = "Description";

/// The characters that the table is drawn with, one for each of its
/// components: borders, the double line under the header, dashed lines
/// between columns, and corners. A space leaves a component out: no line is
/// drawn between rows.
pub const TABLE_STYLE: &'static str =
    "\u{2502}\u{2502}\u{2500}\u{2500}\u{255e}\u{2550}\u{256a}\u{2561}\u{2506}    \u{252c}\u{2534}\u{250c}\u{2510}\u{2514}\u{2518}";

/// The star count as text: in decimal, and empty for a row that has none.
pub open spec fn stars_text(stars: Option<u64>) -> Seq<char> {
    text_or_empty(
        match stars {
            Some(n) => Some(decimal(n as nat)),
            None => None,
        },
    )
}

/// Writes the star count: in decimal, and empty for a row that has none.
pub fn render_stars(stars: Option<u64>) -> (out: String)
    ensures
        out@ == stars_text(stars),
{
    optional_to_string_or_empty(
        match stars {
            Some(n) => Some(decimal_text(n)),
            None => None,
        },
    )
}

/// Three columns in a line: the first and the last as they are, the one in
/// the middle padded to the width of the addresses.
pub open spec fn columns(first: Seq<char>, middle: Seq<char>, last: Seq<char>) -> Seq<char> {
    first + seq![COLUMN_SEPARATOR] + padded(middle, URL_WIDTH as nat) + seq![COLUMN_SEPARATOR]
        + last
}

fn join_columns(first: &str, middle: &str, last: &str) -> (out: String)
    ensures
        out@ == columns(first@, middle@, last@),
{
    let mut out = String::from_str(first);
    out.push(COLUMN_SEPARATOR);
    out.append(pad_right(middle, URL_WIDTH).as_str());
    out.push(COLUMN_SEPARATOR);
    out.append(last);
    out
}

/// The line that stands above the rows.
pub open spec fn header_text() -> Seq<char> {
    columns(STARS_TITLE@, URL_TITLE@, DESCRIPTION_TITLE@)
}

/// Writes the line that stands above the rows.
pub fn header_line() -> (out: String)
    ensures
        out@ == header_text(),
{
    join_columns(STARS_TITLE, URL_TITLE, DESCRIPTION_TITLE)
}

/// The line of a row: the star count, the address padded to its column, and
/// the description cut to a single line.
pub open spec fn line_text(row: RowView) -> Seq<char> {
    columns(stars_text(row.stars), row.url, truncated(row.description, DESCRIPTION_WIDTH as nat))
}

/// Writes the line of a row.
pub fn render_line(row: &Row) -> (out: String)
    ensures
        out@ == line_text(row@),
{
    let stars = render_stars(row.stars);
    let description = truncate_line(row.description.as_str(), DESCRIPTION_WIDTH);
    join_columns(stars.as_str(), row.url.as_str(), description.as_str())
}

/// The cells of a row of the table: the star count, the address, and the
/// description wrapped.
pub open spec fn cells_of(row: RowView) -> Seq<Seq<char>> {
    seq![stars_text(row.stars), row.url, wrapped(row.description, DESCRIPTION_WIDTH as nat)]
}

/// The cells of the rows of the table, row by row.
pub open spec fn table_cells(rows: Seq<RowView>) -> Seq<Seq<Seq<char>>> {
    Seq::new(rows.len(), |i: int| cells_of(rows[i]))
}

/// The titles of the table.
pub open spec fn table_header() -> Seq<Seq<char>> {
    seq![STARS_TITLE@, URL_TITLE@, DESCRIPTION_TITLE@]
}

/// The text that `comfy_table` draws for a table with the given header and
/// rows of cells, in the style that the given characters stand for.
pub uninterp spec fn table_text(
    style: Seq<char>,
    header: Seq<Seq<char>>,
    rows: Seq<Seq<Seq<char>>>,
) -> Seq<char>;

/// Draws a table with `comfy_table`: a new `Table`, which arranges nothing
/// and styles no cell, gets the style with `load_preset`, the header with
/// `set_header` and the rows with `add_rows`, and is written out by its
/// `Display`. The text depends on these three arguments alone.
#[verifier::external_body]
fn draw_table(style: &str, header: Vec<String>, rows: Vec<Vec<String>>) -> (out: String)
    ensures
        out@ == table_text(style@, header.deep_view(), rows.deep_view()),
{
    let mut table = comfy_table::Table::new();
    table.load_preset(style).set_header(header).add_rows(rows);
    table.to_string()
}

/// Draws the table of the rows: the titles, then a row of cells for each
/// row, in order.
pub fn render_table(rows: &Vec<Row>) -> (out: String)
    ensures
        out@ == table_text(TABLE_STYLE@, table_header(), table_cells(rows.deep_view())),
{
    let mut header: Vec<String> = Vec::new();
    header.push(String::from_str(STARS_TITLE));
    header.push(String::from_str(URL_TITLE));
    header.push(String::from_str(DESCRIPTION_TITLE));
    assert(header.deep_view() =~= table_header());
    let mut cells: Vec<Vec<String>> = Vec::new();
    let mut i: usize = 0;
    while i < rows.len()
        invariant
            i <= rows.len(),
            cells.len() == i,
            forall|j: int| 0 <= j < i ==> (#[trigger] cells[j]).deep_view() == cells_of(rows[j]@),
        decreases rows.len() - i,
    {
        let row = &rows[i];
        let mut line: Vec<String> = Vec::new();
        line.push(render_stars(row.stars));
        line.push(row.url.clone());
        line.push(insert_newlines(row.description.as_str(), DESCRIPTION_WIDTH));
        assert(line.deep_view() =~= cells_of(row@));
        cells.push(line);
        i += 1;
    }
    assert(cells.deep_view() =~= table_cells(rows.deep_view()));
    draw_table(TABLE_STYLE, header, cells)
}

/// Where rows go: each to a line of its own as it comes, or all into one
/// table that is drawn when the run is over. Rows are kept in the order in
/// which they come; none is dropped, sorted or merged.
pub struct Sink {
    table_output: bool,
    rows: Vec<Row>,
}

pub struct SinkView {
    pub table_output: bool,
    /// The rows held back for the table.
    pub rows: Seq<RowView>,
}

impl View for Sink {
    type V = SinkView;

    closed spec fn view(&self) -> SinkView {
        SinkView { table_output: self.table_output, rows: self.rows.deep_view() }
    }
}

impl Sink {
    /// A sink that holds no row yet, in the mode that the options ask for.
    pub fn new(options: &Options) -> (sink: Sink)
        ensures
            sink@ == (SinkView { table_output: options.table_output, rows: Seq::empty() }),
    {
        let sink = Sink { table_output: options.table_output, rows: Vec::new() };
        assert(sink.rows.deep_view() =~= Seq::<RowView>::empty());
        sink
    }

    /// What is written before the first row: the line of titles where rows
    /// go to lines, nothing where they go to a table.
    pub fn open(&self) -> (out: Option<String>)
        ensures
            self@.table_output ==> out is None,
            !self@.table_output ==> out is Some && out->0@ == header_text(),
    {
        if self.table_output {
            None
        } else {
            Some(header_line())
        }
    }

    /// Takes a row. Where rows go to lines, hands out the line of the row
    /// and keeps nothing; where they go to a table, keeps the row after
    /// those that came before and hands out nothing.
    pub fn emit(&mut self, row: Row) -> (out: Option<String>)
        ensures
            final(self)@.table_output == old(self)@.table_output,
            old(self)@.table_output ==> out is None,
            old(self)@.table_output ==> final(self)@.rows == old(self)@.rows.push(row@),
            !old(self)@.table_output ==> out is Some && out->0@ == line_text(row@),
            !old(self)@.table_output ==> final(self)@.rows == old(self)@.rows,
    {
        if self.table_output {
            let ghost before = self.rows.deep_view();
            self.rows.push(row);
            assert(self.rows.deep_view() =~= before.push(row@));
            None
        } else {
            Some(render_line(&row))
        }
    }

    /// The table of the rows kept, where rows go to a table, and nothing
    /// where each went to its line.
    pub fn close(&self) -> (out: Option<String>)
        ensures
            !self@.table_output ==> out is None,
            self@.table_output ==> out is Some && out->0@ == table_text(
                TABLE_STYLE@,
                table_header(),
                table_cells(self@.rows),
            ),
    {
        if self.table_output {
            Some(render_table(&self.rows))
        } else {
            None
        }
    }

    /// What is written when the run is over, given how it ended. A run that
    /// came to the end of the source writes the table of the rows kept,
    /// where rows go to a table. A run that failed, or that is not over,
    /// writes nothing more; nor does one whose rows each went to its line.
    pub fn finish(&self, outlook: &Outlook) -> (out: Option<String>)
        ensures
            out is Some <==> self@.table_output && outlook@ is Exhausted,
            out is Some ==> out->0@ == table_text(
                TABLE_STYLE@,
                table_header(),
                table_cells(self@.rows),
            ),
    {
        match outlook {
            Outlook::Exhausted => self.close(),
            Outlook::More => None,
            Outlook::Failed(_) => None,
        }
    }
}

/// The count that a record of the search API is listed with: its own, or
/// zero where it holds none.
pub open spec fn count_or_zero(stars: Option<u64>) -> nat {
    match stars {
        Some(n) => n as nat,
        None => 0,
    }
}

/// What is written for a record of the search API that has a link and a
/// description: the count in decimal, zero where the record holds none; the
/// address; and the description, wrapped in the table and cut in the line.
pub proof fn lemma_search_api_record_written(node: NodeView)
    requires
        node.url is Some,
        node.description is Some,
    ensures
        extracted(node, Backend::SearchApi) is Ok,
        cells_of(extracted(node, Backend::SearchApi)->Ok_0) == seq![
            decimal(count_or_zero(node.stars)),
            absolute(node.url->0),
            wrapped(node.description->0, DESCRIPTION_WIDTH as nat),
        ],
        line_text(extracted(node, Backend::SearchApi)->Ok_0) == columns(
            decimal(count_or_zero(node.stars)),
            absolute(node.url->0),
            truncated(node.description->0, DESCRIPTION_WIDTH as nat),
        ),
        node.stars is None ==> decimal(count_or_zero(node.stars)) == seq!['0'],
{
}

} // verus!
