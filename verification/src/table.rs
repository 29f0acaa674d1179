//! The listing as a table: the header and the cells of each row, the
//! colour of every cell, and the rendering with rounded borders.

use crate::color::{ColorConfig, RGB};
use crate::entry::{views, EntryType, EntryView, FileEntry};
use tabled::builder::Builder;
use tabled::settings::{Color, Style};
use vstd::prelude::*;
use vstd::string::*;

verus! {

/// The number of columns of the table.
pub const COLUMNS: usize = 5;

/// The column that holds the names.
pub const NAME_COLUMN: usize = 1;

/// What `tabled::settings::Color::colorize` returns for the text `text`
/// and the foreground colour of the three channels.
pub uninterp spec fn colorized(text: Seq<char>, red: u8, green: u8, blue: u8) -> Seq<char>;

/// What a `tabled::Table` built from the rows `rows` renders to under
/// the rounded style.
pub uninterp spec fn rounded_text(rows: Seq<Seq<Seq<char>>>) -> Seq<char>;

/// The titles of the columns.
pub open spec fn header_cells() -> Seq<Seq<char>> {
    seq!["Type"@, "Name"@, "Size"@, "Modified_At"@, "Read_Only"@]
}

/// The text of a flag.
pub open spec fn flag_text(flag: bool) -> Seq<char> {
    if flag {
        "true"@
    } else {
        "false"@
    }
}

/// The cells of the row of an entry: kind, name, size, modification
/// time, read-only flag. The hidden and executable flags have no column.
pub open spec fn entry_cells(entry: EntryView) -> Seq<Seq<char>> {
    seq![
        entry.e_type.label(),
        entry.name,
        entry.len_bytes,
        entry.modified,
        flag_text(entry.read_only),
    ]
}

/// The cells of the whole table: the header, then one row for each
/// entry.
pub open spec fn table_cells(entries: Seq<EntryView>) -> Seq<Seq<Seq<char>>> {
    seq![header_cells()] + entries.map_values(|entry: EntryView| entry_cells(entry))
}

/// The colour of a cell in the row of an entry. A hidden entry has its
/// whole row in the hidden colour. Otherwise the first and the last
/// column have their own colours, the name of an executable entry has the
/// executable colour, the name of any other directory the directory
/// colour, and the remaining cells have none.
pub open spec fn entry_cell_color(entry: EntryView, column: int, config: ColorConfig) -> Option<
    RGB,
> {
    if entry.hidden {
        Some(config.hidden)
    } else if column == NAME_COLUMN {
        if entry.is_exec {
            Some(config.executable)
        } else if entry.e_type == EntryType::Dir {
            Some(config.directory)
        } else {
            None
        }
    } else if column == 0 {
        Some(config.leading_col)
    } else if column == COLUMNS - 1 {
        Some(config.trailing_col)
    } else {
        None
    }
}

/// The colour of a cell of the table. Row `0` is the header, which is in
/// the title colour throughout; row `i + 1` is the row of entry `i`.
pub open spec fn cell_color_at(
    entries: Seq<EntryView>,
    row: int,
    column: int,
    config: ColorConfig,
) -> Option<RGB> {
    if row == 0 {
        Some(config.title_row)
    } else {
        entry_cell_color(entries[row - 1], column, config)
    }
}

/// A text in a colour, or as it is where there is no colour.
pub open spec fn painted(text: Seq<char>, color: Option<RGB>) -> Seq<char> {
    match color {
        Some(c) => colorized(text, c.red, c.green, c.blue),
        None => text,
    }
}

/// The cells of the table, each in its colour.
pub open spec fn painted_cells(entries: Seq<EntryView>, config: ColorConfig) -> Seq<
    Seq<Seq<char>>,
> {
    Seq::new(
        entries.len() + 1,
        |row: int|
            Seq::new(
                COLUMNS as nat,
                |column: int|
                    painted(
                        table_cells(entries)[row][column],
                        cell_color_at(entries, row, column, config),
                    ),
            ),
    )
}

/// A hidden entry overrides every other colour of its row.
pub proof fn lemma_hidden_row_is_uniform(entries: Seq<EntryView>, i: int, config: ColorConfig)
    requires
        0 <= i < entries.len(),
        entries[i].hidden,
    ensures
        forall|column: int|
            0 <= column < COLUMNS ==> #[trigger] cell_color_at(entries, i + 1, column, config)
                == Some(config.hidden),
{
}

/// The text `text` in the foreground colour `color`, as
/// `tabled::settings::Color::colorize` writes it for the colour that
/// `Color::rgb_fg` makes of the three channels. The contract names the
/// result and states nothing else of it.
#[verifier::external_body]
fn colorize(text: &str, color: RGB) -> (out: String)
    ensures
        out@ == colorized(text@, color.red, color.green, color.blue),
{
    Color::rgb_fg(color.red, color.green, color.blue).colorize(text)
}

/// The rows `rows` as a table with rounded borders: a `tabled::Table`
/// built by `Builder::from` and `Builder::build`, given `Style::rounded`,
/// and written out by `to_string`. The contract names the result and
/// states nothing else of it.
#[verifier::external_body]
fn rounded_table(rows: Vec<Vec<String>>) -> (out: String)
    ensures
        out@ == rounded_text(rows.deep_view()),
{
    let mut table = Builder::from(rows).build();
    table.with(Style::rounded());
    table.to_string()
}

/// The text of a flag.
fn flag_string(flag: bool) -> (out: String)
    ensures
        out@ == flag_text(flag),
{
    if flag {
        String::from_str("true")
    } else {
        String::from_str("false")
    }
}

/// The titles of the columns.
pub fn header_row() -> (row: Vec<String>)
    ensures
        row.deep_view() == header_cells(),
{
    let mut row: Vec<String> = Vec::new();
    row.push(String::from_str("Type"));
    row.push(String::from_str("Name"));
    row.push(String::from_str("Size"));
    row.push(String::from_str("Modified_At"));
    row.push(String::from_str("Read_Only"));
    assert(row.deep_view() =~= header_cells());
    row
}

/// The cells of the row of an entry.
pub fn entry_row(entry: &FileEntry) -> (row: Vec<String>)
    ensures
        row.deep_view() == entry_cells(entry@),
{
    let mut row: Vec<String> = Vec::new();
    row.push(entry.e_type.to_text());
    row.push(entry.name.clone());
    row.push(entry.len_bytes.clone());
    row.push(entry.modified.clone());
    row.push(flag_string(entry.read_only));
    assert(row.deep_view() =~= entry_cells(entry@));
    row
}

/// The colour of a cell in the row of an entry.
pub fn entry_cell_paint(entry: &FileEntry, column: usize, config: &ColorConfig) -> (color: Option<
    RGB,
>)
    ensures
        color == entry_cell_color(entry@, column as int, *config),
{
    if entry.hidden {
        Some(config.hidden)
    } else if column == NAME_COLUMN {
        if entry.is_exec {
            Some(config.executable)
        } else {
            match entry.e_type {
                EntryType::Dir => Some(config.directory),
                EntryType::File => None,
            }
        }
    } else if column == 0 {
        Some(config.leading_col)
    } else if column == COLUMNS - 1 {
        Some(config.trailing_col)
    } else {
        None
    }
}

/// A text in a colour, or as it is where there is no colour.
fn paint(text: String, color: Option<RGB>) -> (out: String)
    ensures
        out@ == painted(text@, color),
{
    match color {
        Some(c) => colorize(text.as_str(), c),
        None => text,
    }
}

/// The header in the title colour.
fn painted_header(config: &ColorConfig) -> (row: Vec<String>)
    ensures
        row.deep_view() == Seq::new(
            COLUMNS as nat,
            |column: int| painted(header_cells()[column], Some(config.title_row)),
        ),
{
    let texts = header_row();
    let mut row: Vec<String> = Vec::new();
    assert(texts@.len() == texts.deep_view().len());
    assert(texts@.map_values(|t: String| t@) =~= texts.deep_view());
    for text in it: texts.into_iter()
        invariant
            it.seq().len() == COLUMNS,
            it.seq().map_values(|t: String| t@) == header_cells(),
            row.len() == it.index(),
            forall|column: int|
                0 <= column < row.len() ==> (#[trigger] row[column])@ == painted(
                    header_cells()[column],
                    Some(config.title_row),
                ),
    {
        assert(text@ == it.seq().map_values(|t: String| t@)[it.index()]);
        row.push(paint(text, Some(config.title_row)));
    }
    assert(row.deep_view() =~= Seq::new(
        COLUMNS as nat,
        |column: int| painted(header_cells()[column], Some(config.title_row)),
    ));
    row
}

/// The row of an entry, each cell in its colour.
fn painted_entry_row(entry: &FileEntry, config: &ColorConfig) -> (row: Vec<String>)
    ensures
        row.deep_view() == Seq::new(
            COLUMNS as nat,
            |column: int|
                painted(entry_cells(entry@)[column], entry_cell_color(entry@, column, *config)),
        ),
{
    let texts = entry_row(entry);
    let mut row: Vec<String> = Vec::new();
    assert(texts@.len() == texts.deep_view().len());
    assert(texts@.map_values(|t: String| t@) =~= texts.deep_view());
    for text in it: texts.into_iter()
        invariant
            it.seq().len() == COLUMNS,
            it.seq().map_values(|t: String| t@) == entry_cells(entry@),
            row.len() == it.index(),
            forall|column: int|
                0 <= column < row.len() ==> (#[trigger] row[column])@ == painted(
                    entry_cells(entry@)[column],
                    entry_cell_color(entry@, column, *config),
                ),
    {
        let column = row.len();
        assert(text@ == it.seq().map_values(|t: String| t@)[it.index()]);
        row.push(paint(text, entry_cell_paint(entry, column, config)));
    }
    assert(row.deep_view() =~= Seq::new(
        COLUMNS as nat,
        |column: int|
            painted(entry_cells(entry@)[column], entry_cell_color(entry@, column, *config)),
    ));
    row
}

/// The cells of the table of a listing, each in its colour.
pub fn paint_table(entries: &Vec<FileEntry>, config: &ColorConfig) -> (rows: Vec<Vec<String>>)
    ensures
        rows.deep_view() == painted_cells(views(entries@), *config),
{
    let mut rows: Vec<Vec<String>> = Vec::new();
    rows.push(painted_header(config));
    let mut i: usize = 0;
    while i < entries.len()
        invariant
            i <= entries.len(),
            rows.len() == i + 1,
            forall|row: int|
                0 <= row < rows.len() ==> (#[trigger] rows[row]).deep_view() == painted_cells(
                    views(entries@),
                    *config,
                )[row],
        decreases entries.len() - i,
    {
        let row = painted_entry_row(&entries[i], config);
        assert(row.deep_view() =~= painted_cells(views(entries@), *config)[i + 1]);
        rows.push(row);
        i = i + 1;
    }
    assert(rows.deep_view() =~= painted_cells(views(entries@), *config));
    rows
}

/// Renders a listing as a table with rounded borders, every cell in the
/// colour that the palette gives it.
pub fn render_table(entries: &Vec<FileEntry>, config: &ColorConfig) -> (out: String)
    ensures
        out@ == rounded_text(painted_cells(views(entries@), *config)),
{
    rounded_table(paint_table(entries, config))
}

} // verus!
