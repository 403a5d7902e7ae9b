//! The listing as a table: one row per object with its key, its
//! modification time to the minute and its size in decimal units.

use crate::storage::{views, CosItem, ObjectView};
use crate::text::{padded, push_char, push_padded, push_year, year_text};
use crate::time::{utc_calendar, utc_calendar_of, Timestamp};
use vstd::prelude::*;

verus! {

/// `YYYY-MM-DD HH:MM`, as chrono's `%Y-%m-%d %H:%M` writes calendar fields.
pub open spec fn minute_stamp(f: (int, int, int, int, int, int)) -> Seq<char> {
    year_text(f.0) + seq!['-'] + padded(f.1 as nat, 2) + seq!['-'] + padded(f.2 as nat, 2) + seq![
        ' ',
    ] + padded(f.3 as nat, 2) + seq![':'] + padded(f.4 as nat, 2)
}

/// The modification time of an instant as the listing shows it.
pub open spec fn time_cell(t: Timestamp) -> Seq<char> {
    minute_stamp(utc_calendar_of(t.secs as int, t.nanos as int))
}

/// A byte count as humansize writes it with its decimal units (`kB`, `MB`).
pub uninterp spec fn decimal_size_text(bytes: int) -> Seq<char>;

/// The table that tabled draws from rows of cells.
pub uninterp spec fn table_text_of(rows: Seq<Seq<Seq<char>>>) -> Seq<char>;

/// Relies on humansize's `format_size` with the `DECIMAL` options: the size
/// in the largest fitting decimal unit.
#[verifier::external_body]
fn decimal_size(bytes: u64) -> (r: String)
    ensures
        r@ == decimal_size_text(bytes as int),
{
    humansize::format_size(bytes, humansize::DECIMAL)
}

/// Relies on tabled's `Builder::from` and `build`: the table of these rows,
/// the first one drawn as the header, in tabled's default style.
#[verifier::external_body]
fn render_table(rows: Vec<Vec<String>>) -> (r: String)
    ensures
        r@ == table_text_of(rows.deep_view()),
{
    tabled::builder::Builder::from(rows).build().to_string()
}

/// The modification time of `t` to the minute, in UTC.
pub fn format_minute(t: &Timestamp) -> (r: String)
    requires
        t.wf(),
    ensures
        r@ == time_cell(*t),
{
    let c = utc_calendar(t);
    let mut out = String::new();
    push_year(&mut out, c.year);
    push_char(&mut out, '-');
    push_padded(&mut out, c.month as u64, 2);
    push_char(&mut out, '-');
    push_padded(&mut out, c.day as u64, 2);
    push_char(&mut out, ' ');
    push_padded(&mut out, c.hour as u64, 2);
    push_char(&mut out, ':');
    push_padded(&mut out, c.minute as u64, 2);
    assert(out@ =~= time_cell(*t));
    out
}

/// The header row of the listing table.
pub open spec fn header_cells() -> Seq<Seq<char>> {
    seq!["文件路径"@, "修改时间"@, "大小"@]
}

/// The row of the listing table for one object.
pub open spec fn row_cells(o: ObjectView) -> Seq<Seq<char>> {
    seq![o.key, time_cell(o.last_modified), decimal_size_text(o.size as int)]
}

/// The rows of the listing table: the header, then one row per object.
pub open spec fn table_rows_of(s: Seq<ObjectView>) -> Seq<Seq<Seq<char>>> {
    seq![header_cells()] + s.map_values(|o: ObjectView| row_cells(o))
}

impl CosItem {
    /// The column titles: file path, modification time, size.
    pub fn headers() -> (r: Vec<String>)
        ensures
            r.deep_view() == header_cells(),
    {
        let mut r: Vec<String> = Vec::new();
        r.push(String::from_str("文件路径"));
        r.push(String::from_str("修改时间"));
        r.push(String::from_str("大小"));
        assert(r.deep_view() =~= header_cells());
        r
    }

    /// The cells of this object's row.
    pub fn fields(&self) -> (r: Vec<String>)
        requires
            self.last_modified.wf(),
        ensures
            r.deep_view() == row_cells(self@),
    {
        let mut r: Vec<String> = Vec::new();
        r.push(self.key.clone());
        r.push(format_minute(&self.last_modified));
        r.push(decimal_size(self.size));
        assert(r.deep_view() =~= row_cells(self@));
        r
    }
}

/// The rows of the listing table for `items`.
pub fn table_rows(items: &Vec<CosItem>) -> (r: Vec<Vec<String>>)
    requires
        forall|i: int| 0 <= i < items.len() ==> (#[trigger] items@[i]).last_modified.wf(),
    ensures
        r.deep_view() == table_rows_of(views(items@)),
{
    let mut rows: Vec<Vec<String>> = Vec::new();
    rows.push(CosItem::headers());
    let mut i: usize = 0;
    while i < items.len()
        invariant
            forall|i: int| 0 <= i < items.len() ==> (#[trigger] items@[i]).last_modified.wf(),
            0 <= i <= items.len(),
            rows.deep_view() == table_rows_of(views(items@.subrange(0, i as int))),
        decreases items.len() - i,
    {
        let row = items[i].fields();
        let ghost before = rows.deep_view();
        rows.push(row);
        proof {
            assert(rows.deep_view() =~= before.push(row_cells(items@[i as int]@)));
            assert(views(items@.subrange(0, i + 1)) =~= views(items@.subrange(0, i as int)).push(
                items@[i as int]@,
            ));
            assert(table_rows_of(views(items@.subrange(0, i + 1))) =~= table_rows_of(
                views(items@.subrange(0, i as int)),
            ).push(row_cells(items@[i as int]@)));
        }
        i = i + 1;
    }
    proof {
        assert(items@.subrange(0, i as int) =~= items@);
    }
    rows
}

/// The listing drawn as a table, ready to print.
pub fn list_table(items: &Vec<CosItem>) -> (r: String)
    requires
        forall|i: int| 0 <= i < items.len() ==> (#[trigger] items@[i]).last_modified.wf(),
    ensures
        r@ == table_text_of(table_rows_of(views(items@))),
{
    render_table(table_rows(items))
}

} // verus!
