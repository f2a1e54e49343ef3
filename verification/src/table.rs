//! Tables laid out by the `comfy-table` crate.
use vstd::prelude::*;

verus! {

/// What `comfy-table` prints for a table in its `UTF8_FULL` style with dynamic arrangement,
/// the given header and rows, and the given total width (`None`: no width limit).
pub uninterp spec fn comfy_table_text(headers: Seq<Seq<char>>, rows: Seq<Seq<Seq<char>>>, width: Option<u16>) -> Seq<char>;

/// `comfy_table::Table` rendered with `Display` at a fixed width. The contract names the
/// result; the layout algorithm is not restated.
#[verifier::external_body]
fn render_table_with_width(headers: &Vec<String>, rows: &Vec<Vec<String>>, width: u16) -> (r: String)
    ensures
        r@ == comfy_table_text(headers.deep_view(), rows.deep_view(), Some(width)),
{
    let mut table = comfy_table::Table::new();
    table
        .load_style(comfy_table::presets::UTF8_FULL)
        .set_content_arrangement(comfy_table::ContentArrangement::Dynamic)
        .set_header(headers.clone())
        .add_rows(rows.clone())
        .set_width(width);
    table.to_string()
}

/// `comfy_table::Table` rendered with `Display` with no width limit (no terminal is asked
/// for one). The contract names the result; the layout algorithm is not restated.
#[verifier::external_body]
fn render_table_unbounded(headers: &Vec<String>, rows: &Vec<Vec<String>>) -> (r: String)
    ensures
        r@ == comfy_table_text(headers.deep_view(), rows.deep_view(), None),
{
    let mut table = comfy_table::Table::new();
    table
        .load_style(comfy_table::presets::UTF8_FULL)
        .set_content_arrangement(comfy_table::ContentArrangement::Dynamic)
        .set_header(headers.clone())
        .add_rows(rows.clone())
        .force_no_tty();
    table.to_string()
}

/// `comfy_table::Table::width` of a table with no width set: the width of the terminal on
/// standard output, when it is one and its size can be read. It depends on the machine, so
/// nothing is promised of it.
#[verifier::external_body]
pub(crate) fn terminal_table_width() -> (r: Option<u16>) {
    comfy_table::Table::new().width()
}

/// The text of a table with the given header and rows, laid out within `width` columns when
/// a width is given.
pub fn render_table(headers: &Vec<String>, rows: &Vec<Vec<String>>, width: Option<u16>) -> (r: String)
    ensures
        r@ == comfy_table_text(headers.deep_view(), rows.deep_view(), width),
{
    match width {
        Some(w) => render_table_with_width(headers, rows, w),
        None => render_table_unbounded(headers, rows),
    }
}

} // verus!
