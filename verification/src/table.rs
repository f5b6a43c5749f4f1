//! Tabular rendering, done by the `comfy_table` crate behind trusted
//! wrappers: the library tracks, as ghost state, whether a header was set
//! and which header and data rows the table was given, and the rendered
//! text is named as a function of those three.

use vstd::prelude::*;

verus! {

#[verifier::external_type_specification]
#[verifier::external_body]
pub struct ExTable(comfy_table::Table);

/// Whether a header row was set. The renderer draws a header row and its
/// separator exactly when one was, even an empty one, so the text depends
/// on this beyond the header's cells.
pub uninterp spec fn table_has_header(t: comfy_table::Table) -> bool;

/// What the table's header row holds (an empty sequence before one is set).
pub uninterp spec fn table_header_of(t: comfy_table::Table) -> Seq<Seq<char>>;

/// What the table's data rows hold, in insertion order.
pub uninterp spec fn table_rows_of(t: comfy_table::Table) -> Seq<Seq<Seq<char>>>;

/// The text that a default-styled table renders as, from whether it has a
/// header, the header's cells, and the data rows.
pub uninterp spec fn table_text(
    has_header: bool,
    header: Seq<Seq<char>>,
    rows: Seq<Seq<Seq<char>>>,
) -> Seq<char>;

/// Relies on `comfy_table::Table::new`: a fixed default style, no header
/// and no data rows.
#[verifier::external_body]
fn new_table() -> (t: comfy_table::Table)
    ensures
        !table_has_header(t),
        table_header_of(t) == Seq::<Seq<char>>::empty(),
        table_rows_of(t) == Seq::<Seq<Seq<char>>>::empty(),
{
    comfy_table::Table::new()
}

/// Relies on `comfy_table::Table::set_header`: it replaces the header row
/// and leaves the data rows alone.
#[verifier::external_body]
fn set_table_header(t: &mut comfy_table::Table, h: &Vec<String>)
    ensures
        table_has_header(*final(t)),
        table_header_of(*final(t)) == h.deep_view(),
        table_rows_of(*final(t)) == table_rows_of(*old(t)),
{
    t.set_header(h.clone());
}

/// Relies on `comfy_table::Table::add_row`: it appends one data row and
/// leaves the header alone.
#[verifier::external_body]
fn add_table_row(t: &mut comfy_table::Table, row: &Vec<String>)
    ensures
        table_has_header(*final(t)) == table_has_header(*old(t)),
        table_header_of(*final(t)) == table_header_of(*old(t)),
        table_rows_of(*final(t)) == table_rows_of(*old(t)).push(row.deep_view()),
{
    t.add_row(row.clone());
}

/// Relies on `comfy_table`'s `Display` rendering: for a table built from
/// `Table::new`, whose style is never touched, the text depends on the
/// header's presence, its cells, and the data rows alone.
#[verifier::external_body]
fn table_to_text(t: &comfy_table::Table) -> (r: String)
    ensures
        r@ == table_text(table_has_header(*t), table_header_of(*t), table_rows_of(*t)),
{
    format!("{}", t)
}

/// Renders a table that was given neither header nor rows.
pub fn render_empty_table() -> (r: String)
    ensures
        r@ == table_text(false, Seq::<Seq<char>>::empty(), Seq::<Seq<Seq<char>>>::empty()),
{
    let t = new_table();
    table_to_text(&t)
}

/// Renders a table with the given header row and one data row per item.
pub fn render_table(header: &Vec<String>, rows: &Vec<Vec<String>>) -> (r: String)
    ensures
        r@ == table_text(true, header.deep_view(), rows.deep_view()),
{
    let mut t = new_table();
    set_table_header(&mut t, header);
    let mut i: usize = 0;
    while i < rows.len()
        invariant
            i <= rows@.len(),
            table_has_header(t),
            table_header_of(t) == header.deep_view(),
            table_rows_of(t) =~= rows.deep_view().take(i as int),
        decreases rows@.len() - i,
    {
        add_table_row(&mut t, &rows[i]);
        i = i + 1;
        proof {
            assert(table_rows_of(t) =~= rows.deep_view().take(i as int));
        }
    }
    proof {
        assert(rows.deep_view().take(rows@.len() as int) =~= rows.deep_view());
    }
    table_to_text(&t)
}

} // verus!
