//! Listing files: the permissions of a file as text.

use crate::split::texts;
use crate::text::{decimal_string, decimal_text};
use tabular::{Row, Table};
use vstd::prelude::*;
use vstd::string::StringExecFns;

verus! {

/// Whose permissions are meant.
#[derive(Debug, Clone, Copy, PartialEq, Eq, Structural)]
pub enum Owner {
    User,
    Group,
    Other,
}

/// The bits of a file's mode that let `owner` read, write and execute,
/// in this order.
pub open spec fn owner_masks(owner: Owner) -> (u32, u32, u32) {
    match owner {
        Owner::User => (0o400, 0o200, 0o100),
        Owner::Group => (0o040, 0o020, 0o010),
        Owner::Other => (0o004, 0o002, 0o001),
    }
}

impl Owner {
    /// The bits for read, write and execute.
    pub fn masks(&self) -> (masks: [u32; 3])
        ensures
            (masks[0], masks[1], masks[2]) == owner_masks(*self),
    {
        match self {
            Owner::User => [0o400, 0o200, 0o100],
            Owner::Group => [0o040, 0o020, 0o010],
            Owner::Other => [0o004, 0o002, 0o001],
        }
    }
}

/// The letter of a permission where one of the bits `mask` is set in
/// `mode`, else a dash.
pub open spec fn permission(mode: u32, mask: u32, letter: char) -> char {
    if mode & mask == 0 {
        '-'
    } else {
        letter
    }
}

/// The three permissions of `owner` in `mode`, such as `r-x`.
pub open spec fn triple(mode: u32, owner: Owner) -> Seq<char> {
    let masks = owner_masks(owner);
    seq![
        permission(mode, masks.0, 'r'),
        permission(mode, masks.1, 'w'),
        permission(mode, masks.2, 'x'),
    ]
}

/// The nine permissions in `mode`, such as `rwxr-xr-x`.
pub open spec fn mode_text(mode: u32) -> Seq<char> {
    triple(mode, Owner::User) + triple(mode, Owner::Group) + triple(mode, Owner::Other)
}

/// Appends the three permissions of `owner` to `text`.
fn push_triple(text: &mut String, mode: u32, owner: Owner)
    ensures
        final(text)@ == old(text)@ + triple(mode, owner),
{
    let masks = owner.masks();
    text.push(if mode & masks[0] == 0 {
        '-'
    } else {
        'r'
    });
    text.push(if mode & masks[1] == 0 {
        '-'
    } else {
        'w'
    });
    text.push(if mode & masks[2] == 0 {
        '-'
    } else {
        'x'
    });
    proof {
        assert(text@ =~= old(text)@ + triple(mode, owner));
    }
}

/// Writes the three permissions of `owner` in `mode`.
pub fn mk_triple(mode: u32, owner: Owner) -> (text: String)
    ensures
        text@ == triple(mode, owner),
{
    let mut text = String::new();
    push_triple(&mut text, mode, owner);
    proof {
        assert(Seq::<char>::empty() + triple(mode, owner) =~= triple(mode, owner));
    }
    text
}

/// Writes the nine permissions in `mode`.
pub fn format_mode(mode: u32) -> (text: String)
    ensures
        text@ == mode_text(mode),
{
    let mut text = String::new();
    push_triple(&mut text, mode, Owner::User);
    push_triple(&mut text, mode, Owner::Group);
    push_triple(&mut text, mode, Owner::Other);
    proof {
        assert(text@ =~= mode_text(mode));
    }
    text
}

/// The name of a hidden file begins with a dot.
pub open spec fn hidden(file_name: Seq<char>) -> bool {
    file_name.len() > 0 && file_name[0] == '.'
}

/// Tells whether an entry of a directory is listed: a hidden one only
/// with `show_hidden`.
pub fn is_listed(file_name: &str, show_hidden: bool) -> (r: bool)
    ensures
        r == (!hidden(file_name@) || show_hidden),
{
    let is_hidden = crate::decimal::first_char(file_name) == Some('.');
    !is_hidden || show_hidden
}

/// What the long listing shows of a file.
#[derive(Debug)]
pub struct Listing {
    pub is_dir: bool,
    pub mode: u32,
    pub nlink: u64,
    pub user: String,
    pub group: String,
    pub size: u64,
    pub modified: String,
    pub path: String,
}

/// The eight cells of a file in the long listing: `d` for a directory
/// and a dash for anything else, the permissions, the number of links,
/// the owner, the group, the size, the time of the last change, the path.
pub open spec fn listing_cells(listing: Listing) -> Seq<Seq<char>> {
    seq![
        if listing.is_dir {
            "d"@
        } else {
            "-"@
        },
        mode_text(listing.mode),
        decimal_text(listing.nlink as nat),
        listing.user@,
        listing.group@,
        decimal_text(listing.size as nat),
        listing.modified@,
        listing.path@,
    ]
}

/// The rows of cells of `listings`.
pub open spec fn listing_rows(listings: Seq<Listing>) -> Seq<Seq<Seq<char>>> {
    listings.map_values(|listing: Listing| listing_cells(listing))
}

/// The table of the `tabular` crate that lays the listing out.
#[verifier::external_type_specification]
#[verifier::external_body]
pub struct ExTable(Table);

/// The rows that were added to a table, each as its cells.
pub uninterp spec fn table_rows(table: Table) -> Seq<Seq<Seq<char>>>;

/// What a table of the long listing prints for its rows: the cells of
/// each column, brought to one width, in the layout
/// `{:<}{:<} {:>} {:<} {:<} {:>} {:<} {:<}`.
pub uninterp spec fn table_text(rows: Seq<Seq<Seq<char>>>) -> Seq<char>;

/// A table of eight columns in the layout of the long listing, by
/// `Table::new`. Trusted: it has no rows.
#[verifier::external_body]
fn new_table() -> (table: Table)
    ensures
        table_rows(table) == Seq::<Seq<Seq<char>>>::empty(),
{
    Table::new("{:<}{:<} {:>} {:<} {:<} {:>} {:<} {:<}")
}

/// Adds a row of eight cells with `Row::from_cells` and `Table::add_row`.
/// Trusted: the row is added behind the others.
#[verifier::external_body]
fn add_row(table: &mut Table, cells: &Vec<String>)
    requires
        cells@.len() == 8,
    ensures
        table_rows(*final(table)) == table_rows(*old(table)).push(texts(cells@)),
{
    table.add_row(Row::from_cells(cells.iter().map(|cell| cell.as_str())));
}

/// Prints a table through its `Display`. Trusted: the result is the
/// value that [`table_text`] names for the rows of the table.
#[verifier::external_body]
fn print_table(table: &Table) -> (text: String)
    ensures
        text@ == table_text(table_rows(*table)),
{
    table.to_string()
}

/// Writes the eight cells of a file.
pub fn format_cells(listing: &Listing) -> (cells: Vec<String>)
    ensures
        texts(cells@) == listing_cells(*listing),
        cells@.len() == 8,
{
    let mut cells: Vec<String> = Vec::new();
    cells.push(String::from_str(if listing.is_dir {
        "d"
    } else {
        "-"
    }));
    cells.push(format_mode(listing.mode));
    cells.push(decimal_string(listing.nlink));
    cells.push(listing.user.clone());
    cells.push(listing.group.clone());
    cells.push(decimal_string(listing.size));
    cells.push(listing.modified.clone());
    cells.push(listing.path.clone());
    proof {
        assert(texts(cells@) =~= listing_cells(*listing));
    }
    cells
}

/// Writes the long listing of `listings`.
pub fn format_output(listings: &Vec<Listing>) -> (text: String)
    ensures
        text@ == table_text(listing_rows(listings@)),
{
    let mut table = new_table();
    let mut i: usize = 0;
    proof {
        assert(listing_rows(listings@.take(0)) =~= Seq::<Seq<Seq<char>>>::empty());
    }
    while i < listings.len()
        invariant
            i <= listings@.len(),
            table_rows(table) == listing_rows(listings@.take(i as int)),
        decreases listings@.len() - i,
    {
        let cells = format_cells(&listings[i]);
        add_row(&mut table, &cells);
        proof {
            assert(listing_rows(listings@.take(i + 1)) =~= listing_rows(
                listings@.take(i as int),
            ).push(listing_cells(listings@[i as int])));
        }
        i = i + 1;
    }
    proof {
        assert(listings@.take(i as int) =~= listings@);
    }
    print_table(&table)
}

} // verus!
