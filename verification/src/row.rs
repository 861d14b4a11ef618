//! The long row of one entry: type, permissions, size, modification time and
//! name in fixed columns.

use crate::permissions::{format_permission, permission_text};
use crate::text::{
    decimal, format_decimal, group_count, is_solid, lemma_decimal_digits,
    lemma_groups_after_column, lemma_groups_after_gap, lemma_groups_after_spaces,
    lemma_groups_after_word,
    lemma_right_aligned_shape, right_align,
    right_aligned, spaces,
};
use vstd::prelude::*;
use vstd::string::*;

verus! {

/// What a long row shows of an entry besides its name.
#[derive(Clone, Copy, Debug, PartialEq, Eq, Structural)]
pub struct FileMeta {
    /// The entry is a directory.
    pub is_dir: bool,
    /// The permission bits; only the low nine are shown.
    pub mode: u32,
    /// The size in bytes.
    pub size: u64,
    /// The modification time in whole seconds since the Unix epoch, or `None`
    /// where it is not known or lies before the epoch.
    pub modified: Option<u64>,
}

/// The width of the size column.
pub const SIZE_WIDTH: usize = 10;

/// The width of the modification-time column.
pub const TIME_WIDTH: usize = 20;

/// The type indicator: `d` for a directory, `-` for anything else.
pub open spec fn type_text(is_dir: bool) -> Seq<char> {
    if is_dir {
        seq!['d']
    } else {
        seq!['-']
    }
}

/// The modification time as shown: the seconds in decimal, or `??` where the
/// time is not known.
pub open spec fn modified_text(modified: Option<u64>) -> Seq<char> {
    match modified {
        Some(seconds) => decimal(seconds as nat),
        None => seq!['?', '?'],
    }
}

/// The long row of an entry: type indicator and permission string without a
/// gap, then size, modification time and name, each after a single space, the
/// size right-aligned to ten columns and the time to twenty.
pub open spec fn long_row(name: Seq<char>, meta: FileMeta) -> Seq<char> {
    type_text(meta.is_dir) + permission_text(meta.mode) + seq![' '] + right_aligned(
        decimal(meta.size as nat),
        SIZE_WIDTH as nat,
    ) + seq![' '] + right_aligned(modified_text(meta.modified), TIME_WIDTH as nat) + seq![' ']
        + name
}

/// The type indicator of an entry.
pub fn get_file_type(is_dir: bool) -> (indicator: &'static str)
    ensures
        indicator@ == type_text(is_dir),
{
    proof {
        reveal_strlit("d");
        reveal_strlit("-");
    }
    if is_dir {
        "d"
    } else {
        "-"
    }
}

/// The modification time as a long row shows it.
pub fn format_modified_time(modified: Option<u64>) -> (text: String)
    ensures
        text@ == modified_text(modified),
{
    match modified {
        Some(seconds) => format_decimal(seconds),
        None => {
            proof {
                reveal_strlit("??");
            }
            String::from_str("??")
        },
    }
}

/// Renders the long row of the entry `name` with metadata `meta`.
pub fn long_format_row(name: &str, meta: &FileMeta) -> (row: String)
    ensures
        row@ == long_row(name@, *meta),
{
    proof {
        reveal_strlit(" ");
    }
    let size = format_decimal(meta.size);
    let modified = format_modified_time(meta.modified);
    let mut row = String::from_str(get_file_type(meta.is_dir));
    row.append(format_permission(meta.mode).as_str());
    row.append(" ");
    row.append(right_align(size.as_str(), SIZE_WIDTH).as_str());
    row.append(" ");
    row.append(right_align(modified.as_str(), TIME_WIDTH).as_str());
    row.append(" ");
    row.append(name);
    row
}

/// A long row starts with the type indicator and the nine permission
/// columns, ends in the name, and has at least forty-three characters before
/// the name.
pub proof fn lemma_long_row_shape(name: Seq<char>, meta: FileMeta)
    ensures
        long_row(name, meta).len() >= 43 + name.len(),
        long_row(name, meta).subrange(0, 1) == type_text(meta.is_dir),
        long_row(name, meta).subrange(1, 10) == permission_text(meta.mode),
        long_row(name, meta)[10] == ' ',
        long_row(name, meta).subrange(
            long_row(name, meta).len() - name.len(),
            long_row(name, meta).len() as int,
        ) == name,
        long_row(name, meta)[long_row(name, meta).len() - name.len() - 1] == ' ',
{
    lemma_right_aligned_shape(decimal(meta.size as nat), SIZE_WIDTH as nat);
    lemma_right_aligned_shape(modified_text(meta.modified), TIME_WIDTH as nat);
}

/// A long row has three groups separated by white space before the name
/// (type with permissions, size, time), and after them the groups of the name:
/// four in all whenever the name is not empty and holds no white space.
pub proof fn lemma_long_row_groups(name: Seq<char>, meta: FileMeta)
    ensures
        group_count(long_row(name, meta)) == 3 + group_count(name),
        name.len() > 0 && is_solid(name) ==> group_count(long_row(name, meta)) == 4,
{
    let head = type_text(meta.is_dir) + permission_text(meta.mode);
    lemma_groups_after_word(Seq::empty(), head);

    let size = decimal(meta.size as nat);
    lemma_decimal_digits(meta.size as nat);
    let time = modified_text(meta.modified);
    match meta.modified {
        Some(seconds) => lemma_decimal_digits(seconds as nat),
        None => {},
    }

    let gap = seq![' '];
    assert(gap =~= spaces(1));
    lemma_groups_after_spaces(head, 1);
    let with_size = head + gap + right_aligned(size, SIZE_WIDTH as nat);
    lemma_groups_after_column(head + gap, size, SIZE_WIDTH as nat);
    lemma_groups_after_spaces(with_size, 1);
    let with_time = with_size + gap + right_aligned(time, TIME_WIDTH as nat);
    lemma_groups_after_column(with_size + gap, time, TIME_WIDTH as nat);
    lemma_groups_after_spaces(with_time, 1);
    lemma_groups_after_gap(with_time + gap, name);
    if name.len() > 0 && is_solid(name) {
        lemma_groups_after_word(Seq::empty(), name);
    }
}

} // verus!
