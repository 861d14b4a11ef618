//! The nine-character permission string of a file mode.

use vstd::prelude::*;
use vstd::string::*;

verus! {

/// The mode bit shown in column `i` of a permission string, counted from the
/// left: owner read, write, execute, then group, then other.
pub open spec fn column_mask(i: int) -> u32 {
    if i == 0 {
        0o400
    } else if i == 1 {
        0o200
    } else if i == 2 {
        0o100
    } else if i == 3 {
        0o040
    } else if i == 4 {
        0o020
    } else if i == 5 {
        0o010
    } else if i == 6 {
        0o004
    } else if i == 7 {
        0o002
    } else {
        0o001
    }
}

/// The letter that column `i` shows when its bit is set.
pub open spec fn column_letter(i: int) -> char {
    if i % 3 == 0 {
        'r'
    } else if i % 3 == 1 {
        'w'
    } else {
        'x'
    }
}

/// The character in column `i` of the permission string of `mode`.
pub open spec fn column_symbol(mode: u32, i: int) -> char {
    if mode & column_mask(i) != 0 {
        column_letter(i)
    } else {
        '-'
    }
}

/// The permission string of `mode`: nine columns, one per bit of the low nine.
pub open spec fn permission_text(mode: u32) -> Seq<char> {
    Seq::new(9, |i: int| column_symbol(mode, i))
}

/// The value of column `i` of `text` when it is read back as a bit: nothing
/// for `-`, the column's mask for any other character.
pub open spec fn column_value(text: Seq<char>, i: int) -> int {
    if text[i] == '-' {
        0
    } else {
        column_mask(i) as int
    }
}

/// The bit pattern that a nine-column permission string stands for.
pub open spec fn permission_bits(text: Seq<char>) -> int {
    column_value(text, 0) + column_value(text, 1) + column_value(text, 2) + column_value(text, 3)
        + column_value(text, 4) + column_value(text, 5) + column_value(text, 6) + column_value(
        text,
        7,
    ) + column_value(text, 8)
}

fn mask_of_column(i: usize) -> (mask: u32)
    requires
        i < 9,
    ensures
        mask == column_mask(i as int),
{
    if i == 0 {
        0o400
    } else if i == 1 {
        0o200
    } else if i == 2 {
        0o100
    } else if i == 3 {
        0o040
    } else if i == 4 {
        0o020
    } else if i == 5 {
        0o010
    } else if i == 6 {
        0o004
    } else if i == 7 {
        0o002
    } else {
        0o001
    }
}

fn symbol_of_column(i: usize, set: bool) -> (symbol: &'static str)
    requires
        i < 9,
    ensures
        symbol@ == seq![if set { column_letter(i as int) } else { '-' }],
{
    proof {
        reveal_strlit("r");
        reveal_strlit("w");
        reveal_strlit("x");
        reveal_strlit("-");
    }
    if !set {
        "-"
    } else if i % 3 == 0 {
        "r"
    } else if i % 3 == 1 {
        "w"
    } else {
        "x"
    }
}

/// Renders the low nine bits of `mode` as `rwxrwxrwx`, with `-` for each bit
/// that is clear.
pub fn format_permission(mode: u32) -> (text: String)
    ensures
        text@ == permission_text(mode),
{
    let mut text = String::new();
    let mut i: usize = 0;
    while i < 9
        invariant
            i <= 9,
            text@.len() == i,
            forall|j: int| 0 <= j < i ==> text@[j] == column_symbol(mode, j),
        decreases 9 - i,
    {
        let set = mode & mask_of_column(i) != 0;
        text.append(symbol_of_column(i, set));
        i += 1;
    }
    text
}

/// A mask of one bit among the low nine takes from a mode either nothing or
/// itself, and takes the same from the mode's low nine bits alone.
proof fn lemma_single_bit(mode: u32, mask: u32)
    by (bit_vector)
    requires
        mask == 0o400 || mask == 0o200 || mask == 0o100 || mask == 0o040 || mask == 0o020 || mask
            == 0o010 || mask == 0o004 || mask == 0o002 || mask == 0o001,
    ensures
        mode & mask == 0 || mode & mask == mask,
        (mode & 0o777) & mask == mode & mask,
{
}

/// The permission string depends on the low nine bits of the mode alone.
pub proof fn lemma_permission_text_low_bits(mode: u32)
    ensures
        permission_text(mode) == permission_text(mode & 0o777),
{
    assert forall|i: int| 0 <= i < 9 implies column_symbol(mode, i) == column_symbol(
        mode & 0o777,
        i,
    ) by {
        lemma_single_bit(mode, column_mask(i));
    }
}

/// Reading a rendered permission string back, `-` as a clear bit and a letter
/// as a set one, gives the low nine bits of the mode it was rendered from.
pub proof fn lemma_permission_round_trip(mode: u32)
    ensures
        permission_bits(permission_text(mode)) == mode & 0o777,
{
    let text = permission_text(mode);
    assert forall|i: int| 0 <= i < 9 implies column_value(text, i) == (mode & column_mask(i)) by {
        lemma_single_bit(mode, column_mask(i));
    }
    assert(mode & 0o777 == (mode & 0o400) + (mode & 0o200) + (mode & 0o100) + (mode & 0o040) + (mode
        & 0o020) + (mode & 0o010) + (mode & 0o004) + (mode & 0o002) + (mode & 0o001))
        by (bit_vector);
}

} // verus!
