//! Decimal numerals and right-aligned fields.

use vstd::prelude::*;
use vstd::string::*;

verus! {

/// The texts of a sequence of strings, in the same order.
pub open spec fn texts(strings: Seq<String>) -> Seq<Seq<char>> {
    strings.map_values(|s: String| s@)
}

/// Whether `text` spells exactly `literal`.
pub fn spells(text: &String, literal: &str) -> (same: bool)
    ensures
        same == (text@ == literal@),
{
    let wanted = String::from_str(literal);
    *text == wanted
}

/// The character of the decimal digit `d`.
pub open spec fn digit_char(d: nat) -> char {
    if d == 0 {
        '0'
    } else if d == 1 {
        '1'
    } else if d == 2 {
        '2'
    } else if d == 3 {
        '3'
    } else if d == 4 {
        '4'
    } else if d == 5 {
        '5'
    } else if d == 6 {
        '6'
    } else if d == 7 {
        '7'
    } else if d == 8 {
        '8'
    } else {
        '9'
    }
}

/// The decimal numeral of `n`, most significant digit first, without leading
/// zeros.
pub open spec fn decimal(n: nat) -> Seq<char>
    decreases n,
{
    if n < 10 {
        seq![digit_char(n)]
    } else {
        decimal(n / 10).push(digit_char(n % 10))
    }
}

/// A run of `count` spaces.
pub open spec fn spaces(count: nat) -> Seq<char> {
    Seq::new(count, |i: int| ' ')
}

/// `text` padded with spaces on the left to `width` characters; a text that
/// is already that wide or wider is left as it is.
pub open spec fn right_aligned(text: Seq<char>, width: nat) -> Seq<char> {
    if text.len() >= width {
        text
    } else {
        spaces((width - text.len()) as nat) + text
    }
}

fn digit_text(d: u64) -> (text: &'static str)
    requires
        d < 10,
    ensures
        text@ == seq![digit_char(d as nat)],
{
    proof {
        reveal_strlit("0");
        reveal_strlit("1");
        reveal_strlit("2");
        reveal_strlit("3");
        reveal_strlit("4");
        reveal_strlit("5");
        reveal_strlit("6");
        reveal_strlit("7");
        reveal_strlit("8");
        reveal_strlit("9");
    }
    if d == 0 {
        "0"
    } else if d == 1 {
        "1"
    } else if d == 2 {
        "2"
    } else if d == 3 {
        "3"
    } else if d == 4 {
        "4"
    } else if d == 5 {
        "5"
    } else if d == 6 {
        "6"
    } else if d == 7 {
        "7"
    } else if d == 8 {
        "8"
    } else {
        "9"
    }
}

/// Appends the decimal numeral of `n` to `out`.
pub fn append_decimal(out: &mut String, n: u64)
    ensures
        final(out)@ == old(out)@ + decimal(n as nat),
    decreases n,
{
    if n >= 10 {
        append_decimal(out, n / 10);
    }
    out.append(digit_text(n % 10));
}

/// The decimal numeral of `n`.
pub fn format_decimal(n: u64) -> (text: String)
    ensures
        text@ == decimal(n as nat),
{
    let mut text = String::new();
    append_decimal(&mut text, n);
    text
}

/// Pads `text` with spaces on the left to `width` characters.
pub fn right_align(text: &str, width: usize) -> (out: String)
    ensures
        out@ == right_aligned(text@, width as nat),
{
    let len = text.unicode_len();
    let mut out = String::new();
    let mut filled: usize = len;
    while filled < width
        invariant
            len <= filled,
            filled <= width || filled == len,
            out@ =~= spaces((filled - len) as nat),
        decreases width - filled,
    {
        proof {
            reveal_strlit(" ");
        }
        out.append(" ");
        filled += 1;
    }
    out.append(text);
    out
}

/// A right-aligned text is as wide as asked for, or as the text where that
/// is wider; it ends in the text, and spaces alone stand before it.
pub proof fn lemma_right_aligned_shape(text: Seq<char>, width: nat)
    ensures
        right_aligned(text, width).len() == if text.len() >= width {
            text.len()
        } else {
            width
        },
        right_aligned(text, width).skip(right_aligned(text, width).len() - text.len()) == text,
        forall|i: int|
            0 <= i < right_aligned(text, width).len() - text.len() ==> right_aligned(
                text,
                width,
            )[i] == ' ',
{
    let out = right_aligned(text, width);
}

/// The value of the decimal digit `c`.
pub open spec fn digit_value(c: char) -> nat {
    if c == '1' {
        1
    } else if c == '2' {
        2
    } else if c == '3' {
        3
    } else if c == '4' {
        4
    } else if c == '5' {
        5
    } else if c == '6' {
        6
    } else if c == '7' {
        7
    } else if c == '8' {
        8
    } else if c == '9' {
        9
    } else {
        0
    }
}

/// The number that a decimal numeral stands for.
pub open spec fn numeral_value(numeral: Seq<char>) -> nat
    decreases numeral.len(),
{
    if numeral.len() == 0 {
        0
    } else {
        numeral_value(numeral.drop_last()) * 10 + digit_value(numeral.last())
    }
}

/// The decimal numeral of a number stands for that number, and has no
/// leading zero unless the number is zero.
pub proof fn lemma_decimal_round_trip(n: nat)
    ensures
        numeral_value(decimal(n)) == n,
        n > 0 ==> decimal(n)[0] != '0',
        n == 0 ==> decimal(n) == seq!['0'],
    decreases n,
{
    if n < 10 {
        assert(decimal(n).drop_last() =~= Seq::<char>::empty());
        assert(numeral_value(Seq::<char>::empty()) == 0);
    } else {
        lemma_decimal_round_trip(n / 10);
        lemma_decimal_digits(n / 10);
        assert(decimal(n).drop_last() =~= decimal(n / 10));
    }
}

/// Whether `c` is white space, as Unicode defines it.
pub open spec fn is_blank(c: char) -> bool {
    ||| '\u{9}' <= c <= '\u{d}'
    ||| c == ' '
    ||| c == '\u{85}'
    ||| c == '\u{a0}'
    ||| c == '\u{1680}'
    ||| '\u{2000}' <= c <= '\u{200a}'
    ||| c == '\u{2028}'
    ||| c == '\u{2029}'
    ||| c == '\u{202f}'
    ||| c == '\u{205f}'
    ||| c == '\u{3000}'
}

/// A text without white space in it.
pub open spec fn is_solid(text: Seq<char>) -> bool {
    forall|i: int| 0 <= i < text.len() ==> !is_blank(#[trigger] text[i])
}

/// Whether a group starts at position `i` of `text`: a character that is not
/// white space, at the start or after white space.
pub open spec fn starts_group(text: Seq<char>, i: int) -> bool {
    !is_blank(text[i]) && (i == 0 || is_blank(text[i - 1]))
}

/// The number of groups in `text`: its maximal runs of characters that are
/// not white space.
pub open spec fn group_count(text: Seq<char>) -> nat
    decreases text.len(),
{
    if text.len() == 0 {
        0
    } else {
        group_count(text.drop_last()) + if starts_group(text, text.len() - 1) {
            1nat
        } else {
            0nat
        }
    }
}

/// Spaces at the end of a text add no group.
pub proof fn lemma_groups_after_spaces(text: Seq<char>, count: nat)
    ensures
        group_count(text + spaces(count)) == group_count(text),
    decreases count,
{
    if count > 0 {
        let padded = text + spaces(count);
        assert(padded.drop_last() =~= text + spaces((count - 1) as nat));
        lemma_groups_after_spaces(text, (count - 1) as nat);
    }
}

/// A solid word after a text adds one group where the text is empty or ends
/// in white space, and none where it runs on from a character that is not.
pub proof fn lemma_groups_after_word(text: Seq<char>, word: Seq<char>)
    requires
        word.len() > 0,
        is_solid(word),
    ensures
        group_count(text + word) == group_count(text) + if text.len() == 0 || is_blank(
            text.last(),
        ) {
            1nat
        } else {
            0nat
        },
    decreases word.len(),
{
    let joined = text + word;
    if word.len() == 1 {
        assert(joined.drop_last() =~= text);
    } else {
        let shorter = word.drop_last();
        assert(joined.drop_last() =~= text + shorter);
        lemma_groups_after_word(text, shorter);
    }
}

/// After a text that is empty or ends in white space, a second text adds the
/// groups that it has by itself.
pub proof fn lemma_groups_after_gap(text: Seq<char>, more: Seq<char>)
    requires
        text.len() == 0 || is_blank(text.last()),
    ensures
        group_count(text + more) == group_count(text) + group_count(more),
    decreases more.len(),
{
    let joined = text + more;
    if more.len() > 0 {
        assert(joined.drop_last() =~= text + more.drop_last());
        lemma_groups_after_gap(text, more.drop_last());
    }
}

/// A solid word that is right-aligned after a text that ends in white space
/// adds one group, whatever the width.
pub proof fn lemma_groups_after_column(text: Seq<char>, word: Seq<char>, width: nat)
    requires
        text.len() > 0,
        is_blank(text.last()),
        word.len() > 0,
        is_solid(word),
    ensures
        group_count(text + right_aligned(word, width)) == group_count(text) + 1,
        !is_blank((text + right_aligned(word, width)).last()),
{
    let pad: nat = if word.len() >= width {
        0
    } else {
        (width - word.len()) as nat
    };
    let padded = text + spaces(pad);
    assert(text + right_aligned(word, width) =~= padded + word);
    lemma_groups_after_spaces(text, pad);
    lemma_groups_after_word(padded, word);
}

/// A decimal numeral is made of digits only and is never empty.
pub proof fn lemma_decimal_digits(n: nat)
    ensures
        decimal(n).len() >= 1,
        forall|i: int| 0 <= i < decimal(n).len() ==> '0' <= #[trigger] decimal(n)[i] <= '9',
    decreases n,
{
    if n >= 10 {
        lemma_decimal_digits(n / 10);
    }
}

} // verus!
