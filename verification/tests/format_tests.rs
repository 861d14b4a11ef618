use rls::permissions::format_permission;
use rls::row::{
    format_modified_time, get_file_type, long_format_row, FileMeta, SIZE_WIDTH, TIME_WIDTH,
};
use rls::text::{append_decimal, format_decimal, right_align, spells};

fn bits_of(text: &str) -> u32 {
    let mut bits: u32 = 0;
    for c in text.chars() {
        bits = (bits << 1) | if c == '-' { 0 } else { 1 };
    }
    bits
}

#[test]
fn permission_strings_of_common_modes() {
    assert_eq!(format_permission(0o644), "rw-r--r--");
    assert_eq!(format_permission(0o600), "rw-------");
    assert_eq!(format_permission(0o755), "rwxr-xr-x");
    assert_eq!(format_permission(0o777), "rwxrwxrwx");
    assert_eq!(format_permission(0), "---------");
    assert_eq!(format_permission(0o421), "r---w---x");
    assert_eq!(format_permission(0o124), "--x-w-r--");
}

#[test]
fn each_bit_has_its_own_column() {
    let expected = [
        "r--------", "-w-------", "--x------", "---r-----", "----w----", "-----x---",
        "------r--", "-------w-", "--------x",
    ];
    for (column, text) in expected.iter().enumerate() {
        assert_eq!(format_permission(0o400 >> column), *text);
    }
}

#[test]
fn permission_string_ignores_bits_above_the_low_nine() {
    assert_eq!(format_permission(0o100644), "rw-r--r--");
    assert_eq!(format_permission(0o040755), "rwxr-xr-x");
    assert_eq!(format_permission(0o7000), "---------");
    assert_eq!(format_permission(u32::MAX), "rwxrwxrwx");
    for mode in 0..512u32 {
        assert_eq!(format_permission(mode | 0xffff_fe00), format_permission(mode));
    }
}

#[test]
fn permission_string_reads_back_as_the_low_nine_bits() {
    for mode in 0..512u32 {
        let text = format_permission(mode);
        assert_eq!(text.chars().count(), 9);
        assert_eq!(bits_of(&text), mode);
    }
    assert_eq!(bits_of(&format_permission(0o100644)), 0o644);
}

#[test]
fn permission_letters_stand_in_their_columns() {
    for mode in 0..512u32 {
        for (column, c) in format_permission(mode).chars().enumerate() {
            let letter = ['r', 'w', 'x'][column % 3];
            assert!(c == '-' || c == letter);
        }
    }
}

#[test]
fn decimal_numerals() {
    assert_eq!(format_decimal(0), "0");
    assert_eq!(format_decimal(7), "7");
    assert_eq!(format_decimal(10), "10");
    assert_eq!(format_decimal(100), "100");
    assert_eq!(format_decimal(1234567890), "1234567890");
    assert_eq!(format_decimal(u64::MAX), "18446744073709551615");
    for n in [9u64, 11, 99, 101, 999, 1000, 1 << 32, (1 << 63) + 5] {
        assert_eq!(format_decimal(n), format!("{}", n));
    }
}

#[test]
fn decimal_is_appended_after_what_is_there() {
    let mut out = String::from("size=");
    append_decimal(&mut out, 4096);
    assert_eq!(out, "size=4096");
    append_decimal(&mut out, 0);
    assert_eq!(out, "size=40960");
}

#[test]
fn right_alignment_pads_on_the_left() {
    assert_eq!(right_align("100", 10), "       100");
    assert_eq!(right_align("", 3), "   ");
    assert_eq!(right_align("abc", 3), "abc");
    assert_eq!(right_align("abcd", 3), "abcd");
    assert_eq!(right_align("x", 0), "x");
    assert_eq!(right_align("??", 20), format!("{:>20}", "??"));
}

#[test]
fn right_alignment_counts_characters() {
    assert_eq!(right_align("é", 3), "  é");
    assert_eq!(right_align("日本", 4), format!("{:>4}", "日本"));
}

#[test]
fn spells_compares_whole_texts() {
    assert!(spells(&"-a".to_string(), "-a"));
    assert!(!spells(&"-a".to_string(), "-l"));
    assert!(!spells(&"-a".to_string(), "-"));
    assert!(!spells(&"".to_string(), "-a"));
    assert!(spells(&"".to_string(), ""));
}

#[test]
fn type_indicator() {
    assert_eq!(get_file_type(true), "d");
    assert_eq!(get_file_type(false), "-");
}

#[test]
fn modification_time_or_placeholder() {
    assert_eq!(format_modified_time(Some(0)), "0");
    assert_eq!(format_modified_time(Some(1700000000)), "1700000000");
    assert_eq!(format_modified_time(Some(u64::MAX)), "18446744073709551615");
    assert_eq!(format_modified_time(None), "??");
}

#[test]
fn column_widths() {
    assert_eq!(SIZE_WIDTH, 10);
    assert_eq!(TIME_WIDTH, 20);
}

#[test]
fn long_row_of_a_regular_file() {
    let meta = FileMeta { is_dir: false, mode: 0o644, size: 100, modified: Some(1700000000) };
    let row = long_format_row("a.txt", &meta);
    assert_eq!(row, "-rw-r--r--        100           1700000000 a.txt");
    assert!(row.starts_with("-rw-r--r-- "));
    assert!(row.ends_with(" a.txt"));
    assert_eq!(
        row,
        format!("{}{} {:>10} {:>20} {}", "-", "rw-r--r--", 100, "1700000000", "a.txt")
    );
}

#[test]
fn long_row_of_a_directory() {
    let meta = FileMeta { is_dir: true, mode: 0o40755, size: 4096, modified: Some(5) };
    assert_eq!(
        long_format_row("src", &meta),
        "drwxr-xr-x       4096                    5 src"
    );
}

#[test]
fn long_row_without_a_time() {
    let meta = FileMeta { is_dir: false, mode: 0o600, size: 0, modified: None };
    assert_eq!(
        long_format_row(".hidden", &meta),
        "-rw-------          0                   ?? .hidden"
    );
}

#[test]
fn long_row_with_fields_wider_than_their_columns() {
    let meta =
        FileMeta { is_dir: false, mode: 0, size: u64::MAX, modified: Some(u64::MAX) };
    assert_eq!(
        long_format_row("big", &meta),
        "---------- 18446744073709551615 18446744073709551615 big"
    );
    let meta = FileMeta { is_dir: false, mode: 0, size: 12345678901, modified: Some(1) };
    assert_eq!(
        long_format_row("big", &meta),
        "---------- 12345678901                    1 big"
    );
}

#[test]
fn long_row_of_an_empty_name_ends_in_the_gap() {
    let meta = FileMeta { is_dir: false, mode: 0o644, size: 1, modified: Some(2) };
    let row = long_format_row("", &meta);
    assert_eq!(row, "-rw-r--r--          1                    2 ");
    assert_eq!(row.split_whitespace().count(), 3);
}

#[test]
fn long_row_has_four_groups() {
    let metas = [
        FileMeta { is_dir: false, mode: 0o644, size: 100, modified: Some(1700000000) },
        FileMeta { is_dir: true, mode: 0, size: 0, modified: None },
        FileMeta { is_dir: true, mode: 0o777, size: u64::MAX, modified: Some(u64::MAX) },
        FileMeta { is_dir: false, mode: 0o1, size: 9999999999, modified: Some(0) },
    ];
    for meta in metas.iter() {
        for name in ["a.txt", ".hidden", "x", "-", "ünïcödé"] {
            let row = long_format_row(name, meta);
            let groups: Vec<&str> = row.split_whitespace().collect();
            assert_eq!(groups.len(), 4);
            assert_eq!(groups[0].chars().count(), 10);
            assert_eq!(groups[1], format!("{}", meta.size));
            assert_eq!(groups[3], name);
        }
    }
}

#[test]
fn long_row_keeps_spaces_of_the_name() {
    let meta = FileMeta { is_dir: false, mode: 0o644, size: 100, modified: Some(7) };
    let row = long_format_row("my file", &meta);
    assert!(row.ends_with(" my file"));
    assert_eq!(row.split_whitespace().count(), 5);
}

#[test]
fn long_row_has_its_fields_at_fixed_columns() {
    let meta = FileMeta { is_dir: true, mode: 0o750, size: 42, modified: Some(99) };
    let row = long_format_row("docs", &meta);
    assert_eq!(row.len(), 43 + 4);
    assert_eq!(&row[0..1], "d");
    assert_eq!(&row[1..10], "rwxr-x---");
    assert_eq!(&row[10..11], " ");
    assert_eq!(&row[11..21], "        42");
    assert_eq!(&row[21..22], " ");
    assert_eq!(&row[22..42], "                  99");
    assert_eq!(&row[42..43], " ");
    assert_eq!(&row[43..], "docs");
}

#[test]
fn decimal_numeral_reads_back_as_the_number() {
    for n in [0u64, 1, 9, 10, 19, 100, 1234, 999999, u64::MAX] {
        let text = format_decimal(n);
        assert_eq!(text.parse::<u64>().unwrap(), n);
        assert!(n == 0 || !text.starts_with('0'));
    }
}
