use blindspot::text::{chars_of, ends_with, parse_usize, same_text, trim};

#[test]
fn chars_of_keeps_every_character() {
    assert_eq!(chars_of("a🚛b"), vec!['a', '🚛', 'b']);
    assert_eq!(chars_of(""), Vec::<char>::new());
}

#[test]
fn same_text_compares_characters() {
    assert!(same_text("tar", "tar"));
    assert!(!same_text("tar", "Tar"));
    assert!(!same_text("tar", "tar "));
}

#[test]
fn ends_with_finds_suffixes() {
    assert!(ends_with("tool.tar.gz", ".gz"));
    assert!(ends_with("tool.tar.gz", ".tar.gz"));
    assert!(ends_with(".gz", ".gz"));
    assert!(ends_with("anything", ""));
    assert!(!ends_with("gz", ".gz"));
    assert!(!ends_with("tool.gz.sig", ".gz"));
    assert!(!ends_with("", ".gz"));
}

#[test]
fn ends_with_agrees_with_std() {
    let words = ["", "a", ".xz", "file.txz", "file.tar.bz2", "ünïcödé.gz", "x.bz", "tgz"];
    let suffixes = ["", ".gz", ".tgz", ".bz", ".bz2", ".tbz", ".xz", ".txz", "é.gz", "a"];
    for w in words {
        for s in suffixes {
            assert_eq!(ends_with(w, s), w.ends_with(s), "{:?} {:?}", w, s);
        }
    }
}

#[test]
fn trim_removes_white_space_at_both_ends() {
    assert_eq!(trim("  hello world \n"), "hello world");
    assert_eq!(trim("\t\r\n x \u{a0}\u{2003}\u{3000}"), "x");
    assert_eq!(trim("a b"), "a b");
    assert_eq!(trim(""), "");
    assert_eq!(trim(" \n\t "), "");
}

#[test]
fn trim_agrees_with_std() {
    let samples = [
        "",
        " ",
        "x",
        " x",
        "x ",
        "\u{85}x\u{1680}",
        "\u{2000}\u{200a}y\u{2028}\u{2029}",
        "\u{202f}z\u{205f}",
        "\u{200b}zero width is kept\u{200b}",
        "\u{180e}mongolian separator is kept",
        "\u{1c}\u{1f}",
        " 12 \n",
    ];
    for s in samples {
        assert_eq!(trim(s), s.trim(), "{:?}", s);
    }
}

#[test]
fn parse_usize_reads_decimal_numbers() {
    assert_eq!(parse_usize("0"), Some(0));
    assert_eq!(parse_usize("7"), Some(7));
    assert_eq!(parse_usize("007"), Some(7));
    assert_eq!(parse_usize("+12"), Some(12));
    assert_eq!(parse_usize("1234567890"), Some(1234567890));
    assert_eq!(parse_usize(&usize::MAX.to_string()), Some(usize::MAX));
}

#[test]
fn parse_usize_refuses_what_is_no_number() {
    assert_eq!(parse_usize(""), None);
    assert_eq!(parse_usize("+"), None);
    assert_eq!(parse_usize("-1"), None);
    assert_eq!(parse_usize("++1"), None);
    assert_eq!(parse_usize("1+"), None);
    assert_eq!(parse_usize(" 1"), None);
    assert_eq!(parse_usize("1 "), None);
    assert_eq!(parse_usize("12a"), None);
    assert_eq!(parse_usize("١٢"), None);
    assert_eq!(parse_usize("1.5"), None);
}

#[test]
fn parse_usize_refuses_numbers_too_large() {
    let mut too_large = usize::MAX.to_string();
    too_large.push('0');
    assert_eq!(parse_usize(&too_large), None);
    assert_eq!(parse_usize("340282366920938463463374607431768211456"), None);
    let next = (usize::MAX as u128 + 1).to_string();
    assert_eq!(parse_usize(&next), None);
}

#[test]
fn parse_usize_agrees_with_std() {
    let samples = ["", "0", "+0", "-0", "42", "+42", "4 2", "0x10", "18446744073709551615",
        "18446744073709551616", "00000000000000000000000001", "+", "٣"];
    for s in samples {
        assert_eq!(parse_usize(s), s.parse::<usize>().ok(), "{:?}", s);
    }
}
