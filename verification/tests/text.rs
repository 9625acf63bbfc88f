use hw_inventory::fields::{lines_of, split_on, words_of};
use hw_inventory::number::parse_unsigned;
use hw_inventory::text::{
    begins_with, char_is_space, chars_of, copy_range, includes, includes_at, same_text, str_contains,
    str_is, str_starts_with, string_of, trimmed,
};

fn chars(s: &str) -> Vec<char> {
    s.chars().collect()
}

fn strings(v: Vec<Vec<char>>) -> Vec<String> {
    v.iter().map(|t| t.iter().collect()).collect()
}

fn samples() -> Vec<&'static str> {
    vec![
        "",
        " ",
        "a",
        "\n",
        "\r\n",
        "\r",
        "a\n",
        "a\r\n",
        "a\r",
        "a\n\nb",
        "a\r\n\r\nb\r\n",
        "a\r\r\nb",
        "\n\n",
        "  leading",
        "trailing  ",
        "  both \t\n",
        "one two  three\tfour",
        "\u{a0}nbsp\u{a0}",
        "\u{3000}wide\u{2003}space\u{3000}",
        "\u{200b}zero width\u{200b}",
        "a:b:c",
        "::",
        ":",
        "no colon",
        "01:00.0 VGA compatible controller: NVIDIA Corporation GA102 (rev a1)",
        "NAME TYPE SIZE TRAN\nsda disk 500000000000 sata\nnvme0n1 disk 1000000000000 nvme\n",
        "\tType: DDR4\n\tType Detail: Synchronous\n",
        "caf\u{e9} \u{1f600} end",
        "\u{1c}\u{1d}\u{1e}\u{1f}x\u{85}",
    ]
}

#[test]
fn chars_of_gives_each_character() {
    for s in samples() {
        assert_eq!(chars_of(s), chars(s));
    }
}

#[test]
fn string_of_gives_the_text_back() {
    for s in samples() {
        assert_eq!(string_of(&chars(s)), s.to_string());
    }
    assert_eq!(string_of(&vec!['D', 'D', 'R', '4']), "DDR4".to_string());
    assert_eq!(string_of(&Vec::new()), String::new());
}

#[test]
fn copy_range_gives_the_characters_between() {
    let v = chars("hello world");
    assert_eq!(copy_range(&v, 0, 5), chars("hello"));
    assert_eq!(copy_range(&v, 6, 11), chars("world"));
    assert_eq!(copy_range(&v, 3, 3), chars(""));
    assert_eq!(copy_range(&v, 0, 11), v);
}

#[test]
fn white_space_is_what_the_standard_library_says() {
    let mut n: u32 = 0;
    while n <= 0x11000 {
        if let Some(c) = char::from_u32(n) {
            assert_eq!(char_is_space(c), c.is_whitespace(), "U+{:04X}", n);
        }
        n += 1;
    }
    assert!(char_is_space(' '));
    assert!(char_is_space('\t'));
    assert!(char_is_space('\u{3000}'));
    assert!(!char_is_space('x'));
    assert!(!char_is_space('\u{200b}'));
    assert!(!char_is_space('\u{10ffff}'));
}

#[test]
fn trimmed_agrees_with_the_standard_library() {
    for s in samples() {
        assert_eq!(string_of(&trimmed(&chars(s))), s.trim().to_string(), "{:?}", s);
    }
    assert_eq!(trimmed(&chars("  DDR4 \t")), chars("DDR4"));
    assert_eq!(trimmed(&chars(" \n\t ")), chars(""));
    assert_eq!(trimmed(&chars("a b")), chars("a b"));
}

#[test]
fn includes_agrees_with_the_standard_library() {
    let patterns = vec!["", "a", "VGA", "Type:", "DDR", "\n", ":", "sata", " ", "b\r", "nvme", "e"];
    for s in samples() {
        for p in &patterns {
            assert_eq!(includes(&chars(s), &chars(p)), s.contains(p), "{:?} in {:?}", p, s);
            assert_eq!(str_contains(s, p), s.contains(p), "{:?} in {:?}", p, s);
            assert_eq!(begins_with(&chars(s), &chars(p)), s.starts_with(p), "{:?} {:?}", p, s);
            assert_eq!(str_starts_with(s, p), s.starts_with(p), "{:?} {:?}", p, s);
        }
    }
    assert!(includes(&chars("PCIe 4.0 x4"), &chars("PCIe 4.0")));
    assert!(!includes(&chars("PCIe 4"), &chars("PCIe 4.0")));
    assert!(!includes(&chars(""), &chars("x")));
    assert!(includes(&chars(""), &chars("")));
}

#[test]
fn includes_at_looks_at_one_position() {
    let s = chars("abcabc");
    assert!(includes_at(&s, &chars("abc"), 0));
    assert!(includes_at(&s, &chars("abc"), 3));
    assert!(!includes_at(&s, &chars("abc"), 1));
    assert!(!includes_at(&s, &chars("abc"), 4));
    assert!(!includes_at(&s, &chars("abc"), 100));
    assert!(includes_at(&s, &chars(""), 6));
    assert!(!includes_at(&s, &chars(""), 7));
    assert!(!includes_at(&s, &chars("abcabcabc"), 0));
}

#[test]
fn same_text_compares_every_character() {
    assert!(same_text(&chars("linux"), &chars("linux")));
    assert!(!same_text(&chars("linux"), &chars("linus")));
    assert!(!same_text(&chars("linux"), &chars("linu")));
    assert!(!same_text(&chars("linu"), &chars("linux")));
    assert!(same_text(&chars(""), &chars("")));
    assert!(str_is("sata", "sata"));
    assert!(!str_is("sata", "SATA"));
    assert!(!str_is("sata", "sat"));
    assert!(!str_is("", "sata"));
}

#[test]
fn split_on_agrees_with_the_standard_library() {
    for s in samples() {
        for sep in [':', ' ', '\n', 'a'] {
            let expected: Vec<String> = s.split(sep).map(|p| p.to_string()).collect();
            assert_eq!(strings(split_on(&chars(s), sep)), expected, "{:?} at {:?}", s, sep);
        }
    }
    assert_eq!(strings(split_on(&chars("a:b:c"), ':')), vec!["a", "b", "c"]);
    assert_eq!(strings(split_on(&chars(""), ':')), vec![""]);
    assert_eq!(strings(split_on(&chars("::"), ':')), vec!["", "", ""]);
}

#[test]
fn lines_of_agrees_with_the_standard_library() {
    for s in samples() {
        let expected: Vec<String> = s.lines().map(|p| p.to_string()).collect();
        assert_eq!(strings(lines_of(&chars(s))), expected, "{:?}", s);
    }
    assert_eq!(strings(lines_of(&chars("a\r\nb\n"))), vec!["a", "b"]);
    assert_eq!(strings(lines_of(&chars("a\n\nb"))), vec!["a", "", "b"]);
    assert_eq!(strings(lines_of(&chars("a\r"))), vec!["a\r"]);
    assert!(lines_of(&chars("")).is_empty());
}

#[test]
fn words_of_agrees_with_the_standard_library() {
    for s in samples() {
        let expected: Vec<String> = s.split_whitespace().map(|p| p.to_string()).collect();
        assert_eq!(strings(words_of(&chars(s))), expected, "{:?}", s);
    }
    assert_eq!(
        strings(words_of(&chars("  sda   disk 500000000000\tsata "))),
        vec!["sda", "disk", "500000000000", "sata"]
    );
    assert!(words_of(&chars(" \t ")).is_empty());
}

#[test]
fn parse_unsigned_agrees_with_the_standard_library() {
    let inputs = vec![
        "",
        "0",
        "7",
        "42",
        "+42",
        "-42",
        "+",
        "-",
        "++1",
        "+-1",
        "0005",
        "1000000000000",
        "18446744073709551615",
        "18446744073709551616",
        "18446744073709551620",
        "99999999999999999999999",
        "+18446744073709551615",
        "000000000000000000000000000001",
        "12a",
        "a12",
        "1 2",
        " 12",
        "12 ",
        "1.5",
        "1e3",
        "0x10",
        "\u{0661}\u{0662}",
        "\u{ff11}",
        "500G",
    ];
    for s in inputs {
        assert_eq!(parse_unsigned(&chars(s)), s.parse::<u64>().ok(), "{:?}", s);
    }
    assert_eq!(parse_unsigned(&chars("1000000000000")), Some(1000000000000));
    assert_eq!(parse_unsigned(&chars("18446744073709551615")), Some(u64::MAX));
    assert_eq!(parse_unsigned(&chars("18446744073709551616")), None);
}
