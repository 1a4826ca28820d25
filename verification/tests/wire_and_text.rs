use deep_search::names::name_is_unsafe;
use deep_search::text::{chars_of, concat3, has_char, has_prefix, has_run, has_run_at, has_suffix};
use deep_search::wire::{fits, read_u16, read_u32, read_u64, u16_at, u32_at, u64_at};

fn chars(s: &str) -> Vec<char> {
    s.chars().collect()
}

#[test]
fn reads_little_endian_integers() {
    let buf = [0x01u8, 0x02, 0x03, 0x04, 0x05, 0x06, 0x07, 0x08, 0x09];
    assert_eq!(read_u16(&buf, 0), Some(0x0201));
    assert_eq!(read_u16(&buf, 7), Some(0x0908));
    assert_eq!(read_u32(&buf, 1), Some(0x0504_0302));
    assert_eq!(read_u64(&buf, 0), Some(0x0807_0605_0403_0201));
    assert_eq!(read_u64(&buf, 1), Some(0x0908_0706_0504_0302));
}

#[test]
fn reads_inside_known_bounds() {
    let buf = [0x10u8, 0x20, 0x30, 0x40, 0x50, 0x60, 0x70, 0x80, 0x90];
    assert_eq!(u16_at(&buf, 1), 0x3020);
    assert_eq!(u32_at(&buf, 5), 0x9080_7060);
    assert_eq!(u64_at(&buf, 1), 0x9080_7060_5040_3020);
}

#[test]
fn tells_what_lies_inside() {
    let buf = [0u8; 10];
    assert!(fits(&buf, 0, 10));
    assert!(fits(&buf, 10, 0));
    assert!(fits(&buf, 4, 6));
    assert!(!fits(&buf, 4, 7));
    assert!(!fits(&buf, 11, 0));
    assert!(!fits(&buf, 1, usize::MAX));
    assert!(!fits(&buf, usize::MAX, 1));
}

#[test]
fn reads_largest_values() {
    let buf = [0xFFu8; 8];
    assert_eq!(read_u16(&buf, 0), Some(u16::MAX));
    assert_eq!(read_u32(&buf, 0), Some(u32::MAX));
    assert_eq!(read_u64(&buf, 0), Some(u64::MAX));
}

#[test]
fn reads_nothing_outside_the_buffer() {
    let buf = [0u8; 8];
    assert_eq!(read_u16(&buf, 7), None);
    assert_eq!(read_u16(&buf, 8), None);
    assert_eq!(read_u32(&buf, 5), None);
    assert_eq!(read_u64(&buf, 1), None);
    assert_eq!(read_u64(&buf, usize::MAX), None);
    assert_eq!(read_u16(&buf, usize::MAX - 1), None);
    assert_eq!(read_u16(&[], 0), None);
}

#[test]
fn chars_of_gives_code_points() {
    assert_eq!(chars_of(""), Vec::<char>::new());
    assert_eq!(chars_of("aé日😀"), vec!['a', 'é', '日', '😀']);
}

#[test]
fn concat3_joins_in_order() {
    assert_eq!(concat3("ab", "", "cd"), "abcd");
    assert_eq!(concat3("", "x", ""), "x");
}

#[test]
fn finds_characters_and_runs() {
    let s = chars("hello world");
    assert!(has_char(&s, 'w'));
    assert!(!has_char(&s, 'z'));
    assert!(!has_char(&chars(""), 'a'));
    assert!(has_run(&s, &chars("lo w")));
    assert!(has_run(&s, &chars("hello world")));
    assert!(has_run(&s, &chars("")));
    assert!(has_run(&chars(""), &chars("")));
    assert!(!has_run(&s, &chars("worlds")));
    assert!(!has_run(&s, &chars("hello world!")));
    assert!(has_run(&chars("aab"), &chars("ab")));
}

#[test]
fn tests_runs_at_positions() {
    let s = chars("abcabc");
    assert!(has_run_at(&s, &chars("abc"), 0));
    assert!(has_run_at(&s, &chars("abc"), 3));
    assert!(!has_run_at(&s, &chars("abc"), 1));
    assert!(!has_run_at(&s, &chars("abc"), 4));
    assert!(has_run_at(&s, &chars(""), 6));
    assert!(!has_run_at(&s, &chars(""), 7));
    assert!(!has_run_at(&s, &chars("a"), usize::MAX));
}

#[test]
fn tests_prefixes_and_suffixes() {
    let s = chars("report.txt");
    assert!(has_prefix(&s, &chars("rep")));
    assert!(has_prefix(&s, &chars("")));
    assert!(has_prefix(&s, &chars("report.txt")));
    assert!(!has_prefix(&s, &chars("eport")));
    assert!(!has_prefix(&s, &chars("report.txt1")));
    assert!(has_suffix(&s, &chars(".txt")));
    assert!(has_suffix(&s, &chars("")));
    assert!(!has_suffix(&s, &chars(".tx")));
    assert!(!has_suffix(&chars("nk"), &chars(".lnk")));
}

#[test]
fn refuses_each_unsafe_pattern() {
    assert!(name_is_unsafe("evil:stream"));
    assert!(name_is_unsafe(":"));
    assert!(name_is_unsafe("a::$DATA"));
    assert!(name_is_unsafe("link.lnk"));
    assert!(name_is_unsafe(".lnk"));
    assert!(name_is_unsafe("{0000-0000}"));
    assert!(name_is_unsafe("}x{"));
    assert!(name_is_unsafe("\\\\?\\Volume"));
    assert!(name_is_unsafe("x\\\\?\\"));
}

#[test]
fn keeps_ordinary_names() {
    assert!(!name_is_unsafe(""));
    assert!(!name_is_unsafe("report.txt"));
    assert!(!name_is_unsafe("link.LNK"));
    assert!(!name_is_unsafe("link.lnk2"));
    assert!(!name_is_unsafe("lnk"));
    assert!(!name_is_unsafe("{open"));
    assert!(!name_is_unsafe("close}"));
    assert!(!name_is_unsafe("\\?\\"));
    assert!(!name_is_unsafe("what?"));
    assert!(!name_is_unsafe("日本語"));
}
