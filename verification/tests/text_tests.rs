use chiri::cpulist::{format_cpu_list, online_bitmap_from, parse_cpu_bitmap, parse_cpu_list, sort_dedup};
use chiri::text::{
    i64_to_string, parse_i32, parse_u32, parse_u32_words, split_chars, str_to_chars, trim_str,
    u64_to_string, words_chars,
};

fn chars(s: &str) -> Vec<char> {
    s.chars().collect()
}

#[test]
fn parse_cpu_list_ranges_and_singles() {
    assert_eq!(parse_cpu_list("0-3,5"), vec![0, 1, 2, 3, 5]);
}

#[test]
fn parse_cpu_list_skips_bad_parts() {
    assert_eq!(parse_cpu_list(" 2 , x, 5-4, 7-1024, 6-6"), vec![2, 6]);
    assert_eq!(parse_cpu_list(""), Vec::<usize>::new());
}

#[test]
fn format_cpu_list_sorts_and_dedups() {
    assert_eq!(format_cpu_list(vec![3, 0, 3, 1]), "0,1,3");
    assert_eq!(format_cpu_list(vec![]), "");
}

#[test]
fn sort_dedup_orders_values() {
    assert_eq!(sort_dedup(&vec![5, 1, 5, 0, 1]), vec![0, 1, 5]);
}

#[test]
fn cpu_bitmap_marks_listed_cores() {
    assert_eq!(parse_cpu_bitmap("0-2,5,9", 6), vec![true, true, true, false, false, true]);
    assert_eq!(parse_cpu_bitmap("4-100", 6), vec![false, false, false, false, true, true]);
}

#[test]
fn online_bitmap_falls_back_to_all_online() {
    assert_eq!(online_bitmap_from("  ", 3), vec![true, true, true]);
    assert_eq!(online_bitmap_from("9", 3), vec![true, true, true]);
    assert_eq!(online_bitmap_from("1", 3), vec![false, true, false]);
}

#[test]
fn parse_u32_words_skips_bad_words() {
    assert_eq!(parse_u32_words(" 300000  x 691200\n+5 -1"), vec![300000, 691200, 5]);
    assert_eq!(parse_u32_words("4294967296 4294967295"), vec![4294967295]);
}

#[test]
fn words_split_on_any_whitespace() {
    let w = words_chars(&chars("\ta  bc\n d "));
    assert_eq!(w, vec![chars("a"), chars("bc"), chars("d")]);
}

#[test]
fn split_keeps_empty_pieces() {
    let p = split_chars(&chars("a,,b,"), ',');
    assert_eq!(p, vec![chars("a"), chars(""), chars("b"), chars("")]);
}

#[test]
fn number_parsing_follows_from_str() {
    assert_eq!(parse_u32(&chars("+42")), Some(42));
    assert_eq!(parse_u32(&chars("")), None);
    assert_eq!(parse_i32(&chars("-2147483648")), Some(i32::MIN));
    assert_eq!(parse_i32(&chars("2147483648")), None);
}

#[test]
fn number_formatting() {
    assert_eq!(u64_to_string(0), "0");
    assert_eq!(u64_to_string(1804800), "1804800");
    assert_eq!(i64_to_string(-15), "-15");
    assert_eq!(i64_to_string(i64::MIN), "-9223372036854775808");
}

#[test]
fn trimming_removes_unicode_whitespace() {
    assert_eq!(trim_str("\u{3000} schedutil\n"), "schedutil");
    assert_eq!(str_to_chars("ab"), vec!['a', 'b']);
}

#[test]
fn cpu_list_round_trip() {
    let ids: Vec<usize> = vec![7, 0, 3, 3, 12, 1];
    let text = format_cpu_list(ids);
    assert_eq!(text, "0,1,3,7,12");
    assert_eq!(parse_cpu_list(&text), vec![0, 1, 3, 7, 12]);
    assert_eq!(parse_cpu_list(&format_cpu_list(vec![])), Vec::<usize>::new());
}

#[test]
fn empty_bitmap_takes_lists_without_zero_ranges() {
    assert_eq!(parse_cpu_bitmap("", 0), Vec::<bool>::new());
    assert_eq!(parse_cpu_bitmap("5", 0), Vec::<bool>::new());
    assert_eq!(parse_cpu_bitmap("2-4", 0), Vec::<bool>::new());
}
