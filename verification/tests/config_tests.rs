use fps_enhancer::config::{render_config, AppConfig, ResolutionConfig};
use fps_enhancer::strutil::{
    contains, eq_ignore_ascii_case, join_lines, split_lines, starts_with, str_eq, trim,
    u32_to_string, u64_to_string, usize_to_string,
};

#[test]
fn render_writes_both_sections_exactly() {
    let c = AppConfig {
        desktop: ResolutionConfig {
            width: 2560,
            height: 1440,
            refresh_rate: 165,
        },
        game: ResolutionConfig {
            width: 1280,
            height: 960,
            refresh_rate: 240,
        },
    };
    let expected = "[Desktop]\n\
ResolutionSizeX = 2560\n\
ResolutionSizeY = 1440\n\
RefreshRate = 165\n\
\n\
[Game]\n\
ResolutionSizeX = 1280\n\
ResolutionSizeY = 960\n\
RefreshRate = 240\n";
    assert_eq!(render_config(&c), expected);
}

#[test]
fn decimal_rendering_is_exact() {
    assert_eq!(u32_to_string(0), "0");
    assert_eq!(u32_to_string(7), "7");
    assert_eq!(u32_to_string(1080), "1080");
    assert_eq!(u64_to_string(18446744073709551615), "18446744073709551615");
    assert_eq!(usize_to_string(144), "144");
}

#[test]
fn trim_strips_surrounding_whitespace_only() {
    assert_eq!(trim("  a b \t"), "a b");
    assert_eq!(trim("\r\n x \r\n"), "x");
    assert_eq!(trim("   \t "), "");
    assert_eq!(trim("solid"), "solid");
}

#[test]
fn starts_with_and_contains_match_exactly() {
    assert!(starts_with("Instance ID: X", "Instance ID:"));
    assert!(!starts_with("Id: X", "Instance ID:"));
    assert!(contains("abcdef", "cde"));
    assert!(!contains("abcdef", "ce"));
    assert!(contains("anything", ""));
}

#[test]
fn case_insensitive_match_folds_ascii_only() {
    assert!(eq_ignore_ascii_case("VALORANT.exe", "valorant.EXE"));
    assert!(!eq_ignore_ascii_case("valorant.exe", "valorant2.exe"));
    assert!(eq_ignore_ascii_case("\u{65E0}A", "\u{65E0}a"));
    assert!(!eq_ignore_ascii_case("\u{65E0}", "\u{65E1}"));
    assert!(str_eq("same", "same"));
    assert!(!str_eq("same", "Same"));
}

#[test]
fn lines_split_like_the_standard_library() {
    let lines = split_lines("a\r\nb\nc");
    assert_eq!(lines, vec!["a", "b", "c"]);
    assert_eq!(split_lines("a\n"), vec!["a"]);
    assert_eq!(split_lines(""), Vec::<String>::new());
    assert_eq!(split_lines("\n"), vec![""]);
    assert_eq!(split_lines("tail\r"), vec!["tail\r"]);
}

#[test]
fn joined_lines_use_single_newlines() {
    let lines = vec![String::from("a"), String::from(""), String::from("c")];
    assert_eq!(join_lines(&lines), "a\n\nc");
    assert_eq!(join_lines(&Vec::new()), "");
}
