use video_musique::text::{
    chars_of, contains, ends_with, is_whitespace, join, push_text, str_equals, trim,
};

fn chars(s: &str) -> Vec<char> {
    s.chars().collect()
}

fn text(v: Vec<char>) -> String {
    let mut s = String::new();
    for c in v {
        s.push(c);
    }
    s
}

#[test]
fn characters_come_out_in_order() {
    assert_eq!(chars_of("aé水"), vec!['a', 'é', '水']);
    assert_eq!(chars_of(""), Vec::<char>::new());
}

#[test]
fn equal_strings_are_equal() {
    assert!(str_equals("nvidia", "nvidia"));
    assert!(str_equals("", ""));
    assert!(str_equals("é水", "é水"));
    assert!(!str_equals("nvidia", "nvidiA"));
    assert!(!str_equals("amd", "am"));
    assert!(!str_equals("am", "amd"));
}

#[test]
fn a_text_is_found_wherever_it_occurs() {
    let hay = chars(" V..... h264_nvenc           NVIDIA NVENC H.264 encoder");
    assert!(contains(&hay, &chars("h264_nvenc")));
    assert!(contains(&hay, &chars(" V")));
    assert!(contains(&hay, &chars("encoder")));
    assert!(contains(&hay, &chars("")));
    assert!(!contains(&hay, &chars("h264_qsv")));
    assert!(!contains(&chars("abc"), &chars("abcd")));
    assert!(contains(&chars(""), &chars("")));
    assert!(!contains(&chars(""), &chars("a")));
    assert!(contains(&chars("aab"), &chars("ab")));
}

#[test]
fn suffixes_are_recognised() {
    assert!(ends_with(&chars("film.webm"), &chars(".webm")));
    assert!(!ends_with(&chars("film.webm.mp4"), &chars(".webm")));
    assert!(!ends_with(&chars("webm"), &chars(".webm")));
    assert!(ends_with(&chars(".webm"), &chars(".webm")));
    assert!(ends_with(&chars("x"), &chars("")));
}

#[test]
fn white_space_is_what_trimming_removes() {
    for c in [' ', '\t', '\n', '\r', '\u{0B}', '\u{0C}', '\u{85}', '\u{A0}', '\u{3000}', '\u{2003}'] {
        assert!(is_whitespace(c));
        assert!(c.is_whitespace());
    }
    for c in ['a', '0', '_', '\u{200B}', '\u{08}', '\u{0E}'] {
        assert!(!is_whitespace(c));
        assert!(!c.is_whitespace());
    }
}

#[test]
fn white_space_agrees_with_the_standard_library_everywhere() {
    let mut code: u32 = 0;
    while code <= 0x3100 {
        if let Some(c) = char::from_u32(code) {
            assert_eq!(is_whitespace(c), c.is_whitespace());
        }
        code += 1;
    }
}

#[test]
fn trimming_removes_both_ends_only() {
    assert_eq!(text(trim(&chars("  12.5 \n"))), "12.5");
    assert_eq!(text(trim(&chars("a b"))), "a b");
    assert_eq!(text(trim(&chars("\t\n "))), "");
    assert_eq!(text(trim(&chars(""))), "");
    assert_eq!(text(trim(&chars("x"))), "x");
    assert_eq!(text(trim(&chars(" N/A\r\n"))), "N/A");
}

#[test]
fn joining_puts_the_separator_between_parts() {
    let parts = vec!["a".to_string(), "bc".to_string(), "".to_string(), "d".to_string()];
    assert_eq!(join(&parts, ";"), "a;bc;;d");
    assert_eq!(join(&vec!["only".to_string()], ";"), "only");
    assert_eq!(join(&Vec::new(), ";"), "");
    assert_eq!(join(&vec!["".to_string(), "x".to_string()], ";"), ";x");
}

#[test]
fn pushing_text_appends_a_copy() {
    let mut list = vec!["ffmpeg".to_string()];
    push_text(&mut list, "-y");
    assert_eq!(list, vec!["ffmpeg".to_string(), "-y".to_string()]);
}
