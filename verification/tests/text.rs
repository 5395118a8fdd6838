use jj_hooks::text::{nonblank_lines, split, str_eq, trim};

#[test]
fn trim_matches_std() {
    for s in ["", "  ", " a b ", "\t\nx\r\n", "\u{a0}y\u{3000}", "z"] {
        assert_eq!(trim(s), s.trim());
    }
}

#[test]
fn split_matches_std() {
    for s in ["", "a", "a b", " a  b ", "x\ny\n"] {
        let std_pieces: Vec<String> = s.split(' ').map(|p| p.to_string()).collect();
        assert_eq!(split(s, ' '), std_pieces);
    }
}

#[test]
fn nonblank_lines_trim_and_skip() {
    assert_eq!(
        nonblank_lines("abc\n\n  def  \r\n \n"),
        vec!["abc".to_string(), "def".to_string()]
    );
    assert!(nonblank_lines("").is_empty());
    assert!(nonblank_lines("\n \n").is_empty());
}

#[test]
fn string_equality() {
    assert!(str_eq("abc", "abc"));
    assert!(!str_eq("abc", "abd"));
    assert!(!str_eq("ab", "abc"));
}
