use minlabel::text::{
    chars_of, join_chars, lines_of, split_chars, split_once_chars, trimmed, words_of,
};
use minlabel::transcribe::strip_tone;

fn v(s: &str) -> Vec<char> {
    s.chars().collect()
}

fn strings(ps: Vec<Vec<char>>) -> Vec<String> {
    ps.into_iter().map(|p| p.into_iter().collect()).collect()
}

#[test]
fn chars_in_order() {
    assert_eq!(chars_of("aé中"), vec!['a', 'é', '中']);
    assert!(chars_of("").is_empty());
}

#[test]
fn lines_like_str_lines() {
    for text in ["a\r\nb\n", "a\n\nb", "", "\n", "x\r", "one\r\r\ntwo", "\r\n\r\n"] {
        let expected: Vec<String> = text.lines().map(|l| l.to_string()).collect();
        assert_eq!(strings(lines_of(&v(text))), expected, "{:?}", text);
    }
}

#[test]
fn split_like_str_split() {
    for text in ["a,b,,c", "", ",", "abc", " a , b "] {
        let expected: Vec<String> = text.split(',').map(|l| l.to_string()).collect();
        assert_eq!(strings(split_chars(&v(text), ',')), expected);
    }
}

#[test]
fn split_once_at_first_colon() {
    let (a, b) = split_once_chars(&v("k:v:w"), ':').unwrap();
    assert_eq!(a.into_iter().collect::<String>(), "k");
    assert_eq!(b.into_iter().collect::<String>(), "v:w");
    assert!(split_once_chars(&v("no colon"), ':').is_none());
    let (a, b) = split_once_chars(&v(":"), ':').unwrap();
    assert!(a.is_empty() && b.is_empty());
}

#[test]
fn trim_like_str_trim() {
    for text in ["  a b \t", "\u{3000}x\u{a0}", "", "   ", "y"] {
        assert_eq!(trimmed(&v(text)).into_iter().collect::<String>(), text.trim());
    }
}

#[test]
fn words_like_split_whitespace() {
    for text in ["  a  b\tc\n", "", " ", "one", "x\u{2003}y"] {
        let expected: Vec<String> = text.split_whitespace().map(|w| w.to_string()).collect();
        assert_eq!(strings(words_of(&v(text))), expected);
    }
}

#[test]
fn join_with_separator() {
    let parts = vec![v("a"), v("bc"), v("")];
    assert_eq!(join_chars(&parts, ", ").into_iter().collect::<String>(), "a, bc, ");
    assert!(join_chars(&vec![], " ").is_empty());
}

#[test]
fn tone_marks_removed_once_and_for_all() {
    let once = strip_tone(&v("zhōng guó lǜ NǙ Ā"));
    assert_eq!(once.iter().collect::<String>(), "zhong guo lv NV A");
    assert_eq!(strip_tone(&once), once);
    assert_eq!(once.len(), v("zhōng guó lǜ NǙ Ā").len());
}
