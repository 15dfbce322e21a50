use renderer::text::{
    chars_of, count_char_exec, decimal_string, find_char_exec, find_seq_exec, lines_of, string_of, trim_chars,
    trim_start_chars,
};

fn cs(s: &str) -> Vec<char> {
    s.chars().collect()
}

#[test]
fn decimal_rendering() {
    assert_eq!(decimal_string(0), "0");
    assert_eq!(decimal_string(7), "7");
    assert_eq!(decimal_string(1234), "1234");
    assert_eq!(decimal_string(u64::MAX), u64::MAX.to_string());
}

#[test]
fn chars_round_trip() {
    assert_eq!(chars_of("héllo"), vec!['h', 'é', 'l', 'l', 'o']);
    assert_eq!(string_of(&chars_of("héllo")), "héllo");
}

#[test]
fn trimming() {
    assert_eq!(trim_chars(&cs(" \t a b \n")), cs("a b"));
    assert_eq!(trim_start_chars(&cs("\u{3000}x ")), cs("x "));
    assert!(trim_chars(&cs("   ")).is_empty());
}

#[test]
fn searching() {
    assert_eq!(find_char_exec(&cs("a@b@"), '@'), Some(1));
    assert_eq!(find_char_exec(&cs("ab"), '@'), None);
    assert_eq!(find_seq_exec(&cs("def Material \"x\""), &cs("Material ")), Some(4));
    assert_eq!(find_seq_exec(&cs("Materia"), &cs("Material ")), None);
    assert_eq!(count_char_exec(&cs("{ { } x"), '{'), 2);
}

#[test]
fn lines_split_like_str_lines() {
    let text = "a\r\nb\n\nc";
    let got: Vec<String> = lines_of(&cs(text)).iter().map(|l| l.iter().collect()).collect();
    let want: Vec<String> = text.lines().map(|l| l.to_string()).collect();
    assert_eq!(got, want);
    assert!(lines_of(&cs("")).is_empty());
    assert_eq!(lines_of(&cs("x\n")).len(), 1);
}

