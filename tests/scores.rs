use tetris::highscores::{
    line_to_slice, load_highscores_and_lines, numbers_of, record_game, save_highscores_and_lines,
    slice_to_string, update_vec, NB_HIGHSCORES,
};
use tetris::text::{chars_of, parse_decimal, push_decimal, split_fields};

#[test]
fn update_replaces_first_exceeded() {
    // 25 strictly exceeds 10, the first entry, which it replaces.
    let mut v = vec![10, 20, 30, 40, 50];
    assert!(update_vec(&mut v, 25));
    assert_eq!(v, vec![25, 20, 30, 40, 50]);
    // The first entry exceeded is replaced, not the smallest one.
    let mut w = vec![30, 20, 10, 40, 50];
    assert!(update_vec(&mut w, 25));
    assert_eq!(w, vec![30, 25, 10, 40, 50]);
}

#[test]
fn update_appends_when_room() {
    let mut v = vec![7, 3];
    assert!(update_vec(&mut v, 1));
    assert_eq!(v, vec![7, 3, 1]);
    let mut e = Vec::new();
    assert!(update_vec(&mut e, 0));
    assert_eq!(e, vec![0]);
}

#[test]
fn update_rejects_when_not_greater() {
    let mut v = vec![10, 20, 30, 40, 50];
    assert_eq!(v.len(), NB_HIGHSCORES);
    assert!(!update_vec(&mut v, 10));
    assert!(!update_vec(&mut v, 3));
    assert_eq!(v, vec![10, 20, 30, 40, 50]);
    assert!(update_vec(&mut v, 11));
    assert_eq!(v, vec![11, 20, 30, 40, 50]);
}

#[test]
fn numbers_written_with_spaces() {
    assert_eq!(slice_to_string(&[10, 20]), "10 20");
    assert_eq!(slice_to_string(&[]), "");
    assert_eq!(slice_to_string(&[0]), "0");
    assert_eq!(slice_to_string(&[u32::MAX, 7, 1000]), "4294967295 7 1000");
}

#[test]
fn decimal_digits() {
    let mut s = String::from("x");
    push_decimal(&mut s, 90210);
    assert_eq!(s, "x90210");
}

#[test]
fn save_text_has_two_lines() {
    assert_eq!(save_highscores_and_lines(&[5, 4], &[1]), "5 4\n1\n");
    assert_eq!(save_highscores_and_lines(&[], &[]), "\n\n");
}

#[test]
fn line_numbers_skip_bad_pieces() {
    assert_eq!(line_to_slice("10 20 30"), vec![10, 20, 30]);
    assert_eq!(line_to_slice(""), Vec::<u32>::new());
    assert_eq!(line_to_slice("1  2 x 3"), vec![1, 2, 3]);
    assert_eq!(line_to_slice("+4 -5 4294967296 4294967295"), vec![4, 4294967295]);
    assert_eq!(line_to_slice("7\r"), Vec::<u32>::new());
    assert_eq!(numbers_of(&"12 0012".chars().collect()), vec![12, 12]);
}

#[test]
fn parse_follows_std() {
    for t in ["0", "+0", "42", "+", "", "-1", "4294967295", "4294967296", "99999999999", "1a", " 1"] {
        let chars: Vec<char> = t.chars().collect();
        assert_eq!(parse_decimal(&chars), t.parse::<u32>().ok(), "{:?}", t);
    }
}

#[test]
fn split_keeps_empty_pieces() {
    let chars = chars_of("a,,b,");
    let pieces = split_fields(&chars, ',');
    let expected: Vec<Vec<char>> = "a,,b,".split(',').map(|p| p.chars().collect()).collect();
    assert_eq!(pieces, expected);
    assert_eq!(chars_of("héllo"), vec!['h', 'é', 'l', 'l', 'o']);
}

#[test]
fn load_reads_two_lines() {
    let (h, l) = load_highscores_and_lines("10 20\n3 4\n").unwrap();
    assert_eq!(h, vec![10, 20]);
    assert_eq!(l, vec![3, 4]);
    assert!(load_highscores_and_lines("10 20\n3 4").is_none());
    assert!(load_highscores_and_lines("").is_none());
    let (h, l) = load_highscores_and_lines("\n\nrest\nmore").unwrap();
    assert!(h.is_empty() && l.is_empty());
}

#[test]
fn save_then_load_round_trip() {
    let text = save_highscores_and_lines(&[50, 40, 30], &[9, 8]);
    let (h, l) = load_highscores_and_lines(&text).unwrap();
    assert_eq!(h, vec![50, 40, 30]);
    assert_eq!(l, vec![9, 8]);
}

#[test]
fn record_without_file() {
    let (nh, nl, text) = record_game(None, 120, 4);
    assert!(nh && nl);
    assert_eq!(text.unwrap(), "120\n4\n");
}

#[test]
fn record_with_file() {
    let loaded = Some((vec![10, 20, 30, 40, 50], vec![1, 2, 3, 4, 5]));
    let (nh, nl, text) = record_game(loaded, 25, 0);
    assert!(nh);
    assert!(!nl);
    assert_eq!(text.unwrap(), "25 20 30 40 50\n1 2 3 4 5\n");
    let loaded = Some((vec![10, 20, 30, 40, 50], vec![1, 2, 3, 4, 5]));
    let (nh, nl, text) = record_game(loaded, 5, 0);
    assert!(!nh && !nl);
    assert!(text.is_none());
}
