use guhwall::scan::{eligible, filter_eligible, is_hidden};

fn v(s: &str) -> Vec<u8> {
    s.as_bytes().to_vec()
}

#[test]
fn scan_keeps_only_eligible_images() {
    let names = vec![v("a.png"), v("b.txt"), v(".hidden.jpg")];
    let kept = filter_eligible(&names);
    assert_eq!(kept, vec![v("a.png")]);
}

#[test]
fn hidden_entries_are_excluded() {
    assert!(is_hidden(b".hidden.jpg"));
    assert!(is_hidden(b"."));
    assert!(!is_hidden(b"a.png"));
    assert!(!is_hidden(b""));
    assert!(!eligible(b".hidden.jpg"));
    assert!(!eligible(b".jpg"));
}

#[test]
fn extension_allow_list_is_case_insensitive() {
    assert!(eligible(b"a.png"));
    assert!(eligible(b"a.jpg"));
    assert!(eligible(b"a.jpeg"));
    assert!(eligible(b"a.webp"));
    assert!(eligible(b"a.gif"));
    assert!(eligible(b"A.PNG"));
    assert!(eligible(b"photo.JpEg"));
    assert!(eligible(b"two.dots.png"));
}

#[test]
fn wrong_or_missing_extensions_are_excluded() {
    assert!(!eligible(b"b.txt"));
    assert!(!eligible(b"noext"));
    assert!(!eligible(b"trailingdot."));
    assert!(!eligible(b"a.pngx"));
    assert!(!eligible(b"a.bmp"));
    assert!(!eligible(b""));
}

#[test]
fn filter_keeps_input_order() {
    let names = vec![v("z.gif"), v("m.txt"), v("a.png"), v(".b.png")];
    let kept = filter_eligible(&names);
    assert_eq!(kept, vec![v("z.gif"), v("a.png")]);
}
