use atoms::text::{PrettyChar, Span, Spanned};
use atoms::{is_identifier_start, is_numeric, is_whitespace};

#[test]
fn span_basics() {
    let s = Span::new(3, 7);
    assert_eq!(s.start(), 3);
    assert_eq!(s.end(), 7);
    assert!(!s.is_dummy());
    assert!(Span::dummy().is_dummy());
    assert!(s.contains(3));
    assert!(s.contains(6));
    assert!(!s.contains(7));
    assert!(!s.contains(2));
}

#[test]
fn span_merge() {
    let a = Span::new(3, 7);
    let b = Span::new(5, 12);
    let m = a.merge(b);
    assert_eq!(m.start(), 3);
    assert_eq!(m.end(), 12);
    assert_eq!(a.merge(Span::dummy()), a);
    assert_eq!(Span::dummy().merge(b), b);
    assert!(Span::dummy().merge(Span::dummy()).is_dummy());
}

#[test]
fn span_extend() {
    let s = Span::new(3, 7);
    assert_eq!(s.extend(0), s);
    assert_eq!(s.extend(5), s);
    let left = s.extend(1);
    assert_eq!(left.start(), 1);
    assert_eq!(left.end(), 7);
    let right = s.extend(9);
    assert_eq!(right.start(), 3);
    assert_eq!(right.end(), 10);
    let fresh = Span::dummy().extend(4);
    assert_eq!(fresh.start(), 4);
    assert_eq!(fresh.end(), 5);
}

#[test]
fn span_shift() {
    let s = Span::new(3, 7).shift(10);
    assert_eq!(s.start(), 13);
    assert_eq!(s.end(), 17);
    assert!(Span::dummy().shift(10).is_dummy());
}

#[test]
fn span_display() {
    assert_eq!(Span::dummy().display_string(), "<*>");
    assert_eq!(Span::new(5, 6).display_string(), "5");
    assert_eq!(Span::new(5, 5).display_string(), "5");
    assert_eq!(Span::new(12, 34).display_string(), "12..34");
}

#[test]
fn spanned_ops() {
    let s = Span::new(2, 4).with(21u64);
    assert_eq!(s.data, 21);
    assert_eq!(s.span, Span::new(2, 4));
    let t = s.map(|x| x * 2);
    assert_eq!(t.data, 42);
    assert_eq!(t.span, Span::new(2, 4));
    let u = Spanned::new(5u64, Span::new(6, 9));
    let m = t.merge(u, |a, b| a + b);
    assert_eq!(m.data, 47);
    assert_eq!(m.span, Span::new(2, 9));
}

#[test]
fn pretty_char_rendering() {
    assert_eq!(PrettyChar('x').display_string(), "'x'");
    assert_eq!(PrettyChar('\r').display_string(), "'\\r'");
    assert_eq!(PrettyChar('\n').display_string(), "'\\n'");
    assert_eq!(PrettyChar('\t').display_string(), "'\\t'");
    assert_eq!(PrettyChar(' ').display_string(), "' '");
    assert_eq!(PrettyChar('\\').display_string(), "'\\'");
    assert_eq!(PrettyChar('"').display_string(), "'\"'");
    assert_eq!(PrettyChar('\'').display_string(), "\"'\"");
    assert_eq!(PrettyChar('\u{1}').display_string(), "0x1");
    assert_eq!(PrettyChar('\u{1f}').display_string(), "0x1F");
    assert_eq!(PrettyChar('\u{9f}').display_string(), "0x9F");
    assert_eq!(PrettyChar('\u{e9}').display_string(), "'é' (0xE9)");
    assert_eq!(PrettyChar('\u{3042}').display_string(), "'あ' (0x3042)");
}

#[test]
fn char_classes() {
    assert!(is_numeric(b'0'));
    assert!(is_numeric(b'9'));
    assert!(!is_numeric(b'a'));
    assert!(is_whitespace(b' '));
    assert!(is_whitespace(b'\t'));
    assert!(is_whitespace(b'\n'));
    assert!(is_whitespace(b'\r'));
    assert!(!is_whitespace(b'x'));
    assert!(is_identifier_start(b'a'));
    assert!(is_identifier_start(b'Z'));
    assert!(is_identifier_start(b'_'));
    assert!(!is_identifier_start(b'1'));
    assert!(!is_identifier_start(b' '));
}
