//! Texts and their order.
use tetro_tui::text::{
    center, chars_of, decimal_of, push_left_aligned, push_right_aligned, same_text, text_not_after,
    text_of,
};

#[test]
fn texts_are_aligned_as_the_standard_library_does() {
    for text in ["", "a", "ab", "abc", "──┐"] {
        for width in 0..6 {
            assert_eq!(center(text, ' ', width), format!("{text:^width$}"));
            assert_eq!(center(text, '─', width), format!("{text:─^width$}"));
            let mut left = "<".to_owned();
            push_left_aligned(&mut left, text, width);
            assert_eq!(left, format!("<{text:<width$}"));
            let mut right = String::new();
            push_right_aligned(&mut right, text, width);
            assert_eq!(right, format!("{text:>width$}"));
        }
    }
}

#[test]
fn numbers_are_written_in_decimal() {
    for n in [0, 7, 10, 909, 65_536, u128::MAX] {
        assert_eq!(decimal_of(n), n.to_string());
    }
}

#[test]
fn texts_are_ordered_as_the_standard_library_does() {
    let texts = ["", "a", "aa", "ab", "b", "Z", "é", "40-Lines", "─", "\u{10FFFF}"];
    for a in texts {
        for b in texts {
            assert_eq!(text_not_after(a, b), a <= b);
            assert_eq!(same_text(a, b), a == b);
        }
    }
}

#[test]
fn texts_are_made_of_characters() {
    assert_eq!(chars_of("a─b"), vec!['a', '─', 'b']);
    assert_eq!(text_of(&vec!['x', 'é']), "xé");
}
