use trash_shell::text::{chars_of, same_text, text_of};

#[test]
fn texts_as_characters() {
    assert_eq!(chars_of("aé☃"), vec!['a', 'é', '☃']);
    assert_eq!(chars_of(""), Vec::<char>::new());
    let chars = chars_of("hello «world»");
    assert_eq!(text_of(&chars, 6, 13), "«world»");
    assert_eq!(text_of(&chars, 3, 3), "");
}

#[test]
fn texts_compare_by_their_characters() {
    assert!(same_text("cd", "cd"));
    assert!(same_text("", ""));
    assert!(!same_text("cd", "cD"));
    assert!(!same_text("cd", "cd "));
    assert!(!same_text("é", "e"));
}
