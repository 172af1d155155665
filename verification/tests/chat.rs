use werewolf::chat::{chat_line, chat_recipients, decimal_string};

#[test]
fn decimal_string_matches_display() {
    for n in 0..=255u8 {
        assert_eq!(decimal_string(n), format!("{}", n));
    }
}

#[test]
fn chat_line_names_the_writer() {
    assert_eq!(chat_line(7, "hello"), "<User#7>: hello");
    assert_eq!(chat_line(255, ""), "<User#255>: ");
    for id in [0u8, 9, 10, 99, 100, 200] {
        assert_eq!(chat_line(id, "hi"), format!("<User#{}>: {}", id, "hi"));
    }
}

#[test]
fn chat_goes_to_everyone_but_the_writer() {
    assert_eq!(chat_recipients(&vec![3, 1, 2, 1], 1), vec![3, 2]);
    assert_eq!(chat_recipients(&vec![4], 4), Vec::<u8>::new());
    assert_eq!(chat_recipients(&vec![], 4), Vec::<u8>::new());
    assert_eq!(chat_recipients(&vec![5, 6], 7), vec![5, 6]);
}
