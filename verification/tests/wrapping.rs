use raytracer::wrapping::WrappingStringBuilder;

#[test]
fn builder_starts_empty() {
    let b = WrappingStringBuilder::new(10);
    assert_eq!(b.into_string(), "");
}

#[test]
fn first_word_opens_the_line_without_a_space() {
    let mut b = WrappingStringBuilder::new(10);
    b.append("abc");
    assert_eq!(b.into_string(), "abc");
}

#[test]
fn words_on_a_line_are_parted_by_one_space() {
    let mut b = WrappingStringBuilder::new(10);
    b.append("abc");
    b.append("de");
    b.append("f");
    assert_eq!(b.into_string(), "abc de f");
}

#[test]
fn word_that_fills_the_line_exactly_stays_on_it() {
    let mut b = WrappingStringBuilder::new(7);
    b.append("abc");
    b.append("def");
    assert_eq!(b.into_string(), "abc def");
}

#[test]
fn word_that_would_pass_the_limit_opens_a_new_line() {
    let mut b = WrappingStringBuilder::new(6);
    b.append("abc");
    b.append("def");
    b.append("g");
    assert_eq!(b.into_string(), "abc\ndef g");
}

#[test]
fn word_longer_than_the_limit_gets_a_line_of_its_own() {
    let mut b = WrappingStringBuilder::new(3);
    b.append("a");
    b.append("bcdefgh");
    b.append("i");
    assert_eq!(b.into_string(), "a\nbcdefgh\ni");
}

#[test]
fn widths_are_counted_in_bytes() {
    // "éé" is two characters and four bytes: with "ab" and a space it makes
    // seven bytes, one more than the line holds.
    let mut b = WrappingStringBuilder::new(6);
    b.append("ab");
    b.append("éé");
    assert_eq!(b.into_string(), "ab\néé");
}

#[test]
fn newline_ends_the_line_and_the_next_word_opens_one() {
    let mut b = WrappingStringBuilder::new(10);
    b.append("ab");
    b.newline();
    b.append("cd");
    assert_eq!(b.into_string(), "ab\ncd");
}

#[test]
fn append_line_adds_the_word_and_ends_the_line() {
    let mut b = WrappingStringBuilder::new(5);
    b.append_line("ab");
    b.append("abc");
    b.append_line("def");
    assert_eq!(b.into_string(), "ab\nabc\ndef\n");
}

#[test]
fn with_no_room_at_all_every_word_gets_its_own_line() {
    let mut b = WrappingStringBuilder::new(0);
    b.append("a");
    b.append("b");
    assert_eq!(b.into_string(), "a\nb");
}
