use basalt::motion::{
    doc_end, doc_start, find_char, first_nonblank, goto_line, line_down, line_end,
    line_end_exclusive, line_start, line_up, matching_pair, nth_char_left, nth_char_right,
    paragraph_backward, paragraph_forward, text_object, word_backward, word_end, word_forward,
};

#[test]
fn word_forward_word_and_punct_classes() {
    // foo.bar baz -> stops at '.', then 'bar', then 'baz'
    let text = "foo.bar baz";
    assert_eq!(word_forward(text, 0, false), 3); // '.'
    assert_eq!(word_forward(text, 3, false), 4); // 'bar'
    assert_eq!(word_forward(text, 4, false), 8); // 'baz'
    // WORD mode skips the punctuation as part of the word.
    assert_eq!(word_forward(text, 0, true), 8); // 'baz'
}

#[test]
fn word_forward_stops_on_empty_line() {
    let text = "ab\n\ncd";
    assert_eq!(word_forward(text, 0, false), 3); // the empty line
    assert_eq!(word_forward(text, 3, false), 4); // 'cd'
}

#[test]
fn word_forward_over_emoji() {
    // "a😀 b": a=0, emoji=1..5, space=5, b=6. The emoji is its own
    // (punctuation) word; stepping past it must land on the right byte.
    let text = "a😀 b";
    assert_eq!(word_forward(text, 0, false), 1); // onto the emoji
    assert_eq!(word_forward(text, 1, false), 6); // past the 4-byte emoji, onto 'b'
}

#[test]
fn word_backward_basics() {
    let text = "foo bar";
    assert_eq!(word_backward(text, 7, false), 4); // start of 'bar'
    assert_eq!(word_backward(text, 4, false), 0); // start of 'foo'
    assert_eq!(word_backward(text, 0, false), 0);
}

#[test]
fn word_end_basics() {
    let text = "foo bar";
    assert_eq!(word_end(text, 0, false), 2); // 'o' end of foo
    assert_eq!(word_end(text, 2, false), 6); // 'r' end of bar
}

#[test]
fn line_motions() {
    let text = "  ab\ncd\n";
    assert_eq!(line_start(text, 3), 0);
    assert_eq!(first_nonblank(text, 3), 2); // 'a'
    assert_eq!(line_end(text, 0), 3); // 'b'
    assert_eq!(line_start(text, 6), 5);
    assert_eq!(line_end(text, 6), 6); // 'd'
}

#[test]
fn line_end_on_empty_line() {
    let text = "a\n\nb";
    assert_eq!(line_end(text, 2), 2); // stays on the empty line
    assert_eq!(first_nonblank(text, 2), 2);
}

#[test]
fn find_char_forward_and_till() {
    let text = "abcxdef";
    assert_eq!(find_char(text, 0, 'x', true, false), Some(3));
    assert_eq!(find_char(text, 0, 'x', true, true), Some(2)); // 't' stops before
    assert_eq!(find_char(text, 0, 'z', true, false), None);
    // does not cross the newline
    assert_eq!(find_char("ab\nxc", 0, 'x', true, false), None);
}

#[test]
fn find_char_backward_and_till() {
    let text = "abcxdef";
    assert_eq!(find_char(text, 6, 'x', false, false), Some(3));
    assert_eq!(find_char(text, 6, 'x', false, true), Some(4)); // 'T' stops after
    assert_eq!(find_char(text, 6, 'z', false, false), None);
}

#[test]
fn paragraph_motions() {
    let text = "a\n\nb\n\nc";
    assert_eq!(paragraph_forward(text, 0), 2); // empty line after 'a'
    assert_eq!(paragraph_forward(text, 3), 5); // empty line after 'b'
    assert_eq!(paragraph_forward(text, 6), text.len());
    assert_eq!(paragraph_backward(text, 6), 5);
    assert_eq!(paragraph_backward(text, 3), 2);
    assert_eq!(paragraph_backward(text, 0), 0);
}

#[test]
fn matching_pair_all_kinds() {
    assert_eq!(matching_pair("(a[b]c)", 0), Some(6));
    assert_eq!(matching_pair("(a[b]c)", 6), Some(0));
    assert_eq!(matching_pair("(a[b]c)", 2), Some(4)); // '[' -> ']'
    assert_eq!(matching_pair("{ }", 0), Some(2));
    // finds the first bracket at or after the cursor on the line
    assert_eq!(matching_pair("xy(z)", 0), Some(4));
    assert_eq!(matching_pair("no brackets", 0), None);
}

#[test]
fn doc_motions() {
    let text = "  first\nmid\n  last\n";
    assert_eq!(doc_start(text), 2); // 'f'
    assert_eq!(doc_end(text), 14); // 'l' of "last"
}

#[test]
fn text_object_quotes() {
    let text = "say \"hello world\" now";
    let inner = text_object(text, 7, '"', false).unwrap();
    assert_eq!(&text[inner], "hello world");
    let around = text_object(text, 7, '"', true).unwrap();
    assert_eq!(&text[around], "\"hello world\"");
    // works from before the quotes too (vim searches forward on the line)
    let inner = text_object(text, 0, '"', false).unwrap();
    assert_eq!(&text[inner], "hello world");
}

#[test]
fn text_object_nested_parens() {
    let text = "a(b(c)d)e";
    assert_eq!(&text[text_object(text, 4, '(', false).unwrap()], "c");
    assert_eq!(&text[text_object(text, 2, '(', false).unwrap()], "b(c)d");
    assert_eq!(&text[text_object(text, 2, '(', true).unwrap()], "(b(c)d)");
}

#[test]
fn text_object_inner_and_around_word() {
    let text = "foo bar baz";
    assert_eq!(&text[text_object(text, 5, 'w', false).unwrap()], "bar");
    assert_eq!(&text[text_object(text, 5, 'w', true).unwrap()], "bar ");
}

#[test]
fn text_object_missing_pair_is_none() {
    assert!(text_object("no quotes here", 0, '"', false).is_none());
}

#[test]
fn goto_line_clamps() {
    let text = "one\ntwo\nthree\n";
    assert_eq!(goto_line(text, 1), 0); // 'one'
    assert_eq!(goto_line(text, 2), 4); // 'two'
    assert_eq!(goto_line(text, 3), 8); // 'three'
    assert_eq!(goto_line(text, 99), 8); // clamps to the last line
}

// Further cases of the motions.

#[test]
fn line_end_exclusive_stops_at_newline_or_end() {
    let text = "ab\ncd";
    assert_eq!(line_end_exclusive(text, 0), 2);
    assert_eq!(line_end_exclusive(text, 3), 5);
    assert_eq!(line_end_exclusive("", 0), 0);
}

#[test]
fn nth_char_moves_clamp_to_the_line() {
    let text = "abc\ndef";
    assert_eq!(nth_char_right(text, 0, 2), 2);
    assert_eq!(nth_char_right(text, 0, 10), 3); // the newline, not past it
    assert_eq!(nth_char_left(text, 6, 1), 5);
    assert_eq!(nth_char_left(text, 6, 10), 4); // the line start
    // multi-byte chars move by whole chars
    let wide = "é😀x";
    assert_eq!(nth_char_right(wide, 0, 1), 2);
    assert_eq!(nth_char_right(wide, 0, 2), 6);
    assert_eq!(nth_char_left(wide, 6, 1), 2);
}

#[test]
fn line_down_and_up_clamp() {
    let text = "one\ntwo\nthree\n";
    assert_eq!(line_down(text, 1, 1), 4);
    assert_eq!(line_down(text, 1, 5), 8);
    assert_eq!(line_up(text, 9, 1), 4);
    assert_eq!(line_up(text, 9, 10), 0);
}

#[test]
fn word_end_at_document_end_stays() {
    let text = "ab";
    assert_eq!(word_end(text, 1, false), 1);
    assert_eq!(word_end(text, 2, false), 2);
    assert_eq!(word_end("", 0, false), 0);
}

#[test]
fn word_backward_over_punctuation_run() {
    let text = "foo..bar";
    assert_eq!(word_backward(text, 5, false), 3);
    assert_eq!(word_backward(text, 5, true), 0);
}

#[test]
fn matching_pair_unbalanced_is_none() {
    assert_eq!(matching_pair("(a", 0), None);
    assert_eq!(matching_pair("a)", 0), None);
    assert_eq!(matching_pair("((a)", 0), None);
    assert_eq!(matching_pair("((a))", 1), Some(3));
}

#[test]
fn text_object_around_word_takes_leading_space_at_line_end() {
    let text = "foo bar";
    assert_eq!(&text[text_object(text, 5, 'w', true).unwrap()], " bar");
}

#[test]
fn text_object_unknown_kind_is_none() {
    assert!(text_object("abc", 0, 'q', false).is_none());
    assert!(text_object("abc", 1, ')', false).is_none());
}

#[test]
fn text_object_brackets_and_braces() {
    let text = "x[a{b}c]y";
    assert_eq!(&text[text_object(text, 4, '{', false).unwrap()], "b");
    assert_eq!(&text[text_object(text, 4, 'B', true).unwrap()], "{b}");
    assert_eq!(&text[text_object(text, 2, ']', false).unwrap()], "a{b}c");
    let angled = "<a>";
    assert_eq!(&angled[text_object(angled, 1, '<', true).unwrap()], "<a>");
}

#[test]
fn paragraph_backward_from_first_line_is_zero() {
    assert_eq!(paragraph_backward("abc\ndef", 5), 0);
    assert_eq!(paragraph_forward("abc\ndef", 1), 7);
}

/// Unicode whitespace beyond ASCII (an em space) is skipped like a blank.
#[test]
fn first_nonblank_skips_unicode_space() {
    assert_eq!(first_nonblank("\u{2003}x", 0), 3);
}

/// Punctuation and letters form separate words; digits join letters.
#[test]
fn word_forward_splits_at_punctuation() {
    assert_eq!(word_forward("ab1.cd", 0, false), 3);
    assert_eq!(word_forward("ab1.cd", 0, true), 6);
}
