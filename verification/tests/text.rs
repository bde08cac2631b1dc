use chatgpt_term::text::{
    chars_of, estimate_tokens, find_between_runs, push_decimal, push_signed_decimal, strip_all,
    trim,
};

#[test]
fn estimate_counts_the_words() {
    assert_eq!(estimate_tokens("hi"), 1);
    assert_eq!(estimate_tokens("one two three"), 3);
    assert_eq!(estimate_tokens(""), 0);
    assert_eq!(estimate_tokens("   "), 0);
    assert_eq!(estimate_tokens("a  b"), 2);
    assert_eq!(estimate_tokens(" a "), 1);
    assert_eq!(estimate_tokens("two\twords"), 2);
    assert_eq!(estimate_tokens("line\nbreak\r\nand\u{a0}wide\u{3000}space"), 5);
    assert_eq!(estimate_tokens("héllo  wörld!\n"), 2);
}

#[test]
fn estimate_agrees_with_splitting_at_white_space() {
    for text in ["", " ", "a", " a", "a ", "a b", "a\tb\nc", "  x  y  ", "\u{2003}em\u{2003}", "x\u{85}y"] {
        assert_eq!(estimate_tokens(text), text.split_whitespace().count());
    }
}

#[test]
fn white_space_is_the_twenty_five_characters() {
    let listed = |c: char| {
        matches!(
            c,
            '\u{9}'..='\u{d}'
                | ' '
                | '\u{85}'
                | '\u{a0}'
                | '\u{1680}'
                | '\u{2000}'..='\u{200a}'
                | '\u{2028}'
                | '\u{2029}'
                | '\u{202f}'
                | '\u{205f}'
                | '\u{3000}'
        )
    };
    let mut count = 0;
    let mut text = String::new();
    for code in 0..=0x10ffffu32 {
        if let Some(c) = char::from_u32(code) {
            if listed(c) {
                count += 1;
            }
            assert_eq!(c.is_whitespace(), listed(c));
            text.clear();
            text.push(c);
            // A character alone is a word unless it is white space.
            assert_eq!(estimate_tokens(&text) == 0, listed(c));
        }
    }
    assert_eq!(count, 25);
}

#[test]
fn chars_of_keeps_every_character() {
    assert_eq!(chars_of("né!"), vec!['n', 'é', '!']);
    assert_eq!(chars_of(""), Vec::<char>::new());
}

#[test]
fn strip_all_removes_every_occurrence() {
    assert_eq!(strip_all("abcabc", "bc"), "aa");
    assert_eq!(strip_all("abc", ""), "abc");
    assert_eq!(strip_all("ab", "abc"), "ab");
    assert_eq!(strip_all("aaa", "aa"), "a");
    assert_eq!(strip_all("xaxbx", "x"), "ab");
    assert_eq!(strip_all("héllo wörld", "ö"), "héllo wrld");
    assert_eq!(strip_all("prefix: text", "prefix: "), "text");
    assert_eq!(strip_all("same", "same"), "");
}

#[test]
fn strip_all_goes_from_the_left_and_does_not_look_back() {
    // What is left after a removal is not searched again.
    assert_eq!(strip_all("aabb", "ab"), "ab");
    assert_eq!(strip_all("aabb", "ab"), "aabb".replace("ab", ""));
    assert_eq!(strip_all("ababa", "aba"), "ababa".replace("aba", ""));
}

#[test]
fn decimal_is_written_without_padding() {
    let mut out = String::from("n=");
    push_decimal(&mut out, 0);
    assert_eq!(out, "n=0");
    push_decimal(&mut out, 7);
    push_decimal(&mut out, 10);
    push_decimal(&mut out, 4096);
    assert_eq!(out, "n=07104096");
    let mut out = String::new();
    push_decimal(&mut out, u64::MAX);
    assert_eq!(out, "18446744073709551615");
}

#[test]
fn signed_decimal_has_a_minus_for_negatives() {
    let mut out = String::new();
    push_signed_decimal(&mut out, -42);
    assert_eq!(out, "-42");
    let mut out = String::new();
    push_signed_decimal(&mut out, 2023);
    assert_eq!(out, "2023");
    let mut out = String::new();
    push_signed_decimal(&mut out, i64::MIN);
    assert_eq!(out, "-9223372036854775808");
    let mut out = String::new();
    push_signed_decimal(&mut out, 0);
    assert_eq!(out, "0");
}

#[test]
fn trim_takes_white_space_off_both_ends() {
    assert_eq!(trim("  hi there \n"), "hi there");
    assert_eq!(trim("\t\r\n"), "");
    assert_eq!(trim(""), "");
    assert_eq!(trim("x"), "x");
    assert_eq!(trim("\u{a0}wide\u{3000}"), "wide");
    assert_eq!(trim(" a b "), " a b ".trim());
}

#[test]
fn runs_of_marks_are_cut_at_both_ends() {
    assert_eq!(find_between_runs(&vec![true, false, true]), (1, 2));
    assert_eq!(find_between_runs(&vec![false, true, false]), (0, 3));
    assert_eq!(find_between_runs(&vec![true, true, false, true, false, true, true]), (2, 5));
    assert_eq!(find_between_runs(&vec![false]), (0, 1));
    assert_eq!(find_between_runs(&Vec::new()), (0, 0));
}

#[test]
fn marks_that_are_all_set_leave_nothing_between() {
    assert_eq!(find_between_runs(&vec![true]), (1, 1));
    assert_eq!(find_between_runs(&vec![true, true, true]), (3, 3));
}
