use imgen::sanitize::prompt_prefix;

#[test]
fn test_prompt_prefix_takes_first_words() {
    assert_eq!(
        prompt_prefix("A cute cat saying \"hello\" on the Moon"),
        "a_cute_cat_saying_hello"
    );
    assert_eq!(prompt_prefix("one two three four five six seven"), "one_two_three_four_five");
    assert_eq!(prompt_prefix("Hello"), "hello");
}

#[test]
fn test_prompt_prefix_of_nothing() {
    assert_eq!(prompt_prefix(""), "imgen");
    assert_eq!(prompt_prefix("   \t\n"), "imgen");
    assert_eq!(prompt_prefix("!!! ??? ..."), "imgen");
}

#[test]
fn test_prompt_prefix_drops_ascii_punctuation() {
    assert_eq!(prompt_prefix("it's a dog-like  c.a.t!"), "its_a_doglike_cat");
    assert_eq!(prompt_prefix("a !!! b"), "a_b");
    assert_eq!(prompt_prefix("R2-D2 & C-3PO"), "r2d2_c3po");
}

#[test]
fn test_prompt_prefix_splits_at_any_whitespace() {
    assert_eq!(prompt_prefix("a\tb\nc\r\nd\u{a0}e"), "a_b_c_d_e");
    assert_eq!(prompt_prefix("\u{3000}wide\u{2003}space "), "wide_space");
}

#[test]
fn test_prompt_prefix_keeps_other_scripts() {
    assert_eq!(prompt_prefix("\u{732b} \u{c9}t\u{e9} CAF\u{c9}"), "\u{732b}_\u{c9}t\u{e9}_caf\u{c9}");
}

#[test]
fn test_prompt_prefix_reads_thirty_two_bytes() {
    // 32 bytes end inside the second word.
    assert_eq!(
        prompt_prefix("abcdefghijklmnopqrstuvwxyz01234 56789"),
        "abcdefghijklmnopqrstuvwxyz01234"
    );
    assert_eq!(
        prompt_prefix("abcdefghijklmnopqrstuvwxyz0123456789"),
        "abcdefghijklmnopqrstuvwxyz012345"
    );
    assert_eq!(
        prompt_prefix("abcdefghijklmnopqrstuvwxyz 01234567"),
        "abcdefghijklmnopqrstuvwxyz_01234"
    );
}

#[test]
fn test_prompt_prefix_never_cuts_a_character() {
    // Ten characters of three bytes fill 30 bytes; the eleventh does not fit in the two left.
    let prompt = "\u{732b}".repeat(12);
    assert_eq!(prompt_prefix(&prompt), "\u{732b}".repeat(10));
    // Thirty-one bytes of ASCII, then a character of two bytes.
    let prompt = format!("{}\u{e9}", "a".repeat(31));
    assert_eq!(prompt_prefix(&prompt), "a".repeat(31));
    let prompt = format!("{}\u{e9}", "a".repeat(30));
    assert_eq!(prompt_prefix(&prompt), format!("{}\u{e9}", "a".repeat(30)));
}
