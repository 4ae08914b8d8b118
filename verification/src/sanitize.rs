//! File-name prefixes made from prompts.
//!
//! The prefix is made from the first words of a prompt: of what fits in the
//! first 32 bytes, each word loses its ASCII punctuation and its upper case,
//! and up to five words that are left are joined with `_`.

use crate::text::is_ascii_alphanumeric;
use vstd::prelude::*;
use vstd::string::*;
use vstd::utf8::*;

verus! {

/// The number of bytes of a prompt that the prefix is made from.
pub const PREFIX_BYTES: usize = 32;

/// The number of words that a prefix holds at most.
pub const PREFIX_WORDS: usize = 5;

/// Whether `char::is_whitespace` holds of a character.
pub uninterp spec fn is_whitespace(c: char) -> bool;

/// Calls `char::is_whitespace`, which says whether the character has the
/// Unicode property `White_Space`. The answer hangs on the character alone
/// and is named `is_whitespace`.
#[verifier::external_body]
fn char_is_whitespace(c: char) -> (white: bool)
    ensures
        white == is_whitespace(c),
{
    c.is_whitespace()
}

/// Collects characters into a string with `String::from_iter`. The string
/// holds the characters of the vector, in their order.
#[verifier::external_body]
fn string_from_chars(chars: &Vec<char>) -> (s: String)
    ensures
        s@ == chars@,
{
    String::from_iter(chars.iter())
}

/// The number of bytes that a character takes in UTF-8.
pub open spec fn utf8_width(c: char) -> nat {
    encode_scalar(c as u32).len()
}

/// The longest beginning of `s` that takes at most `limit` bytes in UTF-8.
pub open spec fn leading_chars(s: Seq<char>, limit: nat) -> Seq<char>
    decreases s.len(),
{
    if s.len() == 0 || utf8_width(s[0]) > limit {
        Seq::empty()
    } else {
        seq![s[0]] + leading_chars(s.drop_first(), (limit - utf8_width(s[0])) as nat)
    }
}

/// How many characters at the beginning of `s` are not whitespace.
pub open spec fn word_len(s: Seq<char>) -> nat
    decreases s.len(),
{
    if s.len() > 0 && !is_whitespace(s[0]) {
        1 + word_len(s.drop_first())
    } else {
        0
    }
}

/// The words of `s`: its longest runs of characters that are not whitespace.
pub open spec fn words(s: Seq<char>) -> Seq<Seq<char>>
    decreases s.len(),
    via words_decreases
{
    if s.len() == 0 {
        Seq::empty()
    } else if is_whitespace(s[0]) {
        words(s.drop_first())
    } else {
        seq![s.take(word_len(s) as int)] + words(s.skip(word_len(s) as int))
    }
}

#[via_fn]
proof fn words_decreases(s: Seq<char>) {
    lemma_word_len_bound(s);
}

/// A word is no longer than the text it begins.
proof fn lemma_word_len_bound(s: Seq<char>)
    ensures
        word_len(s) <= s.len(),
    decreases s.len(),
{
    if s.len() > 0 && !is_whitespace(s[0]) {
        lemma_word_len_bound(s.drop_first());
    }
}

/// Whether a character stays in a word: one outside ASCII does, and of
/// ASCII the letters and digits.
pub open spec fn is_kept(c: char) -> bool {
    c > '\u{7f}' || is_ascii_alphanumeric(c)
}

/// The character with an ASCII capital turned into its small letter.
pub open spec fn lowered(c: char) -> char {
    if 'A' <= c && c <= 'Z' {
        (c as u8 + 32) as char
    } else {
        c
    }
}

/// The test of `is_kept` as a function.
pub open spec fn kept() -> spec_fn(char) -> bool {
    |c: char| is_kept(c)
}

/// The map of `lowered` as a function.
pub open spec fn lowering() -> spec_fn(char) -> char {
    |c: char| lowered(c)
}

/// A word without the characters that do not stay, in lower case.
pub open spec fn cleaned(word: Seq<char>) -> Seq<char> {
    word.filter(kept()).map_values(lowering())
}

/// The map of `cleaned` as a function.
pub open spec fn cleaning() -> spec_fn(Seq<char>) -> Seq<char> {
    |word: Seq<char>| cleaned(word)
}

/// The test for a word with at least one character, as a function.
pub open spec fn filled() -> spec_fn(Seq<char>) -> bool {
    |word: Seq<char>| word.len() > 0
}

/// The first `limit` items of a list, or all where there are fewer.
pub open spec fn at_most<A>(items: Seq<A>, limit: nat) -> Seq<A> {
    if items.len() <= limit {
        items
    } else {
        items.take(limit as int)
    }
}

/// The words one after another with `separator` between them.
pub open spec fn joined(words: Seq<Seq<char>>, separator: char) -> Seq<char>
    decreases words.len(),
{
    if words.len() == 0 {
        Seq::empty()
    } else if words.len() == 1 {
        words[0]
    } else {
        joined(words.drop_last(), separator).push(separator) + words.last()
    }
}

/// The words that make the prefix of a prompt.
pub open spec fn prefix_words(prompt: Seq<char>) -> Seq<Seq<char>> {
    at_most(
        words(leading_chars(prompt, PREFIX_BYTES as nat)).map_values(cleaning()).filter(filled()),
        PREFIX_WORDS as nat,
    )
}

/// The file-name prefix for a prompt: its prefix words joined with `_`, or
/// `imgen` where nothing is left of them.
pub open spec fn prompt_prefix_of(prompt: Seq<char>) -> Seq<char> {
    let name = joined(prefix_words(prompt), '_');
    if name.len() == 0 {
        "imgen"@
    } else {
        name
    }
}

/// The number of bytes that a character takes in UTF-8.
fn width_of(c: char) -> (width: usize)
    ensures
        width == utf8_width(c),
        1 <= width <= 4,
{
    let scalar = c as u32;
    if scalar < 0x80 {
        1
    } else if scalar < 0x800 {
        2
    } else if scalar < 0x10000 {
        3
    } else {
        4
    }
}

/// The characters at the beginning of `text` that fit in `limit` bytes.
fn leading(text: &str, limit: usize) -> (chars: Vec<char>)
    ensures
        chars@ == leading_chars(text@, limit as nat),
{
    let len = text.unicode_len();
    let mut chars: Vec<char> = Vec::new();
    let mut left = limit;
    let mut i: usize = 0;
    proof {
        assert(text@.skip(0) =~= text@);
    }
    while i < len
        invariant
            i <= len,
            len == text@.len(),
            chars@ + leading_chars(text@.skip(i as int), left as nat) == leading_chars(
                text@,
                limit as nat,
            ),
        decreases len - i,
    {
        let c = text.get_char(i);
        let width = width_of(c);
        let ghost rest = text@.skip(i as int);
        proof {
            assert(rest[0] == c);
            assert(rest.drop_first() =~= text@.skip(i as int + 1));
        }
        if width > left {
            proof {
                assert(leading_chars(rest, left as nat) =~= Seq::<char>::empty());
                assert(chars@ =~= chars@ + Seq::<char>::empty());
            }
            return chars;
        }
        proof {
            assert(chars@.push(c) + leading_chars(text@.skip(i as int + 1), (left - width) as nat)
                =~= chars@ + leading_chars(rest, left as nat));
        }
        chars.push(c);
        left -= width;
        i += 1;
    }
    proof {
        assert(leading_chars(text@.skip(i as int), left as nat) =~= Seq::<char>::empty());
        assert(chars@ =~= chars@ + Seq::<char>::empty());
    }
    chars
}

/// The view of a list of words.
pub open spec fn word_views(words: Seq<Vec<char>>) -> Seq<Seq<char>> {
    Seq::new(words.len(), |i: int| words[i]@)
}

/// Splits characters into words at whitespace.
fn split_words(chars: &Vec<char>) -> (found: Vec<Vec<char>>)
    ensures
        word_views(found@) == words(chars@),
{
    let len = chars.len();
    let mut found: Vec<Vec<char>> = Vec::new();
    let mut i: usize = 0;
    proof {
        assert(chars@.skip(0) =~= chars@);
        assert(word_views(found@) =~= Seq::<Seq<char>>::empty());
        assert(Seq::<Seq<char>>::empty() + words(chars@) =~= words(chars@));
    }
    while i < len
        invariant
            i <= len,
            len == chars@.len(),
            word_views(found@) + words(chars@.skip(i as int)) == words(chars@),
        decreases len - i,
    {
        let ghost rest = chars@.skip(i as int);
        if char_is_whitespace(chars[i]) {
            proof {
                assert(rest[0] == chars@[i as int]);
                assert(rest.drop_first() =~= chars@.skip(i as int + 1));
            }
            i += 1;
        } else {
            let start = i;
            let mut word: Vec<char> = Vec::new();
            proof {
                assert(chars@.subrange(start as int, i as int) =~= Seq::<char>::empty());
            }
            while i < len && !char_is_whitespace(chars[i])
                invariant
                    start <= i <= len,
                    len == chars@.len(),
                    rest == chars@.skip(start as int),
                    word@ == chars@.subrange(start as int, i as int),
                    word_len(rest) == (i - start) + word_len(chars@.skip(i as int)),
                decreases len - i,
            {
                proof {
                    let tail = chars@.skip(i as int);
                    assert(tail[0] == chars@[i as int]);
                    assert(tail.drop_first() =~= chars@.skip(i as int + 1));
                    assert(chars@.subrange(start as int, i as int + 1) =~= word@.push(
                        chars@[i as int],
                    ));
                }
                word.push(chars[i]);
                i += 1;
            }
            proof {
                let tail = chars@.skip(i as int);
                if i < len {
                    assert(tail[0] == chars@[i as int]);
                }
                assert(word_len(tail) == 0);
                assert(word_len(rest) == i - start);
                assert(rest[0] == chars@[start as int]);
                assert(rest.take(i - start) =~= word@);
                assert(rest.skip(i - start) =~= tail);
                assert(words(rest) == seq![word@] + words(tail));
                assert(word_views(found@.push(word)) =~= word_views(found@).push(word@));
                assert(word_views(found@).push(word@) + words(tail) =~= word_views(found@) + (
                seq![word@] + words(tail)));
            }
            found.push(word);
        }
    }
    proof {
        assert(words(chars@.skip(i as int)) =~= Seq::<Seq<char>>::empty());
        assert(word_views(found@) + Seq::<Seq<char>>::empty() =~= word_views(found@));
    }
    found
}

/// Whether a character stays in a word.
fn keeps(c: char) -> (stays: bool)
    ensures
        stays == is_kept(c),
{
    c > '\u{7f}' || ('0' <= c && c <= '9') || ('a' <= c && c <= 'z') || ('A' <= c && c <= 'Z')
}

/// Turns an ASCII capital into its small letter.
fn lower(c: char) -> (small: char)
    ensures
        small == lowered(c),
{
    if 'A' <= c && c <= 'Z' {
        (c as u8 + 32) as char
    } else {
        c
    }
}

/// Drops from a word the characters that do not stay and lowers the rest.
fn clean(word: &Vec<char>) -> (out: Vec<char>)
    ensures
        out@ == cleaned(word@),
{
    let mut out: Vec<char> = Vec::new();
    let mut i: usize = 0;
    proof {
        reveal(Seq::filter);
        assert(word@.take(0).filter(kept()) =~= Seq::<char>::empty());
        assert(cleaned(word@.take(0)) =~= Seq::<char>::empty());
    }
    while i < word.len()
        invariant
            i <= word.len(),
            out@ == cleaned(word@.take(i as int)),
        decreases word.len() - i,
    {
        let c = word[i];
        proof {
            let before = word@.take(i as int);
            assert(word@.take(i as int + 1) =~= before.push(c));
            Seq::lemma_filter_push(before, c, kept());
            if is_kept(c) {
                assert(cleaned(before.push(c)) =~= cleaned(before).push(lowered(c)));
            }
        }
        if keeps(c) {
            out.push(lower(c));
        }
        i += 1;
    }
    proof {
        assert(word@.take(word.len() as int) =~= word@);
    }
    out
}

/// Cleans the words and keeps the first `limit` that are not empty.
fn clean_words(found: &Vec<Vec<char>>, limit: usize) -> (out: Vec<Vec<char>>)
    ensures
        word_views(out@) == at_most(
            word_views(found@).map_values(cleaning()).filter(filled()),
            limit as nat,
        ),
{
    let ghost all = word_views(found@);
    let mut out: Vec<Vec<char>> = Vec::new();
    let mut i: usize = 0;
    proof {
        reveal(Seq::filter);
        assert(all.take(0).map_values(cleaning()) =~= Seq::<Seq<char>>::empty());
        assert(all.take(0).map_values(cleaning()).filter(filled()) =~= Seq::<Seq<char>>::empty());
        assert(word_views(out@) =~= Seq::<Seq<char>>::empty());
    }
    while i < found.len()
        invariant
            i <= found.len(),
            all == word_views(found@),
            word_views(out@) == at_most(
                all.take(i as int).map_values(cleaning()).filter(filled()),
                limit as nat,
            ),
        decreases found.len() - i,
    {
        let word = clean(&found[i]);
        let ghost before = all.take(i as int).map_values(cleaning());
        proof {
            assert(all[i as int] == found@[i as int]@);
            assert(all.take(i as int + 1).map_values(cleaning()) =~= before.push(word@));
            Seq::lemma_filter_push(before, word@, filled());
            Seq::lemma_filter_len(before, filled());
        }
        if word.len() > 0 && out.len() < limit {
            proof {
                assert(word_views(out@.push(word)) =~= word_views(out@).push(word@));
                assert(word_views(out@) == before.filter(filled()));
                assert(at_most(before.filter(filled()).push(word@), limit as nat)
                    =~= before.filter(filled()).push(word@));
            }
            out.push(word);
        } else {
            proof {
                if word.len() > 0 {
                    let longer = before.filter(filled()).push(word@);
                    assert(before.filter(filled()).len() >= limit);
                    assert(at_most(longer, limit as nat) =~= at_most(
                        before.filter(filled()),
                        limit as nat,
                    ));
                }
            }
        }
        i += 1;
    }
    proof {
        assert(all.take(found.len() as int) =~= all);
    }
    out
}

/// Joins the words with `separator` between them.
fn join(list: &Vec<Vec<char>>, separator: char) -> (out: Vec<char>)
    ensures
        out@ == joined(word_views(list@), separator),
{
    let ghost all = word_views(list@);
    let mut out: Vec<char> = Vec::new();
    let mut i: usize = 0;
    proof {
        assert(joined(all.take(0), separator) =~= Seq::<char>::empty());
    }
    while i < list.len()
        invariant
            i <= list.len(),
            all == word_views(list@),
            out@ == joined(all.take(i as int), separator),
        decreases list.len() - i,
    {
        let ghost before = out@;
        if i > 0 {
            out.push(separator);
        }
        let ghost opened = out@;
        let word = &list[i];
        let mut j: usize = 0;
        while j < word.len()
            invariant
                j <= word.len(),
                out@ == opened + word@.take(j as int),
            decreases word.len() - j,
        {
            proof {
                assert(word@.take(j as int + 1) =~= word@.take(j as int).push(word@[j as int]));
            }
            out.push(word[j]);
            j += 1;
        }
        proof {
            let next = all.take(i as int + 1);
            assert(word@.take(word.len() as int) =~= word@);
            assert(next.drop_last() =~= all.take(i as int));
            assert(next.last() == word@);
            if i == 0 {
                assert(opened =~= Seq::<char>::empty());
                assert(out@ =~= word@);
                assert(next[0] == word@);
            }
        }
        i += 1;
    }
    proof {
        assert(all.take(list.len() as int) =~= all);
    }
    out
}

/// Makes the prefix for the names of the output files from the prompt.
pub fn prompt_prefix(prompt: &str) -> (prefix: String)
    ensures
        prefix@ == prompt_prefix_of(prompt@),
{
    let chars = leading(prompt, PREFIX_BYTES);
    let found = split_words(&chars);
    let kept_words = clean_words(&found, PREFIX_WORDS);
    let name = join(&kept_words, '_');
    if name.len() == 0 {
        String::from_str("imgen")
    } else {
        string_from_chars(&name)
    }
}

/// What is read of a text is a beginning of it and fits in the limit, and
/// it is the longest such beginning: with the next character the limit
/// would be passed.
pub proof fn lemma_leading_chars_is_longest_fit(s: Seq<char>, limit: nat)
    ensures
        leading_chars(s, limit).is_prefix_of(s),
        encode_utf8(leading_chars(s, limit)).len() <= limit,
        leading_chars(s, limit).len() < s.len() ==> encode_utf8(
            s.take(leading_chars(s, limit).len() as int + 1),
        ).len() > limit,
    decreases s.len(),
{
    let lead = leading_chars(s, limit);
    if s.len() == 0 {
        assert(lead =~= s.subrange(0, 0));
    } else if utf8_width(s[0]) > limit {
        let one = s.take(1);
        assert(lead =~= s.subrange(0, 0));
        assert(one[0] == s[0]);
        assert(one.drop_first() =~= Seq::<char>::empty());
        assert(encode_utf8(one.drop_first()) =~= Seq::<u8>::empty());
        assert(encode_utf8(one) =~= encode_scalar(s[0] as u32));
    } else {
        let width = utf8_width(s[0]);
        let rest = s.drop_first();
        let left = (limit - width) as nat;
        let tail = leading_chars(rest, left);
        lemma_leading_chars_is_longest_fit(rest, left);
        assert(lead[0] == s[0]);
        assert(lead.drop_first() =~= tail);
        assert(lead =~= s.subrange(0, lead.len() as int)) by {
            assert(tail =~= rest.subrange(0, tail.len() as int));
        }
        assert(encode_utf8(lead) =~= encode_scalar(s[0] as u32) + encode_utf8(tail));
        if lead.len() < s.len() {
            let more = s.take(lead.len() as int + 1);
            assert(more[0] == s[0]);
            assert(more.drop_first() =~= rest.take(tail.len() as int + 1));
            assert(encode_utf8(more) =~= encode_scalar(s[0] as u32) + encode_utf8(
                rest.take(tail.len() as int + 1),
            ));
        }
    }
}

/// The characters that `word_len` counts are not whitespace.
proof fn lemma_word_has_no_whitespace(s: Seq<char>, at: int)
    requires
        0 <= at < word_len(s),
    ensures
        at < s.len(),
        !is_whitespace(s[at]),
    decreases s.len(),
{
    if at > 0 {
        lemma_word_has_no_whitespace(s.drop_first(), at - 1);
        assert(s.drop_first()[at - 1] == s[at]);
    }
}

/// Every word has at least one character, and none of its characters is whitespace.
pub proof fn lemma_words_hold_no_whitespace(s: Seq<char>, index: int, at: int)
    requires
        0 <= index < words(s).len(),
        0 <= at < words(s)[index].len(),
    ensures
        !is_whitespace(words(s)[index][at]),
    decreases s.len(),
{
    if s.len() == 0 {
    } else if is_whitespace(s[0]) {
        lemma_words_hold_no_whitespace(s.drop_first(), index, at);
    } else {
        lemma_word_len_bound(s);
        let first = s.take(word_len(s) as int);
        let rest = s.skip(word_len(s) as int);
        if index == 0 {
            assert(words(s)[0] == first);
            lemma_word_has_no_whitespace(s, at);
        } else {
            assert(words(s)[index] == words(rest)[index - 1]);
            lemma_words_hold_no_whitespace(rest, index - 1, at);
        }
    }
}

/// No word is empty.
pub proof fn lemma_words_are_not_empty(s: Seq<char>, index: int)
    requires
        0 <= index < words(s).len(),
    ensures
        words(s)[index].len() > 0,
    decreases s.len(),
{
    if s.len() == 0 {
    } else if is_whitespace(s[0]) {
        lemma_words_are_not_empty(s.drop_first(), index);
    } else {
        lemma_word_len_bound(s);
        let rest = s.skip(word_len(s) as int);
        if index == 0 {
            assert(words(s)[0] == s.take(word_len(s) as int));
        } else {
            assert(words(s)[index] == words(rest)[index - 1]);
            lemma_words_are_not_empty(rest, index - 1);
        }
    }
}

/// A prefix is never empty, and it is made of at most `PREFIX_WORDS` words.
pub proof fn lemma_prefix_is_not_empty(prompt: Seq<char>)
    ensures
        prompt_prefix_of(prompt).len() > 0,
        prefix_words(prompt).len() <= PREFIX_WORDS,
{
    reveal_strlit("imgen");
}

} // verus!
