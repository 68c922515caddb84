//! Cutting an input string into its whitespace-delimited tokens.

use vstd::prelude::*;

verus! {

broadcast use vstd::string::group_string_axioms;

/// Whether `c` has the Unicode property `White_Space`.
pub open spec fn whitespace(c: char) -> bool {
    ||| '\u{9}' <= c <= '\u{d}'
    ||| c == ' '
    ||| c == '\u{85}'
    ||| c == '\u{a0}'
    ||| c == '\u{1680}'
    ||| '\u{2000}' <= c <= '\u{200a}'
    ||| c == '\u{2028}'
    ||| c == '\u{2029}'
    ||| c == '\u{202f}'
    ||| c == '\u{205f}'
    ||| c == '\u{3000}'
}

/// A word is a non-empty run of characters none of which is whitespace.
pub open spec fn is_word(w: Seq<char>) -> bool {
    &&& w.len() > 0
    &&& forall|i: int| 0 <= i < w.len() ==> !whitespace(#[trigger] w[i])
}

/// The length of the longest prefix of `s` that holds no whitespace.
pub open spec fn word_length(s: Seq<char>) -> nat
    decreases s.len(),
{
    if s.len() == 0 || whitespace(s[0]) {
        0
    } else {
        1 + word_length(s.drop_first())
    }
}

/// The tokens of `s`: its maximal runs of characters that are not whitespace,
/// from left to right.
pub open spec fn tokens(s: Seq<char>) -> Seq<Seq<char>>
    decreases s.len(),
    via tokens_decreases
{
    if s.len() == 0 {
        Seq::empty()
    } else if whitespace(s[0]) {
        tokens(s.drop_first())
    } else {
        seq![s.take(word_length(s) as int)] + tokens(s.skip(word_length(s) as int))
    }
}

#[via_fn]
proof fn tokens_decreases(s: Seq<char>) {
    lemma_word_length(s);
}

/// `word_length(s)` counts exactly the characters before the first whitespace
/// of `s`, or all of `s` where it holds none.
pub proof fn lemma_word_length(s: Seq<char>)
    ensures
        word_length(s) <= s.len(),
        forall|i: int| 0 <= i < word_length(s) ==> !whitespace(#[trigger] s[i]),
        word_length(s) < s.len() ==> whitespace(s[word_length(s) as int]),
        s.len() > 0 && !whitespace(s[0]) ==> word_length(s) >= 1,
    decreases s.len(),
{
    if s.len() > 0 && !whitespace(s[0]) {
        let rest = s.drop_first();
        lemma_word_length(rest);
        assert forall|i: int| 0 <= i < word_length(s) implies !whitespace(#[trigger] s[i]) by {
            if i > 0 {
                assert(s[i] == rest[i - 1]);
            }
        }
    }
}

/// Where the first `k` characters of `s` hold no whitespace and the next one,
/// if there is one, is whitespace, `k` is the word length of `s`.
pub proof fn lemma_word_length_is(s: Seq<char>, k: int)
    requires
        0 <= k <= s.len(),
        forall|i: int| 0 <= i < k ==> !whitespace(#[trigger] s[i]),
        k < s.len() ==> whitespace(s[k]),
    ensures
        word_length(s) == k,
    decreases k,
{
    if k > 0 {
        let rest = s.drop_first();
        assert forall|i: int| 0 <= i < k - 1 implies !whitespace(#[trigger] rest[i]) by {
            assert(rest[i] == s[i + 1]);
        }
        lemma_word_length_is(rest, k - 1);
    }
}

/// Every token is a word.
pub proof fn lemma_tokens_are_words(s: Seq<char>)
    ensures
        forall|i: int| 0 <= i < tokens(s).len() ==> is_word(#[trigger] tokens(s)[i]),
    decreases s.len(),
{
    if s.len() > 0 {
        if whitespace(s[0]) {
            lemma_tokens_are_words(s.drop_first());
            assert(tokens(s) == tokens(s.drop_first()));
        } else {
            let n = word_length(s) as int;
            let rest = tokens(s.skip(n));
            lemma_word_length(s);
            lemma_tokens_are_words(s.skip(n));
            assert forall|i: int| 0 <= i < tokens(s).len() implies is_word(
                #[trigger] tokens(s)[i],
            ) by {
                if i > 0 {
                    assert(tokens(s)[i] == rest[i - 1]);
                } else {
                    assert(tokens(s)[0] == s.take(n));
                }
            }
        }
    }
}

/// The words of `words` in one line, a space between each two of them.
pub open spec fn phrase(words: Seq<Seq<char>>) -> Seq<char>
    decreases words.len(),
{
    if words.len() == 0 {
        Seq::empty()
    } else if words.len() == 1 {
        words[0]
    } else {
        words[0] + seq![' '] + phrase(words.drop_first())
    }
}

/// Words that are written in one line come back as its tokens.
pub proof fn lemma_tokens_of_phrase(words: Seq<Seq<char>>)
    requires
        forall|i: int| 0 <= i < words.len() ==> is_word(#[trigger] words[i]),
    ensures
        tokens(phrase(words)) == words,
    decreases words.len(),
{
    if words.len() > 0 {
        let word = words[0];
        let line = phrase(words);
        let n = word.len() as int;
        if words.len() == 1 {
            lemma_word_length_is(line, n);
            assert(line.take(n) =~= word);
            assert(tokens(line.skip(n)) =~= Seq::<Seq<char>>::empty());
        } else {
            let rest = words.drop_first();
            assert forall|i: int| 0 <= i < rest.len() implies is_word(#[trigger] rest[i]) by {
                assert(rest[i] == words[i + 1]);
            }
            lemma_tokens_of_phrase(rest);
            assert forall|i: int| 0 <= i < n implies !whitespace(#[trigger] line[i]) by {
                assert(line[i] == word[i]);
            }
            lemma_word_length_is(line, n);
            assert(line.take(n) =~= word);
            let tail = line.skip(n);
            assert(tail.drop_first() =~= phrase(rest));
            assert(tokens(tail) == tokens(phrase(rest)));
        }
    }
}

/// The views of the strings of `words`, in order.
pub open spec fn views(words: Seq<&str>) -> Seq<Seq<char>> {
    Seq::new(words.len(), |i: int| words[i]@)
}

/// Whether `c` is whitespace.
pub fn is_whitespace(c: char) -> (b: bool)
    ensures
        b == whitespace(c),
{
    ('\u{9}' <= c && c <= '\u{d}') || c == ' ' || c == '\u{85}' || c == '\u{a0}' || c
        == '\u{1680}' || ('\u{2000}' <= c && c <= '\u{200a}') || c == '\u{2028}' || c
        == '\u{2029}' || c == '\u{202f}' || c == '\u{205f}' || c == '\u{3000}'
}

/// The characters of `s`, in order.
fn characters(s: &str) -> (chars: Vec<char>)
    ensures
        chars@ == s@,
{
    let mut chars: Vec<char> = Vec::new();
    for c in it: s.chars()
        invariant
            chars@ == it.seq().take(it.index() as int),
            it.seq() == s@,
    {
        chars.push(c);
    }
    chars
}

/// Cuts `s` at its whitespace and returns the words between, in order.
pub fn split_whitespace(s: &str) -> (words: Vec<&str>)
    ensures
        views(words@) == tokens(s@),
{
    let chars = characters(s);
    let n = chars.len();
    let mut words: Vec<&str> = Vec::new();
    let mut i: usize = 0;
    assert(s@.skip(0) =~= s@);
    while i < n
        invariant
            chars@ == s@,
            n == chars.len(),
            i <= n,
            tokens(s@) == views(words@) + tokens(s@.skip(i as int)),
        decreases n - i,
    {
        let ghost rest = s@.skip(i as int);
        if is_whitespace(chars[i]) {
            assert(rest.drop_first() =~= s@.skip(i + 1));
            i += 1;
        } else {
            let start = i;
            while i < n && !is_whitespace(chars[i])
                invariant
                    chars@ == s@,
                    n == chars.len(),
                    start <= i <= n,
                    forall|j: int| start <= j < i ==> !whitespace(#[trigger] s@[j]),
                decreases n - i,
            {
                i += 1;
            }
            let word = s.substring_char(start, i);
            proof {
                lemma_word_length_is(rest, i - start);
                assert(rest.take(i - start) =~= word@);
                assert(rest.skip(i - start) =~= s@.skip(i as int));
            }
            words.push(word);
        }
    }
    words
}

} // verus!
