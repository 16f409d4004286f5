//! How much a text may hold before it is handed to a parser.
//!
//! A parser that descends once for every level of nesting needs room for
//! every level. No level of nesting comes without a word or a structural
//! character of its own, so the number of those bounds the depth.

use vstd::prelude::*;

verus! {

/// The most words and structural characters that a text may hold to be read.
pub const WEIGHT_LIMIT: usize = 48;

/// `c` is an ASCII letter, an ASCII digit or an underscore.
pub open spec fn is_word_char(c: char) -> bool {
    ('a' <= c && c <= 'z') || ('A' <= c && c <= 'Z') || ('0' <= c && c <= '9') || c == '_'
}

/// `c` can stand in a word: a word character, or any character beyond ASCII.
pub open spec fn is_word_like(c: char) -> bool {
    is_word_char(c) || c > '\x7f'
}

/// `c` is a structural character: an ASCII character that can stand in no
/// word and is no blank, colon or comma. Brackets and operators are among
/// them.
pub open spec fn is_symbol(c: char) -> bool {
    !is_word_like(c) && c != ' ' && c != '\t' && c != '\n' && c != '\r' && c != ':' && c != ','
}

/// Position `i` of `text` holds a structural character or the first
/// character of a word.
pub open spec fn is_counted(text: Seq<char>, i: int) -> bool {
    is_symbol(text[i]) || (is_word_like(text[i]) && (i == 0 || !is_word_like(text[i - 1])))
}

/// The number of words and structural characters in the first `k` characters
/// of `text`.
pub open spec fn weight_of_prefix(text: Seq<char>, k: int) -> nat
    decreases k,
{
    if k <= 0 {
        0
    } else {
        weight_of_prefix(text, k - 1) + if is_counted(text, k - 1) {
            1nat
        } else {
            0nat
        }
    }
}

/// The number of words and structural characters of `text`.
pub open spec fn weight(text: Seq<char>) -> nat {
    weight_of_prefix(text, text.len() as int)
}

/// `text` holds at most `bound` words and structural characters, and so
/// nothing nested more than `bound` levels deep.
pub open spec fn nested_within(text: Seq<char>, bound: nat) -> bool {
    weight(text) <= bound
}

/// `text` is made of word characters only.
pub open spec fn is_plain(text: Seq<char>) -> bool {
    forall|i: int| 0 <= i < text.len() ==> is_word_char(#[trigger] text[i])
}

/// A longer prefix weighs no less.
proof fn lemma_weight_grows(text: Seq<char>, k: int, n: int)
    requires
        0 <= k <= n,
    ensures
        weight_of_prefix(text, k) <= weight_of_prefix(text, n),
    decreases n - k,
{
    if k < n {
        lemma_weight_grows(text, k, n - 1);
    }
}

/// Whether `c` can stand in a word.
pub fn word_like(c: char) -> (yes: bool)
    ensures
        yes == is_word_like(c),
{
    ('a' <= c && c <= 'z') || ('A' <= c && c <= 'Z') || ('0' <= c && c <= '9') || c == '_' || c
        > '\x7f'
}

/// Whether `c` is a structural character.
pub fn symbol(c: char) -> (yes: bool)
    ensures
        yes == is_symbol(c),
{
    !word_like(c) && c != ' ' && c != '\t' && c != '\n' && c != '\r' && c != ':' && c != ','
}

/// Whether `text` holds at most `bound` words and structural characters.
pub fn within(text: &str, bound: usize) -> (yes: bool)
    ensures
        yes == nested_within(text@, bound as nat),
{
    let mut count: usize = 0;
    let mut in_word = false;
    for c in it: text.chars()
        invariant
            it.seq() == text@,
            count <= bound,
            count == weight_of_prefix(text@, it.index() as int),
            in_word == (it.index() > 0 && is_word_like(text@[it.index() - 1])),
    {
        proof {
            assert(it.index() < text@.len());
            assert(c == text@[it.index() as int]);
        }
        let word = word_like(c);
        if symbol(c) || (word && !in_word) {
            if count == bound {
                proof {
                    lemma_weight_grows(text@, it.index() + 1, text@.len() as int);
                }
                return false;
            }
            count = count + 1;
        }
        in_word = word;
    }
    true
}

} // verus!
