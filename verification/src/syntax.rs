//! Word lists of the scripting language.
use vstd::prelude::*;
use vstd::string::*;
use crate::text::{chars_of, equal_chars};

verus! {

pub open spec fn keyword(word: Seq<char>) -> bool {
    word == "in"@ || word == "as"@ || word == "is"@ || word == "to"@
}

pub open spec fn datatype(word: Seq<char>) -> bool {
    word == "num"@ || word == "str"@ || word == "bool"@ || word == "char"@ || word == "array"@
}

pub open spec fn declaration(word: Seq<char>) -> bool {
    word == "let"@ || word == "fun"@
}

pub open spec fn control(word: Seq<char>) -> bool {
    word == "for"@ || word == "if"@ || word == "when"@ || word == "else"@ || word == "while"@ || word
        == "do"@
}

pub open spec fn condition(word: Seq<char>) -> bool {
    word == "and"@ || word == "or"@ || word == "equals"@ || word == "not"@
}

pub open spec fn truth(word: Seq<char>) -> bool {
    word == "true"@ || word == "false"@
}

/// Whether `word` is reserved: a keyword, a data type, a declaration, a
/// control word, a condition or a truth value.
pub open spec fn reserved(word: Seq<char>) -> bool {
    keyword(word) || datatype(word) || declaration(word) || control(word) || condition(word) || truth(word)
}

/// Whether one of the first `upto` words of `list` is `key`.
pub open spec fn listed(list: Seq<&str>, key: Seq<char>, upto: int) -> bool
    decreases upto,
{
    if upto <= 0 {
        false
    } else {
        listed(list, key, upto - 1) || list[upto - 1]@ == key
    }
}

/// Whether `key` is one of the words of `list`.
pub fn word_in(list: &[&str], key: &str) -> (out: bool)
    ensures
        out == listed(list@, key@, list@.len() as int),
{
    let chars = chars_of(key);
    let mut i: usize = 0;
    while i < list.len()
        invariant
            i <= list@.len(),
            chars@ == key@,
            !listed(list@, key@, i as int),
        decreases list@.len() - i,
    {
        if equal_chars(&chars, list[i]) {
            proof {
                lemma_listed_grows(list@, key@, i + 1, list@.len() as int);
            }
            return true;
        }
        i += 1;
    }
    false
}

proof fn lemma_listed_grows(list: Seq<&str>, key: Seq<char>, from: int, to: int)
    requires
        from <= to,
        listed(list, key, from),
    ensures
        listed(list, key, to),
    decreases to - from,
{
    if from < to {
        lemma_listed_grows(list, key, from, to - 1);
    }
}

fn is_word(chars: &Vec<char>, word: &str) -> (out: bool)
    ensures
        out == (chars@ == word@),
{
    equal_chars(chars, word)
}

/// Whether `word` is reserved: a keyword, a data type, a declaration, a
/// control word, a condition or a truth value.
pub fn is_keyword(word: &str) -> (out: bool)
    ensures
        out == reserved(word@),
{
    let c = chars_of(word);
    let c = &c;
    is_word(c, "in") || is_word(c, "as") || is_word(c, "is") || is_word(c, "to") || is_word(c, "num")
        || is_word(c, "str") || is_word(c, "bool") || is_word(c, "char") || is_word(c, "array") || is_word(
        c,
        "let",
    ) || is_word(c, "fun") || is_word(c, "for") || is_word(c, "if") || is_word(c, "when") || is_word(
        c,
        "else",
    ) || is_word(c, "while") || is_word(c, "do") || is_word(c, "and") || is_word(c, "or") || is_word(
        c,
        "equals",
    ) || is_word(c, "not") || is_word(c, "true") || is_word(c, "false")
}

/// Whether `word` names a data type.
pub fn is_datatype(word: &str) -> (out: bool)
    ensures
        out == datatype(word@),
{
    let c = chars_of(word);
    let c = &c;
    is_word(c, "num") || is_word(c, "str") || is_word(c, "bool") || is_word(c, "char") || is_word(c, "array")
}

/// Whether `key` occurs in `list`.
pub fn char_in(list: &str, key: char) -> (out: bool)
    ensures
        out == list@.contains(key),
{
    let chars = chars_of(list);
    let mut i: usize = 0;
    while i < chars.len()
        invariant
            i <= chars@.len(),
            chars@ == list@,
            forall|j: int| 0 <= j < i ==> chars@[j] != key,
        decreases chars@.len() - i,
    {
        if chars[i] == key {
            return true;
        }
        i += 1;
    }
    false
}

} // verus!
