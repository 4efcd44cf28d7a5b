//! Strings as sequences of characters: the conversions the rest of the
//! library builds on.

use crate::trusted::push_char;
use vstd::prelude::*;
use vstd::string::*;

verus! {

/// The character sequences of a list of strings, in order.
pub open spec fn texts(strings: Seq<String>) -> Seq<Seq<char>> {
    strings.map_values(|s: String| s@)
}

/// `texts` of a list with one more string at its end.
pub proof fn lemma_texts_push(strings: Seq<String>, last: String)
    ensures
        texts(strings.push(last)) == texts(strings).push(last@),
{
    assert(texts(strings.push(last)) =~= texts(strings).push(last@));
}

/// `texts` of two lists joined is the two results joined.
pub proof fn lemma_texts_add(left: Seq<String>, right: Seq<String>)
    ensures
        texts(left + right) == texts(left) + texts(right),
{
    assert(texts(left + right) =~= texts(left) + texts(right));
}

/// Copies the characters of `text` into a vector.
pub fn collect_chars(text: &str) -> (chars: Vec<char>)
    ensures
        chars@ == text@,
{
    let mut chars: Vec<char> = Vec::new();
    for c in it: text.chars()
        invariant
            it.seq() == text@,
            chars@ == it.seq().take(it.index() as int),
    {
        chars.push(c);
    }
    chars
}

/// The string made of `chars[from..to]`.
pub(crate) fn string_from_range(chars: &Vec<char>, from: usize, to: usize) -> (s: String)
    requires
        from <= to <= chars.len(),
    ensures
        s@ == chars@.subrange(from as int, to as int),
{
    let mut s = String::new();
    let mut k: usize = from;
    while k < to
        invariant
            from <= k <= to <= chars.len(),
            s@ == chars@.subrange(from as int, k as int),
        decreases to - k,
    {
        push_char(&mut s, chars[k]);
        k = k + 1;
        assert(chars@.subrange(from as int, k as int) == chars@.subrange(from as int, k - 1).push(
            chars@[k - 1],
        ));
    }
    s
}


/// The character of a decimal digit.
pub open spec fn digit(value: nat) -> char {
    if value == 0 {
        '0'
    } else if value == 1 {
        '1'
    } else if value == 2 {
        '2'
    } else if value == 3 {
        '3'
    } else if value == 4 {
        '4'
    } else if value == 5 {
        '5'
    } else if value == 6 {
        '6'
    } else if value == 7 {
        '7'
    } else if value == 8 {
        '8'
    } else {
        '9'
    }
}

/// A number written in decimal, without leading zeros.
pub open spec fn decimal(number: nat) -> Seq<char>
    decreases number,
{
    if number < 10 {
        seq![digit(number)]
    } else {
        decimal(number / 10).push(digit(number % 10))
    }
}

/// The character of the decimal digit `value`.
fn digit_char(value: usize) -> (c: char)
    requires
        value < 10,
    ensures
        c == digit(value as nat),
{
    if value == 0 {
        '0'
    } else if value == 1 {
        '1'
    } else if value == 2 {
        '2'
    } else if value == 3 {
        '3'
    } else if value == 4 {
        '4'
    } else if value == 5 {
        '5'
    } else if value == 6 {
        '6'
    } else if value == 7 {
        '7'
    } else if value == 8 {
        '8'
    } else {
        '9'
    }
}

/// Appends `number` in decimal to `text`.
pub fn push_decimal(text: &mut String, number: usize)
    ensures
        final(text)@ == old(text)@ + decimal(number as nat),
    decreases number,
{
    if number < 10 {
        push_char(text, digit_char(number));
        assert(text@ =~= old(text)@ + decimal(number as nat));
    } else {
        push_decimal(text, number / 10);
        push_char(text, digit_char(number % 10));
        assert(text@ =~= old(text)@ + decimal(number as nat));
    }
}

} // verus!
