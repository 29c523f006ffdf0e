//! Scanning of text: blanks, comments, words and decimal numbers.

use vstd::prelude::*;
use vstd::string::*;

verus! {

/// Whether `c` is white space: the characters with the Unicode property
/// `White_Space`.
pub open spec fn is_blank_spec(c: char) -> bool {
    let n = c as u32;
    ||| 0x09 <= n <= 0x0D
    ||| n == 0x20
    ||| n == 0x85
    ||| n == 0xA0
    ||| n == 0x1680
    ||| 0x2000 <= n <= 0x200A
    ||| n == 0x2028
    ||| n == 0x2029
    ||| n == 0x202F
    ||| n == 0x205F
    ||| n == 0x3000
}

/// Whether `c` is white space.
pub fn is_blank(c: char) -> (r: bool)
    ensures
        r == is_blank_spec(c),
{
    let n: u32 = c as u32;
    (0x09 <= n && n <= 0x0D) || n == 0x20 || n == 0x85 || n == 0xA0 || n == 0x1680 || (0x2000 <= n
        && n <= 0x200A) || n == 0x2028 || n == 0x2029 || n == 0x202F || n == 0x205F || n == 0x3000
}

/// The index of the first `;` in `s` at or after `i`, or the length of `s`
/// if there is none: where a comment begins.
pub open spec fn comment_start(s: Seq<char>, i: int) -> int
    decreases s.len() - i,
{
    if i >= s.len() || s[i] == ';' {
        i
    } else {
        comment_start(s, i + 1)
    }
}

/// The index of the first character of `s` at or after `i` that is not
/// white space, or the length of `s` if there is none.
pub open spec fn skip_blanks(s: Seq<char>, i: int) -> int
    decreases s.len() - i,
{
    if i >= s.len() || !is_blank_spec(s[i]) {
        i
    } else {
        skip_blanks(s, i + 1)
    }
}

/// The index of the first white space in `s` at or after `i`, or the
/// length of `s` if there is none: where the word that begins at `i` ends.
pub open spec fn word_end(s: Seq<char>, i: int) -> int
    decreases s.len() - i,
{
    if i >= s.len() || is_blank_spec(s[i]) {
        i
    } else {
        word_end(s, i + 1)
    }
}

/// The index behind the last character of `s` before `j` that is not
/// white space, or `i` if there is none at or after `i`.
pub open spec fn trim_end(s: Seq<char>, i: int, j: int) -> int
    decreases j - i,
{
    if j <= i || !is_blank_spec(s[j - 1]) {
        j
    } else {
        trim_end(s, i, j - 1)
    }
}

/// `s` without the white space at its two ends.
pub open spec fn trim_spec(s: Seq<char>) -> Seq<char> {
    let from = skip_blanks(s, 0);
    s.subrange(from, trim_end(s, from, s.len() as int))
}

/// The characters of `s`.
pub fn chars_of(s: &str) -> (v: Vec<char>)
    ensures
        v@ == s@,
{
    let n: usize = s.unicode_len();
    let mut v: Vec<char> = Vec::with_capacity(n);
    let mut i: usize = 0;
    while i < n
        invariant
            i <= n == s@.len(),
            v@ == s@.take(i as int),
        decreases n - i,
    {
        v.push(s.get_char(i));
        proof {
            assert(v@ =~= s@.take(i + 1));
        }
        i += 1;
    }
    proof {
        assert(s@.take(n as int) =~= s@);
    }
    v
}

/// `s` up to its first `;`: the line without its comment.
pub fn strip_comment(s: &str) -> (r: &str)
    ensures
        r@ == s@.take(comment_start(s@, 0)),
{
    let n: usize = s.unicode_len();
    let mut i: usize = 0;
    while i < n && s.get_char(i) != ';'
        invariant
            i <= n == s@.len(),
            comment_start(s@, 0) == comment_start(s@, i as int),
        decreases n - i,
    {
        i += 1;
    }
    s.substring_char(0, i)
}

/// `s` without the white space at its two ends.
pub fn trim(s: &str) -> (r: &str)
    ensures
        r@ == trim_spec(s@),
{
    let n: usize = s.unicode_len();
    let mut from: usize = 0;
    while from < n && is_blank(s.get_char(from))
        invariant
            from <= n == s@.len(),
            skip_blanks(s@, 0) == skip_blanks(s@, from as int),
        decreases n - from,
    {
        from += 1;
    }
    let mut to: usize = n;
    while to > from && is_blank(s.get_char(to - 1))
        invariant
            from <= to <= n == s@.len(),
            trim_end(s@, from as int, n as int) == trim_end(s@, from as int, to as int),
        decreases to - from,
    {
        to -= 1;
    }
    s.substring_char(from, to)
}

/// The words of `s` from index `i` on: the maximal runs of characters that
/// are not white space, in order.
pub open spec fn words_from(s: Seq<char>, i: int) -> Seq<Seq<char>>
    decreases s.len() - i,
{
    if i < 0 || i >= s.len() {
        Seq::empty()
    } else if is_blank_spec(s[i]) {
        words_from(s, i + 1)
    } else {
        let end = word_end(s, i);
        if i < end <= s.len() {
            seq![s.subrange(i, end)] + words_from(s, end)
        } else {
            Seq::empty()
        }
    }
}

/// The words of `s`.
pub open spec fn words_spec(s: Seq<char>) -> Seq<Seq<char>> {
    words_from(s, 0)
}

/// What each of `words` holds.
pub open spec fn views(words: Seq<Vec<char>>) -> Seq<Seq<char>> {
    Seq::new(words.len(), |k: int| words[k]@)
}

/// A word ends at or before the end of the text and, where it begins on a
/// character that is not white space, behind that character.
pub proof fn lemma_word_end_bounds(s: Seq<char>, i: int)
    requires
        0 <= i <= s.len(),
    ensures
        i <= word_end(s, i) <= s.len(),
        i < s.len() && !is_blank_spec(s[i]) ==> i < word_end(s, i),
    decreases s.len() - i,
{
    if i < s.len() && !is_blank_spec(s[i]) {
        lemma_word_end_bounds(s, i + 1);
    }
}

/// The words of `text`, split at white space.
pub fn words(text: &Vec<char>) -> (out: Vec<Vec<char>>)
    ensures
        views(out@) == words_spec(text@),
{
    let n: usize = text.len();
    let mut out: Vec<Vec<char>> = Vec::new();
    let mut i: usize = 0;
    proof {
        assert(views(out@) =~= Seq::<Seq<char>>::empty());
    }
    while i < n
        invariant
            i <= n == text@.len(),
            words_spec(text@) == views(out@) + words_from(text@, i as int),
        decreases n - i,
    {
        if is_blank(text[i]) {
            i += 1;
        } else {
            let start: usize = i;
            let mut word: Vec<char> = Vec::new();
            while i < n && !is_blank(text[i])
                invariant
                    start <= i <= n == text@.len(),
                    word_end(text@, start as int) == word_end(text@, i as int),
                    word@ == text@.subrange(start as int, i as int),
                decreases n - i,
            {
                word.push(text[i]);
                proof {
                    assert(word@ =~= text@.subrange(start as int, i + 1));
                }
                i += 1;
            }
            proof {
                lemma_word_end_bounds(text@, start as int);
                let ghost before = views(out@);
                assert(views(out@.push(word)) =~= before + seq![word@]);
                assert(before + (seq![word@] + words_from(text@, i as int)) =~= (before
                    + seq![word@]) + words_from(text@, i as int));
            }
            out.push(word);
        }
    }
    proof {
        assert(views(out@) + words_from(text@, n as int) =~= views(out@));
    }
    out
}

/// The lower-case form of an upper-case ASCII letter; any other character
/// as it is.
pub open spec fn lower_spec(c: char) -> char {
    if 'A' <= c <= 'Z' {
        ((c as u8) + 32) as char
    } else {
        c
    }
}

/// `word` with its ASCII letters in lower case.
pub open spec fn lowered_spec(word: Seq<char>) -> Seq<char> {
    Seq::new(word.len(), |k: int| lower_spec(word[k]))
}

/// The lower-case form of an upper-case ASCII letter; any other character
/// as it is.
pub fn lower(c: char) -> (r: char)
    ensures
        r == lower_spec(c),
{
    if 'A' <= c && c <= 'Z' {
        ((c as u8) + 32) as char
    } else {
        c
    }
}

/// `word` with its ASCII letters in lower case.
pub fn lowered(word: &Vec<char>) -> (out: Vec<char>)
    ensures
        out@ == lowered_spec(word@),
{
    let mut out: Vec<char> = Vec::with_capacity(word.len());
    let mut i: usize = 0;
    while i < word.len()
        invariant
            i <= word@.len(),
            out@ == lowered_spec(word@).take(i as int),
        decreases word@.len() - i,
    {
        out.push(lower(word[i]));
        proof {
            assert(out@ =~= lowered_spec(word@).take(i + 1));
        }
        i += 1;
    }
    proof {
        assert(lowered_spec(word@).take(word@.len() as int) =~= lowered_spec(word@));
    }
    out
}

/// Whether `word` spells `text`.
pub fn spells(word: &Vec<char>, text: &str) -> (r: bool)
    ensures
        r == (word@ == text@),
{
    let n: usize = text.unicode_len();
    if word.len() != n {
        return false;
    }
    let mut i: usize = 0;
    while i < n
        invariant
            i <= n == text@.len(),
            word@.len() == n,
            word@.take(i as int) == text@.take(i as int),
        decreases n - i,
    {
        if word[i] != text.get_char(i) {
            return false;
        }
        proof {
            assert(word@.take(i + 1) =~= word@.take(i as int).push(word@[i as int]));
            assert(text@.take(i + 1) =~= text@.take(i as int).push(text@[i as int]));
        }
        i += 1;
    }
    proof {
        assert(word@.take(n as int) =~= word@);
        assert(text@.take(n as int) =~= text@);
    }
    true
}

/// Whether `c` is one of the digits `0` to `9`.
pub open spec fn is_digit(c: char) -> bool {
    '0' <= c <= '9'
}

/// Whether every character of `s` is a digit.
pub open spec fn all_digits(s: Seq<char>) -> bool {
    forall|i: int| 0 <= i < s.len() ==> is_digit(#[trigger] s[i])
}

/// The number that the digits `s` spell in base ten.
pub open spec fn digits_value(s: Seq<char>) -> nat
    decreases s.len(),
{
    if s.len() == 0 {
        0
    } else {
        digits_value(s.drop_last()) * 10 + (s.last() as u32 - 0x30) as nat
    }
}

/// The number that `s` spells, if it spells one that is at most `max`: an
/// optional `+`, then one or more digits.
pub open spec fn decimal_spec(s: Seq<char>, max: nat) -> Option<nat> {
    let digits = if s.len() > 0 && s[0] == '+' {
        s.drop_first()
    } else {
        s
    };
    if digits.len() > 0 && all_digits(digits) && digits_value(digits) <= max {
        Some(digits_value(digits))
    } else {
        None
    }
}

/// A number is at least what any beginning of its digits spells.
pub proof fn lemma_digits_value_grows(s: Seq<char>, k: int)
    requires
        0 <= k <= s.len(),
        all_digits(s),
    ensures
        digits_value(s.take(k)) <= digits_value(s),
    decreases s.len() - k,
{
    if k == s.len() {
        assert(s.take(k) =~= s);
    } else {
        lemma_digits_value_grows(s, k + 1);
        assert(s.take(k + 1).drop_last() =~= s.take(k));
        assert(is_digit(s[k]));
    }
}

/// Reads `word` as a decimal number that is at most `max`.
pub fn parse_decimal(word: &Vec<char>, max: u32) -> (r: Option<u32>)
    requires
        max <= 0x0FFF_FFFF,
    ensures
        decimal_spec(word@, max as nat) == match r {
            Some(n) => Some(n as nat),
            None => None,
        },
{
    let n: usize = word.len();
    let start: usize = if n > 0 && word[0] == '+' {
        1
    } else {
        0
    };
    if start == n {
        return None;
    }
    let ghost digits = word@.subrange(start as int, n as int);
    proof {
        if start == 1 {
            assert(digits =~= word@.drop_first());
        } else {
            assert(digits =~= word@);
        }
    }
    let mut value: u32 = 0;
    let mut i: usize = start;
    while i < n
        invariant
            start <= i <= n == word@.len(),
            digits == word@.subrange(start as int, n as int),
            digits == if word@.len() > 0 && word@[0] == '+' {
                word@.drop_first()
            } else {
                word@
            },
            all_digits(digits.take(i - start)),
            value == digits_value(digits.take(i - start)),
            value <= max <= 0x0FFF_FFFF,
        decreases n - i,
    {
        let c: char = word[i];
        if !('0' <= c && c <= '9') {
            proof {
                assert(!is_digit(digits[i - start]));
            }
            return None;
        }
        let digit: u32 = c as u32 - 0x30;
        proof {
            assert(digits.take(i - start + 1).drop_last() =~= digits.take(i - start));
            assert(digits.take(i - start + 1).last() == c);
        }
        if value * 10 + digit > max {
            proof {
                if all_digits(digits) {
                    lemma_digits_value_grows(digits, i - start + 1);
                }
            }
            return None;
        }
        value = value * 10 + digit;
        i += 1;
    }
    proof {
        assert(digits.take(n - start) =~= digits);
    }
    Some(value)
}

/// The character for the digit `d` in bases up to sixteen, in lower case.
pub open spec fn digit_char(d: int) -> char {
    if d < 10 {
        (0x30 + d) as char
    } else {
        (0x61 + d - 10) as char
    }
}

/// `n` in base ten, without leading zeros.
pub open spec fn decimal_text(n: nat) -> Seq<char>
    decreases n,
{
    if n < 10 {
        seq![digit_char(n as int)]
    } else {
        decimal_text(n / 10).push(digit_char((n % 10) as int))
    }
}

/// A number written in base ten consists of digits that spell it.
pub proof fn lemma_decimal_text_digits(n: nat)
    ensures
        decimal_text(n).len() > 0,
        all_digits(decimal_text(n)),
        digits_value(decimal_text(n)) == n,
    decreases n,
{
    if n < 10 {
        assert(decimal_text(n).drop_last() =~= Seq::<char>::empty());
        assert(digits_value(Seq::<char>::empty()) == 0);
    } else {
        lemma_decimal_text_digits(n / 10);
        assert(decimal_text(n).drop_last() =~= decimal_text(n / 10));
    }
}

/// Writing and reading agree: a number written in base ten is read back
/// as itself, if it is within the limit.
pub proof fn law_decimal_round_trip(n: nat, max: nat)
    requires
        n <= max,
    ensures
        decimal_spec(decimal_text(n), max) == Some(n),
{
    lemma_decimal_text_digits(n);
    assert(is_digit(decimal_text(n)[0]));
}

/// The last `width` hexadecimal digits of `n`, in lower case, with
/// leading zeros.
pub open spec fn hex_text(n: nat, width: nat) -> Seq<char>
    decreases width,
{
    if width == 0 {
        Seq::empty()
    } else {
        hex_text(n / 16, (width - 1) as nat).push(digit_char((n % 16) as int))
    }
}

/// The text of the one digit `d`.
pub fn digit_str(d: u8) -> (r: &'static str)
    requires
        d < 16,
    ensures
        r@ == seq![digit_char(d as int)],
{
    proof {
        reveal_strlit("0");
        reveal_strlit("1");
        reveal_strlit("2");
        reveal_strlit("3");
        reveal_strlit("4");
        reveal_strlit("5");
        reveal_strlit("6");
        reveal_strlit("7");
        reveal_strlit("8");
        reveal_strlit("9");
        reveal_strlit("a");
        reveal_strlit("b");
        reveal_strlit("c");
        reveal_strlit("d");
        reveal_strlit("e");
        reveal_strlit("f");
    }
    let r: &'static str = match d {
        0 => "0",
        1 => "1",
        2 => "2",
        3 => "3",
        4 => "4",
        5 => "5",
        6 => "6",
        7 => "7",
        8 => "8",
        9 => "9",
        10 => "a",
        11 => "b",
        12 => "c",
        13 => "d",
        14 => "e",
        _ => "f",
    };
    proof {
        assert(r@ =~= seq![digit_char(d as int)]);
    }
    r
}

/// Appends `n` in base ten to `out`.
pub fn append_decimal(out: &mut String, n: u16)
    ensures
        final(out)@ == old(out)@ + decimal_text(n as nat),
    decreases n,
{
    if n >= 10 {
        append_decimal(out, n / 10);
    }
    out.append(digit_str((n % 10) as u8));
    proof {
        assert(out@ =~= old(out)@ + decimal_text(n as nat));
    }
}

/// Appends the last `width` hexadecimal digits of `n` to `out`.
pub fn append_hex(out: &mut String, n: u32, width: u8)
    ensures
        final(out)@ == old(out)@ + hex_text(n as nat, width as nat),
    decreases width,
{
    if width > 0 {
        append_hex(out, n / 16, width - 1);
        out.append(digit_str((n % 16) as u8));
    }
    proof {
        assert(out@ =~= old(out)@ + hex_text(n as nat, width as nat));
    }
}

} // verus!
