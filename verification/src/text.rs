//! String helpers that the stores, the command parser and the presenter
//! share: comparison, splitting into tokens, and decimal numbers.

use vstd::prelude::*;
use vstd::string::StrSliceExecFns;
use vstd::string::StringExecFns;
use vstd::string::StringSliceAdditionalSpecFns;
use vstd::utf8::{encode_utf8, encode_utf8_decode_utf8};

verus! {

/// Two character sequences are equal exactly when their UTF-8 encodings are.
pub proof fn lemma_encoding_injective(a: Seq<char>, b: Seq<char>)
    ensures
        encode_utf8(a) == encode_utf8(b) <==> a == b,
{
    encode_utf8_decode_utf8(a);
    encode_utf8_decode_utf8(b);
}

/// Byte-wise string equality.
pub fn str_eq(a: &str, b: &str) -> (same: bool)
    ensures
        same == (a@ == b@),
{
    let x = a.as_bytes();
    let y = b.as_bytes();
    proof {
        lemma_encoding_injective(a@, b@);
    }
    if x.len() != y.len() {
        return false;
    }
    let mut i: usize = 0;
    while i < x.len()
        invariant
            i <= x.len(),
            x.len() == y.len(),
            x@ == encode_utf8(a@),
            y@ == encode_utf8(b@),
            encode_utf8(a@) == encode_utf8(b@) <==> a@ == b@,
            forall|j: int| 0 <= j < i ==> x@[j] == y@[j],
        decreases x.len() - i,
    {
        if x[i] != y[i] {
            return false;
        }
        i += 1;
    }
    assert(x@ =~= y@);
    true
}

/// The characters of `s`, one by one.
pub fn chars_of(s: &str) -> (chars: Vec<char>)
    ensures
        chars@ == s@,
{
    let mut chars: Vec<char> = Vec::new();
    for c in it: s.chars()
        invariant
            it.seq() == s@,
            chars@ == it.seq().take(it.index() as int),
    {
        chars.push(c);
    }
    chars
}

/// Whether `c` separates tokens: the characters with the Unicode property
/// White_Space.
pub open spec fn is_whitespace(c: char) -> bool {
    let u = c as u32;
    ||| 0x09 <= u <= 0x0D
    ||| u == 0x20
    ||| u == 0x85
    ||| u == 0xA0
    ||| u == 0x1680
    ||| 0x2000 <= u <= 0x200A
    ||| u == 0x2028
    ||| u == 0x2029
    ||| u == 0x202F
    ||| u == 0x205F
    ||| u == 0x3000
}

/// Whether `c` separates tokens.
pub fn whitespace(c: char) -> (yes: bool)
    ensures
        yes == is_whitespace(c),
{
    let u: u32 = c as u32;
    (0x09 <= u && u <= 0x0D) || u == 0x20 || u == 0x85 || u == 0xA0 || u == 0x1680 || (0x2000 <= u
        && u <= 0x200A) || u == 0x2028 || u == 0x2029 || u == 0x202F || u == 0x205F || u == 0x3000
}

/// The number of characters at the start of `s` before the first one that
/// `stop` holds of; the length of `s` where it holds of none.
pub open spec fn prefix_len(s: Seq<char>, stop: spec_fn(char) -> bool) -> nat
    decreases s.len(),
{
    if s.len() == 0 || stop(s[0]) {
        0
    } else {
        1 + prefix_len(s.drop_first(), stop)
    }
}

/// `prefix_len` is the one position `k` that no stopping character precedes
/// and at which `s` stops or ends.
pub proof fn lemma_prefix_len(s: Seq<char>, stop: spec_fn(char) -> bool, k: int)
    requires
        0 <= k <= s.len(),
        forall|j: int| 0 <= j < k ==> !stop(#[trigger] s[j]),
        k < s.len() ==> stop(s[k]),
    ensures
        prefix_len(s, stop) == k,
    decreases k,
{
    if k > 0 {
        lemma_prefix_len(s.drop_first(), stop, k - 1);
    }
}

/// `prefix_len` is at most the length of `s`.
pub proof fn lemma_prefix_len_bound(s: Seq<char>, stop: spec_fn(char) -> bool)
    ensures
        prefix_len(s, stop) <= s.len(),
    decreases s.len(),
{
    if s.len() > 0 && !stop(s[0]) {
        lemma_prefix_len_bound(s.drop_first(), stop);
    }
}

/// `stop` holds of none of the first `prefix_len` characters.
pub proof fn lemma_prefix_free(s: Seq<char>, stop: spec_fn(char) -> bool)
    ensures
        forall|j: int| 0 <= j < prefix_len(s, stop) ==> !stop(#[trigger] s[j]),
        prefix_len(s, stop) < s.len() ==> stop(s[prefix_len(s, stop) as int]),
    decreases s.len(),
{
    if s.len() > 0 && !stop(s[0]) {
        let rest = s.drop_first();
        lemma_prefix_free(rest, stop);
        lemma_prefix_len_bound(rest, stop);
        assert forall|j: int| 0 <= j < prefix_len(s, stop) implies !stop(#[trigger] s[j]) by {
            if j > 0 {
                assert(s[j] == rest[j - 1]);
            }
        }
    }
}

/// The length of the word that `s` starts with.
pub open spec fn word_len(s: Seq<char>) -> nat {
    prefix_len(s, |c: char| is_whitespace(c))
}

/// The tokens of a line: its maximal runs of characters that are not
/// whitespace, from left to right.
pub open spec fn tokens(s: Seq<char>) -> Seq<Seq<char>>
    decreases s.len(),
{
    if s.len() == 0 {
        Seq::empty()
    } else if is_whitespace(s[0]) {
        tokens(s.drop_first())
    } else {
        proof {
            lemma_prefix_len_bound(s, |c: char| is_whitespace(c));
        }
        let n = word_len(s) as int;
        seq![s.take(n)] + tokens(s.skip(n))
    }
}

/// Splits a line on runs of whitespace.
pub fn split_whitespace(line: &str) -> (words: Vec<String>)
    ensures
        words.deep_view() == tokens(line@),
{
    let chars = chars_of(line);
    let n = chars.len();
    let mut words: Vec<String> = Vec::new();
    let mut i: usize = 0;
    assert(line@.skip(0) =~= line@);
    while i < n
        invariant
            chars@ == line@,
            n == chars.len(),
            i <= n,
            tokens(line@) == words.deep_view() + tokens(line@.skip(i as int)),
        decreases n - i,
    {
        let ghost rest = line@.skip(i as int);
        if whitespace(chars[i]) {
            assert(rest.drop_first() =~= line@.skip(i + 1));
            i += 1;
        } else {
            let start = i;
            while i < n && !whitespace(chars[i])
                invariant
                    chars@ == line@,
                    n == chars.len(),
                    start <= i <= n,
                    forall|j: int| start <= j < i ==> !is_whitespace(chars[j]),
                decreases n - i,
            {
                i += 1;
            }
            let word = line.substring_char(start, i).to_owned();
            proof {
                lemma_prefix_len(rest, |c: char| is_whitespace(c), i - start);
                assert(rest.take(i - start) =~= line@.subrange(start as int, i as int));
                assert(rest.skip(i - start) =~= line@.skip(i as int));
            }
            words.push(word);
        }
    }
    words
}

/// The key and the value of a token of the form `key=value`: what stands
/// before and after its first `=`. A token without `=`, or with nothing before
/// it, is no attribute; the value may be empty.
pub open spec fn attribute_of(token: Seq<char>) -> Option<(Seq<char>, Seq<char>)> {
    let k = prefix_len(token, |c: char| c == '=') as int;
    if 0 < k < token.len() {
        Some((token.take(k), token.skip(k + 1)))
    } else {
        None
    }
}

/// Splits a token of the form `key=value` at its first `=`.
pub fn split_attribute(token: &str) -> (pair: Option<(String, String)>)
    ensures
        pair.deep_view() == attribute_of(token@),
{
    let chars = chars_of(token);
    let n = chars.len();
    let mut k: usize = 0;
    while k < n && chars[k] != '='
        invariant
            chars@ == token@,
            n == chars.len(),
            k <= n,
            forall|j: int| 0 <= j < k ==> chars[j] != '=',
        decreases n - k,
    {
        k += 1;
    }
    proof {
        lemma_prefix_len(token@, |c: char| c == '=', k as int);
    }
    if 0 < k && k < n {
        let key = token.substring_char(0, k).to_owned();
        let value = token.substring_char(k + 1, n).to_owned();
        Some((key, value))
    } else {
        None
    }
}

/// Whether `c` is one of the digits `0` to `9`.
pub open spec fn is_digit(c: char) -> bool {
    '0' <= c <= '9'
}

/// The number that the digit `c` stands for.
pub open spec fn digit_value(c: char) -> nat {
    (c as u32 - '0' as u32) as nat
}

/// The number that a sequence of digits denotes in base ten.
pub open spec fn decimal_value(digits: Seq<char>) -> nat
    decreases digits.len(),
{
    if digits.len() == 0 {
        0
    } else {
        10 * decimal_value(digits.drop_last()) + digit_value(digits.last())
    }
}

/// Whether `s` holds digits only.
pub open spec fn all_digits(s: Seq<char>) -> bool {
    forall|i: int| 0 <= i < s.len() ==> is_digit(#[trigger] s[i])
}

/// A token without the `+` that it may start with.
pub open spec fn unsigned_part(token: Seq<char>) -> Seq<char> {
    if token.len() > 0 && token[0] == '+' {
        token.skip(1)
    } else {
        token
    }
}

/// The index that a token denotes: one or more digits, after an optional
/// `+`, whose value fits in `usize`. Any other token denotes none.
pub open spec fn parsed_index(token: Seq<char>) -> Option<usize> {
    let digits = unsigned_part(token);
    if digits.len() > 0 && all_digits(digits) && decimal_value(digits) <= usize::MAX {
        Some(decimal_value(digits) as usize)
    } else {
        None
    }
}

/// A digit sequence denotes at least what each of its prefixes denotes.
pub proof fn lemma_decimal_value_prefix(digits: Seq<char>, k: int)
    requires
        0 <= k <= digits.len(),
        all_digits(digits),
    ensures
        decimal_value(digits.take(k)) <= decimal_value(digits),
    decreases digits.len() - k,
{
    if k == digits.len() {
        assert(digits.take(k) =~= digits);
    } else {
        let front = digits.drop_last();
        assert(front.take(k) =~= digits.take(k));
        lemma_decimal_value_prefix(front, k);
    }
}

/// Reads a token as an index.
pub fn parse_index(token: &str) -> (index: Option<usize>)
    ensures
        index == parsed_index(token@),
{
    let chars = chars_of(token);
    let n = chars.len();
    let start: usize = if n > 0 && chars[0] == '+' {
        1
    } else {
        0
    };
    let ghost digits = unsigned_part(token@);
    if start == n {
        return None;
    }
    let mut value: usize = 0;
    let mut i: usize = start;
    while i < n
        invariant
            chars@ == token@,
            n == chars.len(),
            start <= i <= n,
            start < n,
            digits == unsigned_part(token@),
            digits == chars@.skip(start as int),
            all_digits(digits.take(i - start)),
            value == decimal_value(digits.take(i - start)),
        decreases n - i,
    {
        let c = chars[i];
        assert(digits[i - start] == c);
        if !('0' <= c && c <= '9') {
            return None;
        }
        let d: usize = (c as u32 - '0' as u32) as usize;
        let ghost longer = digits.take(i - start + 1);
        proof {
            assert(longer.drop_last() =~= digits.take(i - start));
            if all_digits(digits) {
                lemma_decimal_value_prefix(digits, i - start + 1);
            }
        }
        let next = match value.checked_mul(10) {
            Some(tens) => tens.checked_add(d),
            None => None,
        };
        match next {
            Some(v) => {
                value = v;
            },
            None => {
                return None;
            },
        }
        i += 1;
    }
    assert(digits.take(n - start) =~= digits);
    Some(value)
}

/// The character that stands for the digit `d`.
pub open spec fn digit_char(d: nat) -> char {
    if d == 0 {
        '0'
    } else if d == 1 {
        '1'
    } else if d == 2 {
        '2'
    } else if d == 3 {
        '3'
    } else if d == 4 {
        '4'
    } else if d == 5 {
        '5'
    } else if d == 6 {
        '6'
    } else if d == 7 {
        '7'
    } else if d == 8 {
        '8'
    } else {
        '9'
    }
}

/// The digits of `n` in base ten, without leading zeros.
pub open spec fn decimal(n: nat) -> Seq<char>
    decreases n,
{
    if n < 10 {
        seq![digit_char(n)]
    } else {
        decimal(n / 10).push(digit_char(n % 10))
    }
}

fn digit_str(d: usize) -> (text: &'static str)
    requires
        d < 10,
    ensures
        text@ == seq![digit_char(d as nat)],
{
    proof {
        reveal_strlit("0");
        reveal_strlit("1");
        reveal_strlit("2");
        reveal_strlit("3");
        reveal_strlit("4");
        reveal_strlit("5");
        reveal_strlit("6");
        reveal_strlit("7");
        reveal_strlit("8");
        reveal_strlit("9");
    }
    let text = match d {
        0 => "0",
        1 => "1",
        2 => "2",
        3 => "3",
        4 => "4",
        5 => "5",
        6 => "6",
        7 => "7",
        8 => "8",
        _ => "9",
    };
    text
}

/// Writes `n` in base ten.
pub fn format_decimal(n: usize) -> (text: String)
    ensures
        text@ == decimal(n as nat),
    decreases n,
{
    if n < 10 {
        digit_str(n).to_owned()
    } else {
        let mut text = format_decimal(n / 10);
        text.append(digit_str(n % 10));
        text
    }
}

/// What `format_decimal` writes, `parse_index` reads back as the same
/// number.
pub proof fn lemma_decimal_round_trip(n: usize)
    ensures
        parsed_index(decimal(n as nat)) == Some(n),
{
    lemma_decimal_digits(n as nat);
}

/// The digits of a number are digits, at least one, and denote the number.
pub proof fn lemma_decimal_digits(n: nat)
    ensures
        decimal(n).len() > 0,
        all_digits(decimal(n)),
        decimal_value(decimal(n)) == n,
    decreases n,
{
    if n < 10 {
        assert(decimal_value(decimal(n).drop_last()) == 0);
    } else {
        lemma_decimal_digits(n / 10);
        assert(decimal(n).drop_last() =~= decimal(n / 10));
    }
}

/// Whether `t` has at least one character and no whitespace in it.
pub open spec fn is_word(t: Seq<char>) -> bool {
    t.len() > 0 && forall|j: int| 0 <= j < t.len() ==> !is_whitespace(#[trigger] t[j])
}

/// Every token of a line has at least one character and no whitespace in
/// it.
pub proof fn lemma_tokens_are_words(s: Seq<char>)
    ensures
        forall|i: int| 0 <= i < tokens(s).len() ==> is_word(#[trigger] tokens(s)[i]),
    decreases s.len(),
{
    if s.len() == 0 {
    } else if is_whitespace(s[0]) {
        lemma_tokens_are_words(s.drop_first());
        assert(tokens(s) == tokens(s.drop_first()));
    } else {
        let stop = |c: char| is_whitespace(c);
        lemma_prefix_len_bound(s, stop);
        lemma_prefix_free(s, stop);
        let n = word_len(s) as int;
        lemma_tokens_are_words(s.skip(n));
        let rest = tokens(s.skip(n));
        assert(is_word(s.take(n)));
        assert forall|i: int| 0 <= i < tokens(s).len() implies is_word(#[trigger] tokens(s)[i]) by {
            if i > 0 {
                assert(tokens(s)[i] == rest[i - 1]);
            }
        }
    }
}

} // verus!
