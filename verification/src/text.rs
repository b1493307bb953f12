//! Text helpers: strings as sequences of characters, substring search,
//! wildcard patterns and hexadecimal digits.

use vstd::prelude::*;
use vstd::string::*;

verus! {

/// `std::string::String::push` appends one character.
pub assume_specification[ std::string::String::push ](s: &mut String, c: char)
    ensures
        final(s)@ == old(s)@.push(c),
;

/// The error of `std::string::String::from_utf8`.
#[verifier::external_type_specification]
#[verifier::external_body]
pub struct ExFromUtf8Error(std::string::FromUtf8Error);

/// `std::string::String::from_utf8` makes a string of bytes that are valid
/// UTF-8, with the characters that they encode, and refuses all others.
pub assume_specification[ std::string::String::from_utf8 ](bytes: Vec<u8>) -> (r: Result<
    String,
    std::string::FromUtf8Error,
>)
    ensures
        match r {
            Ok(s) => vstd::utf8::valid_utf8(bytes@) && s@ == vstd::utf8::decode_utf8(bytes@),
            Err(_) => !vstd::utf8::valid_utf8(bytes@),
        },
;

/// Whether two byte strings are the same.
pub fn bytes_eq(a: &[u8], b: &[u8]) -> (r: bool)
    ensures
        r == (a@ == b@),
{
    if a.len() != b.len() {
        return false;
    }
    let mut i: usize = 0;
    while i < a.len()
        invariant
            i <= a@.len(),
            a@.len() == b@.len(),
            forall|k: int| 0 <= k < i ==> a@[k] == b@[k],
        decreases a@.len() - i,
    {
        if a[i] != b[i] {
            return false;
        }
        i += 1;
    }
    assert(a@ =~= b@);
    true
}

/// The text in lower case: what `str::to_lowercase` returns.
pub uninterp spec fn lowercased(text: Seq<char>) -> Seq<char>;

/// The text in upper case: what `str::to_uppercase` returns.
pub uninterp spec fn uppercased(text: Seq<char>) -> Seq<char>;

/// The text without the white space at its two ends: what `str::trim`
/// returns.
pub uninterp spec fn trimmed(text: Seq<char>) -> Seq<char>;

/// `str::to_lowercase` gives the text in lower case, as Unicode defines it.
pub assume_specification[ str::to_lowercase ](s: &str) -> (lower: String)
    ensures
        lower@ == lowercased(s@),
;

/// `str::to_uppercase` gives the text in upper case, as Unicode defines it.
pub assume_specification[ str::to_uppercase ](s: &str) -> (upper: String)
    ensures
        upper@ == uppercased(s@),
;

/// `str::trim` gives the text without the white space, as Unicode defines
/// it, at its two ends.
pub assume_specification[ str::trim ](s: &str) -> (inner: &str)
    ensures
        inner@ == trimmed(s@),
;

/// The characters of a string, in order.
pub fn to_chars(s: &str) -> (v: Vec<char>)
    ensures
        v@ == s@,
{
    let mut v: Vec<char> = Vec::new();
    for c in it: s.chars()
        invariant
            v@ == s@.subrange(0, it.index() as int),
            it.seq() == s@,
    {
        v.push(c);
    }
    v
}

/// The string made of the characters `chars[from..to]`.
pub fn from_chars(chars: &[char], from: usize, to: usize) -> (s: String)
    requires
        from <= to <= chars@.len(),
    ensures
        s@ == chars@.subrange(from as int, to as int),
{
    let mut s = String::new();
    let mut i: usize = from;
    while i < to
        invariant
            from <= i <= to <= chars@.len(),
            s@ == chars@.subrange(from as int, i as int),
        decreases to - i,
    {
        s.push(chars[i]);
        i += 1;
        assert(s@ =~= chars@.subrange(from as int, i as int));
    }
    s
}

/// Whether two strings hold the same characters.
pub fn str_eq(a: &str, b: &str) -> (r: bool)
    ensures
        r == (a@ == b@),
{
    let x = a.to_owned();
    let y = b.to_owned();
    x == y
}

/// A copy of an optional string.
pub fn clone_opt(o: &Option<String>) -> (r: Option<String>)
    ensures
        opt_text(r) == opt_text(*o),
{
    match o {
        Some(s) => Some(s.clone()),
        None => None,
    }
}

/// The characters of an optional string.
pub open spec fn opt_text(o: Option<String>) -> Option<Seq<char>> {
    match o {
        Some(s) => Some(s@),
        None => None,
    }
}

/// `needle` stands in `hay` at position `at`.
pub open spec fn occurs_at(hay: Seq<char>, needle: Seq<char>, at: int) -> bool {
    &&& 0 <= at
    &&& at + needle.len() <= hay.len()
    &&& hay.subrange(at, at + needle.len()) == needle
}

/// `needle` stands somewhere in `hay`. The empty needle stands in every text.
pub open spec fn contains(hay: Seq<char>, needle: Seq<char>) -> bool {
    exists|at: int| occurs_at(hay, needle, at)
}

/// Whether `needle` stands in `hay` at position `at`.
pub fn check_occurs_at(hay: &[char], needle: &[char], at: usize) -> (r: bool)
    ensures
        r == occurs_at(hay@, needle@, at as int),
{
    if needle.len() > hay.len() || at > hay.len() - needle.len() {
        return false;
    }
    let mut j: usize = 0;
    while j < needle.len()
        invariant
            j <= needle@.len(),
            at + needle@.len() <= hay@.len() <= usize::MAX,
            forall|k: int| 0 <= k < j ==> hay@[at + k] == needle@[k],
        decreases needle@.len() - j,
    {
        if hay[at + j] != needle[j] {
            assert(hay@.subrange(at as int, at + needle@.len())[j as int] != needle@[j as int]);
            return false;
        }
        j += 1;
    }
    assert(hay@.subrange(at as int, at + needle@.len()) =~= needle@);
    true
}

/// Whether `needle` stands somewhere in `hay`.
pub fn check_contains(hay: &[char], needle: &[char]) -> (r: bool)
    ensures
        r == contains(hay@, needle@),
{
    if needle.len() > hay.len() {
        return false;
    }
    let last = hay.len() - needle.len();
    let mut at: usize = 0;
    while at < last
        invariant
            at <= last,
            last == hay@.len() - needle@.len(),
            forall|k: int| 0 <= k < at ==> !occurs_at(hay@, needle@, k),
        decreases last - at,
    {
        if check_occurs_at(hay, needle, at) {
            return true;
        }
        at += 1;
    }
    check_occurs_at(hay, needle, last)
}

/// Whether `pattern[i..]` matches `text[j..]`, where `*` in the pattern
/// stands for any run of characters, the empty one too, and every other
/// character for itself.
pub open spec fn glob_from(pattern: Seq<char>, text: Seq<char>, i: int, j: int) -> bool
    decreases pattern.len() - i, text.len() - j,
{
    if i < 0 || j < 0 || i > pattern.len() || j > text.len() {
        false
    } else if i == pattern.len() {
        j == text.len()
    } else if pattern[i] == '*' {
        glob_from(pattern, text, i + 1, j) || (j < text.len() && glob_from(pattern, text, i, j + 1))
    } else {
        j < text.len() && text[j] == pattern[i] && glob_from(pattern, text, i + 1, j + 1)
    }
}

/// Whether the whole of `text` matches `pattern`.
pub open spec fn glob_matches(pattern: Seq<char>, text: Seq<char>) -> bool {
    glob_from(pattern, text, 0, 0)
}

/// Whether the whole of `text` matches `pattern`, in time proportional to the
/// product of the two lengths.
pub fn check_glob(pattern: &[char], text: &[char]) -> (r: bool)
    ensures
        r == glob_matches(pattern@, text@),
{
    let plen = pattern.len();
    let tlen = text.len();
    // below[j] says whether pattern[i..] matches text[j..], and below_end
    // whether it matches the empty rest of the text
    let mut below: Vec<bool> = Vec::new();
    let mut below_end: bool = true;
    let mut j: usize = 0;
    while j < tlen
        invariant
            j <= tlen,
            tlen == text@.len(),
            plen == pattern@.len(),
            below@.len() == j,
            forall|k: int| 0 <= k < j ==> below@[k] == glob_from(pattern@, text@, plen as int, k),
        decreases tlen - j,
    {
        below.push(false);
        j += 1;
    }
    let mut i: usize = plen;
    while i > 0
        invariant
            i <= plen,
            tlen == text@.len(),
            plen == pattern@.len(),
            below@.len() == tlen,
            below_end == glob_from(pattern@, text@, i as int, tlen as int),
            forall|k: int| 0 <= k < tlen ==> below@[k] == glob_from(pattern@, text@, i as int, k),
        decreases i,
    {
        i -= 1;
        let star = pattern[i] == '*';
        let row_end = star && below_end;
        // back[n] is the entry for the position tlen - 1 - n of the text
        let mut back: Vec<bool> = Vec::new();
        let mut n: usize = 0;
        while n < tlen
            invariant
                n <= tlen,
                i < plen,
                tlen == text@.len(),
                plen == pattern@.len(),
                star == (pattern@[i as int] == '*'),
                below@.len() == tlen,
                back@.len() == n,
                below_end == glob_from(pattern@, text@, i + 1, tlen as int),
                row_end == glob_from(pattern@, text@, i as int, tlen as int),
                forall|k: int|
                    0 <= k < tlen ==> below@[k] == glob_from(pattern@, text@, i + 1, k),
                forall|k: int|
                    0 <= k < n ==> back@[k] == glob_from(pattern@, text@, i as int, tlen - 1 - k),
            decreases tlen - n,
        {
            let at = tlen - 1 - n;
            let here = if star {
                let after = if n == 0 {
                    row_end
                } else {
                    back[n - 1]
                };
                below[at] || after
            } else {
                let after = if n == 0 {
                    below_end
                } else {
                    below[at + 1]
                };
                text[at] == pattern[i] && after
            };
            back.push(here);
            n += 1;
        }
        let mut row: Vec<bool> = Vec::new();
        let mut m: usize = 0;
        while m < tlen
            invariant
                m <= tlen,
                tlen == text@.len(),
                back@.len() == tlen,
                row@.len() == m,
                forall|k: int|
                    0 <= k < tlen ==> back@[k] == glob_from(pattern@, text@, i as int, tlen - 1 - k),
                forall|k: int| 0 <= k < m ==> row@[k] == glob_from(pattern@, text@, i as int, k),
            decreases tlen - m,
        {
            row.push(back[tlen - 1 - m]);
            m += 1;
        }
        below = row;
        below_end = row_end;
    }
    if tlen == 0 {
        below_end
    } else {
        below[0]
    }
}

/// A pattern that ends in its only `*` matches exactly the texts that begin
/// with what stands before the `*`.
pub proof fn lemma_glob_prefix(prefix: Seq<char>, text: Seq<char>)
    requires
        forall|k: int| 0 <= k < prefix.len() ==> prefix[k] != '*',
    ensures
        glob_matches(prefix.push('*'), text) == prefix.is_prefix_of(text),
{
    let pattern = prefix.push('*');
    lemma_glob_all(pattern, text, prefix.len() as int, 0);
    if prefix.len() <= text.len() {
        lemma_glob_all(pattern, text, prefix.len() as int, prefix.len() as int);
    }
    lemma_glob_literal(pattern, text, 0, prefix.len() as int);
    if prefix.is_prefix_of(text) {
        assert forall|k: int| 0 <= k < prefix.len() implies text[k] == pattern[k] by {
            assert(text.subrange(0, prefix.len() as int)[k] == prefix[k]);
        }
    } else if prefix.len() <= text.len() {
        if forall|k: int| 0 <= k < prefix.len() ==> text[k] == pattern[k] {
            assert(text.subrange(0, prefix.len() as int) =~= prefix);
        }
    }
}

/// A pattern without `*` matches itself and nothing else.
pub proof fn lemma_glob_exact(pattern: Seq<char>, text: Seq<char>)
    requires
        forall|k: int| 0 <= k < pattern.len() ==> pattern[k] != '*',
    ensures
        glob_matches(pattern, text) == (text == pattern),
{
    lemma_glob_literal(pattern, text, 0, pattern.len() as int);
    if glob_matches(pattern, text) {
        assert(text =~= pattern);
    }
}

/// A final `*` matches whatever is left of the text.
pub proof fn lemma_glob_all(pattern: Seq<char>, text: Seq<char>, i: int, j: int)
    requires
        i == pattern.len() - 1,
        0 <= i,
        pattern[i] == '*',
        0 <= j <= text.len(),
    ensures
        glob_from(pattern, text, i, j),
    decreases text.len() - j,
{
    if j < text.len() {
        lemma_glob_all(pattern, text, i, j + 1);
    } else {
        assert(glob_from(pattern, text, i + 1, j));
    }
}

/// Characters other than `*` match themselves, one for one: `pattern[i..]`
/// matches `text[i..]`, where `pattern[i..upto]` holds no `*`, exactly when
/// the text agrees on those characters and `pattern[upto..]` matches the rest.
pub proof fn lemma_glob_literal(pattern: Seq<char>, text: Seq<char>, i: int, upto: int)
    requires
        0 <= i <= upto <= pattern.len(),
        forall|k: int| i <= k < upto ==> pattern[k] != '*',
    ensures
        glob_from(pattern, text, i, i) == {
            &&& upto <= text.len()
            &&& forall|k: int| i <= k < upto ==> text[k] == pattern[k]
            &&& glob_from(pattern, text, upto, upto)
        },
    decreases upto - i,
{
    if i < upto {
        lemma_glob_literal(pattern, text, i + 1, upto);
        if i < text.len() && text[i] == pattern[i] {
            assert(glob_from(pattern, text, i, i) == glob_from(pattern, text, i + 1, i + 1));
        } else {
            assert(!glob_from(pattern, text, i, i));
        }
    } else {
        if i > text.len() {
            assert(!glob_from(pattern, text, i, i));
        }
    }
}

/// The hexadecimal digit, in lower case, of a number below 16.
pub open spec fn hex_digit(n: int) -> char {
    if n == 0 {
        '0'
    } else if n == 1 {
        '1'
    } else if n == 2 {
        '2'
    } else if n == 3 {
        '3'
    } else if n == 4 {
        '4'
    } else if n == 5 {
        '5'
    } else if n == 6 {
        '6'
    } else if n == 7 {
        '7'
    } else if n == 8 {
        '8'
    } else if n == 9 {
        '9'
    } else if n == 10 {
        'a'
    } else if n == 11 {
        'b'
    } else if n == 12 {
        'c'
    } else if n == 13 {
        'd'
    } else if n == 14 {
        'e'
    } else {
        'f'
    }
}

/// The bytes written in hexadecimal, two lower-case digits for each.
pub open spec fn hex_text(bytes: Seq<u8>) -> Seq<char> {
    Seq::new(
        2 * bytes.len(),
        |i: int|
            if i % 2 == 0 {
                hex_digit(bytes[i / 2] as int / 16)
            } else {
                hex_digit(bytes[i / 2] as int % 16)
            },
    )
}

/// The hexadecimal digit of a number below 16.
pub fn hex_digit_of(n: u8) -> (c: char)
    requires
        n < 16,
    ensures
        c == hex_digit(n as int),
{
    match n {
        0 => '0',
        1 => '1',
        2 => '2',
        3 => '3',
        4 => '4',
        5 => '5',
        6 => '6',
        7 => '7',
        8 => '8',
        9 => '9',
        10 => 'a',
        11 => 'b',
        12 => 'c',
        13 => 'd',
        14 => 'e',
        _ => 'f',
    }
}

/// The bytes written in hexadecimal.
pub fn hex_encode(bytes: &[u8]) -> (s: String)
    ensures
        s@ == hex_text(bytes@),
{
    let mut s = String::new();
    let mut i: usize = 0;
    while i < bytes.len()
        invariant
            i <= bytes@.len(),
            s@ == hex_text(bytes@.subrange(0, i as int)),
        decreases bytes@.len() - i,
    {
        let b = bytes[i];
        s.push(hex_digit_of(b / 16));
        s.push(hex_digit_of(b % 16));
        i += 1;
        assert(s@ =~= hex_text(bytes@.subrange(0, i as int)));
    }
    assert(bytes@.subrange(0, i as int) =~= bytes@);
    s
}

/// Two byte strings with the same hexadecimal text are the same.
pub proof fn lemma_hex_text_injective(a: Seq<u8>, b: Seq<u8>)
    requires
        hex_text(a) == hex_text(b),
    ensures
        a == b,
{
    assert(hex_text(a).len() == 2 * a.len());
    assert(hex_text(b).len() == 2 * b.len());
    assert forall|k: int| 0 <= k < a.len() implies a[k] == b[k] by {
        assert((2 * k) % 2 == 0 && (2 * k) / 2 == k);
        assert((2 * k + 1) % 2 == 1 && (2 * k + 1) / 2 == k);
        assert(hex_text(a)[2 * k] == hex_digit(a[k] as int / 16));
        assert(hex_text(b)[2 * k] == hex_digit(b[k] as int / 16));
        assert(hex_text(a)[2 * k + 1] == hex_digit(a[k] as int % 16));
        assert(hex_text(b)[2 * k + 1] == hex_digit(b[k] as int % 16));
    }
    assert(a =~= b);
}

/// Whether a character is one of the ten digits.
pub open spec fn is_digit(c: char) -> bool {
    '0' <= c <= '9'
}

/// The number that a digit stands for.
pub open spec fn digit_value(c: char) -> nat {
    (c as u32 - '0' as u32) as nat
}

/// The digit of a number below ten.
pub open spec fn digit_char(n: nat) -> char {
    hex_digit(n as int)
}

/// Every character is a digit.
pub open spec fn all_digits(s: Seq<char>) -> bool {
    forall|i: int| 0 <= i < s.len() ==> is_digit(#[trigger] s[i])
}

/// The number that a run of digits stands for in base ten.
pub open spec fn digits_value(s: Seq<char>) -> nat
    decreases s.len(),
{
    if s.len() == 0 {
        0
    } else {
        digits_value(s.drop_last()) * 10 + digit_value(s.last())
    }
}

/// The number written in base ten, without a sign and without leading zeros.
pub open spec fn decimal_text(n: nat) -> Seq<char>
    decreases n,
{
    if n < 10 {
        seq![digit_char(n)]
    } else {
        decimal_text(n / 10).push(digit_char(n % 10))
    }
}

/// The number that a text stands for: one or more digits, after a `+` if
/// there is one, that give a number of at most 64 bits. Any other text
/// stands for no number.
pub open spec fn parsed_u64(s: Seq<char>) -> Option<u64> {
    parsed_digits(
        if s.len() > 0 && s[0] == '+' {
            s.drop_first()
        } else {
            s
        },
    )
}

/// The number that a run of digits stands for: `None` for the empty text,
/// for a text with anything but digits in it, and for a number of more than
/// 64 bits.
pub open spec fn parsed_digits(digits: Seq<char>) -> Option<u64> {
    if digits.len() > 0 && all_digits(digits) && digits_value(digits) <= u64::MAX {
        Some(digits_value(digits) as u64)
    } else {
        None
    }
}

/// The number that a text stands for: one or more digits, after a `+` or a
/// `-` if there is one, that give a number of at most 64 bits with its sign.
pub open spec fn parsed_i64(s: Seq<char>) -> Option<i64> {
    if s.len() > 0 && s[0] == '-' {
        match parsed_digits(s.drop_first()) {
            Some(m) => if m <= 0x8000_0000_0000_0000u64 {
                Some((-(m as int)) as i64)
            } else {
                None
            },
            None => None,
        }
    } else {
        match parsed_u64(s) {
            Some(m) => if m <= 0x7fff_ffff_ffff_ffffu64 {
                Some(m as i64)
            } else {
                None
            },
            None => None,
        }
    }
}

/// A longer run of digits stands for no smaller a number.
pub proof fn lemma_digits_value_grows(s: Seq<char>, k: int)
    requires
        0 <= k <= s.len(),
    ensures
        digits_value(s.take(k)) <= digits_value(s),
    decreases s.len() - k,
{
    if k < s.len() {
        lemma_digits_value_grows(s, k + 1);
        assert(s.take(k + 1).drop_last() =~= s.take(k));
    } else {
        assert(s.take(k) =~= s);
    }
}

/// The number that the digits `chars[from..to]` stand for.
pub fn parse_digits(chars: &[char], from: usize, to: usize) -> (r: Option<u64>)
    requires
        from <= to <= chars@.len(),
    ensures
        r == parsed_digits(chars@.subrange(from as int, to as int)),
{
    let ghost digits = chars@.subrange(from as int, to as int);
    if from == to {
        return None;
    }
    let mut value: u64 = 0;
    let mut i: usize = from;
    assert(digits.take(0) =~= Seq::<char>::empty());
    while i < to
        invariant
            from <= i <= to <= chars@.len(),
            from < to,
            digits == chars@.subrange(from as int, to as int),
            all_digits(digits.take(i - from)),
            value == digits_value(digits.take(i - from)),
        ensures
            i == to,
            all_digits(digits.take(i - from)),
            value == digits_value(digits.take(i - from)),
        decreases to - i,
    {
        let c = chars[i];
        let ghost upto = digits.take(i - from + 1);
        proof {
            assert(digits[i - from] == c);
            assert(upto.drop_last() =~= digits.take(i - from));
            assert(upto.last() == c);
            assert(digits_value(upto) == digits_value(digits.take(i - from)) * 10 + digit_value(
                c,
            ));
        }
        if !(c >= '0' && c <= '9') {
            assert(!is_digit(digits[i - from]));
            return None;
        }
        let d = (c as u32 - '0' as u32) as u64;
        let next = match value.checked_mul(10) {
            Some(tens) => tens.checked_add(d),
            None => None,
        };
        match next {
            Some(n) => {
                value = n;
            },
            None => {
                proof {
                    assert(digits_value(upto) > u64::MAX);
                    lemma_digits_value_grows(digits, i - from + 1);
                }
                return None;
            },
        }
        proof {
            assert forall|k: int| 0 <= k < upto.len() implies is_digit(#[trigger] upto[k]) by {
                if k < upto.len() - 1 {
                    assert(upto[k] == digits.take(i - from)[k]);
                }
            }
        }
        i += 1;
    }
    assert(digits.take(to - from) =~= digits);
    Some(value)
}

/// The number that the text `chars[from..to]` stands for.
pub fn parse_u64(chars: &[char], from: usize, to: usize) -> (r: Option<u64>)
    requires
        from <= to <= chars@.len(),
    ensures
        r == parsed_u64(chars@.subrange(from as int, to as int)),
{
    let ghost s = chars@.subrange(from as int, to as int);
    if from < to && chars[from] == '+' {
        assert(s[0] == '+');
        assert(s.drop_first() =~= chars@.subrange(from + 1, to as int));
        parse_digits(chars, from + 1, to)
    } else {
        if from < to {
            assert(s[0] == chars@[from as int]);
        }
        parse_digits(chars, from, to)
    }
}

/// The number with a sign that the text `chars[from..to]` stands for.
pub fn parse_i64(chars: &[char], from: usize, to: usize) -> (r: Option<i64>)
    requires
        from <= to <= chars@.len(),
    ensures
        r == parsed_i64(chars@.subrange(from as int, to as int)),
{
    let ghost s = chars@.subrange(from as int, to as int);
    if from < to && chars[from] == '-' {
        assert(s[0] == '-');
        assert(s.drop_first() =~= chars@.subrange(from + 1, to as int));
        match parse_digits(chars, from + 1, to) {
            Some(m) => {
                if m < 0x8000_0000_0000_0000u64 {
                    Some(-(m as i64))
                } else if m == 0x8000_0000_0000_0000u64 {
                    Some(i64::MIN)
                } else {
                    None
                }
            },
            None => None,
        }
    } else {
        if from < to {
            assert(s[0] == chars@[from as int]);
        }
        match parse_u64(chars, from, to) {
            Some(m) => {
                if m <= 0x7fff_ffff_ffff_ffffu64 {
                    Some(m as i64)
                } else {
                    None
                }
            },
            None => None,
        }
    }
}

/// The number written in base ten.
pub fn render_u64(n: u64) -> (s: String)
    ensures
        s@ == decimal_text(n as nat),
{
    // the digits, the last one first
    let mut digits: Vec<char> = Vec::new();
    let mut rest = n;
    digits.push(hex_digit_of((rest % 10) as u8));
    rest = rest / 10;
    proof {
        assert(digits@.reverse() =~= seq![digit_char((n % 10) as nat)]);
    }
    while rest > 0
        invariant
            digits@.len() > 0,
            decimal_text(n as nat) == (if rest > 0 {
                decimal_text(rest as nat)
            } else {
                Seq::empty()
            }) + digits@.reverse(),
        decreases rest,
    {
        let ghost before = digits@;
        digits.push(hex_digit_of((rest % 10) as u8));
        proof {
            assert(digits@.reverse() =~= seq![digit_char((rest % 10) as nat)] + before.reverse());
            if rest >= 10 {
                assert(decimal_text(rest as nat) =~= decimal_text((rest / 10) as nat) + seq![
                    digit_char((rest % 10) as nat),
                ]);
            }
        }
        rest = rest / 10;
    }
    let mut s = String::new();
    let mut i: usize = digits.len();
    while i > 0
        invariant
            i <= digits@.len(),
            s@ == digits@.reverse().take(digits@.len() - i),
        decreases i,
    {
        i -= 1;
        s.push(digits[i]);
        assert(s@ =~= digits@.reverse().take(digits@.len() - i));
    }
    assert(digits@.reverse().take(digits@.len() as int) =~= digits@.reverse());
    s
}

/// The digit of a number below ten is a digit and stands for that number.
pub proof fn lemma_digit_char(n: nat)
    requires
        n < 10,
    ensures
        is_digit(digit_char(n)),
        digit_value(digit_char(n)) == n,
{
}

/// A number written in base ten is made of digits and reads back as itself.
pub proof fn lemma_decimal_round_trip(n: nat)
    ensures
        decimal_text(n).len() > 0,
        all_digits(decimal_text(n)),
        digits_value(decimal_text(n)) == n,
        n <= u64::MAX ==> parsed_u64(decimal_text(n)) == Some(n as u64),
    decreases n,
{
    let text = decimal_text(n);
    if n >= 10 {
        lemma_decimal_round_trip(n / 10);
        let head = decimal_text(n / 10);
        lemma_digit_char(n % 10);
        assert(text.drop_last() =~= head);
        assert(text.last() == digit_char(n % 10));
        assert forall|i: int| 0 <= i < text.len() implies is_digit(#[trigger] text[i]) by {
            if i < head.len() {
                assert(text[i] == head[i]);
            }
        }
        assert(digits_value(text) == digits_value(head) * 10 + digit_value(text.last()));
    } else {
        lemma_digit_char(n);
        assert(text.drop_last() =~= Seq::<char>::empty());
        assert(digits_value(text.drop_last()) == 0);
        assert(digits_value(text) == digits_value(text.drop_last()) * 10 + digit_value(
            text.last(),
        ));
    }
    assert(is_digit(text[0]));
    assert(text[0] != '+');
}

/// Where the line that begins at `from` ends: at the next line feed, or at
/// the end of the text.
pub open spec fn line_end(text: Seq<char>, from: int) -> int
    decreases text.len() - from,
{
    if from < 0 || from >= text.len() {
        text.len() as int
    } else if text[from] == '\n' {
        from
    } else {
        line_end(text, from + 1)
    }
}

/// The line that begins at `from`, without the line feed that ends it and
/// without a carriage return before that line feed.
pub open spec fn line_at(text: Seq<char>, from: int) -> Seq<char> {
    let end = line_end(text, from);
    if end < text.len() && from < end && text[end - 1] == '\r' {
        text.subrange(from, end - 1)
    } else {
        text.subrange(from, end)
    }
}

/// Where the line after the one that begins at `from` begins.
pub open spec fn next_line(text: Seq<char>, from: int) -> int {
    let end = line_end(text, from);
    if end < text.len() {
        end + 1
    } else {
        end
    }
}

/// Where the line that begins at `from` ends.
pub fn find_line_end(chars: &[char], from: usize) -> (end: usize)
    requires
        from <= chars@.len(),
    ensures
        end == line_end(chars@, from as int),
        from <= end <= chars@.len(),
{
    let mut at: usize = from;
    while at < chars.len() && chars[at] != '\n'
        invariant
            from <= at <= chars@.len(),
            line_end(chars@, from as int) == line_end(chars@, at as int),
        decreases chars@.len() - at,
    {
        at += 1;
    }
    at
}

/// The bounds of the line that begins at `from`, and where the next begins.
pub fn read_line(chars: &[char], from: usize) -> (r: (usize, usize))
    requires
        from <= chars@.len(),
    ensures
        from <= r.0 <= r.1 <= chars@.len(),
        from < chars@.len() ==> from < r.1,
        chars@.subrange(from as int, r.0 as int) == line_at(chars@, from as int),
        r.1 == next_line(chars@, from as int),
{
    let end = find_line_end(chars, from);
    let stop = if end < chars.len() && from < end && chars[end - 1] == '\r' {
        end - 1
    } else {
        end
    };
    let next = if end < chars.len() {
        end + 1
    } else {
        end
    };
    (stop, next)
}

/// A stretch of text without a line feed, up to a line feed or the end of
/// the text, is a line.
pub proof fn lemma_line_end(text: Seq<char>, from: int, end: int)
    requires
        0 <= from <= end <= text.len(),
        forall|k: int| from <= k < end ==> text[k] != '\n',
        end == text.len() || text[end] == '\n',
    ensures
        line_end(text, from) == end,
    decreases end - from,
{
    if from < end {
        lemma_line_end(text, from + 1, end);
    }
}

} // verus!
