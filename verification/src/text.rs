//! Plain text: splitting, trimming, joining and decimal numbers.

use vstd::prelude::*;

verus! {

broadcast use vstd::string::group_string_axioms;

/// How many characters of `s` come before the first `c`; all of them where `c` does not occur.
pub open spec fn find(s: Seq<char>, c: char) -> nat
    decreases s.len(),
{
    if s.len() == 0 || s[0] == c {
        0
    } else {
        1 + find(s.drop_first(), c)
    }
}

/// The pieces of `s` between the occurrences of `sep`.
pub open spec fn split(s: Seq<char>, sep: char) -> Seq<Seq<char>>
    decreases s.len(),
{
    let i = find(s, sep) as int;
    if i >= s.len() {
        seq![s]
    } else {
        seq![s.take(i)] + split(s.skip(i + 1), sep)
    }
}

/// `s` without the characters at its front that satisfy `p`.
pub open spec fn trim_front(s: Seq<char>, p: spec_fn(char) -> bool) -> Seq<char>
    decreases s.len(),
{
    if s.len() > 0 && p(s[0]) {
        trim_front(s.drop_first(), p)
    } else {
        s
    }
}

/// `s` without the characters at its end that satisfy `p`.
pub open spec fn trim_back(s: Seq<char>, p: spec_fn(char) -> bool) -> Seq<char>
    decreases s.len(),
{
    if s.len() > 0 && p(s.last()) {
        trim_back(s.drop_last(), p)
    } else {
        s
    }
}

/// The characters with the Unicode property `White_Space`.
pub open spec fn white_space(c: char) -> bool {
    ||| '\u{9}' <= c <= '\u{d}'
    ||| c == ' '
    ||| c == '\u{85}'
    ||| c == '\u{a0}'
    ||| c == '\u{1680}'
    ||| '\u{2000}' <= c <= '\u{200a}'
    ||| c == '\u{2028}'
    ||| c == '\u{2029}'
    ||| c == '\u{202f}'
    ||| c == '\u{205f}'
    ||| c == '\u{3000}'
}

/// `s` without the white space at both ends.
pub open spec fn trimmed(s: Seq<char>) -> Seq<char> {
    trim_back(trim_front(s, |c: char| white_space(c)), |c: char| white_space(c))
}

/// The parts in order, with `sep` between each two of them.
pub open spec fn joined(parts: Seq<Seq<char>>, sep: Seq<char>) -> Seq<char>
    decreases parts.len(),
{
    if parts.len() == 0 {
        seq![]
    } else if parts.len() == 1 {
        parts[0]
    } else {
        joined(parts.drop_last(), sep) + sep + parts.last()
    }
}

/// The texts of a sequence of strings.
pub open spec fn texts(strings: Seq<String>) -> Seq<Seq<char>> {
    strings.map_values(|s: String| s@)
}

/// The decimal digit of `d`, for `d` below ten.
pub open spec fn digit(d: nat) -> char {
    (d + 48) as char
}

pub open spec fn is_digit(c: char) -> bool {
    '0' <= c <= '9'
}

/// The shortest decimal numeral of `n`.
pub open spec fn decimal(n: nat) -> Seq<char>
    decreases n,
{
    if n < 10 {
        seq![digit(n)]
    } else {
        decimal(n / 10).push(digit(n % 10))
    }
}

/// The decimal numeral of `n`, with a minus sign where it is negative.
pub open spec fn signed_decimal(n: int) -> Seq<char> {
    if n < 0 {
        seq!['-'] + decimal((-n) as nat)
    } else {
        decimal(n as nat)
    }
}

pub open spec fn all_digits(s: Seq<char>) -> bool {
    forall|i: int| 0 <= i < s.len() ==> is_digit(#[trigger] s[i])
}

/// The number that a sequence of decimal digits stands for.
pub open spec fn number(s: Seq<char>) -> nat
    decreases s.len(),
{
    if s.len() == 0 {
        0
    } else {
        10 * number(s.drop_last()) + (s.last() as nat - 48) as nat
    }
}

/// A numeral without its leading plus sign.
pub open spec fn unsigned_part(s: Seq<char>) -> Seq<char> {
    if s.len() > 0 && s[0] == '+' {
        s.drop_first()
    } else {
        s
    }
}

/// The number written as an optional plus sign and at least one digit, where it is at most `max`.
pub open spec fn parse_unsigned(s: Seq<char>, max: nat) -> Option<nat> {
    let digits = unsigned_part(s);
    if digits.len() > 0 && all_digits(digits) && number(digits) <= max {
        Some(number(digits))
    } else {
        None
    }
}

/// The number written as an optional sign and at least one digit, where it lies between
/// `-max - 1` and `max`.
pub open spec fn parse_signed(s: Seq<char>, max: nat) -> Option<int> {
    if s.len() > 0 && s[0] == '-' {
        let digits = s.drop_first();
        if digits.len() > 0 && all_digits(digits) && number(digits) <= max + 1 {
            Some(-(number(digits) as int))
        } else {
            None
        }
    } else {
        match parse_unsigned(s, max) {
            Some(n) => Some(n as int),
            None => None,
        }
    }
}

/// The characters of `s`.
pub fn chars_of(s: &str) -> (chars: Vec<char>)
    ensures
        chars@ == s@,
{
    let mut chars: Vec<char> = Vec::new();
    for c in it: s.chars()
        invariant
            it.seq() == s@,
            chars@ == s@.take(it.index()),
    {
        chars.push(c);
    }
    chars
}

/// Whether two texts are the same.
pub fn same(a: &str, b: &str) -> (r: bool)
    ensures
        r == (a@ == b@),
{
    let left = chars_of(a);
    let right = chars_of(b);
    if left.len() != right.len() {
        return false;
    }
    for i in 0..left.len()
        invariant
            left@ == a@,
            right@ == b@,
            a@.len() == b@.len(),
            forall|j: int| 0 <= j < i ==> a@[j] == b@[j],
    {
        if left[i] != right[i] {
            return false;
        }
    }
    assert(a@ =~= b@);
    true
}

/// Whether `s` begins with `prefix`; what follows the prefix where it does.
pub fn strip_prefix<'a>(s: &'a str, prefix: &str) -> (rest: Option<&'a str>)
    ensures
        rest is Some <==> prefix@.is_prefix_of(s@),
        rest matches Some(r) ==> r@ == s@.skip(prefix@.len() as int),
{
    let chars = chars_of(s);
    let wanted = chars_of(prefix);
    if wanted.len() > chars.len() {
        return None;
    }
    for i in 0..wanted.len()
        invariant
            chars@ == s@,
            wanted@ == prefix@,
            prefix@.len() <= s@.len(),
            forall|j: int| 0 <= j < i ==> s@[j] == prefix@[j],
    {
        if chars[i] != wanted[i] {
            assert(s@.take(prefix@.len() as int)[i as int] == s@[i as int]);
            return None;
        }
    }
    assert(prefix@ =~= s@.take(prefix@.len() as int));
    let rest = s.substring_char(wanted.len(), chars.len());
    assert(rest@ =~= s@.skip(prefix@.len() as int));
    Some(rest)
}

proof fn lemma_find(s: Seq<char>, c: char)
    ensures
        find(s, c) <= s.len(),
        forall|j: int| 0 <= j < find(s, c) ==> s[j] != c,
        find(s, c) < s.len() ==> s[find(s, c) as int] == c,
    decreases s.len(),
{
    if s.len() > 0 && s[0] != c {
        let rest = s.drop_first();
        lemma_find(rest, c);
        assert forall|j: int| 0 <= j < find(s, c) implies s[j] != c by {
            if j > 0 {
                assert(s[j] == rest[j - 1]);
            }
        }
    }
}

proof fn lemma_find_is(s: Seq<char>, c: char, i: int)
    requires
        0 <= i <= s.len(),
        forall|j: int| 0 <= j < i ==> s[j] != c,
        i < s.len() ==> s[i] == c,
    ensures
        find(s, c) == i,
{
    lemma_find(s, c);
}

/// The pieces of `s` between the occurrences of `sep`.
pub fn split_text<'a>(s: &'a str, sep: char) -> (pieces: Vec<&'a str>)
    ensures
        pieces@.map_values(|p: &str| p@) == split(s@, sep),
{
    let chars = chars_of(s);
    let mut pieces: Vec<&'a str> = Vec::new();
    let mut start: usize = 0;
    let mut i: usize = 0;
    let ghost all = split(s@, sep);
    assert(s@.skip(0) =~= s@);
    assert(pieces@.map_values(|p: &str| p@) + split(s@, sep) =~= all);
    while i < chars.len()
        invariant
            chars@ == s@,
            start <= i <= s@.len(),
            forall|j: int| start <= j < i ==> s@[j] != sep,
            all == split(s@, sep),
            pieces@.map_values(|p: &str| p@) + split(s@.skip(start as int), sep) == all,
        decreases s@.len() - i,
    {
        if chars[i] == sep {
            let ghost rest = s@.skip(start as int);
            let ghost before = pieces@.map_values(|p: &str| p@);
            let piece = s.substring_char(start, i);
            proof {
                lemma_find_is(rest, sep, i - start);
                assert(piece@ =~= rest.take(i - start));
                assert(rest.skip(i - start + 1) =~= s@.skip(i + 1));
            }
            pieces.push(piece);
            proof {
                assert(pieces@.map_values(|p: &str| p@) =~= before.push(piece@));
                assert(before.push(piece@) + split(s@.skip(i + 1), sep) =~= before + (seq![piece@]
                    + split(s@.skip(i + 1), sep)));
            }
            start = i + 1;
        }
        i = i + 1;
    }
    let ghost rest = s@.skip(start as int);
    let ghost before = pieces@.map_values(|p: &str| p@);
    let piece = s.substring_char(start, chars.len());
    proof {
        lemma_find_is(rest, sep, rest.len() as int);
        assert(piece@ =~= rest);
    }
    pieces.push(piece);
    assert(pieces@.map_values(|p: &str| p@) =~= before + seq![piece@]);
    pieces
}

/// Whether `c` has the Unicode property `White_Space`.
pub fn is_white_space(c: char) -> (r: bool)
    ensures
        r == white_space(c),
{
    ('\u{9}' <= c && c <= '\u{d}') || c == ' ' || c == '\u{85}' || c == '\u{a0}' || c == '\u{1680}'
        || ('\u{2000}' <= c && c <= '\u{200a}') || c == '\u{2028}' || c == '\u{2029}' || c
        == '\u{202f}' || c == '\u{205f}' || c == '\u{3000}'
}

proof fn lemma_trim_front(s: Seq<char>, p: spec_fn(char) -> bool, i: int)
    requires
        0 <= i <= s.len(),
        forall|j: int| 0 <= j < i ==> p(s[j]),
        i < s.len() ==> !p(s[i]),
    ensures
        trim_front(s, p) == s.skip(i),
    decreases i,
{
    if i == 0 {
        assert(s.skip(0) =~= s);
    } else {
        let rest = s.drop_first();
        assert forall|j: int| 0 <= j < i - 1 implies p(rest[j]) by {
            assert(rest[j] == s[j + 1]);
        }
        lemma_trim_front(rest, p, i - 1);
        assert(rest.skip(i - 1) =~= s.skip(i));
    }
}

proof fn lemma_trim_back(s: Seq<char>, p: spec_fn(char) -> bool, i: int)
    requires
        0 <= i <= s.len(),
        forall|j: int| i <= j < s.len() ==> p(s[j]),
        i > 0 ==> !p(s[i - 1]),
    ensures
        trim_back(s, p) == s.take(i),
    decreases s.len() - i,
{
    if i == s.len() {
        assert(s.take(i) =~= s);
    } else {
        let rest = s.drop_last();
        assert forall|j: int| i <= j < rest.len() implies p(rest[j]) by {
            assert(rest[j] == s[j]);
        }
        lemma_trim_back(rest, p, i);
        assert(rest.take(i) =~= s.take(i));
    }
}

/// `s` without the white space at both ends.
pub fn trim_text<'a>(s: &'a str) -> (r: &'a str)
    ensures
        r@ == trimmed(s@),
{
    let chars = chars_of(s);
    let ghost p = |c: char| white_space(c);
    let mut i: usize = 0;
    while i < chars.len() && is_white_space(chars[i])
        invariant
            chars@ == s@,
            i <= s@.len(),
            forall|j: int| 0 <= j < i ==> white_space(s@[j]),
        decreases s@.len() - i,
    {
        i = i + 1;
    }
    proof {
        lemma_trim_front(s@, p, i as int);
    }
    let ghost rest = s@.skip(i as int);
    let mut j: usize = chars.len();
    while j > i && is_white_space(chars[j - 1])
        invariant
            chars@ == s@,
            i <= j <= s@.len(),
            forall|k: int| j <= k < s@.len() ==> white_space(s@[k]),
        decreases j,
    {
        j = j - 1;
    }
    proof {
        lemma_trim_back(rest, p, j - i);
    }
    let r = s.substring_char(i, j);
    assert(r@ =~= rest.take(j - i));
    r
}

/// `s` without the characters at its front that are `c`.
pub fn trim_start_char<'a>(s: &'a str, c: char) -> (r: &'a str)
    ensures
        r@ == trim_front(s@, |x: char| x == c),
{
    let chars = chars_of(s);
    let mut i: usize = 0;
    while i < chars.len() && chars[i] == c
        invariant
            chars@ == s@,
            i <= s@.len(),
            forall|j: int| 0 <= j < i ==> s@[j] == c,
        decreases s@.len() - i,
    {
        i = i + 1;
    }
    proof {
        lemma_trim_front(s@, |x: char| x == c, i as int);
    }
    let r = s.substring_char(i, chars.len());
    assert(r@ =~= s@.skip(i as int));
    r
}

/// `s` without the characters at its end that are `c`.
pub fn trim_end_char<'a>(s: &'a str, c: char) -> (r: &'a str)
    ensures
        r@ == trim_back(s@, |x: char| x == c),
{
    let chars = chars_of(s);
    let mut i: usize = chars.len();
    while i > 0 && chars[i - 1] == c
        invariant
            chars@ == s@,
            i <= s@.len(),
            forall|j: int| i <= j < s@.len() ==> s@[j] == c,
        decreases i,
    {
        i = i - 1;
    }
    proof {
        lemma_trim_back(s@, |x: char| x == c, i as int);
    }
    let r = s.substring_char(0, i);
    assert(r@ =~= s@.take(i as int));
    r
}

/// The strings in order, with `sep` between each two of them.
pub fn join_text(parts: &Vec<String>, sep: &str) -> (r: String)
    ensures
        r@ == joined(texts(parts@), sep@),
{
    let mut r = String::new();
    let ghost all = texts(parts@);
    for i in 0..parts.len()
        invariant
            all == texts(parts@),
            r@ == joined(all.take(i as int), sep@),
    {
        assert(all.take(i + 1).drop_last() =~= all.take(i as int));
        assert(all.take(i + 1).last() == parts@[i as int]@);
        if i > 0 {
            r.append(sep);
        } else {
            assert(r@ =~= seq![]);
            assert(r@ + parts@[0]@ =~= parts@[0]@);
        }
        r.append(parts[i].as_str());
    }
    assert(all.take(parts@.len() as int) =~= all);
    r
}

fn digit_text(d: u64) -> (r: &'static str)
    requires
        d < 10,
    ensures
        r@ == seq![digit(d as nat)],
{
    proof {
        reveal_strlit("0");
        reveal_strlit("1");
        reveal_strlit("2");
        reveal_strlit("3");
        reveal_strlit("4");
        reveal_strlit("5");
        reveal_strlit("6");
        reveal_strlit("7");
        reveal_strlit("8");
        reveal_strlit("9");
    }
    let r: &'static str = if d == 0 {
        "0"
    } else if d == 1 {
        "1"
    } else if d == 2 {
        "2"
    } else if d == 3 {
        "3"
    } else if d == 4 {
        "4"
    } else if d == 5 {
        "5"
    } else if d == 6 {
        "6"
    } else if d == 7 {
        "7"
    } else if d == 8 {
        "8"
    } else {
        "9"
    };
    assert(r@ =~= seq![digit(d as nat)]);
    r
}

/// The shortest decimal numeral of `n`.
pub fn decimal_text(n: u64) -> (r: String)
    ensures
        r@ == decimal(n as nat),
    decreases n,
{
    if n < 10 {
        digit_text(n).to_owned()
    } else {
        let mut r = decimal_text(n / 10);
        let ghost front = r@;
        r.append(digit_text(n % 10));
        assert(r@ =~= front.push(digit((n % 10) as nat)));
        r
    }
}

/// The decimal numeral of `n`, with a minus sign where it is negative.
pub fn signed_decimal_text(n: i64) -> (r: String)
    ensures
        r@ == signed_decimal(n as int),
{
    if n < 0 {
        let mut r = "-".to_owned();
        let magnitude: u64 = (-(n + 1)) as u64 + 1;
        r.append(decimal_text(magnitude).as_str());
        proof {
            reveal_strlit("-");
            assert("-"@ =~= seq!['-']);
        }
        r
    } else {
        decimal_text(n as u64)
    }
}

proof fn lemma_number_grows(s: Seq<char>, i: int)
    requires
        0 <= i <= s.len(),
    ensures
        number(s.take(i)) <= number(s),
    decreases s.len(),
{
    if i < s.len() {
        lemma_number_grows(s.drop_last(), i);
        assert(s.drop_last().take(i) =~= s.take(i));
    } else {
        assert(s.take(i) =~= s);
    }
}

/// The number that the characters from `from` on stand for: at least one digit and nothing else,
/// and at most `max`.
fn parse_digits(chars: &Vec<char>, from: usize, max: u64) -> (r: Option<u64>)
    requires
        from <= chars@.len(),
    ensures
        ({
            let digits = chars@.skip(from as int);
            match r {
                Some(n) => digits.len() > 0 && all_digits(digits) && number(digits) <= max && n
                    == number(digits),
                None => !(digits.len() > 0 && all_digits(digits) && number(digits) <= max),
            }
        }),
{
    let ghost digits = chars@.skip(from as int);
    if from == chars.len() {
        return None;
    }
    let mut n: u64 = 0;
    let mut i: usize = from;
    while i < chars.len()
        invariant
            from <= i <= chars@.len(),
            digits == chars@.skip(from as int),
            forall|j: int| 0 <= j < i - from ==> is_digit(#[trigger] digits[j]),
            n == number(digits.take(i - from)),
            n <= max,
        decreases chars@.len() - i,
    {
        let c = chars[i];
        let ghost taken = digits.take(i - from + 1);
        proof {
            assert(digits[i - from] == c);
            assert(taken.drop_last() =~= digits.take(i - from));
            lemma_number_grows(digits, i - from + 1);
        }
        if c < '0' || c > '9' {
            return None;
        }
        let d: u64 = (c as u32 - 48) as u64;
        if d > max || n > (max - d) / 10 {
            return None;
        }
        n = n * 10 + d;
        i = i + 1;
    }
    assert(digits.take(digits.len() as int) =~= digits);
    Some(n)
}

/// A value that can be read from a text.
pub trait FromText: Sized {
    /// Whether reading `s` gives `r`, where `None` stands for a text that no value can be read from.
    spec fn reads_as(s: Seq<char>, r: Option<Self>) -> bool;

    fn from_text(s: &str) -> (r: Option<Self>)
        ensures
            Self::reads_as(s@, r),
    ;
}

impl FromText for usize {
    open spec fn reads_as(s: Seq<char>, r: Option<Self>) -> bool {
        match parse_unsigned(s, usize::MAX as nat) {
            Some(n) => r == Some(n as usize),
            None => r is None,
        }
    }

    fn from_text(s: &str) -> (r: Option<Self>) {
        let chars = chars_of(s);
        let from: usize = if chars.len() > 0 && chars[0] == '+' {
            1
        } else {
            0
        };
        assert(chars@.skip(from as int) =~= unsigned_part(s@));
        match parse_digits(&chars, from, usize::MAX as u64) {
            Some(n) => Some(n as usize),
            None => None,
        }
    }
}

impl FromText for i32 {
    open spec fn reads_as(s: Seq<char>, r: Option<Self>) -> bool {
        match parse_signed(s, i32::MAX as nat) {
            Some(n) => r == Some(n as i32),
            None => r is None,
        }
    }

    fn from_text(s: &str) -> (r: Option<Self>) {
        let chars = chars_of(s);
        if chars.len() > 0 && chars[0] == '-' {
            assert(chars@.skip(1) =~= s@.drop_first());
            match parse_digits(&chars, 1, 2147483648) {
                Some(n) => Some((-(n as i64)) as i32),
                None => None,
            }
        } else {
            let from: usize = if chars.len() > 0 && chars[0] == '+' {
                1
            } else {
                0
            };
            assert(chars@.skip(from as int) =~= unsigned_part(s@));
            match parse_digits(&chars, from, 2147483647) {
                Some(n) => Some(n as i32),
                None => None,
            }
        }
    }
}

impl FromText for String {
    open spec fn reads_as(s: Seq<char>, r: Option<Self>) -> bool {
        r matches Some(t) && t@ == s
    }

    fn from_text(s: &str) -> (r: Option<Self>) {
        Some(s.to_owned())
    }
}

/// Reading a decimal numeral gives back the number.
pub proof fn law_decimal_reads_back(n: nat, max: nat)
    requires
        n <= max,
    ensures
        parse_unsigned(decimal(n), max) == Some(n),
{
    lemma_decimal(n);
    assert(unsigned_part(decimal(n)) == decimal(n)) by {
        assert(is_digit(decimal(n)[0]));
    }
}

/// A decimal numeral has at least one character, only digits, and stands for its number.
pub proof fn lemma_decimal(n: nat)
    ensures
        decimal(n).len() > 0,
        all_digits(decimal(n)),
        number(decimal(n)) == n,
    decreases n,
{
    if n < 10 {
        let s = decimal(n);
        assert(s.drop_last() =~= seq![]);
        assert(number(s.drop_last()) == 0);
        assert(s.last() == digit(n));
    } else {
        lemma_decimal(n / 10);
        let s = decimal(n);
        assert(s.drop_last() =~= decimal(n / 10));
        assert(s.last() == digit(n % 10));
        assert forall|i: int| 0 <= i < s.len() implies is_digit(#[trigger] s[i]) by {
            if i < s.len() - 1 {
                assert(s[i] == decimal(n / 10)[i]);
            }
        }
    }
}

proof fn lemma_split_behind(a: Seq<char>, sep: char, b: Seq<char>)
    requires
        !b.contains(sep),
    ensures
        split(a + seq![sep] + b, sep) == split(a, sep).push(b),
    decreases a.len(),
{
    let whole = a + seq![sep] + b;
    let i = find(a, sep) as int;
    lemma_find(a, sep);
    assert(whole[a.len() as int] == sep);
    assert forall|j: int| 0 <= j < i implies whole[j] != sep by {
        assert(whole[j] == a[j]);
    }
    if i < a.len() {
        assert(whole[i] == a[i]);
        lemma_find_is(whole, sep, i);
        let rest = a.skip(i + 1);
        assert(whole.take(i) =~= a.take(i));
        assert(whole.skip(i + 1) =~= rest + seq![sep] + b);
        lemma_split_behind(rest, sep, b);
        assert(seq![a.take(i)] + split(rest, sep).push(b) =~= (seq![a.take(i)] + split(rest, sep)).push(
            b,
        ));
    } else {
        lemma_find_is(whole, sep, i);
        assert(whole.take(i) =~= a);
        assert(whole.skip(i + 1) =~= b);
        lemma_split_alone(b, sep);
        assert(seq![a] + seq![b] =~= seq![a].push(b));
    }
}

/// A text without the separator is its only piece.
pub proof fn lemma_split_alone(s: Seq<char>, sep: char)
    requires
        !s.contains(sep),
    ensures
        split(s, sep) == seq![s],
{
    lemma_find(s, sep);
    if find(s, sep) < s.len() {
        assert(s.contains(s[find(s, sep) as int]));
    }
}

/// Splitting two texts with the separator between them, of which the second does not hold the
/// separator.
pub proof fn lemma_split_two(a: Seq<char>, sep: char, b: Seq<char>)
    requires
        !a.contains(sep),
        !b.contains(sep),
    ensures
        split(a + seq![sep] + b, sep) == seq![a, b],
{
    lemma_split_behind(a, sep, b);
    lemma_split_alone(a, sep);
    assert(seq![a].push(b) =~= seq![a, b]);
}

/// The last piece of a text that ends in a separator and a text without it.
pub proof fn lemma_split_last(a: Seq<char>, sep: char, b: Seq<char>)
    requires
        !b.contains(sep),
    ensures
        split(a + seq![sep] + b, sep).last() == b,
{
    lemma_split_behind(a, sep, b);
}

/// Splitting joined texts gives the texts back, where there is at least one and none of them holds
/// the separator.
pub proof fn law_split_joined(parts: Seq<Seq<char>>, sep: char)
    requires
        parts.len() > 0,
        forall|i: int| 0 <= i < parts.len() ==> !(#[trigger] parts[i]).contains(sep),
    ensures
        split(joined(parts, seq![sep]), sep) == parts,
    decreases parts.len(),
{
    if parts.len() == 1 {
        lemma_split_alone(parts[0], sep);
        assert(seq![parts[0]] =~= parts);
    } else {
        let front = parts.drop_last();
        assert forall|i: int| 0 <= i < front.len() implies !(#[trigger] front[i]).contains(sep) by {
            assert(front[i] == parts[i]);
        }
        law_split_joined(front, sep);
        assert(!parts[parts.len() - 1].contains(sep));
        lemma_split_behind(joined(front, seq![sep]), sep, parts.last());
        assert(front.push(parts.last()) =~= parts);
    }
}

/// A text that neither begins nor ends with white space stays as it is.
pub proof fn lemma_trimmed_stays(s: Seq<char>)
    requires
        s.len() > 0,
        !white_space(s[0]),
        !white_space(s.last()),
    ensures
        trimmed(s) == s,
{
}

/// The characters of each of some texts stand in the texts joined.
pub proof fn lemma_joined_holds(parts: Seq<Seq<char>>, sep: Seq<char>, i: int, c: char)
    requires
        0 <= i < parts.len(),
        parts[i].contains(c),
    ensures
        joined(parts, sep).contains(c),
    decreases parts.len(),
{
    if parts.len() > 1 {
        let front = parts.drop_last();
        let head = joined(front, sep);
        let whole = joined(parts, sep);
        if i < front.len() {
            lemma_joined_holds(front, sep, i, c);
            let j = choose|j: int| 0 <= j < head.len() && head[j] == c;
            assert(whole[j] == c);
        } else {
            let j = choose|j: int| 0 <= j < parts[i].len() && parts[i][j] == c;
            assert(whole[head.len() + sep.len() + j] == c);
        }
    }
}

/// No piece of a text holds the separator, and each is made of characters of the text. Where there
/// are two pieces or more, the first is empty only if the text begins with the separator.
pub proof fn lemma_split_pieces(s: Seq<char>, sep: char)
    ensures
        split(s, sep).len() > 0,
        forall|i: int| 0 <= i < split(s, sep).len() ==> !(#[trigger] split(s, sep)[i]).contains(sep),
        forall|i: int, c: char|
            0 <= i < split(s, sep).len() && (#[trigger] split(s, sep)[i]).contains(c)
                ==> #[trigger] s.contains(c),
        split(s, sep)[0].is_prefix_of(s),
        s.len() > 0 && s[0] != sep ==> split(s, sep)[0].len() > 0,
    decreases s.len(),
{
    let i = find(s, sep) as int;
    lemma_find(s, sep);
    if i < s.len() {
        let rest = s.skip(i + 1);
        lemma_split_pieces(rest, sep);
        let pieces = split(s, sep);
        assert(pieces[0] == s.take(i));
        assert forall|k: int| 0 <= k < pieces.len() implies !(#[trigger] pieces[k]).contains(sep) by {
            if k > 0 {
                assert(pieces[k] == split(rest, sep)[k - 1]);
            }
        }
        assert forall|k: int, c: char|
            0 <= k < pieces.len() && (#[trigger] pieces[k]).contains(c) implies #[trigger] s.contains(
            c,
        ) by {
            if k > 0 {
                assert(pieces[k] == split(rest, sep)[k - 1]);
                assert(rest.contains(c));
                let j = choose|j: int| 0 <= j < rest.len() && rest[j] == c;
                assert(s[i + 1 + j] == c);
            } else {
                let j = choose|j: int| 0 <= j < s.take(i).len() && s.take(i)[j] == c;
                assert(s[j] == c);
            }
        }
    } else {
        assert(split(s, sep) =~= seq![s]);
    }
}

/// A trimmed text is made of characters of the text, and does not begin or end with white space.
pub proof fn lemma_trimmed(s: Seq<char>)
    ensures
        trimmed(s).len() > 0 ==> !white_space(trimmed(s)[0]) && !white_space(trimmed(s).last()),
        forall|c: char| #[trigger] trimmed(s).contains(c) ==> s.contains(c),
{
    let p = |c: char| white_space(c);
    let front = trim_front(s, p);
    lemma_front_part(s, p);
    lemma_back_part(front, p);
    assert forall|c: char| #[trigger] trimmed(s).contains(c) implies s.contains(c) by {
        assert(front.contains(c));
    }
}

/// Something is left of a text that does not end with white space.
pub proof fn lemma_trimmed_keeps(s: Seq<char>)
    requires
        s.len() > 0,
        !white_space(s.last()),
    ensures
        trimmed(s).len() > 0,
    decreases s.len(),
{
    if white_space(s[0]) {
        let rest = s.drop_first();
        assert(rest.last() == s.last());
        lemma_trimmed_keeps(rest);
    }
}

proof fn lemma_front_part(s: Seq<char>, p: spec_fn(char) -> bool)
    ensures
        trim_front(s, p).len() > 0 ==> !p(trim_front(s, p)[0]),
        forall|c: char| #[trigger] trim_front(s, p).contains(c) ==> s.contains(c),
    decreases s.len(),
{
    if s.len() > 0 && p(s[0]) {
        let rest = s.drop_first();
        lemma_front_part(rest, p);
        assert forall|c: char| #[trigger] trim_front(s, p).contains(c) implies s.contains(c) by {
            assert(rest.contains(c));
            let j = choose|j: int| 0 <= j < rest.len() && rest[j] == c;
            assert(s[j + 1] == c);
        }
    }
}

proof fn lemma_back_part(s: Seq<char>, p: spec_fn(char) -> bool)
    ensures
        trim_back(s, p).len() > 0 ==> !p(trim_back(s, p).last()) && trim_back(s, p)[0] == s[0],
        forall|c: char| #[trigger] trim_back(s, p).contains(c) ==> s.contains(c),
    decreases s.len(),
{
    if s.len() > 0 && p(s.last()) {
        let rest = s.drop_last();
        lemma_back_part(rest, p);
        assert forall|c: char| #[trigger] trim_back(s, p).contains(c) implies s.contains(c) by {
            assert(rest.contains(c));
            let j = choose|j: int| 0 <= j < rest.len() && rest[j] == c;
            assert(s[j] == c);
        }
    }
}

/// The pieces of two texts with the separator between them are the pieces of the first and then
/// those of the second.
pub proof fn law_split_in_two(a: Seq<char>, sep: char, b: Seq<char>)
    ensures
        split(a + seq![sep] + b, sep) == split(a, sep) + split(b, sep),
    decreases a.len(),
{
    let whole = a + seq![sep] + b;
    let i = find(a, sep) as int;
    lemma_find(a, sep);
    assert(whole[a.len() as int] == sep);
    assert forall|j: int| 0 <= j < i implies whole[j] != sep by {
        assert(whole[j] == a[j]);
    }
    if i < a.len() {
        assert(whole[i] == a[i]);
        lemma_find_is(whole, sep, i);
        let rest = a.skip(i + 1);
        assert(whole.skip(i + 1) =~= rest + seq![sep] + b);
        assert(whole.take(i) =~= a.take(i));
        law_split_in_two(rest, sep, b);
        assert(split(whole, sep) =~= split(a, sep) + split(b, sep));
    } else {
        lemma_find_is(whole, sep, i);
        assert(whole.take(i) =~= a);
        assert(whole.skip(i + 1) =~= b);
        assert(split(whole, sep) =~= split(a, sep) + split(b, sep));
    }
}

/// A text is the only piece of itself if and only if it does not hold the separator.
pub proof fn law_split_alone(s: Seq<char>, sep: char)
    ensures
        split(s, sep) == seq![s] <==> !s.contains(sep),
{
    lemma_split_pieces(s, sep);
    if !s.contains(sep) {
        lemma_split_alone(s, sep);
    } else if split(s, sep) == seq![s] {
        assert(split(s, sep)[0] == s);
    }
}

/// Two lists of texts that are joined one behind the other have the separator between them; one
/// text joined is that text, and no text is nothing.
pub proof fn law_joined_in_two(a: Seq<Seq<char>>, b: Seq<Seq<char>>, sep: Seq<char>, one: Seq<char>)
    ensures
        a.len() > 0 && b.len() > 0 ==> joined(a + b, sep) == joined(a, sep) + sep + joined(b, sep),
        joined(seq![one], sep) == one,
        joined(seq![], sep) == Seq::<char>::empty(),
    decreases b.len(),
{
    if a.len() > 0 && b.len() > 0 {
        let whole = a + b;
        if b.len() == 1 {
            assert(whole.drop_last() =~= a);
        } else {
            assert(whole.drop_last() =~= a + b.drop_last());
            law_joined_in_two(a, b.drop_last(), sep, one);
            assert(joined(whole, sep) =~= joined(a, sep) + sep + joined(b, sep));
        }
    }
}

/// All characters of a text satisfy a condition.
pub open spec fn all_are(s: Seq<char>, p: spec_fn(char) -> bool) -> bool {
    forall|i: int| 0 <= i < s.len() ==> p(#[trigger] s[i])
}

/// Of a text with unwanted characters at its front or at its end, the rest is left.
pub proof fn law_trims(a: Seq<char>, s: Seq<char>, b: Seq<char>, p: spec_fn(char) -> bool)
    requires
        all_are(a, p),
        all_are(b, p),
        s.len() > 0 ==> !p(s[0]) && !p(s.last()),
    ensures
        trim_front(a + s, p) == s,
        trim_back(s + b, p) == s,
        trim_back(trim_front(a + s + b, p), p) == s,
{
    let n = a.len() as int;
    assert forall|j: int| 0 <= j < n implies p((a + s)[j]) by {
        assert(p(a[j]));
    }
    lemma_trim_front(a + s, p, n);
    assert((a + s).skip(n) =~= s);
    let back = s + b;
    assert forall|j: int| s.len() <= j < back.len() implies p(back[j]) by {
        assert(p(b[j - s.len()]));
    }
    lemma_trim_back(back, p, s.len() as int);
    assert(back.take(s.len() as int) =~= s);
    let whole = a + s + b;
    if s.len() > 0 {
        assert forall|j: int| 0 <= j < n implies p(whole[j]) by {
            assert(p(a[j]));
        }
        assert(whole[n] == s[0]);
        lemma_trim_front(whole, p, n);
        assert(whole.skip(n) =~= back);
    } else {
        assert forall|j: int| 0 <= j < whole.len() implies p(whole[j]) by {
            if j < n {
                assert(p(a[j]));
            } else {
                assert(p(b[j - n]));
            }
        }
        lemma_trim_front(whole, p, whole.len() as int);
        assert(whole.skip(whole.len() as int) =~= s);
        assert(trim_back(s, p) =~= s);
    }
}

/// White space around a text is trimmed, and nothing else.
pub proof fn law_trimmed(a: Seq<char>, s: Seq<char>, b: Seq<char>)
    requires
        all_are(a, |c: char| white_space(c)),
        all_are(b, |c: char| white_space(c)),
        s.len() > 0 ==> !white_space(s[0]) && !white_space(s.last()),
    ensures
        trimmed(a + s + b) == s,
{
    law_trims(a, s, b, |c: char| white_space(c));
}

/// The ASCII characters that are white space, and the others that are.
pub proof fn law_white_space(c: char)
    ensures
        (c as u32) < 128 ==> (white_space(c) <==> (c == ' ' || 9 <= (c as u32) <= 13)),
        (c as u32) >= 128 ==> (white_space(c) <==> ((c as u32) == 0x85 || (c as u32) == 0xa0 || (
        c as u32) == 0x1680 || 0x2000 <= (c as u32) <= 0x200a || (c as u32) == 0x2028 || (c as u32)
            == 0x2029 || (c as u32) == 0x202f || (c as u32) == 0x205f || (c as u32) == 0x3000)),
{
}

/// A digit more makes ten times the number and that digit; the numeral of a number is that of its
/// tenth with one digit more.
pub proof fn law_numbers(s: Seq<char>, n: nat, d: nat)
    requires
        d < 10,
    ensures
        number(Seq::empty()) == 0,
        number(s.push(((d + 48) as u32) as char)) == 10 * number(s) + d,
        decimal(d) == seq![((d + 48) as u32) as char],
        n > 0 ==> decimal(10 * n + d) == decimal(n).push(((d + 48) as u32) as char),
{
    let c = ((d + 48) as u32) as char;
    assert(c as nat == d + 48);
    assert(s.push(c).drop_last() =~= s);
    assert(digit(d) == c);
    assert((10 * n + d) / 10 == n && (10 * n + d) % 10 == d) by (nonlinear_arith)
        requires
            d < 10,
    ;
}

/// A text of digits is read as its number where that is not too large, with or without a plus sign;
/// every other text is no number.
pub proof fn law_unsigned(s: Seq<char>, max: nat)
    ensures
        ({
            let plain = s.len() > 0 && forall|i: int| 0 <= i < s.len() ==> '0' <= #[trigger] s[i] <= '9';
            &&& plain && number(s) <= max ==> parse_unsigned(s, max) == Some(number(s))
                && parse_unsigned(seq!['+'] + s, max) == Some(number(s))
            &&& plain && number(s) > max ==> parse_unsigned(s, max) is None && parse_unsigned(
                seq!['+'] + s,
                max,
            ) is None
            &&& !plain ==> parse_unsigned(seq!['+'] + s, max) is None
            &&& !plain && !(s.len() > 0 && s[0] == '+') ==> parse_unsigned(s, max) is None
        }),
{
    let signed = seq!['+'] + s;
    assert(signed.drop_first() =~= s);
    assert(signed[0] == '+');
    if s.len() > 0 {
        assert(all_digits(s) ==> is_digit(s[0]));
    }
}

/// A minus sign makes a number negative, and a number may be one less than the largest is above
/// zero.
pub proof fn law_signed(s: Seq<char>, max: nat)
    ensures
        ({
            let plain = s.len() > 0 && forall|i: int| 0 <= i < s.len() ==> '0' <= #[trigger] s[i] <= '9';
            &&& parse_signed(seq!['-'] + s, max) == if plain && number(s) <= max + 1 {
                Some(-(number(s) as int))
            } else {
                None
            }
            &&& !(s.len() > 0 && s[0] == '-') ==> parse_signed(s, max) == match parse_unsigned(
                s,
                max,
            ) {
                Some(n) => Some(n as int),
                None => None,
            }
        }),
{
    let signed = seq!['-'] + s;
    assert(signed.drop_first() =~= s);
    assert(signed[0] == '-');
}

/// The numeral of a negative number is that of its opposite behind a minus sign.
pub proof fn law_signed_decimal(n: nat)
    ensures
        signed_decimal(n as int) == decimal(n),
        n > 0 ==> signed_decimal(-(n as int)) == seq!['-'] + decimal(n),
{
}

/// What is read from a text: numbers where it tells one that is not too large, and texts as they
/// are.
pub proof fn law_reads(s: Seq<char>, size: Option<usize>, number: Option<i32>, text: Option<String>)
    ensures
        usize::reads_as(s, size) <==> match parse_unsigned(s, usize::MAX as nat) {
            Some(n) => size matches Some(m) && m == n,
            None => size is None,
        },
        i32::reads_as(s, number) <==> match parse_signed(s, i32::MAX as nat) {
            Some(n) => number matches Some(m) && m == n,
            None => number is None,
        },
        String::reads_as(s, text) <==> (text matches Some(t) && t@ == s),
{
    if let Some(n) = parse_signed(s, i32::MAX as nat) {
        assert(-2147483648 <= n <= 2147483647);
    }
}

} // verus!
