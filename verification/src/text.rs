//! Text: comparison, search, integers in decimal notation.
use vstd::prelude::*;
use vstd::string::*;

verus! {

/// Whether two texts are the same: `==` of std's `str`, which compares the characters.
#[verifier::external_body]
pub(crate) fn same_text(a: &str, b: &str) -> (r: bool)
    ensures
        r == (a@ == b@),
{
    a == b
}

/// `needle` stands in `text` at `i`.
pub open spec fn occurs_at(text: Seq<char>, needle: Seq<char>, i: int) -> bool {
    0 <= i && i + needle.len() <= text.len() && text.subrange(i, i + needle.len()) == needle
}

/// `needle` stands somewhere in `text`.
pub open spec fn occurs(text: Seq<char>, needle: Seq<char>) -> bool {
    exists|i: int| occurs_at(text, needle, i)
}

/// Whether `needle` stands somewhere in `text`: std's `str::contains` on a text pattern.
#[verifier::external_body]
pub(crate) fn contains_text(text: &str, needle: &str) -> (r: bool)
    ensures
        r == occurs(text@, needle@),
{
    text.contains(needle)
}

/// The upper case of a text.
pub uninterp spec fn upper_text(s: Seq<char>) -> Seq<char>;

/// The lower case of a text.
pub uninterp spec fn lower_text(s: Seq<char>) -> Seq<char>;

/// Upper case: std's `str::to_uppercase`. Claims that the result depends on the characters
/// alone; the Unicode case tables are left unsaid.
#[verifier::external_body]
pub(crate) fn to_upper(s: &str) -> (r: String)
    ensures
        r@ == upper_text(s@),
{
    s.to_uppercase()
}

/// Lower case: std's `str::to_lowercase`. Claims that the result depends on the characters
/// alone; the Unicode case tables are left unsaid.
#[verifier::external_body]
pub(crate) fn to_lower(s: &str) -> (r: String)
    ensures
        r@ == lower_text(s@),
{
    s.to_lowercase()
}

/// The ASCII lower case of a character.
pub open spec fn ascii_lower(c: char) -> char {
    if 'A' <= c && c <= 'Z' {
        (c as u32 + 32) as u8 as char
    } else {
        c
    }
}

/// The two texts agree but for the case of ASCII letters.
pub open spec fn same_ignoring_case(a: Seq<char>, b: Seq<char>) -> bool {
    &&& a.len() == b.len()
    &&& forall|i: int| 0 <= i < a.len() ==> ascii_lower(#[trigger] a[i]) == ascii_lower(b[i])
}

/// Comparison that ignores ASCII case: std's `str::eq_ignore_ascii_case`.
#[verifier::external_body]
pub(crate) fn same_text_ignoring_case(a: &str, b: &str) -> (r: bool)
    ensures
        r == same_ignoring_case(a@, b@),
{
    a.eq_ignore_ascii_case(b)
}

/// Adds a character at the end of a text: std's `String::push`.
#[verifier::external_body]
pub(crate) fn push_char(s: &mut String, c: char)
    ensures
        final(s)@ == old(s)@.push(c),
{
    s.push(c)
}

/// `c` is one of `0` to `9`.
pub open spec fn is_digit(c: char) -> bool {
    '0' <= c && c <= '9'
}

/// The value of a digit.
pub open spec fn digit_value(c: char) -> int {
    c as int - '0' as int
}

/// The number that digits stand for.
pub open spec fn digits_value(s: Seq<char>) -> int
    decreases s.len(),
{
    if s.len() == 0 {
        0
    } else {
        digits_value(s.drop_last()) * 10 + digit_value(s.last())
    }
}

/// At least one character, all of them digits.
pub open spec fn all_digits(s: Seq<char>) -> bool {
    s.len() > 0 && forall|i: int| 0 <= i < s.len() ==> is_digit(#[trigger] s[i])
}

/// The integer that a text stands for: an optional sign, and digits.
pub open spec fn int_value(s: Seq<char>) -> Option<int> {
    if s.len() > 0 && (s[0] == '-' || s[0] == '+') {
        if all_digits(s.skip(1)) {
            Some(
                if s[0] == '-' {
                    -digits_value(s.skip(1))
                } else {
                    digits_value(s.skip(1))
                },
            )
        } else {
            None
        }
    } else if all_digits(s) {
        Some(digits_value(s))
    } else {
        None
    }
}

/// The 64-bit integer that a text stands for.
pub open spec fn i64_value(s: Seq<char>) -> Option<i64> {
    match int_value(s) {
        Some(v) => if i64::MIN <= v <= i64::MAX {
            Some(v as i64)
        } else {
            None
        },
        None => None,
    }
}

/// Reads a 64-bit integer: std's `str::parse::<i64>`, which takes an optional sign followed
/// by digits only and fails on anything else and out of range.
#[verifier::external_body]
pub(crate) fn parse_i64(s: &str) -> (r: Option<i64>)
    ensures
        r == i64_value(s@),
{
    s.parse::<i64>().ok()
}

/// The number that an unsigned text stands for: digits, after a plus sign or none.
pub open spec fn unsigned_value(s: Seq<char>) -> Option<int> {
    let digits = if s.len() > 0 && s[0] == '+' {
        s.skip(1)
    } else {
        s
    };
    if all_digits(digits) {
        Some(digits_value(digits))
    } else {
        None
    }
}

/// The 64-bit number that an unsigned text stands for.
pub open spec fn u64_value(s: Seq<char>) -> Option<u64> {
    match unsigned_value(s) {
        Some(n) => if n <= u64::MAX {
            Some(n as u64)
        } else {
            None
        },
        None => None,
    }
}

/// The machine-sized number that an unsigned text stands for.
pub open spec fn usize_value(s: Seq<char>) -> Option<usize> {
    match unsigned_value(s) {
        Some(n) => if n <= usize::MAX {
            Some(n as usize)
        } else {
            None
        },
        None => None,
    }
}

/// Reads an unsigned 64-bit integer: std's `str::parse::<u64>`, which takes digits after an
/// optional plus sign and fails on anything else and out of range.
#[verifier::external_body]
pub(crate) fn parse_u64(s: &str) -> (r: Option<u64>)
    ensures
        r == u64_value(s@),
{
    s.parse::<u64>().ok()
}

/// Reads an unsigned machine-sized integer: std's `str::parse::<usize>`, which takes digits
/// after an optional plus sign and fails on anything else and out of range.
#[verifier::external_body]
pub(crate) fn parse_usize(s: &str) -> (r: Option<usize>)
    ensures
        r == usize_value(s@),
{
    s.parse::<usize>().ok()
}

/// The digits of a natural number.
pub open spec fn nat_text(n: nat) -> Seq<char>
    decreases n,
{
    let d = ('0' as int + n % 10) as u8 as char;
    if n < 10 {
        seq![d]
    } else {
        nat_text(n / 10).push(d)
    }
}

/// An integer in decimal notation, with `-` before a negative one.
pub open spec fn int_text(n: int) -> Seq<char> {
    if n < 0 {
        seq!['-'] + nat_text((-n) as nat)
    } else {
        nat_text(n as nat)
    }
}

/// An integer in decimal notation: the `Display` of std's `i64`.
#[verifier::external_body]
pub(crate) fn i64_to_text(n: i64) -> (r: String)
    ensures
        r@ == int_text(n as int),
{
    format!("{}", n)
}

/// An integer in decimal notation: the `Display` of std's `u64`.
#[verifier::external_body]
pub(crate) fn u64_to_text(n: u64) -> (r: String)
    ensures
        r@ == int_text(n as int),
{
    format!("{}", n)
}

/// `text` begins with `prefix`.
pub open spec fn begins_with(text: Seq<char>, prefix: Seq<char>) -> bool {
    prefix.len() <= text.len() && text.take(prefix.len() as int) == prefix
}

/// What follows a prefix: std's `str::strip_prefix` on a text pattern.
#[verifier::external_body]
pub(crate) fn after_prefix<'a>(text: &'a str, prefix: &str) -> (r: Option<&'a str>)
    ensures
        r is Some <==> begins_with(text@, prefix@),
        r is Some ==> r->0@ == text@.skip(prefix@.len() as int),
{
    text.strip_prefix(prefix)
}

/// The characters of a text.
pub(crate) fn chars_of(s: &str) -> (r: Vec<char>)
    ensures
        r@ == s@,
{
    let mut r: Vec<char> = Vec::new();
    for c in it: s.chars()
        invariant
            it.seq() == s@,
            r@ == s@.take(it.index() as int),
    {
        r.push(c);
        assert(s@.take(it.index() as int + 1) =~= s@.take(it.index() as int).push(c));
    }
    assert(s@.take(s@.len() as int) =~= s@);
    r
}

/// The text of characters.
pub(crate) fn text_of(chars: &Vec<char>) -> (r: String)
    ensures
        r@ == chars@,
{
    let mut r = String::new();
    let mut i: usize = 0;
    while i < chars.len()
        invariant
            i <= chars@.len(),
            r@ == chars@.take(i as int),
        decreases chars@.len() - i,
    {
        push_char(&mut r, chars[i]);
        assert(chars@.take(i as int + 1) =~= chars@.take(i as int).push(chars@[i as int]));
        i += 1;
    }
    assert(chars@.take(chars@.len() as int) =~= chars@);
    r
}

/// `a` comes before `b` by the code points of their characters.
pub open spec fn lex_less(a: Seq<char>, b: Seq<char>) -> bool
    decreases a.len(),
{
    if b.len() == 0 {
        false
    } else if a.len() == 0 {
        true
    } else if a[0] == b[0] {
        lex_less(a.skip(1), b.skip(1))
    } else {
        a[0] < b[0]
    }
}

/// Texts in lexical order: never both ways, and "not after" is transitive.
pub proof fn lex_less_orders(a: Seq<char>, b: Seq<char>, c: Seq<char>)
    ensures
        lex_less(a, b) ==> !lex_less(b, a),
        !lex_less(b, a) && !lex_less(c, b) ==> !lex_less(c, a),
    decreases a.len(),
{
    if a.len() > 0 && b.len() > 0 && a[0] == b[0] {
        lex_less_orders(a.skip(1), b.skip(1), c.skip(1));
    }
}

/// Order of texts: `<` of std's `str`, which orders by bytes and so by code points.
#[verifier::external_body]
pub(crate) fn text_before(a: &str, b: &str) -> (r: bool)
    ensures
        r == lex_less(a@, b@),
{
    a < b
}

/// The view of an optional text.
pub open spec fn opt_text(s: Option<String>) -> Option<Seq<char>> {
    match s {
        Some(t) => Some(t@),
        None => None,
    }
}

/// A text of its own with the same characters.
pub fn owned(s: &str) -> (r: String)
    ensures
        r@ == s@,
{
    s.to_owned()
}

/// Reading a number back from its text gives the number.
pub proof fn reading_undoes_writing(n: int)
    ensures
        int_value(int_text(n)) == Some(n),
{
    let t = int_text(n);
    if n < 0 {
        lemma_digits_of((-n) as nat);
        assert(t.skip(1) =~= nat_text((-n) as nat));
    } else {
        lemma_digits_of(n as nat);
        assert(is_digit(t[0]));
    }
}

/// The text of a natural number is made of digits that stand for it.
proof fn lemma_digits_of(n: nat)
    ensures
        all_digits(nat_text(n)),
        digits_value(nat_text(n)) == n,
    decreases n,
{
    let t = nat_text(n);
    let d = ('0' as int + n % 10) as u8 as char;
    assert(is_digit(d) && digit_value(d) == n % 10);
    if n < 10 {
        assert(t.drop_last() =~= Seq::<char>::empty());
        assert(digits_value(t.drop_last()) == 0);
    } else {
        lemma_digits_of(n / 10);
        assert(t.drop_last() =~= nat_text(n / 10));
    }
}

} // verus!
