//! String building blocks: comparison, search, trimming, splitting and decimal
//! conversion, each specified over the sequence of `char`s a string holds.

use vstd::prelude::*;
use vstd::utf8::{decode_utf8, encode_utf8, valid_utf8};

verus! {

// ----- sequences of strings ----------------------------------------------------

/// The contents of a list of strings.
pub open spec fn texts(v: Seq<String>) -> Seq<Seq<char>> {
    v.map_values(|s: String| s@)
}

/// The contents of an optional string.
pub open spec fn opt_text(s: Option<String>) -> Option<Seq<char>> {
    match s {
        Some(s) => Some(s@),
        None => None,
    }
}

pub broadcast proof fn lemma_texts_push(v: Seq<String>, s: String)
    ensures
        #[trigger] texts(v.push(s)) == texts(v).push(s@),
{
    assert(texts(v.push(s)) =~= texts(v).push(s@));
}

/// `text` is one of the strings in `list`.
pub fn is_member(list: &[String], text: &str) -> (r: bool)
    ensures
        r == texts(list@).contains(text@),
{
    let mut i: usize = 0;
    while i < list.len()
        invariant
            i <= list.len(),
            forall|k: int| 0 <= k < i ==> list@[k]@ != text@,
        decreases list.len() - i,
    {
        if same(list[i].as_str(), text) {
            assert(texts(list@)[i as int] == text@);
            return true;
        }
        i += 1;
    }
    assert(!texts(list@).contains(text@)) by {
        if texts(list@).contains(text@) {
            let k = choose|k: int| 0 <= k < texts(list@).len() && texts(list@)[k] == text@;
            assert(list@[k]@ == text@);
        }
    }
    false
}

/// The text that ill-formed bytes stand for once every ill-formed part is replaced.
pub uninterp spec fn replaced_utf8(data: Seq<u8>) -> Seq<char>;

/// The text that bytes stand for where every ill-formed part is replaced.
pub open spec fn lossy_reading(data: Seq<u8>) -> Seq<char> {
    if valid_utf8(data) {
        decode_utf8(data)
    } else {
        replaced_utf8(data)
    }
}

/// Read bytes as text, by `String::from_utf8_lossy`, which takes well-formed UTF-8 as it
/// is and replaces what is ill-formed by the replacement character. What becomes of
/// ill-formed bytes is a function of the bytes alone and is named by [`replaced_utf8`].
#[verifier::external_body]
pub(crate) fn lossy_text(data: &[u8]) -> (r: String)
    ensures
        valid_utf8(data@) ==> r@ == decode_utf8(data@),
        !valid_utf8(data@) ==> r@ == replaced_utf8(data@),
{
    String::from_utf8_lossy(data).into_owned()
}

/// What `{:?}` prints for a text: the text in double quotes, with escapes.
pub uninterp spec fn debug_quoted(text: Seq<char>) -> Seq<char>;

/// Print a text with `{:?}`, by std's `Debug` for `str`. What it prints is a
/// function of the text alone and is named by [`debug_quoted`]; which characters
/// it escapes is left unsaid.
#[verifier::external_body]
pub(crate) fn quoted(text: &str) -> (r: String)
    ensures
        r@ == debug_quoted(text@),
{
    format!("{text:?}")
}

// ----- comparison ----------------------------------------------------------------

/// Whether two strings hold the same characters.
pub fn same(a: &str, b: &str) -> (r: bool)
    ensures
        r == (a@ == b@),
{
    let x = a.as_bytes();
    let y = b.as_bytes();
    proof {
        vstd::utf8::encode_utf8_decode_utf8(a@);
        vstd::utf8::encode_utf8_decode_utf8(b@);
    }
    if x.len() != y.len() {
        return false;
    }
    let mut i: usize = 0;
    while i < x.len()
        invariant
            i <= x.len(),
            x.len() == y.len(),
            x@ == encode_utf8(a@),
            y@ == encode_utf8(b@),
            forall|k: int| 0 <= k < i ==> x@[k] == y@[k],
        decreases x.len() - i,
    {
        if x[i] != y[i] {
            assert(x@ != y@);
            return false;
        }
        i += 1;
    }
    assert(x@ =~= y@);
    true
}

/// `a` comes before `b` in code-point order: at the first place where they
/// differ `a` has the smaller code point, or `a` ends there.
pub open spec fn text_lt(a: Seq<char>, b: Seq<char>) -> bool
    decreases a.len(),
{
    if b.len() == 0 {
        false
    } else if a.len() == 0 {
        true
    } else if a[0] != b[0] {
        (a[0] as int) < (b[0] as int)
    } else {
        text_lt(a.drop_first(), b.drop_first())
    }
}

/// Code-point order is irreflexive.
pub proof fn lemma_text_lt_irreflexive(a: Seq<char>)
    ensures
        !text_lt(a, a),
    decreases a.len(),
{
    if a.len() > 0 {
        lemma_text_lt_irreflexive(a.drop_first());
    }
}

/// Code-point order is transitive.
pub proof fn lemma_text_lt_transitive(a: Seq<char>, b: Seq<char>, c: Seq<char>)
    requires
        text_lt(a, b),
        text_lt(b, c),
    ensures
        text_lt(a, c),
    decreases a.len(),
{
    if a.len() > 0 && a[0] == b[0] && b[0] == c[0] {
        lemma_text_lt_transitive(a.drop_first(), b.drop_first(), c.drop_first());
    }
}

/// Code-point order is total.
pub proof fn lemma_text_lt_total(a: Seq<char>, b: Seq<char>)
    ensures
        text_lt(a, b) || a == b || text_lt(b, a),
    decreases a.len(),
{
    if a.len() == 0 || b.len() == 0 {
        if a.len() == 0 && b.len() == 0 {
            assert(a =~= b);
        }
    } else if a[0] == b[0] {
        lemma_text_lt_total(a.drop_first(), b.drop_first());
        if a.drop_first() == b.drop_first() {
            assert(a =~= seq![a[0]] + a.drop_first());
            assert(b =~= seq![b[0]] + b.drop_first());
        }
    }
}

/// Whether `a` comes before `b` in code-point order.
pub fn comes_before(a: &str, b: &str) -> (r: bool)
    ensures
        r == text_lt(a@, b@),
{
    let n = a.unicode_len();
    let m = b.unicode_len();
    let mut i: usize = 0;
    assert(a@.skip(0) =~= a@);
    assert(b@.skip(0) =~= b@);
    loop
        invariant
            n == a@.len(),
            m == b@.len(),
            i <= n,
            i <= m,
            text_lt(a@, b@) == text_lt(a@.skip(i as int), b@.skip(i as int)),
        decreases n - i,
    {
        if i == m {
            return false;
        }
        if i == n {
            return true;
        }
        let x = a.get_char(i);
        let y = b.get_char(i);
        if x != y {
            return (x as u32) < (y as u32);
        }
        assert(a@.skip(i as int).drop_first() =~= a@.skip(i + 1));
        assert(b@.skip(i as int).drop_first() =~= b@.skip(i + 1));
        i += 1;
    }
}

// ----- prefixes and search -------------------------------------------------------

/// `needle` stands in `hay` at position `at`.
pub open spec fn occurs_at(hay: Seq<char>, needle: Seq<char>, at: int) -> bool {
    0 <= at && at + needle.len() <= hay.len() && hay.subrange(at, at + needle.len()) == needle
}

/// `needle` stands somewhere in `hay`.
pub open spec fn has_substring(hay: Seq<char>, needle: Seq<char>) -> bool {
    exists|at: int| #[trigger] occurs_at(hay, needle, at)
}

/// `prefix` stands at the start of `text`.
pub open spec fn has_prefix(text: Seq<char>, prefix: Seq<char>) -> bool {
    occurs_at(text, prefix, 0)
}

/// A text stands in any text that holds it between two others.
pub proof fn lemma_has_substring(before: Seq<char>, needle: Seq<char>, after: Seq<char>)
    ensures
        has_substring(before + needle + after, needle),
{
    let hay = before + needle + after;
    let at = before.len() as int;
    assert(hay.subrange(at, at + needle.len()) =~= needle);
    assert(occurs_at(hay, needle, at));
}

/// Whether `needle` stands in `hay` at character position `at`.
pub fn occurs(hay: &str, needle: &str, at: usize) -> (r: bool)
    ensures
        r == occurs_at(hay@, needle@, at as int),
{
    let n = hay.unicode_len();
    let m = needle.unicode_len();
    if at > n || m > n - at {
        return false;
    }
    same(hay.substring_char(at, at + m), needle)
}

/// Whether `text` starts with `prefix`.
pub fn starts_with(text: &str, prefix: &str) -> (r: bool)
    ensures
        r == has_prefix(text@, prefix@),
{
    occurs(text, prefix, 0)
}

/// Whether `needle` stands somewhere in `hay`.
pub fn contains(hay: &str, needle: &str) -> (r: bool)
    ensures
        r == has_substring(hay@, needle@),
{
    let n = hay.unicode_len();
    let mut i: usize = 0;
    loop
        invariant
            n == hay@.len(),
            i <= n,
            forall|k: int| 0 <= k < i ==> !#[trigger] occurs_at(hay@, needle@, k),
        decreases n - i,
    {
        if occurs(hay, needle, i) {
            return true;
        }
        if i == n {
            return false;
        }
        i += 1;
    }
}

/// The text behind `prefix`, if `text` starts with it.
pub open spec fn spec_strip_prefix(text: Seq<char>, prefix: Seq<char>) -> Option<Seq<char>> {
    if has_prefix(text, prefix) {
        Some(text.skip(prefix.len() as int))
    } else {
        None
    }
}

/// The text behind `prefix`, if `text` starts with it.
pub fn strip_prefix<'a>(text: &'a str, prefix: &str) -> (r: Option<&'a str>)
    ensures
        r is Some == has_prefix(text@, prefix@),
        r is Some ==> Some(r->0@) == spec_strip_prefix(text@, prefix@),
{
    if starts_with(text, prefix) {
        let n = text.unicode_len();
        let m = prefix.unicode_len();
        let rest = text.substring_char(m, n);
        assert(rest@ =~= text@.skip(m as int));
        Some(rest)
    } else {
        None
    }
}

/// The position of the first `c` in `text` at or after `from`, or the end of
/// `text` if there is none.
pub open spec fn find_from(text: Seq<char>, c: char, from: int) -> int
    decreases text.len() - from,
{
    if from < 0 || from >= text.len() {
        text.len() as int
    } else if text[from] == c {
        from
    } else {
        find_from(text, c, from + 1)
    }
}

/// The position of the first `c` in `text` at or after `from`, or the end of
/// `text` if there is none.
pub fn find(text: &str, c: char, from: usize) -> (r: usize)
    requires
        from <= text@.len(),
    ensures
        r == find_from(text@, c, from as int),
        from <= r <= text@.len(),
{
    let n = text.unicode_len();
    let mut i = from;
    while i < n
        invariant
            n == text@.len(),
            from <= i <= n,
            find_from(text@, c, from as int) == find_from(text@, c, i as int),
        decreases n - i,
    {
        if text.get_char(i) == c {
            return i;
        }
        i += 1;
    }
    n
}

/// What `find_from` finds: no `c` before it, and a `c` at it unless it is the end.
pub proof fn lemma_find_from(text: Seq<char>, c: char, from: int)
    requires
        0 <= from <= text.len(),
    ensures
        from <= find_from(text, c, from) <= text.len(),
        forall|k: int| from <= k < find_from(text, c, from) ==> text[k] != c,
        find_from(text, c, from) < text.len() ==> text[find_from(text, c, from)] == c,
    decreases text.len() - from,
{
    if from < text.len() && text[from] != c {
        lemma_find_from(text, c, from + 1);
    }
}

/// The first `c` is where it is, once the text before it is free of `c`.
pub proof fn lemma_find_from_is(text: Seq<char>, c: char, from: int, at: int)
    requires
        0 <= from <= at <= text.len(),
        forall|k: int| from <= k < at ==> text[k] != c,
        at < text.len() ==> text[at] == c,
    ensures
        find_from(text, c, from) == at,
    decreases at - from,
{
    if from < at {
        lemma_find_from_is(text, c, from + 1, at);
    }
}

// ----- whitespace ----------------------------------------------------------------

/// The characters with the Unicode property `White_Space`.
pub open spec fn is_space(c: char) -> bool {
    let u = c as u32;
    ||| 0x9 <= u <= 0xd
    ||| u == 0x20
    ||| u == 0x85
    ||| u == 0xa0
    ||| u == 0x1680
    ||| 0x2000 <= u <= 0x200a
    ||| u == 0x2028
    ||| u == 0x2029
    ||| u == 0x202f
    ||| u == 0x205f
    ||| u == 0x3000
}

/// Whether a character has the Unicode property `White_Space`.
pub fn is_whitespace(c: char) -> (r: bool)
    ensures
        r == is_space(c),
{
    let u = c as u32;
    (0x9 <= u && u <= 0xd) || u == 0x20 || u == 0x85 || u == 0xa0 || u == 0x1680 || (0x2000 <= u
        && u <= 0x200a) || u == 0x2028 || u == 0x2029 || u == 0x202f || u == 0x205f || u == 0x3000
}

/// `text` without its leading whitespace.
pub open spec fn trim_front(text: Seq<char>) -> Seq<char>
    decreases text.len(),
{
    if text.len() > 0 && is_space(text[0]) {
        trim_front(text.drop_first())
    } else {
        text
    }
}

/// `text` without its trailing whitespace.
pub open spec fn trim_back(text: Seq<char>) -> Seq<char>
    decreases text.len(),
{
    if text.len() > 0 && is_space(text.last()) {
        trim_back(text.drop_last())
    } else {
        text
    }
}

/// `text` without its leading and trailing whitespace.
pub open spec fn trimmed(text: Seq<char>) -> Seq<char> {
    trim_back(trim_front(text))
}

/// `text` without its leading and trailing whitespace.
pub fn trim<'a>(text: &'a str) -> (r: &'a str)
    ensures
        r@ == trimmed(text@),
{
    let n = text.unicode_len();
    let mut i: usize = 0;
    assert(text@.skip(0) =~= text@);
    while i < n && is_whitespace(text.get_char(i))
        invariant
            n == text@.len(),
            i <= n,
            trim_front(text@) == trim_front(text@.skip(i as int)),
        decreases n - i,
    {
        assert(text@.skip(i as int).drop_first() =~= text@.skip(i + 1));
        i += 1;
    }
    let ghost front = trim_front(text@);
    assert(front == text@.skip(i as int));
    let mut j: usize = n;
    assert(front =~= text@.subrange(i as int, n as int));
    while j > i && is_whitespace(text.get_char(j - 1))
        invariant
            n == text@.len(),
            i <= j <= n,
            trim_back(front) == trim_back(text@.subrange(i as int, j as int)),
        decreases j,
    {
        assert(text@.subrange(i as int, j as int).drop_last() =~= text@.subrange(
            i as int,
            j - 1,
        ));
        j -= 1;
    }
    text.substring_char(i, j)
}

/// `text` without the `c`s it ends with.
pub open spec fn trim_end_of(text: Seq<char>, c: char) -> Seq<char>
    decreases text.len(),
{
    if text.len() > 0 && text.last() == c {
        trim_end_of(text.drop_last(), c)
    } else {
        text
    }
}

/// `text` without the `c`s it ends with.
pub fn trim_end_matches<'a>(text: &'a str, c: char) -> (r: &'a str)
    ensures
        r@ == trim_end_of(text@, c),
{
    let n = text.unicode_len();
    let mut j: usize = n;
    assert(text@.subrange(0, n as int) =~= text@);
    while j > 0 && text.get_char(j - 1) == c
        invariant
            n == text@.len(),
            j <= n,
            trim_end_of(text@, c) == trim_end_of(text@.subrange(0, j as int), c),
        decreases j,
    {
        assert(text@.subrange(0, j as int).drop_last() =~= text@.subrange(0, j - 1));
        j -= 1;
    }
    text.substring_char(0, j)
}

// ----- decimal numbers -------------------------------------------------------------

/// The character of a decimal digit.
pub open spec fn digit(d: nat) -> char
    recommends
        d < 10,
{
    (('0' as u32) + d) as char
}

/// A number in decimal, without leading zeros.
pub open spec fn decimal(n: nat) -> Seq<char>
    decreases n,
{
    if n < 10 {
        seq![digit(n)]
    } else {
        decimal(n / 10).push(digit(n % 10))
    }
}

/// One decimal digit as a string.
fn digit_str(d: u64) -> (r: &'static str)
    requires
        d < 10,
    ensures
        r@ == seq![digit(d as nat)],
{
    proof {
        reveal_strlit("0");
        reveal_strlit("1");
        reveal_strlit("2");
        reveal_strlit("3");
        reveal_strlit("4");
        reveal_strlit("5");
        reveal_strlit("6");
        reveal_strlit("7");
        reveal_strlit("8");
        reveal_strlit("9");
    }
    let r = if d == 0 {
        "0"
    } else if d == 1 {
        "1"
    } else if d == 2 {
        "2"
    } else if d == 3 {
        "3"
    } else if d == 4 {
        "4"
    } else if d == 5 {
        "5"
    } else if d == 6 {
        "6"
    } else if d == 7 {
        "7"
    } else if d == 8 {
        "8"
    } else {
        "9"
    };
    assert(r@ =~= seq![digit(d as nat)]);
    r
}

/// A number in decimal, without leading zeros.
pub fn to_decimal(n: u64) -> (r: String)
    ensures
        r@ == decimal(n as nat),
    decreases n,
{
    if n < 10 {
        digit_str(n).to_string()
    } else {
        let mut s = to_decimal(n / 10);
        let ghost before = s@;
        s.append(digit_str(n % 10));
        assert(s@ =~= before.push(digit((n % 10) as nat)));
        s
    }
}

/// Why a text is not a decimal number of the wanted range.
#[derive(Debug, Clone, Copy, PartialEq, Eq, Structural)]
pub enum IntError {
    /// The text is empty.
    Empty,
    /// A character is not a decimal digit, or a sign stands alone.
    InvalidDigit,
    /// The number exceeds the range.
    PosOverflow,
}

impl IntError {
    /// The message of this error.
    pub open spec fn text(self) -> Seq<char> {
        match self {
            IntError::Empty => "cannot parse integer from empty string"@,
            IntError::InvalidDigit => "invalid digit found in string"@,
            IntError::PosOverflow => "number too large to fit in target type"@,
        }
    }

    /// The message of this error.
    pub fn message(self) -> (r: &'static str)
        ensures
            r@ == self.text(),
    {
        match self {
            IntError::Empty => "cannot parse integer from empty string",
            IntError::InvalidDigit => "invalid digit found in string",
            IntError::PosOverflow => "number too large to fit in target type",
        }
    }
}

/// Whether a character is a decimal digit.
pub open spec fn is_digit(c: char) -> bool {
    '0' as u32 <= c as u32 <= '9' as u32
}

/// The value of a decimal digit.
pub open spec fn digit_value(c: char) -> nat
    recommends
        is_digit(c),
{
    (c as u32 - '0' as u32) as nat
}

/// Read the digits of `text` from position `at` on, onto the value `acc` of
/// those before it. The first character that is no digit, or that takes the
/// value past `max`, decides the error.
pub open spec fn digits_from(text: Seq<char>, at: int, acc: nat, max: nat) -> Result<nat, IntError>
    decreases text.len() - at,
{
    if at < 0 || at >= text.len() {
        Ok(acc)
    } else if !is_digit(text[at]) {
        Err(IntError::InvalidDigit)
    } else if acc * 10 + digit_value(text[at]) > max {
        Err(IntError::PosOverflow)
    } else {
        digits_from(text, at + 1, acc * 10 + digit_value(text[at]), max)
    }
}

/// Where the digits of a number start: behind an optional `+`.
pub open spec fn digits_start(text: Seq<char>) -> int {
    if text.len() > 1 && text[0] == '+' {
        1
    } else {
        0
    }
}

/// A decimal number of at most `max`: an optional `+` followed by digits only,
/// of which there is at least one.
pub open spec fn number(text: Seq<char>, max: nat) -> Result<nat, IntError> {
    if text.len() == 0 {
        Err(IntError::Empty)
    } else {
        digits_from(text, digits_start(text), 0, max)
    }
}

/// Read a decimal number of at most `max`.
pub fn parse_number(text: &str, max: u64) -> (r: Result<u64, IntError>)
    ensures
        match r {
            Ok(v) => number(text@, max as nat) == Ok::<nat, IntError>(v as nat),
            Err(e) => number(text@, max as nat) == Err::<nat, IntError>(e),
        },
        r is Ok ==> r->Ok_0 <= max,
{
    let n = text.unicode_len();
    if n == 0 {
        return Err(IntError::Empty);
    }
    let mut i: usize = if n > 1 && text.get_char(0) == '+' {
        1
    } else {
        0
    };
    let mut acc: u64 = 0;
    while i < n
        invariant
            n == text@.len(),
            n > 0,
            i <= n,
            acc <= max,
            number(text@, max as nat) == digits_from(text@, i as int, acc as nat, max as nat),
        decreases n - i,
    {
        let c = text.get_char(i) as u32;
        if c < 48 || 57 < c {
            return Err(IntError::InvalidDigit);
        }
        let d = (c - 48) as u64;
        if acc > max / 10 || d > max - acc * 10 {
            assert(acc * 10 + d > max);
            return Err(IntError::PosOverflow);
        }
        acc = acc * 10 + d;
        i += 1;
    }
    Ok(acc)
}

proof fn lemma_digits_from_push(text: Seq<char>, c: char, at: int, acc: nat, max: nat)
    requires
        0 <= at <= text.len(),
        digits_from(text, at, acc, max) is Ok,
    ensures
        digits_from(text.push(c), at, acc, max) == digits_from(
            seq![c],
            0,
            digits_from(text, at, acc, max)->Ok_0,
            max,
        ),
    decreases text.len() - at,
{
    if at < text.len() {
        lemma_digits_from_push(
            text,
            c,
            at + 1,
            acc * 10 + digit_value(text[at]),
            max,
        );
    } else {
        reveal_with_fuel(digits_from, 3);
    }
}

proof fn lemma_decimal_digits(n: nat, max: nat)
    requires
        n <= max,
    ensures
        decimal(n).len() > 0,
        is_digit(decimal(n)[0]),
        digits_from(decimal(n), 0, 0, max) == Ok::<nat, IntError>(n),
    decreases n,
{
    reveal_with_fuel(digits_from, 3);
    if n >= 10 {
        lemma_decimal_digits(n / 10, max);
        lemma_digits_from_push(decimal(n / 10), digit(n % 10), 0, 0, max);
        assert(digit_value(digit(n % 10)) == n % 10);
    }
}

/// Reading back a number that was written in decimal gives the number.
pub proof fn law_number_round_trip(n: nat, max: nat)
    requires
        n <= max,
    ensures
        number(decimal(n), max) == Ok::<nat, IntError>(n),
{
    lemma_decimal_digits(n, max);
}

/// A number in decimal holds digits only.
pub proof fn lemma_decimal_is_digits(n: nat)
    ensures
        decimal(n).len() > 0,
        forall|i: int| 0 <= i < decimal(n).len() ==> is_digit(#[trigger] decimal(n)[i]),
    decreases n,
{
    if n >= 10 {
        lemma_decimal_is_digits(n / 10);
    }
}

// ----- lines -------------------------------------------------------------------------

/// `line` without the carriage return it may end with.
pub open spec fn strip_cr(line: Seq<char>) -> Seq<char> {
    if line.len() > 0 && line.last() == '\r' {
        line.drop_last()
    } else {
        line
    }
}

/// The lines of `text` from position `from` on: each ends at a line feed, which
/// may have a carriage return before it, or at the end of the text.
pub open spec fn lines_from(text: Seq<char>, from: int) -> Seq<Seq<char>>
    decreases text.len() - from,
{
    if from < 0 || from >= text.len() {
        seq![]
    } else {
        let end = find_from(text, '\n', from);
        if from <= end < text.len() {
            seq![strip_cr(text.subrange(from, end))] + lines_from(text, end + 1)
        } else {
            seq![text.subrange(from, text.len() as int)]
        }
    }
}

/// The lines of a text, without their line endings.
pub open spec fn spec_lines(text: Seq<char>) -> Seq<Seq<char>> {
    lines_from(text, 0)
}

/// The contents of a list of borrowed strings.
pub open spec fn views<'a>(v: Seq<&'a str>) -> Seq<Seq<char>> {
    v.map_values(|s: &'a str| s@)
}

/// The lines of a text, without their line endings.
pub fn lines<'a>(text: &'a str) -> (r: Vec<&'a str>)
    ensures
        views(r@) == spec_lines(text@),
{
    let n = text.unicode_len();
    let mut out: Vec<&'a str> = Vec::new();
    let mut from: usize = 0;
    assert(views(out@) + lines_from(text@, 0) =~= lines_from(text@, 0));
    while from < n
        invariant
            n == text@.len(),
            from <= n,
            views(out@) + lines_from(text@, from as int) == spec_lines(text@),
        decreases n - from,
    {
        let end = find(text, '\n', from);
        let ghost before = out@;
        let ghost rest = lines_from(text@, from as int);
        if end < n {
            let cut = if end > from && text.get_char(end - 1) == '\r' {
                end - 1
            } else {
                end
            };
            let line = text.substring_char(from, cut);
            assert(text@.subrange(from as int, end as int).len() == end - from);
            assert(line@ =~= strip_cr(text@.subrange(from as int, end as int)));
            out.push(line);
            assert(views(out@) =~= views(before).push(line@));
            assert(views(before) + rest =~= views(out@) + lines_from(text@, end + 1));
            from = end + 1;
        } else {
            let line = text.substring_char(from, n);
            out.push(line);
            assert(views(out@) =~= views(before).push(line@));
            assert(views(before) + rest =~= views(out@));
            from = n;
            assert(lines_from(text@, n as int) =~= Seq::<Seq<char>>::empty());
            assert(views(out@) + lines_from(text@, n as int) =~= views(out@));
        }
    }
    assert(views(out@) + lines_from(text@, n as int) =~= views(out@));
    out
}

/// Where `needle` stands last in `hay`, at `at` or before.
pub open spec fn last_occurrence(hay: Seq<char>, needle: Seq<char>, at: int) -> Option<int>
    decreases at + 1,
{
    if at < 0 {
        None
    } else if occurs_at(hay, needle, at) {
        Some(at)
    } else {
        last_occurrence(hay, needle, at - 1)
    }
}

/// The text behind the last `needle` in `hay`.
pub open spec fn spec_after_last(hay: Seq<char>, needle: Seq<char>) -> Option<Seq<char>> {
    match last_occurrence(hay, needle, hay.len() as int) {
        Some(at) => Some(hay.skip(at + needle.len())),
        None => None,
    }
}

/// The text behind the last `needle` in `hay`.
pub fn after_last<'a>(hay: &'a str, needle: &str) -> (r: Option<&'a str>)
    ensures
        r is Some == spec_after_last(hay@, needle@) is Some,
        r is Some ==> Some(r->0@) == spec_after_last(hay@, needle@),
{
    let n = hay.unicode_len();
    let m = needle.unicode_len();
    let mut i: usize = n;
    loop
        invariant
            n == hay@.len(),
            m == needle@.len(),
            i <= n,
            last_occurrence(hay@, needle@, n as int) == last_occurrence(hay@, needle@, i as int),
        decreases i,
    {
        if occurs(hay, needle, i) {
            let rest = hay.substring_char(i + m, n);
            assert(rest@ =~= hay@.skip(i + m));
            return Some(rest);
        }
        if i == 0 {
            assert(last_occurrence(hay@, needle@, -1) is None);
            return None;
        }
        i -= 1;
    }
}

/// The strings of a list, one after another with `sep` between them.
pub open spec fn joined(list: Seq<Seq<char>>, sep: Seq<char>) -> Seq<char>
    decreases list.len(),
{
    if list.len() == 0 {
        seq![]
    } else if list.len() == 1 {
        list[0]
    } else {
        joined(list.drop_last(), sep) + sep + list.last()
    }
}

/// The strings of `list` from `from` on, one after another with `sep` between
/// them.
pub fn join_from(list: &Vec<String>, from: usize, sep: &str) -> (r: String)
    requires
        from <= list.len(),
    ensures
        r@ == joined(texts(list@).skip(from as int), sep@),
{
    let mut out = String::new();
    let mut i = from;
    assert(texts(list@).subrange(from as int, from as int) =~= seq![]);
    while i < list.len()
        invariant
            from <= i <= list.len(),
            out@ == joined(texts(list@).subrange(from as int, i as int), sep@),
        decreases list.len() - i,
    {
        if i > from {
            out.append(sep);
        }
        out.append(list[i].as_str());
        let ghost whole = texts(list@).subrange(from as int, i + 1);
        assert(whole.drop_last() =~= texts(list@).subrange(from as int, i as int));
        assert(whole.last() == list@[i as int]@);
        if i == from {
            assert(out@ =~= whole[0]);
        }
        i += 1;
    }
    assert(texts(list@).skip(from as int) =~= texts(list@).subrange(
        from as int,
        list.len() as int,
    ));
    out
}

/// The texts of a list, one after another.
pub open spec fn concat(list: Seq<Seq<char>>) -> Seq<char>
    decreases list.len(),
{
    if list.len() == 0 {
        seq![]
    } else {
        concat(list.drop_last()) + list.last()
    }
}

/// Taking one more text into account appends it.
pub proof fn lemma_concat_take(list: Seq<Seq<char>>, n: int)
    requires
        0 <= n < list.len(),
    ensures
        concat(list.take(n + 1)) == concat(list.take(n)) + list[n],
{
    assert(list.take(n + 1).drop_last() =~= list.take(n));
}

/// Two texts, one after another.
pub fn concat2(a: &str, b: &str) -> (r: String)
    ensures
        r@ == a@ + b@,
{
    let mut out = a.to_string();
    out.append(b);
    out
}

/// Three texts, one after another.
pub fn concat3(a: &str, b: &str, c: &str) -> (r: String)
    ensures
        r@ == a@ + b@ + c@,
{
    let mut out = a.to_string();
    out.append(b);
    out.append(c);
    out
}

/// Four texts, one after another.
pub fn concat4(a: &str, b: &str, c: &str, d: &str) -> (r: String)
    ensures
        r@ == a@ + b@ + c@ + d@,
{
    let mut out = a.to_string();
    out.append(b);
    out.append(c);
    out.append(d);
    out
}

// ----- laws --------------------------------------------------------------------------

/// Where two texts first differ the smaller code point comes first, and a text comes before
/// every longer one that starts with it.
pub proof fn law_the_first_difference_decides(
    common: Seq<char>,
    x: char,
    y: char,
    a: Seq<char>,
    b: Seq<char>,
)
    ensures
        (x as int) < (y as int) ==> text_lt(common + seq![x] + a, common + seq![y] + b),
        text_lt(common, common + seq![y] + b),
    decreases common.len(),
{
    let one = common + seq![x] + a;
    let two = common + seq![y] + b;
    if common.len() > 0 {
        let rest = common.drop_first();
        law_the_first_difference_decides(rest, x, y, a, b);
        assert(one.drop_first() =~= rest + seq![x] + a);
        assert(two.drop_first() =~= rest + seq![y] + b);
    }
}

/// A text holds another exactly if it is that other between two texts, and starts with it
/// exactly if nothing stands before it.
pub proof fn law_what_a_text_holds(hay: Seq<char>, needle: Seq<char>)
    ensures
        has_substring(hay, needle) <==> exists|before: Seq<char>, after: Seq<char>|
            hay == #[trigger] (before + needle + after),
        has_prefix(hay, needle) <==> exists|after: Seq<char>| hay == #[trigger] (needle + after),
{
    if has_substring(hay, needle) {
        let at = choose|at: int| #[trigger] occurs_at(hay, needle, at);
        let before = hay.take(at);
        let after = hay.skip(at + needle.len());
        assert(hay =~= before + needle + after);
    }
    if exists|before: Seq<char>, after: Seq<char>| hay == #[trigger] (before + needle + after) {
        let (before, after) = choose|before: Seq<char>, after: Seq<char>|
            hay == #[trigger] (before + needle + after);
        lemma_has_substring(before, needle, after);
    }
    if has_prefix(hay, needle) {
        let after = hay.skip(needle.len() as int);
        assert(hay =~= needle + after);
    }
    if exists|after: Seq<char>| hay == #[trigger] (needle + after) {
        let after = choose|after: Seq<char>| hay == #[trigger] (needle + after);
        assert(hay.subrange(0, needle.len() as int) =~= needle);
    }
}

/// A prefix is taken off exactly if it is there, and what is left is what stands behind it.
pub proof fn law_prefixes_are_taken_off(prefix: Seq<char>, rest: Seq<char>, text: Seq<char>)
    ensures
        spec_strip_prefix(prefix + rest, prefix) == Some(rest),
        spec_strip_prefix(text, prefix) matches Some(left) ==> text == prefix + left,
{
    assert((prefix + rest).subrange(0, prefix.len() as int) =~= prefix);
    assert((prefix + rest).skip(prefix.len() as int) =~= rest);
    if let Some(left) = spec_strip_prefix(text, prefix) {
        assert(text =~= prefix + left);
    }
}

/// Among the ASCII characters the space, the tab, the line feed, the vertical tab, the form
/// feed and the carriage return are whitespace, and no others.
pub proof fn law_ascii_whitespace(c: char)
    requires
        (c as int) < 128,
    ensures
        is_space(c) <==> c == ' ' || c == '\t' || c == '\n' || c as int == 11 || c as int == 12 || c
            == '\r',
{
}

/// Only whitespace holds.
pub open spec fn blank(text: Seq<char>) -> bool {
    forall|i: int| 0 <= i < text.len() ==> is_space(#[trigger] text[i])
}

proof fn lemma_trim_front(text: Seq<char>)
    ensures
        ({
            let cut = text.len() - trim_front(text).len();
            &&& 0 <= cut <= text.len()
            &&& text.skip(cut) == trim_front(text)
            &&& blank(text.take(cut))
            &&& trim_front(text).len() > 0 ==> !is_space(trim_front(text)[0])
        }),
    decreases text.len(),
{
    if text.len() > 0 && is_space(text[0]) {
        let rest = text.drop_first();
        lemma_trim_front(rest);
        let cut = text.len() - trim_front(text).len();
        assert(text.skip(cut) =~= rest.skip(cut - 1));
        assert forall|i: int| 0 <= i < cut implies is_space(#[trigger] text.take(cut)[i]) by {
            if i > 0 {
                assert(rest.take(cut - 1)[i - 1] == text[i]);
            }
        }
    } else {
        assert(text.skip(0) =~= text);
    }
}

proof fn lemma_trim_back(text: Seq<char>)
    ensures
        ({
            let n = trim_back(text).len() as int;
            &&& n <= text.len()
            &&& text.take(n) == trim_back(text)
            &&& blank(text.skip(n))
            &&& n > 0 ==> !is_space(trim_back(text).last())
        }),
    decreases text.len(),
{
    let n = trim_back(text).len() as int;
    if text.len() > 0 && is_space(text.last()) {
        let rest = text.drop_last();
        lemma_trim_back(rest);
        assert(text.take(n) =~= rest.take(n));
        assert forall|i: int| 0 <= i < text.skip(n).len() implies is_space(
            #[trigger] text.skip(n)[i],
        ) by {
            if i < rest.skip(n).len() {
                assert(rest.skip(n)[i] == text.skip(n)[i]);
            }
        }
    } else {
        assert(text.take(n) =~= text);
    }
}

/// Trimming takes whitespace off both ends and nothing else: what is left neither starts
/// nor ends in whitespace, and nothing is left exactly of a blank text.
pub proof fn law_trimming_takes_whitespace_only(text: Seq<char>)
    ensures
        exists|before: Seq<char>, after: Seq<char>|
            blank(before) && blank(after) && text == #[trigger] (before + trimmed(text) + after),
        trimmed(text).len() > 0 ==> !is_space(trimmed(text)[0]) && !is_space(trimmed(text).last()),
        trimmed(text).len() == 0 <==> blank(text),
{
    let front = trim_front(text);
    let cut = text.len() - front.len();
    lemma_trim_front(text);
    lemma_trim_back(front);
    let n = trim_back(front).len() as int;
    let before = text.take(cut);
    let after = front.skip(n);
    assert(text =~= before + trimmed(text) + after);
    if trimmed(text).len() > 0 {
        assert(trimmed(text)[0] == front[0]);
        if blank(text) {
            assert(is_space(text[cut]));
        }
    } else {
        assert forall|i: int| 0 <= i < text.len() implies is_space(#[trigger] text[i]) by {
            if i < cut {
                assert(before[i] == text[i]);
            } else {
                assert(after[i - cut] == text[i]);
            }
        }
    }
}

/// Taking a character off the end takes all of it that stands there and nothing else.
pub proof fn law_the_end_is_cleared_of_a_character(text: Seq<char>, c: char)
    ensures
        ({
            let left = trim_end_of(text, c);
            &&& left.len() <= text.len()
            &&& text.take(left.len() as int) == left
            &&& left.len() > 0 ==> left.last() != c
            &&& forall|i: int| left.len() <= i < text.len() ==> #[trigger] text[i] == c
        }),
    decreases text.len(),
{
    if text.len() > 0 && text.last() == c {
        let rest = text.drop_last();
        law_the_end_is_cleared_of_a_character(rest, c);
        let n = trim_end_of(text, c).len() as int;
        assert(text.take(n) =~= rest.take(n));
        assert forall|i: int| n <= i < text.len() implies #[trigger] text[i] == c by {
            if i < rest.len() {
                assert(rest[i] == text[i]);
            }
        }
    } else {
        assert(text.take(text.len() as int) =~= text);
    }
}

/// A number is written digit by digit, the units last: dropping the last digit divides by
/// ten, and only a single digit is ever zero in front.
pub proof fn law_how_numbers_are_written(n: nat)
    ensures
        decimal(n).len() > 0,
        decimal(n).last() as int == 48 + n % 10,
        n >= 10 ==> decimal(n).drop_last() == decimal(n / 10),
        n < 10 <==> decimal(n).len() == 1,
        n > 0 ==> decimal(n)[0] != '0',
    decreases n,
{
    if n >= 10 {
        law_how_numbers_are_written(n / 10);
        assert(decimal(n).drop_last() =~= decimal(n / 10));
        assert(decimal(n)[0] == decimal(n / 10)[0]);
    }
}

proof fn lemma_digits_from(text: Seq<char>, at: int, acc: nat, max: nat)
    requires
        0 <= at,
        acc <= max,
    ensures
        digits_from(text, at, acc, max) matches Ok(v) ==> v <= max && forall|i: int|
            at <= i < text.len() ==> is_digit(#[trigger] text[i]),
        digits_from(text, at, acc, max) == Err::<nat, IntError>(IntError::InvalidDigit)
            ==> exists|i: int| at <= i < text.len() && !is_digit(#[trigger] text[i]),
        digits_from(text, at, acc, max) != Err::<nat, IntError>(IntError::Empty),
    decreases text.len() - at,
{
    if at < text.len() && is_digit(text[at]) && acc * 10 + digit_value(text[at]) <= max {
        lemma_digits_from(text, at + 1, acc * 10 + digit_value(text[at]), max);
    }
}

/// What is read as a number: digits behind an optional plus, of a value within the range.
/// An empty text is refused as such, and a text without a stray character is refused for
/// its size alone.
pub proof fn law_what_is_a_number(text: Seq<char>, max: nat)
    ensures
        number(text, max) == Err::<nat, IntError>(IntError::Empty) <==> text.len() == 0,
        number(text, max) matches Ok(v) ==> v <= max && text.len() > 0 && is_digit(text.last()) && (
        text[0] == '+' || is_digit(text[0])) && forall|i: int|
            1 <= i < text.len() ==> is_digit(#[trigger] text[i]),
        number(text, max) == Err::<nat, IntError>(IntError::InvalidDigit) ==> exists|i: int|
            0 <= i < text.len() && !is_digit(#[trigger] text[i]),
{
    if text.len() > 0 {
        lemma_digits_from(text, digits_start(text), 0, max);
    }
}

/// The digits are the ten characters from `0` to `9`, each worth its distance from `0`.
pub proof fn law_what_is_a_digit(c: char)
    ensures
        is_digit(c) <==> 48 <= c as u32 && c as u32 <= 57,
        is_digit(c) ==> digit_value(c) == c as u32 - 48 && digit_value(c) <= 9,
        is_digit('0') && digit_value('0') == 0,
        is_digit('9') && digit_value('9') == 9,
{
}

/// A digit behind a number multiplies it by ten and is added, as long as that is within the
/// range; beyond it the number is refused for its size.
pub proof fn law_how_numbers_are_read(text: Seq<char>, d: char, max: nat, v: nat)
    requires
        '0' <= d <= '9',
        text.len() > 1 || (text.len() == 1 && text[0] != '+'),
        number(text, max) == Ok::<nat, IntError>(v),
    ensures
        v * 10 + (d as int - 48) <= max ==> number(text.push(d), max) == Ok::<nat, IntError>(
            (v * 10 + (d as int - 48)) as nat,
        ),
        v * 10 + (d as int - 48) > max ==> number(text.push(d), max) == Err::<nat, IntError>(
            IntError::PosOverflow,
        ),
{
    reveal_with_fuel(digits_from, 3);
    lemma_digits_from_push(text, d, digits_start(text), 0, max);
}

/// What the errors of reading a number say.
pub proof fn law_number_errors_say_why(e: IntError)
    ensures
        e == IntError::Empty ==> e.text() == "cannot parse integer from empty string"@,
        e == IntError::InvalidDigit ==> e.text() == "invalid digit found in string"@,
        e == IntError::PosOverflow ==> e.text() == "number too large to fit in target type"@,
{
}

proof fn lemma_lines_shift(head: Seq<char>, rest: Seq<char>, from: int)
    requires
        0 <= from,
    ensures
        lines_from(head + rest, head.len() + from) == lines_from(rest, from),
    decreases rest.len() - from,
{
    let text = head + rest;
    let k = head.len() as int;
    if from < rest.len() {
        let end = find_from(rest, '\n', from);
        lemma_find_from(rest, '\n', from);
        assert forall|i: int| k + from <= i < k + end implies text[i] != '\n' by {
            assert(text[i] == rest[i - k]);
        }
        lemma_find_from_is(text, '\n', k + from, k + end);
        if end < rest.len() {
            assert(text.subrange(k + from, k + end) =~= rest.subrange(from, end));
            lemma_lines_shift(head, rest, end + 1);
        } else {
            assert(text.subrange(k + from, text.len() as int) =~= rest.subrange(
                from,
                rest.len() as int,
            ));
        }
    }
}

/// A line ends at a line feed, which goes with a carriage return before it, and the rest of
/// the text is read as lines of its own; what is left behind the last line feed is a line if
/// there is any of it.
pub proof fn law_lines_end_at_line_feeds(line: Seq<char>, rest: Seq<char>)
    requires
        !line.contains('\n'),
    ensures
        spec_lines(line + seq!['\n'] + rest) == seq![
            if line.len() > 0 && line.last() == '\r' {
                line.drop_last()
            } else {
                line
            },
        ] + spec_lines(rest),
        line.len() > 0 ==> spec_lines(line) == seq![line],
        spec_lines(seq![]) == Seq::<Seq<char>>::empty(),
{
    let head = line + seq!['\n'];
    let text = head + rest;
    let n = line.len() as int;
    assert forall|i: int| 0 <= i < n implies text[i] != '\n' && line[i] != '\n' by {
        assert(line.contains(line[i]));
    }
    assert(text[n] == '\n');
    lemma_find_from_is(text, '\n', 0, n);
    assert(text.subrange(0, n) =~= line);
    lemma_lines_shift(head, rest, 0);
    if n > 0 {
        lemma_find_from_is(line, '\n', 0, n);
        assert(line.subrange(0, n) =~= line);
    }
}

proof fn lemma_last_occurrence(hay: Seq<char>, needle: Seq<char>, at: int)
    requires
        -1 <= at,
    ensures
        match last_occurrence(hay, needle, at) {
            None => forall|k: int| 0 <= k <= at ==> !#[trigger] occurs_at(hay, needle, k),
            Some(i) => 0 <= i <= at && occurs_at(hay, needle, i) && forall|k: int|
                i < k <= at ==> !#[trigger] occurs_at(hay, needle, k),
        },
    decreases at + 1,
{
    if at >= 0 && !occurs_at(hay, needle, at) {
        lemma_last_occurrence(hay, needle, at - 1);
    }
}

/// What stands behind the last occurrence of a word: nothing is found exactly if the word
/// does not occur, and what is found does not hold the word again.
pub proof fn law_the_last_occurrence_counts(hay: Seq<char>, needle: Seq<char>)
    ensures
        spec_after_last(hay, needle) is None <==> !has_substring(hay, needle),
        spec_after_last(hay, needle) matches Some(rest) ==> exists|before: Seq<char>|
            hay == #[trigger] (before + needle) + rest,
        needle.len() > 0 ==> (spec_after_last(hay, needle) matches Some(rest) ==> !has_substring(
            rest,
            needle,
        )),
{
    let n = hay.len() as int;
    lemma_last_occurrence(hay, needle, n);
    match last_occurrence(hay, needle, n) {
        None => {
            assert forall|at: int| !#[trigger] occurs_at(hay, needle, at) by {}
        },
        Some(i) => {
            let rest = hay.skip(i + needle.len());
            assert(hay =~= (hay.take(i) + needle) + rest);
            if needle.len() > 0 && has_substring(rest, needle) {
                let k = choose|k: int| #[trigger] occurs_at(rest, needle, k);
                let at = i + needle.len() + k;
                assert(hay.subrange(at, at + needle.len()) =~= rest.subrange(k, k + needle.len()));
                assert(occurs_at(hay, needle, at));
            }
        },
    }
}

/// Joined texts stand one behind the other with the separator between each two.
pub proof fn law_joined_texts_are_separated(list: Seq<Seq<char>>, last: Seq<char>, sep: Seq<char>)
    ensures
        joined(seq![], sep) == Seq::<char>::empty(),
        joined(seq![last], sep) == last,
        list.len() > 0 ==> joined(list.push(last), sep) == joined(list, sep) + sep + last,
        concat(list.push(last)) == concat(list) + last,
        concat(seq![]) == Seq::<char>::empty(),
{
    assert(list.push(last).drop_last() =~= list);
}

/// Bytes that spell a text are read as that text.
pub proof fn law_well_formed_bytes_are_read_as_they_are(text: Seq<char>)
    ensures
        lossy_reading(encode_utf8(text)) == text,
{
    vstd::utf8::encode_utf8_valid_utf8(text);
    vstd::utf8::encode_utf8_decode_utf8(text);
}

} // verus!
