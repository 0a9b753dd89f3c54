//! Character sequences: classification, trimming, searching and number formatting.
//!
//! Screen text is handled as sequences of characters, one per grid column, so
//! that an index into a row's text is also a column of the grid.

use vstd::prelude::*;

verus! {

/// Whether `c` has the Unicode `White_Space` property.
pub open spec fn is_whitespace(c: char) -> bool {
    let u = c as u32;
    ||| 0x09 <= u <= 0x0d
    ||| u == 0x20
    ||| u == 0x85
    ||| u == 0xa0
    ||| u == 0x1680
    ||| 0x2000 <= u <= 0x200a
    ||| u == 0x2028
    ||| u == 0x2029
    ||| u == 0x202f
    ||| u == 0x205f
    ||| u == 0x3000
}

/// Whether `c` has the Unicode `White_Space` property.
pub fn char_is_whitespace(c: char) -> (b: bool)
    ensures
        b == is_whitespace(c),
{
    let u: u32 = c as u32;
    (0x09 <= u && u <= 0x0d) || u == 0x20 || u == 0x85 || u == 0xa0 || u == 0x1680 || (0x2000 <= u
        && u <= 0x200a) || u == 0x2028 || u == 0x2029 || u == 0x202f || u == 0x205f || u == 0x3000
}

/// Whether `c` is one of the ten ASCII digits.
pub open spec fn is_digit(c: char) -> bool {
    '0' <= c <= '9'
}

/// Whether `c` is one of the ten ASCII digits.
pub fn char_is_digit(c: char) -> (b: bool)
    ensures
        b == is_digit(c),
{
    '0' <= c && c <= '9'
}

/// The value of an ASCII digit.
pub open spec fn digit_value(c: char) -> int {
    c as u32 as int - 0x30
}

/// The ASCII lower-case form of `c`; characters other than `A..=Z` are unchanged.
pub open spec fn ascii_lower(c: char) -> char {
    if 'A' <= c <= 'Z' {
        ((c as u32 + 32) as u8) as char
    } else {
        c
    }
}

/// The ASCII lower-case form of `c`.
pub fn to_ascii_lower(c: char) -> (r: char)
    ensures
        r == ascii_lower(c),
{
    if 'A' <= c && c <= 'Z' {
        let b: u8 = (c as u32 + 32) as u8;
        b as char
    } else {
        c
    }
}

/// The first index at or after `i` whose character is not white space, or the length.
pub open spec fn skip_ws(s: Seq<char>, i: int) -> int
    decreases s.len() - i,
{
    if 0 <= i < s.len() && is_whitespace(s[i]) {
        skip_ws(s, i + 1)
    } else {
        i
    }
}

/// The end of the text before `j` once trailing white space is removed.
pub open spec fn skip_ws_back(s: Seq<char>, j: int) -> int
    decreases j,
{
    if 0 < j <= s.len() && is_whitespace(s[j - 1]) {
        skip_ws_back(s, j - 1)
    } else {
        j
    }
}

/// `s` without its leading white space.
pub open spec fn trim_start(s: Seq<char>) -> Seq<char> {
    s.skip(skip_ws(s, 0))
}

/// `s` without its trailing white space.
pub open spec fn trim_end(s: Seq<char>) -> Seq<char> {
    s.take(skip_ws_back(s, s.len() as int))
}

/// `s` without leading and trailing white space.
pub open spec fn trim(s: Seq<char>) -> Seq<char> {
    trim_end(trim_start(s))
}

/// Whether every character of `s` is white space.
pub open spec fn is_blank(s: Seq<char>) -> bool {
    forall|i: int| 0 <= i < s.len() ==> is_whitespace(#[trigger] s[i])
}

/// `skip_ws` stops inside the sequence, on the first character that is not white space.
pub proof fn lemma_skip_ws(s: Seq<char>, i: int)
    requires
        0 <= i <= s.len(),
    ensures
        i <= skip_ws(s, i) <= s.len(),
        forall|k: int| i <= k < skip_ws(s, i) ==> is_whitespace(#[trigger] s[k]),
        skip_ws(s, i) < s.len() ==> !is_whitespace(s[skip_ws(s, i)]),
    decreases s.len() - i,
{
    if i < s.len() && is_whitespace(s[i]) {
        lemma_skip_ws(s, i + 1);
    }
}

/// `skip_ws_back` stops inside the sequence, just after the last character that is not white space.
pub proof fn lemma_skip_ws_back(s: Seq<char>, j: int)
    requires
        0 <= j <= s.len(),
    ensures
        0 <= skip_ws_back(s, j) <= j,
        forall|k: int| skip_ws_back(s, j) <= k < j ==> is_whitespace(#[trigger] s[k]),
        skip_ws_back(s, j) > 0 ==> !is_whitespace(s[skip_ws_back(s, j) - 1]),
    decreases j,
{
    if 0 < j && is_whitespace(s[j - 1]) {
        lemma_skip_ws_back(s, j - 1);
    }
}

/// Trimming leaves a sequence that neither starts nor ends with white space, and is empty
/// exactly for blank input.
pub proof fn lemma_trim(s: Seq<char>)
    ensures
        trim(s).len() <= s.len(),
        trim(s).len() > 0 ==> !is_whitespace(trim(s)[0]) && !is_whitespace(trim(s).last()),
        trim(s).len() == 0 <==> is_blank(s),
        trim(s) == s.subrange(
            skip_ws(s, 0),
            skip_ws(s, 0) + skip_ws_back(trim_start(s), trim_start(s).len() as int),
        ),
{
    lemma_skip_ws(s, 0);
    let a = skip_ws(s, 0);
    let t = trim_start(s);
    lemma_skip_ws_back(t, t.len() as int);
    let b = skip_ws_back(t, t.len() as int);
    assert(trim(s) =~= s.subrange(a, a + b));
    if trim(s).len() == 0 {
        assert forall|i: int| 0 <= i < s.len() implies is_whitespace(#[trigger] s[i]) by {
            if i >= a {
                assert(t[i - a] == s[i]);
            }
        }
    }
    if is_blank(s) {
        if a < s.len() {
            assert(is_whitespace(s[a]));
        }
        assert(b == 0);
    }
    if trim(s).len() > 0 {
        assert(t[0] == s[a]);
        assert(trim(s)[0] == t[0]);
        assert(trim(s).last() == t[b - 1]);
    }
}

/// The characters of `v` from `from` up to `to`.
pub fn subvec(v: &Vec<char>, from: usize, to: usize) -> (r: Vec<char>)
    requires
        from <= to <= v.len(),
    ensures
        r@ == v@.subrange(from as int, to as int),
{
    let mut r: Vec<char> = Vec::new();
    let mut i: usize = from;
    while i < to
        invariant
            from <= i <= to <= v.len(),
            r@ == v@.subrange(from as int, i as int),
        decreases to - i,
    {
        r.push(v[i]);
        i += 1;
        assert(r@ =~= v@.subrange(from as int, i as int));
    }
    r
}

/// The number of leading white-space characters of `v`.
pub fn leading_ws_len(v: &Vec<char>) -> (n: usize)
    ensures
        n == skip_ws(v@, 0),
        n <= v.len(),
{
    let mut i: usize = 0;
    proof {
        lemma_skip_ws(v@, 0);
    }
    while i < v.len() && char_is_whitespace(v[i])
        invariant
            i <= v.len(),
            skip_ws(v@, i as int) == skip_ws(v@, 0),
        decreases v.len() - i,
    {
        i += 1;
    }
    i
}

/// The length of `v` without its trailing white space.
pub fn trailing_ws_start(v: &Vec<char>) -> (n: usize)
    ensures
        n == skip_ws_back(v@, v.len() as int),
        n <= v.len(),
{
    let mut j: usize = v.len();
    while j > 0 && char_is_whitespace(v[j - 1])
        invariant
            j <= v.len(),
            skip_ws_back(v@, j as int) == skip_ws_back(v@, v.len() as int),
        decreases j,
    {
        j -= 1;
    }
    j
}

/// `v` without its leading white space.
pub fn trim_start_chars(v: &Vec<char>) -> (r: Vec<char>)
    ensures
        r@ == trim_start(v@),
{
    let a = leading_ws_len(v);
    let r = subvec(v, a, v.len());
    assert(r@ =~= trim_start(v@));
    r
}

/// `v` without its trailing white space.
pub fn trim_end_chars(v: &Vec<char>) -> (r: Vec<char>)
    ensures
        r@ == trim_end(v@),
{
    let b = trailing_ws_start(v);
    let r = subvec(v, 0, b);
    assert(r@ =~= trim_end(v@));
    r
}

/// `v` without leading and trailing white space.
pub fn trim_chars(v: &Vec<char>) -> (r: Vec<char>)
    ensures
        r@ == trim(v@),
{
    let t = trim_start_chars(v);
    trim_end_chars(&t)
}

/// Whether every character of `v` is white space.
pub fn is_blank_chars(v: &Vec<char>) -> (b: bool)
    ensures
        b == is_blank(v@),
        b == (trim(v@).len() == 0),
{
    proof {
        lemma_trim(v@);
        lemma_skip_ws(v@, 0);
    }
    let n = leading_ws_len(v);
    if n < v.len() {
        assert(!is_whitespace(v@[n as int]));
    }
    n == v.len()
}

/// The first index at or after `from` at which `c` stands, if any.
pub open spec fn index_of(s: Seq<char>, from: int, c: char) -> Option<int>
    decreases s.len() - from,
{
    if from < 0 || from >= s.len() {
        None
    } else if s[from] == c {
        Some(from)
    } else {
        index_of(s, from + 1, c)
    }
}

/// `index_of` returns the first occurrence, and `None` only where there is none.
pub proof fn lemma_index_of(s: Seq<char>, from: int, c: char)
    requires
        0 <= from,
    ensures
        match index_of(s, from, c) {
            Some(i) => from <= i < s.len() && s[i] == c && forall|k: int|
                from <= k < i ==> #[trigger] s[k] != c,
            None => forall|k: int| from <= k < s.len() ==> #[trigger] s[k] != c,
        },
    decreases s.len() - from,
{
    if from < s.len() && s[from] != c {
        lemma_index_of(s, from + 1, c);
    }
}

/// The first index at or after `from` at which `c` stands.
pub fn find_char(v: &Vec<char>, from: usize, c: char) -> (r: Option<usize>)
    ensures
        match r {
            Some(i) => index_of(v@, from as int, c) == Some(i as int) && from <= i < v.len(),
            None => index_of(v@, from as int, c) is None,
        },
{
    let mut i: usize = from;
    while i < v.len()
        invariant
            from <= i,
            index_of(v@, i as int, c) == index_of(v@, from as int, c),
        decreases v.len() - i,
    {
        if v[i] == c {
            return Some(i);
        }
        i += 1;
    }
    None
}

/// The last index before `end` at which `c` stands, if any.
pub open spec fn last_index_of(s: Seq<char>, end: int, c: char) -> Option<int>
    decreases end,
{
    if end <= 0 || end > s.len() {
        None
    } else if s[end - 1] == c {
        Some(end - 1)
    } else {
        last_index_of(s, end - 1, c)
    }
}

/// The last index at which `c` stands.
pub fn rfind_char(v: &Vec<char>, c: char) -> (r: Option<usize>)
    ensures
        match r {
            Some(i) => last_index_of(v@, v.len() as int, c) == Some(i as int) && i < v.len(),
            None => last_index_of(v@, v.len() as int, c) is None,
        },
{
    let mut j: usize = v.len();
    while j > 0
        invariant
            j <= v.len(),
            last_index_of(v@, j as int, c) == last_index_of(v@, v.len() as int, c),
        decreases j,
    {
        if v[j - 1] == c {
            return Some(j - 1);
        }
        j -= 1;
    }
    None
}

/// Whether `c` occurs in `s`.
pub open spec fn has_char(s: Seq<char>, c: char) -> bool {
    exists|i: int| 0 <= i < s.len() && #[trigger] s[i] == c
}

/// Whether `c` occurs in `v`.
pub fn contains_char(v: &Vec<char>, c: char) -> (b: bool)
    ensures
        b == has_char(v@, c),
{
    proof {
        lemma_index_of(v@, 0, c);
    }
    let r = find_char(v, 0, c);
    match r {
        Some(i) => {
            assert(v@[i as int] == c);
            true
        },
        None => false,
    }
}

/// Whether `needle` stands in `hay` at index `i`.
pub open spec fn occurs_at(hay: Seq<char>, i: int, needle: Seq<char>) -> bool {
    &&& 0 <= i
    &&& i + needle.len() <= hay.len()
    &&& hay.subrange(i, i + needle.len()) == needle
}

/// The first index at or after `from` at which `needle` stands in `hay`, if any.
pub open spec fn find_at(hay: Seq<char>, from: int, needle: Seq<char>) -> Option<int>
    decreases hay.len() + 1 - from,
{
    if from < 0 || from + needle.len() > hay.len() {
        None
    } else if occurs_at(hay, from, needle) {
        Some(from)
    } else {
        find_at(hay, from + 1, needle)
    }
}

/// Whether `needle` occurs somewhere in `hay`.
pub open spec fn has_sub(hay: Seq<char>, needle: Seq<char>) -> bool {
    exists|i: int| #[trigger] occurs_at(hay, i, needle)
}

/// `find_at` returns the first occurrence, and `None` only where there is none.
pub proof fn lemma_find_at(hay: Seq<char>, from: int, needle: Seq<char>)
    requires
        0 <= from,
    ensures
        match find_at(hay, from, needle) {
            Some(i) => from <= i && occurs_at(hay, i, needle) && forall|k: int|
                from <= k < i ==> !#[trigger] occurs_at(hay, k, needle),
            None => forall|k: int| from <= k ==> !#[trigger] occurs_at(hay, k, needle),
        },
    decreases hay.len() + 1 - from,
{
    if from + needle.len() <= hay.len() && !occurs_at(hay, from, needle) {
        lemma_find_at(hay, from + 1, needle);
    }
}

/// Whether `needle` stands in `hay` at index `i`.
pub fn matches_at(hay: &Vec<char>, i: usize, needle: &Vec<char>) -> (b: bool)
    ensures
        b == occurs_at(hay@, i as int, needle@),
{
    if needle.len() > hay.len() || i > hay.len() - needle.len() {
        return false;
    }
    let mut k: usize = 0;
    while k < needle.len()
        invariant
            k <= needle.len(),
            i + needle.len() <= hay.len(),
            forall|j: int| 0 <= j < k ==> hay@[i + j] == needle@[j],
        decreases needle.len() - k,
    {
        if hay[i + k] != needle[k] {
            assert(hay@.subrange(i as int, i + needle.len())[k as int] != needle@[k as int]);
            return false;
        }
        k += 1;
    }
    assert(hay@.subrange(i as int, i + needle.len()) =~= needle@);
    true
}

/// The first index at or after `from` at which `needle` stands in `hay`.
pub fn find_sub(hay: &Vec<char>, from: usize, needle: &Vec<char>) -> (r: Option<usize>)
    ensures
        match r {
            Some(i) => find_at(hay@, from as int, needle@) == Some(i as int) && from <= i && i
                + needle.len() <= hay.len(),
            None => find_at(hay@, from as int, needle@) is None,
        },
{
    if needle.len() > hay.len() {
        return None;
    }
    let last: usize = hay.len() - needle.len();
    let mut i: usize = from;
    while i <= last
        invariant
            from <= i,
            last == hay.len() - needle.len(),
            find_at(hay@, i as int, needle@) == find_at(hay@, from as int, needle@),
        decreases last + 1 - i,
    {
        if matches_at(hay, i, needle) {
            return Some(i);
        }
        if i == last {
            assert(find_at(hay@, i + 1, needle@) is None);
            return None;
        }
        i += 1;
    }
    None
}

/// Whether `needle` occurs somewhere in `hay`.
pub fn contains_sub(hay: &Vec<char>, needle: &Vec<char>) -> (b: bool)
    ensures
        b == has_sub(hay@, needle@),
{
    proof {
        lemma_find_at(hay@, 0, needle@);
    }
    match find_sub(hay, 0, needle) {
        Some(i) => {
            assert(occurs_at(hay@, i as int, needle@));
            true
        },
        None => false,
    }
}

/// Whether `s` begins with `prefix`.
pub open spec fn has_prefix(s: Seq<char>, prefix: Seq<char>) -> bool {
    prefix.len() <= s.len() && s.take(prefix.len() as int) == prefix
}

/// Whether `v` begins with `prefix`.
pub fn starts_with(v: &Vec<char>, prefix: &Vec<char>) -> (b: bool)
    ensures
        b == has_prefix(v@, prefix@),
{
    let b = matches_at(v, 0, prefix);
    proof {
        if prefix.len() <= v.len() {
            assert(v@.take(prefix.len() as int) =~= v@.subrange(0, 0 + prefix.len()));
        }
    }
    b
}

/// Appends one character to a string.
///
/// Stands for `String::push`: the string afterwards is the string before with `c` added
/// at its end.
#[verifier::external_body]
fn push_char(s: &mut String, c: char)
    ensures
        final(s)@ == old(s)@.push(c),
{
    s.push(c)
}

/// The characters of `s`, in order.
pub fn to_chars(s: &str) -> (v: Vec<char>)
    ensures
        v@ == s@,
{
    let mut v: Vec<char> = Vec::new();
    for c in it: s.chars()
        invariant
            v@ == it.seq().take(it.index() as int),
            it.seq() == s@,
    {
        v.push(c);
        assert(v@ =~= it.seq().take(it.index() + 1));
    }
    assert(v@ =~= s@);
    v
}

/// The string made of the characters of `v`, in order.
pub fn from_chars(v: &Vec<char>) -> (s: String)
    ensures
        s@ == v@,
{
    let mut s = String::new();
    let mut i: usize = 0;
    while i < v.len()
        invariant
            i <= v.len(),
            s@ == v@.take(i as int),
        decreases v.len() - i,
    {
        push_char(&mut s, v[i]);
        i += 1;
        assert(s@ =~= v@.take(i as int));
    }
    assert(s@ =~= v@);
    s
}

/// Whether two strings hold the same characters.
pub fn str_eq(a: &str, b: &str) -> (r: bool)
    ensures
        r == (a@ == b@),
{
    let x = to_chars(a);
    let y = to_chars(b);
    chars_eq(&x, &y)
}

/// Whether two character vectors are equal.
pub fn chars_eq(a: &Vec<char>, b: &Vec<char>) -> (r: bool)
    ensures
        r == (a@ == b@),
{
    if a.len() != b.len() {
        return false;
    }
    let mut i: usize = 0;
    while i < a.len()
        invariant
            i <= a.len(),
            a.len() == b.len(),
            forall|j: int| 0 <= j < i ==> a@[j] == b@[j],
        decreases a.len() - i,
    {
        if a[i] != b[i] {
            return false;
        }
        i += 1;
    }
    assert(a@ =~= b@);
    true
}

/// Whether `v` holds exactly the characters of `lit`.
pub fn chars_are(v: &Vec<char>, lit: &str) -> (r: bool)
    ensures
        r == (v@ == lit@),
{
    let y = to_chars(lit);
    chars_eq(v, &y)
}

/// The character of a decimal digit `d`.
pub open spec fn digit_char(d: int) -> char {
    ((0x30 + d) as u8) as char
}

/// The decimal numeral of `n`, without leading zeros.
pub open spec fn decimal(n: nat) -> Seq<char>
    decreases n,
{
    if n < 10 {
        seq![digit_char(n as int)]
    } else {
        decimal(n / 10).push(digit_char((n % 10) as int))
    }
}

/// A decimal numeral is a non-empty run of digits.
pub proof fn lemma_decimal_digits(n: nat)
    ensures
        decimal(n).len() >= 1,
        forall|i: int| 0 <= i < decimal(n).len() ==> is_digit(#[trigger] decimal(n)[i]),
        n > 0 ==> decimal(n)[0] != '0',
    decreases n,
{
    if n >= 10 {
        lemma_decimal_digits(n / 10);
    }
}

/// The value that a run of digits denotes.
pub open spec fn decimal_value(s: Seq<char>) -> nat
    decreases s.len(),
{
    if s.len() == 0 {
        0
    } else {
        (decimal_value(s.drop_last()) * 10 + digit_value(s.last())) as nat
    }
}

/// Reading a numeral back gives the number: so distinct numbers have distinct numerals.
pub proof fn lemma_decimal_value(n: nat)
    ensures
        decimal_value(decimal(n)) == n,
    decreases n,
{
    if n < 10 {
        let s = decimal(n);
        assert(s.drop_last() =~= Seq::<char>::empty());
        assert(decimal_value(s.drop_last()) == 0);
    } else {
        lemma_decimal_value(n / 10);
        let s = decimal(n);
        assert(s.drop_last() =~= decimal(n / 10));
    }
}

/// Distinct numbers have distinct numerals.
pub proof fn lemma_decimal_injective(a: nat, b: nat)
    requires
        decimal(a) == decimal(b),
    ensures
        a == b,
{
    lemma_decimal_value(a);
    lemma_decimal_value(b);
}

/// The decimal numeral of `n`.
pub fn decimal_chars(n: u128) -> (r: Vec<char>)
    ensures
        r@ == decimal(n as nat),
    decreases n,
{
    if n < 10 {
        let b: u8 = 0x30 + n as u8;
        let mut r: Vec<char> = Vec::new();
        r.push(b as char);
        assert(r@ =~= decimal(n as nat));
        r
    } else {
        let mut r = decimal_chars(n / 10);
        let b: u8 = 0x30 + (n % 10) as u8;
        r.push(b as char);
        r
    }
}

/// Appends the characters of `tail` to `v`.
pub fn append_chars(v: &mut Vec<char>, tail: &Vec<char>)
    ensures
        final(v)@ == old(v)@ + tail@,
{
    let mut i: usize = 0;
    while i < tail.len()
        invariant
            i <= tail.len(),
            v@ == old(v)@ + tail@.take(i as int),
        decreases tail.len() - i,
    {
        v.push(tail[i]);
        i += 1;
        assert(v@ =~= old(v)@ + tail@.take(i as int));
    }
    assert(tail@.take(tail.len() as int) =~= tail@);
}


/// The UTF-8 encoding of one character.
pub fn char_to_utf8(c: char) -> (bytes: Vec<u8>)
    ensures
        bytes@ == vstd::utf8::encode_utf8(seq![c]),
{
    let mut s = String::new();
    push_char(&mut s, c);
    assert(s@ =~= seq![c]);
    s.as_str().as_bytes_vec()
}

/// Appends the bytes of `tail` to `v`.
pub fn append_bytes(v: &mut Vec<u8>, tail: &Vec<u8>)
    ensures
        final(v)@ == old(v)@ + tail@,
{
    let mut i: usize = 0;
    while i < tail.len()
        invariant
            i <= tail.len(),
            v@ == old(v)@ + tail@.take(i as int),
        decreases tail.len() - i,
    {
        v.push(tail[i]);
        i += 1;
        assert(v@ =~= old(v)@ + tail@.take(i as int));
    }
    assert(tail@.take(tail.len() as int) =~= tail@);
}


/// The longest run of `true` in `flags` from index `i` on, as start and length, given that
/// a run of length `cur` ends just before `i` and that `best` is the longest run seen so
/// far. Of runs of equal length the first wins.
pub open spec fn longest_run_from(flags: Seq<bool>, i: int, cur: int, best: (int, int)) -> (
    int,
    int,
)
    decreases flags.len() - i,
{
    if i < 0 || i >= flags.len() {
        best
    } else if flags[i] {
        let best2 = if cur + 1 > best.1 {
            (i - cur, cur + 1)
        } else {
            best
        };
        longest_run_from(flags, i + 1, cur + 1, best2)
    } else {
        longest_run_from(flags, i + 1, 0, best)
    }
}

/// The longest run of `true` in `flags`, as start and length; the first of the longest
/// where there are several, and `(0, 0)` where there is none.
pub open spec fn longest_run(flags: Seq<bool>) -> (int, int) {
    longest_run_from(flags, 0, 0, (0, 0))
}

/// The run that `longest_run_from` returns lies inside the sequence and holds only `true`.
pub proof fn lemma_longest_run_from(flags: Seq<bool>, i: int, cur: int, best: (int, int))
    requires
        0 <= i <= flags.len(),
        0 <= cur <= i,
        forall|k: int| i - cur <= k < i ==> #[trigger] flags[k],
        0 <= best.0,
        0 <= best.1,
        best.0 + best.1 <= i,
        forall|k: int| best.0 <= k < best.0 + best.1 ==> #[trigger] flags[k],
    ensures
        ({
            let r = longest_run_from(flags, i, cur, best);
            &&& 0 <= r.0
            &&& best.1 <= r.1
            &&& r.0 + r.1 <= flags.len()
            &&& forall|k: int| r.0 <= k < r.0 + r.1 ==> #[trigger] flags[k]
        }),
    decreases flags.len() - i,
{
    if i < flags.len() {
        if flags[i] {
            let best2 = if cur + 1 > best.1 {
                (i - cur, cur + 1)
            } else {
                best
            };
            lemma_longest_run_from(flags, i + 1, cur + 1, best2);
        } else {
            lemma_longest_run_from(flags, i + 1, 0, best);
        }
    }
}

/// The longest run of `true` in `flags`, as start and length.
pub fn longest_true_run(flags: &Vec<bool>) -> (r: (usize, usize))
    ensures
        (r.0 as int, r.1 as int) == longest_run(flags@),
        r.0 + r.1 <= flags.len(),
        forall|k: int| r.0 <= k < r.0 + r.1 ==> #[trigger] flags@[k],
{
    let mut best_start: usize = 0;
    let mut best_len: usize = 0;
    let mut cur: usize = 0;
    let mut i: usize = 0;
    proof {
        lemma_longest_run_from(flags@, 0, 0, (0, 0));
    }
    while i < flags.len()
        invariant
            i <= flags.len(),
            cur <= i,
            best_start + best_len <= i,
            longest_run_from(flags@, i as int, cur as int, (best_start as int, best_len as int))
                == longest_run(flags@),
        decreases flags.len() - i,
    {
        if flags[i] {
            cur += 1;
            if cur > best_len {
                best_start = i + 1 - cur;
                best_len = cur;
            }
        } else {
            cur = 0;
        }
        i += 1;
    }
    (best_start, best_len)
}

} // verus!
