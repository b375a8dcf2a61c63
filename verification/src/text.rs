use vstd::prelude::*;
use vstd::utf8::*;

verus! {

/// The number of positions `i < n` at which `a` and `b` hold different characters.
pub open spec fn mismatches_upto(a: Seq<char>, b: Seq<char>, n: int) -> nat
    decreases n,
{
    if n <= 0 {
        0
    } else {
        mismatches_upto(a, b, n - 1) + if a[n - 1] != b[n - 1] { 1nat } else { 0nat }
    }
}

/// The number of positions, up to the end of the shorter sequence, at which `a` and `b` differ.
pub open spec fn mismatches(a: Seq<char>, b: Seq<char>) -> nat {
    mismatches_upto(a, b, if a.len() <= b.len() { a.len() as int } else { b.len() as int })
}

/// The characters of `s`, in order.
pub fn chars_of(s: &str) -> (res: Vec<char>)
    ensures
        res@ == s@,
{
    broadcast use vstd::string::group_string_axioms;
    let mut res: Vec<char> = Vec::new();
    for c in it: s.chars()
        invariant
            it.seq() == s@,
            res@ == it.seq().take(it.index() as int),
    {
        res.push(c);
    }
    assert(res@ == s@.take(s@.len() as int));
    res
}

/// Counts the positions at which two strings hold different characters, comparing them
/// character by character up to the end of the shorter one.
pub fn difference(s1: &str, s2: &str) -> (diff: u8)
    requires
        mismatches(s1@, s2@) <= u8::MAX,
    ensures
        diff == mismatches(s1@, s2@),
{
    let a = chars_of(s1);
    let b = chars_of(s2);
    let n: usize = if a.len() <= b.len() { a.len() } else { b.len() };
    let mut diff: u8 = 0;
    let mut i: usize = 0;
    while i < n
        invariant
            a@ == s1@,
            b@ == s2@,
            n <= a.len(),
            n <= b.len(),
            n == if a@.len() <= b@.len() { a@.len() } else { b@.len() },
            i <= n,
            diff == mismatches_upto(a@, b@, i as int),
            mismatches(s1@, s2@) <= u8::MAX,
        decreases n - i,
    {
        proof {
            lemma_mismatches_upto_monotone(a@, b@, i as int + 1, n as int);
        }
        if a[i] != b[i] {
            diff = diff + 1;
        }
        i = i + 1;
    }
    diff
}

proof fn lemma_mismatches_upto_monotone(a: Seq<char>, b: Seq<char>, m: int, n: int)
    requires
        m <= n,
    ensures
        mismatches_upto(a, b, m) <= mismatches_upto(a, b, n),
    decreases n - m,
{
    if m < n {
        lemma_mismatches_upto_monotone(a, b, m, n - 1);
    }
}


// ---------------------------------------------------------------------------
// Byte-level views of strings.
// ---------------------------------------------------------------------------

/// The length in bytes of the UTF-8 encoding of `s`.
pub open spec fn utf8_len(s: Seq<char>) -> int {
    encode_utf8(s).len() as int
}

/// Whether the byte range `from..to` of the UTF-8 encoding of `s` can be sliced out:
/// it lies inside the string and both ends fall on character boundaries.
pub open spec fn slice_ok(s: Seq<char>, from: int, to: int) -> bool {
    &&& 0 <= from <= to <= utf8_len(s)
    &&& is_char_boundary(encode_utf8(s), from)
    &&& is_char_boundary(encode_utf8(s), to)
}

/// The characters that the byte range `from..to` of the UTF-8 encoding of `s` decodes to.
pub open spec fn byte_slice(s: Seq<char>, from: int, to: int) -> Seq<char> {
    decode_utf8(encode_utf8(s).subrange(from, to))
}

proof fn lemma_boundary_after_split(b: Seq<u8>, from: int, to: int)
    requires
        valid_utf8(b),
        0 <= from <= to <= b.len(),
        is_char_boundary(b, from),
        is_char_boundary(b, to),
    ensures
        valid_utf8(b.subrange(from, b.len() as int)),
        is_char_boundary(b.subrange(from, b.len() as int), to - from),
{
    broadcast use group_utf8_lib;

    let c = b.subrange(from, b.len() as int);
    valid_utf8_split(b, from);
    if to == b.len() {
        is_char_boundary_start_end_of_seq(c);
        assert(c.len() == to - from);
    } else {
        is_char_boundary_iff_not_is_continuation_byte(b, to);
        is_char_boundary_iff_not_is_continuation_byte(c, to - from);
        assert(c[to - from] == b[to]);
    }
}

/// The substring `&s[from..to]` (byte indices), or `None` where that slice would be out of
/// range or cut a character.
pub fn str_slice<'a>(s: &'a str, from: usize, to: usize) -> (res: Option<&'a str>)
    ensures
        res is Some <==> slice_ok(s@, from as int, to as int),
        res matches Some(t) ==> t@ == byte_slice(s@, from as int, to as int),
{
    broadcast use group_utf8_lib;

    if from <= to && to <= str_len(s) && s.is_char_boundary(from) && s.is_char_boundary(to) {
        proof {
            lemma_boundary_after_split(encode_utf8(s@), from as int, to as int);
        }
        let (_, rest) = s.split_at(from);
        let (mid, _) = rest.split_at(to - from);
        proof {
            let b = encode_utf8(s@);
            assert(encode_utf8(mid@) =~= b.subrange(from as int, to as int));
            assert(decode_utf8(encode_utf8(mid@)) == mid@);
        }
        Some(mid)
    } else {
        None
    }
}

/// The length in bytes of the UTF-8 encoding of `s`.
pub fn str_len(s: &str) -> (n: usize)
    ensures
        n == utf8_len(s@),
{
    s.as_bytes().len()
}

fn bytes_eq(x: &[u8], y: &[u8]) -> (r: bool)
    ensures
        r == (x@ == y@),
{
    if x.len() != y.len() {
        return false;
    }
    let mut i: usize = 0;
    while i < x.len()
        invariant
            x@.len() == y@.len(),
            i <= x@.len(),
            forall|j: int| 0 <= j < i ==> x@[j] == y@[j],
        decreases x@.len() - i,
    {
        if x[i] != y[i] {
            return false;
        }
        i = i + 1;
    }
    assert(x@ =~= y@);
    true
}

/// Whether two strings hold the same characters.
pub fn str_eq(a: &str, b: &str) -> (r: bool)
    ensures
        r == (a@ == b@),
{
    broadcast use group_utf8_lib;

    let r = bytes_eq(a.as_bytes(), b.as_bytes());
    proof {
        if r {
            assert(decode_utf8(encode_utf8(a@)) == a@);
            assert(decode_utf8(encode_utf8(b@)) == b@);
        }
    }
    r
}

/// Appends one character to a string (`String::push`).
#[verifier::external_body]
pub(crate) fn string_push(s: &mut String, c: char)
    ensures
        final(s)@ == old(s)@.push(c),
{
    s.push(c);
}

/// A copy of `s` as an owned string.
pub fn owned(s: &str) -> (res: String)
    ensures
        res@ == s@,
{
    s.to_owned()
}

/// `a` followed by `b`, as a new string.
pub fn concat(a: &str, b: &str) -> (res: String)
    ensures
        res@ == a@ + b@,
{
    let mut r = a.to_owned();
    r.append(b);
    r
}

// ---------------------------------------------------------------------------
// Decimal numbers.
// ---------------------------------------------------------------------------

pub open spec fn is_digit(c: char) -> bool {
    '0' <= c <= '9'
}

pub open spec fn digit_value(c: char) -> nat {
    (c as int - '0' as int) as nat
}

/// The number that a sequence of decimal digits denotes.
pub open spec fn digits_value(s: Seq<char>) -> nat
    decreases s.len(),
{
    if s.len() == 0 {
        0
    } else {
        digits_value(s.drop_last()) * 10 + digit_value(s.last())
    }
}

/// The digits of an unsigned number in text: an optional leading `+` is dropped.
pub open spec fn unsigned_digits(s: Seq<char>) -> Seq<char> {
    if s.len() > 0 && s[0] == '+' {
        s.drop_first()
    } else {
        s
    }
}

/// How `str::parse` reads an unsigned integer of at most `max`: an optional `+`, then one or
/// more decimal digits and nothing else, denoting a number no larger than `max`.
pub open spec fn parse_unsigned(s: Seq<char>, max: nat) -> Option<nat> {
    let d = unsigned_digits(s);
    if d.len() > 0 && (forall|i: int| 0 <= i < d.len() ==> is_digit(#[trigger] d[i]))
        && digits_value(d) <= max {
        Some(digits_value(d))
    } else {
        None
    }
}

/// `s.parse::<u32>()`, as an `Option`.
pub open spec fn parse_u32_of(s: Seq<char>) -> Option<u32> {
    match parse_unsigned(s, u32::MAX as nat) {
        Some(v) => Some(v as u32),
        None => None,
    }
}

/// `s.parse::<u8>()`, as an `Option`.
pub open spec fn parse_u8_of(s: Seq<char>) -> Option<u8> {
    match parse_unsigned(s, u8::MAX as nat) {
        Some(v) => Some(v as u8),
        None => None,
    }
}

proof fn lemma_digits_value_prefix_grows(d: Seq<char>, k: int, n: int)
    requires
        0 <= k <= n <= d.len(),
        forall|i: int| 0 <= i < d.len() ==> is_digit(#[trigger] d[i]),
    ensures
        digits_value(d.take(k)) <= digits_value(d.take(n)),
    decreases n - k,
{
    if k < n {
        lemma_digits_value_prefix_grows(d, k, n - 1);
        assert(d.take(n).drop_last() =~= d.take(n - 1));
    }
}

fn parse_unsigned_exec(s: &str, max: u32) -> (res: Option<u32>)
    ensures
        match parse_unsigned(s@, max as nat) {
            Some(v) => res == Some(v as u32),
            None => res is None,
        },
{
    let v = chars_of(s);
    let start: usize = if v.len() > 0 && v[0] == '+' { 1 } else { 0 };
    let ghost d = unsigned_digits(s@);
    assert(d =~= v@.subrange(start as int, v@.len() as int));
    if start == v.len() {
        return None;
    }
    let mut acc: u64 = 0;
    let mut i: usize = start;
    while i < v.len()
        invariant
            v@ == s@,
            d == unsigned_digits(s@),
            d == v@.subrange(start as int, v@.len() as int),
            start < v@.len(),
            start <= i <= v@.len(),
            forall|j: int| 0 <= j < i - start ==> is_digit(#[trigger] d[j]),
            acc == digits_value(d.take(i - start)),
            acc <= max,
        decreases v@.len() - i,
    {
        let c = v[i];
        if !('0' <= c && c <= '9') {
            assert(!is_digit(d[i - start]));
            assert(!(forall|j: int| 0 <= j < d.len() ==> is_digit(#[trigger] d[j])));
            assert(parse_unsigned(s@, max as nat) is None);
            return None;
        }
        let dv: u64 = (c as u32 - 48) as u64;
        assert(d.take(i - start + 1).drop_last() =~= d.take(i - start));
        acc = acc * 10 + dv;
        i = i + 1;
        if acc > max as u64 {
            proof {
                if forall|j: int| 0 <= j < d.len() ==> is_digit(#[trigger] d[j]) {
                    lemma_digits_value_prefix_grows(d, i - start, d.len() as int);
                    assert(d.take(d.len() as int) =~= d);
                }
                assert(parse_unsigned(s@, max as nat) is None);
            }
            return None;
        }
    }
    assert(d.take(d.len() as int) =~= d);
    Some(acc as u32)
}

/// `s.parse::<u32>().ok()`.
pub fn parse_u32(s: &str) -> (res: Option<u32>)
    ensures
        res == parse_u32_of(s@),
{
    parse_unsigned_exec(s, u32::MAX)
}

/// `s.parse::<u8>().ok()`.
pub fn parse_u8(s: &str) -> (res: Option<u8>)
    ensures
        res == parse_u8_of(s@),
{
    match parse_unsigned_exec(s, 255) {
        Some(v) => Some(v as u8),
        None => None,
    }
}

pub open spec fn digit_char(d: nat) -> char {
    if d == 0 { '0' }
    else if d == 1 { '1' }
    else if d == 2 { '2' }
    else if d == 3 { '3' }
    else if d == 4 { '4' }
    else if d == 5 { '5' }
    else if d == 6 { '6' }
    else if d == 7 { '7' }
    else if d == 8 { '8' }
    else { '9' }
}

/// The decimal representation of `n`, as `n.to_string()` writes it.
pub open spec fn decimal(n: nat) -> Seq<char>
    decreases n,
{
    if n < 10 {
        seq![digit_char(n)]
    } else {
        decimal(n / 10).push(digit_char(n % 10))
    }
}

/// `decimal(n)`, with zeros in front up to `width` characters, as `format!("{:0w$}", n)` writes it.
pub open spec fn zero_padded(n: nat, width: nat) -> Seq<char> {
    let d = decimal(n);
    if d.len() < width {
        Seq::new((width - d.len()) as nat, |i: int| '0') + d
    } else {
        d
    }
}

fn digit_to_char(d: u32) -> (c: char)
    requires
        d < 10,
    ensures
        c == digit_char(d as nat),
{
    if d == 0 { '0' }
    else if d == 1 { '1' }
    else if d == 2 { '2' }
    else if d == 3 { '3' }
    else if d == 4 { '4' }
    else if d == 5 { '5' }
    else if d == 6 { '6' }
    else if d == 7 { '7' }
    else if d == 8 { '8' }
    else { '9' }
}

/// `n.to_string()`.
pub fn decimal_string(n: u32) -> (res: String)
    ensures
        res@ == decimal(n as nat),
    decreases n,
{
    if n < 10 {
        let mut s = String::new();
        string_push(&mut s, digit_to_char(n));
        assert(s@ =~= seq![digit_char(n as nat)]);
        s
    } else {
        let mut s = decimal_string(n / 10);
        string_push(&mut s, digit_to_char(n % 10));
        s
    }
}

/// `format!("{:0width$}", n)`.
pub fn zero_padded_string(n: u32, width: usize) -> (res: String)
    ensures
        res@ == zero_padded(n as nat, width as nat),
{
    let d = decimal_string(n);
    let len = chars_of(d.as_str()).len();
    if len < width {
        let mut s = String::new();
        let mut i: usize = 0;
        while i < width - len
            invariant
                i <= width - len,
                s@ == Seq::new(i as nat, |k: int| '0'),
            decreases width - len - i,
        {
            string_push(&mut s, '0');
            i = i + 1;
            assert(s@ =~= Seq::new(i as nat, |k: int| '0'));
        }
        s.append(d.as_str());
        s
    } else {
        d
    }
}


/// `String::from_utf8(bytes).ok()`. Trusted (as std documents): the bytes are taken exactly
/// when they are valid UTF-8, and the string holds the characters that they encode.
#[verifier::external_body]
pub(crate) fn string_from_utf8(bytes: Vec<u8>) -> (res: Option<String>)
    ensures
        res is Some <==> valid_utf8(bytes@),
        res matches Some(s) ==> s@ == decode_utf8(bytes@),
{
    String::from_utf8(bytes).ok()
}


// ---------------------------------------------------------------------------
// Laws.
// ---------------------------------------------------------------------------

proof fn lemma_mismatches_upto_symmetric(a: Seq<char>, b: Seq<char>, n: int)
    ensures
        mismatches_upto(a, b, n) == mismatches_upto(b, a, n),
    decreases n,
{
    if n > 0 {
        lemma_mismatches_upto_symmetric(a, b, n - 1);
    }
}

proof fn lemma_mismatches_upto_self(a: Seq<char>, n: int)
    ensures
        mismatches_upto(a, a, n) == 0,
    decreases n,
{
    if n > 0 {
        lemma_mismatches_upto_self(a, n - 1);
    }
}

proof fn lemma_mismatches_upto_at_most(a: Seq<char>, b: Seq<char>, n: int)
    requires
        n >= 0,
    ensures
        mismatches_upto(a, b, n) <= n,
    decreases n,
{
    if n > 0 {
        lemma_mismatches_upto_at_most(a, b, n - 1);
    }
}

/// The difference of two strings does not depend on their order, a string differs from
/// itself nowhere, and two strings differ in at most as many positions as the shorter has
/// characters.
pub proof fn lemma_difference_laws(a: Seq<char>, b: Seq<char>)
    ensures
        mismatches(a, b) == mismatches(b, a),
        mismatches(a, a) == 0,
        mismatches(a, b) <= a.len(),
        mismatches(a, b) <= b.len(),
{
    let n = if a.len() <= b.len() { a.len() as int } else { b.len() as int };
    lemma_mismatches_upto_symmetric(a, b, n);
    lemma_mismatches_upto_self(a, a.len() as int);
    lemma_mismatches_upto_at_most(a, b, n);
}

pub(crate) proof fn lemma_decimal_digits(n: nat)
    ensures
        decimal(n).len() >= 1,
        decimal(n)[0] != '+',
        forall|i: int| 0 <= i < decimal(n).len() ==> is_digit(#[trigger] decimal(n)[i]),
        digits_value(decimal(n)) == n,
    decreases n,
{
    if n >= 10 {
        let q = n / 10;
        let r = n % 10;
        lemma_decimal_digits(q);
        let s = decimal(q);
        let t = s.push(digit_char(r));
        assert(decimal(n) == t);
        assert(t.drop_last() =~= s);
        assert(t.last() == digit_char(r));
        assert(digit_value(digit_char(r)) == r);
        assert(digits_value(t) == digits_value(t.drop_last()) * 10 + digit_value(t.last()));
        assert(n == q * 10 + r) by (nonlinear_arith)
            requires
                q == n / 10,
                r == n % 10,
        ;
        assert(t[0] == s[0]);
        assert forall|i: int| 0 <= i < t.len() implies is_digit(#[trigger] t[i]) by {
            if i < s.len() {
                assert(t[i] == s[i]);
            }
        }
    } else {
        let t = seq![digit_char(n)];
        assert(decimal(n) == t);
        assert(digit_value(digit_char(n)) == n);
        assert(t.drop_last() =~= Seq::<char>::empty());
        assert(digits_value(t) == digits_value(t.drop_last()) * 10 + digit_value(t.last()));
    }
}

/// A number written in decimal reads back as the same number: what the document writes of a
/// count is what `str::parse` reads of it.
pub proof fn lemma_decimal_reads_back(n: nat, max: nat)
    requires
        n <= max,
    ensures
        parse_unsigned(decimal(n), max) == Some(n),
{
    lemma_decimal_digits(n);
}

proof fn lemma_mismatches_upto_prefixes(a: Seq<char>, b: Seq<char>, a2: Seq<char>, b2: Seq<char>, n: int)
    requires
        n <= a.len(),
        n <= a2.len(),
        n <= b.len(),
        n <= b2.len(),
        forall|i: int| 0 <= i < n ==> a[i] == a2[i] && b[i] == b2[i],
    ensures
        mismatches_upto(a, b, n) == mismatches_upto(a2, b2, n),
    decreases n,
{
    if n > 0 {
        lemma_mismatches_upto_prefixes(a, b, a2, b2, n - 1);
    }
}

/// The difference counts every position: two strings of equal length, each extended by one
/// character, differ in one more position exactly when the two characters differ; and two
/// empty strings differ nowhere.
pub proof fn lemma_mismatches_step(a: Seq<char>, b: Seq<char>, x: char, y: char)
    requires
        a.len() == b.len(),
    ensures
        mismatches(a.push(x), b.push(y)) == mismatches(a, b) + if x != y { 1nat } else { 0nat },
        mismatches(Seq::<char>::empty(), Seq::<char>::empty()) == 0,
{
    let n = a.len() as int;
    lemma_mismatches_upto_prefixes(a.push(x), b.push(y), a, b, n);
    assert(a.push(x)[n] == x && b.push(y)[n] == y);
}

/// Only the positions that both strings have count: the difference of two strings is that of
/// their prefixes as long as the shorter one.
pub proof fn lemma_mismatches_shorter(a: Seq<char>, b: Seq<char>)
    ensures
        ({
            let m = if a.len() <= b.len() { a.len() as int } else { b.len() as int };
            mismatches(a, b) == mismatches(a.take(m), b.take(m))
        }),
{
    let m = if a.len() <= b.len() { a.len() as int } else { b.len() as int };
    lemma_mismatches_upto_prefixes(a, b, a.take(m), b.take(m), m);
}

proof fn lemma_zeros_value(z: Seq<char>)
    requires
        forall|i: int| 0 <= i < z.len() ==> z[i] == '0',
    ensures
        digits_value(z) == 0,
    decreases z.len(),
{
    if z.len() > 0 {
        lemma_zeros_value(z.drop_last());
    }
}

proof fn lemma_leading_zeros_value(z: Seq<char>, d: Seq<char>)
    requires
        forall|i: int| 0 <= i < z.len() ==> z[i] == '0',
    ensures
        digits_value(z + d) == digits_value(d),
    decreases d.len(),
{
    if d.len() == 0 {
        assert(z + d =~= z);
        lemma_zeros_value(z);
    } else {
        lemma_leading_zeros_value(z, d.drop_last());
        assert((z + d).drop_last() =~= z + d.drop_last());
        assert((z + d).last() == d.last());
    }
}

proof fn lemma_decimal_len(n: nat, w: nat, bound: nat)
    requires
        1 <= w,
        n < bound,
        bound == if w == 1 { 10nat } else if w == 2 { 100nat } else { 1000nat },
        w <= 3,
    ensures
        decimal(n).len() <= w,
    decreases w,
{
    if n >= 10 {
        let q = n / 10;
        let w2 = (w - 1) as nat;
        let b2 = if w2 == 1 { 10nat } else { 100nat };
        assert(w >= 2);
        lemma_decimal_len(q, w2, b2);
    }
}

/// A number below `10^w` (for a width `w` of one to three) written zero-padded to `w` places
/// takes exactly `w` characters, all digits, and reads back as the number.
pub proof fn lemma_zero_padded_reads_back(n: nat, w: nat)
    requires
        1 <= w <= 3,
        n < if w == 1 { 10nat } else if w == 2 { 100nat } else { 1000nat },
    ensures
        zero_padded(n, w).len() == w,
        forall|i: int| 0 <= i < w ==> is_digit(#[trigger] zero_padded(n, w)[i]),
        digits_value(zero_padded(n, w)) == n,
        parse_unsigned(zero_padded(n, w), n) == Some(n),
{
    let bound = if w == 1 { 10nat } else if w == 2 { 100nat } else { 1000nat };
    lemma_decimal_len(n, w, bound);
    lemma_decimal_digits(n);
    let d = decimal(n);
    let s = zero_padded(n, w);
    if d.len() < w {
        let z = Seq::new((w - d.len()) as nat, |i: int| '0');
        assert(s == z + d);
        lemma_leading_zeros_value(z, d);
        assert forall|i: int| 0 <= i < w implies is_digit(#[trigger] s[i]) by {
            if i < z.len() {
                assert(s[i] == z[i]);
            } else {
                assert(s[i] == d[i - z.len()]);
            }
        }
    }
    assert(s[0] != '+') by {
        assert(is_digit(s[0]));
    }
    assert(unsigned_digits(s) == s);
}

} // verus!
