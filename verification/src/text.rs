//! Character-level string helpers: decimal formatting and parsing,
//! byte-offset slicing with UTF-8 boundaries, searching and truncation.

use vstd::prelude::*;
use vstd::utf8::*;
use vstd::string::StringSliceAdditionalSpecFns;

verus! {

/// The decimal digit character for `d` (0..=9).
pub open spec fn digit_char(d: nat) -> char {
    if d == 0 {
        '0'
    } else if d == 1 {
        '1'
    } else if d == 2 {
        '2'
    } else if d == 3 {
        '3'
    } else if d == 4 {
        '4'
    } else if d == 5 {
        '5'
    } else if d == 6 {
        '6'
    } else if d == 7 {
        '7'
    } else if d == 8 {
        '8'
    } else {
        '9'
    }
}

/// Decimal representation of a natural number, without leading zeros.
pub open spec fn digits(n: nat) -> Seq<char>
    decreases n,
{
    if n < 10 {
        seq![digit_char(n)]
    } else {
        digits(n / 10).push(digit_char(n % 10))
    }
}

/// `k` copies of `'0'`.
pub open spec fn zeros(k: int) -> Seq<char> {
    Seq::new(if k > 0 { k as nat } else { 0 }, |i: int| '0')
}

/// What `format!("{:0w$}", n)` writes for an integer `n`: the sign (if any)
/// counts towards the width, zeros are inserted between sign and digits.
pub open spec fn fmt_int(n: int, w: nat) -> Seq<char> {
    if n < 0 {
        let d = digits((-n) as nat);
        seq!['-'] + zeros(w - 1 - d.len()) + d
    } else {
        let d = digits(n as nat);
        zeros(w - d.len()) + d
    }
}

/// Appends one character (`String::push`).
#[verifier::external_body]
pub(crate) fn push_char(s: &mut String, c: char)
    ensures
        final(s)@ == old(s)@.push(c),
{
    s.push(c);
}

fn digit_of(d: u64) -> (c: char)
    requires
        d < 10,
    ensures
        c == digit_char(d as nat),
{
    match d {
        0 => '0',
        1 => '1',
        2 => '2',
        3 => '3',
        4 => '4',
        5 => '5',
        6 => '6',
        7 => '7',
        8 => '8',
        _ => '9',
    }
}


/// `10^k`.
pub open spec fn pow10(k: nat) -> nat
    decreases k,
{
    if k == 0 {
        1
    } else {
        10 * pow10((k - 1) as nat)
    }
}

/// A number below `10^k` has at most `k` digits (and always at least one).
pub proof fn lemma_digits_len(n: nat, k: nat)
    requires
        n < pow10(k),
    ensures
        1 <= digits(n).len() <= if k == 0 { 1 } else { k },
    decreases n,
{
    if n >= 10 {
        assert(k > 1) by {
            if k <= 1 {
                reveal_with_fuel(pow10, 2);
            }
        }
        assert(n / 10 < pow10((k - 1) as nat));
        lemma_digits_len(n / 10, (k - 1) as nat);
    }
}

/// Appends the decimal digits of `n`.
pub fn push_digits(s: &mut String, n: u64)
    ensures
        final(s)@ == old(s)@ + digits(n as nat),
    decreases n,
{
    if n >= 10 {
        push_digits(s, n / 10);
    }
    push_char(s, digit_of(n % 10));
    proof {
        if n >= 10 {
            assert(digits(n as nat) == digits((n / 10) as nat).push(digit_char((n % 10) as nat)));
        }
    }
}

/// Number of decimal digits of `n`.
fn digit_count(n: u64) -> (k: usize)
    ensures
        k == digits(n as nat).len(),
        1 <= k <= 20,
    decreases n,
{
    proof {
        reveal_with_fuel(pow10, 21);
        lemma_digits_len(n as nat, 20);
    }
    if n >= 10 {
        let k = digit_count(n / 10);
        k + 1
    } else {
        1
    }
}

/// Appends `k` zero characters.
pub fn push_zeros(s: &mut String, k: usize)
    ensures
        final(s)@ == old(s)@ + zeros(k as int),
{
    let ghost start = s@;
    let mut i: usize = 0;
    while i < k
        invariant
            i <= k,
            s@ == start + zeros(i as int),
        decreases k - i,
    {
        push_char(s, '0');
        i = i + 1;
        assert(s@ =~= start + zeros(i as int));
    }
}

/// Appends `n` formatted as with `{:0w$}`.
pub fn push_int(s: &mut String, n: i64, w: usize)
    ensures
        final(s)@ == old(s)@ + fmt_int(n as int, w as nat),
{
    let ghost start = s@;
    if n < 0 {
        let m: u64 = ((-(n + 1)) as u64) + 1;
        assert(m as int == -(n as int));
        let k = digit_count(m);
        push_char(s, '-');
        if w > k + 1 {
            push_zeros(s, w - 1 - k);
        } else {
            push_zeros(s, 0);
        }
        push_digits(s, m);
        assert(s@ =~= start + fmt_int(n as int, w as nat));
    } else {
        let m: u64 = n as u64;
        let k = digit_count(m);
        if w > k {
            push_zeros(s, w - k);
        } else {
            push_zeros(s, 0);
        }
        push_digits(s, m);
        assert(s@ =~= start + fmt_int(n as int, w as nat));
    }
}

/// Appends a string slice.
pub fn push_str(s: &mut String, t: &str)
    ensures
        final(s)@ == old(s)@ + t@,
{
    s.append(t);
}

/// The characters of a string slice.
pub fn str_chars(s: &str) -> (v: Vec<char>)
    ensures
        v@ == s@,
{
    let mut v: Vec<char> = Vec::new();
    for c in it: s.chars()
        invariant
            v@ == it.seq().take(it.index() as int),
    {
        v.push(c);
    }
    v
}


pub open spec fn is_digit(c: char) -> bool {
    '0' <= c && c <= '9'
}

/// Value of a digit character.
pub open spec fn digit_value(c: char) -> int {
    (c as int) - ('0' as int)
}

/// Non-empty and made of ASCII digits only.
pub open spec fn all_digits(t: Seq<char>) -> bool {
    t.len() > 0 && forall|i: int| 0 <= i < t.len() ==> is_digit(#[trigger] t[i])
}

/// Decimal value of a digit sequence.
pub open spec fn decimal_value(t: Seq<char>) -> int
    decreases t.len(),
{
    if t.len() == 0 {
        0
    } else {
        10 * decimal_value(t.drop_last()) + digit_value(t.last())
    }
}

/// `str::parse` of an integer type whose range is `lo..=hi`: an optional
/// `+` (or `-` when the type is signed) followed by at least one digit,
/// and a value inside the range.
pub open spec fn parse_int(t: Seq<char>, lo: int, hi: int) -> Option<int> {
    let v = if t.len() > 0 && t[0] == '+' {
        if all_digits(t.drop_first()) {
            Some(decimal_value(t.drop_first()))
        } else {
            None
        }
    } else if lo < 0 && t.len() > 0 && t[0] == '-' {
        if all_digits(t.drop_first()) {
            Some(-decimal_value(t.drop_first()))
        } else {
            None
        }
    } else if all_digits(t) {
        Some(decimal_value(t))
    } else {
        None
    };
    match v {
        Some(x) => if lo <= x <= hi {
            Some(x)
        } else {
            None
        },
        None => None,
    }
}

proof fn lemma_decimal_value_bound(t: Seq<char>)
    requires
        forall|i: int| 0 <= i < t.len() ==> is_digit(#[trigger] t[i]),
    ensures
        0 <= decimal_value(t) < pow10(t.len()),
    decreases t.len(),
{
    if t.len() > 0 {
        let p = t.drop_last();
        assert forall|i: int| 0 <= i < p.len() implies is_digit(#[trigger] p[i]) by {
            assert(p[i] == t[i]);
        }
        lemma_decimal_value_bound(p);
        assert(is_digit(t[t.len() - 1]));
    }
}

/// Parses the digits `t[from..]` (all digits, at most 9 of them).
fn digits_value_of(t: &Vec<char>, from: usize) -> (r: Option<i64>)
    requires
        from <= t.len(),
        t.len() - from <= 9,
    ensures
        r is Some <==> all_digits(t@.subrange(from as int, t.len() as int)),
        r matches Some(v) ==> v == decimal_value(t@.subrange(from as int, t.len() as int)),
        r matches Some(v) ==> 0 <= v < 1_000_000_000,
{
    if from == t.len() {
        return None;
    }
    let mut acc: i64 = 0;
    let mut i: usize = from;
    while i < t.len()
        invariant
            from <= i <= t.len(),
            t.len() - from <= 9,
            forall|j: int| from <= j < i ==> is_digit(#[trigger] t@[j]),
            acc == decimal_value(t@.subrange(from as int, i as int)),
            0 <= acc < pow10((i - from) as nat),
        decreases t.len() - i,
    {
        let c = t[i];
        if !('0' <= c && c <= '9') {
            assert(!is_digit(t@.subrange(from as int, t.len() as int)[i - from]));
            return None;
        }
        let d: i64 = (c as u32 - '0' as u32) as i64;
        proof {
            let sub = t@.subrange(from as int, i + 1);
            assert(sub.drop_last() =~= t@.subrange(from as int, i as int));
            reveal_with_fuel(pow10, 10);
            assert(pow10((i - from) as nat) <= 100_000_000) by {
                lemma_pow10_mono((i - from) as nat, 8);
            }
        }
        acc = acc * 10 + d;
        i = i + 1;
    }
    assert(t@.subrange(from as int, t.len() as int).len() > 0);
    proof {
        reveal_with_fuel(pow10, 10);
        lemma_pow10_mono((i - from) as nat, 9);
    }
    Some(acc)
}

proof fn lemma_pow10_mono(a: nat, b: nat)
    requires
        a <= b,
    ensures
        pow10(a) <= pow10(b),
    decreases b,
{
    if a < b {
        lemma_pow10_mono(a, (b - 1) as nat);
    }
}

/// `str::parse` of an integer whose range is `lo..=hi`, for inputs of at most
/// nine characters.
pub fn parse_int_chars(t: &Vec<char>, lo: i64, hi: i64) -> (r: Option<i64>)
    requires
        t.len() <= 9,
    ensures
        r matches Some(v) ==> parse_int(t@, lo as int, hi as int) == Some(v as int),
        r is None ==> parse_int(t@, lo as int, hi as int) is None,
{
    let v: Option<i64>;
    if t.len() > 0 && t[0] == '+' {
        v = digits_value_of(t, 1);
        assert(t@.subrange(1, t.len() as int) =~= t@.drop_first());
    } else if lo < 0 && t.len() > 0 && t[0] == '-' {
        let m = digits_value_of(t, 1);
        assert(t@.subrange(1, t.len() as int) =~= t@.drop_first());
        v = match m {
            Some(x) => Some(-x),
            None => None,
        };
    } else {
        v = digits_value_of(t, 0);
        assert(t@.subrange(0, t.len() as int) =~= t@);
    }
    match v {
        Some(x) => if lo <= x && x <= hi {
            Some(x)
        } else {
            None
        },
        None => None,
    }
}

/// `str::get(a..b)` on the characters `s`: byte offsets into the UTF-8
/// encoding, defined only when both ends are character boundaries.
pub open spec fn slice_of(s: Seq<char>, a: int, b: int) -> Option<Seq<char>> {
    let bs = encode_utf8(s);
    if a <= b && is_char_boundary(bs, a) && is_char_boundary(bs, b) {
        Some(decode_utf8(bs.subrange(a, b)))
    } else {
        None
    }
}

/// Number of bytes in the UTF-8 encoding (`str::len`).
pub open spec fn byte_len(s: Seq<char>) -> int {
    encode_utf8(s).len() as int
}

proof fn lemma_boundary_in_suffix(bs: Seq<u8>, a: int, b: int)
    requires
        valid_utf8(bs),
        0 <= a <= b,
        is_char_boundary(bs, a),
        is_char_boundary(bs, b),
    ensures
        valid_utf8(bs.subrange(a, bs.len() as int)),
        is_char_boundary(bs.subrange(a, bs.len() as int), b - a),
        b <= bs.len(),
{
    broadcast use valid_utf8_split, is_char_boundary_start_end_of_seq,
        is_char_boundary_iff_not_is_continuation_byte;
    let rest = bs.subrange(a, bs.len() as int);
    if b > bs.len() {
        reveal_with_fuel(is_char_boundary, 1);
    }
    assert(valid_utf8(rest));
    if b - a == 0 {
        assert(is_char_boundary(rest, 0));
    } else if b == bs.len() {
        assert(is_char_boundary(rest, rest.len() as int));
    } else {
        assert(rest[b - a] == bs[b]);
        assert(is_char_boundary(bs, b) <==> !is_continuation_byte(bs[b]));
    }
}

/// `s.get(a..b)`.
pub fn str_get(s: &str, a: usize, b: usize) -> (r: Option<&str>)
    ensures
        r is Some <==> slice_of(s@, a as int, b as int) is Some,
        r matches Some(t) ==> slice_of(s@, a as int, b as int) == Some(t@),
{
    broadcast use encode_utf8_valid_utf8, encode_utf8_decode_utf8;
    if a <= b && s.is_char_boundary(a) && s.is_char_boundary(b) {
        proof {
            lemma_boundary_in_suffix(s.spec_bytes(), a as int, b as int);
        }
        let (_, rest) = s.split_at(a);
        let (mid, _) = rest.split_at(b - a);
        assert(mid.spec_bytes() =~= s.spec_bytes().subrange(a as int, b as int));
        assert(decode_utf8(encode_utf8(mid@)) == mid@);
        Some(mid)
    } else {
        None
    }
}


proof fn lemma_encode_len(s: Seq<char>)
    ensures
        encode_utf8(s).len() >= s.len(),
    decreases s.len(),
{
    if s.len() > 0 {
        lemma_encode_len(s.drop_first());
    }
}

/// A slice of `n` bytes holds at most `n` characters.
pub proof fn lemma_slice_len(s: Seq<char>, a: int, b: int)
    requires
        slice_of(s, a, b) is Some,
    ensures
        0 <= a <= b <= byte_len(s),
        slice_of(s, a, b).unwrap().len() <= b - a,
{
    broadcast use encode_utf8_valid_utf8, valid_utf8_split, is_char_boundary_start_end_of_seq;
    let bs = encode_utf8(s);
    if a < 0 {
        reveal_with_fuel(is_char_boundary, 1);
    }
    lemma_boundary_in_suffix(bs, a, b);
    let rest = bs.subrange(a, bs.len() as int);
    let mid = rest.subrange(0, b - a);
    assert(mid =~= bs.subrange(a, b));
    assert(valid_utf8(mid));
    decode_utf8_encode_utf8(mid);
    lemma_encode_len(decode_utf8(mid));
}

/// Two string slices hold the same characters.
pub fn str_eq(a: &str, b: &str) -> (r: bool)
    ensures
        r == (a@ == b@),
{
    let x = str_chars(a);
    let y = str_chars(b);
    if x.len() != y.len() {
        return false;
    }
    let mut i: usize = 0;
    while i < x.len()
        invariant
            x@ == a@,
            y@ == b@,
            x.len() == y.len(),
            i <= x.len(),
            forall|j: int| 0 <= j < i ==> x@[j] == y@[j],
        decreases x.len() - i,
    {
        if x[i] != y[i] {
            return false;
        }
        i = i + 1;
    }
    assert(x@ =~= y@);
    true
}

/// Appends `v[lo..hi]`.
pub fn push_chars(s: &mut String, v: &Vec<char>, lo: usize, hi: usize)
    requires
        lo <= hi <= v.len(),
    ensures
        final(s)@ == old(s)@ + v@.subrange(lo as int, hi as int),
{
    let ghost start = s@;
    let mut i = lo;
    while i < hi
        invariant
            lo <= i <= hi <= v.len(),
            s@ == start + v@.subrange(lo as int, i as int),
        decreases hi - i,
    {
        push_char(s, v[i]);
        i = i + 1;
        assert(s@ =~= start + v@.subrange(lo as int, i as int));
    }
}

/// A `String` holding `v[lo..hi]`.
pub fn string_of(v: &Vec<char>, lo: usize, hi: usize) -> (s: String)
    requires
        lo <= hi <= v.len(),
    ensures
        s@ == v@.subrange(lo as int, hi as int),
{
    let mut s = String::new();
    push_chars(&mut s, v, lo, hi);
    assert(s@ =~= v@.subrange(lo as int, hi as int));
    s
}

/// The integer in `s[a..b]` (byte offsets), or `default` when that slice
/// does not exist or does not parse as an integer in `lo..=hi`.
pub open spec fn field_or(s: Seq<char>, a: int, b: int, lo: int, hi: int, default: int) -> int {
    match slice_of(s, a, b) {
        Some(t) => match parse_int(t, lo, hi) {
            Some(v) => v,
            None => default,
        },
        None => default,
    }
}

proof fn lemma_parse_int_short(t: Seq<char>, lo: int, hi: int, hi2: int)
    requires
        t.len() <= 9,
        hi >= 1_000_000_000,
        hi2 >= 1_000_000_000,
        lo <= -1_000_000_000 || lo == 0,
    ensures
        parse_int(t, lo, hi) == parse_int(t, if lo == 0 { 0 } else { -1_000_000_000 }, hi2),
{
    reveal_with_fuel(pow10, 10);
    if t.len() > 0 {
        let r = t.drop_first();
        if all_digits(r) {
            lemma_decimal_value_bound(r);
            lemma_pow10_mono(r.len(), 9);
        }
    }
    if all_digits(t) {
        lemma_decimal_value_bound(t);
        lemma_pow10_mono(t.len(), 9);
    }
}

/// `s.get(a..b).and_then(|t| t.parse().ok()).unwrap_or(default)` for a
/// field of at most nine bytes, parsed as an integer in `lo..=hi`.
pub fn parse_field(s: &str, a: usize, b: usize, lo: i64, hi: i64, default: i64) -> (r: i64)
    requires
        b <= a + 9,
        hi >= 1_000_000_000,
        lo <= -1_000_000_000 || lo == 0,
    ensures
        r == field_or(s@, a as int, b as int, lo as int, hi as int, default as int),
{
    match str_get(s, a, b) {
        Some(t) => {
            proof {
                lemma_slice_len(s@, a as int, b as int);
            }
            let v = str_chars(t);
            let lo2: i64 = if lo == 0 { 0 } else { -1_000_000_000 };
            proof {
                lemma_parse_int_short(v@, lo as int, hi as int, 1_000_000_000);
            }
            match parse_int_chars(&v, lo2, 1_000_000_000) {
                Some(x) => x,
                None => default,
            }
        },
        None => default,
    }
}


/// For fields of at most nine bytes the upper bound of the integer type does
/// not matter once it reaches `10^9`.
pub proof fn lemma_field_or_bound(s: Seq<char>, a: int, b: int, lo: int, hi: int, hi2: int, default: int)
    requires
        b <= a + 9,
        hi >= 1_000_000_000,
        hi2 >= 1_000_000_000,
        lo <= -1_000_000_000 || lo == 0,
    ensures
        field_or(s, a, b, lo, hi, default) == field_or(s, a, b, lo, hi2, default),
{
    if slice_of(s, a, b) is Some {
        lemma_slice_len(s, a, b);
        let t = slice_of(s, a, b).unwrap();
        lemma_parse_int_short(t, lo, hi, hi2);
        lemma_parse_int_short(t, lo, hi2, hi2);
    }
}


/// A parsed value of at most four characters has at most four digits.
pub proof fn lemma_parse_value_bound(t: Seq<char>, lo: int, hi: int)
    requires
        t.len() <= 4,
    ensures
        parse_int(t, lo, hi) matches Some(v) ==> -10000 < v < 10000,
{
    reveal_with_fuel(pow10, 5);
    if t.len() > 0 {
        let r = t.drop_first();
        if all_digits(r) {
            lemma_decimal_value_bound(r);
            lemma_pow10_mono(r.len(), 4);
        }
    }
    if all_digits(t) {
        lemma_decimal_value_bound(t);
        lemma_pow10_mono(t.len(), 4);
    }
}


/// Byte-wise lexicographic order (`<` on `str`).
pub open spec fn bytes_lt(a: Seq<u8>, b: Seq<u8>) -> bool
    decreases a.len(),
{
    if a.len() == 0 {
        b.len() > 0
    } else if b.len() == 0 {
        false
    } else if a[0] != b[0] {
        a[0] < b[0]
    } else {
        bytes_lt(a.drop_first(), b.drop_first())
    }
}

/// `a < b` for strings.
pub open spec fn str_lt(a: Seq<char>, b: Seq<char>) -> bool {
    bytes_lt(encode_utf8(a), encode_utf8(b))
}

proof fn lemma_bytes_lt_suffix(a: Seq<u8>, b: Seq<u8>, i: int)
    requires
        0 <= i <= a.len(),
        i <= b.len(),
        a.subrange(0, i) == b.subrange(0, i),
    ensures
        bytes_lt(a, b) == bytes_lt(a.subrange(i, a.len() as int), b.subrange(i, b.len() as int)),
    decreases i,
{
    if i > 0 {
        assert(a[0] == a.subrange(0, i)[0]);
        assert(b[0] == b.subrange(0, i)[0]);
        let a1 = a.drop_first();
        let b1 = b.drop_first();
        assert(a1.subrange(0, i - 1) =~= a.subrange(1, i));
        assert(b1.subrange(0, i - 1) =~= b.subrange(1, i));
        assert(a.subrange(1, i) =~= a.subrange(0, i).drop_first());
        assert(b.subrange(1, i) =~= b.subrange(0, i).drop_first());
        lemma_bytes_lt_suffix(a1, b1, i - 1);
        assert(a1.subrange(i - 1, a1.len() as int) =~= a.subrange(i, a.len() as int));
        assert(b1.subrange(i - 1, b1.len() as int) =~= b.subrange(i, b.len() as int));
    } else {
        assert(a.subrange(0, a.len() as int) =~= a);
        assert(b.subrange(0, b.len() as int) =~= b);
    }
}

/// `a < b` for string slices (byte-wise).
pub fn str_less(a: &str, b: &str) -> (r: bool)
    ensures
        r == str_lt(a@, b@),
{
    let x = a.as_bytes();
    let y = b.as_bytes();
    let mut i: usize = 0;
    while i < x.len() && i < y.len() && x[i] == y[i]
        invariant
            i <= x.len(),
            i <= y.len(),
            x@ == encode_utf8(a@),
            y@ == encode_utf8(b@),
            x@.subrange(0, i as int) == y@.subrange(0, i as int),
        decreases x.len() - i,
    {
        assert(x@.subrange(0, i + 1) =~= x@.subrange(0, i as int).push(x@[i as int]));
        assert(y@.subrange(0, i + 1) =~= y@.subrange(0, i as int).push(y@[i as int]));
        i = i + 1;
    }
    proof {
        lemma_bytes_lt_suffix(x@, y@, i as int);
        let xs = x@.subrange(i as int, x@.len() as int);
        let ys = y@.subrange(i as int, y@.len() as int);
        if i < x.len() && i < y.len() {
            assert(xs[0] == x@[i as int]);
            assert(ys[0] == y@[i as int]);
        }
    }
    if i == x.len() {
        i < y.len()
    } else if i == y.len() {
        false
    } else {
        x[i] < y[i]
    }
}



proof fn lemma_bytes_lt_irrefl(a: Seq<u8>)
    ensures
        !bytes_lt(a, a),
    decreases a.len(),
{
    if a.len() > 0 {
        lemma_bytes_lt_irrefl(a.drop_first());
    }
}

proof fn lemma_bytes_lt_asym(a: Seq<u8>, b: Seq<u8>)
    ensures
        bytes_lt(a, b) ==> !bytes_lt(b, a),
    decreases a.len(),
{
    if a.len() > 0 && b.len() > 0 {
        lemma_bytes_lt_asym(a.drop_first(), b.drop_first());
    }
}

proof fn lemma_bytes_lt_trans(a: Seq<u8>, b: Seq<u8>, c: Seq<u8>)
    ensures
        bytes_lt(a, b) && bytes_lt(b, c) ==> bytes_lt(a, c),
    decreases a.len(),
{
    if a.len() > 0 && b.len() > 0 && c.len() > 0 {
        lemma_bytes_lt_trans(a.drop_first(), b.drop_first(), c.drop_first());
    }
}

proof fn lemma_bytes_lt_total(a: Seq<u8>, b: Seq<u8>)
    ensures
        bytes_lt(a, b) || bytes_lt(b, a) || a == b,
    decreases a.len(),
{
    if a.len() > 0 && b.len() > 0 {
        lemma_bytes_lt_total(a.drop_first(), b.drop_first());
        if a[0] == b[0] && a.drop_first() == b.drop_first() {
            assert(a =~= seq![a[0]] + a.drop_first());
            assert(b =~= seq![b[0]] + b.drop_first());
        }
    } else if a.len() == 0 && b.len() == 0 {
        assert(a =~= b);
    }
}

/// Byte-wise order is a strict total order.
pub proof fn lemma_bytes_lt_order(a: Seq<u8>, b: Seq<u8>, c: Seq<u8>)
    ensures
        !bytes_lt(a, a),
        bytes_lt(a, b) ==> !bytes_lt(b, a),
        bytes_lt(a, b) && bytes_lt(b, c) ==> bytes_lt(a, c),
        bytes_lt(a, b) || bytes_lt(b, a) || a == b,
{
    lemma_bytes_lt_irrefl(a);
    lemma_bytes_lt_asym(a, b);
    lemma_bytes_lt_trans(a, b, c);
    lemma_bytes_lt_total(a, b);
}

/// String order is a strict total order.
pub proof fn lemma_str_lt_order(a: Seq<char>, b: Seq<char>, c: Seq<char>)
    ensures
        !str_lt(a, a),
        str_lt(a, b) ==> !str_lt(b, a),
        str_lt(a, b) && str_lt(b, c) ==> str_lt(a, c),
        str_lt(a, b) || str_lt(b, a) || a == b,
{
    lemma_bytes_lt_order(encode_utf8(a), encode_utf8(b), encode_utf8(c));
    if encode_utf8(a) == encode_utf8(b) {
        encode_utf8_decode_utf8(a);
        encode_utf8_decode_utf8(b);
    }
}


proof fn lemma_digit_char(k: nat)
    requires
        k < 10,
    ensures
        digit_value(digit_char(k)) == k,
        is_digit(digit_char(k)),
{
}

proof fn lemma_digits_value(n: nat)
    ensures
        all_digits(digits(n)),
        decimal_value(digits(n)) == n,
    decreases n,
{
    lemma_digit_char(n % 10);
    if n >= 10 {
        lemma_digits_value(n / 10);
        let p = digits(n / 10);
        let q = p.push(digit_char(n % 10));
        assert(q.drop_last() =~= p);
        assert(q.last() == digit_char(n % 10));
        assert(decimal_value(q) == 10 * decimal_value(p) + digit_value(digit_char(n % 10)));
        assert forall|i: int| 0 <= i < q.len() implies is_digit(#[trigger] q[i]) by {
            if i < p.len() {
                assert(q[i] == p[i]);
            }
        }
    } else {
        let q = seq![digit_char(n)];
        assert(q.drop_last() =~= Seq::<char>::empty());
        assert(decimal_value(q) == 10 * decimal_value(Seq::<char>::empty()) + digit_value(digit_char(n)));
    }
}

proof fn lemma_zeros_value(z: Seq<char>, d: Seq<char>)
    requires
        forall|i: int| 0 <= i < z.len() ==> z[i] == '0',
        forall|i: int| 0 <= i < d.len() ==> is_digit(#[trigger] d[i]),
    ensures
        decimal_value(z + d) == decimal_value(d) + decimal_value(z) * pow10(d.len()),
        decimal_value(z) == 0,
    decreases d.len() + z.len(),
{
    if d.len() > 0 {
        let d1 = d.drop_last();
        assert forall|i: int| 0 <= i < d1.len() implies is_digit(#[trigger] d1[i]) by {
            assert(d1[i] == d[i]);
        }
        lemma_zeros_value(z, d1);
        assert((z + d).drop_last() =~= z + d1);
        assert((z + d).last() == d.last());
        assert(decimal_value(z) == 0);
    } else {
        assert(z + d =~= z);
        if z.len() > 0 {
            let z1 = z.drop_last();
            assert forall|i: int| 0 <= i < z1.len() implies z1[i] == '0' by {
                assert(z1[i] == z[i]);
            }
            lemma_zeros_value(z1, d);
        }
    }
}

/// What `{:0w$}` writes reads back as the same number: parsing the text of
/// `n` (with any zero padding) gives `n` for a type that can hold it.
pub proof fn lemma_fmt_parse_roundtrip(n: int, w: nat, lo: int, hi: int)
    requires
        lo <= n <= hi,
        lo < 0 || n >= 0,
    ensures
        parse_int(fmt_int(n, w), lo, hi) == Some(n),
{
    let m: nat = if n < 0 { (-n) as nat } else { n as nat };
    let d = digits(m);
    lemma_digits_value(m);
    let z = zeros(if n < 0 { w - 1 - d.len() } else { w - d.len() });
    assert forall|i: int| 0 <= i < d.len() implies is_digit(#[trigger] d[i]) by {}
    lemma_zeros_value(z, d);
    let body = z + d;
    assert(body.len() > 0);
    assert forall|i: int| 0 <= i < body.len() implies is_digit(#[trigger] body[i]) by {
        if i < z.len() {
            assert(body[i] == '0');
        } else {
            assert(body[i] == d[i - z.len()]);
        }
    }
    assert(decimal_value(body) == m);
    if n < 0 {
        let t = seq!['-'] + body;
        assert(fmt_int(n, w) == t);
        assert(t.drop_first() =~= body);
        assert(t[0] == '-');
    } else {
        assert(fmt_int(n, w) == body);
        assert(body[0] != '+') by {
            assert(is_digit(body[0]));
        }
        assert(body[0] != '-') by {
            assert(is_digit(body[0]));
        }
    }
}


/// An owned copy of a string slice.
pub fn owned(s: &str) -> (r: String)
    ensures
        r@ == s@,
{
    let mut r = String::new();
    push_str(&mut r, s);
    assert(r@ =~= s@);
    r
}

}
