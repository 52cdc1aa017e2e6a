//! Text building blocks shared by the command-line tools: decimal and
//! hexadecimal rendering, column padding, integer parsing with the same
//! acceptance rules as Rust's `FromStr` for integers, and a few character
//! level scans over strings.
use vstd::prelude::*;

verus! {

// ───────────────────────────── std wrappers ─────────────────────────────

/// `String::push`: appends one character.
#[verifier::external_body]
pub(crate) fn push_char(s: &mut String, c: char)
    ensures
        final(s)@ == old(s)@.push(c),
{
    s.push(c)
}

/// `str == str`: the two strings hold the same characters.
pub(crate) fn str_eq(a: &str, b: &str) -> (r: bool)
    ensures
        r == (a@ == b@),
{
    let n = a.unicode_len();
    if n != b.unicode_len() {
        return false;
    }
    let mut i: usize = 0;
    while i < n
        invariant
            n == a@.len(),
            n == b@.len(),
            i <= n,
            forall|k: int| 0 <= k < i ==> a@[k] == b@[k],
        decreases n - i,
    {
        if a.get_char(i) != b.get_char(i) {
            return false;
        }
        i = i + 1;
    }
    proof {
        assert(a@ =~= b@);
    }
    true
}

/// `<str as ToOwned>::to_owned`: a `String` with the same characters.
pub fn owned(s: &str) -> (r: String)
    ensures
        r@ == s@,
{
    String::from_str(s)
}

// ───────────────────────────── decimal rendering ─────────────────────────────

/// The ASCII digit for `d` (0..=9).
pub open spec fn digit_char(d: int) -> char {
    (('0' as int) + d) as char
}

/// Decimal rendering of a natural number, most significant digit first,
/// with no leading zeros (`0` renders as `"0"`).
pub open spec fn dec(n: nat) -> Seq<char>
    decreases n,
{
    if n < 10 {
        seq![digit_char(n as int)]
    } else {
        dec(n / 10).push(digit_char((n % 10) as int))
    }
}

/// Decimal rendering of an integer: a `-` sign before negative values.
pub open spec fn dec_int(i: int) -> Seq<char> {
    if i < 0 {
        seq!['-'] + dec((-i) as nat)
    } else {
        dec(i as nat)
    }
}

pub proof fn lemma_dec_nonempty(n: nat)
    ensures
        dec(n).len() >= 1,
    decreases n,
{
    if n >= 10 {
        lemma_dec_nonempty(n / 10);
    }
}

fn digit(d: u64) -> (c: char)
    requires
        d < 10,
    ensures
        c == digit_char(d as int),
{
    let c = if d == 0 {
        '0'
    } else if d == 1 {
        '1'
    } else if d == 2 {
        '2'
    } else if d == 3 {
        '3'
    } else if d == 4 {
        '4'
    } else if d == 5 {
        '5'
    } else if d == 6 {
        '6'
    } else if d == 7 {
        '7'
    } else if d == 8 {
        '8'
    } else {
        '9'
    };
    c
}

/// Appends the decimal rendering of `n`.
pub fn append_dec(s: &mut String, n: u64)
    ensures
        final(s)@ == old(s)@ + dec(n as nat),
    decreases n,
{
    if n >= 10 {
        append_dec(s, n / 10);
    }
    let c = digit(n % 10);
    push_char(s, c);
    proof {
        if n < 10 {
            assert(dec(n as nat) == seq![c]);
        }
        assert(final(s)@ =~= old(s)@ + dec(n as nat));
    }
}

/// The decimal rendering of `n` (`n.to_string()`).
pub fn u64_to_dec(n: u64) -> (r: String)
    ensures
        r@ == dec(n as nat),
{
    let mut s = String::new();
    append_dec(&mut s, n);
    proof {
        assert(s@ =~= dec(n as nat));
    }
    s
}

/// Appends the decimal rendering of a signed value.
pub fn append_dec_i64(s: &mut String, n: i64)
    ensures
        final(s)@ == old(s)@ + dec_int(n as int),
{
    if n < 0 {
        push_char(s, '-');
        let m: u64 = ((-(n + 1)) as u64) + 1;
        append_dec(s, m);
        proof {
            assert(m as int == -(n as int));
            assert(final(s)@ =~= old(s)@ + dec_int(n as int));
        }
    } else {
        append_dec(s, n as u64);
    }
}

// ───────────────────────────── hexadecimal rendering ─────────────────────────────

/// Upper-case hexadecimal digit for `d` (0..=15).
pub open spec fn hex_upper_char(d: int) -> char {
    if d < 10 {
        digit_char(d)
    } else {
        (('A' as int) + (d - 10)) as char
    }
}

/// Two upper-case hexadecimal digits for a byte (`{:02X}`).
pub open spec fn hex2_upper(b: u8) -> Seq<char> {
    seq![hex_upper_char(b as int / 16), hex_upper_char(b as int % 16)]
}

fn hex_upper_digit(d: u8) -> (c: char)
    requires
        d < 16,
    ensures
        c == hex_upper_char(d as int),
{
    if d < 10 {
        digit(d as u64)
    } else if d == 10 {
        'A'
    } else if d == 11 {
        'B'
    } else if d == 12 {
        'C'
    } else if d == 13 {
        'D'
    } else if d == 14 {
        'E'
    } else {
        'F'
    }
}

/// Appends two upper-case hexadecimal digits for `b`.
pub fn append_hex2_upper(s: &mut String, b: u8)
    ensures
        final(s)@ == old(s)@ + hex2_upper(b),
{
    let hi = hex_upper_digit(b / 16);
    let lo = hex_upper_digit(b % 16);
    push_char(s, hi);
    push_char(s, lo);
    proof {
        assert(final(s)@ =~= old(s)@ + hex2_upper(b));
    }
}

// ───────────────────────────── padding ─────────────────────────────

/// `n` spaces.
pub open spec fn spaces(n: nat) -> Seq<char> {
    Seq::new(n, |_i: int| ' ')
}

/// `s` followed by spaces up to `width` characters (`{:<width}`).
pub open spec fn pad_right(s: Seq<char>, width: nat) -> Seq<char> {
    if s.len() >= width {
        s
    } else {
        s + spaces((width - s.len()) as nat)
    }
}

/// Spaces up to `width` characters followed by `s` (`{:>width}`).
pub open spec fn pad_left(s: Seq<char>, width: nat) -> Seq<char> {
    if s.len() >= width {
        s
    } else {
        spaces((width - s.len()) as nat) + s
    }
}

/// Appends `n` spaces.
pub fn append_spaces(s: &mut String, n: usize)
    ensures
        final(s)@ == old(s)@ + spaces(n as nat),
{
    let mut i: usize = 0;
    while i < n
        invariant
            i <= n,
            s@ == old(s)@ + spaces(i as nat),
        decreases n - i,
    {
        push_char(s, ' ');
        i = i + 1;
        proof {
            assert(s@ =~= old(s)@ + spaces(i as nat));
        }
    }
}

/// Appends `t` left-aligned in a column of `width` characters.
pub fn append_pad_right(s: &mut String, t: &str, width: usize)
    ensures
        final(s)@ == old(s)@ + pad_right(t@, width as nat),
{
    let len = t.unicode_len();
    s.append(t);
    if len < width {
        append_spaces(s, width - len);
        proof {
            assert(final(s)@ =~= old(s)@ + pad_right(t@, width as nat));
        }
    }
}

/// Appends `t` right-aligned in a column of `width` characters.
pub fn append_pad_left(s: &mut String, t: &str, width: usize)
    ensures
        final(s)@ == old(s)@ + pad_left(t@, width as nat),
{
    let len = t.unicode_len();
    if len < width {
        append_spaces(s, width - len);
    }
    s.append(t);
    proof {
        assert(final(s)@ =~= old(s)@ + pad_left(t@, width as nat));
    }
}

/// Appends the decimal rendering of `n` right-aligned in `width` columns
/// (`{:>width}` / `{:width}` for integers).
pub fn append_dec_pad_left(s: &mut String, n: u64, width: usize)
    ensures
        final(s)@ == old(s)@ + pad_left(dec(n as nat), width as nat),
{
    let d = u64_to_dec(n);
    append_pad_left(s, d.as_str(), width);
}

/// Appends the decimal rendering of `n` left-aligned in `width` columns.
pub fn append_dec_pad_right(s: &mut String, n: u64, width: usize)
    ensures
        final(s)@ == old(s)@ + pad_right(dec(n as nat), width as nat),
{
    let d = u64_to_dec(n);
    append_pad_right(s, d.as_str(), width);
}

/// Appends the decimal rendering of `n`, zero-filled on the left to `width`
/// digits (`{:0width}`).
pub open spec fn zero_pad(s: Seq<char>, width: nat) -> Seq<char> {
    if s.len() >= width {
        s
    } else {
        Seq::new((width - s.len()) as nat, |_i: int| '0') + s
    }
}

pub fn append_dec_zero_pad(s: &mut String, n: u64, width: usize)
    ensures
        final(s)@ == old(s)@ + zero_pad(dec(n as nat), width as nat),
{
    let d = u64_to_dec(n);
    let len = d.as_str().unicode_len();
    let mut i: usize = len;
    let ghost start = s@;
    while i < width
        invariant
            len == d@.len(),
            len <= i,
            i <= width || len > width,
            len >= width ==> i == len,
            s@ == start + Seq::new((i - len) as nat, |_j: int| '0'),
        decreases width - i,
    {
        push_char(s, '0');
        i = i + 1;
        proof {
            assert(s@ =~= start + Seq::new((i - len) as nat, |_j: int| '0'));
        }
    }
    proof {
        if len < width {
            assert(i == width);
        } else {
            assert(i == len);
        }
        assert(d@ == dec(n as nat));
    }
    s.append(d.as_str());
    proof {
        assert(s@ =~= old(s)@ + zero_pad(dec(n as nat), width as nat));
    }
}

// ───────────────────────────── parsing ─────────────────────────────

/// Every character is an ASCII decimal digit, and there is at least one.
pub open spec fn all_digits(s: Seq<char>) -> bool {
    s.len() > 0 && forall|i: int| 0 <= i < s.len() ==> '0' <= #[trigger] s[i] <= '9'
}

/// The value of a string of decimal digits.
pub open spec fn digits_value(s: Seq<char>) -> nat
    decreases s.len(),
{
    if s.len() == 0 {
        0
    } else {
        digits_value(s.drop_last()) * 10 + ((s.last() as int) - ('0' as int)) as nat
    }
}

/// The digits of an unsigned integer literal: one leading `+` is allowed.
pub open spec fn unsigned_body(s: Seq<char>) -> Seq<char> {
    if s.len() > 0 && s[0] == '+' {
        s.drop_first()
    } else {
        s
    }
}

/// What `str::parse` gives for an unsigned integer type whose largest value
/// is `max`: `None` on an empty or non-digit body, and on overflow.
pub open spec fn parse_unsigned(s: Seq<char>, max: nat) -> Option<nat> {
    let b = unsigned_body(s);
    if all_digits(b) && digits_value(b) <= max {
        Some(digits_value(b))
    } else {
        None
    }
}

/// What `str::parse::<i64>` gives: an optional `+` or `-`, then digits, the
/// value within `i64`'s range.
pub open spec fn parse_i64_spec(s: Seq<char>) -> Option<int> {
    if s.len() > 0 && s[0] == '-' {
        let b = s.drop_first();
        if all_digits(b) && digits_value(b) <= 0x8000_0000_0000_0000 {
            Some(-(digits_value(b) as int))
        } else {
            None
        }
    } else {
        match parse_unsigned(s, 0x7fff_ffff_ffff_ffff) {
            Some(v) => Some(v as int),
            None => None,
        }
    }
}

proof fn lemma_digits_value_take_mono(s: Seq<char>, i: int, j: int)
    requires
        0 <= i <= j <= s.len(),
        forall|k: int| 0 <= k < s.len() ==> '0' <= #[trigger] s[k] <= '9',
    ensures
        digits_value(s.take(i)) <= digits_value(s.take(j)),
    decreases j - i,
{
    if i < j {
        lemma_digits_value_take_mono(s, i, j - 1);
        assert(s.take(j).drop_last() =~= s.take(j - 1));
    }
}

/// Reads the digit string `s[from..]` as a number no larger than `max`.
fn digits_to_u64(s: &str, from: usize, max: u64) -> (r: Option<u64>)
    requires
        from <= s@.len(),
    ensures
        ({
            let b = s@.skip(from as int);
            match r {
                Some(v) => all_digits(b) && digits_value(b) <= max && v == digits_value(b),
                None => !(all_digits(b) && digits_value(b) <= max),
            }
        }),
{
    let len = s.unicode_len();
    let ghost b = s@.skip(from as int);
    if from >= len {
        return None;
    }
    let mut acc: u64 = 0;
    let mut i: usize = from;
    while i < len
        invariant
            len == s@.len(),
            from < len,
            from <= i <= len,
            b == s@.skip(from as int),
            forall|k: int| from <= k < i ==> '0' <= #[trigger] s@[k] <= '9',
            acc == digits_value(b.take(i - from)),
            acc <= max,
        decreases len - i,
    {
        let c = s.get_char(i);
        if c < '0' || c > '9' {
            proof {
                assert(b[i - from] == c);
            }
            return None;
        }
        let d: u64 = (c as u64) - ('0' as u64);
        proof {
            assert(b.take(i + 1 - from).drop_last() =~= b.take(i - from));
            assert(b.take(i + 1 - from).last() == c);
        }
        let next: u128 = (acc as u128) * 10 + (d as u128);
        if next > max as u128 {
            proof {
                assert(digits_value(b.take(i + 1 - from)) == next);
                if all_digits(b) {
                    lemma_digits_value_take_mono(b, i + 1 - from, b.len() as int);
                    assert(b.take(b.len() as int) =~= b);
                }
            }
            return None;
        }
        acc = next as u64;
        i = i + 1;
    }
    proof {
        assert(b.take(len - from) =~= b);
    }
    Some(acc)
}

/// `s.parse::<u64>()`, as an `Option`.
pub fn parse_u64(s: &str) -> (r: Option<u64>)
    ensures
        match r {
            Some(v) => parse_unsigned(s@, u64::MAX as nat) == Some(v as nat),
            None => parse_unsigned(s@, u64::MAX as nat) is None,
        },
{
    let len = s.unicode_len();
    let from: usize = if len > 0 && s.get_char(0) == '+' { 1 } else { 0 };
    proof {
        assert(unsigned_body(s@) =~= s@.skip(from as int));
    }
    digits_to_u64(s, from, u64::MAX)
}

/// `s.parse::<usize>()`, as an `Option`.
pub fn parse_usize(s: &str) -> (r: Option<usize>)
    ensures
        match r {
            Some(v) => parse_unsigned(s@, usize::MAX as nat) == Some(v as nat),
            None => parse_unsigned(s@, usize::MAX as nat) is None,
        },
{
    let len = s.unicode_len();
    let from: usize = if len > 0 && s.get_char(0) == '+' { 1 } else { 0 };
    proof {
        assert(unsigned_body(s@) =~= s@.skip(from as int));
    }
    match digits_to_u64(s, from, usize::MAX as u64) {
        Some(v) => Some(v as usize),
        None => None,
    }
}

/// `s.parse::<u8>()`, as an `Option`.
pub fn parse_u8(s: &str) -> (r: Option<u8>)
    ensures
        match r {
            Some(v) => parse_unsigned(s@, u8::MAX as nat) == Some(v as nat),
            None => parse_unsigned(s@, u8::MAX as nat) is None,
        },
{
    let len = s.unicode_len();
    let from: usize = if len > 0 && s.get_char(0) == '+' { 1 } else { 0 };
    proof {
        assert(unsigned_body(s@) =~= s@.skip(from as int));
    }
    match digits_to_u64(s, from, 255) {
        Some(v) => Some(v as u8),
        None => None,
    }
}

/// `s.parse::<u16>()`, as an `Option`.
pub fn parse_u16(s: &str) -> (r: Option<u16>)
    ensures
        match r {
            Some(v) => parse_unsigned(s@, u16::MAX as nat) == Some(v as nat),
            None => parse_unsigned(s@, u16::MAX as nat) is None,
        },
{
    let len = s.unicode_len();
    let from: usize = if len > 0 && s.get_char(0) == '+' { 1 } else { 0 };
    proof {
        assert(unsigned_body(s@) =~= s@.skip(from as int));
    }
    match digits_to_u64(s, from, 65535) {
        Some(v) => Some(v as u16),
        None => None,
    }
}

/// `s.parse::<i64>()`, as an `Option`.
pub fn parse_i64(s: &str) -> (r: Option<i64>)
    ensures
        match r {
            Some(v) => parse_i64_spec(s@) == Some(v as int),
            None => parse_i64_spec(s@) is None,
        },
{
    let len = s.unicode_len();
    if len > 0 && s.get_char(0) == '-' {
        proof {
            assert(s@.drop_first() =~= s@.skip(1));
        }
        match digits_to_u64(s, 1, 0x8000_0000_0000_0000) {
            Some(v) => {
                if v == 0x8000_0000_0000_0000 {
                    Some(i64::MIN)
                } else {
                    Some(-(v as i64))
                }
            },
            None => None,
        }
    } else {
        let from: usize = if len > 0 && s.get_char(0) == '+' { 1 } else { 0 };
        proof {
            assert(unsigned_body(s@) =~= s@.skip(from as int));
        }
        match digits_to_u64(s, from, 0x7fff_ffff_ffff_ffff) {
            Some(v) => Some(v as i64),
            None => None,
        }
    }
}

/// The value of an optionally signed run of decimal digits (one leading `+`
/// or `-`), of any size; `None` when the text is not such a run.
pub open spec fn integer_value(s: Seq<char>) -> Option<int> {
    if s.len() > 0 && s[0] == '-' {
        if all_digits(s.drop_first()) {
            Some(-(digits_value(s.drop_first()) as int))
        } else {
            None
        }
    } else if all_digits(unsigned_body(s)) {
        Some(digits_value(unsigned_body(s)) as int)
    } else {
        None
    }
}

/// Where `str::parse::<i64>` succeeds it reads the same value, and it
/// succeeds on every integer text whose value fits `i64`.
pub proof fn lemma_i64_is_integer(s: Seq<char>)
    ensures
        parse_i64_spec(s) matches Some(v) ==> integer_value(s) == Some(v),
        integer_value(s) matches Some(v) ==> (i64::MIN <= v <= i64::MAX ==> parse_i64_spec(s) == Some(v)),
{
}

proof fn lemma_zeros_value(z: Seq<char>)
    requires
        forall|i: int| 0 <= i < z.len() ==> z[i] == '0',
    ensures
        digits_value(z) == 0,
    decreases z.len(),
{
    if z.len() > 0 {
        lemma_zeros_value(z.drop_last());
    }
}

/// Leading zeros do not change the value of a digit string.
proof fn lemma_leading_zeros_value(z: Seq<char>, t: Seq<char>)
    requires
        forall|i: int| 0 <= i < z.len() ==> z[i] == '0',
    ensures
        digits_value(z + t) == digits_value(t),
    decreases t.len(),
{
    if t.len() == 0 {
        assert(z + t =~= z);
        lemma_zeros_value(z);
    } else {
        lemma_leading_zeros_value(z, t.drop_last());
        assert((z + t).drop_last() =~= z + t.drop_last());
        assert((z + t).last() == t.last());
    }
}

/// A digit string that does not start with `0` is the decimal rendering of
/// its own value.
proof fn lemma_dec_of_digits(t: Seq<char>)
    requires
        all_digits(t),
        t[0] != '0',
    ensures
        digits_value(t) >= 1,
        dec(digits_value(t)) == t,
    decreases t.len(),
{
    let d = t.last();
    let dd = (d as int) - ('0' as int);
    assert('0' <= d <= '9');
    assert(digit_char(dd) == d);
    if t.len() == 1 {
        assert(t.drop_last() =~= Seq::<char>::empty());
        assert(digits_value(t.drop_last()) == 0);
        assert(digits_value(t) == dd);
        assert(dec(digits_value(t)) =~= t);
    } else {
        let p = t.drop_last();
        assert(all_digits(p)) by {
            assert forall|i: int| 0 <= i < p.len() implies '0' <= #[trigger] p[i] <= '9' by {
                assert(p[i] == t[i]);
            }
        }
        assert(p[0] == t[0]);
        lemma_dec_of_digits(p);
        let v = digits_value(t);
        let pv = digits_value(p);
        assert(v == pv * 10 + dd);
        assert(v / 10 == pv && v % 10 == dd) by (nonlinear_arith)
            requires
                v == pv * 10 + dd,
                0 <= dd < 10,
        ;
        assert(dec(v) =~= p.push(d));
        assert(p.push(d) =~= t);
    }
}

/// Whether `s` is an optionally signed run of decimal digits.
pub fn is_integer_text(s: &str) -> (r: bool)
    ensures
        r == (integer_value(s@) is Some),
{
    let len = s.unicode_len();
    let from: usize = if len > 0 && (s.get_char(0) == '-' || s.get_char(0) == '+') {
        1
    } else {
        0
    };
    proof {
        if len > 0 && s@[0] == '-' {
            assert(s@.drop_first() =~= s@.skip(1));
        } else {
            assert(unsigned_body(s@) =~= s@.skip(from as int));
        }
        assert(integer_value(s@) is Some <==> all_digits(s@.skip(from as int)));
    }
    if from >= len {
        return false;
    }
    let mut i: usize = from;
    while i < len
        invariant
            len == s@.len(),
            from <= i <= len,
            from < len,
            integer_value(s@) is Some <==> all_digits(s@.skip(from as int)),
            forall|k: int| from <= k < i ==> '0' <= #[trigger] s@[k] <= '9',
        decreases len - i,
    {
        let c = s.get_char(i);
        if c < '0' || c > '9' {
            proof {
                assert(s@.skip(from as int)[i - from] == c);
            }
            return false;
        }
        i = i + 1;
    }
    proof {
        let b = s@.skip(from as int);
        assert forall|k: int| 0 <= k < b.len() implies '0' <= #[trigger] b[k] <= '9' by {
            assert(b[k] == s@[k + from]);
        }
    }
    true
}

/// The sign length of an integer text: 1 when it starts with `+` or `-`.
pub open spec fn sign_len(s: Seq<char>) -> int {
    if s.len() > 0 && (s[0] == '-' || s[0] == '+') {
        1
    } else {
        0
    }
}

/// The rendering of an integer text's value, read off the text: the sign of
/// a negative value, then the digits from the first non-zero one (`k`), or
/// `0` when every digit is zero.
proof fn lemma_integer_text(s: Seq<char>, k: int)
    requires
        integer_value(s) is Some,
        sign_len(s) <= k <= s.len(),
        forall|j: int| sign_len(s) <= j < k ==> s[j] == '0',
        k < s.len() ==> s[k] != '0',
    ensures
        k == s.len() ==> dec_int(integer_value(s)->0) == seq!['0'],
        k < s.len() ==> dec_int(integer_value(s)->0) == (if s[0] == '-' {
            seq!['-']
        } else {
            Seq::<char>::empty()
        }) + s.skip(k),
{
    let from = sign_len(s);
    let b = s.skip(from);
    if s.len() > 0 && s[0] == '-' {
        assert(s.drop_first() =~= b);
    } else {
        assert(unsigned_body(s) =~= b);
    }
    assert(all_digits(b));
    let z = s.subrange(from, k);
    let t = s.skip(k);
    assert(b =~= z + t);
    assert forall|i: int| 0 <= i < z.len() implies z[i] == '0' by {
        assert(z[i] == s[i + from]);
    }
    lemma_leading_zeros_value(z, t);
    if k == s.len() {
        assert(t =~= Seq::<char>::empty());
        assert(dec(0) =~= seq!['0']);
    } else {
        assert(t[0] == s[k]);
        assert forall|i: int| 0 <= i < t.len() implies '0' <= #[trigger] t[i] <= '9' by {
            assert(t[i] == b[i + k - from]);
        }
        lemma_dec_of_digits(t);
        if s[0] == '-' {
            assert(dec_int(integer_value(s)->0) =~= seq!['-'] + t);
        } else {
            assert(dec_int(integer_value(s)->0) =~= Seq::<char>::empty() + t);
        }
    }
}

/// Appends the characters of `s` from position `k` on.
fn append_from(out: &mut String, s: &str, k: usize)
    requires
        k <= s@.len(),
    ensures
        final(out)@ == old(out)@ + s@.skip(k as int),
{
    let len = s.unicode_len();
    let ghost start = out@;
    let mut i: usize = k;
    while i < len
        invariant
            len == s@.len(),
            k <= i <= len,
            out@ == start + s@.subrange(k as int, i as int),
        decreases len - i,
    {
        push_char(out, s.get_char(i));
        proof {
            assert(s@.subrange(k as int, i + 1) =~= s@.subrange(k as int, i as int).push(s@[i as int]));
        }
        i = i + 1;
    }
    proof {
        assert(s@.subrange(k as int, len as int) =~= s@.skip(k as int));
    }
}

/// The decimal rendering of an integer text's value: the sign of a negative
/// value, then the digits without leading zeros (`0` for zero).
pub fn integer_text(s: &str) -> (r: String)
    requires
        integer_value(s@) is Some,
    ensures
        r@ == dec_int(integer_value(s@)->0),
{
    let len = s.unicode_len();
    let from: usize = if len > 0 && (s.get_char(0) == '-' || s.get_char(0) == '+') {
        1
    } else {
        0
    };
    let mut k: usize = from;
    while k < len && s.get_char(k) == '0'
        invariant
            len == s@.len(),
            from == sign_len(s@),
            from <= k <= len,
            forall|j: int| from <= j < k ==> s@[j] == '0',
        decreases len - k,
    {
        k = k + 1;
    }
    proof {
        lemma_integer_text(s@, k as int);
    }
    let mut out = String::new();
    if k >= len {
        push_char(&mut out, '0');
        proof {
            assert(out@ =~= seq!['0']);
        }
        return out;
    }
    if s.get_char(0) == '-' {
        push_char(&mut out, '-');
        proof {
            assert(out@ =~= seq!['-']);
        }
    } else {
        proof {
            assert(out@ =~= Seq::<char>::empty());
        }
    }
    append_from(&mut out, s, k);
    out
}

// ───────────────────────────── scans ─────────────────────────────

/// `c` occurs in `s`.
pub open spec fn has_char(s: Seq<char>, c: char) -> bool {
    exists|i: int| 0 <= i < s.len() && s[i] == c
}

/// `s.contains(c)` for a single character.
pub fn contains_char(s: &str, c: char) -> (r: bool)
    ensures
        r == has_char(s@, c),
{
    let len = s.unicode_len();
    let mut i: usize = 0;
    while i < len
        invariant
            len == s@.len(),
            i <= len,
            forall|k: int| 0 <= k < i ==> s@[k] != c,
        decreases len - i,
    {
        if s.get_char(i) == c {
            return true;
        }
        i = i + 1;
    }
    false
}

/// `needle` occurs in `hay` at position `i`.
pub open spec fn occurs_at(hay: Seq<char>, needle: Seq<char>, i: int) -> bool {
    0 <= i && i + needle.len() <= hay.len() && hay.subrange(i, i + needle.len()) == needle
}

/// `needle` occurs somewhere in `hay` (`str::contains` with a string pattern).
pub open spec fn contains_seq(hay: Seq<char>, needle: Seq<char>) -> bool {
    exists|i: int| occurs_at(hay, needle, i)
}

fn matches_at(hay: &str, needle: &str, i: usize) -> (r: bool)
    requires
        i <= hay@.len(),
    ensures
        r == occurs_at(hay@, needle@, i as int),
{
    let hl = hay.unicode_len();
    let nl = needle.unicode_len();
    if nl > hl - i {
        return false;
    }
    let mut k: usize = 0;
    while k < nl
        invariant
            hl == hay@.len(),
            nl == needle@.len(),
            i + nl <= hl,
            k <= nl,
            forall|j: int| 0 <= j < k ==> hay@[i + j] == needle@[j],
        decreases nl - k,
    {
        if hay.get_char(i + k) != needle.get_char(k) {
            proof {
                assert(hay@.subrange(i as int, i + nl)[k as int] != needle@[k as int]);
            }
            return false;
        }
        k = k + 1;
    }
    proof {
        assert(hay@.subrange(i as int, i + nl) =~= needle@);
    }
    true
}

/// `hay.contains(needle)`.
pub fn contains_str(hay: &str, needle: &str) -> (r: bool)
    ensures
        r == contains_seq(hay@, needle@),
{
    let hl = hay.unicode_len();
    let mut i: usize = 0;
    loop
        invariant
            hl == hay@.len(),
            i <= hl,
            forall|j: int| 0 <= j < i ==> !occurs_at(hay@, needle@, j),
        decreases hl - i,
    {
        if matches_at(hay, needle, i) {
            return true;
        }
        if i == hl {
            proof {
                assert forall|j: int| !occurs_at(hay@, needle@, j) by {
                    if 0 <= j && j < i {
                    }
                }
            }
            return false;
        }
        i = i + 1;
    }
}

/// `hay.starts_with(needle)`.
pub fn starts_with(hay: &str, needle: &str) -> (r: bool)
    ensures
        r == occurs_at(hay@, needle@, 0),
{
    matches_at(hay, needle, 0)
}

/// `hay.ends_with(needle)`.
pub fn ends_with(hay: &str, needle: &str) -> (r: bool)
    ensures
        r == (needle@.len() <= hay@.len() && occurs_at(hay@, needle@, hay@.len() - needle@.len())),
{
    let hl = hay.unicode_len();
    let nl = needle.unicode_len();
    if nl > hl {
        return false;
    }
    matches_at(hay, needle, hl - nl)
}


// ───────────────────────────── whitespace and trimming ─────────────────────────────

/// `char::is_whitespace`: the Unicode `White_Space` property.
pub open spec fn is_ws(c: char) -> bool {
    ||| ('\u{9}' <= c && c <= '\u{d}')
    ||| c == ' '
    ||| c == '\u{85}'
    ||| c == '\u{a0}'
    ||| c == '\u{1680}'
    ||| ('\u{2000}' <= c && c <= '\u{200a}')
    ||| c == '\u{2028}'
    ||| c == '\u{2029}'
    ||| c == '\u{202f}'
    ||| c == '\u{205f}'
    ||| c == '\u{3000}'
}

pub fn is_whitespace(c: char) -> (r: bool)
    ensures
        r == is_ws(c),
{
    ('\u{9}' <= c && c <= '\u{d}') || c == ' ' || c == '\u{85}' || c == '\u{a0}' || c
        == '\u{1680}' || ('\u{2000}' <= c && c <= '\u{200a}') || c == '\u{2028}' || c
        == '\u{2029}' || c == '\u{202f}' || c == '\u{205f}' || c == '\u{3000}'
}

/// Number of leading whitespace characters.
pub open spec fn lead_ws(s: Seq<char>) -> nat
    decreases s.len(),
{
    if s.len() > 0 && is_ws(s[0]) {
        1 + lead_ws(s.drop_first())
    } else {
        0
    }
}

/// Number of trailing whitespace characters.
pub open spec fn trail_ws(s: Seq<char>) -> nat
    decreases s.len(),
{
    if s.len() > 0 && is_ws(s.last()) {
        1 + trail_ws(s.drop_last())
    } else {
        0
    }
}

/// `str::trim`: `s` without its leading and trailing whitespace.
pub open spec fn trim_spec(s: Seq<char>) -> Seq<char> {
    let a = s.skip(lead_ws(s) as int);
    a.take(a.len() - trail_ws(a))
}

/// Every character is whitespace (`s.trim().is_empty()`).
pub open spec fn all_ws(s: Seq<char>) -> bool {
    forall|i: int| 0 <= i < s.len() ==> is_ws(#[trigger] s[i])
}

proof fn lemma_lead_ws_bound(s: Seq<char>)
    ensures
        lead_ws(s) <= s.len(),
        forall|i: int| 0 <= i < lead_ws(s) ==> is_ws(#[trigger] s[i]),
        lead_ws(s) < s.len() ==> !is_ws(s[lead_ws(s) as int]),
    decreases s.len(),
{
    if s.len() > 0 && is_ws(s[0]) {
        lemma_lead_ws_bound(s.drop_first());
        assert forall|i: int| 0 <= i < lead_ws(s) implies is_ws(#[trigger] s[i]) by {
            if i > 0 {
                assert(s[i] == s.drop_first()[i - 1]);
            }
        }
        if lead_ws(s) < s.len() {
            assert(s[lead_ws(s) as int] == s.drop_first()[lead_ws(s) - 1]);
        }
    }
}

proof fn lemma_trail_ws_bound(s: Seq<char>)
    ensures
        trail_ws(s) <= s.len(),
        forall|i: int| s.len() - trail_ws(s) <= i < s.len() ==> is_ws(#[trigger] s[i]),
        trail_ws(s) < s.len() ==> !is_ws(s[s.len() - trail_ws(s) - 1]),
    decreases s.len(),
{
    if s.len() > 0 && is_ws(s.last()) {
        lemma_trail_ws_bound(s.drop_last());
        assert forall|i: int| s.len() - trail_ws(s) <= i < s.len() implies is_ws(#[trigger] s[i]) by {
            if i < s.len() - 1 {
                assert(s[i] == s.drop_last()[i]);
            }
        }
        if trail_ws(s) < s.len() {
            assert(s[s.len() - trail_ws(s) - 1] == s.drop_last()[s.len() - trail_ws(s) - 1]);
        }
    }
}

proof fn lemma_lead_ws_index(s: Seq<char>, k: int)
    requires
        0 <= k <= s.len(),
        forall|i: int| 0 <= i < k ==> is_ws(#[trigger] s[i]),
        k < s.len() ==> !is_ws(s[k]),
    ensures
        lead_ws(s) == k,
    decreases s.len(),
{
    if s.len() > 0 && is_ws(s[0]) {
        assert(k > 0);
        assert forall|i: int| 0 <= i < k - 1 implies is_ws(#[trigger] s.drop_first()[i]) by {
            assert(s.drop_first()[i] == s[i + 1]);
        }
        if k - 1 < s.len() - 1 {
            assert(s.drop_first()[k - 1] == s[k]);
        }
        lemma_lead_ws_index(s.drop_first(), k - 1);
    } else {
        if k > 0 {
            assert(is_ws(s[0]));
        }
    }
}

proof fn lemma_trail_ws_index(s: Seq<char>, k: int)
    requires
        0 <= k <= s.len(),
        forall|i: int| s.len() - k <= i < s.len() ==> is_ws(#[trigger] s[i]),
        k < s.len() ==> !is_ws(s[s.len() - k - 1]),
    ensures
        trail_ws(s) == k,
    decreases s.len(),
{
    if s.len() > 0 && is_ws(s.last()) {
        assert(k > 0);
        let t = s.drop_last();
        assert forall|i: int| t.len() - (k - 1) <= i < t.len() implies is_ws(#[trigger] t[i]) by {
            assert(t[i] == s[i]);
        }
        if k - 1 < t.len() {
            assert(t[t.len() - (k - 1) - 1] == s[s.len() - k - 1]);
        }
        lemma_trail_ws_index(t, k - 1);
    } else {
        if k > 0 {
            assert(is_ws(s[s.len() - 1]));
        }
    }
}

/// A string is blank exactly when trimming leaves nothing.
pub proof fn lemma_trim_blank(s: Seq<char>)
    ensures
        all_ws(s) <==> trim_spec(s).len() == 0,
{
    lemma_lead_ws_bound(s);
    let a = s.skip(lead_ws(s) as int);
    lemma_trail_ws_bound(a);
    if all_ws(s) {
        if lead_ws(s) < s.len() {
            assert(is_ws(s[lead_ws(s) as int]));
        }
    }
    if trim_spec(s).len() == 0 {
        assert forall|i: int| 0 <= i < s.len() implies is_ws(#[trigger] s[i]) by {
            if i >= lead_ws(s) {
                assert(s[i] == a[i - lead_ws(s)]);
            }
        }
    }
}

/// `s.trim()`.
pub fn trim(s: &str) -> (r: &str)
    ensures
        r@ == trim_spec(s@),
{
    let len = s.unicode_len();
    let mut a: usize = 0;
    while a < len && is_whitespace(s.get_char(a))
        invariant
            len == s@.len(),
            a <= len,
            forall|i: int| 0 <= i < a ==> is_ws(#[trigger] s@[i]),
        decreases len - a,
    {
        a = a + 1;
    }
    proof {
        lemma_lead_ws_index(s@, a as int);
    }
    let mut b: usize = len;
    while b > a && is_whitespace(s.get_char(b - 1))
        invariant
            len == s@.len(),
            a <= b <= len,
            forall|i: int| b <= i < len ==> is_ws(#[trigger] s@[i]),
        decreases b - a,
    {
        b = b - 1;
    }
    let ghost t = s@.skip(a as int);
    proof {
        assert forall|i: int| t.len() - (len - b) <= i < t.len() implies is_ws(#[trigger] t[i]) by {
            assert(t[i] == s@[i + a]);
        }
        if len - b < t.len() {
            assert(t[t.len() - (len - b) - 1] == s@[b - 1]);
        }
        lemma_trail_ws_index(t, (len - b) as int);
        assert(t.take(t.len() - trail_ws(t)) =~= s@.subrange(a as int, b as int));
    }
    s.substring_char(a, b)
}

/// `s.trim().is_empty()`.
pub fn is_blank(s: &str) -> (r: bool)
    ensures
        r == all_ws(s@),
{
    let len = s.unicode_len();
    let mut i: usize = 0;
    while i < len
        invariant
            len == s@.len(),
            i <= len,
            forall|k: int| 0 <= k < i ==> is_ws(#[trigger] s@[k]),
        decreases len - i,
    {
        if !is_whitespace(s.get_char(i)) {
            return false;
        }
        i = i + 1;
    }
    true
}

/// `s.strip_suffix(c)` for a single character.
pub fn strip_suffix_char(s: &str, c: char) -> (r: Option<&str>)
    ensures
        match r {
            Some(t) => s@.len() > 0 && s@.last() == c && t@ == s@.drop_last(),
            None => !(s@.len() > 0 && s@.last() == c),
        },
{
    let len = s.unicode_len();
    if len > 0 && s.get_char(len - 1) == c {
        let t = s.substring_char(0, len - 1);
        proof {
            assert(t@ =~= s@.drop_last());
        }
        Some(t)
    } else {
        None
    }
}

// ───────────────────────────── Unicode classes ─────────────────────────────

/// What `char::is_alphanumeric` answers for `c` (the Unicode `Alphabetic`
/// property or a numeric general category).
pub uninterp spec fn char_is_alphanumeric(c: char) -> bool;

/// An ASCII letter or digit.
pub open spec fn ascii_alphanumeric(c: char) -> bool {
    ('a' <= c && c <= 'z') || ('A' <= c && c <= 'Z') || ('0' <= c && c <= '9')
}

/// Every character is ASCII.
pub open spec fn all_ascii(s: Seq<char>) -> bool {
    forall|i: int| 0 <= i < s.len() ==> #[trigger] s[i] <= '\u{7f}'
}

/// `char::is_alphanumeric`. Its answer depends on `c` alone; it is named
/// here and not written out, since it rests on the Unicode tables. Within
/// ASCII the alphabetic and numeric characters are the letters and digits.
#[verifier::external_body]
pub(crate) fn is_alphanumeric(c: char) -> (r: bool)
    ensures
        r == char_is_alphanumeric(c),
        c <= '\u{7f}' ==> (r == ascii_alphanumeric(c)),
{
    c.is_alphanumeric()
}

/// `char::is_control`: the general category `Cc`, which is exactly
/// U+0000..=U+001F and U+007F..=U+009F.
pub open spec fn is_control_spec(c: char) -> bool {
    c <= '\u{1f}' || ('\u{7f}' <= c && c <= '\u{9f}')
}

pub fn is_control(c: char) -> (r: bool)
    ensures
        r == is_control_spec(c),
{
    c <= '\u{1f}' || ('\u{7f}' <= c && c <= '\u{9f}')
}


// ───────────────────────────── ordering ─────────────────────────────

/// `a <= b` in the order of `str`: lexicographic by code point (which is
/// also the order of their UTF-8 bytes).
pub open spec fn lex_le(a: Seq<char>, b: Seq<char>) -> bool
    decreases a.len(),
{
    if a.len() == 0 {
        true
    } else if b.len() == 0 {
        false
    } else if a[0] != b[0] {
        a[0] < b[0]
    } else {
        lex_le(a.drop_first(), b.drop_first())
    }
}

pub proof fn lemma_lex_le_total(a: Seq<char>, b: Seq<char>)
    ensures
        lex_le(a, b) || lex_le(b, a),
    decreases a.len(),
{
    if a.len() > 0 && b.len() > 0 && a[0] == b[0] {
        lemma_lex_le_total(a.drop_first(), b.drop_first());
    }
}

pub proof fn lemma_lex_le_trans(a: Seq<char>, b: Seq<char>, c: Seq<char>)
    requires
        lex_le(a, b),
        lex_le(b, c),
    ensures
        lex_le(a, c),
    decreases a.len(),
{
    if a.len() > 0 && b.len() > 0 && c.len() > 0 && a[0] == b[0] && b[0] == c[0] {
        lemma_lex_le_trans(a.drop_first(), b.drop_first(), c.drop_first());
    }
}

pub proof fn lemma_lex_le_antisym(a: Seq<char>, b: Seq<char>)
    requires
        lex_le(a, b),
        lex_le(b, a),
    ensures
        a == b,
    decreases a.len(),
{
    if a.len() > 0 && b.len() > 0 {
        lemma_lex_le_antisym(a.drop_first(), b.drop_first());
        assert(a =~= seq![a[0]] + a.drop_first());
        assert(b =~= seq![b[0]] + b.drop_first());
    }
}

/// `a <= b` for strings.
pub fn str_le(a: &str, b: &str) -> (r: bool)
    ensures
        r == lex_le(a@, b@),
{
    let n = a.unicode_len();
    let m = b.unicode_len();
    let mut i: usize = 0;
    proof {
        assert(a@.skip(0) =~= a@);
        assert(b@.skip(0) =~= b@);
    }
    while i < n
        invariant
            n == a@.len(),
            m == b@.len(),
            i <= n,
            lex_le(a@.skip(i as int), b@.skip(i as int)) == lex_le(a@, b@),
            i <= m,
        decreases n - i,
    {
        if i == m {
            return false;
        }
        let x = a.get_char(i);
        let y = b.get_char(i);
        proof {
            assert(a@.skip(i as int)[0] == x);
            assert(b@.skip(i as int)[0] == y);
            assert(a@.skip(i as int).drop_first() =~= a@.skip(i + 1));
            assert(b@.skip(i as int).drop_first() =~= b@.skip(i + 1));
        }
        if x != y {
            return x < y;
        }
        i = i + 1;
    }
    true
}

// ───────────────────────────── case mapping ─────────────────────────────

/// What `str::to_lowercase` gives for `s` (Unicode lowercase mapping).
pub uninterp spec fn lowercase(s: Seq<char>) -> Seq<char>;

/// An ASCII capital as its lowercase letter; any other character unchanged.
pub open spec fn ascii_lower_char(c: char) -> char {
    if 'A' <= c && c <= 'Z' {
        ((c as u32) + 32) as char
    } else {
        c
    }
}

/// An ASCII lowercase letter as its capital; any other character unchanged.
pub open spec fn ascii_upper_char(c: char) -> char {
    if 'a' <= c && c <= 'z' {
        ((c as u32) - 32) as char
    } else {
        c
    }
}

/// `str::to_lowercase`. Its result depends on `s` alone; it is named here
/// and not written out, since it rests on the Unicode tables. On ASCII text
/// it lowercases the capitals and keeps every other character.
#[verifier::external_body]
pub(crate) fn to_lowercase(s: &str) -> (r: String)
    ensures
        r@ == lowercase(s@),
        all_ascii(s@) ==> r@ == s@.map_values(|c: char| ascii_lower_char(c)),
{
    s.to_lowercase()
}

/// `c.eq_ignore_ascii_case(&d)`: equal, or one is an ASCII capital and
/// the other its lowercase letter.
pub open spec fn ascii_ci_eq_char(c: char, d: char) -> bool {
    c == d || ('A' <= c && c <= 'Z' && d as u32 == c as u32 + 32) || ('A' <= d && d <= 'Z' && c as u32
        == d as u32 + 32)
}

/// `a.eq_ignore_ascii_case(b)`: same length, and equal characters after
/// mapping ASCII capitals to lowercase.
pub open spec fn ascii_ci_eq(a: Seq<char>, b: Seq<char>) -> bool {
    a.len() == b.len() && forall|i: int| 0 <= i < a.len() ==> #[trigger] ascii_ci_eq_char(a[i], b[i])
}

fn ascii_ci_eq_c(c: char, d: char) -> (r: bool)
    ensures
        r == ascii_ci_eq_char(c, d),
{
    let x = c as u32;
    let y = d as u32;
    x == y || ('A' <= c && c <= 'Z' && y == x + 32) || ('A' <= d && d <= 'Z' && x == y + 32)
}

/// What `str::to_uppercase` gives for `s` (Unicode uppercase mapping).
pub uninterp spec fn uppercase(s: Seq<char>) -> Seq<char>;

/// `str::to_uppercase`. Its result depends on `s` alone; it is named here
/// and not written out, since it rests on the Unicode tables. On ASCII text
/// it capitalizes the lowercase letters and keeps every other character.
#[verifier::external_body]
pub(crate) fn to_uppercase(s: &str) -> (r: String)
    ensures
        r@ == uppercase(s@),
        all_ascii(s@) ==> r@ == s@.map_values(|c: char| ascii_upper_char(c)),
{
    s.to_uppercase()
}

/// `str::eq_ignore_ascii_case`.
pub fn eq_ignore_ascii_case(a: &str, b: &str) -> (r: bool)
    ensures
        r == ascii_ci_eq(a@, b@),
{
    let n = a.unicode_len();
    if n != b.unicode_len() {
        return false;
    }
    let mut i: usize = 0;
    while i < n
        invariant
            n == a@.len(),
            n == b@.len(),
            i <= n,
            forall|k: int| 0 <= k < i ==> ascii_ci_eq_char(a@[k], b@[k]),
        decreases n - i,
    {
        let x = a.get_char(i);
        let y = b.get_char(i);
        if !ascii_ci_eq_c(x, y) {
            return false;
        }
        i = i + 1;
    }
    true
}


// ───────────────────────────── words ─────────────────────────────

/// The number of leading characters that are not whitespace.
pub open spec fn word_len(s: Seq<char>) -> nat
    decreases s.len(),
{
    if s.len() > 0 && !is_ws(s[0]) {
        1 + word_len(s.drop_first())
    } else {
        0
    }
}

/// `str::split_whitespace`: the maximal runs of non-whitespace characters.
pub open spec fn words(s: Seq<char>) -> Seq<Seq<char>>
    decreases s.len(),
{
    if s.len() == 0 {
        Seq::empty()
    } else if is_ws(s[0]) {
        words(s.drop_first())
    } else {
        proof {
            lemma_word_len_bound(s);
        }
        seq![s.take(word_len(s) as int)] + words(s.skip(word_len(s) as int))
    }
}

pub proof fn lemma_word_len_bound(s: Seq<char>)
    ensures
        word_len(s) <= s.len(),
        s.len() > 0 && !is_ws(s[0]) ==> word_len(s) >= 1,
        forall|i: int| 0 <= i < word_len(s) ==> !is_ws(#[trigger] s[i]),
        word_len(s) < s.len() ==> is_ws(s[word_len(s) as int]),
    decreases s.len(),
{
    if s.len() > 0 && !is_ws(s[0]) {
        lemma_word_len_bound(s.drop_first());
        assert forall|i: int| 0 <= i < word_len(s) implies !is_ws(#[trigger] s[i]) by {
            if i > 0 {
                assert(s[i] == s.drop_first()[i - 1]);
            }
        }
        if word_len(s) < s.len() {
            assert(s[word_len(s) as int] == s.drop_first()[word_len(s) - 1]);
        }
    }
}

proof fn lemma_word_len_from(s: Seq<char>, k: int)
    requires
        0 <= k <= s.len(),
        forall|i: int| 0 <= i < k ==> !is_ws(#[trigger] s[i]),
        k == s.len() || is_ws(s[k]),
    ensures
        word_len(s) == k,
    decreases s.len(),
{
    if k > 0 {
        assert forall|i: int| 0 <= i < k - 1 implies !is_ws(#[trigger] s.drop_first()[i]) by {
            assert(s.drop_first()[i] == s[i + 1]);
        }
        if k < s.len() {
            assert(s.drop_first()[k - 1] == s[k]);
        }
        lemma_word_len_from(s.drop_first(), k - 1);
    }
}

/// `s.split_whitespace()`, collected.
pub fn split_whitespace(s: &str) -> (r: Vec<&str>)
    ensures
        r@.map_values(|w: &str| w@) == words(s@),
{
    let n = s.unicode_len();
    let mut out: Vec<&str> = Vec::new();
    let mut i: usize = 0;
    proof {
        assert(s@.skip(0) =~= s@);
        assert(out@.map_values(|w: &str| w@) + words(s@) =~= words(s@));
    }
    while i < n
        invariant
            n == s@.len(),
            i <= n,
            out@.map_values(|w: &str| w@) + words(s@.skip(i as int)) == words(s@),
        decreases n - i,
    {
        let ghost rest = s@.skip(i as int);
        let c = s.get_char(i);
        if is_whitespace(c) {
            proof {
                assert(rest[0] == c);
                assert(rest.drop_first() =~= s@.skip(i + 1));
            }
            i = i + 1;
        } else {
            let mut j: usize = i + 1;
            while j < n && !is_whitespace(s.get_char(j))
                invariant
                    n == s@.len(),
                    i < j <= n,
                    forall|k: int| i <= k < j ==> !is_ws(#[trigger] s@[k]),
                decreases n - j,
            {
                j = j + 1;
            }
            let w = s.substring_char(i, j);
            proof {
                assert forall|k: int| 0 <= k < j - i implies !is_ws(#[trigger] rest[k]) by {
                    assert(rest[k] == s@[i + k]);
                }
                if j < n {
                    assert(rest[j - i] == s@[j as int]);
                }
                lemma_word_len_from(rest, j - i);
                assert(rest.take(j - i) =~= w@);
                assert(rest.skip(j - i) =~= s@.skip(j as int));
                assert(rest[0] == c);
            }
            let ghost before = out@;
            out.push(w);
            proof {
                assert(out@.map_values(|w: &str| w@) =~= before.map_values(|w: &str| w@).push(w@));
                assert(out@.map_values(|w: &str| w@) + words(s@.skip(j as int)) =~= before.map_values(
                    |w: &str| w@,
                ) + words(rest));
            }
            i = j;
        }
    }
    proof {
        assert(s@.skip(n as int) =~= Seq::<char>::empty());
        assert(out@.map_values(|w: &str| w@) =~= words(s@));
    }
    out
}

} // verus!
