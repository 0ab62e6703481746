//! Small verified building blocks for text handling: decimal parsing and
//! formatting, zero padding, and character-level string edits.

use vstd::prelude::*;

verus! {

/// True when `c` is one of the ten ASCII digits.
pub open spec fn is_digit_char(c: char) -> bool {
    ('0' as u32) <= (c as u32) && (c as u32) <= ('9' as u32)
}

/// Numeric value of an ASCII digit character.
pub open spec fn digit_val(c: char) -> nat
    recommends
        is_digit_char(c),
{
    ((c as u32) - ('0' as u32)) as nat
}

/// True when every character of `s` is an ASCII digit.
pub open spec fn all_digits(s: Seq<char>) -> bool {
    forall|i: int| 0 <= i < s.len() ==> is_digit_char(#[trigger] s[i])
}

/// Value of a digit string read in base ten.
pub open spec fn dec_val(s: Seq<char>) -> nat
    decreases s.len(),
{
    if s.len() == 0 {
        0
    } else {
        dec_val(s.drop_last()) * 10 + digit_val(s.last())
    }
}

/// What a decimal read of `s` as a `u32` yields: defined exactly when `s` is
/// non-empty, all digits, and in range.
pub open spec fn spec_parse_u32(s: Seq<char>) -> Option<u32> {
    if s.len() > 0 && all_digits(s) && dec_val(s) <= u32::MAX {
        Some(dec_val(s) as u32)
    } else {
        None
    }
}

/// A longer digit string never has a smaller value than one of its prefixes.
proof fn lemma_dec_val_prefix_le(s: Seq<char>, i: int)
    requires
        0 <= i <= s.len(),
    ensures
        dec_val(s.subrange(0, i)) <= dec_val(s),
    decreases s.len() - i,
{
    if i == s.len() {
        assert(s.subrange(0, i) =~= s);
    } else {
        assert(s.subrange(0, i + 1).drop_last() =~= s.subrange(0, i));
        assert(dec_val(s.subrange(0, i + 1)) == dec_val(s.subrange(0, i)) * 10 + digit_val(
            s.subrange(0, i + 1).last(),
        ));
        lemma_dec_val_prefix_le(s, i + 1);
    }
}

/// Reads a base-ten `u32` from `s`: `Some` exactly when `s` is non-empty,
/// consists of ASCII digits only, and its value fits in a `u32`.
pub fn parse_u32(s: &str) -> (r: Option<u32>)
    ensures
        r == spec_parse_u32(s@),
{
    let n: usize = s.unicode_len();
    if n == 0 {
        return None;
    }
    let mut acc: u32 = 0;
    let mut i: usize = 0;
    while i < n
        invariant
            0 <= i <= n,
            n == s@.len(),
            all_digits(s@.subrange(0, i as int)),
            acc as nat == dec_val(s@.subrange(0, i as int)),
        decreases n - i,
    {
        let c: char = s.get_char(i);
        let cv: u32 = c as u32;
        if cv < 48 || cv > 57 {
            assert(!is_digit_char(s@[i as int]));
            return None;
        }
        let d: u32 = cv - 48;
        proof {
            assert(s@.subrange(0, i + 1).drop_last() =~= s@.subrange(0, i as int));
            assert(s@.subrange(0, i + 1).last() == s@[i as int]);
        }
        let acc10: u32 = match acc.checked_mul(10) {
            Some(v) => v,
            None => {
                proof {
                    lemma_dec_val_prefix_le(s@, i + 1);
                }
                return None;
            },
        };
        acc = match acc10.checked_add(d) {
            Some(v) => v,
            None => {
                proof {
                    lemma_dec_val_prefix_le(s@, i + 1);
                }
                return None;
            },
        };
        i = i + 1;
    }
    proof {
        assert(s@.subrange(0, n as int) =~= s@);
    }
    Some(acc)
}

/// The ASCII digit character for a value below ten.
pub open spec fn digit_char(d: nat) -> char {
    if d == 0 {
        '0'
    } else if d == 1 {
        '1'
    } else if d == 2 {
        '2'
    } else if d == 3 {
        '3'
    } else if d == 4 {
        '4'
    } else if d == 5 {
        '5'
    } else if d == 6 {
        '6'
    } else if d == 7 {
        '7'
    } else if d == 8 {
        '8'
    } else {
        '9'
    }
}

/// Base-ten digit string of `n`, most significant digit first, no leading
/// zeros (a single `'0'` for zero).
pub open spec fn u32_dec(n: nat) -> Seq<char>
    decreases n,
{
    if n < 10 {
        seq![digit_char(n)]
    } else {
        u32_dec(n / 10).push(digit_char(n % 10))
    }
}

fn digit_str(d: u32) -> (r: &'static str)
    requires
        d < 10,
    ensures
        r@ == seq![digit_char(d as nat)],
{
    proof {
        reveal_strlit("0");
        reveal_strlit("1");
        reveal_strlit("2");
        reveal_strlit("3");
        reveal_strlit("4");
        reveal_strlit("5");
        reveal_strlit("6");
        reveal_strlit("7");
        reveal_strlit("8");
        reveal_strlit("9");
    }
    let r: &'static str = if d == 0 {
        "0"
    } else if d == 1 {
        "1"
    } else if d == 2 {
        "2"
    } else if d == 3 {
        "3"
    } else if d == 4 {
        "4"
    } else if d == 5 {
        "5"
    } else if d == 6 {
        "6"
    } else if d == 7 {
        "7"
    } else if d == 8 {
        "8"
    } else {
        "9"
    };
    proof {
        assert(r@ =~= seq![digit_char(d as nat)]);
    }
    r
}

/// Writes `n` in base ten.
pub fn u32_to_dec(n: u32) -> (r: String)
    ensures
        r@ == u32_dec(n as nat),
    decreases n,
{
    if n < 10 {
        let r: String = String::from_str(digit_str(n));
        r
    } else {
        let mut r: String = u32_to_dec(n / 10);
        r.append(digit_str(n % 10));
        proof {
            assert(r@ =~= u32_dec(n as nat));
        }
        r
    }
}

/// `s` left-padded with `'0'` up to width `w`; `s` itself when already wide
/// enough.
pub open spec fn zero_pad(s: Seq<char>, w: nat) -> Seq<char> {
    if s.len() >= w {
        s
    } else {
        Seq::new((w - s.len()) as nat, |i: int| '0') + s
    }
}

/// Writes `n` in base ten, left-padded with zeros to at least `w` characters.
pub fn u32_to_dec_pad(n: u32, w: usize) -> (r: String)
    ensures
        r@ == zero_pad(u32_dec(n as nat), w as nat),
{
    let digits: String = u32_to_dec(n);
    let len: usize = digits.as_str().unicode_len();
    if len >= w {
        return digits;
    }
    let mut r: String = String::new();
    let mut k: usize = 0;
    while k < w - len
        invariant
            0 <= k <= w - len,
            len < w,
            len == u32_dec(n as nat).len(),
            r@ =~= Seq::new(k as nat, |i: int| '0'),
        decreases w - len - k,
    {
        r.append(digit_str(0));
        proof {
            assert(r@ =~= Seq::new((k + 1) as nat, |i: int| '0'));
        }
        k = k + 1;
    }
    r.append(digits.as_str());
    proof {
        assert(r@ =~= zero_pad(u32_dec(n as nat), w as nat));
    }
    r
}

/// Ten to the `k`.
pub open spec fn pow10(k: nat) -> nat
    decreases k,
{
    if k == 0 {
        1
    } else {
        10 * pow10((k - 1) as nat)
    }
}

/// The digit string of `n` consists of digits, is non-empty, and reads back
/// as `n`.
pub proof fn lemma_u32_dec_digits(n: nat)
    ensures
        all_digits(u32_dec(n)),
        u32_dec(n).len() >= 1,
        dec_val(u32_dec(n)) == n,
    decreases n,
{
    if n < 10 {
        let s = seq![digit_char(n)];
        assert(u32_dec(n) == s);
        assert(s.len() == 1);
        assert(s.last() == digit_char(n));
        assert(s.drop_last() =~= Seq::<char>::empty());
        assert(dec_val(s.drop_last()) == 0);
        assert(dec_val(s) == dec_val(s.drop_last()) * 10 + digit_val(s.last()));
        assert(digit_val(digit_char(n)) == n);
    } else {
        lemma_u32_dec_digits(n / 10);
        let w = u32_dec(n / 10);
        assert(u32_dec(n) == w.push(digit_char(n % 10)));
        assert(w.push(digit_char(n % 10)).drop_last() =~= w);
        assert(digit_val(digit_char(n % 10)) == n % 10);
        assert(dec_val(u32_dec(n)) == dec_val(w) * 10 + n % 10);
        assert(n / 10 * 10 + n % 10 == n);
        assert(forall|i: int|
            0 <= i < u32_dec(n).len() ==> is_digit_char(#[trigger] u32_dec(n)[i]));
    }
}

/// A number below `pow10(k)` has at most `k` digits.
pub proof fn lemma_u32_dec_len_le(n: nat, k: nat)
    requires
        k >= 1,
        n < pow10(k),
    ensures
        u32_dec(n).len() <= k,
    decreases n,
{
    if n < 10 {
    } else {
        assert(pow10(k) == 10 * pow10((k - 1) as nat));
        if k == 1 {
            assert(pow10(k) == 10);
            assert(false);
        }
        assert(n / 10 < pow10((k - 1) as nat)) by (nonlinear_arith)
            requires
                n < 10 * pow10((k - 1) as nat),
                pow10((k - 1) as nat) >= 1,
        ;
        lemma_u32_dec_len_le(n / 10, (k - 1) as nat);
    }
}

/// A number at least `pow10(k - 1)` has at least `k` digits.
pub proof fn lemma_u32_dec_len_ge(n: nat, k: nat)
    requires
        k >= 1,
        n >= pow10((k - 1) as nat),
    ensures
        u32_dec(n).len() >= k,
    decreases n,
{
    if k == 1 {
        lemma_u32_dec_digits(n);
    } else {
        assert(pow10((k - 1) as nat) == 10 * pow10((k - 2) as nat));
        assert(n / 10 >= pow10((k - 2) as nat)) by (nonlinear_arith)
            requires
                n >= 10 * pow10((k - 2) as nat),
                pow10((k - 2) as nat) >= 0,
        ;
        assert(pow10((k - 2) as nat) >= 1) by {
            lemma_pow10_pos((k - 2) as nat);
        }
        assert(n >= 10);
        lemma_u32_dec_len_ge(n / 10, (k - 1) as nat);
    }
}

pub proof fn lemma_pow10_pos(k: nat)
    ensures
        pow10(k) >= 1,
    decreases k,
{
    if k > 0 {
        lemma_pow10_pos((k - 1) as nat);
    }
}

/// Zero padding keeps the digits property and the value, and fixes the
/// length at `w` for short inputs.
pub proof fn lemma_zero_pad(s: Seq<char>, w: nat)
    requires
        all_digits(s),
    ensures
        all_digits(zero_pad(s, w)),
        zero_pad(s, w).len() == if s.len() >= w {
            s.len()
        } else {
            w
        },
        dec_val(zero_pad(s, w)) == dec_val(s),
{
    if s.len() < w {
        let z = Seq::new((w - s.len()) as nat, |i: int| '0');
        assert(forall|i: int| 0 <= i < z.len() ==> is_digit_char(#[trigger] z[i]));
        lemma_dec_val_zero_prefix(z, s);
        assert(forall|i: int|
            0 <= i < (z + s).len() ==> is_digit_char(#[trigger] (z + s)[i]));
    }
}

/// Prepending zeros to a digit string does not change its value.
proof fn lemma_dec_val_zero_prefix(z: Seq<char>, s: Seq<char>)
    requires
        forall|i: int| 0 <= i < z.len() ==> z[i] == '0',
    ensures
        dec_val(z + s) == dec_val(s),
    decreases s.len(),
{
    if s.len() == 0 {
        assert(z + s =~= z);
        lemma_dec_val_all_zero(z);
    } else {
        assert((z + s).drop_last() =~= z + s.drop_last());
        assert((z + s).last() == s.last());
        lemma_dec_val_zero_prefix(z, s.drop_last());
    }
}

/// A string of zeros has value zero.
proof fn lemma_dec_val_all_zero(z: Seq<char>)
    requires
        forall|i: int| 0 <= i < z.len() ==> z[i] == '0',
    ensures
        dec_val(z) == 0,
    decreases z.len(),
{
    if z.len() > 0 {
        assert(forall|i: int| 0 <= i < z.drop_last().len() ==> z.drop_last()[i] == '0');
        lemma_dec_val_all_zero(z.drop_last());
        assert(digit_val(z.last()) == 0);
    }
}

/// Reading back a zero-padded decimal yields the number itself.
pub proof fn lemma_parse_of_pad(n: nat, w: nat)
    requires
        n <= u32::MAX,
    ensures
        spec_parse_u32(zero_pad(u32_dec(n), w)) == Some(n as u32),
{
    lemma_u32_dec_digits(n);
    lemma_zero_pad(u32_dec(n), w);
}

// ---------------------------------------------------------------------------
// UTF-8 byte lengths
// ---------------------------------------------------------------------------

/// How many bytes the UTF-8 encoding of one character takes.
pub open spec fn char_utf8_width(c: char) -> nat {
    if (c as u32) < 0x80 {
        1
    } else if (c as u32) < 0x800 {
        2
    } else if (c as u32) < 0x10000 {
        3
    } else {
        4
    }
}

/// How many bytes the UTF-8 encoding of `s` takes.
pub open spec fn utf8_len(s: Seq<char>) -> nat
    decreases s.len(),
{
    if s.len() == 0 {
        0
    } else {
        utf8_len(s.drop_last()) + char_utf8_width(s.last())
    }
}

/// A string takes at least one byte per character and at most four.
pub proof fn lemma_utf8_len_bounds(s: Seq<char>)
    ensures
        utf8_len(s) >= s.len(),
        utf8_len(s) <= 4 * s.len(),
    decreases s.len(),
{
    if s.len() > 0 {
        lemma_utf8_len_bounds(s.drop_last());
    }
}

/// An ASCII string takes exactly one byte per character.
pub proof fn lemma_utf8_len_ascii(s: Seq<char>)
    requires
        forall|i: int| 0 <= i < s.len() ==> (#[trigger] s[i] as u32) < 0x80,
    ensures
        utf8_len(s) == s.len(),
    decreases s.len(),
{
    if s.len() > 0 {
        assert(forall|i: int|
            0 <= i < s.drop_last().len() ==> (#[trigger] s.drop_last()[i] as u32) < 0x80);
        lemma_utf8_len_ascii(s.drop_last());
    }
}

/// A digit string takes exactly one byte per character.
pub proof fn lemma_utf8_len_digits(s: Seq<char>)
    requires
        all_digits(s),
    ensures
        utf8_len(s) == s.len(),
{
    assert(forall|i: int| 0 <= i < s.len() ==> (#[trigger] s[i] as u32) < 0x80);
    lemma_utf8_len_ascii(s);
}

/// Byte lengths add up over concatenation.
pub proof fn lemma_utf8_len_concat(a: Seq<char>, b: Seq<char>)
    ensures
        utf8_len(a + b) == utf8_len(a) + utf8_len(b),
    decreases b.len(),
{
    if b.len() == 0 {
        assert(a + b =~= a);
    } else {
        assert((a + b).drop_last() =~= a + b.drop_last());
        assert((a + b).last() == b.last());
        lemma_utf8_len_concat(a, b.drop_last());
    }
}

/// A prefix never takes more bytes than the whole.
proof fn lemma_utf8_len_prefix_le(s: Seq<char>, i: int)
    requires
        0 <= i <= s.len(),
    ensures
        utf8_len(s.take(i)) <= utf8_len(s),
    decreases s.len() - i,
{
    if i == s.len() {
        assert(s.take(i) =~= s);
    } else {
        assert(s.take(i + 1).drop_last() =~= s.take(i));
        lemma_utf8_len_prefix_le(s, i + 1);
    }
}

/// The UTF-8 byte length of a string, counted character by character.
pub fn utf8_len_exec(s: &str) -> (r: usize)
    requires
        utf8_len(s@) <= usize::MAX,
    ensures
        r == utf8_len(s@),
{
    let n: usize = s.unicode_len();
    let mut total: usize = 0;
    let mut i: usize = 0;
    proof {
        assert(s@.take(0) =~= Seq::<char>::empty());
    }
    while i < n
        invariant
            0 <= i <= n,
            n == s@.len(),
            utf8_len(s@) <= usize::MAX,
            total == utf8_len(s@.take(i as int)),
        decreases n - i,
    {
        let cv: u32 = s.get_char(i) as u32;
        let w: usize = if cv < 0x80 {
            1
        } else if cv < 0x800 {
            2
        } else if cv < 0x10000 {
            3
        } else {
            4
        };
        proof {
            assert(s@.take(i + 1).drop_last() =~= s@.take(i as int));
            assert(s@.take(i + 1).last() == s@[i as int]);
            lemma_utf8_len_prefix_le(s@, i + 1);
        }
        total = total + w;
        i = i + 1;
    }
    proof {
        assert(s@.take(n as int) =~= s@);
    }
    total
}

// ---------------------------------------------------------------------------
// Plain decimal numbers as digit strings
// ---------------------------------------------------------------------------

/// First index of a `'.'` in `s`.
pub open spec fn spec_dot_pos(s: Seq<char>) -> Option<int>
    decreases s.len(),
{
    if s.len() == 0 {
        None
    } else if s[0] == '.' {
        Some(0)
    } else {
        match spec_dot_pos(s.skip(1)) {
            None => None,
            Some(j) => Some(j + 1),
        }
    }
}

/// Splits a plain decimal number into integer and fraction digits: `Some`
/// exactly for `digits` or `digits.digits`.
pub open spec fn spec_split_decimal(s: Seq<char>) -> Option<(Seq<char>, Seq<char>)> {
    match spec_dot_pos(s) {
        None => if s.len() > 0 && all_digits(s) {
            Some((s, Seq::empty()))
        } else {
            None
        },
        Some(i) => {
            let ip = s.subrange(0, i);
            let fp = s.subrange(i + 1, s.len() as int);
            if ip.len() > 0 && fp.len() > 0 && all_digits(ip) && all_digits(fp) {
                Some((ip, fp))
            } else {
                None
            }
        },
    }
}

/// Drops leading zeros, keeping at least one digit.
pub open spec fn trim_leading_zeros(s: Seq<char>) -> Seq<char>
    decreases s.len(),
{
    if s.len() > 1 && s[0] == '0' {
        trim_leading_zeros(s.skip(1))
    } else {
        s
    }
}

/// Drops trailing zeros, possibly all of them.
pub open spec fn trim_trailing_zeros(s: Seq<char>) -> Seq<char>
    decreases s.len(),
{
    if s.len() > 0 && s.last() == '0' {
        trim_trailing_zeros(s.drop_last())
    } else {
        s
    }
}

/// The digits `s` right-padded with zeros to width `w`.
pub open spec fn pad_right(s: Seq<char>, w: nat) -> Seq<char> {
    if s.len() >= w {
        s
    } else {
        s + Seq::new((w - s.len()) as nat, |i: int| '0')
    }
}

/// A decimal number divided by one hundred, exactly: the decimal point moves
/// two places left, leading and trailing zeros are tidied away.
pub open spec fn spec_div100(s: Seq<char>) -> Option<Seq<char>> {
    match spec_split_decimal(s) {
        None => None,
        Some(p) => {
            let padded = zero_pad(p.0, 3);
            let n = padded.len() as int;
            let ni = trim_leading_zeros(padded.subrange(0, n - 2));
            let nf = trim_trailing_zeros(padded.subrange(n - 2, n) + p.1);
            Some(
                if nf.len() == 0 {
                    ni
                } else {
                    ni + seq!['.'] + nf
                },
            )
        },
    }
}

/// A decimal number multiplied by one hundred, exactly: the decimal point
/// moves two places right, leading and trailing zeros are tidied away.
pub open spec fn spec_mul100(s: Seq<char>) -> Option<Seq<char>> {
    match spec_split_decimal(s) {
        None => None,
        Some(p) => {
            let pf = pad_right(p.1, 2);
            let ni = trim_leading_zeros(p.0 + pf.subrange(0, 2));
            let nf = trim_trailing_zeros(pf.skip(2));
            Some(
                if nf.len() == 0 {
                    ni
                } else {
                    ni + seq!['.'] + nf
                },
            )
        },
    }
}

/// True when every character of `s` is an ASCII digit.
pub fn is_digits(s: &str) -> (r: bool)
    ensures
        r == all_digits(s@),
{
    let n: usize = s.unicode_len();
    let mut i: usize = 0;
    while i < n
        invariant
            0 <= i <= n,
            n == s@.len(),
            forall|j: int| 0 <= j < i ==> is_digit_char(s@[j]),
        decreases n - i,
    {
        let cv: u32 = s.get_char(i) as u32;
        if cv < 48 || cv > 57 {
            assert(!is_digit_char(s@[i as int]));
            return false;
        }
        i = i + 1;
    }
    true
}

/// Finds the first `'.'` in `s`.
fn find_dot(s: &str) -> (r: Option<usize>)
    ensures
        match r {
            Some(i) => i < s@.len() && spec_dot_pos(s@) == Some(i as int),
            None => spec_dot_pos(s@) == None::<int>,
        },
{
    let n: usize = s.unicode_len();
    let mut i: usize = 0;
    proof {
        assert(s@.skip(0) =~= s@);
    }
    while i < n
        invariant
            0 <= i <= n,
            n == s@.len(),
            spec_dot_pos(s@) == match spec_dot_pos(s@.skip(i as int)) {
                None => None::<int>,
                Some(j) => Some(j + i),
            },
        decreases n - i,
    {
        let c: char = s.get_char(i);
        proof {
            assert(s@.skip(i as int)[0] == s@[i as int]);
            assert(s@.skip(i as int).skip(1) =~= s@.skip(i + 1));
        }
        if c as u32 == 46 {
            assert(s@[i as int] == '.');
            return Some(i);
        }
        assert(s@[i as int] != '.');
        i = i + 1;
    }
    proof {
        assert(s@.skip(n as int) =~= Seq::<char>::empty());
    }
    None
}

/// Splits a plain decimal number into its integer and fraction digit
/// strings; `None` when `s` is not `digits` or `digits.digits`.
pub fn split_decimal(s: &str) -> (r: Option<(String, String)>)
    ensures
        match r {
            Some(p) => spec_split_decimal(s@) == Some((p.0@, p.1@)),
            None => spec_split_decimal(s@) == None::<(Seq<char>, Seq<char>)>,
        },
{
    let n: usize = s.unicode_len();
    match find_dot(s) {
        None => {
            if n > 0 && is_digits(s) {
                Some((String::from_str(s), String::new()))
            } else {
                None
            }
        },
        Some(i) => {
            let ip: &str = s.substring_char(0, i);
            let fp: &str = s.substring_char(i + 1, n);
            if ip.unicode_len() > 0 && fp.unicode_len() > 0 && is_digits(ip) && is_digits(fp) {
                Some((String::from_str(ip), String::from_str(fp)))
            } else {
                None
            }
        },
    }
}

/// Leading zeros before index `j` pin down the trim.
proof fn lemma_trim_leading(s: Seq<char>, j: int)
    requires
        0 <= j < s.len(),
        forall|k: int| 0 <= k < j ==> s[k] == '0',
        j == s.len() - 1 || s[j] != '0',
    ensures
        trim_leading_zeros(s) == s.skip(j),
    decreases j,
{
    if j == 0 {
        if s.len() > 1 && s[0] == '0' {
            assert(false);
        }
        assert(s.skip(0) =~= s);
    } else {
        assert(s.len() > 1 && s[0] == '0');
        let t = s.skip(1);
        assert(forall|k: int| 0 <= k < j - 1 ==> t[k] == '0');
        assert(t[j - 1] == s[j] || j - 1 == t.len() - 1);
        lemma_trim_leading(t, j - 1);
        assert(t.skip(j - 1) =~= s.skip(j));
    }
}

/// Trailing zeros after index `j` pin down the trim.
proof fn lemma_trim_trailing(s: Seq<char>, j: int)
    requires
        0 <= j <= s.len(),
        forall|k: int| j <= k < s.len() ==> s[k] == '0',
        j == 0 || s[j - 1] != '0',
    ensures
        trim_trailing_zeros(s) == s.take(j),
    decreases s.len() - j,
{
    if j == s.len() {
        if s.len() > 0 && s.last() == '0' {
            assert(false);
        }
        assert(s.take(j) =~= s);
    } else {
        assert(s.last() == '0');
        let t = s.drop_last();
        assert(forall|k: int| j <= k < t.len() ==> t[k] == '0');
        lemma_trim_trailing(t, j);
        assert(t.take(j) =~= s.take(j));
    }
}

/// Drops leading zeros of a non-empty string, keeping at least one
/// character.
fn trim_leading_exec(s: &str) -> (r: String)
    requires
        s@.len() > 0,
    ensures
        r@ == trim_leading_zeros(s@),
{
    let n: usize = s.unicode_len();
    let mut j: usize = 0;
    while j < n - 1
        invariant
            0 <= j <= n - 1,
            n == s@.len(),
            n > 0,
            forall|k: int| 0 <= k < j ==> s@[k] == '0',
        decreases n - 1 - j,
    {
        let c: char = s.get_char(j);
        if c as u32 != 48 {
            proof {
                assert(s@[j as int] != '0');
                lemma_trim_leading(s@, j as int);
            }
            return String::from_str(s.substring_char(j, n));
        }
        assert(s@[j as int] == '0');
        j = j + 1;
    }
    proof {
        lemma_trim_leading(s@, j as int);
    }
    String::from_str(s.substring_char(j, n))
}

/// Drops trailing zeros, possibly leaving the empty string.
fn trim_trailing_exec(s: &str) -> (r: String)
    ensures
        r@ == trim_trailing_zeros(s@),
{
    let n: usize = s.unicode_len();
    let mut j: usize = n;
    while j > 0
        invariant
            0 <= j <= n,
            n == s@.len(),
            forall|k: int| j <= k < n ==> s@[k] == '0',
        decreases j,
    {
        let c: char = s.get_char(j - 1);
        if c as u32 != 48 {
            proof {
                assert(s@[j - 1] != '0');
                lemma_trim_trailing(s@, j as int);
            }
            return String::from_str(s.substring_char(0, j));
        }
        assert(s@[j - 1] == '0');
        j = j - 1;
    }
    proof {
        lemma_trim_trailing(s@, 0);
    }
    String::from_str(s.substring_char(0, 0))
}

/// Joins trimmed integer and fraction parts back into one decimal string.
fn combine_decimal(ni: String, nf: String) -> (r: String)
    ensures
        r@ == if nf@.len() == 0 {
            ni@
        } else {
            ni@ + seq!['.'] + nf@
        },
{
    if nf.as_str().unicode_len() == 0 {
        ni
    } else {
        let mut r: String = ni;
        r.append(".");
        r.append(nf.as_str());
        proof {
            reveal_strlit(".");
            assert("."@ =~= seq!['.']);
            assert(r@ =~= ni@ + seq!['.'] + nf@);
        }
        r
    }
}

/// Divides a plain decimal string by one hundred, exactly; `None` when the
/// input is not a plain decimal number.
pub fn div100(s: &str) -> (r: Option<String>)
    ensures
        match r {
            Some(t) => spec_div100(s@) == Some(t@),
            None => spec_div100(s@) == None::<Seq<char>>,
        },
{
    let p = match split_decimal(s) {
        None => {
            return None;
        },
        Some(p) => p,
    };
    let ip: String = p.0;
    let fp: String = p.1;
    let il: usize = ip.as_str().unicode_len();
    let mut padded: String = String::new();
    let mut k: usize = 0;
    let need: usize = if il >= 3 {
        0
    } else {
        3 - il
    };
    while k < need
        invariant
            0 <= k <= need,
            padded@ =~= Seq::new(k as nat, |i: int| '0'),
        decreases need - k,
    {
        padded.append("0");
        proof {
            reveal_strlit("0");
            assert(padded@ =~= Seq::new((k + 1) as nat, |i: int| '0'));
        }
        k = k + 1;
    }
    padded.append(ip.as_str());
    proof {
        assert(padded@ =~= zero_pad(ip@, 3));
    }
    let pn: usize = padded.as_str().unicode_len();
    let ni: String = trim_leading_exec(padded.as_str().substring_char(0, pn - 2));
    let mut tail: String = String::from_str(padded.as_str().substring_char(pn - 2, pn));
    tail.append(fp.as_str());
    let nf: String = trim_trailing_exec(tail.as_str());
    let r = combine_decimal(ni, nf);
    Some(r)
}

/// Multiplies a plain decimal string by one hundred, exactly; `None` when
/// the input is not a plain decimal number.
pub fn mul100(s: &str) -> (r: Option<String>)
    ensures
        match r {
            Some(t) => spec_mul100(s@) == Some(t@),
            None => spec_mul100(s@) == None::<Seq<char>>,
        },
{
    let p = match split_decimal(s) {
        None => {
            return None;
        },
        Some(p) => p,
    };
    let ip: String = p.0;
    let fp: String = p.1;
    let fl: usize = fp.as_str().unicode_len();
    let mut pf: String = fp;
    let need: usize = if fl >= 2 {
        0
    } else {
        2 - fl
    };
    let mut k: usize = 0;
    while k < need
        invariant
            0 <= k <= need,
            pf@ =~= p.1@ + Seq::new(k as nat, |i: int| '0'),
        decreases need - k,
    {
        pf.append("0");
        proof {
            reveal_strlit("0");
            assert(pf@ =~= p.1@ + Seq::new((k + 1) as nat, |i: int| '0'));
        }
        k = k + 1;
    }
    proof {
        assert(pf@ =~= pad_right(p.1@, 2));
    }
    let mut head: String = ip;
    head.append(pf.as_str().substring_char(0, 2));
    let ni: String = trim_leading_exec(head.as_str());
    let pfn: usize = pf.as_str().unicode_len();
    let nf: String = trim_trailing_exec(pf.as_str().substring_char(2, pfn));
    proof {
        assert(pf@.subrange(2, pfn as int) =~= pad_right(p.1@, 2).skip(2));
    }
    let r = combine_decimal(ni, nf);
    Some(r)
}

/// Character-wise string equality.
pub fn str_eq(a: &str, b: &str) -> (r: bool)
    ensures
        r == (a@ == b@),
{
    let n: usize = a.unicode_len();
    let m: usize = b.unicode_len();
    if n != m {
        return false;
    }
    let mut i: usize = 0;
    while i < n
        invariant
            0 <= i <= n,
            n == a@.len(),
            n == b@.len(),
            forall|j: int| 0 <= j < i ==> a@[j] == b@[j],
        decreases n - i,
    {
        let ca: char = a.get_char(i);
        let cb: char = b.get_char(i);
        if ca as u32 != cb as u32 {
            assert(a@[i as int] != b@[i as int]);
            return false;
        }
        i = i + 1;
    }
    proof {
        assert(a@ =~= b@);
    }
    true
}

} // verus!
