//! Character-level string utilities: lexicographic comparison, decimal
//! digits, and the spec-level models that the rest of the library states
//! its contracts over.

use vstd::prelude::*;

verus! {

/// Three-way comparison of two character sequences by code point,
/// i.e. the order `String`'s `Ord` gives on well-formed text.
pub open spec fn str_cmp(a: Seq<char>, b: Seq<char>) -> int
    decreases a.len(),
{
    if a.len() == 0 && b.len() == 0 {
        0
    } else if a.len() == 0 {
        -1
    } else if b.len() == 0 {
        1
    } else if (a[0] as u32) < (b[0] as u32) {
        -1
    } else if (a[0] as u32) > (b[0] as u32) {
        1
    } else {
        str_cmp(a.drop_first(), b.drop_first())
    }
}

pub proof fn lemma_str_cmp_range(a: Seq<char>, b: Seq<char>)
    ensures
        -1 <= str_cmp(a, b) <= 1,
    decreases a.len(),
{
    if a.len() != 0 && b.len() != 0 && (a[0] as u32) == (b[0] as u32) {
        lemma_str_cmp_range(a.drop_first(), b.drop_first());
    }
}

/// Comparison is zero exactly on equal sequences.
pub proof fn lemma_str_cmp_eq(a: Seq<char>, b: Seq<char>)
    ensures
        str_cmp(a, b) == 0 <==> a == b,
    decreases a.len(),
{
    if a.len() == 0 && b.len() == 0 {
        assert(a =~= b);
    } else if a.len() != 0 && b.len() != 0 && (a[0] as u32) == (b[0] as u32) {
        lemma_str_cmp_eq(a.drop_first(), b.drop_first());
        assert(a[0] == b[0]) by {
            char_cast_injective(a[0], b[0]);
        }
        if str_cmp(a, b) == 0 {
            assert(a =~= seq![a[0]] + a.drop_first());
            assert(b =~= seq![b[0]] + b.drop_first());
        }
        if a == b {
            assert(a.drop_first() =~= b.drop_first());
        }
    }
}

proof fn char_cast_injective(c: char, d: char)
    requires
        c as u32 == d as u32,
    ensures
        c == d,
{
    assert(c == d) by {
        vstd::utf8::char_u32_cast(c, c as u32);
        vstd::utf8::char_u32_cast(d, d as u32);
    }
}

/// Swapping the arguments flips the sign.
pub proof fn lemma_str_cmp_flip(a: Seq<char>, b: Seq<char>)
    ensures
        str_cmp(a, b) == -str_cmp(b, a),
    decreases a.len(),
{
    if a.len() != 0 && b.len() != 0 && (a[0] as u32) == (b[0] as u32) {
        lemma_str_cmp_flip(a.drop_first(), b.drop_first());
    }
}

/// Transitivity of the non-strict order.
pub proof fn lemma_str_cmp_trans(a: Seq<char>, b: Seq<char>, c: Seq<char>)
    requires
        str_cmp(a, b) <= 0,
        str_cmp(b, c) <= 0,
    ensures
        str_cmp(a, c) <= 0,
        str_cmp(a, b) < 0 || str_cmp(b, c) < 0 ==> str_cmp(a, c) < 0,
    decreases a.len() + b.len() + c.len(),
{
    if a.len() == 0 {
        if c.len() != 0 {
        }
    } else if b.len() == 0 || c.len() == 0 {
    } else {
        if (a[0] as u32) < (b[0] as u32) || (b[0] as u32) < (c[0] as u32) {
        } else {
            assert(a[0] as u32 == b[0] as u32 && b[0] as u32 == c[0] as u32);
            char_cast_injective(a[0], b[0]);
            char_cast_injective(b[0], c[0]);
            lemma_str_cmp_trans(a.drop_first(), b.drop_first(), c.drop_first());
        }
    }
}

/// Comparison of equal-length prefixes: dropping a shared prefix keeps the
/// result.
pub proof fn lemma_str_cmp_skip(a: Seq<char>, b: Seq<char>, i: int)
    requires
        0 <= i <= a.len(),
        i <= b.len(),
        a.take(i) == b.take(i),
    ensures
        str_cmp(a, b) == str_cmp(a.skip(i), b.skip(i)),
    decreases i,
{
    if i > 0 {
        assert(a.take(i)[0] == a[0]);
        assert(b.take(i)[0] == b[0]);
        assert(a.drop_first().take(i - 1) =~= a.take(i).drop_first());
        assert(b.drop_first().take(i - 1) =~= b.take(i).drop_first());
        lemma_str_cmp_skip(a.drop_first(), b.drop_first(), i - 1);
        assert(a.drop_first().skip(i - 1) =~= a.skip(i));
        assert(b.drop_first().skip(i - 1) =~= b.skip(i));
    } else {
        assert(a.skip(0) =~= a);
        assert(b.skip(0) =~= b);
    }
}

pub open spec fn is_digit(c: char) -> bool {
    48 <= c as u32 <= 57
}

pub open spec fn digit_val(c: char) -> nat
    recommends
        is_digit(c),
{
    (c as u32 - 48) as nat
}

/// First index at or after `i` that is past the end or holds a non-digit.
pub open spec fn digits_end(s: Seq<char>, i: int) -> int
    decreases s.len() - i,
{
    if i < 0 || i >= s.len() {
        i
    } else if !is_digit(s[i]) {
        i
    } else {
        digits_end(s, i + 1)
    }
}

/// A scan that stops at the first non-digit lands on `digits_end`.
pub proof fn lemma_digits_end_unique(s: Seq<char>, i: int, j: int)
    requires
        0 <= i <= j <= s.len(),
        forall|k: int| i <= k < j ==> is_digit(s[k]),
        j == s.len() || !is_digit(s[j]),
    ensures
        digits_end(s, i) == j,
    decreases j - i,
{
    if i < j {
        lemma_digits_end_unique(s, i + 1, j);
    }
}

/// First index at or after `i` holding `c`, or the length when absent.
pub open spec fn find_from(s: Seq<char>, i: int, c: char) -> int
    decreases s.len() - i,
{
    if i < 0 || i >= s.len() {
        s.len() as int
    } else if s[i] == c {
        i
    } else {
        find_from(s, i + 1, c)
    }
}

pub proof fn lemma_find_from_unique(s: Seq<char>, i: int, c: char, j: int)
    requires
        0 <= i <= j <= s.len(),
        forall|k: int| i <= k < j ==> s[k] != c,
        j == s.len() || s[j] == c,
    ensures
        find_from(s, i, c) == j,
    decreases j - i,
{
    if i < j {
        lemma_find_from_unique(s, i + 1, c, j);
    }
}

/// Value of the digit run `s[i..j)` read as a decimal number.
pub open spec fn digits_val(s: Seq<char>, i: int, j: int) -> nat
    decreases j - i,
{
    if j <= i {
        0
    } else {
        digits_val(s, i, j - 1) * 10 + digit_val(s[j - 1])
    }
}

/// Extending a digit run can only grow its value.
pub proof fn lemma_digits_val_grows(s: Seq<char>, i: int, j1: int, j2: int)
    requires
        i <= j1 <= j2,
    ensures
        digits_val(s, i, j1) <= digits_val(s, i, j2),
    decreases j2 - j1,
{
    if j1 < j2 {
        lemma_digits_val_grows(s, i, j1, j2 - 1);
        assert(digits_val(s, i, j2 - 1) * 10 >= digits_val(s, i, j2 - 1)) by (nonlinear_arith);
    }
}

pub open spec fn is_space(c: char) -> bool {
    c == ' ' || c == '\t' || c == '\n' || c == '\r'
}

/// First non-whitespace index at or after `i`.
pub open spec fn skip_spaces(s: Seq<char>, i: int) -> int
    decreases s.len() - i,
{
    if i < 0 || i >= s.len() {
        s.len() as int
    } else if is_space(s[i]) {
        skip_spaces(s, i + 1)
    } else {
        i
    }
}

pub proof fn lemma_skip_spaces_unique(s: Seq<char>, i: int, j: int)
    requires
        0 <= i <= j <= s.len(),
        forall|k: int| i <= k < j ==> is_space(s[k]),
        j == s.len() || !is_space(s[j]),
    ensures
        skip_spaces(s, i) == j,
    decreases j - i,
{
    if i < j {
        lemma_skip_spaces_unique(s, i + 1, j);
    }
}

/// End of the text once trailing whitespace before `j` is dropped.
pub open spec fn rtrim_end(s: Seq<char>, j: int) -> int
    decreases j,
{
    if j <= 0 {
        0
    } else if is_space(s[j - 1]) {
        rtrim_end(s, j - 1)
    } else {
        j
    }
}

pub proof fn lemma_rtrim_end_unique(s: Seq<char>, i: int, j: int)
    requires
        0 <= i <= j <= s.len(),
        forall|k: int| i <= k < j ==> is_space(s[k]),
        i == 0 || !is_space(s[i - 1]),
    ensures
        rtrim_end(s, j) == i,
    decreases j - i,
{
    if i < j {
        lemma_rtrim_end_unique(s, i, j - 1);
    }
}

pub proof fn lemma_rtrim_le(s: Seq<char>, j: int)
    requires
        0 <= j <= s.len(),
    ensures
        0 <= rtrim_end(s, j) <= j,
    decreases j,
{
    if j > 0 && is_space(s[j - 1]) {
        lemma_rtrim_le(s, j - 1);
    }
}

proof fn lemma_rtrim_spaces(s: Seq<char>, i: int, j: int)
    requires
        0 <= i <= j <= s.len(),
        forall|k: int| i <= k < j ==> is_space(s[k]),
    ensures
        rtrim_end(s, j) <= i,
    decreases j - i,
{
    if i < j {
        lemma_rtrim_spaces(s, i, j - 1);
    } else {
        lemma_rtrim_le(s, i);
    }
}

/// The text with leading and trailing whitespace removed.
pub open spec fn spec_trim(s: Seq<char>) -> Seq<char> {
    let a = skip_spaces(s, 0);
    let b = rtrim_end(s, s.len() as int);
    if a <= b {
        s.subrange(a, b)
    } else {
        Seq::empty()
    }
}

/// Removes leading and trailing whitespace (space, tab, newline, carriage
/// return).
pub fn trim(s: &str) -> (r: &str)
    ensures
        r@ == spec_trim(s@),
{
    let n = s.unicode_len();
    let mut a: usize = 0;
    while a < n && is_space_exec(s.get_char(a))
        invariant
            a <= n,
            n == s@.len(),
            forall|k: int| 0 <= k < a ==> is_space(s@[k]),
        decreases n - a,
    {
        a = a + 1;
    }
    proof {
        lemma_skip_spaces_unique(s@, 0, a as int);
    }
    let mut b: usize = n;
    while b > a && is_space_exec(s.get_char(b - 1))
        invariant
            a <= b <= n,
            n == s@.len(),
            forall|k: int| b <= k < n ==> is_space(s@[k]),
        decreases b,
    {
        b = b - 1;
    }
    if b == a {
        proof {
            lemma_rtrim_spaces(s@, a as int, s@.len() as int);
            assert(spec_trim(s@) =~= s@.subrange(a as int, a as int));
        }
        s.substring_char(a, a)
    } else {
        proof {
            lemma_rtrim_end_unique(s@, b as int, s@.len() as int);
        }
        s.substring_char(a, b)
    }
}

fn is_space_exec(c: char) -> (r: bool)
    ensures
        r == is_space(c),
{
    c == ' ' || c == '\t' || c == '\n' || c == '\r'
}

/// The decimal rendering of `n`, most significant digit first.
pub open spec fn dec_digits(n: nat) -> Seq<char>
    decreases n,
{
    if n < 10 {
        seq![digit_char(n)]
    } else {
        dec_digits(n / 10).push(digit_char(n % 10))
    }
}

pub open spec fn digit_char(d: nat) -> char
    recommends
        d < 10,
{
    if d == 0 {
        '0'
    } else if d == 1 {
        '1'
    } else if d == 2 {
        '2'
    } else if d == 3 {
        '3'
    } else if d == 4 {
        '4'
    } else if d == 5 {
        '5'
    } else if d == 6 {
        '6'
    } else if d == 7 {
        '7'
    } else if d == 8 {
        '8'
    } else {
        '9'
    }
}

/// A one-character string for the decimal digit `d`.
pub fn digit_str(d: u8) -> (r: &'static str)
    requires
        d < 10,
    ensures
        r@ =~= seq![digit_char(d as nat)],
{
    let r: &'static str = if d == 0 {
        "0"
    } else if d == 1 {
        "1"
    } else if d == 2 {
        "2"
    } else if d == 3 {
        "3"
    } else if d == 4 {
        "4"
    } else if d == 5 {
        "5"
    } else if d == 6 {
        "6"
    } else if d == 7 {
        "7"
    } else if d == 8 {
        "8"
    } else {
        "9"
    };
    proof {
        reveal_strlit("0");
        reveal_strlit("1");
        reveal_strlit("2");
        reveal_strlit("3");
        reveal_strlit("4");
        reveal_strlit("5");
        reveal_strlit("6");
        reveal_strlit("7");
        reveal_strlit("8");
        reveal_strlit("9");
    }
    r
}

/// Renders `n` in decimal.
pub fn u64_to_string(n: u64) -> (r: String)
    ensures
        r@ == dec_digits(n as nat),
{
    let mut rest: u64 = n;
    let mut low_digits: Vec<u8> = Vec::new();
    while rest >= 10
        invariant
            dec_digits(n as nat) =~= dec_digits(rest as nat) + Seq::new(
                low_digits@.len(),
                |k: int| digit_char(low_digits@[low_digits@.len() - 1 - k] as nat),
            ),
            forall|k: int| 0 <= k < low_digits@.len() ==> low_digits@[k] < 10,
        decreases rest,
    {
        let d: u8 = (rest % 10) as u8;
        rest = rest / 10;
        low_digits.push(d);
        proof {
            let prev = low_digits@.drop_last();
            assert(Seq::new(
                low_digits@.len(),
                |k: int| digit_char(low_digits@[low_digits@.len() - 1 - k] as nat),
            ) =~= seq![digit_char(d as nat)] + Seq::new(
                prev.len(),
                |k: int| digit_char(prev[prev.len() - 1 - k] as nat),
            ));
        }
    }
    let mut out = String::new();
    out.append(digit_str(rest as u8));
    proof {
        assert(out@ =~= dec_digits(rest as nat));
    }
    let mut i: usize = low_digits.len();
    while i > 0
        invariant
            i <= low_digits@.len(),
            forall|k: int| 0 <= k < low_digits@.len() ==> low_digits@[k] < 10,
            out@ =~= dec_digits(rest as nat) + Seq::new(
                (low_digits@.len() - i) as nat,
                |k: int| digit_char(low_digits@[low_digits@.len() - 1 - k] as nat),
            ),
        decreases i,
    {
        i = i - 1;
        out.append(digit_str(low_digits[i]));
        proof {
            assert(out@ =~= dec_digits(rest as nat) + Seq::new(
                (low_digits@.len() - i) as nat,
                |k: int| digit_char(low_digits@[low_digits@.len() - 1 - k] as nat),
            ));
        }
    }
    proof {
        assert(out@ =~= dec_digits(n as nat));
    }
    out
}

pub fn is_digit_exec(c: char) -> (r: bool)
    ensures
        r == is_digit(c),
{
    let u = c as u32;
    48 <= u && u <= 57
}

/// Scans forward from `i` to the end of the digit run.
pub fn digits_end_exec(s: &str, i: usize, n: usize) -> (r: usize)
    requires
        i <= n,
        n == s@.len(),
    ensures
        i <= r <= n,
        r as int == digits_end(s@, i as int),
        forall|k: int| i <= k < r ==> is_digit(s@[k]),
{
    let mut j: usize = i;
    while j < n && is_digit_exec(s.get_char(j))
        invariant
            i <= j <= n,
            n == s@.len(),
            forall|k: int| i <= k < j ==> is_digit(s@[k]),
        decreases n - j,
    {
        j = j + 1;
    }
    proof {
        lemma_digits_end_unique(s@, i as int, j as int);
    }
    j
}

/// Renders `n` in decimal.
pub fn u128_to_string(n: u128) -> (r: String)
    ensures
        r@ == dec_digits(n as nat),
{
    let mut rest: u128 = n;
    let mut low_digits: Vec<u8> = Vec::new();
    while rest >= 10
        invariant
            dec_digits(n as nat) =~= dec_digits(rest as nat) + Seq::new(
                low_digits@.len(),
                |k: int| digit_char(low_digits@[low_digits@.len() - 1 - k] as nat),
            ),
            forall|k: int| 0 <= k < low_digits@.len() ==> low_digits@[k] < 10,
        decreases rest,
    {
        let d: u8 = (rest % 10) as u8;
        rest = rest / 10;
        low_digits.push(d);
        proof {
            let prev = low_digits@.drop_last();
            assert(Seq::new(
                low_digits@.len(),
                |k: int| digit_char(low_digits@[low_digits@.len() - 1 - k] as nat),
            ) =~= seq![digit_char(d as nat)] + Seq::new(
                prev.len(),
                |k: int| digit_char(prev[prev.len() - 1 - k] as nat),
            ));
        }
    }
    let mut out = String::new();
    out.append(digit_str(rest as u8));
    proof {
        assert(out@ =~= dec_digits(rest as nat));
    }
    let mut i: usize = low_digits.len();
    while i > 0
        invariant
            i <= low_digits@.len(),
            forall|k: int| 0 <= k < low_digits@.len() ==> low_digits@[k] < 10,
            out@ =~= dec_digits(rest as nat) + Seq::new(
                (low_digits@.len() - i) as nat,
                |k: int| digit_char(low_digits@[low_digits@.len() - 1 - k] as nat),
            ),
        decreases i,
    {
        i = i - 1;
        out.append(digit_str(low_digits[i]));
        proof {
            assert(out@ =~= dec_digits(rest as nat) + Seq::new(
                (low_digits@.len() - i) as nat,
                |k: int| digit_char(low_digits@[low_digits@.len() - 1 - k] as nat),
            ));
        }
    }
    proof {
        assert(out@ =~= dec_digits(n as nat));
    }
    out
}

/// A decimal rendering is non-empty and consists of digits only.
pub proof fn lemma_dec_digits_shape(n: nat)
    ensures
        dec_digits(n).len() >= 1,
        forall|k: int| 0 <= k < dec_digits(n).len() ==> is_digit(#[trigger] dec_digits(n)[k]),
    decreases n,
{
    if n >= 10 {
        lemma_dec_digits_shape(n / 10);
    }
}

/// Distinct numbers have distinct decimal renderings.
pub proof fn lemma_dec_digits_injective(a: nat, b: nat)
    requires
        dec_digits(a) == dec_digits(b),
    ensures
        a == b,
    decreases a,
{
    lemma_dec_digits_shape(a);
    lemma_dec_digits_shape(b);
    if a < 10 && b < 10 {
        assert(dec_digits(a)[0] == digit_char(a));
        assert(dec_digits(b)[0] == digit_char(b));
    } else if a >= 10 && b >= 10 {
        assert(dec_digits(a).last() == digit_char(a % 10));
        assert(dec_digits(b).last() == digit_char(b % 10));
        assert(dec_digits(a).drop_last() == dec_digits(a / 10));
        assert(dec_digits(b).drop_last() == dec_digits(b / 10));
        lemma_dec_digits_injective(a / 10, b / 10);
        assert(a % 10 == b % 10);
    } else if a < 10 {
        assert(dec_digits(b).len() == dec_digits(b / 10).len() + 1);
        lemma_dec_digits_shape(b / 10);
        assert(false);
    } else {
        assert(dec_digits(a).len() == dec_digits(a / 10).len() + 1);
        lemma_dec_digits_shape(a / 10);
        assert(false);
    }
}

/// Parses the digit run `s[start..end)` as a `u64`; `None` when the value
/// does not fit.
pub fn parse_digits_u64(s: &str, start: usize, end: usize) -> (r: Option<u64>)
    requires
        start <= end <= s@.len(),
        forall|k: int| start <= k < end ==> is_digit(s@[k]),
    ensures
        match r {
            Some(v) => v as nat == digits_val(s@, start as int, end as int) && digits_val(
                s@,
                start as int,
                end as int,
            ) <= u64::MAX,
            None => digits_val(s@, start as int, end as int) > u64::MAX,
        },
{
    let mut val: u64 = 0;
    let mut j: usize = start;
    while j < end
        invariant
            start <= j <= end <= s@.len(),
            forall|k: int| start <= k < end ==> is_digit(s@[k]),
            val as nat == digits_val(s@, start as int, j as int),
        decreases end - j,
    {
        let c = s.get_char(j);
        let d: u64 = (c as u32 - 48) as u64;
        if val > (u64::MAX - d) / 10 {
            proof {
                assert(digits_val(s@, start as int, j + 1) > u64::MAX) by (nonlinear_arith)
                    requires
                        digits_val(s@, start as int, j + 1) == digits_val(
                            s@,
                            start as int,
                            j as int,
                        ) * 10 + digit_val(s@[j as int]),
                        digits_val(s@, start as int, j as int) == val as nat,
                        digit_val(s@[j as int]) == d as nat,
                        val > (u64::MAX - d) / 10,
                        d <= 9,
                ;
                lemma_digits_val_grows(s@, start as int, j + 1, end as int);
            }
            return None;
        }
        proof {
            assert(val * 10 + d <= u64::MAX) by (nonlinear_arith)
                requires
                    val <= (u64::MAX - d) / 10,
                    d <= 9,
            ;
        }
        val = val * 10 + d;
        j = j + 1;
    }
    Some(val)
}

/// Compares two strings lexicographically by code point; -1, 0 or 1.
pub fn cmp_str(a: &str, b: &str) -> (r: i8)
    ensures
        r as int == str_cmp(a@, b@),
{
    let a_len = a.unicode_len();
    let b_len = b.unicode_len();
    let mut i: usize = 0;
    loop
        invariant
            i <= a_len,
            i <= b_len,
            a_len == a@.len(),
            b_len == b@.len(),
            a@.take(i as int) == b@.take(i as int),
        decreases a_len - i,
    {
        proof {
            lemma_str_cmp_skip(a@, b@, i as int);
        }
        if i == a_len && i == b_len {
            proof {
                assert(a@.skip(i as int) =~= Seq::<char>::empty());
                assert(b@.skip(i as int) =~= Seq::<char>::empty());
            }
            return 0;
        }
        if i == a_len {
            proof {
                assert(a@.skip(i as int) =~= Seq::<char>::empty());
                assert(b@.skip(i as int).len() > 0);
            }
            return -1;
        }
        if i == b_len {
            proof {
                assert(b@.skip(i as int) =~= Seq::<char>::empty());
                assert(a@.skip(i as int).len() > 0);
            }
            return 1;
        }
        let ca = a.get_char(i) as u32;
        let cb = b.get_char(i) as u32;
        proof {
            assert(a@.skip(i as int)[0] == a@[i as int]);
            assert(b@.skip(i as int)[0] == b@[i as int]);
        }
        if ca < cb {
            return -1;
        }
        if ca > cb {
            return 1;
        }
        proof {
            char_cast_injective(a@[i as int], b@[i as int]);
            assert(a@.take(i + 1) =~= b@.take(i + 1));
        }
        i = i + 1;
    }
}

} // verus!
