use vstd::prelude::*;

verus! {

/// The views of a sequence of strings.
pub open spec fn string_views(v: Seq<String>) -> Seq<Seq<char>> {
    v.map_values(|s: String| s@)
}

/// The character of a decimal digit.
pub open spec fn digit_char(d: nat) -> char {
    if d == 0 {
        '0'
    } else if d == 1 {
        '1'
    } else if d == 2 {
        '2'
    } else if d == 3 {
        '3'
    } else if d == 4 {
        '4'
    } else if d == 5 {
        '5'
    } else if d == 6 {
        '6'
    } else if d == 7 {
        '7'
    } else if d == 8 {
        '8'
    } else {
        '9'
    }
}

/// The decimal notation of `n`, without sign or leading zeros.
pub open spec fn decimal_spec(n: nat) -> Seq<char>
    decreases n,
{
    if n < 10 {
        seq![digit_char(n)]
    } else {
        decimal_spec(n / 10).push(digit_char(n % 10))
    }
}

/// The decimal notation of `n`, padded with zeros on the left to at least two digits.
pub open spec fn pad2_spec(n: nat) -> Seq<char> {
    if n < 10 {
        seq!['0'] + decimal_spec(n)
    } else {
        decimal_spec(n)
    }
}

fn digit_str(d: u64) -> (r: &'static str)
    requires
        d < 10,
    ensures
        r@ == seq![digit_char(d as nat)],
{
    proof {
        reveal_strlit("0");
        reveal_strlit("1");
        reveal_strlit("2");
        reveal_strlit("3");
        reveal_strlit("4");
        reveal_strlit("5");
        reveal_strlit("6");
        reveal_strlit("7");
        reveal_strlit("8");
        reveal_strlit("9");
    }
    if d == 0 {
        "0"
    } else if d == 1 {
        "1"
    } else if d == 2 {
        "2"
    } else if d == 3 {
        "3"
    } else if d == 4 {
        "4"
    } else if d == 5 {
        "5"
    } else if d == 6 {
        "6"
    } else if d == 7 {
        "7"
    } else if d == 8 {
        "8"
    } else {
        "9"
    }
}

/// Writes `n` in decimal.
pub fn decimal(n: u64) -> (r: String)
    ensures
        r@ == decimal_spec(n as nat),
{
    decimal_wide(n as u128)
}

fn decimal_wide(n: u128) -> (r: String)
    ensures
        r@ == decimal_spec(n as nat),
    decreases n,
{
    if n < 10 {
        String::from_str(digit_str(n as u64))
    } else {
        let mut s = decimal_wide(n / 10);
        s.append(digit_str((n % 10) as u64));
        s
    }
}

fn pad2(n: u64) -> (r: String)
    ensures
        r@ == pad2_spec(n as nat),
{
    if n < 10 {
        proof {
            reveal_strlit("0");
        }
        let s = String::from_str("0");
        s.concat(digit_str(n))
    } else {
        decimal(n)
    }
}

/// `HH:MM:SS` for a number of seconds; hours grow past two digits as needed.
pub open spec fn duration_text(seconds: nat) -> Seq<char> {
    pad2_spec(seconds / 3600) + seq![':'] + pad2_spec((seconds % 3600) / 60) + seq![':']
        + pad2_spec(seconds % 60)
}

/// Renders a number of seconds as `HH:MM:SS`.
pub fn format_duration(seconds: u64) -> (r: String)
    ensures
        r@ == duration_text(seconds as nat),
{
    proof {
        reveal_strlit(":");
    }
    let hours = pad2(seconds / 3600);
    let minutes = pad2((seconds % 3600) / 60);
    let secs = pad2(seconds % 60);
    let mut out = hours;
    out.append(":");
    out.append(minutes.as_str());
    out.append(":");
    out.append(secs.as_str());
    out
}

/// Bytes in a kibibyte.
pub const KB: u64 = 1024;

/// Bytes in a mebibyte.
pub const MB: u64 = 1048576;

/// Bytes in a gibibyte.
pub const GB: u64 = 1073741824;

/// 2^52: doubles at or above 2^53 are spaced more than one apart.
pub const TWO_52: u128 = 4503599627370496;

/// 2^53, the width of a double's significand.
pub const TWO_53: u128 = 9007199254740992;

/// Whether `u` is a power of two.
pub open spec fn is_pow2(u: nat) -> bool
    decreases u,
{
    if u == 1 {
        true
    } else if u >= 2 && u % 2 == 0 {
        is_pow2(u / 2)
    } else {
        false
    }
}

/// `num / den` rounded to the nearest integer, ties to the even one.
pub open spec fn round_half_even(num: nat, den: nat) -> nat
    recommends
        den > 0,
{
    let q = num / den;
    let r = num % den;
    if 2 * r > den || (2 * r == den && q % 2 == 1) {
        q + 1
    } else {
        q
    }
}

/// Whether `u` is the spacing of double-precision numbers around `n`: one
/// below 2^53, else the power of two that leaves `n / u` 53 bits wide.
pub open spec fn is_double_step(n: nat, u: nat) -> bool {
    &&& is_pow2(u)
    &&& n / u < TWO_53
    &&& (u == 1 || n / u >= TWO_52)
}

/// A count of hundredths written with two decimals, then the unit.
pub open spec fn hundredths_text(h: nat, unit: Seq<char>) -> Seq<char> {
    decimal_spec(h / 100) + seq!['.'] + pad2_spec(h % 100) + seq![' '] + unit
}

/// A byte count in the largest binary unit it reaches, with two decimals;
/// plain bytes below a kibibyte. `u` is the double spacing around `n`: the
/// count is first rounded to the nearest double, as a conversion to
/// floating point would, and the quotient is rounded half to even.
pub open spec fn size_text(n: nat, u: nat) -> Seq<char> {
    if n >= GB {
        hundredths_text(round_half_even(round_half_even(n, u) * u * 100, GB as nat), "GB"@)
    } else if n >= MB {
        hundredths_text(round_half_even(n * 100, MB as nat), "MB"@)
    } else if n >= KB {
        hundredths_text(round_half_even(n * 100, KB as nat), "KB"@)
    } else {
        decimal_spec(n) + " B"@
    }
}

fn round_half_even_exec(num: u128, den: u128) -> (r: u128)
    requires
        den > 0,
        num < 0xffff_ffff_ffff_ffff_ffff_ffff_ffff_0000,
    ensures
        r == round_half_even(num as nat, den as nat),
{
    let q = num / den;
    let rem = num % den;
    proof {
        assert(q <= num) by (nonlinear_arith)
            requires
                den > 0,
                q == num / den,
        ;
    }
    if rem > den - rem || (rem == den - rem && q % 2 == 1) {
        q + 1
    } else {
        q
    }
}

fn pad2_wide(n: u128) -> (r: String)
    requires
        n < 100,
    ensures
        r@ == pad2_spec(n as nat),
{
    pad2(n as u64)
}

fn hundredths(h: u128, unit: &str) -> (r: String)
    ensures
        r@ == hundredths_text(h as nat, unit@),
{
    proof {
        reveal_strlit(".");
        reveal_strlit(" ");
    }
    let mut s = decimal_wide(h / 100);
    s.append(".");
    let frac = pad2_wide(h % 100);
    s.append(frac.as_str());
    s.append(" ");
    s.append(unit);
    s
}

/// Writes a byte count in the largest binary unit it reaches (KB, MB, GB)
/// with two decimals, rounded as double-precision arithmetic rounds it;
/// counts below a kibibyte are written in bytes.
pub fn format_size(size_bytes: u64) -> (r: String)
    ensures
        exists|u: nat| is_double_step(size_bytes as nat, u) && r@ == size_text(size_bytes as nat, u),
{
    let n = size_bytes as u128;
    let mut u: u128 = 1;
    while n / u >= TWO_53
        invariant
            1 <= u <= 0x1_0000_0000,
            is_pow2(u as nat),
            u == 1 || n / u >= TWO_52,
            n == size_bytes,
        decreases n / u,
    {
        proof {
            vstd::arithmetic::div_mod::lemma_div_denominator(n as int, u as int, 2);
            assert(u <= 0x1000) by (nonlinear_arith)
                requires
                    n / u >= TWO_53,
                    u >= 1,
                    n < 0x1_0000_0000_0000_0000,
            ;
            assert((u * 2) / 2 == u);
        }
        u = u * 2;
    }
    let r = if size_bytes >= GB {
        let q = round_half_even_exec(n, u);
        proof {
            assert(q <= n / u + 1);
            assert((n / u + 1) * u <= n + u) by (nonlinear_arith)
                requires
                    u >= 1,
            ;
            assert(q * u <= (n / u + 1) * u) by (nonlinear_arith)
                requires
                    q <= n / u + 1,
                    u >= 1,
            ;
        }
        let m = q * u;
        hundredths(round_half_even_exec(m * 100, GB as u128), "GB")
    } else if size_bytes >= MB {
        hundredths(round_half_even_exec(n * 100, MB as u128), "MB")
    } else if size_bytes >= KB {
        hundredths(round_half_even_exec(n * 100, KB as u128), "KB")
    } else {
        let mut s = decimal(size_bytes);
        s.append(" B");
        s
    };
    assert(is_double_step(size_bytes as nat, u as nat));
    r
}

/// Whether `k` occurs in `s` as a run of consecutive characters.
pub open spec fn has_substring(s: Seq<char>, k: Seq<char>) -> bool {
    exists|i: int| 0 <= i && i + k.len() <= s.len() && #[trigger] s.subrange(i, i + k.len()) == k
}

/// Relies on `str::contains` with a `&str` pattern: true exactly when
/// `needle` occurs in `haystack` as a run of consecutive characters.
#[verifier::external_body]
pub(crate) fn str_contains(haystack: &str, needle: &str) -> (r: bool)
    ensures
        r == has_substring(haystack@, needle@),
{
    haystack.contains(needle)
}

/// Whether `s` contains any of `keywords`.
pub fn contains_any(s: &str, keywords: &[&str]) -> (r: bool)
    ensures
        r == exists|i: int| 0 <= i < keywords@.len() && has_substring(s@, #[trigger] keywords@[i]@),
{
    let mut i: usize = 0;
    while i < keywords.len()
        invariant
            i <= keywords.len(),
            forall|j: int| 0 <= j < i ==> !has_substring(s@, #[trigger] keywords@[j]@),
        decreases keywords.len() - i,
    {
        if str_contains(s, keywords[i]) {
            return true;
        }
        i = i + 1;
    }
    false
}

} // verus!
