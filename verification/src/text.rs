use vstd::prelude::*;
use vstd::string::StrSliceExecFns;
use vstd::string::StringExecFns;

verus! {

// ---------------------------------------------------------------------------
// Splitting a string on newlines
// ---------------------------------------------------------------------------

/// Index of the first newline in `s`, or `s.len()` if there is none.
pub open spec fn first_nl(s: Seq<char>) -> nat
    decreases s.len(),
{
    if s.len() == 0 {
        0
    } else if s[0] == '\n' {
        0
    } else {
        (1 + first_nl(s.drop_first())) as nat
    }
}

pub proof fn lemma_first_nl_at(s: Seq<char>, k: nat)
    requires
        k <= s.len(),
        forall|j: int| 0 <= j < k ==> s[j] != '\n',
        k < s.len() ==> s[k as int] == '\n',
    ensures
        first_nl(s) == k,
    decreases s.len(),
{
    if k == 0 {
    } else {
        lemma_first_nl_at(s.drop_first(), (k - 1) as nat);
    }
}

/// The segments of `s` between newlines, the way an iterator that splits on
/// the newline character yields them (a string without newlines is one
/// segment, itself).
pub open spec fn split_on_nl(s: Seq<char>) -> Seq<Seq<char>>
    decreases s.len(),
{
    let i = first_nl(s);
    if i < s.len() {
        seq![s.take(i as int)] + split_on_nl(s.skip(i as int + 1))
    } else {
        seq![s]
    }
}

/// The physical lines a piece of text occupies on screen: none for the
/// empty text, otherwise its newline-separated segments.
pub open spec fn lines_of(s: Seq<char>) -> Seq<Seq<char>> {
    if s.len() == 0 {
        Seq::empty()
    } else {
        split_on_nl(s)
    }
}

pub open spec fn str_views(v: Seq<String>) -> Seq<Seq<char>> {
    v.map_values(|t: String| t@)
}

pub fn split_lines(s: &str) -> (r: Vec<String>)
    ensures
        str_views(r@) == lines_of(s@),
{
    let n = s.unicode_len();
    let mut out: Vec<String> = Vec::new();
    if n == 0 {
        proof {
            assert(str_views(out@) =~= lines_of(s@));
        }
        return out;
    }
    let mut start: usize = 0;
    proof {
        assert(s@.skip(0) =~= s@);
        assert(str_views(out@) + split_on_nl(s@) =~= split_on_nl(s@));
    }
    loop
        invariant
            start <= n,
            n == s@.len(),
            n > 0,
            split_on_nl(s@) == str_views(out@) + split_on_nl(s@.skip(start as int)),
        decreases n - start,
    {
        let mut j = start;
        while j < n && s.get_char(j) != '\n'
            invariant
                start <= j <= n,
                n == s@.len(),
                forall|m: int| start <= m < j ==> s@[m] != '\n',
            decreases n - j,
        {
            j += 1;
        }
        let ghost out0 = out@;
        let seg = s.substring_char(start, j).to_owned();
        out.push(seg);
        proof {
            let t = s@.skip(start as int);
            assert(forall|m: int| 0 <= m < j - start ==> t[m] == s@[m + start] && t[m] != '\n');
            if j < n {
                assert(t[j - start] == s@[j as int]);
            }
            lemma_first_nl_at(t, (j - start) as nat);
            assert(t.take(j - start) =~= seg@);
            assert(str_views(out@) =~= str_views(out0).push(seg@));
        }
        if j == n {
            proof {
                let t = s@.skip(start as int);
                assert(first_nl(t) == t.len());
                assert(split_on_nl(t) == seq![t]);
                assert(t =~= seg@);
                assert(str_views(out0) + seq![seg@] =~= str_views(out@));
                assert(str_views(out@) == split_on_nl(s@));
            }
            return out;
        }
        proof {
            let t = s@.skip(start as int);
            assert(split_on_nl(t) == seq![t.take(j - start)] + split_on_nl(t.skip(j - start + 1)));
            assert(t.skip(j - start + 1) =~= s@.skip(j + 1));
            assert(split_on_nl(s@) == str_views(out0) + (seq![seg@] + split_on_nl(s@.skip(j + 1))));
            assert(str_views(out0) + (seq![seg@] + split_on_nl(s@.skip(j + 1))) =~= str_views(out@)
                + split_on_nl(s@.skip(j + 1)));
        }
        start = j + 1;
    }
}

// ---------------------------------------------------------------------------
// Trimming surrounding whitespace
// ---------------------------------------------------------------------------

/// The whitespace characters stripped from line input: the Unicode
/// White_Space set — the ASCII blank, tab, newline, vertical tab, form
/// feed and carriage return, and the non-ASCII spaces and separators.
pub open spec fn is_space(c: char) -> bool {
    let u = c as u32;
    u == 0x9 || u == 0xa || u == 0xb || u == 0xc || u == 0xd || u == 0x20 || u == 0x85
        || u == 0xa0 || u == 0x1680 || (0x2000 <= u && u <= 0x200a) || u == 0x2028 || u == 0x2029
        || u == 0x202f || u == 0x205f || u == 0x3000
}

/// Number of leading whitespace characters of `s`.
pub open spec fn lead_ws(s: Seq<char>) -> nat
    decreases s.len(),
{
    if s.len() == 0 {
        0
    } else if !is_space(s[0]) {
        0
    } else {
        (1 + lead_ws(s.drop_first())) as nat
    }
}

/// Number of trailing whitespace characters of `s`.
pub open spec fn trail_ws(s: Seq<char>) -> nat
    decreases s.len(),
{
    if s.len() == 0 {
        0
    } else if !is_space(s.last()) {
        0
    } else {
        (1 + trail_ws(s.drop_last())) as nat
    }
}

/// `s` with surrounding whitespace removed; inner characters kept verbatim.
pub open spec fn trim_spec(s: Seq<char>) -> Seq<char> {
    if lead_ws(s) == s.len() {
        Seq::empty()
    } else {
        s.subrange(lead_ws(s) as int, s.len() - trail_ws(s))
    }
}

pub proof fn lemma_lead_ws_at(s: Seq<char>, k: nat)
    requires
        k <= s.len(),
        forall|j: int| 0 <= j < k ==> is_space(s[j]),
        k < s.len() ==> !is_space(s[k as int]),
    ensures
        lead_ws(s) == k,
    decreases s.len(),
{
    if k == 0 {
    } else {
        lemma_lead_ws_at(s.drop_first(), (k - 1) as nat);
    }
}

pub proof fn lemma_trail_ws_at(s: Seq<char>, k: nat)
    requires
        k <= s.len(),
        forall|j: int| s.len() - k <= j < s.len() ==> is_space(s[j]),
        k < s.len() ==> !is_space(s[s.len() - k - 1]),
    ensures
        trail_ws(s) == k,
    decreases s.len(),
{
    if k == 0 {
    } else {
        lemma_trail_ws_at(s.drop_last(), (k - 1) as nat);
    }
}

fn is_space_char(c: char) -> (r: bool)
    ensures
        r == is_space(c),
{
    let u = c as u32;
    u == 0x9 || u == 0xa || u == 0xb || u == 0xc || u == 0xd || u == 0x20 || u == 0x85
        || u == 0xa0 || u == 0x1680 || (0x2000 <= u && u <= 0x200a) || u == 0x2028 || u == 0x2029
        || u == 0x202f || u == 0x205f || u == 0x3000
}

/// Strip surrounding whitespace from `s`.
pub fn trim_str(s: &str) -> (r: String)
    ensures
        r@ == trim_spec(s@),
{
    let n = s.unicode_len();
    let mut i: usize = 0;
    while i < n && is_space_char(s.get_char(i))
        invariant
            i <= n,
            n == s@.len(),
            forall|m: int| 0 <= m < i ==> is_space(s@[m]),
        decreases n - i,
    {
        i += 1;
    }
    if i == n {
        proof {
            lemma_lead_ws_at(s@, n as nat);
        }
        return String::new();
    }
    let mut j: usize = n - 1;
    while is_space_char(s.get_char(j))
        invariant
            i <= j < n,
            n == s@.len(),
            !is_space(s@[i as int]),
            forall|m: int| j < m < n ==> is_space(s@[m]),
        decreases j,
    {
        j -= 1;
    }
    proof {
        lemma_lead_ws_at(s@, i as nat);
        lemma_trail_ws_at(s@, (n - 1 - j) as nat);
    }
    s.substring_char(i, j + 1).to_owned()
}

// ---------------------------------------------------------------------------
// Parsing a non-negative 32-bit number
// ---------------------------------------------------------------------------

pub open spec fn is_digit(c: char) -> bool {
    48 <= c as u32 <= 57
}

pub open spec fn digit_val(c: char) -> nat {
    (c as u32 - 48) as nat
}

pub open spec fn all_digits(s: Seq<char>) -> bool {
    forall|i: int| 0 <= i < s.len() ==> is_digit(#[trigger] s[i])
}

/// The number the digit string `s` denotes in decimal.
pub open spec fn digits_val(s: Seq<char>) -> nat
    decreases s.len(),
{
    if s.len() == 0 {
        0
    } else {
        digits_val(s.drop_last()) * 10 + digit_val(s.last())
    }
}

/// The digits of a number literal: everything after one optional leading
/// plus sign.
pub open spec fn u32_body(s: Seq<char>) -> Seq<char> {
    if s.len() > 0 && s[0] == '+' {
        s.drop_first()
    } else {
        s
    }
}

/// Does `s` (as given, no surrounding whitespace) denote a non-negative
/// 32-bit number: an optional plus sign, then one or more decimal digits,
/// with a value that fits in 32 bits.
pub open spec fn parses_as_u32(s: Seq<char>) -> bool {
    let b = u32_body(s);
    b.len() > 0 && all_digits(b) && digits_val(b) <= u32::MAX
}

pub open spec fn u32_val(s: Seq<char>) -> nat {
    digits_val(u32_body(s))
}

proof fn lemma_digits_val_snoc(b: Seq<char>, m: int)
    requires
        0 <= m < b.len(),
    ensures
        digits_val(b.take(m + 1)) == digits_val(b.take(m)) * 10 + digit_val(b[m]),
{
    assert(b.take(m + 1).drop_last() =~= b.take(m));
    assert(b.take(m + 1).last() == b[m]);
}

proof fn lemma_digits_val_mono(b: Seq<char>, m: int)
    requires
        0 <= m <= b.len(),
    ensures
        digits_val(b.take(m)) <= digits_val(b),
    decreases b.len() - m,
{
    if m == b.len() {
        assert(b.take(m) =~= b);
    } else {
        lemma_digits_val_snoc(b, m);
        lemma_digits_val_mono(b, m + 1);
    }
}

/// Parse `s` as a non-negative 32-bit number, accepting exactly the inputs
/// `parses_as_u32` describes.
pub fn parse_u32(s: &str) -> (r: Option<u32>)
    ensures
        parses_as_u32(s@) ==> r == Some(u32_val(s@) as u32),
        !parses_as_u32(s@) ==> r is None,
{
    let n = s.unicode_len();
    let mut i: usize = 0;
    if n > 0 && s.get_char(0) == '+' {
        i = 1;
    }
    proof {
        assert(u32_body(s@) =~= s@.skip(i as int));
    }
    if i == n {
        return None;
    }
    let ghost b = u32_body(s@);
    let mut val: u32 = 0;
    let mut k = i;
    while k < n
        invariant
            i <= k <= n,
            n == s@.len(),
            b == s@.skip(i as int),
            b == u32_body(s@),
            b.len() == n - i,
            forall|m: int| 0 <= m < k - i ==> is_digit(#[trigger] b[m]),
            val == digits_val(b.take(k - i)),
        decreases n - k,
    {
        let c = s.get_char(k);
        let u = c as u32;
        proof {
            assert(b[k - i] == s@[k as int]);
        }
        if u < 48 || u > 57 {
            proof {
                assert(0 <= k - i < b.len());
                assert(!is_digit(b[k - i]));
                assert(!all_digits(b));
                assert(!parses_as_u32(s@));
            }
            return None;
        }
        let d = u - 48;
        proof {
            lemma_digits_val_snoc(b, k - i);
        }
        if val > (u32::MAX - d) / 10 {
            proof {
                assert(val * 10 + d > u32::MAX) by {
                    assert(val >= (u32::MAX - d) / 10 + 1);
                    assert(((u32::MAX - d) / 10 + 1) * 10 > u32::MAX - d) by (nonlinear_arith);
                    assert(val * 10 >= ((u32::MAX - d) / 10 + 1) * 10) by (nonlinear_arith)
                        requires
                            val >= (u32::MAX - d) / 10 + 1,
                    ;
                }
                assert(digit_val(b[k - i]) == d);
                assert(digits_val(b.take(k - i + 1)) > u32::MAX);
                lemma_digits_val_mono(b, k - i + 1);
                assert(digits_val(b) > u32::MAX);
                assert(!parses_as_u32(s@));
            }
            return None;
        }
        proof {
            assert(val * 10 + d <= u32::MAX) by {
                assert(val <= (u32::MAX - d) / 10);
                assert(((u32::MAX - d) as int / 10) * 10 <= (u32::MAX - d) as int) by (nonlinear_arith);
                assert(val * 10 <= ((u32::MAX - d) as int / 10) * 10) by (nonlinear_arith)
                    requires
                        val <= (u32::MAX - d) as int / 10,
                ;
            }
        }
        val = val * 10 + d;
        k += 1;
    }
    proof {
        assert(b.take(n - i) =~= b);
    }
    Some(val)
}

/// Does a raw input line, once trimmed, denote a 32-bit number.
pub open spec fn line_parses_as_u32(s: Seq<char>) -> bool {
    parses_as_u32(trim_spec(s))
}

pub open spec fn line_u32_val(s: Seq<char>) -> nat {
    u32_val(trim_spec(s))
}


// ---------------------------------------------------------------------------
// Rendering a number in decimal
// ---------------------------------------------------------------------------

pub open spec fn dec_digit_char(d: nat) -> char {
    if d == 0 {
        '0'
    } else if d == 1 {
        '1'
    } else if d == 2 {
        '2'
    } else if d == 3 {
        '3'
    } else if d == 4 {
        '4'
    } else if d == 5 {
        '5'
    } else if d == 6 {
        '6'
    } else if d == 7 {
        '7'
    } else if d == 8 {
        '8'
    } else {
        '9'
    }
}

/// The decimal rendering of `n`: most significant digit first, no leading
/// zeroes (except for `n == 0`, rendered "0").
pub open spec fn dec_str(n: nat) -> Seq<char>
    decreases n,
{
    if n < 10 {
        seq![dec_digit_char(n)]
    } else {
        dec_str(n / 10) + seq![dec_digit_char(n % 10)]
    }
}

/// Relies on std's `String::push`: appends exactly the one character given.
#[verifier::external_body]
pub(crate) fn push_char(s: &mut String, c: char)
    ensures
        final(s)@ == old(s)@ + seq![c],
{
    s.push(c);
}

fn digit_char(d: u32) -> (c: char)
    requires
        d < 10,
    ensures
        c == dec_digit_char(d as nat),
{
    if d == 0 {
        '0'
    } else if d == 1 {
        '1'
    } else if d == 2 {
        '2'
    } else if d == 3 {
        '3'
    } else if d == 4 {
        '4'
    } else if d == 5 {
        '5'
    } else if d == 6 {
        '6'
    } else if d == 7 {
        '7'
    } else if d == 8 {
        '8'
    } else {
        '9'
    }
}

/// Render `n` in decimal.
pub fn u32_to_string(n: u32) -> (r: String)
    ensures
        r@ == dec_str(n as nat),
    decreases n,
{
    if n < 10 {
        let mut s = String::new();
        push_char(&mut s, digit_char(n));
        proof {
            assert(s@ =~= dec_str(n as nat));
        }
        s
    } else {
        proof {
            assert(n / 10 < n) by (nonlinear_arith)
                requires
                    10 <= n,
            ;
        }
        let mut s = u32_to_string(n / 10);
        push_char(&mut s, digit_char(n % 10));
        proof {
            assert(s@ =~= dec_str(n as nat));
        }
        s
    }
}

} // verus!
