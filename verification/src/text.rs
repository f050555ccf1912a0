//! Character-level helpers: the string operations the rest of the crate is
//! specified over (ASCII case folding, decimal numbers, trimming, search and
//! replace), each with an executable form proved against its spec.
use vstd::prelude::*;

verus! {

/// Appending one character to a `String`.
pub assume_specification[ String::push ](s: &mut String, ch: char)
    ensures
        final(s)@ == old(s)@.push(ch),
;

/// Appending a string slice to a `String`.
pub assume_specification[ String::push_str ](s: &mut String, t: &str)
    ensures
        final(s)@ == old(s)@ + t@,
;

// ---------------------------------------------------------------------------
// Specs
// ---------------------------------------------------------------------------

pub open spec fn is_ascii_upper(c: char) -> bool {
    'A' <= c && c <= 'Z'
}

pub open spec fn is_ascii_lower(c: char) -> bool {
    'a' <= c && c <= 'z'
}

pub open spec fn is_ascii_digit(c: char) -> bool {
    '0' <= c && c <= '9'
}

pub open spec fn is_ascii_alphanumeric(c: char) -> bool {
    is_ascii_upper(c) || is_ascii_lower(c) || is_ascii_digit(c)
}

/// `char::to_ascii_lowercase`.
pub open spec fn lower_char(c: char) -> char {
    if is_ascii_upper(c) {
        ((c as u32) + 32) as char
    } else {
        c
    }
}

/// `char::to_ascii_uppercase`.
pub open spec fn upper_char(c: char) -> char {
    if is_ascii_lower(c) {
        ((c as u32) - 32) as char
    } else {
        c
    }
}

/// `str::to_ascii_lowercase`.
pub open spec fn lower(s: Seq<char>) -> Seq<char> {
    s.map_values(|c: char| lower_char(c))
}

/// `str::to_ascii_uppercase`.
pub open spec fn upper(s: Seq<char>) -> Seq<char> {
    s.map_values(|c: char| upper_char(c))
}

/// `str::eq_ignore_ascii_case`.
pub open spec fn eq_ignore_case(a: Seq<char>, b: Seq<char>) -> bool {
    lower(a) == lower(b)
}

pub open spec fn starts_with(s: Seq<char>, p: Seq<char>) -> bool {
    p.len() <= s.len() && s.take(p.len() as int) == p
}

/// `char::is_whitespace`: the Unicode `White_Space` property.
pub open spec fn is_whitespace(c: char) -> bool {
    ||| '\t' <= c && c <= '\r'
    ||| c == ' '
    ||| c == '\u{85}'
    ||| c == '\u{a0}'
    ||| c == '\u{1680}'
    ||| '\u{2000}' <= c && c <= '\u{200a}'
    ||| c == '\u{2028}'
    ||| c == '\u{2029}'
    ||| c == '\u{202f}'
    ||| c == '\u{205f}'
    ||| c == '\u{3000}'
}

/// The decimal digit for `d < 10`.
pub open spec fn digit_char(d: nat) -> char {
    ((d + 48) as u32) as char
}

/// `n` written in decimal, without leading zeros.
pub open spec fn decimal(n: nat) -> Seq<char>
    decreases n,
{
    if n < 10 {
        seq![digit_char(n)]
    } else {
        decimal(n / 10).push(digit_char(n % 10))
    }
}

/// `n` written in decimal, left-padded with zeros to at least `width` digits.
pub open spec fn zero_padded(n: nat, width: nat) -> Seq<char> {
    let d = decimal(n);
    if d.len() < width {
        Seq::new((width - d.len()) as nat, |i: int| '0') + d
    } else {
        d
    }
}

/// The value of a string of decimal digits.
pub open spec fn digits_value(s: Seq<char>) -> nat
    decreases s.len(),
{
    if s.len() == 0 {
        0
    } else {
        digits_value(s.drop_last()) * 10 + ((s.last() as u32) - 48) as nat
    }
}

pub open spec fn all_digits(s: Seq<char>) -> bool {
    forall|i: int| 0 <= i < s.len() ==> is_ascii_digit(#[trigger] s[i])
}

/// `u32::from_str`: an optional `+`, then at least one digit, in range.
pub open spec fn parse_u32(s: Seq<char>) -> Option<u32> {
    let body = if s.len() > 0 && s[0] == '+' { s.skip(1) } else { s };
    if body.len() > 0 && all_digits(body) && digits_value(body) <= u32::MAX {
        Some(digits_value(body) as u32)
    } else {
        None
    }
}

/// `s` occurs in `t` starting at index `i`.
pub open spec fn occurs_at(t: Seq<char>, s: Seq<char>, i: int) -> bool {
    0 <= i && i + s.len() <= t.len() && t.subrange(i, i + s.len()) == s
}

/// `t` contains `s` as a contiguous substring.
pub open spec fn contains_seq(t: Seq<char>, s: Seq<char>) -> bool {
    exists|i: int| occurs_at(t, s, i)
}

/// `str::replace` for a non-empty pattern: every non-overlapping occurrence,
/// scanning left to right, is replaced.
pub open spec fn replace_all(s: Seq<char>, pat: Seq<char>, rep: Seq<char>) -> Seq<char>
    decreases s.len(),
{
    if s.len() == 0 {
        seq![]
    } else if pat.len() > 0 && starts_with(s, pat) {
        rep + replace_all(s.skip(pat.len() as int), pat, rep)
    } else {
        seq![s[0]] + replace_all(s.skip(1), pat, rep)
    }
}

/// `s` with leading and trailing whitespace removed (`str::trim`).
pub open spec fn trim_start(s: Seq<char>) -> Seq<char>
    decreases s.len(),
{
    if s.len() > 0 && is_whitespace(s[0]) {
        trim_start(s.skip(1))
    } else {
        s
    }
}

pub open spec fn trim_end(s: Seq<char>) -> Seq<char>
    decreases s.len(),
{
    if s.len() > 0 && is_whitespace(s.last()) {
        trim_end(s.drop_last())
    } else {
        s
    }
}

pub open spec fn trim(s: Seq<char>) -> Seq<char> {
    trim_end(trim_start(s))
}

/// `str::trim_end_matches(c)` for a single character.
pub open spec fn trim_end_char(s: Seq<char>, c: char) -> Seq<char>
    decreases s.len(),
{
    if s.len() > 0 && s.last() == c {
        trim_end_char(s.drop_last(), c)
    } else {
        s
    }
}

/// Pieces of `s` separated by `sep` (`str::split(sep)`): always at least one.
pub open spec fn split_on(s: Seq<char>, sep: char) -> Seq<Seq<char>>
    decreases s.len(),
{
    if s.len() == 0 {
        seq![seq![]]
    } else {
        let rest = split_on(s.drop_last(), sep);
        if s.last() == sep {
            rest.push(seq![])
        } else {
            rest.update(rest.len() - 1, rest.last().push(s.last()))
        }
    }
}

/// Pieces of `parts` joined with `sep` between them.
pub open spec fn join(parts: Seq<Seq<char>>, sep: Seq<char>) -> Seq<char>
    decreases parts.len(),
{
    if parts.len() == 0 {
        seq![]
    } else if parts.len() == 1 {
        parts[0]
    } else {
        join(parts.drop_last(), sep) + sep + parts.last()
    }
}

/// A string in double quotes with its characters escaped by
/// `escape_char`: as `{:?}` shows a string whose non-ASCII characters are
/// all printable.
pub open spec fn quoted(s: Seq<char>) -> Seq<char> {
    seq!['"'] + escape(s) + seq!['"']
}

/// A lowercase hexadecimal digit, for `d < 16`.
pub open spec fn hex_digit_char(d: nat) -> char {
    if d < 10 {
        ((d + 48) as u8) as char
    } else {
        ((d + 87) as u8) as char
    }
}

/// `n < 256` in lowercase hexadecimal, without leading zeros.
pub open spec fn small_hex(n: nat) -> Seq<char> {
    if n < 16 {
        seq![hex_digit_char(n)]
    } else {
        seq![hex_digit_char(n / 16), hex_digit_char(n % 16)]
    }
}

/// One character as `{:?}` writes it inside a string, for every ASCII
/// character: `\0`, `\t`, `\r`, `\n`, `\"` and `\\` by name, the other
/// control characters as `\u{..}` in hexadecimal, the rest as they are.
/// Other characters are written as they are (`{:?}` would also escape a
/// non-printable one).
pub open spec fn escape_char(c: char) -> Seq<char> {
    if c == '\0' {
        seq!['\\', '0']
    } else if c == '\t' {
        seq!['\\', 't']
    } else if c == '\r' {
        seq!['\\', 'r']
    } else if c == '\n' {
        seq!['\\', 'n']
    } else if c == '"' || c == '\\' {
        seq!['\\', c]
    } else if (c as u32) < 32 || (c as u32) == 127 {
        seq!['\\', 'u', '{'] + small_hex((c as u32) as nat) + seq!['}']
    } else {
        seq![c]
    }
}

pub open spec fn escape(s: Seq<char>) -> Seq<char>
    decreases s.len(),
{
    if s.len() == 0 {
        seq![]
    } else {
        escape(s.drop_last()) + escape_char(s.last())
    }
}

fn hex_digit(d: u8) -> (c: char)
    requires
        d < 16,
    ensures
        c == hex_digit_char(d as nat),
{
    if d < 10 {
        (d + 48) as char
    } else {
        (d + 87) as char
    }
}

fn push_escaped(out: &mut String, c: char)
    ensures
        final(out)@ == old(out)@ + escape_char(c),
{
    let ghost before = out@;
    if c == '\0' {
        out.push('\\');
        out.push('0');
    } else if c == '\t' {
        out.push('\\');
        out.push('t');
    } else if c == '\r' {
        out.push('\\');
        out.push('r');
    } else if c == '\n' {
        out.push('\\');
        out.push('n');
    } else if c == '"' || c == '\\' {
        out.push('\\');
        out.push(c);
    } else if (c as u32) < 32 || (c as u32) == 127 {
        let n = (c as u32) as u8;
        out.push('\\');
        out.push('u');
        out.push('{');
        if n >= 16 {
            out.push(hex_digit(n / 16));
        }
        out.push(hex_digit(n % 16));
        out.push('}');
    } else {
        out.push(c);
    }
    assert(out@ =~= before + escape_char(c));
}

// ---------------------------------------------------------------------------
// Lemmas
// ---------------------------------------------------------------------------

pub proof fn lemma_decimal_digits(n: nat)
    ensures
        decimal(n).len() >= 1,
        forall|i: int| 0 <= i < decimal(n).len() ==> is_ascii_digit(#[trigger] decimal(n)[i]),
    decreases n,
{
    if n >= 10 {
        lemma_decimal_digits(n / 10);
    }
}

// ---------------------------------------------------------------------------
// Executable forms
// ---------------------------------------------------------------------------

/// The characters of a string slice, in order.
pub fn chars_of(s: &str) -> (v: Vec<char>)
    ensures
        v@ == s@,
{
    let mut v: Vec<char> = Vec::new();
    let n = s.unicode_len();
    let mut i: usize = 0;
    while i < n
        invariant
            n == s@.len(),
            i <= n,
            v@ == s@.take(i as int),
        decreases n - i,
    {
        v.push(s.get_char(i));
        i = i + 1;
        assert(v@ =~= s@.take(i as int));
    }
    assert(s@.take(n as int) =~= s@);
    v
}

/// A string made of the given characters.
pub fn string_of(v: &[char]) -> (s: String)
    ensures
        s@ == v@,
{
    let mut s = String::new();
    let mut i: usize = 0;
    while i < v.len()
        invariant
            i <= v@.len(),
            s@ == v@.take(i as int),
        decreases v@.len() - i,
    {
        s.push(v[i]);
        i = i + 1;
        assert(s@ =~= v@.take(i as int));
    }
    assert(v@.take(v@.len() as int) =~= v@);
    s
}

/// An owned copy of a string slice.
pub fn owned(s: &str) -> (r: String)
    ensures
        r@ == s@,
{
    s.to_string()
}

/// `a + b`.
pub fn concat2(a: &str, b: &str) -> (r: String)
    ensures
        r@ == a@ + b@,
{
    let mut r = a.to_string();
    r.push_str(b);
    r
}

/// `a + b + c`.
pub fn concat3(a: &str, b: &str, c: &str) -> (r: String)
    ensures
        r@ == a@ + b@ + c@,
{
    let mut r = a.to_string();
    r.push_str(b);
    r.push_str(c);
    r
}

pub fn char_lower(c: char) -> (r: char)
    ensures
        r == lower_char(c),
{
    if 'A' <= c && c <= 'Z' {
        let u: u32 = c as u32;
        assert(65 <= u <= 90);
        let l: u8 = (u + 32) as u8;
        l as char
    } else {
        c
    }
}

pub fn char_upper(c: char) -> (r: char)
    ensures
        r == upper_char(c),
{
    if 'a' <= c && c <= 'z' {
        let u: u32 = c as u32;
        let l: u8 = (u - 32) as u8;
        l as char
    } else {
        c
    }
}

/// `str::to_ascii_lowercase`.
pub fn ascii_lowercase(s: &str) -> (r: String)
    ensures
        r@ == lower(s@),
{
    let v = chars_of(s);
    let mut r = String::new();
    let mut i: usize = 0;
    while i < v.len()
        invariant
            v@ == s@,
            i <= v@.len(),
            r@ == lower(s@).take(i as int),
        decreases v@.len() - i,
    {
        r.push(char_lower(v[i]));
        i = i + 1;
        assert(r@ =~= lower(s@).take(i as int));
    }
    assert(lower(s@).take(v@.len() as int) =~= lower(s@));
    r
}

/// `str::to_ascii_uppercase`.
pub fn ascii_uppercase(s: &str) -> (r: String)
    ensures
        r@ == upper(s@),
{
    let v = chars_of(s);
    let mut r = String::new();
    let mut i: usize = 0;
    while i < v.len()
        invariant
            v@ == s@,
            i <= v@.len(),
            r@ == upper(s@).take(i as int),
        decreases v@.len() - i,
    {
        r.push(char_upper(v[i]));
        i = i + 1;
        assert(r@ =~= upper(s@).take(i as int));
    }
    assert(upper(s@).take(v@.len() as int) =~= upper(s@));
    r
}

/// Exact equality of two string slices.
pub fn str_eq(a: &str, b: &str) -> (r: bool)
    ensures
        r == (a@ == b@),
{
    let x = chars_of(a);
    let y = chars_of(b);
    if x.len() != y.len() {
        return false;
    }
    let mut i: usize = 0;
    while i < x.len()
        invariant
            x@ == a@,
            y@ == b@,
            x@.len() == y@.len(),
            i <= x@.len(),
            forall|j: int| 0 <= j < i ==> x@[j] == y@[j],
        decreases x@.len() - i,
    {
        if x[i] != y[i] {
            return false;
        }
        i = i + 1;
    }
    assert(x@ =~= y@);
    true
}

/// `str::eq_ignore_ascii_case`.
pub fn eq_ignore_ascii_case(a: &str, b: &str) -> (r: bool)
    ensures
        r == eq_ignore_case(a@, b@),
{
    let x = chars_of(a);
    let y = chars_of(b);
    if x.len() != y.len() {
        assert(lower(a@).len() != lower(b@).len());
        return false;
    }
    let mut i: usize = 0;
    while i < x.len()
        invariant
            x@ == a@,
            y@ == b@,
            x@.len() == y@.len(),
            i <= x@.len(),
            forall|j: int| 0 <= j < i ==> lower_char(x@[j]) == lower_char(y@[j]),
        decreases x@.len() - i,
    {
        if char_lower(x[i]) != char_lower(y[i]) {
            assert(lower(a@)[i as int] != lower(b@)[i as int]);
            return false;
        }
        i = i + 1;
    }
    assert(lower(a@) =~= lower(b@));
    true
}

/// Whether `s` begins with `p`.
pub fn has_prefix(s: &str, p: &str) -> (r: bool)
    ensures
        r == starts_with(s@, p@),
{
    let x = chars_of(s);
    let y = chars_of(p);
    if y.len() > x.len() {
        return false;
    }
    let mut i: usize = 0;
    while i < y.len()
        invariant
            x@ == s@,
            y@ == p@,
            y@.len() <= x@.len(),
            i <= y@.len(),
            forall|j: int| 0 <= j < i ==> x@[j] == y@[j],
        decreases y@.len() - i,
    {
        if x[i] != y[i] {
            assert(s@.take(p@.len() as int)[i as int] != p@[i as int]);
            return false;
        }
        i = i + 1;
    }
    assert(s@.take(p@.len() as int) =~= p@);
    true
}

/// `char::is_whitespace`.
pub fn char_is_whitespace(c: char) -> (r: bool)
    ensures
        r == is_whitespace(c),
{
    ('\t' <= c && c <= '\r') || c == ' ' || c == '\u{85}' || c == '\u{a0}' || c == '\u{1680}'
        || ('\u{2000}' <= c && c <= '\u{200a}') || c == '\u{2028}' || c == '\u{2029}' || c
        == '\u{202f}' || c == '\u{205f}' || c == '\u{3000}'
}

/// A decimal digit as a character.
pub fn digit(d: u128) -> (c: char)
    requires
        d < 10,
    ensures
        c == digit_char(d as nat),
{
    let b: u8 = (d + 48) as u8;
    b as char
}

/// `n.to_string()` for an unsigned integer.
pub fn decimal_string(n: u128) -> (s: String)
    ensures
        s@ == decimal(n as nat),
    decreases n,
{
    if n < 10 {
        let mut s = String::new();
        s.push(digit(n));
        assert(s@ =~= decimal(n as nat));
        s
    } else {
        let mut s = decimal_string(n / 10);
        s.push(digit(n % 10));
        s
    }
}

/// `format!("{n:0width$}")` for an unsigned integer.
pub fn zero_padded_string(n: u64, width: usize) -> (s: String)
    ensures
        s@ == zero_padded(n as nat, width as nat),
{
    let d = decimal_string(n as u128);
    let dv = chars_of(d.as_str());
    if dv.len() < width {
        let mut s = String::new();
        let pad = width - dv.len();
        let mut i: usize = 0;
        while i < pad
            invariant
                i <= pad,
                s@ == Seq::new(i as nat, |k: int| '0'),
            decreases pad - i,
        {
            s.push('0');
            i = i + 1;
            assert(s@ =~= Seq::new(i as nat, |k: int| '0'));
        }
        s.push_str(d.as_str());
        s
    } else {
        d
    }
}

/// `u32::from_str` on a string given by its characters.
pub fn parse_u32_chars(v: &Vec<char>) -> (r: Option<u32>)
    ensures
        r == parse_u32(v@),
{
    let ghost s = v@;
    let start: usize = if v.len() > 0 && v[0] == '+' { 1 } else { 0 };
    let ghost body = if s.len() > 0 && s[0] == '+' { s.skip(1) } else { s };
    assert(body =~= s.skip(start as int));
    if start >= v.len() {
        return None;
    }
    let mut value: u64 = 0;
    let mut i: usize = start;
    while i < v.len()
        invariant
            v@ == s,
                        start <= i <= v@.len(),
            start < v@.len(),
            body == s.skip(start as int),
            body == (if s.len() > 0 && s[0] == '+' { s.skip(1) } else { s }),
            all_digits(s.subrange(start as int, i as int)),
            value as nat == digits_value(s.subrange(start as int, i as int)),
            value <= u32::MAX,
        decreases v@.len() - i,
    {
        let c = v[i];
        if !('0' <= c && c <= '9') {
            assert(!all_digits(body)) by {
                assert(body[i - start] == c);
                assert(!is_ascii_digit(body[i - start]));
            }

            return None;
        }
        let ghost prev = s.subrange(start as int, i as int);
        let ghost next = s.subrange(start as int, i + 1);
        assert(next.drop_last() =~= prev);
        assert(next.last() == c);
        let d: u64 = ((c as u32) - 48) as u64;
        value = value * 10 + d;
        i = i + 1;
        assert(all_digits(next)) by {
            assert forall|j: int| 0 <= j < next.len() implies is_ascii_digit(#[trigger] next[j]) by {
                if j < prev.len() {
                    assert(next[j] == prev[j]);
                }
            }
        }
        if value > 4294967295 {
            proof {
                if all_digits(body) {
                    lemma_digits_value_prefix_le(body, (i - start) as nat);
                    assert(body.take((i - start) as int) =~= next);
                }
            }

            return None;
        }
    }
    assert(s.subrange(start as int, v@.len() as int) =~= body);
    Some(value as u32)
}

/// A longer run of digits has at least the value of its prefix.
pub proof fn lemma_digits_value_prefix_le(s: Seq<char>, k: nat)
    requires
        k <= s.len(),
        all_digits(s),
    ensures
        digits_value(s) >= digits_value(s.take(k as int)),
    decreases s.len(),
{
    if k < s.len() {
        assert(s.drop_last().take(k as int) =~= s.take(k as int));
        assert(all_digits(s.drop_last())) by {
            assert forall|j: int| 0 <= j < s.drop_last().len() implies is_ascii_digit(
                #[trigger] s.drop_last()[j],
            ) by {
                assert(s.drop_last()[j] == s[j]);
            }
        }
        lemma_digits_value_prefix_le(s.drop_last(), k);
    } else {
        assert(s.take(k as int) =~= s);
    }
}

/// The characters of `s` from index `k` on.
pub fn suffix_from(s: &str, k: usize) -> (r: String)
    requires
        k <= s@.len(),
    ensures
        r@ == s@.skip(k as int),
{
    let v = chars_of(s);
    let mut r = String::new();
    let mut i: usize = k;
    while i < v.len()
        invariant
            v@ == s@,
            k <= i <= v@.len(),
            r@ == s@.subrange(k as int, i as int),
        decreases v@.len() - i,
    {
        r.push(v[i]);
        i = i + 1;
        assert(r@ =~= s@.subrange(k as int, i as int));
    }
    assert(s@.subrange(k as int, v@.len() as int) =~= s@.skip(k as int));
    r
}

/// The string in double quotes, escaped as `quoted` says: what
/// `format!("{s:?}")` gives when every non-ASCII character is printable.
pub fn debug_quoted(s: &str) -> (r: String)
    ensures
        r@ == quoted(s@),
{
    let v = chars_of(s);
    let mut body = String::new();
    let mut i: usize = 0;
    while i < v.len()
        invariant
            v@ == s@,
            i <= v@.len(),
            body@ == escape(s@.take(i as int)),
        decreases v@.len() - i,
    {
        let c = v[i];
        push_escaped(&mut body, c);
        proof {
            let t = s@.take(i + 1);
            assert(t.drop_last() =~= s@.take(i as int));
        }
        i = i + 1;
    }
    assert(s@.take(v@.len() as int) =~= s@);
    let mut r = String::new();
    r.push('"');
    r.push_str(body.as_str());
    r.push('"');
    assert(r@ =~= quoted(s@));
    r
}

/// Whether `p` occurs in `v` at index `i`.
fn matches_at(v: &Vec<char>, p: &Vec<char>, i: usize) -> (r: bool)
    requires
        i <= v@.len(),
    ensures
        r == starts_with(v@.skip(i as int), p@),
{
    if p.len() > v.len() - i {
        return false;
    }
    let mut j: usize = 0;
    while j < p.len()
        invariant
            i + p@.len() <= v@.len(),
            v@.len() == v.len(),
            j <= p@.len(),
            forall|k: int| 0 <= k < j ==> v@[i + k] == p@[k],
        decreases p@.len() - j,
    {
        if v[i + j] != p[j] {
            assert(v@.skip(i as int).take(p@.len() as int)[j as int] != p@[j as int]);
            return false;
        }
        j = j + 1;
    }
    assert(v@.skip(i as int).take(p@.len() as int) =~= p@);
    true
}

/// `s.replace(pat, rep)` for a non-empty pattern.
pub fn replace_str(s: &str, pat: &str, rep: &str) -> (r: String)
    requires
        pat@.len() > 0,
    ensures
        r@ == replace_all(s@, pat@, rep@),
{
    let v = chars_of(s);
    let p = chars_of(pat);
    let mut r = String::new();
    let mut i: usize = 0;
    assert(s@.skip(0) =~= s@);
    while i < v.len()
        invariant
            v@ == s@,
            p@ == pat@,
            p@.len() > 0,
            i <= v@.len(),
            r@ + replace_all(s@.skip(i as int), pat@, rep@) == replace_all(s@, pat@, rep@),
        decreases v@.len() - i,
    {
        let ghost rest = s@.skip(i as int);
        if matches_at(&v, &p, i) {
            r.push_str(rep);
            assert(rest.skip(p@.len() as int) =~= s@.skip(i + p@.len()));
            i = i + p.len();
        } else {
            r.push(v[i]);
            assert(rest.skip(1) =~= s@.skip(i + 1));
            assert(rest[0] == v@[i as int]);
            i = i + 1;
        }
    }
    assert(s@.skip(v@.len() as int) =~= Seq::<char>::empty());
    r
}

// ---------------------------------------------------------------------------
// Replacement removes the pattern
// ---------------------------------------------------------------------------

/// A prefix of a replacement result that holds no first character of the
/// replacement was copied verbatim from the input.
pub proof fn lemma_replace_prefix_copied(t: Seq<char>, q: Seq<char>, rep: Seq<char>, k: int)
    requires
        rep.len() > 0,
        0 <= k <= replace_all(t, q, rep).len(),
        forall|j: int| 0 <= j < k ==> replace_all(t, q, rep)[j] != rep[0],
    ensures
        k <= t.len(),
        t.take(k) == replace_all(t, q, rep).take(k),
    decreases t.len(),
{
    let r = replace_all(t, q, rep);
    if t.len() == 0 {
        assert(t.take(k) =~= r.take(k));
    } else if q.len() > 0 && starts_with(t, q) {
        if k > 0 {
            assert(r[0] == rep[0]);
        }
        assert(t.take(k) =~= r.take(k));
    } else {
        let t1 = t.skip(1);
        let r1 = replace_all(t1, q, rep);
        assert(r == seq![t[0]] + r1);
        if k > 0 {
            assert forall|j: int| 0 <= j < k - 1 implies r1[j] != rep[0] by {
                assert(r1[j] == r[j + 1]);
            }
            lemma_replace_prefix_copied(t1, q, rep, k - 1);
            assert(t.take(k) =~= seq![t[0]] + t1.take(k - 1));
            assert(r.take(k) =~= seq![t[0]] + r1.take(k - 1));
        } else {
            assert(t.take(k) =~= r.take(k));
        }
    }
}

/// After replacing `q` by `rep`, the pattern `pat` does not occur, provided
/// it did not occur before (or is `q` itself) and cannot be formed from the
/// replacement's first or last character or lie inside the replacement.
pub proof fn lemma_replace_leaves_no_pattern(s: Seq<char>, q: Seq<char>, rep: Seq<char>, pat: Seq<char>)
    requires
        q.len() > 0,
        pat.len() > 0,
        rep.len() > 0,
        q == pat || !contains_seq(s, pat),
        !pat.contains(rep[0]),
        !pat.contains(rep.last()),
        !contains_seq(rep, pat),
    ensures
        !contains_seq(replace_all(s, q, rep), pat),
    decreases s.len(),
{
    let r = replace_all(s, q, rep);
    if s.len() == 0 {
        assert forall|i: int| !occurs_at(r, pat, i) by {}
        return;
    }
    let replaced = starts_with(s, q);
    let n: int = if replaced { q.len() as int } else { 1 };
    let s1 = s.skip(n);
    let head: Seq<char> = if replaced { rep } else { seq![s[0]] };
    let r1 = replace_all(s1, q, rep);
    assert(r == head + r1);
    if q != pat {
        assert forall|i: int| !occurs_at(s1, pat, i) by {
            if occurs_at(s1, pat, i) {
                assert(s.subrange(i + n, i + n + pat.len()) =~= s1.subrange(i, i + pat.len()));
                assert(occurs_at(s, pat, i + n));
            }
        }
    }
    lemma_replace_leaves_no_pattern(s1, q, rep, pat);
    assert forall|i: int| !occurs_at(r, pat, i) by {
        if occurs_at(r, pat, i) {
            let w = r.subrange(i, i + pat.len());
            if i >= head.len() {
                assert(r1.subrange(i - head.len(), i - head.len() + pat.len()) =~= w);
                assert(occurs_at(r1, pat, i - head.len()));
            } else if replaced {
                if i + pat.len() <= rep.len() {
                    assert(rep.subrange(i, i + pat.len()) =~= w);
                    assert(occurs_at(rep, pat, i));
                } else {
                    let j = rep.len() - 1 - i;
                    assert(w[j] == r[rep.len() - 1]);
                    assert(pat[j] == rep.last());
                    assert(pat.contains(rep.last()));
                }
            } else {
                // i == 0: the occurrence starts at the copied character.
                assert(i == 0);
                assert forall|j: int| 0 <= j < pat.len() implies r[j] != rep[0] by {
                    assert(r[j] == pat[j]);
                }
                lemma_replace_prefix_copied(s, q, rep, pat.len() as int);
                assert(s.take(pat.len() as int) =~= pat) by {
                    assert(r.take(pat.len() as int) =~= w);
                }
                if q == pat {
                    assert(starts_with(s, q));
                } else {
                    assert(s.subrange(0, pat.len() as int) =~= s.take(pat.len() as int));
                    assert(occurs_at(s, pat, 0));
                }
            }
        }
    }
}

/// `str::trim`.
pub fn trim_str(s: &str) -> (r: String)
    ensures
        r@ == trim(s@),
{
    let v = chars_of(s);
    let mut i: usize = 0;
    assert(s@.skip(0) =~= s@);
    while i < v.len() && char_is_whitespace(v[i])
        invariant
            v@ == s@,
            i <= v@.len(),
            trim_start(s@) == trim_start(s@.skip(i as int)),
        decreases v@.len() - i,
    {
        assert(s@.skip(i as int).skip(1) =~= s@.skip(i + 1));
        i = i + 1;
    }
    let ghost front = s@.skip(i as int);
    assert(trim_start(s@) == front);
    let mut j: usize = v.len();
    assert(front.take((j - i) as int) =~= front);
    while j > i && char_is_whitespace(v[j - 1])
        invariant
            v@ == s@,
            i <= j <= v@.len(),
            front == s@.skip(i as int),
            trim_end(front) == trim_end(front.take((j - i) as int)),
        decreases j,
    {
        let ghost t = front.take((j - i) as int);
        assert(t.drop_last() =~= front.take((j - 1 - i) as int));
        assert(t.last() == v@[j - 1]);
        j = j - 1;
    }
    let ghost kept = front.take((j - i) as int);
    assert(trim_end(kept) == kept);
    let mut r = String::new();
    let mut k: usize = i;
    while k < j
        invariant
            v@ == s@,
            i <= k <= j <= v@.len(),
            r@ == s@.subrange(i as int, k as int),
        decreases j - k,
    {
        r.push(v[k]);
        k = k + 1;
        assert(r@ =~= s@.subrange(i as int, k as int));
    }
    assert(kept =~= s@.subrange(i as int, j as int));
    r
}

/// The first `k` characters of `s`.
pub fn prefix_to(s: &str, k: usize) -> (r: String)
    requires
        k <= s@.len(),
    ensures
        r@ == s@.take(k as int),
{
    let v = chars_of(s);
    let mut r = String::new();
    let mut i: usize = 0;
    while i < k
        invariant
            v@ == s@,
            i <= k <= v@.len(),
            r@ == s@.take(i as int),
        decreases k - i,
    {
        r.push(v[i]);
        i = i + 1;
        assert(r@ =~= s@.take(i as int));
    }
    r
}

/// `s.trim_end_matches(c)`.
pub fn trim_end_matches_char(s: &str, c: char) -> (r: String)
    ensures
        r@ == trim_end_char(s@, c),
{
    let v = chars_of(s);
    let mut j: usize = v.len();
    assert(s@.take(j as int) =~= s@);
    while j > 0 && v[j - 1] == c
        invariant
            v@ == s@,
            j <= v@.len(),
            trim_end_char(s@, c) == trim_end_char(s@.take(j as int), c),
        decreases j,
    {
        assert(s@.take(j as int).drop_last() =~= s@.take(j - 1));
        j = j - 1;
    }
    prefix_to(s, j)
}

/// `n` written in decimal with a leading `-` when negative.
pub open spec fn signed_decimal(n: int) -> Seq<char> {
    if n < 0 {
        seq!['-'] + decimal((-n) as nat)
    } else {
        decimal(n as nat)
    }
}

/// `n.to_string()` for a signed integer.
pub fn signed_decimal_string(n: i128) -> (s: String)
    requires
        n > i128::MIN,
    ensures
        s@ == signed_decimal(n as int),
{
    if n < 0 {
        let mut s = String::new();
        s.push('-');
        s.push_str(decimal_string((-n) as u128).as_str());
        s
    } else {
        decimal_string(n as u128)
    }
}

/// An unsigned decimal of at most `max`: an optional `+`, then at least
/// one digit (the `FromStr` grammar of Rust's integers, signs aside).
pub open spec fn parse_bounded(s: Seq<char>, max: nat) -> Option<nat> {
    let body = if s.len() > 0 && s[0] == '+' { s.skip(1) } else { s };
    if body.len() > 0 && all_digits(body) && digits_value(body) <= max {
        Some(digits_value(body))
    } else {
        None
    }
}

/// `parse_bounded` on a string given by its characters.
pub fn parse_bounded_chars(v: &Vec<char>, max: u64) -> (r: Option<u64>)
    ensures
        match parse_bounded(v@, max as nat) {
            Some(n) => r == Some(n as u64),
            None => r is None,
        },
{
    let ghost s = v@;
    let start: usize = if v.len() > 0 && v[0] == '+' { 1 } else { 0 };
    let ghost body = if s.len() > 0 && s[0] == '+' { s.skip(1) } else { s };
    assert(body =~= s.skip(start as int));
    if start >= v.len() {
        return None;
    }
    let mut value: u128 = 0;
    let mut i: usize = start;
    while i < v.len()
        invariant
            v@ == s,
            start <= i <= v@.len(),
            start < v@.len(),
            body == s.skip(start as int),
            body == (if s.len() > 0 && s[0] == '+' { s.skip(1) } else { s }),
            all_digits(s.subrange(start as int, i as int)),
            value as nat == digits_value(s.subrange(start as int, i as int)),
            value <= max,
        decreases v@.len() - i,
    {
        let c = v[i];
        if !('0' <= c && c <= '9') {
            assert(!all_digits(body)) by {
                assert(body[i - start] == c);
                assert(!is_ascii_digit(body[i - start]));
            }
            return None;
        }
        let ghost prev = s.subrange(start as int, i as int);
        let ghost next = s.subrange(start as int, i + 1);
        assert(next.drop_last() =~= prev);
        assert(next.last() == c);
        let d: u128 = ((c as u32) - 48) as u128;
        value = value * 10 + d;
        i = i + 1;
        assert(all_digits(next)) by {
            assert forall|j: int| 0 <= j < next.len() implies is_ascii_digit(#[trigger] next[j]) by {
                if j < prev.len() {
                    assert(next[j] == prev[j]);
                }
            }
        }
        if value > max as u128 {
            proof {
                if all_digits(body) {
                    lemma_digits_value_prefix_le(body, (i - start) as nat);
                    assert(body.take((i - start) as int) =~= next);
                }
            }
            return None;
        }
    }
    assert(s.subrange(start as int, v@.len() as int) =~= body);
    Some(value as u64)
}

/// Strict lexicographic order on characters (by code point).
pub open spec fn lex_gt(a: Seq<char>, b: Seq<char>) -> bool
    decreases a.len(),
{
    if a.len() == 0 {
        false
    } else if b.len() == 0 {
        true
    } else if a[0] != b[0] {
        a[0] > b[0]
    } else {
        lex_gt(a.skip(1), b.skip(1))
    }
}

/// `a > b` for strings.
pub fn str_gt(a: &str, b: &str) -> (r: bool)
    ensures
        r == lex_gt(a@, b@),
{
    let x = chars_of(a);
    let y = chars_of(b);
    let mut i: usize = 0;
    assert(a@.skip(0) =~= a@);
    assert(b@.skip(0) =~= b@);
    while i < x.len() && i < y.len() && x[i] == y[i]
        invariant
            x@ == a@,
            y@ == b@,
            i <= x@.len(),
            i <= y@.len(),
            lex_gt(a@, b@) == lex_gt(a@.skip(i as int), b@.skip(i as int)),
        decreases x@.len() - i,
    {
        assert(a@.skip(i as int).skip(1) =~= a@.skip(i + 1));
        assert(b@.skip(i as int).skip(1) =~= b@.skip(i + 1));
        i = i + 1;
    }
    if i == x.len() {
        false
    } else if i == y.len() {
        true
    } else {
        x[i] > y[i]
    }
}

// ---------------------------------------------------------------------------
// Human-readable lines
// ---------------------------------------------------------------------------

/// `char::is_control`: the C0 controls, DEL and the C1 controls.
pub open spec fn is_control(c: char) -> bool {
    (c as u32) < 0x20 || (0x7f <= (c as u32) && (c as u32) <= 0x9f)
}

/// `s` without its control characters.
pub open spec fn strip_controls(s: Seq<char>) -> Seq<char> {
    s.filter(|c: char| !is_control(c))
}

/// Lines as printed for a person: control characters stripped from each
/// (server-controlled text must not drive the terminal), each line ended
/// by a newline.
pub open spec fn safe_lines(lines: Seq<Seq<char>>) -> Seq<char>
    decreases lines.len(),
{
    if lines.len() == 0 {
        seq![]
    } else {
        safe_lines(lines.drop_last()) + strip_controls(lines.last()) + seq!['\n']
    }
}

/// One more line at the end of printed lines.
pub proof fn lemma_safe_lines_push(lines: Seq<Seq<char>>, line: Seq<char>)
    ensures
        safe_lines(lines.push(line)) == safe_lines(lines) + strip_controls(line) + seq!['\n'],
{
    assert(lines.push(line).drop_last() =~= lines);
}

/// `format!("{:<w$}", s)`: `s` padded with spaces to `w` characters.
pub open spec fn pad_right(s: Seq<char>, w: nat) -> Seq<char> {
    if s.len() >= w {
        s
    } else {
        s + Seq::new((w - s.len()) as nat, |i: int| ' ')
    }
}

/// Append one line, control characters stripped, and a newline.
pub fn push_safe_line(out: &mut String, line: &str)
    ensures
        final(out)@ == old(out)@ + strip_controls(line@) + seq!['\n'],
{
    let v = chars_of(line);
    let ghost start = out@;
    let mut i: usize = 0;
    while i < v.len()
        invariant
            i <= v@.len(),
            v@ == line@,
            out@ == start + strip_controls(line@.take(i as int)),
        decreases v@.len() - i,
    {
        let c = v[i];
        let ctl = (c as u32) < 0x20 || (0x7f <= (c as u32) && (c as u32) <= 0x9f);
        proof {
            let t = line@.take(i + 1);
            assert(t.drop_last() =~= line@.take(i as int));
            assert(t.last() == c);
            reveal(Seq::filter);
        }
        if !ctl {
            out.push(c);
        }
        i = i + 1;
    }
    assert(line@.take(v@.len() as int) =~= line@);
    out.push('\n');
}

/// `s` padded with spaces to `w` characters.
pub fn pad_right_string(s: &str, w: usize) -> (r: String)
    ensures
        r@ == pad_right(s@, w as nat),
{
    let mut r = owned(s);
    let n = s.unicode_len();
    if n < w {
        let mut k: usize = n;
        while k < w
            invariant
                n <= k <= w,
                n == s@.len(),
                r@ == s@ + Seq::new((k - n) as nat, |i: int| ' '),
            decreases w - k,
        {
            r.push(' ');
            k = k + 1;
            assert(r@ =~= s@ + Seq::new((k - n) as nat, |i: int| ' '));
        }
    }
    r
}

/// The views of owned strings.
pub open spec fn views(parts: Seq<String>) -> Seq<Seq<char>> {
    parts.map_values(|s: String| s@)
}

/// `parts.join(sep)`.
pub fn join_strings(parts: &Vec<String>, sep: &str) -> (r: String)
    ensures
        r@ == join(views(parts@), sep@),
{
    let ghost vs = views(parts@);
    let mut r = String::new();
    let mut i: usize = 0;
    while i < parts.len()
        invariant
            i <= parts@.len(),
            vs == views(parts@),
            r@ == join(vs.take(i as int), sep@),
        decreases parts@.len() - i,
    {
        if i > 0 {
            r.push_str(sep);
        }
        r.push_str(parts[i].as_str());
        proof {
            let t = vs.take(i + 1);
            assert(t.drop_last() =~= vs.take(i as int));
            assert(t.last() == parts@[i as int]@);
            if i == 0 {
                assert(t =~= seq![parts@[0]@]);
            }
        }
        i = i + 1;
    }
    assert(vs.take(parts@.len() as int) =~= vs);
    r
}

/// Lines as printed verbatim, each ended by a newline.
pub open spec fn plain_lines(lines: Seq<Seq<char>>) -> Seq<char>
    decreases lines.len(),
{
    if lines.len() == 0 {
        seq![]
    } else {
        plain_lines(lines.drop_last()) + lines.last() + seq!['\n']
    }
}

/// One more line at the end of verbatim lines.
pub proof fn lemma_plain_lines_push(lines: Seq<Seq<char>>, line: Seq<char>)
    ensures
        plain_lines(lines.push(line)) == plain_lines(lines) + line + seq!['\n'],
{
    assert(lines.push(line).drop_last() =~= lines);
}

/// Append one line verbatim, and a newline.
pub fn push_line(out: &mut String, line: &str)
    ensures
        final(out)@ == old(out)@ + line@ + seq!['\n'],
{
    out.push_str(line);
    out.push('\n');
}

/// `bool`'s `Display`.
pub open spec fn shown_bool(b: bool) -> Seq<char> {
    if b {
        "true"@
    } else {
        "false"@
    }
}

/// `bool`'s `Display`.
pub fn bool_str(b: bool) -> (r: &'static str)
    ensures
        r@ == shown_bool(b),
{
    if b {
        "true"
    } else {
        "false"
    }
}

/// Append a line to a list of lines.
pub fn add_line(lines: &mut Vec<String>, line: String)
    ensures
        views(final(lines)@) == views(old(lines)@).push(line@),
{
    let ghost before = lines@;
    let ghost l = line@;
    lines.push(line);
    assert(views(lines@) =~= views(before).push(l));
}

/// Lines printed verbatim, each ended by a newline.
pub fn lines_text(lines: &Vec<String>) -> (r: String)
    ensures
        r@ == plain_lines(views(lines@)),
{
    let ghost vs = views(lines@);
    let mut text = String::new();
    let mut i: usize = 0;
    while i < lines.len()
        invariant
            i <= lines@.len(),
            vs == views(lines@),
            text@ == plain_lines(vs.take(i as int)),
        decreases lines@.len() - i,
    {
        push_line(&mut text, lines[i].as_str());
        proof {
            lemma_plain_lines_push(vs.take(i as int), vs[i as int]);
            assert(vs.take(i + 1) =~= vs.take(i as int).push(vs[i as int]));
        }
        i = i + 1;
    }
    assert(vs.take(lines@.len() as int) =~= vs);
    text
}

} // verus!
