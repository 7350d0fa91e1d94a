//! Text primitives the overlay relies on: decimal rendering and parsing of
//! integers, whitespace trimming, lexicographic order of strings and joining.
use vstd::prelude::*;

verus! {

// ---------------------------------------------------------------------------
// Decimal digits
// ---------------------------------------------------------------------------

/// The character of a decimal digit `d < 10`.
pub open spec fn digit_char(d: nat) -> char {
    if d == 0 {
        '0'
    } else if d == 1 {
        '1'
    } else if d == 2 {
        '2'
    } else if d == 3 {
        '3'
    } else if d == 4 {
        '4'
    } else if d == 5 {
        '5'
    } else if d == 6 {
        '6'
    } else if d == 7 {
        '7'
    } else if d == 8 {
        '8'
    } else {
        '9'
    }
}

pub open spec fn is_digit(c: char) -> bool {
    '0' <= c && c <= '9'
}

/// The value of a digit character.
pub open spec fn digit_value(c: char) -> nat {
    ((c as u32) - ('0' as u32)) as nat
}

/// The shortest decimal rendering of `n`, as `u64::to_string` writes it.
pub open spec fn decimal(n: nat) -> Seq<char>
    decreases n,
{
    if n < 10 {
        seq![digit_char(n)]
    } else {
        decimal(n / 10).push(digit_char(n % 10))
    }
}

/// Decimal rendering of a signed integer, with a leading `-` for negatives.
pub open spec fn signed_decimal(n: int) -> Seq<char> {
    if n < 0 {
        seq!['-'] + decimal((-n) as nat)
    } else {
        decimal(n as nat)
    }
}

pub open spec fn all_digits(s: Seq<char>) -> bool {
    forall|i: int| 0 <= i < s.len() ==> is_digit(#[trigger] s[i])
}

/// The value of a string of decimal digits.
pub open spec fn digits_value(s: Seq<char>) -> nat
    decreases s.len(),
{
    if s.len() == 0 {
        0
    } else {
        digits_value(s.drop_last()) * 10 + digit_value(s.last())
    }
}

/// The outcome of `str::parse` for an integer type whose values run from
/// `lo` to `hi`: an optional `+` (or, for a signed type, `-`) followed by at
/// least one decimal digit and nothing else, whose value fits the type.
pub open spec fn parsed_integer(s: Seq<char>, signed: bool, lo: int, hi: int) -> Option<int> {
    let negative = signed && s.len() > 0 && s[0] == '-';
    let body = if s.len() > 0 && (s[0] == '+' || negative) {
        s.drop_first()
    } else {
        s
    };
    let value: int = if negative {
        -digits_value(body)
    } else {
        digits_value(body) as int
    };
    if body.len() == 0 || !all_digits(body) || value < lo || hi < value {
        None
    } else {
        Some(value)
    }
}

proof fn lemma_digit_char(d: nat)
    requires
        d < 10,
    ensures
        is_digit(digit_char(d)),
        digit_value(digit_char(d)) == d,
{
}

/// Every decimal rendering is a non-empty run of digits whose value is `n`.
pub proof fn lemma_decimal_digits(n: nat)
    ensures
        decimal(n).len() > 0,
        all_digits(decimal(n)),
        digits_value(decimal(n)) == n,
    decreases n,
{
    assert(digits_value(Seq::<char>::empty()) == 0);
    if n < 10 {
        lemma_digit_char(n);
        assert(decimal(n).drop_last() =~= Seq::<char>::empty());
    } else {
        lemma_decimal_digits(n / 10);
        lemma_digit_char(n % 10);
        let s = decimal(n);
        assert(s.drop_last() =~= decimal(n / 10));
        assert(s.last() == digit_char(n % 10));
        assert(n == (n / 10) * 10 + n % 10);
        assert forall|i: int| 0 <= i < s.len() implies is_digit(#[trigger] s[i]) by {
            if i < s.len() - 1 {
                assert(s[i] == decimal(n / 10)[i]);
            }
        }
    }
}

/// Parsing the decimal rendering of a number gives the number back.
pub proof fn lemma_parse_decimal(n: int, signed: bool, lo: int, hi: int)
    requires
        lo <= n <= hi,
        n < 0 ==> signed,
    ensures
        parsed_integer(signed_decimal(n), signed, lo, hi) == Some(n),
{
    if n < 0 {
        lemma_decimal_digits((-n) as nat);
        let s = signed_decimal(n);
        assert(s.drop_first() =~= decimal((-n) as nat));
    } else {
        lemma_decimal_digits(n as nat);
        let s = decimal(n as nat);
        assert(is_digit(s[0]));
    }
}

fn digit_str(d: u64) -> (r: &'static str)
    requires
        d < 10,
    ensures
        r@ == seq![digit_char(d as nat)],
{
    proof {
        reveal_strlit("0");
        reveal_strlit("1");
        reveal_strlit("2");
        reveal_strlit("3");
        reveal_strlit("4");
        reveal_strlit("5");
        reveal_strlit("6");
        reveal_strlit("7");
        reveal_strlit("8");
        reveal_strlit("9");
    }
    if d == 0 {
        "0"
    } else if d == 1 {
        "1"
    } else if d == 2 {
        "2"
    } else if d == 3 {
        "3"
    } else if d == 4 {
        "4"
    } else if d == 5 {
        "5"
    } else if d == 6 {
        "6"
    } else if d == 7 {
        "7"
    } else if d == 8 {
        "8"
    } else {
        "9"
    }
}

/// Appends the decimal rendering of `n` to `out`.
pub fn push_decimal(out: &mut String, n: u64)
    ensures
        final(out)@ == old(out)@ + decimal(n as nat),
    decreases n,
{
    if n >= 10 {
        push_decimal(out, n / 10);
    }
    out.append(digit_str(n % 10));
    proof {
        if n < 10 {
            assert(old(out)@ + decimal(n as nat) =~= old(out)@ + seq![digit_char(n as nat)]);
        } else {
            assert(decimal(n as nat) =~= decimal((n / 10) as nat).push(digit_char((n % 10) as nat)));
        }
    }
}

/// Appends the decimal rendering of a signed number to `out`.
pub fn push_signed_decimal(out: &mut String, n: i64)
    ensures
        final(out)@ == old(out)@ + signed_decimal(n as int),
{
    if n < 0 {
        out.append("-");
        proof {
            reveal_strlit("-");
        }
        let magnitude: u64 = if n == i64::MIN {
            9223372036854775808u64
        } else {
            (-n) as u64
        };
        push_decimal(out, magnitude);
        assert(final(out)@ =~= old(out)@ + signed_decimal(n as int));
    } else {
        push_decimal(out, n as u64);
    }
}

/// The decimal rendering of `n`.
pub fn decimal_string(n: u64) -> (r: String)
    ensures
        r@ == decimal(n as nat),
{
    let mut s = String::new();
    push_decimal(&mut s, n);
    assert(s@ =~= decimal(n as nat));
    s
}

// ---------------------------------------------------------------------------
// Parsing
// ---------------------------------------------------------------------------

/// Parses an integer as `str::parse` does, for a type whose values run from
/// `lo` to `hi`.
pub fn parse_integer(s: &str, signed: bool, lo: i64, hi: i64) -> (r: Option<i64>)
    requires
        -0x1_0000_0000 <= lo <= hi <= 0x1_0000_0000,
    ensures
        match r {
            Some(v) => parsed_integer(s@, signed, lo as int, hi as int) == Some(v as int),
            None => parsed_integer(s@, signed, lo as int, hi as int) is None,
        },
{
    let len = s.unicode_len();
    let negative = signed && len > 0 && s.get_char(0) == '-';
    let start: usize = if len > 0 && (s.get_char(0) == '+' || negative) {
        1
    } else {
        0
    };
    let ghost body = if s@.len() > 0 && (s@[0] == '+' || negative) {
        s@.drop_first()
    } else {
        s@
    };
    assert(body =~= s@.subrange(start as int, len as int));
    if start == len {
        return None;
    }
    // The accumulated value, held at `cap` once it grows past it.
    let cap: u64 = 0x1_0000_0001;
    let mut acc: u64 = 0;
    let mut i: usize = start;
    while i < len
        invariant
            start <= i <= len,
            len == s@.len(),
            body == s@.subrange(start as int, len as int),
            negative == (signed && s@.len() > 0 && s@[0] == '-'),
            body == (if s@.len() > 0 && (s@[0] == '+' || negative) {
                s@.drop_first()
            } else {
                s@
            }),
            cap == 0x1_0000_0001,
            all_digits(s@.subrange(start as int, i as int)),
            digits_value(s@.subrange(start as int, i as int)) < cap ==> acc == digits_value(
                s@.subrange(start as int, i as int),
            ),
            digits_value(s@.subrange(start as int, i as int)) >= cap ==> acc == cap,
        decreases len - i,
    {
        let c = s.get_char(i);
        let ghost prefix = s@.subrange(start as int, i as int);
        let ghost next = s@.subrange(start as int, i + 1);
        assert(next.drop_last() =~= prefix);
        assert(next.last() == c);
        if !('0' <= c && c <= '9') {
            assert(!all_digits(body)) by {
                assert(body[i - start] == c);
            }
            return None;
        }
        let d: u64 = (c as u32 - '0' as u32) as u64;
        if acc < cap {
            let v = acc * 10 + d;
            acc = if v < cap {
                v
            } else {
                cap
            };
        }
        assert forall|j: int| 0 <= j < next.len() implies is_digit(#[trigger] next[j]) by {
            if j < prefix.len() {
                assert(next[j] == prefix[j]);
            }
        }
        i = i + 1;
    }
    assert(s@.subrange(start as int, len as int) == body);
    if acc >= cap {
        return None;
    }
    let v: i64 = if negative {
        -(acc as i64)
    } else {
        acc as i64
    };
    if v < lo || hi < v {
        None
    } else {
        Some(v)
    }
}

/// `str::parse::<i32>`.
pub fn parse_i32(s: &str) -> (r: Option<i32>)
    ensures
        match r {
            Some(v) => parsed_integer(s@, true, i32::MIN as int, i32::MAX as int) == Some(
                v as int,
            ),
            None => parsed_integer(s@, true, i32::MIN as int, i32::MAX as int) is None,
        },
{
    match parse_integer(s, true, i32::MIN as i64, i32::MAX as i64) {
        Some(v) => Some(v as i32),
        None => None,
    }
}

/// `str::parse::<u16>`.
pub fn parse_u16(s: &str) -> (r: Option<u16>)
    ensures
        match r {
            Some(v) => parsed_integer(s@, false, 0, u16::MAX as int) == Some(v as int),
            None => parsed_integer(s@, false, 0, u16::MAX as int) is None,
        },
{
    match parse_integer(s, false, 0, u16::MAX as i64) {
        Some(v) => Some(v as u16),
        None => None,
    }
}

// ---------------------------------------------------------------------------
// Whitespace
// ---------------------------------------------------------------------------

/// The characters with the Unicode `White_Space` property, which is what
/// `char::is_whitespace` and `str::trim` go by.
pub open spec fn is_white_space(c: char) -> bool {
    let u = c as u32;
    (0x09 <= u && u <= 0x0d) || u == 0x20 || u == 0x85 || u == 0xa0 || u == 0x1680 || (0x2000
        <= u && u <= 0x200a) || u == 0x2028 || u == 0x2029 || u == 0x202f || u == 0x205f || u
        == 0x3000
}

pub fn white_space(c: char) -> (r: bool)
    ensures
        r == is_white_space(c),
{
    let u = c as u32;
    (0x09 <= u && u <= 0x0d) || u == 0x20 || u == 0x85 || u == 0xa0 || u == 0x1680 || (0x2000
        <= u && u <= 0x200a) || u == 0x2028 || u == 0x2029 || u == 0x202f || u == 0x205f || u
        == 0x3000
}

/// `s` without its leading whitespace.
pub open spec fn trim_front(s: Seq<char>) -> Seq<char>
    decreases s.len(),
{
    if s.len() > 0 && is_white_space(s[0]) {
        trim_front(s.drop_first())
    } else {
        s
    }
}

/// `s` without its trailing whitespace.
pub open spec fn trim_back(s: Seq<char>) -> Seq<char>
    decreases s.len(),
{
    if s.len() > 0 && is_white_space(s.last()) {
        trim_back(s.drop_last())
    } else {
        s
    }
}

/// `str::trim`: `s` without leading and trailing whitespace.
pub open spec fn trimmed(s: Seq<char>) -> Seq<char> {
    trim_back(trim_front(s))
}

/// `str::trim`.
pub fn trim(s: &str) -> (r: String)
    ensures
        r@ == trimmed(s@),
{
    let len = s.unicode_len();
    let mut a: usize = 0;
    assert(s@.subrange(0, len as int) =~= s@);
    while a < len && white_space(s.get_char(a))
        invariant
            a <= len,
            len == s@.len(),
            trim_front(s@) == trim_front(s@.subrange(a as int, len as int)),
        decreases len - a,
    {
        let ghost rest = s@.subrange(a as int, len as int);
        assert(rest.drop_first() =~= s@.subrange(a + 1, len as int));
        a = a + 1;
    }
    let ghost front = s@.subrange(a as int, len as int);
    assert(trim_front(front) == front);
    let mut b: usize = len;
    while b > a && white_space(s.get_char(b - 1))
        invariant
            a <= b <= len,
            len == s@.len(),
            front == s@.subrange(a as int, len as int),
            trim_back(front) == trim_back(s@.subrange(a as int, b as int)),
        decreases b,
    {
        let ghost rest = s@.subrange(a as int, b as int);
        assert(rest.drop_last() =~= s@.subrange(a as int, b - 1));
        b = b - 1;
    }
    let ghost kept = s@.subrange(a as int, b as int);
    assert(trim_back(kept) == kept);
    let t = s.substring_char(a, b);
    String::from_str(t)
}

// ---------------------------------------------------------------------------
// Order
// ---------------------------------------------------------------------------

/// The order of `str`'s `Ord`: lexicographic, element by element. Since UTF-8
/// keeps the order of code points, comparing the bytes and comparing the
/// characters agree.
pub open spec fn lex_less(a: Seq<char>, b: Seq<char>) -> bool
    decreases a.len(),
{
    if a.len() == 0 {
        b.len() > 0
    } else if b.len() == 0 {
        false
    } else if a[0] != b[0] {
        a[0] < b[0]
    } else {
        lex_less(a.drop_first(), b.drop_first())
    }
}

pub proof fn lemma_lex_irreflexive(a: Seq<char>)
    ensures
        !lex_less(a, a),
    decreases a.len(),
{
    if a.len() > 0 {
        lemma_lex_irreflexive(a.drop_first());
    }
}

pub proof fn lemma_lex_asymmetric(a: Seq<char>, b: Seq<char>)
    ensures
        !(lex_less(a, b) && lex_less(b, a)),
    decreases a.len(),
{
    if a.len() > 0 && b.len() > 0 && a[0] == b[0] {
        lemma_lex_asymmetric(a.drop_first(), b.drop_first());
    }
}

pub proof fn lemma_lex_total(a: Seq<char>, b: Seq<char>)
    ensures
        lex_less(a, b) || lex_less(b, a) || a == b,
    decreases a.len(),
{
    if a.len() > 0 && b.len() > 0 && a[0] == b[0] {
        lemma_lex_total(a.drop_first(), b.drop_first());
        if a.drop_first() == b.drop_first() {
            assert forall|i: int| 0 <= i < a.len() implies a[i] == b[i] by {
                if i > 0 {
                    assert(a[i] == a.drop_first()[i - 1]);
                    assert(b[i] == b.drop_first()[i - 1]);
                }
            }
            assert(a =~= b);
        }
    } else if a.len() == 0 && b.len() == 0 {
        assert(a =~= b);
    }
}

pub proof fn lemma_lex_transitive(a: Seq<char>, b: Seq<char>, c: Seq<char>)
    requires
        lex_less(a, b),
        lex_less(b, c),
    ensures
        lex_less(a, c),
    decreases a.len(),
{
    if a.len() > 0 && b.len() > 0 && c.len() > 0 && a[0] == b[0] && b[0] == c[0] {
        lemma_lex_transitive(a.drop_first(), b.drop_first(), c.drop_first());
    }
}

/// `a < b` for strings.
pub fn str_less(a: &str, b: &str) -> (r: bool)
    ensures
        r == lex_less(a@, b@),
{
    let la = a.unicode_len();
    let lb = b.unicode_len();
    let mut i: usize = 0;
    assert(a@.skip(0) =~= a@);
    assert(b@.skip(0) =~= b@);
    while i < la && i < lb
        invariant
            i <= la,
            i <= lb,
            la == a@.len(),
            lb == b@.len(),
            lex_less(a@, b@) == lex_less(a@.skip(i as int), b@.skip(i as int)),
        decreases la - i,
    {
        let ca = a.get_char(i);
        let cb = b.get_char(i);
        if ca != cb {
            return ca < cb;
        }
        assert(a@.skip(i as int).drop_first() =~= a@.skip(i + 1));
        assert(b@.skip(i as int).drop_first() =~= b@.skip(i + 1));
        i = i + 1;
    }
    i < lb
}

// ---------------------------------------------------------------------------
// Joining
// ---------------------------------------------------------------------------

/// The parts one after another with `sep` between neighbours, as
/// `[String]::join` writes them.
pub open spec fn joined(parts: Seq<Seq<char>>, sep: Seq<char>) -> Seq<char>
    decreases parts.len(),
{
    if parts.len() == 0 {
        Seq::empty()
    } else if parts.len() == 1 {
        parts[0]
    } else {
        joined(parts.drop_last(), sep) + sep + parts.last()
    }
}

/// The views of a vector of strings.
pub open spec fn string_views(v: Seq<String>) -> Seq<Seq<char>> {
    v.map_values(|s: String| s@)
}

/// `parts.join(sep)`.
pub fn join(parts: &Vec<String>, sep: &str) -> (r: String)
    ensures
        r@ == joined(string_views(parts@), sep@),
{
    let mut out = String::new();
    let n = parts.len();
    let mut i: usize = 0;
    while i < n
        invariant
            i <= n,
            n == parts@.len(),
            out@ == joined(string_views(parts@.subrange(0, i as int)), sep@),
        decreases n - i,
    {
        let ghost before = string_views(parts@.subrange(0, i as int));
        let ghost after = string_views(parts@.subrange(0, i + 1));
        assert(after.drop_last() =~= before);
        assert(after.last() == parts@[i as int]@);
        if i > 0 {
            out.append(sep);
        } else {
            assert(out@ =~= Seq::<char>::empty());
        }
        out.append(parts[i].as_str());
        i = i + 1;
        assert(out@ =~= joined(after, sep@));
    }
    assert(parts@.subrange(0, n as int) =~= parts@);
    out
}

// ---------------------------------------------------------------------------
// Laws
// ---------------------------------------------------------------------------

/// How integers parse: a leading `+` is allowed; a leading `-` only for a
/// signed type; a text without digits, with anything but digits after the
/// sign, or with a value outside the type is refused.
pub proof fn lemma_parse_rules(n: nat, signed: bool, lo: int, hi: int, s: Seq<char>)
    requires
        lo <= 0 <= hi,
    ensures
        n <= hi ==> parsed_integer(seq!['+'] + decimal(n), signed, lo, hi) == Some(n as int),
        n > 0 ==> parsed_integer(seq!['-'] + decimal(n), false, lo, hi) is None,
        signed && -n >= lo ==> parsed_integer(seq!['-'] + decimal(n), true, lo, hi) == Some(
            -n,
        ),
        n > hi ==> parsed_integer(decimal(n), signed, lo, hi) is None,
        parsed_integer(Seq::empty(), signed, lo, hi) is None,
        parsed_integer(seq!['+'], signed, lo, hi) is None,
        parsed_integer(seq!['-'], signed, lo, hi) is None,
        s.len() > 0 && is_white_space(s[0]) ==> parsed_integer(s, signed, lo, hi) is None,
        s.len() > 0 && is_white_space(s.last()) ==> parsed_integer(s, signed, lo, hi) is None,
{
    lemma_decimal_digits(n);
    let d = decimal(n);
    assert((seq!['+'] + d).drop_first() =~= d);
    assert((seq!['-'] + d).drop_first() =~= d);
    assert(is_digit(d[0]));
    if s.len() > 0 && is_white_space(s.last()) {
        let body = if s.len() > 0 && (s[0] == '+' || (signed && s[0] == '-')) {
            s.drop_first()
        } else {
            s
        };
        if body.len() > 0 {
            assert(body[body.len() - 1] == s.last());
        }
    }
}

proof fn lemma_trim_front_shape(s: Seq<char>) -> (a: int)
    ensures
        0 <= a <= s.len(),
        trim_front(s) == s.subrange(a, s.len() as int),
        forall|i: int| 0 <= i < a ==> is_white_space(#[trigger] s[i]),
        a < s.len() ==> !is_white_space(s[a]),
    decreases s.len(),
{
    if s.len() > 0 && is_white_space(s[0]) {
        let a = lemma_trim_front_shape(s.drop_first());
        assert(s.drop_first().subrange(a, s.len() - 1) =~= s.subrange(a + 1, s.len() as int));
        assert forall|i: int| 0 <= i < a + 1 implies is_white_space(#[trigger] s[i]) by {
            if i > 0 {
                assert(s[i] == s.drop_first()[i - 1]);
            }
        }
        if a + 1 < s.len() {
            assert(s[a + 1] == s.drop_first()[a]);
        }
        a + 1
    } else {
        assert(s.subrange(0, s.len() as int) =~= s);
        0
    }
}

proof fn lemma_trim_back_shape(s: Seq<char>) -> (b: int)
    ensures
        0 <= b <= s.len(),
        trim_back(s) == s.subrange(0, b),
        forall|i: int| b <= i < s.len() ==> is_white_space(#[trigger] s[i]),
        b > 0 ==> !is_white_space(s[b - 1]),
    decreases s.len(),
{
    if s.len() > 0 && is_white_space(s.last()) {
        let b = lemma_trim_back_shape(s.drop_last());
        assert(s.drop_last().subrange(0, b) =~= s.subrange(0, b));
        assert forall|i: int| b <= i < s.len() implies is_white_space(#[trigger] s[i]) by {
            if i < s.len() - 1 {
                assert(s[i] == s.drop_last()[i]);
            }
        }
        if b > 0 {
            assert(s[b - 1] == s.drop_last()[b - 1]);
        }
        b
    } else {
        assert(s.subrange(0, s.len() as int) =~= s);
        s.len() as int
    }
}

/// `trim` keeps a contiguous part of the text and drops only whitespace
/// around it: what it keeps neither begins nor ends with whitespace.
pub proof fn lemma_trim_rules(s: Seq<char>)
    ensures
        exists|a: int, b: int|
            {
                &&& 0 <= a <= b <= s.len()
                &&& trimmed(s) == s.subrange(a, b)
                &&& forall|i: int|
                    0 <= i < s.len() && (i < a || b <= i) ==> is_white_space(#[trigger] s[i])
            },
        trimmed(s).len() > 0 ==> !is_white_space(trimmed(s)[0]) && !is_white_space(
            trimmed(s).last(),
        ),
{
    let a = lemma_trim_front_shape(s);
    let f = s.subrange(a, s.len() as int);
    let b = lemma_trim_back_shape(f);
    assert(trimmed(s) == f.subrange(0, b));
    assert(f.subrange(0, b) =~= s.subrange(a, a + b));
    assert forall|i: int| 0 <= i < s.len() && (i < a || a + b <= i) implies is_white_space(
        #[trigger] s[i],
    ) by {
        if i >= a + b {
            assert(s[i] == f[i - a]);
        }
    }
    if trimmed(s).len() > 0 {
        assert(trimmed(s)[0] == f[0]);
        assert(f[0] == s[a]);
        assert(trimmed(s).last() == f[b - 1]);
    }
}

/// The order of strings: the empty string comes before any other; a string
/// comes before any longer string that begins with it; strings that differ
/// first at some place are ordered by the characters there.
pub proof fn lemma_lex_rules(a: Seq<char>, b: Seq<char>, i: int)
    ensures
        b.len() > 0 ==> lex_less(Seq::empty(), b),
        a.len() < b.len() && b.subrange(0, a.len() as int) == a ==> lex_less(a, b),
        0 <= i < a.len() && i < b.len() && a.subrange(0, i) == b.subrange(0, i) && a[i] != b[i]
            ==> (lex_less(a, b) == (a[i] < b[i])),
    decreases a.len(),
{
    if a.len() > 0 && b.len() > 0 {
        let a1 = a.drop_first();
        let b1 = b.drop_first();
        lemma_lex_rules(a1, b1, i - 1);
        if a.len() < b.len() && b.subrange(0, a.len() as int) == a {
            assert(b[0] == b.subrange(0, a.len() as int)[0]);
            assert(b1.subrange(0, a1.len() as int) =~= b.subrange(0, a.len() as int).drop_first());
        }
        if 0 <= i < a.len() && i < b.len() && a.subrange(0, i) == b.subrange(0, i) && a[i] != b[i]
            && i > 0 {
            assert(a[0] == a.subrange(0, i)[0]);
            assert(b[0] == b.subrange(0, i)[0]);
            assert(a1.subrange(0, i - 1) =~= a.subrange(0, i).drop_first());
            assert(b1.subrange(0, i - 1) =~= b.subrange(0, i).drop_first());
        }
    }
}

/// Joining: one part stands alone; two parts stand with the separator
/// between them; a further part comes after the separator at the end.
pub proof fn lemma_join_rules(parts: Seq<Seq<char>>, p: Seq<char>, q: Seq<char>, sep: Seq<char>)
    ensures
        joined(seq![p], sep) == p,
        joined(seq![p, q], sep) == p + sep + q,
        parts.len() > 0 ==> joined(parts.push(p), sep) == joined(parts, sep) + sep + p,
        joined(Seq::<Seq<char>>::empty(), sep).len() == 0,
{
    assert(joined(seq![p], sep) == p);
    assert(seq![p, q].drop_last() =~= seq![p]);
    assert(seq![p, q].last() == q);
    assert(joined(seq![p, q], sep) == joined(seq![p], sep) + sep + q);
    assert(parts.push(p).drop_last() =~= parts);
}

} // verus!
