//! Text helpers with exact contracts over character sequences.

use vstd::prelude::*;
use vstd::string::*;

verus! {

/// Whether two strings hold the same characters.
pub fn str_eq(a: &str, b: &str) -> (same: bool)
    ensures
        same == (a@ == b@),
{
    a.to_owned() == b.to_owned()
}

/// A copy of an optional string.
pub fn clone_opt(s: &Option<String>) -> (copy: Option<String>)
    ensures
        copy == *s,
{
    match s {
        Some(text) => Some(text.clone()),
        None => None,
    }
}

/// The text of an optional string, or `None`.
pub open spec fn opt_text(s: Option<String>) -> Option<Seq<char>> {
    match s {
        Some(text) => Some(text@),
        None => None,
    }
}

/// `a` followed by `b`.
pub fn join2(a: &str, b: &str) -> (s: String)
    ensures
        s@ == a@ + b@,
{
    let mut s = a.to_owned();
    s.append(b);
    s
}

/// `a`, `b` and `c` in a row.
pub fn join3(a: &str, b: &str, c: &str) -> (s: String)
    ensures
        s@ == a@ + b@ + c@,
{
    let mut s = a.to_owned();
    s.append(b);
    s.append(c);
    s
}

/// The decimal digit `d`.
pub open spec fn digit(d: nat) -> char {
    (48 + d) as char
}

/// The decimal notation of a natural number, without leading zeros.
pub open spec fn decimal(n: nat) -> Seq<char>
    decreases n,
{
    if n < 10 {
        seq![digit(n)]
    } else {
        decimal(n / 10).push(digit(n % 10))
    }
}

/// The decimal notation of an integer.
pub open spec fn signed_decimal(n: int) -> Seq<char> {
    if n < 0 {
        seq!['-'] + decimal((-n) as nat)
    } else {
        decimal(n as nat)
    }
}

fn digit_str(d: u64) -> (s: &'static str)
    requires
        d < 10,
    ensures
        s@ == seq![digit(d as nat)],
{
    proof {
        reveal_strlit("0");
        reveal_strlit("1");
        reveal_strlit("2");
        reveal_strlit("3");
        reveal_strlit("4");
        reveal_strlit("5");
        reveal_strlit("6");
        reveal_strlit("7");
        reveal_strlit("8");
        reveal_strlit("9");
    }
    let s: &'static str = match d {
        0 => "0",
        1 => "1",
        2 => "2",
        3 => "3",
        4 => "4",
        5 => "5",
        6 => "6",
        7 => "7",
        8 => "8",
        _ => "9",
    };
    assert(s@ =~= seq![digit(d as nat)]);
    s
}

/// Renders an unsigned integer in decimal.
pub fn dec_u64(n: u64) -> (s: String)
    ensures
        s@ == decimal(n as nat),
    decreases n,
{
    if n < 10 {
        digit_str(n).to_owned()
    } else {
        let mut s = dec_u64(n / 10);
        s.append(digit_str(n % 10));
        assert(s@ =~= decimal(n as nat));
        s
    }
}

/// Renders a signed integer in decimal.
pub fn dec_i64(n: i64) -> (s: String)
    ensures
        s@ == signed_decimal(n as int),
{
    if n < 0 {
        let magnitude: u64 = if n == i64::MIN {
            9223372036854775808
        } else {
            (-n) as u64
        };
        let digits = dec_u64(magnitude);
        proof {
            reveal_strlit("-");
        }
        let s = join2("-", &digits);
        assert(s@ =~= signed_decimal(n as int));
        s
    } else {
        dec_u64(n as u64)
    }
}

/// Joins `parts` with `sep` between neighbours.
pub open spec fn joined(parts: Seq<Seq<char>>, sep: Seq<char>) -> Seq<char>
    decreases parts.len(),
{
    if parts.len() == 0 {
        seq![]
    } else if parts.len() == 1 {
        parts[0]
    } else {
        joined(parts.drop_last(), sep) + sep + parts.last()
    }
}

/// The texts of a vector of strings.
pub open spec fn texts(v: Seq<String>) -> Seq<Seq<char>> {
    v.map_values(|s: String| s@)
}

/// Joins the strings of `parts` with `sep` between neighbours.
pub fn join_all(parts: &Vec<String>, sep: &str) -> (s: String)
    ensures
        s@ == joined(texts(parts@), sep@),
{
    let mut s = String::new();
    let mut i: usize = 0;
    while i < parts.len()
        invariant
            i <= parts.len(),
            s@ == joined(texts(parts@).take(i as int), sep@),
        decreases parts.len() - i,
    {
        let ghost all = texts(parts@);
        proof {
            assert(all.take(i as int + 1).drop_last() =~= all.take(i as int));
            assert(all.take(i as int + 1).last() == parts@[i as int]@);
        }
        if i > 0 {
            s.append(sep);
        }
        s.append(&parts[i]);
        proof {
            if i == 0 {
                assert(s@ =~= joined(all.take(1), sep@));
            }
        }
        i += 1;
    }
    assert(texts(parts@).take(parts@.len() as int) =~= texts(parts@));
    s
}

/// Whether `s` begins with `prefix`.
pub open spec fn has_prefix(s: Seq<char>, prefix: Seq<char>) -> bool {
    prefix.len() <= s.len() && s.take(prefix.len() as int) == prefix
}

/// Decimal digits say which number they stand for.
pub proof fn lemma_decimal_value(n: nat)
    ensures
        digits_value(decimal(n)) == n,
        decimal(n).len() > 0,
    decreases n,
{
    if n < 10 {
        assert(decimal(n) =~= seq![digit(n)]);
        assert(decimal(n).drop_last() =~= seq![]);
        assert(digits_value(decimal(n).drop_last()) == 0);
    } else {
        lemma_decimal_value(n / 10);
        assert(decimal(n).drop_last() =~= decimal(n / 10));
    }
}

/// The characters of a string, as a vector.
pub fn chars_of(s: &str) -> (v: Vec<char>)
    ensures
        v@ == s@,
{
    let mut v: Vec<char> = Vec::new();
    for c in it: s.chars()
        invariant
            it.seq() == s@,
            v@ == s@.take(it.index()),
    {
        v.push(c);
        assert(v@ =~= s@.take(it.index() + 1));
    }
    assert(s@.take(s@.len() as int) =~= s@);
    v
}

/// Whether `s` begins with `prefix`.
pub fn starts_with(s: &str, prefix: &str) -> (yes: bool)
    ensures
        yes == has_prefix(s@, prefix@),
{
    let n: usize = prefix.unicode_len();
    if s.unicode_len() < n {
        return false;
    }
    let head = s.substring_char(0, n);
    assert(head@ =~= s@.take(prefix@.len() as int));
    str_eq(head, prefix)
}

/// Whether `c` is white space in the sense of Unicode's `White_Space` property.
pub open spec fn is_space(c: char) -> bool {
    ||| '\u{9}' <= c <= '\u{d}'
    ||| c == ' '
    ||| c == '\u{85}'
    ||| c == '\u{a0}'
    ||| c == '\u{1680}'
    ||| '\u{2000}' <= c <= '\u{200a}'
    ||| c == '\u{2028}'
    ||| c == '\u{2029}'
    ||| c == '\u{202f}'
    ||| c == '\u{205f}'
    ||| c == '\u{3000}'
}

/// Whether `c` is white space in the sense of Unicode's `White_Space` property.
pub fn space(c: char) -> (yes: bool)
    ensures
        yes == is_space(c),
{
    ('\u{9}' <= c && c <= '\u{d}') || c == ' ' || c == '\u{85}' || c == '\u{a0}' || c == '\u{1680}'
        || ('\u{2000}' <= c && c <= '\u{200a}') || c == '\u{2028}' || c == '\u{2029}' || c
        == '\u{202f}' || c == '\u{205f}' || c == '\u{3000}'
}

/// `s` without the leading characters that `drop` picks.
pub open spec fn trim_front(s: Seq<char>, drop: spec_fn(char) -> bool) -> Seq<char>
    decreases s.len(),
{
    if s.len() > 0 && drop(s[0]) {
        trim_front(s.drop_first(), drop)
    } else {
        s
    }
}

/// `s` without the trailing characters that `drop` picks.
pub open spec fn trim_back(s: Seq<char>, drop: spec_fn(char) -> bool) -> Seq<char>
    decreases s.len(),
{
    if s.len() > 0 && drop(s.last()) {
        trim_back(s.drop_last(), drop)
    } else {
        s
    }
}

/// The characters that trimming white space drops.
pub open spec fn spaces() -> spec_fn(char) -> bool {
    |c: char| is_space(c)
}

/// The characters that trimming `x` drops.
pub open spec fn only(x: char) -> spec_fn(char) -> bool {
    |c: char| c == x
}

/// `s` without white space at its ends.
pub open spec fn trimmed(s: Seq<char>) -> Seq<char> {
    trim_back(trim_front(s, spaces()), spaces())
}

/// `s` without white space at its ends.
pub fn trim(s: &str) -> (t: String)
    ensures
        t@ == trimmed(s@),
{
    let v = chars_of(s);
    let n: usize = v.len();
    let mut from: usize = 0;
    assert(s@.skip(0) =~= s@);
    while from < n && space(v[from])
        invariant
            from <= n,
            n == v@.len(),
            v@ == s@,
            trim_front(s@.skip(from as int), spaces()) == trim_front(s@, spaces()),
        decreases n - from,
    {
        assert(s@.skip(from as int).drop_first() =~= s@.skip(from as int + 1));
        from += 1;
    }
    let ghost front = s@.skip(from as int);
    assert(trim_front(s@, spaces()) == front);
    let mut to: usize = n;
    assert(s@.subrange(from as int, n as int) =~= front);
    while to > from && space(v[to - 1])
        invariant
            from <= to <= n,
            n == v@.len(),
            v@ == s@,
            trim_back(s@.subrange(from as int, to as int), spaces()) == trim_back(
                front,
                spaces(),
            ),
        decreases to,
    {
        assert(s@.subrange(from as int, to as int).drop_last() =~= s@.subrange(
            from as int,
            to as int - 1,
        ));
        assert(s@.subrange(from as int, to as int).last() == s@[to as int - 1]);
        to -= 1;
    }
    assert(to > from ==> s@.subrange(from as int, to as int).last() == s@[to as int - 1]);
    s.substring_char(from, to).to_owned()
}

/// `s` without `x` at its front.
pub fn trim_start_char(s: &str, x: char) -> (t: String)
    ensures
        t@ == trim_front(s@, only(x)),
{
    let v = chars_of(s);
    let n: usize = v.len();
    let mut from: usize = 0;
    assert(s@.skip(0) =~= s@);
    while from < n && v[from] == x
        invariant
            from <= n,
            n == v@.len(),
            v@ == s@,
            trim_front(s@.skip(from as int), only(x)) == trim_front(s@, only(x)),
        decreases n - from,
    {
        assert(s@.skip(from as int).drop_first() =~= s@.skip(from as int + 1));
        from += 1;
    }
    assert(s@.subrange(from as int, n as int) =~= s@.skip(from as int));
    s.substring_char(from, n).to_owned()
}

/// `s` without `x` at its back.
pub fn trim_end_char(s: &str, x: char) -> (t: String)
    ensures
        t@ == trim_back(s@, only(x)),
{
    let v = chars_of(s);
    let mut to: usize = v.len();
    assert(s@.take(to as int) =~= s@);
    while to > 0 && v[to - 1] == x
        invariant
            to <= v@.len(),
            v@ == s@,
            trim_back(s@.take(to as int), only(x)) == trim_back(s@, only(x)),
        decreases to,
    {
        assert(s@.take(to as int).drop_last() =~= s@.take(to as int - 1));
        assert(s@.take(to as int).last() == s@[to as int - 1]);
        to -= 1;
    }
    assert(to > 0 ==> s@.take(to as int).last() == s@[to as int - 1]);
    assert(s@.subrange(0, to as int) =~= s@.take(to as int));
    s.substring_char(0, to).to_owned()
}

/// Position of the first `x` in `s`, or the length of `s`.
pub open spec fn find_char(s: Seq<char>, x: char) -> int
    decreases s.len(),
{
    if s.len() == 0 || s[0] == x {
        0
    } else {
        1 + find_char(s.drop_first(), x)
    }
}

/// Where the first `x` stands.
pub proof fn lemma_find_char(s: Seq<char>, x: char)
    ensures
        0 <= find_char(s, x) <= s.len(),
        forall|i: int| 0 <= i < find_char(s, x) ==> s[i] != x,
        find_char(s, x) < s.len() ==> s[find_char(s, x)] == x,
    decreases s.len(),
{
    if s.len() > 0 && s[0] != x {
        lemma_find_char(s.drop_first(), x);
        assert forall|i: int| 0 <= i < find_char(s, x) implies s[i] != x by {
            if i > 0 {
                assert(s.drop_first()[i - 1] == s[i]);
            }
        }
        assert(find_char(s, x) < s.len() ==> s.drop_first()[find_char(s, x) - 1] == s[find_char(
            s,
            x,
        )]);
    }
}

/// `s` before and after the first `x`; `None` when there is none.
pub open spec fn split_at_char(s: Seq<char>, x: char) -> Option<(Seq<char>, Seq<char>)> {
    let p = find_char(s, x);
    if p < s.len() {
        Some((s.take(p), s.skip(p + 1)))
    } else {
        None
    }
}

/// Splits `s` at the first `x`.
pub fn split_once(s: &str, x: char) -> (parts: Option<(String, String)>)
    ensures
        match parts {
            Some((a, b)) => split_at_char(s@, x) == Some((a@, b@)),
            None => split_at_char(s@, x) is None,
        },
{
    let v = chars_of(s);
    let n: usize = v.len();
    proof {
        lemma_find_char(s@, x);
    }
    let mut i: usize = 0;
    while i < n
        invariant
            i <= n,
            n == v@.len(),
            v@ == s@,
            0 <= find_char(s@, x) <= s@.len(),
            find_char(s@, x) < s@.len() ==> s@[find_char(s@, x)] == x,
            forall|k: int| 0 <= k < find_char(s@, x) ==> s@[k] != x,
            forall|k: int| 0 <= k < i ==> s@[k] != x,
        decreases n - i,
    {
        if v[i] == x {
            assert(find_char(s@, x) == i);
            let a = s.substring_char(0, i).to_owned();
            let b = s.substring_char(i + 1, n).to_owned();
            assert(a@ =~= s@.take(i as int));
            assert(b@ =~= s@.skip(i as int + 1));
            return Some((a, b));
        }
        i += 1;
    }
    None
}

/// Whether `c` is a decimal digit.
pub open spec fn is_digit(c: char) -> bool {
    '0' <= c <= '9'
}

/// The number that decimal digits stand for.
pub open spec fn digits_value(s: Seq<char>) -> nat
    decreases s.len(),
{
    if s.len() == 0 {
        0
    } else {
        digits_value(s.drop_last()) * 10 + (s.last() as nat - '0' as nat) as nat
    }
}

/// Whether `s` is a non-empty run of decimal digits.
pub open spec fn all_digits(s: Seq<char>) -> bool {
    s.len() > 0 && forall|i: int| 0 <= i < s.len() ==> is_digit(#[trigger] s[i])
}

/// The unsigned number that `s` writes, if it fits in 64 bits: decimal digits, after an
/// optional plus sign.
pub open spec fn u64_written(s: Seq<char>) -> Option<u64> {
    let digits = if s.len() > 0 && s[0] == '+' {
        s.drop_first()
    } else {
        s
    };
    if all_digits(digits) && digits_value(digits) <= u64::MAX {
        Some(digits_value(digits) as u64)
    } else {
        None
    }
}

/// The signed number that `s` writes, if it fits in 64 bits: decimal digits, after an
/// optional sign.
pub open spec fn i64_written(s: Seq<char>) -> Option<i64> {
    if s.len() > 0 && s[0] == '-' {
        let digits = s.drop_first();
        if all_digits(digits) && digits_value(digits) <= 0x8000_0000_0000_0000 {
            Some((-(digits_value(digits) as int)) as i64)
        } else {
            None
        }
    } else {
        let digits = if s.len() > 0 && s[0] == '+' {
            s.drop_first()
        } else {
            s
        };
        if all_digits(digits) && digits_value(digits) <= i64::MAX {
            Some(digits_value(digits) as i64)
        } else {
            None
        }
    }
}

/// More digits never stand for a smaller number.
proof fn lemma_digits_grow(s: Seq<char>, n: int)
    requires
        0 <= n <= s.len(),
    ensures
        digits_value(s.take(n)) <= digits_value(s),
    decreases s.len() - n,
{
    if n < s.len() {
        lemma_digits_grow(s, n + 1);
        assert(s.take(n + 1).drop_last() =~= s.take(n));
    } else {
        assert(s.take(n) =~= s);
    }
}

/// The number that the digits of `v` from `from` on stand for, if it fits in 64 bits.
fn value_from(v: &Vec<char>, from: usize) -> (n: Option<u64>)
    requires
        from <= v@.len(),
    ensures
        ({
            let digits = v@.skip(from as int);
            match n {
                Some(x) => all_digits(digits) && digits_value(digits) == x,
                None => !all_digits(digits) || digits_value(digits) > u64::MAX,
            }
        }),
{
    let ghost digits = v@.skip(from as int);
    if from == v.len() {
        return None;
    }
    let mut value: u64 = 0;
    let mut i: usize = from;
    assert(digits.take(0) =~= Seq::empty());
    while i < v.len()
        invariant
            from <= i <= v@.len(),
            digits == v@.skip(from as int),
            value == digits_value(digits.take(i - from)),
            forall|k: int| 0 <= k < i - from ==> is_digit(#[trigger] digits[k]),
        decreases v@.len() - i,
    {
        let c = v[i];
        assert(digits[i - from] == c);
        if !('0' <= c && c <= '9') {
            assert(!is_digit(digits[i - from]));
            return None;
        }
        let d: u64 = (c as u32 - '0' as u32) as u64;
        proof {
            let next = digits.take(i - from + 1);
            assert(next.drop_last() =~= digits.take(i - from));
            assert(next.last() == c);
            lemma_digits_grow(digits, i - from + 1);
            assert(digits_value(next) == value * 10 + d);
        }
        if value > 1844674407370955161 || (value == 1844674407370955161 && d > 5) {
            return None;
        }
        value = value * 10 + d;
        i += 1;
    }
    assert(digits.take(digits.len() as int) =~= digits);
    Some(value)
}

/// Reads an unsigned 64-bit number.
pub fn parse_u64(s: &str) -> (n: Option<u64>)
    ensures
        n == u64_written(s@),
{
    let v = chars_of(s);
    if v.len() > 0 && v[0] == '+' {
        assert(s@.skip(1) =~= s@.drop_first());
        value_from(&v, 1)
    } else {
        assert(s@.skip(0) =~= s@);
        value_from(&v, 0)
    }
}

/// Reads a signed 64-bit number.
pub fn parse_i64(s: &str) -> (n: Option<i64>)
    ensures
        n == i64_written(s@),
{
    let v = chars_of(s);
    assert(s@.len() > 0 ==> s@.skip(1) =~= s@.drop_first());
    assert(s@.skip(0) =~= s@);
    if v.len() > 0 && v[0] == '-' {
        match value_from(&v, 1) {
            Some(x) => if x < 0x8000_0000_0000_0000 {
                Some(-(x as i64))
            } else if x == 0x8000_0000_0000_0000 {
                Some(i64::MIN)
            } else {
                None
            },
            None => None,
        }
    } else {
        let from: usize = if v.len() > 0 && v[0] == '+' {
            1
        } else {
            0
        };
        match value_from(&v, from) {
            Some(x) => if x < 0x8000_0000_0000_0000 {
                Some(x as i64)
            } else {
                None
            },
            None => None,
        }
    }
}

proof fn lemma_decimal_digits(n: nat)
    ensures
        all_digits(decimal(n)),
    decreases n,
{
    if n >= 10 {
        lemma_decimal_digits(n / 10);
    }
}

/// A number that is written in decimal notation reads back as itself, with and without a sign; what
/// reads as a number is made of digits after an optional sign.
pub proof fn law_written_numbers_read_back(n: u64, i: i64, s: Seq<char>)
    ensures
        u64_written(decimal(n as nat)) == Some(n),
        u64_written(seq!['+'] + decimal(n as nat)) == Some(n),
        i64_written(signed_decimal(i as int)) == Some(i),
        u64_written(s) is Some ==> s.len() > 0 && forall|k: int|
            0 <= k < s.len() ==> '0' <= #[trigger] s[k] <= '9' || k == 0 && s[k] == '+',
        i64_written(s) is Some ==> s.len() > 0 && forall|k: int|
            0 <= k < s.len() ==> '0' <= #[trigger] s[k] <= '9' || k == 0 && (s[k] == '+' || s[k]
                == '-'),
{
    lemma_decimal_value(n as nat);
    lemma_decimal_digits(n as nat);
    let d = decimal(n as nat);
    assert(is_digit(d[0]));
    let plus = seq!['+'] + d;
    assert(plus.drop_first() =~= d);
    let m: nat = if i < 0 {
        (-i) as nat
    } else {
        i as nat
    };
    lemma_decimal_value(m);
    lemma_decimal_digits(m);
    let e = decimal(m);
    assert(is_digit(e[0]));
    if i < 0 {
        assert((seq!['-'] + e).drop_first() =~= e);
    }
    if u64_written(s) is Some {
        assert forall|k: int| 0 <= k < s.len() implies '0' <= #[trigger] s[k] <= '9' || k == 0
            && s[k] == '+' by {
            if s[0] == '+' {
                if k > 0 {
                    assert(is_digit(s.drop_first()[k - 1]));
                }
            } else {
                assert(is_digit(s[k]));
            }
        }
    }
    if i64_written(s) is Some {
        assert forall|k: int| 0 <= k < s.len() implies '0' <= #[trigger] s[k] <= '9' || k == 0 && (
        s[k] == '+' || s[k] == '-') by {
            if s[0] == '+' || s[0] == '-' {
                if k > 0 {
                    assert(is_digit(s.drop_first()[k - 1]));
                }
            } else {
                assert(is_digit(s[k]));
            }
        }
    }
}

/// A text that is split holds the two parts with the character between them, and the first part
/// does not hold the character; a text that is not split does not hold it at all.
pub proof fn law_split_at_the_first(s: &str, x: char, r: Option<(String, String)>)
    requires
        call_ensures(split_once, (s, x), r),
    ensures
        match r {
            Some((a, b)) => s@ == a@ + seq![x] + b@ && !a@.contains(x),
            None => !s@.contains(x),
        },
{
    lemma_find_char(s@, x);
    if let Some((a, b)) = r {
        assert(s@ =~= a@ + seq![x] + b@);
    }
}

/// What trimming drops is a front part and a back part that consist of the dropped character
/// alone, and no more of it stands at that end.
pub proof fn law_trimming_drops_the_ends(s: Seq<char>, drop: spec_fn(char) -> bool)
    ensures
        exists|k: int|
            0 <= k <= s.len() && trim_front(s, drop) == s.skip(k) && (forall|i: int|
                0 <= i < k ==> drop(#[trigger] s[i])) && (k < s.len() ==> !drop(s[k])),
        exists|k: int|
            0 <= k <= s.len() && trim_back(s, drop) == s.take(k) && (forall|i: int|
                k <= i < s.len() ==> drop(#[trigger] s[i])) && (k > 0 ==> !drop(s[k - 1])),
{
    let f = lemma_trim_front(s, drop);
    let b = lemma_trim_back(s, drop);
}

/// How many characters trimming the front drops.
proof fn lemma_trim_front(s: Seq<char>, drop: spec_fn(char) -> bool) -> (k: int)
    ensures
        0 <= k <= s.len(),
        trim_front(s, drop) == s.skip(k),
        forall|i: int| 0 <= i < k ==> drop(#[trigger] s[i]),
        k < s.len() ==> !drop(s[k]),
    decreases s.len(),
{
    if s.len() > 0 && drop(s[0]) {
        let rest = s.drop_first();
        let k = lemma_trim_front(rest, drop);
        assert(rest.skip(k) =~= s.skip(k + 1));
        assert forall|i: int| 0 <= i < k + 1 implies drop(#[trigger] s[i]) by {
            if i > 0 {
                assert(rest[i - 1] == s[i]);
            }
        }
        if k < rest.len() {
            assert(rest[k] == s[k + 1]);
        }
        k + 1
    } else {
        assert(s.skip(0) =~= s);
        0
    }
}

/// How many characters trimming the back keeps.
proof fn lemma_trim_back(s: Seq<char>, drop: spec_fn(char) -> bool) -> (k: int)
    ensures
        0 <= k <= s.len(),
        trim_back(s, drop) == s.take(k),
        forall|i: int| k <= i < s.len() ==> drop(#[trigger] s[i]),
        k > 0 ==> !drop(s[k - 1]),
    decreases s.len(),
{
    if s.len() > 0 && drop(s.last()) {
        let rest = s.drop_last();
        let k = lemma_trim_back(rest, drop);
        assert(rest.take(k) =~= s.take(k));
        assert forall|i: int| k <= i < s.len() implies drop(#[trigger] s[i]) by {
            if i < rest.len() {
                assert(rest[i] == s[i]);
            }
        }
        k
    } else {
        assert(s.take(s.len() as int) =~= s);
        s.len() as int
    }
}

/// Parts that are joined stand one after the other: one part stays as it is, and two lists of
/// parts are joined with the separator between what each of them gives.
pub proof fn law_joined_parts_follow_each_other(
    a: Seq<Seq<char>>,
    b: Seq<Seq<char>>,
    part: Seq<char>,
    sep: Seq<char>,
)
    requires
        a.len() > 0,
        b.len() > 0,
    ensures
        joined(seq![part], sep) == part,
        joined(a + b, sep) == joined(a, sep) + sep + joined(b, sep),
    decreases b.len(),
{
    let both = a + b;
    assert(both.last() == b.last());
    if b.len() == 1 {
        assert(both.drop_last() =~= a);
    } else {
        assert(both.drop_last() =~= a + b.drop_last());
        law_joined_parts_follow_each_other(a, b.drop_last(), part, sep);
        assert(joined(both, sep) =~= joined(a, sep) + sep + joined(b, sep));
    }
}

/// Texts are put together in order, and told apart by their characters.
pub proof fn law_texts_are_put_together(
    a: &str,
    b: &str,
    c: &str,
    two: String,
    three: String,
    same: bool,
    head: bool,
    v: Vec<char>,
)
    requires
        call_ensures(join2, (a, b), two),
        call_ensures(join3, (a, b, c), three),
        call_ensures(str_eq, (a, b), same),
        call_ensures(starts_with, (a, b), head),
        call_ensures(chars_of, (a,), v),
    ensures
        two@.len() == a@.len() + b@.len(),
        a@.is_prefix_of(two@) && two@.skip(a@.len() as int) == b@,
        two@.is_prefix_of(three@) && three@.skip(two@.len() as int) == c@,
        same <==> a@ == b@,
        head <==> b@.is_prefix_of(a@),
        v@ == a@,
{
    assert(two@.skip(a@.len() as int) =~= b@);
    assert(three@.skip(two@.len() as int) =~= c@);
    if b@.is_prefix_of(a@) {
        assert(a@.take(b@.len() as int) =~= b@);
    }
    if has_prefix(a@, b@) {
        assert(b@.is_prefix_of(a@));
    }
}

} // verus!
