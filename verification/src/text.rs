//! The few questions this crate asks of text: is it the same, where does a line end, what is
//! left without the blanks around it, which number does it spell.
//!
//! Everything here is stated over the characters of a string, `s@`.

use vstd::prelude::*;

verus! {

/// Whether two strings hold the same characters.
pub fn same(a: &str, b: &str) -> (r: bool)
    ensures
        r == (a@ == b@),
{
    let x = a.as_bytes();
    let y = b.as_bytes();
    proof {
        vstd::utf8::encode_utf8_decode_utf8(a@);
        vstd::utf8::encode_utf8_decode_utf8(b@);
    }
    if x.len() != y.len() {
        return false;
    }
    let mut i: usize = 0;
    while i < x.len()
        invariant
            x@ == vstd::utf8::encode_utf8(a@),
            y@ == vstd::utf8::encode_utf8(b@),
            x@.len() == y@.len(),
            i <= x@.len(),
            forall|k: int| 0 <= k < i ==> x@[k] == y@[k],
        decreases x@.len() - i,
    {
        if x[i] != y[i] {
            return false;
        }
        i += 1;
    }
    assert(x@ =~= y@);
    true
}

/// The characters that Unicode calls white space.
pub open spec fn is_blank(c: char) -> bool {
    let u = c as u32;
    ||| 0x09 <= u <= 0x0D
    ||| u == 0x20
    ||| u == 0x85
    ||| u == 0xA0
    ||| u == 0x1680
    ||| 0x2000 <= u <= 0x200A
    ||| u == 0x2028
    ||| u == 0x2029
    ||| u == 0x202F
    ||| u == 0x205F
    ||| u == 0x3000
}

fn blank(c: char) -> (r: bool)
    ensures
        r == is_blank(c),
{
    let u: u32 = c as u32;
    (0x09 <= u && u <= 0x0D) || u == 0x20 || u == 0x85 || u == 0xA0 || u == 0x1680 || (0x2000 <= u
        && u <= 0x200A) || u == 0x2028 || u == 0x2029 || u == 0x202F || u == 0x205F || u == 0x3000
}

/// `s` from its first character that is not blank.
pub open spec fn without_leading_blanks(s: Seq<char>) -> Seq<char>
    decreases s.len(),
{
    if s.len() > 0 && is_blank(s[0]) {
        without_leading_blanks(s.drop_first())
    } else {
        s
    }
}

/// `s` up to its last character that is not blank.
pub open spec fn without_trailing_blanks(s: Seq<char>) -> Seq<char>
    decreases s.len(),
{
    if s.len() > 0 && is_blank(s.last()) {
        without_trailing_blanks(s.drop_last())
    } else {
        s
    }
}

/// `s` without the blanks around it.
pub open spec fn trimmed(s: Seq<char>) -> Seq<char> {
    without_trailing_blanks(without_leading_blanks(s))
}

proof fn lemma_leading(s: Seq<char>, from: int)
    requires
        0 <= from <= s.len(),
        forall|k: int| 0 <= k < from ==> is_blank(#[trigger] s[k]),
        from < s.len() ==> !is_blank(s[from]),
    ensures
        without_leading_blanks(s) == s.skip(from),
    decreases from,
{
    if from == 0 {
        assert(s.skip(0) =~= s);
    } else {
        let t = s.drop_first();
        assert forall|k: int| 0 <= k < from - 1 implies is_blank(#[trigger] t[k]) by {
            assert(t[k] == s[k + 1]);
        }
        lemma_leading(t, from - 1);
        assert(t.skip(from - 1) =~= s.skip(from));
    }
}

proof fn lemma_trailing(s: Seq<char>, to: int)
    requires
        0 <= to <= s.len(),
        forall|k: int| to <= k < s.len() ==> is_blank(#[trigger] s[k]),
        to > 0 ==> !is_blank(s[to - 1]),
    ensures
        without_trailing_blanks(s) == s.take(to),
    decreases s.len() - to,
{
    if to == s.len() {
        assert(s.take(to) =~= s);
    } else {
        let t = s.drop_last();
        lemma_trailing(t, to);
        assert(t.take(to) =~= s.take(to));
    }
}

/// A text whose first and last characters are not blank is its own trimming.
pub proof fn lemma_trimmed_is_itself(s: Seq<char>)
    requires
        s.len() > 0,
        !is_blank(s[0]),
        !is_blank(s.last()),
    ensures
        trimmed(s) == s,
{
}

/// `s` without the blanks around it.
pub fn trim(s: &str) -> (r: &str)
    ensures
        r@ == trimmed(s@),
{
    let n: usize = s.unicode_len();
    let mut i: usize = 0;
    let mut from: usize = n;
    let mut to: usize = n;
    let mut seen: bool = false;
    for c in it: s.chars()
        invariant
            it.seq() == s@,
            n == s@.len(),
            i == it.index(),
            i <= n,
            !seen ==> from == n && to == n && forall|k: int|
                0 <= k < i ==> is_blank(#[trigger] s@[k]),
            seen ==> from < to <= i,
            seen ==> forall|k: int| 0 <= k < from ==> is_blank(#[trigger] s@[k]),
            seen ==> !is_blank(s@[from as int]) && !is_blank(s@[to - 1]),
            seen ==> forall|k: int| to <= k < i ==> is_blank(#[trigger] s@[k]),
    {
        assert(c == s@[i as int]);
        if !blank(c) {
            if !seen {
                from = i;
                seen = true;
            }
            to = i + 1;
        }
        i += 1;
    }
    proof {
        lemma_leading(s@, from as int);
        let t = s@.skip(from as int);
        if seen {
            assert forall|k: int| to - from <= k < t.len() implies is_blank(#[trigger] t[k]) by {
                assert(t[k] == s@[k + from]);
            }
            assert(t[to - from - 1] == s@[to - 1]);
        }
        lemma_trailing(t, to - from);
        assert(t.take(to - from) =~= s@.subrange(from as int, to as int));
    }
    s.substring_char(from, to)
}

/// How many characters stand before the first line break, or in the whole text where there is
/// none.
pub open spec fn line_length(text: Seq<char>) -> nat
    decreases text.len(),
{
    if text.len() == 0 || text[0] == '\n' {
        0
    } else {
        1 + line_length(text.drop_first())
    }
}

/// [`line_length`] is the place of the first line break.
pub proof fn lemma_line_length(text: Seq<char>, n: int)
    requires
        0 <= n <= text.len(),
        forall|k: int| 0 <= k < n ==> #[trigger] text[k] != '\n',
        n < text.len() ==> text[n] == '\n',
    ensures
        line_length(text) == n,
    decreases n,
{
    if n > 0 {
        let t = text.drop_first();
        assert forall|k: int| 0 <= k < n - 1 implies #[trigger] t[k] != '\n' by {
            assert(t[k] == text[k + 1]);
        }
        lemma_line_length(t, n - 1);
    }
}

/// A line is no longer than the text it opens, and a text longer than its first line has a line
/// break there.
pub proof fn lemma_line_length_bound(text: Seq<char>)
    ensures
        line_length(text) <= text.len(),
    decreases text.len(),
{
    if text.len() > 0 && text[0] != '\n' {
        lemma_line_length_bound(text.drop_first());
    }
}

/// The number of characters before the first line break.
pub fn first_line(text: &str) -> (n: usize)
    ensures
        n == line_length(text@),
        n <= text@.len(),
{
    let n: usize = text.unicode_len();
    let mut i: usize = 0;
    for c in it: text.chars()
        invariant
            it.seq() == text@,
            n == text@.len(),
            i == it.index(),
            i <= n,
            forall|k: int| 0 <= k < i ==> #[trigger] text@[k] != '\n',
    {
        assert(c == text@[i as int]);
        if c == '\n' {
            proof {
                lemma_line_length(text@, i as int);
            }
            return i;
        }
        i += 1;
    }
    proof {
        lemma_line_length(text@, i as int);
    }
    i
}

/// Whether `s` opens with `prefix`.
pub fn starts_with(s: &str, prefix: &str) -> (r: bool)
    ensures
        r == prefix@.is_prefix_of(s@),
{
    let n: usize = prefix.unicode_len();
    if s.unicode_len() < n {
        return false;
    }
    same(s.substring_char(0, n), prefix)
}

/// What follows `prefix` in `s`, where `s` opens with it.
pub fn strip_prefix<'a>(s: &'a str, prefix: &str) -> (r: Option<&'a str>)
    ensures
        r.deep_view() == (if prefix@.is_prefix_of(s@) {
            Some(s@.skip(prefix@.len() as int))
        } else {
            None
        }),
{
    let n: usize = prefix.unicode_len();
    let m: usize = s.unicode_len();
    if m >= n && same(s.substring_char(0, n), prefix) {
        proof {
            assert(s@.skip(n as int) =~= s@.subrange(n as int, m as int));
        }
        Some(s.substring_char(n, m))
    } else {
        None
    }
}

/// Whether `needle` occurs somewhere in `s`.
pub open spec fn occurs_in(needle: Seq<char>, s: Seq<char>) -> bool {
    exists|i: int|
        0 <= i && i + needle.len() <= s.len() && #[trigger] s.subrange(i, i + needle.len())
            == needle
}

/// Whether `needle` occurs somewhere in `s`.
pub fn contains(s: &str, needle: &str) -> (r: bool)
    ensures
        r == occurs_in(needle@, s@),
{
    let n: usize = needle.unicode_len();
    let m: usize = s.unicode_len();
    if m < n {
        return false;
    }
    let last: usize = m - n;
    let mut i: usize = 0;
    loop
        invariant
            n == needle@.len(),
            m == s@.len(),
            last == m - n,
            i <= last,
            forall|k: int| 0 <= k < i ==> #[trigger] s@.subrange(k, k + n) != needle@,
        decreases last - i,
    {
        if same(s.substring_char(i, i + n), needle) {
            assert(s@.subrange(i as int, i + n) == needle@);
            return true;
        }
        if i == last {
            return false;
        }
        i += 1;
    }
}

/// The decimal digit for `d`.
pub open spec fn digit(d: nat) -> char {
    (('0' as u32) + d) as char
}

/// How `n` is written in decimal, with no leading zero.
pub open spec fn decimal(n: nat) -> Seq<char>
    decreases n,
{
    if n < 10 {
        seq![digit(n)]
    } else {
        decimal(n / 10).push(digit(n % 10))
    }
}

fn digit_text(d: u64) -> (r: &'static str)
    requires
        d < 10,
    ensures
        r@ == seq![digit(d as nat)],
{
    proof {
        reveal_strlit("0");
        reveal_strlit("1");
        reveal_strlit("2");
        reveal_strlit("3");
        reveal_strlit("4");
        reveal_strlit("5");
        reveal_strlit("6");
        reveal_strlit("7");
        reveal_strlit("8");
        reveal_strlit("9");
    }
    let r = match d {
        0 => "0",
        1 => "1",
        2 => "2",
        3 => "3",
        4 => "4",
        5 => "5",
        6 => "6",
        7 => "7",
        8 => "8",
        _ => "9",
    };
    assert(r@ =~= seq![digit(d as nat)]);
    r
}

/// `n` in decimal.
pub fn to_decimal(n: u64) -> (r: String)
    ensures
        r@ == decimal(n as nat),
    decreases n,
{
    if n < 10 {
        digit_text(n).to_owned()
    } else {
        let mut r = to_decimal(n / 10);
        r.append(digit_text(n % 10));
        assert(r@ =~= decimal(n as nat));
        r
    }
}

/// `s`, with a zero before it where it is a single character.
pub open spec fn two_places(s: Seq<char>) -> Seq<char> {
    if s.len() < 2 {
        seq!['0'] + s
    } else {
        s
    }
}

/// `n` in decimal, in two places or as many as it takes.
pub fn to_two_places(n: u64) -> (r: String)
    ensures
        r@ == two_places(decimal(n as nat)),
{
    let s = to_decimal(n);
    if n < 10 {
        proof {
            reveal_strlit("0");
            assert("0"@ =~= seq!['0']);
        }
        let mut r = "0".to_owned();
        r.append(s.as_str());
        r
    } else {
        proof {
            assert(decimal((n / 10) as nat).len() >= 1);
        }
        s
    }
}

/// Whether `c` is a decimal digit.
pub open spec fn is_digit(c: char) -> bool {
    '0' <= c <= '9'
}

/// The number that a row of digits spells.
pub open spec fn digits_value(s: Seq<char>) -> nat
    decreases s.len(),
{
    if s.len() == 0 {
        0
    } else {
        digits_value(s.drop_last()) * 10 + (s.last() as u32 - '0' as u32) as nat
    }
}

/// The digits of a number that may carry a plus sign.
pub open spec fn unsigned_digits(s: Seq<char>) -> Seq<char> {
    if s.len() > 0 && s[0] == '+' {
        s.drop_first()
    } else {
        s
    }
}

/// The unsigned number that `s` spells: at least one digit and nothing else, save for one plus
/// sign before them, and no more than `max`.
pub open spec fn spelled(s: Seq<char>, max: nat) -> Option<nat> {
    let d = unsigned_digits(s);
    if d.len() > 0 && (forall|i: int| 0 <= i < d.len() ==> is_digit(#[trigger] d[i]))
        && digits_value(d) <= max {
        Some(digits_value(d))
    } else {
        None
    }
}

/// A number that is written in decimal is spelled by it, and by nothing but digits.
pub proof fn lemma_decimal(n: nat)
    ensures
        decimal(n).len() > 0,
        forall|i: int| 0 <= i < decimal(n).len() ==> is_digit(#[trigger] decimal(n)[i]),
        digits_value(decimal(n)) == n,
        forall|max: nat| n <= max ==> #[trigger] spelled(decimal(n), max) == Some(n),
    decreases n,
{
    let s = decimal(n);
    if n < 10 {
        assert(s.drop_last() =~= Seq::<char>::empty());
        assert(digits_value(s.drop_last()) == 0);
    } else {
        lemma_decimal(n / 10);
        assert(s.drop_last() =~= decimal(n / 10));
    }
    assert(is_digit(s[0]));
    assert(unsigned_digits(s) == s);
}

proof fn lemma_digits_value_grows(s: Seq<char>, n: int)
    requires
        0 <= n <= s.len(),
        forall|i: int| 0 <= i < s.len() ==> is_digit(#[trigger] s[i]),
    ensures
        digits_value(s.take(n)) <= digits_value(s),
    decreases s.len() - n,
{
    if n == s.len() {
        assert(s.take(n) =~= s);
    } else {
        let t = s.take(n + 1);
        assert(t.drop_last() =~= s.take(n));
        lemma_digits_value_grows(s, n + 1);
    }
}

/// The unsigned number that `s` spells, if it spells one that is no more than `max`.
pub fn parse_unsigned(s: &str, max: u64) -> (r: Option<u64>)
    ensures
        r is Some <==> spelled(s@, max as nat) is Some,
        r matches Some(n) ==> spelled(s@, max as nat) == Some(n as nat),
{
    let n: usize = s.unicode_len();
    let ghost d = unsigned_digits(s@);
    let mut i: usize = 0;
    let mut from: usize = 0;
    let mut value: u64 = 0;
    for c in it: s.chars()
        invariant
            it.seq() == s@,
            n == s@.len(),
            i == it.index(),
            i <= n,
            d == unsigned_digits(s@),
            from <= 1,
            from <= i,
            i == 0 ==> from == 0,
            i > 0 ==> d == s@.skip(from as int),
            forall|k: int| 0 <= k < i - from ==> is_digit(#[trigger] d[k]),
            value <= max,
            value == digits_value(d.take(i - from)),
    {
        assert(c == s@[i as int]);
        if i == 0 && c == '+' {
            from = 1;
            assert(d =~= s@.skip(1));
            assert(d.take(0) =~= Seq::<char>::empty());
        } else {
            if i == 0 {
                assert(d =~= s@.skip(0));
            }
            assert(d[i - from] == c);
            if c < '0' || c > '9' {
                return None;
            }
            let ghost t = d.take(i - from + 1);
            proof {
                assert(t.drop_last() =~= d.take(i - from));
                assert(t.last() == c);
                assert(digits_value(t) == value * 10 + (c as u32 - '0' as u32));
                if forall|k: int| 0 <= k < d.len() ==> is_digit(#[trigger] d[k]) {
                    lemma_digits_value_grows(d, i - from + 1);
                }
            }
            let x: u64 = (c as u32 - 48) as u64;
            if value > max / 10 {
                proof {
                    assert(value * 10 > max) by (nonlinear_arith)
                        requires
                            value > max / 10,
                    ;
                }
                return None;
            }
            if x > max || value * 10 > max - x {
                return None;
            }
            value = value * 10 + x;
        }
        i += 1;
    }
    proof {
        if n == 0 {
            assert(d.len() == 0);
        } else {
            assert(d.take(i - from) =~= d);
        }
    }
    if i == from {
        None
    } else {
        Some(value)
    }
}

/// The text without a character.
pub fn empty_text() -> (r: String)
    ensures
        r@ == Seq::<char>::empty(),
{
    proof {
        reveal_strlit("");
        assert(""@ =~= Seq::<char>::empty());
    }
    "".to_owned()
}

/// A row of texts with `by` between each two.
pub open spec fn separated(parts: Seq<Seq<char>>, by: Seq<char>) -> Seq<char>
    decreases parts.len(),
{
    if parts.len() == 0 {
        Seq::empty()
    } else if parts.len() == 1 {
        parts[0]
    } else {
        separated(parts.drop_last(), by) + by + parts.last()
    }
}

/// A row of texts with `by` between each two.
pub fn join(parts: &[&str], by: &str) -> (r: String)
    ensures
        r@ == separated(parts.deep_view(), by@),
{
    let ghost all = parts.deep_view();
    let mut out = "".to_owned();
    let mut i: usize = 0;
    proof {
        reveal_strlit("");
        assert(out@ =~= Seq::<char>::empty());
        assert(all.take(0) =~= Seq::<Seq<char>>::empty());
    }
    while i < parts.len()
        invariant
            i <= parts@.len(),
            all == parts.deep_view(),
            out@ == separated(all.take(i as int), by@),
        decreases parts@.len() - i,
    {
        proof {
            assert(all.take(i + 1).drop_last() =~= all.take(i as int));
            assert(all.take(i + 1).last() == parts@[i as int]@);
        }
        if i > 0 {
            out.append(by);
        }
        let ghost before = out@;
        out.append(parts[i]);
        assert(i == 0 ==> out@ =~= parts@[i as int]@);
        i += 1;
    }
    assert(all.take(i as int) =~= all);
    out
}

} // verus!
