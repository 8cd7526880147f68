//! Laws of the values that everything is about: JSON, what is found in it, and texts.

use crate::codec;
use crate::framing;
use crate::json::{self, JsonView};
use crate::laws::words;
use crate::text;
use vstd::prelude::*;

verus! {

/// A member of an object is found under its name and only there; nothing else has members.
pub proof fn law_a_member_is_found_under_its_name(
    m: Map<Seq<char>, JsonView>,
    a: Seq<char>,
    b: Seq<char>,
    c: Seq<char>,
    v: JsonView,
    other: JsonView,
)
    ensures
        JsonView::Object(m.insert(a, v)).get(a) == Some(v),
        !m.contains_key(a) ==> JsonView::Object(m).get(a) is None,
        b != a ==> JsonView::Object(m.insert(a, v)).get(b) == JsonView::Object(m).get(b),
        !(other is Object) ==> other.get(a) is None,
        other.get2(a, b) == (match other.get(a) {
            Some(x) => x.get(b),
            None => None,
        }),
        other.get3(a, b, c) == (match other.get2(a, b) {
            Some(x) => x.get(c),
            None => None,
        }),
        json::find(m.insert(a, v), a) == Some(v),
        !m.contains_key(a) ==> json::find(m, a) is None,
{
}

/// A value is read as what it is and as nothing else.
pub proof fn law_a_value_is_read_as_what_it_is(
    s: Seq<char>,
    n: u64,
    b: bool,
    items: Seq<JsonView>,
    v: JsonView,
)
    ensures
        json::text_of(Some(JsonView::Text(s))) == Some(s),
        json::text_or_empty(Some(JsonView::Text(s))) == s,
        !(v is Text) ==> json::text_of(Some(v)) is None && json::text_or_empty(Some(v)).len() == 0,
        json::text_of(None) is None && json::text_or_empty(None).len() == 0,
        json::unsigned_of(Some(JsonView::Unsigned(n))) == Some(n),
        !(v is Unsigned) ==> json::unsigned_of(Some(v)) is None,
        json::unsigned_of(None) is None,
        json::bool_of(Some(JsonView::Bool(b))) == Some(b),
        !(v is Bool) ==> json::bool_of(Some(v)) is None,
        json::bool_of(None) is None,
        json::items_of(Some(JsonView::Array(items))) == Some(items),
        json::items_or_empty(Some(JsonView::Array(items))) == items,
        !(v is Array) ==> json::items_of(Some(v)) is None && json::items_or_empty(Some(v)).len()
            == 0,
        json::items_of(None) is None && json::items_or_empty(None).len() == 0,
        items.len() > 0 ==> JsonView::Array(items).head() == Some(items[0]),
        items.len() == 0 ==> JsonView::Array(items).head() is None,
{
}

/// Whether a character is blank: a space of any width, a tab, or the end of a line or of a page.
pub open spec fn is_white(c: char) -> bool {
    ||| c == ' '
    ||| c == '\t'
    ||| c == '\n'
    ||| c == '\u{b}'
    ||| c == '\u{c}'
    ||| c == '\r'
    ||| c == '\u{85}'
    ||| c == '\u{a0}'
    ||| c == '\u{1680}'
    ||| '\u{2000}' <= c <= '\u{200a}'
    ||| c == '\u{2028}'
    ||| c == '\u{2029}'
    ||| c == '\u{202f}'
    ||| c == '\u{205f}'
    ||| c == '\u{3000}'
}

proof fn lemma_white(c: char)
    ensures
        is_white(c) <==> text::is_blank(c),
{
    if text::is_blank(c) {
        let u = c as u32;
        assert(u == 0x09 ==> c == '\t');
        assert(u == 0x0A ==> c == '\n');
        assert(u == 0x0B ==> c == '\u{b}');
        assert(u == 0x0C ==> c == '\u{c}');
        assert(u == 0x0D ==> c == '\r');
        assert(u == 0x20 ==> c == ' ');
    }
}

/// Whether a text is nothing but blanks.
pub open spec fn are_blanks(s: Seq<char>) -> bool {
    forall|i: int| 0 <= i < s.len() ==> is_white(#[trigger] s[i])
}

proof fn lemma_leading_blanks(before: Seq<char>, core: Seq<char>)
    requires
        are_blanks(before),
        core.len() > 0 ==> !text::is_blank(core[0]),
    ensures
        text::without_leading_blanks(before + core) == core,
    decreases before.len(),
{
    if before.len() == 0 {
        assert(before + core =~= core);
    } else {
        assert((before + core).drop_first() =~= before.drop_first() + core);
        assert((before + core)[0] == before[0]);
        assert forall|i: int| 0 <= i < before.drop_first().len() implies is_white(
            #[trigger] before.drop_first()[i],
        ) by {
            assert(before.drop_first()[i] == before[i + 1]);
        }
        lemma_leading_blanks(before.drop_first(), core);
    }
}

proof fn lemma_trailing_blanks(core: Seq<char>, after: Seq<char>)
    requires
        are_blanks(after),
        core.len() > 0 ==> !text::is_blank(core.last()),
    ensures
        text::without_trailing_blanks(core + after) == core,
    decreases after.len(),
{
    if after.len() == 0 {
        assert(core + after =~= core);
    } else {
        assert((core + after).drop_last() =~= core + after.drop_last());
        assert((core + after).last() == after.last());
        assert(after.last() == after[after.len() - 1]);
        assert forall|i: int| 0 <= i < after.drop_last().len() implies is_white(
            #[trigger] after.drop_last()[i],
        ) by {
            assert(after.drop_last()[i] == after[i]);
        }
        lemma_trailing_blanks(core, after.drop_last());
    }
}

/// Whether a text begins and ends with characters that are not blank.
pub open spec fn is_solid(core: Seq<char>) -> bool {
    core.len() > 0 && !is_white(core[0]) && !is_white(core.last())
}

/// Trimming takes the blanks around a text away and leaves the text.
pub proof fn law_trimming_leaves_the_text(before: Seq<char>, core: Seq<char>, after: Seq<char>)
    requires
        are_blanks(before),
        are_blanks(after),
        is_solid(core),
    ensures
        text::trimmed(before + core + after) == core,
        text::trimmed(before).len() == 0,
{
    assert(before + core + after =~= before + (core + after));
    assert((core + after)[0] == core[0]);
    lemma_white(core[0]);
    lemma_white(core.last());
    lemma_leading_blanks(before, core + after);
    lemma_trailing_blanks(core, after);
    assert(before + Seq::<char>::empty() =~= before);
    lemma_leading_blanks(before, Seq::empty());
}

/// A line is one message where it spells an object, whatever blanks stand around it, and none
/// where it does not.
pub proof fn law_a_line_is_the_object_that_it_spells(
    before: Seq<char>,
    core: Seq<char>,
    after: Seq<char>,
)
    requires
        are_blanks(before),
        are_blanks(after),
        is_solid(core),
        !before.contains('\n') && !core.contains('\n') && !after.contains('\n'),
    ensures
        framing::messages(before + core + after) == (match codec::parsed(core) {
            Some(v) => if v is Object {
                seq![v]
            } else {
                Seq::empty()
            },
            None => Seq::empty(),
        }),
{
    let line = before + core + after;
    law_trimming_leaves_the_text(before, core, after);
    assert forall|k: int| 0 <= k < line.len() implies #[trigger] line[k] != '\n' by {
        if k < before.len() {
            assert(line[k] == before[k]);
        } else if k < before.len() + core.len() {
            assert(line[k] == core[k - before.len()]);
        } else {
            assert(line[k] == after[k - before.len() - core.len()]);
        }
    }
    text::lemma_line_length(line, line.len() as int);
}

/// Whether a message acknowledges a subscription.
pub open spec fn is_an_ack(msg: JsonView) -> bool {
    msg is Object && words::has(
        msg->Object_0,
        "CommuniqueType"@,
        JsonView::Text("SubscribeResponse"@),
    )
}

/// The answer is the first message that is no response to a subscription, wherever it stands, and
/// null where there is none.
pub proof fn law_the_answer_is_the_first_that_is_one(msgs: Seq<JsonView>, k: int)
    requires
        0 <= k <= msgs.len(),
        forall|i: int| 0 <= i < k ==> is_an_ack(#[trigger] msgs[i]),
        k < msgs.len() ==> !is_an_ack(msgs[k]),
    ensures
        framing::answer(msgs) == if k < msgs.len() {
            msgs[k]
        } else {
            JsonView::Null
        },
    decreases k,
{
    if k > 0 {
        let rest = msgs.drop_first();
        assert(is_an_ack(msgs[0]));
        assert forall|i: int| 0 <= i < k - 1 implies is_an_ack(#[trigger] rest[i]) by {
            assert(rest[i] == msgs[i + 1]);
        }
        if k < msgs.len() {
            assert(rest[k - 1] == msgs[k]);
        }
        law_the_answer_is_the_first_that_is_one(rest, k - 1);
    }
}

/// What is written to the connection is the message as one line, in UTF-8, on the driver's own
/// connection.
pub proof fn law_a_message_is_written_as_a_line(msg: JsonView)
    ensures
        framing::framed(msg) == codec::printed(msg).push('\n'),
        framing::transmission(msg) == words::written(msg),
{
}

/// Texts that are joined stand one after the other with the separator between each two.
pub proof fn law_joined_texts_stand_side_by_side(
    parts: Seq<Seq<char>>,
    last: Seq<char>,
    by: Seq<char>,
)
    ensures
        text::separated(Seq::empty(), by).len() == 0,
        text::separated(seq![last], by) == last,
        parts.len() > 0 ==> text::separated(parts.push(last), by) == text::separated(parts, by) + by
            + last,
{
    assert(parts.push(last).drop_last() =~= parts);
}

/// A text occurs in another where that is it with something before and behind, and only there.
pub proof fn law_a_text_occurs_where_it_stands(
    before: Seq<char>,
    needle: Seq<char>,
    after: Seq<char>,
    s: Seq<char>,
)
    ensures
        text::occurs_in(needle, before + needle + after),
        text::occurs_in(needle, s) ==> exists|a: Seq<char>, b: Seq<char>|
            s == #[trigger] (a + needle + b),
{
    let whole = before + needle + after;
    let i = before.len() as int;
    assert(whole.subrange(i, i + needle.len()) =~= needle);
    if text::occurs_in(needle, s) {
        let k = choose|k: int|
            0 <= k && k + needle.len() <= s.len() && #[trigger] s.subrange(k, k + needle.len())
                == needle;
        let a = s.take(k);
        let b = s.skip(k + needle.len());
        assert forall|j: int| 0 <= j < s.len() implies s[j] == (a + needle + b)[j] by {
            if k <= j < k + needle.len() {
                assert(s.subrange(k, k + needle.len())[j - k] == needle[j - k]);
            }
        }
        assert(s =~= a + needle + b);
    }
}

/// A number is spelled by its digits, the last of them for the ones.
pub proof fn law_a_number_is_its_digits(n: nat, d: nat)
    requires
        d < 10,
    ensures
        text::decimal(d) == seq![words::digit_char(d as int)],
        n > 0 ==> text::decimal(n * 10 + d) == text::decimal(n).push(words::digit_char(d as int)),
        text::spelled(text::decimal(n), n) == Some(n),
        n > 0 ==> text::spelled(text::decimal(n), (n - 1) as nat) is None,
        text::spelled(Seq::empty(), n) is None,
        text::spelled(seq!['+'] + text::decimal(n), n) == Some(n),
        text::spelled(seq!['-'] + text::decimal(n), n) is None,
{
    text::lemma_decimal(n);
    let s = text::decimal(n);
    assert(text::unsigned_digits(s) == s) by {
        assert(text::is_digit(s[0]));
    }
    assert((seq!['+'] + s).drop_first() =~= s);
    let minus = seq!['-'] + s;
    assert(text::unsigned_digits(minus) == minus);
    assert(!text::is_digit(minus[0]));
    if n > 0 {
        assert((n * 10 + d) / 10 == n && (n * 10 + d) % 10 == d);
    }
}

/// A number is spelled digit by digit, whatever zeros stand before it, and by nothing but digits.
pub proof fn law_a_number_is_spelled_digit_by_digit(s: Seq<char>, d: nat, max: nat, i: int)
    requires
        d < 10,
    ensures
        d <= max ==> text::spelled(seq![words::digit_char(d as int)], max) == Some(d),
        text::spelled(s, max) matches Some(v) ==> {
            let next = s.push(words::digit_char(d as int));
            &&& v * 10 + d <= max ==> text::spelled(next, max) == Some(v * 10 + d)
            &&& v * 10 + d > max ==> text::spelled(next, max) is None
        },
        0 < i < s.len() && !('0' <= s[i] <= '9') ==> text::spelled(s, max) is None,
{
    let c = words::digit_char(d as int);
    assert('0' <= c <= '9' && c as u32 - '0' as u32 == d);
    let one = seq![c];
    reveal_with_fuel(text::digits_value, 2);
    assert(one.drop_last() =~= Seq::<char>::empty());
    let next = s.push(c);
    let before = text::unsigned_digits(s);
    let after = text::unsigned_digits(next);
    if text::spelled(s, max) is Some {
        assert(next[0] == s[0]);
        assert(after =~= before.push(c));
        assert(after.drop_last() =~= before);
    }
    if 0 < i < s.len() && !('0' <= s[i] <= '9') {
        if s[0] == '+' {
            assert(before[i - 1] == s[i]);
        } else {
            assert(before[i] == s[i]);
        }
    }
}

} // verus!
