//! LEAP framing: one JSON object per line.
//!
//! The controller hands over whatever bytes arrived in a window and does not know where one
//! message ends.

use crate::codec;
use crate::host::{HostCall, HostCallView, NET};
use crate::json::{str_of, Json, JsonView};
use crate::laws;
use crate::text;
use vstd::prelude::*;

verus! {

/// A message as the bridge expects to read it.
pub open spec fn framed(msg: JsonView) -> Seq<char> {
    codec::printed(msg).push('\n')
}

/// The messages on one line: one, or none where the line is no JSON object.
pub open spec fn line_message(line: Seq<char>) -> Seq<JsonView> {
    let content = text::trimmed(line);
    if content.len() == 0 {
        Seq::empty()
    } else {
        match codec::parsed(content) {
            Some(v) => if v is Object {
                seq![v]
            } else {
                Seq::empty()
            },
            None => Seq::empty(),
        }
    }
}

/// The messages in what arrived, line by line.
pub open spec fn messages(received: Seq<char>) -> Seq<JsonView>
    decreases received.len(),
{
    let n = text::line_length(received) as int;
    if n < received.len() {
        line_message(received.take(n)) + messages(received.skip(n + 1))
    } else {
        line_message(received)
    }
}

/// Whether a message only acknowledges a subscription.
pub open spec fn is_acknowledgement(msg: JsonView) -> bool {
    crate::json::text_of(msg.get("CommuniqueType"@)) == Some("SubscribeResponse"@)
}

/// The first message that is no acknowledgement, or null.
pub open spec fn answer(msgs: Seq<JsonView>) -> JsonView
    decreases msgs.len(),
{
    if msgs.len() == 0 {
        JsonView::Null
    } else if is_acknowledgement(msgs[0]) {
        answer(msgs.drop_first())
    } else {
        msgs[0]
    }
}

/// Whether a message comes back from the line that it is framed as: it is an object, it is not
/// nested too deep to be read, and its numbers are whole ones.
pub open spec fn is_readable(msg: JsonView) -> bool {
    msg is Object && codec::is_shallow(msg, 127)
}

/// Whether a text is whole lines with no message on them but acknowledgements.
pub open spec fn is_noise(received: Seq<char>) -> bool {
    &&& received.len() > 0 ==> received.last() == '\n'
    &&& forall|i: int|
        0 <= i < messages(received).len() ==> is_acknowledgement(#[trigger] messages(received)[i])
}

/// A message, framed as the bridge expects to read it.
///
/// The line break stands at the end of the line and nowhere else. Where the message is an object
/// that is not nested too deep and holds no floating-point number, the line is read as that message
/// alone. Unless it is an acknowledgement it is then the answer, whatever stands on later lines, and
/// whatever stood on earlier ones that was junk or acknowledged something.
pub fn leap_line(msg: &Json) -> (r: String)
    ensures
        r@ == framed(msg@),
        r@.last() == '\n',
        forall|i: int| 0 <= i < r@.len() - 1 ==> #[trigger] r@[i] != '\n',
        is_readable(msg@) ==> messages(r@) == seq![msg@],
        is_readable(msg@) && !is_acknowledgement(msg@) ==> forall|noise: Seq<char>, rest: Seq<char>|
            is_noise(noise) ==> #[trigger] answer(messages(noise + r@ + rest)) == msg@,
{
    let mut line = codec::print(msg);
    let ghost content = line@;
    proof {
        reveal_strlit("\n");
        assert("\n"@ =~= seq!['\n']);
    }
    line.append("\n");
    proof {
        assert(line@ =~= content.push('\n'));
        text::lemma_trimmed_is_itself(content);
        text::lemma_line_length(line@, content.len() as int);
        assert(line@.take(content.len() as int) =~= content);
        let rest = line@.skip(content.len() as int + 1);
        assert(rest =~= Seq::<char>::empty());
        assert(text::trimmed(rest) =~= Seq::<char>::empty());
        assert(messages(rest) =~= Seq::<JsonView>::empty());
        assert(messages(line@) =~= line_message(content));
        if is_readable(msg@) && !is_acknowledgement(msg@) {
            assert forall|noise: Seq<char>, rest: Seq<char>| is_noise(noise) implies #[trigger] answer(
                messages(noise + line@ + rest),
            ) == msg@ by {
                laws::wire::law_an_answer_is_found_among_noise(noise, line@, rest, msg@);
            }
        }
    }
    line
}

/// Every complete JSON object in what arrived, ignoring partial or junk lines.
pub fn leap_objects(received: &str) -> (r: Vec<Json>)
    ensures
        r.deep_view() == messages(received@),
{
    let mut out: Vec<Json> = Vec::new();
    let mut rest: &str = received;
    assert(out.deep_view() + messages(rest@) =~= messages(received@));
    loop
        invariant
            out.deep_view() + messages(rest@) == messages(received@),
        decreases rest@.len(),
    {
        let size: usize = rest.unicode_len();
        let n: usize = text::first_line(rest);
        let line = rest.substring_char(0, n);
        let content = text::trim(line);
        let ghost before = out.deep_view();
        if !content.is_empty() {
            match codec::parse(content) {
                Some(v) => {
                    if v.as_object().is_some() {
                        out.push(v);
                        assert(out.deep_view() =~= before.push(v@));
                    }
                },
                None => {},
            }
        }
        proof {
            assert(line@ =~= rest@.take(n as int));
            assert(out.deep_view() =~= before + line_message(line@));
        }
        if n >= size {
            proof {
                assert(line@ =~= rest@);
                assert(out.deep_view() =~= messages(received@));
            }
            return out;
        }
        proof {
            assert(rest@.skip(n + 1) =~= rest@.subrange(n + 1, size as int));
            assert(before + (line_message(line@) + messages(rest@.skip(n + 1))) =~= out.deep_view()
                + messages(rest@.skip(n + 1)));
        }
        rest = rest.substring_char(n + 1, size);
    }
}

/// Whether a message only acknowledges a subscription.
pub fn acknowledges(msg: &Json) -> (r: bool)
    ensures
        r == is_acknowledgement(msg@),
{
    match str_of(msg.get("CommuniqueType")) {
        Some(kind) => text::same(kind, "SubscribeResponse"),
        None => false,
    }
}

/// The first message that is no acknowledgement, or null.
pub fn first_answer(msgs: &Vec<Json>) -> (r: Json)
    ensures
        r@ == answer(msgs.deep_view()),
{
    let mut i: usize = 0;
    assert(msgs.deep_view().skip(0) =~= msgs.deep_view());
    while i < msgs.len()
        invariant
            i <= msgs@.len(),
            answer(msgs.deep_view()) == answer(msgs.deep_view().skip(i as int)),
        decreases msgs@.len() - i,
    {
        assert(msgs.deep_view().skip(i as int)[0] == msgs@[i as int]@);
        if !acknowledges(&msgs[i]) {
            return msgs[i].clone();
        }
        assert(msgs.deep_view().skip(i as int).drop_first() =~= msgs.deep_view().skip(i + 1));
        i += 1;
    }
    Json::Null
}

/// The reply to what was asked, as opposed to what the bridge volunteered.
///
/// A bridge answers with an unsolicited acknowledgement or two ahead of the actual reply. Taking
/// the first object instead would silently hand back an acknowledgement.
pub fn leap_answer(received: &str) -> (r: Json)
    ensures
        r@ == answer(messages(received@)),
{
    first_answer(&leap_objects(received))
}

/// What is written to the connection for a message.
pub open spec fn transmission(msg: JsonView) -> HostCallView {
    HostCallView::Tx { control: NET, data: vstd::utf8::encode_utf8(framed(msg)) }
}

/// Write a message to the driver's own connection.
pub fn tx(msg: &Json) -> (r: HostCall)
    ensures
        r.deep_view() == transmission(msg@),
{
    let line = leap_line(msg);
    HostCall::Tx { control: NET, data: line.as_str().as_bytes_vec() }
}

} // verus!
