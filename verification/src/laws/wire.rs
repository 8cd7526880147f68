//! Laws of the wire: lines, answers and requests.

use crate::codec;
use crate::framing;
use crate::json::JsonView;
use crate::messages;
use crate::text;
use vstd::prelude::*;

verus! {

/// What was received before a line break and what was received after it are read apart: no
/// message of either is lost, joined to another or made up, wherever the break stands.
pub proof fn law_lines_are_read_apart(before: Seq<char>, after: Seq<char>)
    ensures
        framing::messages(before.push('\n') + after) == framing::messages(before)
            + framing::messages(after),
    decreases before.len(),
{
    let whole = before.push('\n') + after;
    text::lemma_line_length_bound(before);
    let n = text::line_length(before) as int;
    lemma_same_line(before, after);
    assert(whole.take(n) =~= before.take(n));
    if n < before.len() {
        assert(whole.skip(n + 1) =~= before.skip(n + 1).push('\n') + after);
        law_lines_are_read_apart(before.skip(n + 1), after);
        let first = framing::line_message(before.take(n));
        let middle = framing::messages(before.skip(n + 1));
        assert(first + (middle + framing::messages(after)) =~= first + middle
            + framing::messages(after));
    } else {
        assert(before.take(n) =~= before);
        assert(whole.skip(n + 1) =~= after);
    }
}

proof fn lemma_same_line(before: Seq<char>, after: Seq<char>)
    ensures
        text::line_length(before.push('\n') + after) == text::line_length(before),
    decreases before.len(),
{
    let whole = before.push('\n') + after;
    if before.len() > 0 && before[0] != '\n' {
        assert(whole.drop_first() =~= before.drop_first().push('\n') + after);
        lemma_same_line(before.drop_first(), after);
    }
}

/// Whatever arrives, each message in it is an object: a line that holds anything else is junk.
pub proof fn law_every_message_is_an_object(received: Seq<char>)
    ensures
        forall|i: int|
            0 <= i < framing::messages(received).len() ==> (#[trigger] framing::messages(
                received,
            )[i]) is Object,
    decreases received.len(),
{
    let n = text::line_length(received) as int;
    if n < received.len() {
        law_every_message_is_an_object(received.skip(n + 1));
    }
}

/// Some texts one after the other.
pub open spec fn in_a_row(parts: Seq<Seq<char>>) -> Seq<char>
    decreases parts.len(),
{
    if parts.len() == 0 {
        Seq::empty()
    } else {
        in_a_row(parts.drop_last()) + parts.last()
    }
}

/// Whole lines and what follows them are read apart.
pub proof fn law_whole_lines_are_read_apart(lines: Seq<char>, after: Seq<char>)
    requires
        lines.len() > 0 ==> lines.last() == '\n',
    ensures
        framing::messages(lines + after) == framing::messages(lines) + framing::messages(after),
{
    lemma_nothing_received();
    if lines.len() == 0 {
        assert(lines + after =~= after);
        assert(lines =~= Seq::<char>::empty());
    } else {
        let before = lines.drop_last();
        let none = Seq::<char>::empty();
        assert(lines + after =~= before.push('\n') + after);
        assert(lines =~= before.push('\n') + none);
        law_lines_are_read_apart(before, after);
        law_lines_are_read_apart(before, none);
        assert(framing::messages(lines) =~= framing::messages(before));
    }
    assert(Seq::<JsonView>::empty() + framing::messages(after) =~= framing::messages(after));
}

proof fn lemma_row_of_lines(lines: Seq<Seq<char>>)
    requires
        forall|i: int|
            0 <= i < lines.len() ==> (#[trigger] lines[i]).len() > 0 && lines[i].last() == '\n',
    ensures
        in_a_row(lines).len() > 0 ==> in_a_row(lines).last() == '\n',
{
    if lines.len() > 0 {
        assert(lines[lines.len() - 1] == lines.last());
    }
}

/// Lines that each hold one message, sent one after the other, are read as those messages, each
/// once and in their order.
pub proof fn law_a_conversation_is_read_back(lines: Seq<Seq<char>>, msgs: Seq<JsonView>)
    requires
        lines.len() == msgs.len(),
        forall|i: int|
            0 <= i < lines.len() ==> (#[trigger] lines[i]).len() > 0 && lines[i].last() == '\n'
                && framing::messages(lines[i]) == seq![msgs[i]],
    ensures
        framing::messages(in_a_row(lines)) == msgs,
    decreases lines.len(),
{
    if lines.len() == 0 {
        lemma_nothing_received();
    } else {
        let sooner = lines.drop_last();
        let line = lines[lines.len() - 1];
        let n = msgs.len() - 1;
        assert forall|i: int| 0 <= i < sooner.len() implies (#[trigger] sooner[i]).len() > 0
            && sooner[i].last() == '\n' && framing::messages(sooner[i]) == seq![
            msgs.drop_last()[i],
        ] by {
            assert(sooner[i] == lines[i]);
        }
        law_a_conversation_is_read_back(sooner, msgs.drop_last());
        lemma_row_of_lines(sooner);
        law_whole_lines_are_read_apart(in_a_row(sooner), line);
        assert(framing::messages(line) == seq![msgs[n]]);
        assert(msgs.drop_last() + seq![msgs[n]] =~= msgs);
    }
}

/// A message that stands on a line of its own is the answer, whatever stands on later lines, and
/// whatever stood on earlier ones that was junk or acknowledged something.
pub proof fn law_an_answer_is_found_among_noise(
    noise: Seq<char>,
    line: Seq<char>,
    rest: Seq<char>,
    msg: JsonView,
)
    requires
        framing::is_noise(noise),
        line.len() > 0,
        line.last() == '\n',
        framing::messages(line) == seq![msg],
        !framing::is_acknowledgement(msg),
    ensures
        framing::answer(framing::messages(noise + line + rest)) == msg,
{
    let acks = framing::messages(noise);
    let after = framing::messages(rest);
    law_whole_lines_are_read_apart(noise, line);
    law_whole_lines_are_read_apart(noise + line, rest);
    let told = seq![msg] + after;
    assert(acks + seq![msg] + after =~= acks + told);
    law_acknowledgements_are_read_past(acks, told);
    assert(told[0] == msg);
}

proof fn lemma_nothing_received()
    ensures
        framing::messages(Seq::empty()) == Seq::<JsonView>::empty(),
{
    let none = Seq::<char>::empty();
    assert(text::trimmed(none) =~= none);
}

/// The answer is never an acknowledgement: it is the first message that is none, and null where
/// every message is one.
pub proof fn law_an_answer_is_no_acknowledgement(msgs: Seq<JsonView>)
    ensures
        !framing::is_acknowledgement(framing::answer(msgs)),
        (forall|i: int| 0 <= i < msgs.len() ==> framing::is_acknowledgement(#[trigger] msgs[i]))
            ==> framing::answer(msgs) == JsonView::Null,
        forall|k: int|
            0 <= k < msgs.len() && !framing::is_acknowledgement(#[trigger] msgs[k]) && (forall|i: int|
                0 <= i < k ==> framing::is_acknowledgement(#[trigger] msgs[i]))
                ==> framing::answer(msgs) == msgs[k],
    decreases msgs.len(),
{
    if msgs.len() > 0 && framing::is_acknowledgement(msgs[0]) {
        let rest = msgs.drop_first();
        law_an_answer_is_no_acknowledgement(rest);
        assert forall|k: int|
            0 <= k < msgs.len() && !framing::is_acknowledgement(#[trigger] msgs[k]) && (forall|i: int|
                0 <= i < k ==> framing::is_acknowledgement(
                    #[trigger] msgs[i],
                )) implies framing::answer(msgs) == msgs[k] by {
            assert(rest[k - 1] == msgs[k]);
            assert forall|i: int| 0 <= i < k - 1 implies framing::is_acknowledgement(
                #[trigger] rest[i],
            ) by {
                assert(rest[i] == msgs[i + 1]);
            }
        }
        if forall|i: int| 0 <= i < msgs.len() ==> framing::is_acknowledgement(#[trigger] msgs[i]) {
            assert forall|i: int| 0 <= i < rest.len() implies framing::is_acknowledgement(
                #[trigger] rest[i],
            ) by {
                assert(rest[i] == msgs[i + 1]);
            }
        }
    }
}

/// However many acknowledgements come first, the answer is what it would be without them.
pub proof fn law_acknowledgements_are_read_past(acks: Seq<JsonView>, msgs: Seq<JsonView>)
    requires
        forall|i: int| 0 <= i < acks.len() ==> framing::is_acknowledgement(#[trigger] acks[i]),
    ensures
        framing::answer(acks + msgs) == framing::answer(msgs),
    decreases acks.len(),
{
    if acks.len() == 0 {
        assert(acks + msgs =~= msgs);
    } else {
        let rest = acks.drop_first();
        assert((acks + msgs)[0] == acks[0]);
        assert((acks + msgs).drop_first() =~= rest + msgs);
        assert forall|i: int| 0 <= i < rest.len() implies framing::is_acknowledgement(
            #[trigger] rest[i],
        ) by {
            assert(rest[i] == acks[i + 1]);
        }
        law_acknowledgements_are_read_past(rest, msgs);
    }
}

proof fn lemma_no_members(depth: nat)
    requires
        depth > 0,
    ensures
        codec::is_shallow(JsonView::Object(Map::empty()), depth),
{
}

proof fn lemma_one_more_member(
    members: Map<Seq<char>, JsonView>,
    name: Seq<char>,
    value: JsonView,
    depth: nat,
)
    requires
        depth > 0,
        codec::is_shallow(JsonView::Object(members), depth),
        codec::is_shallow(value, (depth - 1) as nat),
    ensures
        codec::is_shallow(JsonView::Object(members.insert(name, value)), depth),
{
    let whole = JsonView::Object(members);
    assert(forall|key: Seq<char>|
        whole->Object_0.contains_key(key) ==> codec::is_shallow(
            #[trigger] whole->Object_0[key],
            (depth - 1) as nat,
        ));
    let more = members.insert(name, value);
    assert forall|key: Seq<char>| more.contains_key(key) implies codec::is_shallow(
        #[trigger] more[key],
        (depth - 1) as nat,
    ) by {
        if key != name {
            assert(more[key] == whole->Object_0[key]);
        }
    }
}

proof fn lemma_one_member(a: Seq<char>, x: JsonView, depth: nat)
    requires
        depth > 0,
        codec::is_shallow(x, (depth - 1) as nat),
    ensures
        codec::is_shallow(JsonView::Object(map![a => x]), depth),
{
    lemma_no_members(depth);
    lemma_one_more_member(Map::empty(), a, x, depth);
}

proof fn lemma_two_members(a: Seq<char>, x: JsonView, b: Seq<char>, y: JsonView, depth: nat)
    requires
        depth > 0,
        codec::is_shallow(x, (depth - 1) as nat),
        codec::is_shallow(y, (depth - 1) as nat),
    ensures
        codec::is_shallow(JsonView::Object(map![a => x, b => y]), depth),
{
    lemma_one_member(a, x, depth);
    lemma_one_more_member(map![a => x], b, y, depth);
}

proof fn lemma_three_members(
    a: Seq<char>,
    x: JsonView,
    b: Seq<char>,
    y: JsonView,
    c: Seq<char>,
    z: JsonView,
    depth: nat,
)
    requires
        depth > 0,
        codec::is_shallow(x, (depth - 1) as nat),
        codec::is_shallow(y, (depth - 1) as nat),
        codec::is_shallow(z, (depth - 1) as nat),
    ensures
        codec::is_shallow(JsonView::Object(map![a => x, b => y, c => z]), depth),
{
    lemma_two_members(a, x, b, y, depth);
    lemma_one_more_member(map![a => x, b => y], c, z, depth);
}

/// Whether a message comes back from its own line as the answer.
pub open spec fn reads_back(msg: JsonView) -> bool {
    framing::is_readable(msg) && !framing::is_acknowledgement(msg)
}

proof fn lemma_communiques()
    ensures
        "ReadRequest"@.len() == 11,
        "SubscribeRequest"@.len() == 16,
        "CreateRequest"@.len() == 13,
        "SubscribeResponse"@.len() == 17,
        "CommuniqueType"@.len() == 14,
        "Header"@.len() == 6,
        "Body"@.len() == 4,
{
    reveal_strlit("ReadRequest");
    reveal_strlit("SubscribeRequest");
    reveal_strlit("CreateRequest");
    reveal_strlit("SubscribeResponse");
    reveal_strlit("CommuniqueType");
    reveal_strlit("Header");
    reveal_strlit("Body");
}

proof fn lemma_command(href: Seq<char>, command: JsonView)
    requires
        codec::is_shallow(command, 125),
    ensures
        reads_back(messages::command_view(href, command)),
{
    lemma_communiques();
    lemma_one_member("Url"@, JsonView::Text(href + "/commandprocessor"@), 126);
    lemma_one_member("Command"@, command, 126);
    lemma_three_members(
        "CommuniqueType"@,
        JsonView::Text("CreateRequest"@),
        "Header"@,
        JsonView::Object(map!["Url"@ => JsonView::Text(href + "/commandprocessor"@)]),
        "Body"@,
        JsonView::Object(map!["Command"@ => command]),
        127,
    );
}

/// Every request to read something and every request to keep hearing about it reads back.
pub proof fn law_requests_read_back(url: Seq<char>)
    ensures
        reads_back(messages::read_view(url)),
        reads_back(messages::subscribe_view(url)),
{
    lemma_communiques();
    let header = JsonView::Object(map!["Url"@ => JsonView::Text(url)]);
    lemma_one_member("Url"@, JsonView::Text(url), 126);
    lemma_two_members(
        "CommuniqueType"@,
        JsonView::Text("ReadRequest"@),
        "Header"@,
        header,
        127,
    );
    lemma_two_members(
        "CommuniqueType"@,
        JsonView::Text("SubscribeRequest"@),
        "Header"@,
        header,
        127,
    );
}

/// Every command that a zone or a scene is sent reads back.
pub proof fn law_commands_read_back(
    href: Seq<char>,
    level: u8,
    fade_secs: u64,
    word: Seq<char>,
)
    ensures
        reads_back(messages::dim_view(href, level, fade_secs)),
        reads_back(messages::level_view(href, level)),
        reads_back(messages::fan_view(href, word)),
        reads_back(messages::verb_view(href, word)),
        reads_back(messages::tilt_view(href, level)),
{
    let amount = JsonView::Unsigned(level as u64);
    let fade = JsonView::Text(messages::clock(fade_secs as nat));
    let kind = "CommandType"@;
    let dimmed = JsonView::Object(map!["Level"@ => amount, "FadeTime"@ => fade]);
    lemma_two_members("Level"@, amount, "FadeTime"@, fade, 124);
    lemma_two_members(
        kind,
        JsonView::Text("GoToDimmedLevel"@),
        "DimmedLevelParameters"@,
        dimmed,
        125,
    );
    let level_type = JsonView::Text("Level"@);
    let parameter = JsonView::Object(map!["Type"@ => level_type, "Value"@ => amount]);
    lemma_two_members("Type"@, level_type, "Value"@, amount, 123);
    let parameters = JsonView::Array(seq![parameter]);
    assert(codec::is_shallow(parameters, 124));
    lemma_two_members(kind, JsonView::Text("GoToLevel"@), "Parameter"@, parameters, 125);
    let speed = JsonView::Object(map!["FanSpeed"@ => JsonView::Text(word)]);
    lemma_one_member("FanSpeed"@, JsonView::Text(word), 124);
    lemma_two_members(kind, JsonView::Text("GoToFanSpeed"@), "FanSpeedParameters"@, speed, 125);
    lemma_one_member(kind, JsonView::Text(word), 125);
    let tilt = JsonView::Object(map!["Tilt"@ => amount]);
    lemma_one_member("Tilt"@, amount, 124);
    lemma_two_members(kind, JsonView::Text("GoToTilt"@), "TiltParameters"@, tilt, 125);
    lemma_command(
        href,
        JsonView::Object(
            map![kind => JsonView::Text("GoToDimmedLevel"@), "DimmedLevelParameters"@ => dimmed],
        ),
    );
    lemma_command(
        href,
        JsonView::Object(
            map![kind => JsonView::Text("GoToLevel"@), "Parameter"@ => parameters],
        ),
    );
    lemma_command(
        href,
        JsonView::Object(
            map![kind => JsonView::Text("GoToFanSpeed"@), "FanSpeedParameters"@ => speed],
        ),
    );
    lemma_command(href, JsonView::Object(map![kind => JsonView::Text(word)]));
    lemma_command(
        href,
        JsonView::Object(
            map![kind => JsonView::Text("GoToTilt"@), "TiltParameters"@ => tilt],
        ),
    );
}

/// The request to sign a certificate reads back.
pub proof fn law_the_signing_request_reads_back(csr: Seq<char>)
    ensures
        reads_back(messages::signing_view(csr)),
{
    lemma_communiques();
    let name = JsonView::Text("Juno"@);
    let uid = JsonView::Text("000000000000"@);
    let three = map!["CSR"@ => JsonView::Text(csr), "DisplayName"@ => name, "DeviceUID"@ => uid];
    lemma_three_members(
        "CSR"@,
        JsonView::Text(csr),
        "DisplayName"@,
        name,
        "DeviceUID"@,
        uid,
        125,
    );
    let parameters = JsonView::Object(three.insert("Role"@, JsonView::Text("Admin"@)));
    lemma_one_more_member(three, "Role"@, JsonView::Text("Admin"@), 125);
    lemma_two_members(
        "CommandType"@,
        JsonView::Text("CSR"@),
        "Parameters"@,
        parameters,
        126,
    );
    lemma_three_members(
        "RequestType"@,
        JsonView::Text("Execute"@),
        "Url"@,
        JsonView::Text("/pair"@),
        "ClientTag"@,
        JsonView::Text("get-cert"@),
        126,
    );
    let header = JsonView::Object(
        map![
            "RequestType"@ => JsonView::Text("Execute"@),
            "Url"@ => JsonView::Text("/pair"@),
            "ClientTag"@ => JsonView::Text("get-cert"@),
        ],
    );
    let body = JsonView::Object(
        map!["CommandType"@ => JsonView::Text("CSR"@), "Parameters"@ => parameters],
    );
    lemma_two_members("Header"@, header, "Body"@, body, 127);
}

} // verus!
