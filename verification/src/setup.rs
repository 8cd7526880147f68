//! The setup flow: pairing a bridge, then listing what is behind it.
//!
//! The controller keeps a state between the steps, plain JSON that only this flow reads. Each
//! step takes the state and what came of the step before, and says what to do next.

use crate::codec;
use crate::device::CasetaLeap;
use crate::framing::{self, leap_answer, leap_line, leap_objects};
use crate::host::{Connect, ConnectView, Field, FieldView, SetupStep, SetupStepView};
use crate::json::{
    self, array, items_copied, str_of, str_or_empty, string, u64_of, Dict, Json, JsonView,
};
use crate::messages::{self, joined, read_request, signing_request};
use crate::tables::{LEAP_PORT, PAIR_PORT, PAIR_WAIT_SECS};
use crate::text::{self, empty_text};
use vstd::prelude::*;

verus! {

/// The text under `key` in the state, or nothing.
pub open spec fn noted(state: JsonView, key: Seq<char>) -> Seq<char> {
    json::text_or_empty(state.get(key))
}

/// Members with a few texts set, one after the other.
pub open spec fn overlaid(
    members: Map<Seq<char>, JsonView>,
    updates: Seq<(Seq<char>, Seq<char>)>,
) -> Map<Seq<char>, JsonView>
    decreases updates.len(),
{
    if updates.len() == 0 {
        members
    } else {
        overlaid(members, updates.drop_last()).insert(
            updates.last().0,
            JsonView::Text(updates.last().1),
        )
    }
}

/// The members of the state. A state that is no object has none.
pub open spec fn members_of(state: JsonView) -> Map<Seq<char>, JsonView> {
    match state {
        JsonView::Object(m) => m,
        _ => Map::empty(),
    }
}

/// The state with a few texts set and everything else kept.
pub open spec fn merged(state: JsonView, updates: Seq<(Seq<char>, Seq<char>)>) -> JsonView {
    JsonView::Object(overlaid(members_of(state), updates))
}

/// The text under `key` in the state, or nothing.
pub fn field(state: &Json, key: &str) -> (r: String)
    ensures
        r@ == noted(state@, key@),
{
    str_or_empty(state.get(key)).to_owned()
}

/// The same, for what the controller handed back.
pub fn field_of(input: &Dict, key: &str) -> (r: String)
    ensures
        r@ == json::text_or_empty(json::find(input@, key@)),
{
    str_or_empty(input.get(key)).to_owned()
}

/// Set a few texts in the state and keep everything else.
pub fn with_fields(state: &Json, updates: &[(&str, &str)]) -> (r: Json)
    ensures
        r@ == merged(state@, updates.deep_view()),
{
    let ghost all = updates.deep_view();
    let mut m = match state.as_object() {
        Some(m) => m.clone(),
        None => Dict::new(),
    };
    let ghost start = m@;
    let mut i: usize = 0;
    assert(all.take(0) =~= Seq::<(Seq<char>, Seq<char>)>::empty());
    while i < updates.len()
        invariant
            i <= updates@.len(),
            all == updates.deep_view(),
            m@ == overlaid(start, all.take(i as int)),
        decreases updates@.len() - i,
    {
        proof {
            assert(all.take(i + 1).drop_last() =~= all.take(i as int));
            assert(all.take(i + 1).last() == (updates@[i as int].0@, updates@[i as int].1@));
        }
        m.insert(updates[i].0, string(updates[i].1));
        i += 1;
    }
    assert(all.take(i as int) =~= all);
    Json::Object(m)
}

/// The state with a row of values kept under `key`.
pub open spec fn carrying(state: JsonView, key: Seq<char>, items: Seq<JsonView>) -> JsonView {
    JsonView::Object(members_of(state).insert(key, JsonView::Array(items)))
}

/// Keep a row of values in the state.
pub fn carry(state: &Json, key: &str, items: Vec<Json>) -> (r: Json)
    ensures
        r@ == carrying(state@, key@, items.deep_view()),
{
    let mut m = match state.as_object() {
        Some(m) => m.clone(),
        None => Dict::new(),
    };
    m.insert(key, array(items));
    Json::Object(m)
}

/// The connection that the controller holds for this flow, by its number.
pub open spec fn session_of(input: Map<Seq<char>, JsonView>) -> Option<u32> {
    match json::unsigned_of(json::find(input, "session"@)) {
        Some(n) => Some((n % 0x1_0000_0000) as u32),
        None => None,
    }
}

/// The connection that the controller holds for this flow.
pub fn session(input: &Dict) -> (r: Option<u32>)
    ensures
        r == session_of(input@),
{
    match u64_of(input.get("session")) {
        Some(n) => Some((n % 0x1_0000_0000) as u32),
        None => None,
    }
}

/// What arrived on the connection, or nothing.
pub open spec fn received_in(input: Map<Seq<char>, JsonView>) -> Seq<char> {
    json::text_or_empty(json::find(input, "received"@))
}

/// What went wrong with the step before, if it says so.
pub open spec fn trouble_in(input: Map<Seq<char>, JsonView>) -> Option<Seq<char>> {
    json::text_of(json::find(input, "error"@))
}

/// A number that is kept as text in the state. Anything that is no number is zero.
pub open spec fn count_in(state: JsonView, key: Seq<char>) -> u32 {
    match text::spelled(noted(state, key), u32::MAX as nat) {
        Some(n) => n as u32,
        None => 0,
    }
}

/// A number that is kept as text in the state.
pub fn count(state: &Json, key: &str) -> (r: u32)
    ensures
        r == count_in(state@, key@),
{
    match text::parse_unsigned(str_or_empty(state.get(key)), u32::MAX as u64) {
        Some(n) => n as u32,
        None => 0,
    }
}

/// The end of the flow, with the reason.
pub open spec fn failing(reason: Seq<char>) -> (SetupStepView, JsonView) {
    (SetupStepView::Failed { reason }, JsonView::Null)
}

/// The end of the flow, with the reason.
pub fn failed(reason: String) -> (r: (SetupStep, Json))
    ensures
        (r.0@, r.1@) == failing(reason@),
{
    (SetupStep::Failed { reason }, Json::Null)
}

/// Something to read before going on.
pub open spec fn instruction(title: Seq<char>, body: Seq<char>) -> SetupStepView {
    SetupStepView::Instruct { title, body, continue_label: "Continue"@ }
}

/// Something to read before going on.
pub fn instruct(title: &str, body: &str) -> (r: SetupStep)
    ensures
        r@ == instruction(title@, body@),
{
    SetupStep::Instruct {
        title: title.to_owned(),
        body: body.to_owned(),
        continue_label: "Continue".to_owned(),
    }
}

/// Listen on the connection that is open, without asking anything.
pub open spec fn listening(session: Option<u32>, read_ms: u32, note: Seq<char>) -> SetupStepView {
    SetupStepView::Session {
        session,
        open: None,
        send: Seq::empty(),
        read_ms,
        close: false,
        note,
    }
}

/// Listen on the connection that is open, without asking anything.
pub fn listen(session: Option<u32>, read_ms: u32, note: &str) -> (r: SetupStep)
    ensures
        r@ == listening(session, read_ms, note@),
{
    SetupStep::Session {
        session,
        open: None,
        send: empty_text(),
        read_ms,
        close: false,
        note: note.to_owned(),
    }
}

// Finding the bridge.

/// The name and the address of a bridge that was found on the network, where it has both.
pub open spec fn bridge_found(entry: JsonView) -> Seq<(Seq<char>, Seq<char>)> {
    match (json::text_of(entry.get("name"@)), json::text_of(entry.get("address"@))) {
        (Some(name), Some(address)) => seq![(name, address)],
        _ => Seq::empty(),
    }
}

/// The bridges among some entries, in their order.
pub open spec fn bridges_among(entries: Seq<JsonView>) -> Seq<(Seq<char>, Seq<char>)>
    decreases entries.len(),
{
    if entries.len() == 0 {
        Seq::empty()
    } else {
        bridges_among(entries.drop_last()) + bridge_found(entries.last())
    }
}

/// The bridges that were found on the network before the flow began.
pub open spec fn bridges_found(state: JsonView) -> Seq<(Seq<char>, Seq<char>)> {
    bridges_among(json::items_or_empty(state.get("mdns_candidates"@)))
}

/// The bridges that were found on the network before the flow began: name and address.
pub fn mdns_candidates(state: &Json) -> (r: Vec<(String, String)>)
    ensures
        r.deep_view() == bridges_found(state@),
{
    let entries = items_copied(state.get("mdns_candidates"));
    let ghost all = entries.deep_view();
    let mut out: Vec<(String, String)> = Vec::new();
    let mut i: usize = 0;
    proof {
        assert(all.take(0) =~= Seq::<JsonView>::empty());
        assert(out.deep_view() =~= Seq::<(Seq<char>, Seq<char>)>::empty());
    }
    while i < entries.len()
        invariant
            i <= entries@.len(),
            all == entries.deep_view(),
            out.deep_view() == bridges_among(all.take(i as int)),
        decreases entries@.len() - i,
    {
        let ghost before = out.deep_view();
        let entry = &entries[i];
        match (str_of(entry.get("name")), str_of(entry.get("address"))) {
            (Some(name), Some(address)) => {
                out.push((name.to_owned(), address.to_owned()));
                assert(out.deep_view() =~= before.push((name@, address@)));
            },
            _ => {},
        }
        proof {
            assert(all.take(i + 1).drop_last() =~= all.take(i as int));
            assert(all.take(i + 1).last() == entry@);
            assert(out.deep_view() =~= before + bridge_found(entry@));
        }
        i += 1;
    }
    assert(all.take(i as int) =~= all);
    out
}

/// What the form says where no bridge was found.
pub const ENTER_ADDRESS: &'static str =
    "Enter the bridge's IP address. You'll be asked to press the button on the bridge next.";

/// What the form says behind the bridges that were found.
pub const PICK_ADDRESS: &'static str =
    " on the network — pick the right one, or type an address. You'll be asked to press the button on the bridge next.";

/// How the bridges that were found are shown.
pub open spec fn shown(found: Seq<(Seq<char>, Seq<char>)>) -> Seq<Seq<char>> {
    Seq::new(found.len(), |i: int| found[i].0 + " ("@ + found[i].1 + ")"@)
}

/// What the form says.
pub open spec fn address_help(found: Seq<(Seq<char>, Seq<char>)>) -> Seq<char> {
    if found.len() == 0 {
        ENTER_ADDRESS@
    } else {
        "Found "@ + text::separated(shown(found), ", "@) + PICK_ADDRESS@
    }
}

/// The form that asks where the bridge is.
pub open spec fn address_form(found: Seq<(Seq<char>, Seq<char>)>) -> SetupStepView {
    SetupStepView::Form {
        title: "Pair a Caséta Smart Bridge"@,
        body: address_help(found),
        fields: seq![
            FieldView {
                name: "Bridge address"@,
                label: "Bridge IP address"@,
                kind: "string"@,
                help: "e.g. 192.168.1.50"@,
                default: if found.len() == 0 {
                    None
                } else {
                    Some(JsonView::Text(found[0].1))
                },
                options: Seq::empty(),
                required: true,
            },
        ],
    }
}

/// What somebody typed as the bridge's address.
pub open spec fn typed_address(input: Map<Seq<char>, JsonView>) -> Seq<char> {
    text::trimmed(json::text_or_empty(json::find(input, "Bridge address"@)))
}

/// Pairing begins with the bridge at an address: an identity is made for it.
pub open spec fn pairing_with(state: JsonView, address: Seq<char>) -> (SetupStepView, JsonView) {
    (
        SetupStepView::MakeIdentity { common_name: "juno"@, note: Seq::empty() },
        merged(state, seq![("stage"@, "making_identity"@), ("address"@, address)]),
    )
}

/// The first step: the address that was typed, or the only bridge that was found, or a form.
pub open spec fn address_asked(state: JsonView, input: Map<Seq<char>, JsonView>) -> (
    SetupStepView,
    JsonView,
) {
    let typed = typed_address(input);
    let found = bridges_found(state);
    if typed.len() > 0 {
        pairing_with(state, typed)
    } else if found.len() == 1 {
        pairing_with(state, found[0].1)
    } else {
        (address_form(found), state)
    }
}

fn show(found: &Vec<(String, String)>) -> (r: String)
    ensures
        r@ == text::separated(shown(found.deep_view()), ", "@),
{
    let ghost all = shown(found.deep_view());
    let mut out = empty_text();
    let mut i: usize = 0;
    assert(all.take(0) =~= Seq::<Seq<char>>::empty());
    while i < found.len()
        invariant
            i <= found@.len(),
            all == shown(found.deep_view()),
            out@ == text::separated(all.take(i as int), ", "@),
        decreases found@.len() - i,
    {
        if i > 0 {
            out.append(", ");
        }
        let ghost before = out@;
        out.append(found[i].0.as_str());
        out.append(" (");
        out.append(found[i].1.as_str());
        out.append(")");
        proof {
            assert(all.take(i + 1).drop_last() =~= all.take(i as int));
            assert(all.take(i + 1).last() == all[i as int]);
            assert(out@ =~= before + all[i as int]);
            assert(i == 0 ==> out@ =~= all[i as int]);
        }
        i += 1;
    }
    assert(all.take(i as int) =~= all);
    out
}

fn form(found: &Vec<(String, String)>) -> (r: SetupStep)
    ensures
        r@ == address_form(found.deep_view()),
{
    let body = if found.len() == 0 {
        ENTER_ADDRESS.to_owned()
    } else {
        let list = show(found);
        let mut body = joined("Found ", list.as_str());
        body.append(PICK_ADDRESS);
        body
    };
    let default: Option<Json> = if found.len() == 0 {
        None
    } else {
        Some(string(found[0].1.as_str()))
    };
    let options: Vec<String> = Vec::new();
    assert(options.deep_view() =~= Seq::<Seq<char>>::empty());
    let fields: Vec<Field> = vec![
        Field {
            name: "Bridge address".to_owned(),
            label: "Bridge IP address".to_owned(),
            kind: "string".to_owned(),
            help: "e.g. 192.168.1.50".to_owned(),
            default,
            options,
            required: true,
        },
    ];
    let r = SetupStep::Form { title: "Pair a Caséta Smart Bridge".to_owned(), body, fields };
    assert(fields.deep_view() =~= address_form(found.deep_view())->fields);
    r
}

impl CasetaLeap {
    /// Where the bridge is: what somebody typed, or the one bridge that answered on the network,
    /// or a form to type it in.
    pub fn ask_address(state: &Json, input: &Dict) -> (r: (SetupStep, Json))
        ensures
            (r.0@, r.1@) == address_asked(state@, input@),
    {
        let typed = text::trim(str_or_empty(input.get("Bridge address")));
        let found = mdns_candidates(state);
        if !typed.is_empty() {
            return Self::begin_pairing(state, typed);
        }
        if found.len() == 1 {
            return Self::begin_pairing(state, found[0].1.as_str());
        }
        (form(&found), state.clone())
    }

    /// Ask for an identity to pair with, and remember where the bridge is.
    pub fn begin_pairing(state: &Json, addr: &str) -> (r: (SetupStep, Json))
        ensures
            (r.0@, r.1@) == pairing_with(state@, addr@),
    {
        let updates = [("stage", "making_identity"), ("address", addr)];
        assert(updates.deep_view() =~= seq![("stage"@, "making_identity"@), ("address"@, addr@)]);
        (
            SetupStep::MakeIdentity { common_name: "juno".to_owned(), note: empty_text() },
            with_fields(state, &updates),
        )
    }
}

// Pairing.

/// What somebody reads before pairing.
pub const PRESS_NOW: &'static str =
    "When you continue, this connects to the bridge and waits up to 30 seconds for it to confirm its button was pressed — so press and release the small button on top of the Caséta Smart Bridge right as you continue, not before.";

/// What somebody reads behind what went wrong with pairing.
pub const PRESS_AGAIN: &'static str =
    " — press the button on the bridge right when you continue (the bridge only recognizes a press while a client is connected and waiting), then continue.";

/// What somebody reads where the button was not pressed in time.
pub const NO_PRESS: &'static str =
    "The bridge did not report a press. Continue and press the button on the front of the bridge as soon as the next screen appears.";

/// The certificate and the key that every client shows a bridge that it has not paired with yet.
/// They are published, and let a client ask to be paired and nothing else.
#[derive(Debug)]
pub struct PairingIdentity {
    pub cert_pem: String,
    pub key_pem: String,
}

/// An identity came back, or did not.
pub open spec fn identity_answered(state: JsonView, input: Map<Seq<char>, JsonView>) -> (
    SetupStepView,
    JsonView,
) {
    let key = json::text_or_empty(json::find(input, "key_pem"@));
    let csr = json::text_or_empty(json::find(input, "csr_pem"@));
    let why = json::text_or_empty(json::find(input, "error"@));
    if key.len() == 0 || csr.len() == 0 {
        if why.len() == 0 {
            failing("could not generate a pairing key"@)
        } else {
            failing("could not generate a pairing key: "@ + why)
        }
    } else {
        (
            instruction("Ready to pair"@, PRESS_NOW@),
            merged(
                state,
                seq![("stage"@, "ready_to_pair"@), ("key_pem"@, key), ("csr_pem"@, csr)],
            ),
        )
    }
}

/// The pairing connection is opened and listened to, and nothing is sent.
pub open spec fn pairing_opened(state: JsonView, cert_pem: Seq<char>, key_pem: Seq<char>) -> (
    SetupStepView,
    JsonView,
) {
    (
        SetupStepView::Session {
            session: None,
            open: Some(
                ConnectView {
                    address: noted(state, "address"@),
                    port: PAIR_PORT,
                    cert_pem,
                    key_pem,
                },
            ),
            send: Seq::empty(),
            read_ms: 1000,
            close: false,
            note: "pair"@,
        },
        merged(state, seq![("stage"@, "pairing"@), ("waited"@, "0"@)]),
    )
}

/// Whether a message says that somebody pressed the bridge's button.
pub open spec fn announces_press(msg: JsonView) -> bool {
    json::items_or_empty(msg.get3("Body"@, "Status"@, "Permissions"@)).contains(
        JsonView::Text("PhysicalAccess"@),
    )
}

/// Whether any of some messages says that somebody pressed the bridge's button.
pub open spec fn any_press(msgs: Seq<JsonView>) -> bool {
    exists|i: int| 0 <= i < msgs.len() && announces_press(#[trigger] msgs[i])
}

/// Pairing did not work out, and can be tried again.
pub open spec fn not_paired(state: JsonView, why: Seq<char>) -> (SetupStepView, JsonView) {
    (
        instruction("Not paired yet"@, why + PRESS_AGAIN@),
        merged(state, seq![("stage"@, "ready_to_pair"@)]),
    )
}

/// The signing request, down the connection that saw the press.
pub open spec fn signing_sent(state: JsonView, session: Option<u32>) -> (SetupStepView, JsonView) {
    (
        SetupStepView::Session {
            session,
            open: None,
            send: framing::framed(messages::signing_view(noted(state, "csr_pem"@))),
            read_ms: 6000,
            close: true,
            note: "pair"@,
        },
        merged(state, seq![("stage"@, "pair_sent"@)]),
    )
}

/// No press yet: another second, unless there were enough of them.
pub open spec fn press_missed(state: JsonView, session: Option<u32>) -> (SetupStepView, JsonView) {
    let waited = count_in(state, "waited"@);
    if waited >= PAIR_WAIT_SECS {
        (
            instruction("No button press"@, NO_PRESS@),
            merged(state, seq![("stage"@, "ready_to_pair"@)]),
        )
    } else {
        (
            listening(session, 1000, "pair"@),
            merged(state, seq![("waited"@, text::decimal((waited + 1) as nat))]),
        )
    }
}

/// What comes of a second of listening for the press.
pub open spec fn press_awaited(
    state: JsonView,
    input: Map<Seq<char>, JsonView>,
    msgs: Seq<JsonView>,
) -> (SetupStepView, JsonView) {
    match trouble_in(input) {
        Some(why) => not_paired(state, why),
        None => if any_press(msgs) {
            signing_sent(state, session_of(input))
        } else {
            press_missed(state, session_of(input))
        },
    }
}

/// What comes of the bridge's reply to the signing request.
pub open spec fn certificate_answered(state: JsonView, response: JsonView) -> (
    SetupStepView,
    JsonView,
) {
    let cert = json::text_or_empty(response.get3("Body"@, "SigningResult"@, "Certificate"@));
    let ca = json::text_or_empty(response.get3("Body"@, "SigningResult"@, "RootCertificate"@));
    if cert.len() == 0 || ca.len() == 0 {
        failing("the bridge answered but sent no certificate: "@ + codec::printed(response))
    } else {
        listing_begun(
            merged(state, seq![("stage"@, "listing"@), ("cert_pem"@, cert), ("ca_pem"@, ca)]),
        )
    }
}

/// What comes of the signing request.
pub open spec fn pair_answered(
    state: JsonView,
    input: Map<Seq<char>, JsonView>,
    response: JsonView,
) -> (SetupStepView, JsonView) {
    match trouble_in(input) {
        Some(why) => not_paired(state, why),
        None => certificate_answered(state, response),
    }
}

/// The text under one key in the state, or under the other where there is none.
pub open spec fn noted_either(state: JsonView, a: Seq<char>, b: Seq<char>) -> Seq<char> {
    if noted(state, a).len() == 0 {
        noted(state, b)
    } else {
        noted(state, a)
    }
}

/// Where the bridge is, and the certificate and the key that it signed.
pub open spec fn identity_of(state: JsonView) -> (Seq<char>, Seq<char>, Seq<char>) {
    (
        noted_either(state, "Address"@, "address"@),
        noted_either(state, "Client certificate"@, "cert_pem"@),
        noted_either(state, "Client key"@, "key_pem"@),
    )
}

/// The bridge is asked for its devices, down a connection that then stays open.
pub open spec fn listing_begun(state: JsonView) -> (SetupStepView, JsonView) {
    let (address, cert_pem, key_pem) = identity_of(state);
    (
        SetupStepView::Session {
            session: None,
            open: Some(ConnectView { address, port: LEAP_PORT, cert_pem, key_pem }),
            send: framing::framed(messages::read_view("/device"@)),
            read_ms: 6000,
            close: false,
            note: "list"@,
        },
        merged(state, seq![("tries"@, "0"@)]),
    )
}

/// Whether a message says that somebody pressed the bridge's button.
fn tells_press(msg: &Json) -> (r: bool)
    ensures
        r == announces_press(msg@),
{
    let permissions = items_copied(msg.get3("Body", "Status", "Permissions"));
    let ghost all = permissions.deep_view();
    let mut i: usize = 0;
    while i < permissions.len()
        invariant
            i <= permissions@.len(),
            all == permissions.deep_view(),
            all == json::items_or_empty(msg@.get3("Body"@, "Status"@, "Permissions"@)),
            forall|k: int| 0 <= k < i ==> #[trigger] all[k] != JsonView::Text("PhysicalAccess"@),
        decreases permissions@.len() - i,
    {
        assert(all[i as int] == permissions@[i as int]@);
        match permissions[i].as_str() {
            Some(s) => {
                if text::same(s, "PhysicalAccess") {
                    assert(all[i as int] == JsonView::Text("PhysicalAccess"@));
                    return true;
                }
            },
            None => {},
        }
        i += 1;
    }
    false
}

/// Whether any of some messages says that somebody pressed the bridge's button.
pub fn reports_press(msgs: &Vec<Json>) -> (r: bool)
    ensures
        r == any_press(msgs.deep_view()),
{
    let ghost all = msgs.deep_view();
    let mut i: usize = 0;
    while i < msgs.len()
        invariant
            i <= msgs@.len(),
            all == msgs.deep_view(),
            forall|k: int| 0 <= k < i ==> !announces_press(#[trigger] all[k]),
        decreases msgs@.len() - i,
    {
        assert(all[i as int] == msgs@[i as int]@);
        if tells_press(&msgs[i]) {
            return true;
        }
        i += 1;
    }
    false
}

fn retry_pairing(state: &Json, why: &str) -> (r: (SetupStep, Json))
    ensures
        (r.0@, r.1@) == not_paired(state@, why@),
{
    let body = joined(why, PRESS_AGAIN);
    let updates = [("stage", "ready_to_pair")];
    assert(updates.deep_view() =~= seq![("stage"@, "ready_to_pair"@)]);
    (instruct("Not paired yet", body.as_str()), with_fields(state, &updates))
}

fn send_signing(state: &Json, session: Option<u32>) -> (r: (SetupStep, Json))
    ensures
        (r.0@, r.1@) == signing_sent(state@, session),
{
    let csr = field(state, "csr_pem");
    let updates = [("stage", "pair_sent")];
    assert(updates.deep_view() =~= seq![("stage"@, "pair_sent"@)]);
    (
        SetupStep::Session {
            session,
            open: None,
            send: leap_line(&signing_request(csr.as_str())),
            read_ms: 6000,
            close: true,
            note: "pair".to_owned(),
        },
        with_fields(state, &updates),
    )
}

fn miss_press(state: &Json, session: Option<u32>) -> (r: (SetupStep, Json))
    ensures
        (r.0@, r.1@) == press_missed(state@, session),
{
    let waited: u32 = count(state, "waited");
    if waited >= PAIR_WAIT_SECS {
        let updates = [("stage", "ready_to_pair")];
        assert(updates.deep_view() =~= seq![("stage"@, "ready_to_pair"@)]);
        return (instruct("No button press", NO_PRESS), with_fields(state, &updates));
    }
    let next = text::to_decimal(waited as u64 + 1);
    let updates = [("waited", next.as_str())];
    assert(updates.deep_view() =~= seq![("waited"@, text::decimal((waited + 1) as nat))]);
    (listen(session, 1000, "pair"), with_fields(state, &updates))
}

/// What comes of a second of listening, for the messages that arrived in it.
pub fn on_press_awaited(state: &Json, input: &Dict, msgs: &Vec<Json>) -> (r: (SetupStep, Json))
    ensures
        (r.0@, r.1@) == press_awaited(state@, input@, msgs.deep_view()),
{
    match str_of(input.get("error")) {
        Some(why) => retry_pairing(state, why),
        None => if reports_press(msgs) {
            send_signing(state, session(input))
        } else {
            miss_press(state, session(input))
        },
    }
}

fn take_certificate(state: &Json, response: &Json) -> (r: (SetupStep, Json))
    ensures
        (r.0@, r.1@) == certificate_answered(state@, response@),
{
    let cert = str_or_empty(response.get3("Body", "SigningResult", "Certificate"));
    let ca = str_or_empty(response.get3("Body", "SigningResult", "RootCertificate"));
    if cert.is_empty() || ca.is_empty() {
        let said = codec::print(response);
        return failed(
            joined("the bridge answered but sent no certificate: ", said.as_str()),
        );
    }
    let updates = [("stage", "listing"), ("cert_pem", cert), ("ca_pem", ca)];
    assert(updates.deep_view() =~= seq![
        ("stage"@, "listing"@),
        ("cert_pem"@, cert@),
        ("ca_pem"@, ca@),
    ]);
    CasetaLeap::request_device_list(&with_fields(state, &updates))
}

/// What comes of the signing request, for the reply that the bridge made.
pub fn on_pair_answered(state: &Json, input: &Dict, response: &Json) -> (r: (SetupStep, Json))
    ensures
        (r.0@, r.1@) == pair_answered(state@, input@, response@),
{
    match str_of(input.get("error")) {
        Some(why) => retry_pairing(state, why),
        None => take_certificate(state, response),
    }
}

fn either_field(state: &Json, a: &str, b: &str) -> (r: String)
    ensures
        r@ == noted_either(state@, a@, b@),
{
    let first = field(state, a);
    if first.as_str().is_empty() {
        field(state, b)
    } else {
        first
    }
}

impl CasetaLeap {
    /// An identity was made: hold on to it and get somebody ready to press the button.
    pub fn identity_made(state: &Json, input: &Dict) -> (r: (SetupStep, Json))
        ensures
            (r.0@, r.1@) == identity_answered(state@, input@),
    {
        let key_pem = field_of(input, "key_pem");
        let csr_pem = field_of(input, "csr_pem");
        if key_pem.as_str().is_empty() || csr_pem.as_str().is_empty() {
            let why = field_of(input, "error");
            if why.as_str().is_empty() {
                return failed("could not generate a pairing key".to_owned());
            }
            return failed(joined("could not generate a pairing key: ", why.as_str()));
        }
        let updates = [
            ("stage", "ready_to_pair"),
            ("key_pem", key_pem.as_str()),
            ("csr_pem", csr_pem.as_str()),
        ];
        assert(updates.deep_view() =~= seq![
            ("stage"@, "ready_to_pair"@),
            ("key_pem"@, key_pem@),
            ("csr_pem"@, csr_pem@),
        ]);
        (instruct("Ready to pair", PRESS_NOW), with_fields(state, &updates))
    }

    /// Open the pairing connection and listen, without sending anything yet.
    ///
    /// A signing request that comes before the bridge has announced the press is rejected. So the
    /// connection is opened, held and listened to first, and it has to be the same connection
    /// afterwards, because the announcement is not repeated for a new one.
    pub fn send_pair_request(state: &Json, identity: &PairingIdentity) -> (r: (SetupStep, Json))
        ensures
            (r.0@, r.1@) == pairing_opened(state@, identity.cert_pem@, identity.key_pem@),
    {
        let updates = [("stage", "pairing"), ("waited", "0")];
        assert(updates.deep_view() =~= seq![("stage"@, "pairing"@), ("waited"@, "0"@)]);
        (
            SetupStep::Session {
                session: None,
                open: Some(
                    Connect {
                        address: field(state, "address"),
                        port: PAIR_PORT,
                        cert_pem: identity.cert_pem.as_str().to_owned(),
                        key_pem: identity.key_pem.as_str().to_owned(),
                    },
                ),
                send: empty_text(),
                read_ms: 1000,
                close: false,
                note: "pair".to_owned(),
            },
            with_fields(state, &updates),
        )
    }

    /// Whether the bridge announced that somebody pressed its button. Nothing else that it sends
    /// means the same, so the signing request waits for it.
    pub fn button_pressed(received: &str) -> (r: bool)
        ensures
            r == any_press(framing::messages(received@)),
    {
        reports_press(&leap_objects(received))
    }

    /// Wait for the button on a connection that is already open, then write the signing request
    /// down the same connection.
    pub fn await_button_press(state: &Json, input: &Dict) -> (r: (SetupStep, Json))
        ensures
            (r.0@, r.1@) == press_awaited(
                state@,
                input@,
                framing::messages(received_in(input@)),
            ),
    {
        let msgs = leap_objects(str_or_empty(input.get("received")));
        on_press_awaited(state, input, &msgs)
    }

    /// The bridge answered the signing request.
    pub fn handle_pair_response(state: &Json, input: &Dict) -> (r: (SetupStep, Json))
        ensures
            (r.0@, r.1@) == pair_answered(
                state@,
                input@,
                framing::answer(framing::messages(received_in(input@))),
            ),
    {
        let response = leap_answer(str_or_empty(input.get("received")));
        on_pair_answered(state, input, &response)
    }

    /// Address, client certificate and client key, wherever in the state they live: under the
    /// bridge's own property names once it is adopted, under the flow's names before that.
    pub fn bridge_identity(state: &Json) -> (r: (String, String, String))
        ensures
            (r.0@, r.1@, r.2@) == identity_of(state@),
    {
        (
            either_field(state, "Address", "address"),
            either_field(state, "Client certificate", "cert_pem"),
            either_field(state, "Client key", "key_pem"),
        )
    }

    /// Connect with the certificate that the bridge signed, and ask for what is behind it.
    pub fn request_device_list(state: &Json) -> (r: (SetupStep, Json))
        ensures
            (r.0@, r.1@) == listing_begun(state@),
    {
        let (address, cert_pem, key_pem) = Self::bridge_identity(state);
        let updates = [("tries", "0")];
        assert(updates.deep_view() =~= seq![("tries"@, "0"@)]);
        (
            SetupStep::Session {
                session: None,
                open: Some(Connect { address, port: LEAP_PORT, cert_pem, key_pem }),
                send: leap_line(&read_request("/device")),
                read_ms: 6000,
                close: false,
                note: "list".to_owned(),
            },
            with_fields(state, &updates),
        )
    }
}

} // verus!
