//! Laws of the setup flow: what it remembers, when it gives up, and that it arrives.

use crate::candidates;
use crate::driver;
use crate::framing;
use crate::host::{ConnectView, SetupStepView};
use crate::json::{self, JsonView};
use crate::listing;
use crate::messages;
use crate::setup;
use crate::tables::{BRIDGE_ID, LEAP_PORT, PAIR_PORT, PAIR_WAIT_SECS, READ_RETRIES};
use crate::text;
use vstd::prelude::*;

verus! {

/// What tells the names in the state apart: a length or a character.
pub(crate) proof fn lemma_names()
    ensures
        "stage"@.len() == 5,
        "address"@.len() == 7,
        "waited"@.len() == 6,
        "key_pem"@.len() == 7,
        "csr_pem"@.len() == 7,
        "cert_pem"@.len() == 8,
        "ca_pem"@.len() == 6,
        "tries"@.len() == 5,
        "include_bridge"@.len() == 14,
        "devices_json"@.len() == 12,
        "buttons_json"@.len() == 12,
        "areas_json"@.len() == 10,
        "browse"@.len() == 6,
        "Address"@.len() == 7,
        "Client certificate"@.len() == 18,
        "Client key"@.len() == 10,
        "Address"@[0] == 'A',
        "Client key"@[0] == 'C',
        "address"@[0] == 'a',
        "areas_json"@[0] == 'a',
        "browse"@[0] == 'b',
        "buttons_json"@[0] == 'b',
        "ca_pem"@[0] == 'c',
        "csr_pem"@[0] == 'c',
        "devices_json"@[0] == 'd',
        "key_pem"@[0] == 'k',
        "stage"@[0] == 's',
        "tries"@[0] == 't',
        "waited"@[0] == 'w',
{
    reveal_strlit("stage");
    reveal_strlit("address");
    reveal_strlit("waited");
    reveal_strlit("key_pem");
    reveal_strlit("csr_pem");
    reveal_strlit("cert_pem");
    reveal_strlit("ca_pem");
    reveal_strlit("tries");
    reveal_strlit("include_bridge");
    reveal_strlit("devices_json");
    reveal_strlit("buttons_json");
    reveal_strlit("areas_json");
    reveal_strlit("browse");
    reveal_strlit("Address");
    reveal_strlit("Client certificate");
    reveal_strlit("Client key");
}

/// What tells the stages apart: a length or a character.
pub(crate) proof fn lemma_stages()
    ensures
        "making_identity"@.len() == 15,
        "ready_to_pair"@.len() == 13,
        "pairing"@.len() == 7,
        "pair_sent"@.len() == 9,
        "listing"@.len() == 7,
        "listing_buttons"@.len() == 15,
        "listing_areas"@.len() == 13,
        "listing_occupancy"@.len() == 17,
        "listing"@[0] == 'l',
        "listing_areas"@[0] == 'l',
        "listing_buttons"@[0] == 'l',
        "making_identity"@[0] == 'm',
        "pairing"@[0] == 'p',
        "ready_to_pair"@[0] == 'r',
{
    reveal_strlit("making_identity");
    reveal_strlit("ready_to_pair");
    reveal_strlit("pairing");
    reveal_strlit("pair_sent");
    reveal_strlit("listing");
    reveal_strlit("listing_buttons");
    reveal_strlit("listing_areas");
    reveal_strlit("listing_occupancy");
}

/// Setting a few texts keeps everything else in the state as it was.
pub proof fn law_other_fields_are_kept(
    state: JsonView,
    updates: Seq<(Seq<char>, Seq<char>)>,
    key: Seq<char>,
)
    requires
        forall|i: int| 0 <= i < updates.len() ==> (#[trigger] updates[i]).0 != key,
    ensures
        setup::merged(state, updates).get(key) == json::find(setup::members_of(state), key),
    decreases updates.len(),
{
    if updates.len() > 0 {
        let sooner = updates.drop_last();
        assert forall|i: int| 0 <= i < sooner.len() implies (#[trigger] sooner[i]).0 != key by {
            assert(sooner[i] == updates[i]);
        }
        law_other_fields_are_kept(state, sooner, key);
        assert(updates[updates.len() - 1].0 != key);
    }
}

/// A text that was set is read back, unless it was set once more.
pub proof fn law_a_field_is_read_back(
    state: JsonView,
    updates: Seq<(Seq<char>, Seq<char>)>,
    k: int,
)
    requires
        0 <= k < updates.len(),
        forall|i: int| k < i < updates.len() ==> (#[trigger] updates[i]).0 != updates[k].0,
    ensures
        setup::noted(setup::merged(state, updates), updates[k].0) == updates[k].1,
    decreases updates.len(),
{
    let sooner = updates.drop_last();
    if k < sooner.len() {
        assert forall|i: int| k < i < sooner.len() implies (#[trigger] sooner[i]).0
            != sooner[k].0 by {
            assert(sooner[i] == updates[i]);
        }
        law_a_field_is_read_back(state, sooner, k);
        assert(updates[updates.len() - 1].0 != updates[k].0);
    }
}

pub(crate) proof fn lemma_one_set(state: JsonView, a: (Seq<char>, Seq<char>))
    ensures
        setup::merged(state, seq![a]) == JsonView::Object(
            setup::members_of(state).insert(a.0, JsonView::Text(a.1)),
        ),
{
    assert(seq![a].drop_last() =~= Seq::<(Seq<char>, Seq<char>)>::empty());
    reveal_with_fuel(setup::overlaid, 2);
}

pub(crate) proof fn lemma_two_set(state: JsonView, a: (Seq<char>, Seq<char>), b: (Seq<char>, Seq<char>))
    ensures
        setup::merged(state, seq![a, b]) == JsonView::Object(
            setup::members_of(state).insert(a.0, JsonView::Text(a.1)).insert(
                b.0,
                JsonView::Text(b.1),
            ),
        ),
{
    assert(seq![a, b].drop_last() =~= seq![a]);
    lemma_one_set(state, a);
}

pub(crate) proof fn lemma_three_set(
    state: JsonView,
    a: (Seq<char>, Seq<char>),
    b: (Seq<char>, Seq<char>),
    c: (Seq<char>, Seq<char>),
)
    ensures
        setup::merged(state, seq![a, b, c]) == JsonView::Object(
            setup::members_of(state).insert(a.0, JsonView::Text(a.1)).insert(
                b.0,
                JsonView::Text(b.1),
            ).insert(c.0, JsonView::Text(c.1)),
        ),
{
    assert(seq![a, b, c].drop_last() =~= seq![a, b]);
    lemma_two_set(state, a, b);
}

/// An answer that has not arrived is waited for, down the same connection and without asking
/// again, but not forever: each time counts, and after as many as there are chances there is no
/// next time. Nothing else that the flow remembers changes.
pub proof fn law_reading_again_is_bounded(
    state: JsonView,
    input: Map<Seq<char>, JsonView>,
    stage: Seq<char>,
)
    ensures
        listing::another_read(state, input, stage) is None <==> setup::count_in(state, "tries"@)
            >= READ_RETRIES,
        listing::another_read(state, input, stage) matches Some((step, next)) ==> {
            &&& setup::count_in(next, "tries"@) == setup::count_in(state, "tries"@) + 1
            &&& setup::count_in(next, "tries"@) <= READ_RETRIES
            &&& setup::noted(next, "stage"@) == stage
            &&& step == setup::listening(setup::session_of(input), 2000, "list"@)
            &&& forall|key: Seq<char>|
                key != "stage"@ && key != "tries"@ ==> #[trigger] next.get(key) == json::find(
                    setup::members_of(state),
                    key,
                )
        },
{
    lemma_names();
    let tries = setup::count_in(state, "tries"@);
    let next = text::decimal((tries + 1) as nat);
    lemma_two_set(state, ("stage"@, stage), ("tries"@, next));
    text::lemma_decimal((tries + 1) as nat);
    assert(text::spelled(next, u32::MAX as nat) == Some((tries + 1) as nat) || tries
        == u32::MAX);
}

/// Somebody gets so many seconds to press the button: each counts, and afterwards the flow goes
/// back to before it connected.
pub proof fn law_the_wait_for_the_button_is_bounded(state: JsonView, session: Option<u32>)
    ensures
        setup::count_in(state, "waited"@) < PAIR_WAIT_SECS ==> {
            let (step, next) = setup::press_missed(state, session);
            &&& step == setup::listening(session, 1000, "pair"@)
            &&& setup::count_in(next, "waited"@) == setup::count_in(state, "waited"@) + 1
            &&& setup::noted(next, "stage"@) == setup::noted(state, "stage"@)
        },
        setup::count_in(state, "waited"@) >= PAIR_WAIT_SECS ==> {
            let (step, next) = setup::press_missed(state, session);
            &&& step is Instruct
            &&& setup::noted(next, "stage"@) == "ready_to_pair"@
        },
{
    lemma_names();
    let waited = setup::count_in(state, "waited"@);
    let next = text::decimal((waited + 1) as nat);
    lemma_one_set(state, ("waited"@, next));
    lemma_one_set(state, ("stage"@, "ready_to_pair"@));
    text::lemma_decimal((waited + 1) as nat);
    assert(text::spelled(next, u32::MAX as nat) == Some((waited + 1) as nat) || waited
        == u32::MAX);
}

/// The signing request is sent only once the bridge has announced the press, and then down the
/// connection that heard the announcement. Before that nothing is sent at all.
pub proof fn law_nothing_is_sent_before_the_press(
    state: JsonView,
    input: Map<Seq<char>, JsonView>,
    msgs: Seq<JsonView>,
    cert_pem: Seq<char>,
    key_pem: Seq<char>,
)
    ensures
        setup::pairing_opened(state, cert_pem, key_pem).0->send == Seq::<char>::empty(),
        setup::press_awaited(state, input, msgs).0 matches SetupStepView::Session {
            session,
            open,
            send,
            ..
        } ==> {
            &&& session == setup::session_of(input)
            &&& open is None
            &&& send.len() > 0 <==> setup::any_press(msgs)
            &&& send.len() > 0 ==> send == framing::framed(
                messages::signing_view(setup::noted(state, "csr_pem"@)),
            )
        },
{
}

/// Whether an input says that the step before went well and that this arrived.
pub open spec fn brings(input: Map<Seq<char>, JsonView>, msgs: Seq<JsonView>) -> bool {
    &&& !input.contains_key("error"@)
    &&& framing::messages(setup::received_in(input)) == msgs
}

/// Pairing arrives. Whoever types an address, gets an identity, presses the button and is sent a
/// certificate is connected to the bridge at that address with that certificate and that key, in
/// five steps of the flow. What the bridge is then adopted with is that identity.
pub proof fn law_pairing_arrives(
    start: JsonView,
    typing: Map<Seq<char>, JsonView>,
    identity: Map<Seq<char>, JsonView>,
    going_on: Map<Seq<char>, JsonView>,
    press: Map<Seq<char>, JsonView>,
    signed: Map<Seq<char>, JsonView>,
    announced: Seq<JsonView>,
    answered: Seq<JsonView>,
    cert_pem: Seq<char>,
    key_pem: Seq<char>,
)
    requires
        !driver::is_browsing(start),
        !setup::members_of(start).contains_key("stage"@),
        !setup::members_of(start).contains_key("Address"@),
        !setup::members_of(start).contains_key("Client certificate"@),
        !setup::members_of(start).contains_key("Client key"@),
        setup::typed_address(typing).len() > 0,
        json::text_or_empty(json::find(identity, "key_pem"@)).len() > 0,
        json::text_or_empty(json::find(identity, "csr_pem"@)).len() > 0,
        brings(press, announced),
        setup::any_press(announced),
        brings(signed, answered),
        json::text_or_empty(
            framing::answer(answered).get3("Body"@, "SigningResult"@, "Certificate"@),
        ).len() > 0,
        json::text_or_empty(
            framing::answer(answered).get3("Body"@, "SigningResult"@, "RootCertificate"@),
        ).len() > 0,
    ensures
        ({
            let address = setup::typed_address(typing);
            let key = json::text_or_empty(json::find(identity, "key_pem"@));
            let csr = json::text_or_empty(json::find(identity, "csr_pem"@));
            let cert = json::text_or_empty(
                framing::answer(answered).get3("Body"@, "SigningResult"@, "Certificate"@),
            );
            let ca = json::text_or_empty(
                framing::answer(answered).get3("Body"@, "SigningResult"@, "RootCertificate"@),
            );
            let a = driver::discovering(BRIDGE_ID@, start, typing, cert_pem, key_pem);
            let b = driver::discovering(BRIDGE_ID@, a.1, identity, cert_pem, key_pem);
            let c = driver::discovering(BRIDGE_ID@, b.1, going_on, cert_pem, key_pem);
            let d = driver::discovering(BRIDGE_ID@, c.1, press, cert_pem, key_pem);
            let e = driver::discovering(BRIDGE_ID@, d.1, signed, cert_pem, key_pem);
            &&& a.0 is MakeIdentity
            &&& b.0 is Instruct
            &&& c.0 matches SetupStepView::Session { open, .. } && open == Some(
                ConnectView { address, port: PAIR_PORT, cert_pem, key_pem },
            )
            &&& d.0 matches SetupStepView::Session { session, open, send, .. } && session
                == setup::session_of(press) && open is None && send == framing::framed(
                messages::signing_view(csr),
            )
            &&& e.0 matches SetupStepView::Session { open, send, .. } && open == Some(
                ConnectView { address, port: LEAP_PORT, cert_pem: cert, key_pem: key },
            ) && send == framing::framed(messages::read_view("/device"@))
            &&& setup::noted(e.1, "stage"@) == "listing"@
            &&& !driver::is_browsing(e.1)
            &&& candidates::bridge_properties(e.1) == map![
                "Address"@ => JsonView::Text(address),
                "Client certificate"@ => JsonView::Text(cert),
                "Client key"@ => JsonView::Text(key),
                "CA certificate"@ => JsonView::Text(ca),
            ]
        }),
{
    lemma_names();
    lemma_stages();
    let address = setup::typed_address(typing);
    let key = json::text_or_empty(json::find(identity, "key_pem"@));
    let csr = json::text_or_empty(json::find(identity, "csr_pem"@));
    let response = framing::answer(answered);
    let cert = json::text_or_empty(response.get3("Body"@, "SigningResult"@, "Certificate"@));
    let ca = json::text_or_empty(response.get3("Body"@, "SigningResult"@, "RootCertificate"@));
    lemma_empty_text();
    let a = driver::discovering(BRIDGE_ID@, start, typing, cert_pem, key_pem);
    assert(setup::noted(start, "stage"@).len() == 0);
    assert(a == setup::pairing_with(start, address));
    lemma_two_set(start, ("stage"@, "making_identity"@), ("address"@, address));
    assert(setup::noted(a.1, "stage"@) == "making_identity"@);
    let b = driver::discovering(BRIDGE_ID@, a.1, identity, cert_pem, key_pem);
    assert(b == setup::identity_answered(a.1, identity));
    lemma_three_set(
        a.1,
        ("stage"@, "ready_to_pair"@),
        ("key_pem"@, key),
        ("csr_pem"@, csr),
    );
    assert(setup::noted(b.1, "stage"@) == "ready_to_pair"@);
    let c = driver::discovering(BRIDGE_ID@, b.1, going_on, cert_pem, key_pem);
    assert(c == setup::pairing_opened(b.1, cert_pem, key_pem));
    lemma_two_set(b.1, ("stage"@, "pairing"@), ("waited"@, "0"@));
    assert(setup::noted(c.1, "stage"@) == "pairing"@);
    let d = driver::discovering(BRIDGE_ID@, c.1, press, cert_pem, key_pem);
    assert(d == setup::signing_sent(c.1, setup::session_of(press)));
    lemma_one_set(c.1, ("stage"@, "pair_sent"@));
    assert(setup::noted(d.1, "stage"@) == "pair_sent"@);
    let e = driver::discovering(BRIDGE_ID@, d.1, signed, cert_pem, key_pem);
    let signed_state = setup::merged(
        d.1,
        seq![("stage"@, "listing"@), ("cert_pem"@, cert), ("ca_pem"@, ca)],
    );
    assert(e == setup::listing_begun(signed_state));
    lemma_three_set(d.1, ("stage"@, "listing"@), ("cert_pem"@, cert), ("ca_pem"@, ca));
    lemma_one_set(signed_state, ("tries"@, "0"@));
    assert(setup::noted(signed_state, "Address"@).len() == 0);
    assert(setup::noted(signed_state, "Client certificate"@).len() == 0);
    assert(setup::noted(signed_state, "Client key"@).len() == 0);
}

/// Browsing begins where pairing ended: a bridge that is paired already is connected to with what
/// was written down of it, and asked for its devices.
pub proof fn law_browsing_begins_with_the_bridges_own_identity(
    state: JsonView,
    input: Map<Seq<char>, JsonView>,
    cert_pem: Seq<char>,
    key_pem: Seq<char>,
)
    requires
        driver::is_browsing(state),
        !setup::members_of(state).contains_key("stage"@),
    ensures
        ({
            let (step, next) = driver::discovering(BRIDGE_ID@, state, input, cert_pem, key_pem);
            let (address, cert, key) = setup::identity_of(state);
            &&& step matches SetupStepView::Session { open, send, .. } && open == Some(
                ConnectView { address, port: LEAP_PORT, cert_pem: cert, key_pem: key },
            ) && send == framing::framed(messages::read_view("/device"@))
            &&& setup::noted(next, "stage"@) == "listing"@
            &&& driver::is_browsing(next)
        }),
{
    lemma_names();
    lemma_stages();
    lemma_empty_text();
    assert(setup::noted(state, "stage"@).len() == 0);
    let listing = setup::merged(state, seq![("stage"@, "listing"@)]);
    lemma_one_set(state, ("stage"@, "listing"@));
    lemma_one_set(listing, ("tries"@, "0"@));
}

/// What both kinds of flow offer at the end: the bridge only where it was just paired, and then
/// with the identity that the state holds.
pub open spec fn harvest(
    state: JsonView,
    devices: Seq<JsonView>,
    buttons: Seq<JsonView>,
    areas: Seq<JsonView>,
    groups: Seq<JsonView>,
) -> (SetupStepView, JsonView) {
    (
        SetupStepView::Done {
            candidates: candidates::offered(state, !driver::is_browsing(state), devices, buttons)
                + candidates::sensors_of(areas, groups),
        },
        JsonView::Null,
    )
}

/// Whether two states are of one flow with one bridge.
pub open spec fn is_same_flow(a: JsonView, b: JsonView) -> bool {
    &&& driver::is_browsing(a) == driver::is_browsing(b)
    &&& candidates::bridge_candidate(a) == candidates::bridge_candidate(b)
}

/// The areas and the occupancy groups end the listing, with everything that was kept so far.
proof fn lemma_listing_ends(
    state: JsonView,
    areas_input: Map<Seq<char>, JsonView>,
    groups_input: Map<Seq<char>, JsonView>,
    areas_msgs: Seq<JsonView>,
    groups_msgs: Seq<JsonView>,
    areas: Seq<JsonView>,
    groups: Seq<JsonView>,
    cert_pem: Seq<char>,
    key_pem: Seq<char>,
)
    requires
        setup::noted(state, "stage"@) == "listing_areas"@,
        brings(areas_input, areas_msgs),
        json::items_of(framing::answer(areas_msgs).get2("Body"@, "Areas"@)) == Some(areas),
        brings(groups_input, groups_msgs),
        json::items_of(framing::answer(groups_msgs).get2("Body"@, "OccupancyGroups"@)) == Some(
            groups,
        ),
    ensures
        ({
            let a = driver::discovering(BRIDGE_ID@, state, areas_input, cert_pem, key_pem);
            let b = driver::discovering(BRIDGE_ID@, a.1, groups_input, cert_pem, key_pem);
            &&& a.0 == listing::reading(areas_input, "/occupancygroup"@)
            &&& b == harvest(
                state,
                json::items_or_empty(state.get("devices_json"@)),
                json::items_or_empty(state.get("buttons_json"@)),
                areas,
                groups,
            )
        }),
{
    lemma_names();
    lemma_stages();
    let a = driver::discovering(BRIDGE_ID@, state, areas_input, cert_pem, key_pem);
    assert(a == listing::areas_answered(state, areas_input, framing::answer(areas_msgs)));
    let merged = setup::merged(state, seq![("stage"@, "listing_occupancy"@), ("tries"@, "0"@)]);
    lemma_two_set(state, ("stage"@, "listing_occupancy"@), ("tries"@, "0"@));
    assert(a.1 == setup::carrying(merged, "areas_json"@, areas));
    assert(setup::noted(a.1, "stage"@) == "listing_occupancy"@);
    assert(is_same_flow(a.1, state));
    let b = driver::discovering(BRIDGE_ID@, a.1, groups_input, cert_pem, key_pem);
    assert(b == listing::finishing(a.1, !driver::is_browsing(a.1), groups));
}

/// Listing arrives, on a bridge with no remote behind it: once the devices, the areas and the
/// occupancy groups were read, everything that can be adopted is offered, and the bridge too
/// where it was just paired.
pub proof fn law_listing_arrives_without_remotes(
    state: JsonView,
    devices_input: Map<Seq<char>, JsonView>,
    areas_input: Map<Seq<char>, JsonView>,
    groups_input: Map<Seq<char>, JsonView>,
    devices_msgs: Seq<JsonView>,
    areas_msgs: Seq<JsonView>,
    groups_msgs: Seq<JsonView>,
    devices: Seq<JsonView>,
    areas: Seq<JsonView>,
    groups: Seq<JsonView>,
    cert_pem: Seq<char>,
    key_pem: Seq<char>,
)
    requires
        setup::noted(state, "stage"@) == "listing"@,
        brings(devices_input, devices_msgs),
        json::items_of(framing::answer(devices_msgs).get2("Body"@, "Devices"@)) == Some(devices),
        !listing::any_remote(devices),
        brings(areas_input, areas_msgs),
        json::items_of(framing::answer(areas_msgs).get2("Body"@, "Areas"@)) == Some(areas),
        brings(groups_input, groups_msgs),
        json::items_of(framing::answer(groups_msgs).get2("Body"@, "OccupancyGroups"@)) == Some(
            groups,
        ),
    ensures
        ({
            let a = driver::discovering(BRIDGE_ID@, state, devices_input, cert_pem, key_pem);
            let b = driver::discovering(BRIDGE_ID@, a.1, areas_input, cert_pem, key_pem);
            let c = driver::discovering(BRIDGE_ID@, b.1, groups_input, cert_pem, key_pem);
            &&& a.0 == listing::reading(devices_input, "/area"@)
            &&& b.0 == listing::reading(areas_input, "/occupancygroup"@)
            &&& c == harvest(state, devices, Seq::empty(), areas, groups)
        }),
{
    lemma_names();
    lemma_stages();
    let include_bridge = !driver::is_browsing(state);
    let none = Seq::<JsonView>::empty();
    let a = driver::discovering(BRIDGE_ID@, state, devices_input, cert_pem, key_pem);
    assert(a == listing::areas_asked(state, devices_input, include_bridge, devices, none));
    lemma_three_set(
        state,
        ("stage"@, "listing_areas"@),
        ("include_bridge"@, listing::truth_word(include_bridge)),
        ("tries"@, "0"@),
    );
    assert(setup::noted(a.1, "stage"@) == "listing_areas"@);
    assert(is_same_flow(a.1, state));
    assert(json::items_or_empty(a.1.get("devices_json"@)) == devices);
    assert(json::items_or_empty(a.1.get("buttons_json"@)) == none);
    lemma_listing_ends(
        a.1,
        areas_input,
        groups_input,
        areas_msgs,
        groups_msgs,
        areas,
        groups,
        cert_pem,
        key_pem,
    );
}

/// Listing arrives, on a bridge with remotes behind it: the buttons are read as well, and each
/// remote is offered with its keys.
pub proof fn law_listing_arrives_with_remotes(
    state: JsonView,
    devices_input: Map<Seq<char>, JsonView>,
    buttons_input: Map<Seq<char>, JsonView>,
    areas_input: Map<Seq<char>, JsonView>,
    groups_input: Map<Seq<char>, JsonView>,
    devices_msgs: Seq<JsonView>,
    buttons_msgs: Seq<JsonView>,
    areas_msgs: Seq<JsonView>,
    groups_msgs: Seq<JsonView>,
    devices: Seq<JsonView>,
    buttons: Seq<JsonView>,
    areas: Seq<JsonView>,
    groups: Seq<JsonView>,
    cert_pem: Seq<char>,
    key_pem: Seq<char>,
)
    requires
        setup::noted(state, "stage"@) == "listing"@,
        brings(devices_input, devices_msgs),
        json::items_of(framing::answer(devices_msgs).get2("Body"@, "Devices"@)) == Some(devices),
        listing::any_remote(devices),
        brings(buttons_input, buttons_msgs),
        json::items_of(framing::answer(buttons_msgs).get2("Body"@, "Buttons"@)) == Some(buttons),
        brings(areas_input, areas_msgs),
        json::items_of(framing::answer(areas_msgs).get2("Body"@, "Areas"@)) == Some(areas),
        brings(groups_input, groups_msgs),
        json::items_of(framing::answer(groups_msgs).get2("Body"@, "OccupancyGroups"@)) == Some(
            groups,
        ),
    ensures
        ({
            let a = driver::discovering(BRIDGE_ID@, state, devices_input, cert_pem, key_pem);
            let b = driver::discovering(BRIDGE_ID@, a.1, buttons_input, cert_pem, key_pem);
            let c = driver::discovering(BRIDGE_ID@, b.1, areas_input, cert_pem, key_pem);
            let d = driver::discovering(BRIDGE_ID@, c.1, groups_input, cert_pem, key_pem);
            &&& a.0 == listing::reading(devices_input, "/button"@)
            &&& b.0 == listing::reading(buttons_input, "/area"@)
            &&& c.0 == listing::reading(areas_input, "/occupancygroup"@)
            &&& d == harvest(state, devices, buttons, areas, groups)
        }),
{
    lemma_names();
    lemma_stages();
    let include_bridge = !driver::is_browsing(state);
    let word = listing::truth_word(include_bridge);
    let a = driver::discovering(BRIDGE_ID@, state, devices_input, cert_pem, key_pem);
    assert(a == listing::buttons_asked(state, devices_input, include_bridge, devices));
    lemma_three_set(
        state,
        ("stage"@, "listing_buttons"@),
        ("include_bridge"@, word),
        ("tries"@, "0"@),
    );
    assert(setup::noted(a.1, "stage"@) == "listing_buttons"@);
    assert(is_same_flow(a.1, state));
    assert(json::items_or_empty(a.1.get("devices_json"@)) == devices);
    let b = driver::discovering(BRIDGE_ID@, a.1, buttons_input, cert_pem, key_pem);
    assert(b == listing::areas_asked(a.1, buttons_input, include_bridge, devices, buttons));
    lemma_three_set(
        a.1,
        ("stage"@, "listing_areas"@),
        ("include_bridge"@, word),
        ("tries"@, "0"@),
    );
    assert(setup::noted(b.1, "stage"@) == "listing_areas"@);
    assert(is_same_flow(b.1, state));
    assert(json::items_or_empty(b.1.get("devices_json"@)) == devices);
    assert(json::items_or_empty(b.1.get("buttons_json"@)) == buttons);
    lemma_listing_ends(
        b.1,
        areas_input,
        groups_input,
        areas_msgs,
        groups_msgs,
        areas,
        groups,
        cert_pem,
        key_pem,
    );
}

/// A bridge that will not say anything of its occupancy still finishes: what was found before is
/// offered, and nothing of it is thrown away.
pub proof fn law_devices_outlive_a_failed_occupancy_read(
    state: JsonView,
    input: Map<Seq<char>, JsonView>,
    include_bridge: bool,
    response: JsonView,
)
    requires
        input.contains_key("error"@) || json::items_of(
            response.get2("Body"@, "OccupancyGroups"@),
        ) is None,
        setup::count_in(state, "tries"@) >= READ_RETRIES,
    ensures
        listing::occupancy_answered(state, input, include_bridge, response).0
            == (SetupStepView::Done {
            candidates: candidates::offered(
                state,
                include_bridge,
                json::items_or_empty(state.get("devices_json"@)),
                json::items_or_empty(state.get("buttons_json"@)),
            ),
        }),
{
    let found = candidates::offered(
        state,
        include_bridge,
        json::items_or_empty(state.get("devices_json"@)),
        json::items_or_empty(state.get("buttons_json"@)),
    );
    assert(candidates::gathered(state, include_bridge, Seq::empty()) =~= found);
}

/// An answer that never comes is a failure to report, and not an empty list: no step of the
/// listing but the last finishes without one.
pub proof fn law_silence_is_not_an_empty_house(
    state: JsonView,
    input: Map<Seq<char>, JsonView>,
    include_bridge: bool,
    response: JsonView,
)
    requires
        setup::count_in(state, "tries"@) >= READ_RETRIES,
    ensures
        json::items_of(response.get2("Body"@, "Devices"@)) is None ==> listing::devices_answered(
            state,
            input,
            include_bridge,
            response,
        ).0 is Failed,
        json::items_of(response.get2("Body"@, "Buttons"@)) is None ==> listing::buttons_answered(
            state,
            input,
            include_bridge,
            response,
        ).0 is Failed,
        json::items_of(response.get2("Body"@, "Areas"@)) is None ==> listing::areas_answered(
            state,
            input,
            response,
        ).0 is Failed,
{
}

/// Nothing but a bridge is set up on its own: for every other driver the flow ends at once and
/// offers nothing.
pub proof fn law_only_a_bridge_is_set_up(
    driver_id: Seq<char>,
    state: JsonView,
    input: Map<Seq<char>, JsonView>,
    cert_pem: Seq<char>,
    key_pem: Seq<char>,
)
    requires
        driver_id != BRIDGE_ID@,
    ensures
        driver::discovering(driver_id, state, input, cert_pem, key_pem) == (
            SetupStepView::Done { candidates: Seq::empty() },
            JsonView::Null,
        ),
{
}

proof fn lemma_empty_text()
    ensures
        ""@.len() == 0,
{
    reveal_strlit("");
}

} // verus!
