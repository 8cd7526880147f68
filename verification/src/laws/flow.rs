//! Laws of the setup flow, step by step: what each step does and what it keeps, for every answer.

use crate::candidates;
use crate::codec;
use crate::driver;
use crate::framing;
use crate::host::{CandidateView, ConnectView, FieldView, SetupStepView};
use crate::json::{self, JsonView};
use crate::laws::setup as flows;
use crate::laws::words;
use crate::listing;
use crate::setup;
use crate::tables;
use crate::text;
use vstd::prelude::*;

verus! {

/// The fields of a state; what is no object has none.
pub open spec fn fields(state: JsonView) -> Map<Seq<char>, JsonView> {
    if state is Object {
        state->Object_0
    } else {
        Map::empty()
    }
}

/// Whether the flow is at this stage.
pub open spec fn is_at(state: JsonView, stage: Seq<char>) -> bool {
    words::has(fields(state), "stage"@, JsonView::Text(stage))
}

/// Whether the flow lists a bridge that is paired already.
pub open spec fn browses(state: JsonView) -> bool {
    words::has(fields(state), "browse"@, JsonView::Bool(true))
}

/// The text in a map at this name, or nothing.
pub open spec fn text_at(map: Map<Seq<char>, JsonView>, name: Seq<char>) -> Seq<char> {
    if words::has_text(map, name) {
        map[name]->Text_0
    } else {
        Seq::empty()
    }
}

/// The list in a state at this name, or an empty one.
pub open spec fn list_at(state: JsonView, name: Seq<char>) -> Seq<JsonView> {
    match state.get(name) {
        Some(JsonView::Array(items)) => items,
        _ => Seq::empty(),
    }
}

/// The connection that the controller says is open.
pub open spec fn connection(input: Map<Seq<char>, JsonView>) -> Option<u32> {
    if words::has_number(input, "session"@) {
        Some((input["session"@]->Unsigned_0 % 0x1_0000_0000) as u32)
    } else {
        None
    }
}

/// Whether the step before went well and this is what the bridge answered.
pub open spec fn hears(input: Map<Seq<char>, JsonView>, response: JsonView) -> bool {
    &&& !words::has_text(input, "error"@)
    &&& framing::answer(framing::messages(text_at(input, "received"@))) == response
}

/// Whether a response lists these things.
pub open spec fn lists(response: JsonView, name: Seq<char>, items: Seq<JsonView>) -> bool {
    response.get2("Body"@, name) == Some(JsonView::Array(items))
}

/// Whether a response has no such list.
pub open spec fn lists_nothing(response: JsonView, name: Seq<char>) -> bool {
    forall|items: Seq<JsonView>| !#[trigger] lists(response, name, items)
}

/// The step that asks for something on the connection that is open.
pub open spec fn asking(input: Map<Seq<char>, JsonView>, url: Seq<char>) -> SetupStepView {
    SetupStepView::Session {
        session: connection(input),
        open: None,
        send: codec::printed(words::reading(url)).push('\n'),
        read_ms: 6000,
        close: false,
        note: "list"@,
    }
}

/// The step that only listens on the connection that is open.
pub open spec fn waiting(
    input: Map<Seq<char>, JsonView>,
    read_ms: u32,
    note: Seq<char>,
) -> SetupStepView {
    SetupStepView::Session {
        session: connection(input),
        open: None,
        send: Seq::empty(),
        read_ms,
        close: false,
        note,
    }
}

/// The step that shows somebody something.
pub open spec fn showing(title: Seq<char>, body: Seq<char>) -> SetupStepView {
    SetupStepView::Instruct { title, body, continue_label: "Continue"@ }
}

/// The end of the flow with a reason.
pub open spec fn giving_up(reason: Seq<char>) -> (SetupStepView, JsonView) {
    (SetupStepView::Failed { reason }, JsonView::Null)
}

/// One step of the bridge's flow.
pub open spec fn step(
    state: JsonView,
    input: Map<Seq<char>, JsonView>,
    cert: Seq<char>,
    key: Seq<char>,
) -> (SetupStepView, JsonView) {
    driver::discovering("lutron.caseta.leap_bridge"@, state, input, cert, key)
}

/// The state with some texts set, the rest kept.
pub open spec fn with_text(
    m: Map<Seq<char>, JsonView>,
    name: Seq<char>,
    value: Seq<char>,
) -> Map<Seq<char>, JsonView> {
    m.insert(name, JsonView::Text(value))
}

/// A state in which the next thing is read, from the first try on.
pub open spec fn listing_next(state: JsonView, stage: Seq<char>) -> Map<Seq<char>, JsonView> {
    with_text(
        with_text(
            with_text(fields(state), "stage"@, stage),
            "include_bridge"@,
            if browses(state) {
                "false"@
            } else {
                "true"@
            },
        ),
        "tries"@,
        "0"@,
    )
}

/// Whether a device's type begins with `Pico`.
pub open spec fn is_pico(device: JsonView) -> bool {
    exists|rest: Seq<char>|
        device.get("DeviceType"@) == Some(JsonView::Text(#[trigger] ("Pico"@ + rest)))
}

pub(crate) proof fn lemma_pico(device: JsonView)
    ensures
        is_pico(device) <==> tables::is_remote(json::text_or_empty(device.get("DeviceType"@))),
{
    reveal_strlit("Pico");
    let pico = "Pico"@;
    assert(pico.len() == 4);
    let word = json::text_or_empty(device.get("DeviceType"@));
    if is_pico(device) {
        let rest = choose|rest: Seq<char>|
            device.get("DeviceType"@) == Some(JsonView::Text(#[trigger] (pico + rest)));
        assert(word == pico + rest);
        assert(word.take(4) =~= pico);
        assert(pico.is_prefix_of(word));
    }
    if tables::is_remote(word) {
        let rest = word.skip(4);
        assert(word.take(4) =~= pico);
        assert(word =~= pico + rest);
        assert(device.get("DeviceType"@) == Some(JsonView::Text(pico + rest)));
    }
}

/// One remote among the devices, wherever it stands, makes the buttons be read next; the devices
/// are kept.
pub proof fn law_a_remote_anywhere_makes_the_buttons_be_read(
    state: JsonView,
    input: Map<Seq<char>, JsonView>,
    cert: Seq<char>,
    key: Seq<char>,
    response: JsonView,
    devices: Seq<JsonView>,
    i: int,
)
    requires
        is_at(state, "listing"@),
        hears(input, response),
        lists(response, "Devices"@, devices),
        0 <= i < devices.len(),
        is_pico(devices[i]),
    ensures
        step(state, input, cert, key) == (
            asking(input, "/button"@),
            JsonView::Object(
                listing_next(state, "listing_buttons"@).insert(
                    "devices_json"@,
                    JsonView::Array(devices),
                ),
            ),
        ),
{
    flows::lemma_stages();
    lemma_pico(devices[i]);
    assert(listing::any_remote(devices));
    flows::lemma_three_set(
        state,
        ("stage"@, "listing_buttons"@),
        ("include_bridge"@, listing::truth_word(!browses(state))),
        ("tries"@, "0"@),
    );
}

/// Without a single remote among the devices the areas are read next; the devices are kept.
pub proof fn law_without_a_remote_the_areas_are_read(
    state: JsonView,
    input: Map<Seq<char>, JsonView>,
    cert: Seq<char>,
    key: Seq<char>,
    response: JsonView,
    devices: Seq<JsonView>,
)
    requires
        is_at(state, "listing"@),
        hears(input, response),
        lists(response, "Devices"@, devices),
        forall|i: int| 0 <= i < devices.len() ==> !is_pico(#[trigger] devices[i]),
    ensures
        step(state, input, cert, key) == (
            asking(input, "/area"@),
            JsonView::Object(
                listing_next(state, "listing_areas"@).insert(
                    "devices_json"@,
                    JsonView::Array(devices),
                ).insert("buttons_json"@, JsonView::Array(Seq::empty())),
            ),
        ),
{
    flows::lemma_stages();
    assert forall|i: int| 0 <= i < devices.len() implies !tables::is_remote(
        json::text_or_empty((#[trigger] devices[i]).get("DeviceType"@)),
    ) by {
        lemma_pico(devices[i]);
    }
    assert(!listing::any_remote(devices));
    flows::lemma_three_set(
        state,
        ("stage"@, "listing_areas"@),
        ("include_bridge"@, listing::truth_word(!browses(state))),
        ("tries"@, "0"@),
    );
}

/// Behind the buttons the areas are read; the devices from before and the buttons are kept.
pub proof fn law_behind_the_buttons_the_areas_are_read(
    state: JsonView,
    input: Map<Seq<char>, JsonView>,
    cert: Seq<char>,
    key: Seq<char>,
    response: JsonView,
    buttons: Seq<JsonView>,
)
    requires
        is_at(state, "listing_buttons"@),
        hears(input, response),
        lists(response, "Buttons"@, buttons),
    ensures
        step(state, input, cert, key) == (
            asking(input, "/area"@),
            JsonView::Object(
                listing_next(state, "listing_areas"@).insert(
                    "devices_json"@,
                    JsonView::Array(list_at(state, "devices_json"@)),
                ).insert("buttons_json"@, JsonView::Array(buttons)),
            ),
        ),
{
    flows::lemma_stages();
    flows::lemma_three_set(
        state,
        ("stage"@, "listing_areas"@),
        ("include_bridge"@, listing::truth_word(!browses(state))),
        ("tries"@, "0"@),
    );
}

/// Behind the areas the occupancy groups are read; the areas are kept.
pub proof fn law_behind_the_areas_the_groups_are_read(
    state: JsonView,
    input: Map<Seq<char>, JsonView>,
    cert: Seq<char>,
    key: Seq<char>,
    response: JsonView,
    areas: Seq<JsonView>,
)
    requires
        is_at(state, "listing_areas"@),
        hears(input, response),
        lists(response, "Areas"@, areas),
    ensures
        step(state, input, cert, key) == (
            asking(input, "/occupancygroup"@),
            JsonView::Object(
                with_text(
                    with_text(fields(state), "stage"@, "listing_occupancy"@),
                    "tries"@,
                    "0"@,
                ).insert("areas_json"@, JsonView::Array(areas)),
            ),
        ),
{
    flows::lemma_stages();
    flows::lemma_two_set(state, ("stage"@, "listing_occupancy"@), ("tries"@, "0"@));
}

/// What each stage of the listing waits for, and what it says where that does not come.
pub open spec fn waits_for(
    stage: Seq<char>,
    list: Seq<char>,
    silence: Seq<char>,
    trouble: Seq<char>,
) -> bool {
    ||| stage == "listing"@ && list == "Devices"@ && silence
        == "the bridge did not answer with its device list"@ && trouble
        == "could not read the bridge's device list: "@
    ||| stage == "listing_buttons"@ && list == "Buttons"@ && silence
        == "the bridge did not answer with its buttons"@ && trouble
        == "could not read the bridge's buttons: "@
    ||| stage == "listing_areas"@ && list == "Areas"@ && silence
        == "the bridge did not answer with its areas"@ && trouble
        == "could not read the bridge's areas: "@
}

/// Whether this many tries are noted: as digits, or where it is none, as anything that is no
/// number.
pub open spec fn has_tried(m: Map<Seq<char>, JsonView>, name: Seq<char>, n: nat) -> bool {
    ||| words::has(m, name, JsonView::Text(text::decimal(n)))
    ||| n == 0 && !words::has_text(m, name)
    ||| n == 0 && text::spelled(text_at(m, name), 0xFFFF_FFFF) is None
}

proof fn lemma_tried(state: JsonView, name: Seq<char>, n: nat)
    requires
        has_tried(fields(state), name, n),
        n <= u32::MAX,
    ensures
        setup::count_in(state, name) == n,
{
    text::lemma_decimal(n);
    let s = text::decimal(n);
    if words::has(fields(state), name, JsonView::Text(s)) {
        assert(setup::noted(state, name) == s);
        assert(text::spelled(s, u32::MAX as nat) == Some(n));
    } else {
        assert(setup::noted(state, name) == text_at(fields(state), name));
        assert(text::spelled(Seq::empty(), u32::MAX as nat) is None);
    }
}

/// A bridge that has not answered yet is listened to again, five times at most, and nothing is
/// asked a second time; then the flow gives up and says what did not come.
pub proof fn law_an_answer_is_waited_for_five_times(
    state: JsonView,
    input: Map<Seq<char>, JsonView>,
    cert: Seq<char>,
    key: Seq<char>,
    response: JsonView,
    stage: Seq<char>,
    list: Seq<char>,
    silence: Seq<char>,
    trouble: Seq<char>,
    tried: nat,
)
    requires
        waits_for(stage, list, silence, trouble),
        is_at(state, stage),
        has_tried(fields(state), "tries"@, tried),
        tried <= u32::MAX,
        hears(input, response),
        lists_nothing(response, list),
    ensures
        tried < 5 ==> step(state, input, cert, key) == (
            waiting(input, 2000, "list"@),
            JsonView::Object(
                with_text(
                    with_text(fields(state), "stage"@, stage),
                    "tries"@,
                    text::decimal(tried + 1),
                ),
            ),
        ),
        tried >= 5 ==> step(state, input, cert, key) == giving_up(silence),
{
    flows::lemma_stages();
    lemma_tried(state, "tries"@, tried);
    let there = response.get2("Body"@, list);
    match there {
        Some(JsonView::Array(items)) => {
            assert(lists(response, list, items));
        },
        _ => {},
    }
    assert(json::items_of(there) is None);
    flows::lemma_two_set(state, ("stage"@, stage), ("tries"@, text::decimal(tried + 1)));
}

/// A read that went wrong ends the flow, and the reason says what was read and what went wrong.
pub proof fn law_a_read_that_went_wrong_ends_the_flow(
    state: JsonView,
    input: Map<Seq<char>, JsonView>,
    cert: Seq<char>,
    key: Seq<char>,
    stage: Seq<char>,
    list: Seq<char>,
    silence: Seq<char>,
    trouble: Seq<char>,
    why: Seq<char>,
)
    requires
        waits_for(stage, list, silence, trouble),
        is_at(state, stage),
        words::has(input, "error"@, JsonView::Text(why)),
    ensures
        step(state, input, cert, key) == giving_up(trouble + why),
{
    flows::lemma_stages();
}

/// The groups end the flow with everything that was gathered; the bridge is among it only where it
/// was paired here. A bridge that never says ends it with the rest.
pub proof fn law_the_groups_end_the_flow(
    state: JsonView,
    input: Map<Seq<char>, JsonView>,
    cert: Seq<char>,
    key: Seq<char>,
    response: JsonView,
    groups: Seq<JsonView>,
    tried: nat,
)
    requires
        is_at(state, "listing_occupancy"@),
        has_tried(fields(state), "tries"@, tried),
        tried <= u32::MAX,
    ensures
        !input.contains_key("error"@) && hears(input, response) && lists(
            response,
            "OccupancyGroups"@,
            groups,
        ) ==> step(state, input, cert, key) == (
            SetupStepView::Done {
                candidates: candidates::gathered(state, !browses(state), groups),
            },
            JsonView::Null,
        ),
        input.contains_key("error"@) || hears(input, response) && lists_nothing(
            response,
            "OccupancyGroups"@,
        ) ==> if tried < 5 {
            step(state, input, cert, key) == (
                waiting(input, 2000, "list"@),
                JsonView::Object(
                    with_text(
                        with_text(fields(state), "stage"@, "listing_occupancy"@),
                        "tries"@,
                        text::decimal(tried + 1),
                    ),
                ),
            )
        } else {
            step(state, input, cert, key) == (
                SetupStepView::Done {
                    candidates: candidates::gathered(state, !browses(state), Seq::empty()),
                },
                JsonView::Null,
            )
        },
{
    flows::lemma_stages();
    lemma_tried(state, "tries"@, tried);
    let there = response.get2("Body"@, "OccupancyGroups"@);
    match there {
        Some(JsonView::Array(items)) => {
            assert(lists(response, "OccupancyGroups"@, items));
        },
        _ => {},
    }
    flows::lemma_two_set(
        state,
        ("stage"@, "listing_occupancy"@),
        ("tries"@, text::decimal(tried + 1)),
    );
}

/// Of two names for the same thing, the first that says something.
pub open spec fn either_at(
    m: Map<Seq<char>, JsonView>,
    first: Seq<char>,
    second: Seq<char>,
) -> Seq<char> {
    if words::has_href(m, first) {
        text_at(m, first)
    } else {
        text_at(m, second)
    }
}

/// The step that opens the authenticated port of the bridge and asks for its devices.
pub open spec fn opening_the_list(m: Map<Seq<char>, JsonView>) -> SetupStepView {
    SetupStepView::Session {
        session: None,
        open: Some(
            ConnectView {
                address: either_at(m, "Address"@, "address"@),
                port: 8081,
                cert_pem: either_at(m, "Client certificate"@, "cert_pem"@),
                key_pem: either_at(m, "Client key"@, "key_pem"@),
            },
        ),
        send: codec::printed(words::reading("/device"@)).push('\n'),
        read_ms: 6000,
        close: false,
        note: "list"@,
    }
}

/// Whether the flow is at none of the stages of the listing.
pub open spec fn is_not_listing(state: JsonView) -> bool {
    &&& !is_at(state, "listing"@)
    &&& !is_at(state, "listing_buttons"@)
    &&& !is_at(state, "listing_areas"@)
    &&& !is_at(state, "listing_occupancy"@)
}

/// A bridge that is paired already is listed at once, as the identity it was paired with.
pub proof fn law_browsing_opens_the_list(
    state: JsonView,
    input: Map<Seq<char>, JsonView>,
    cert: Seq<char>,
    key: Seq<char>,
)
    requires
        browses(state),
        is_not_listing(state),
    ensures
        step(state, input, cert, key) == (
            opening_the_list(with_text(fields(state), "stage"@, "listing"@)),
            JsonView::Object(
                with_text(with_text(fields(state), "stage"@, "listing"@), "tries"@, "0"@),
            ),
        ),
{
    flows::lemma_stages();
    flows::lemma_names();
    let next = setup::merged(state, seq![("stage"@, "listing"@)]);
    flows::lemma_one_set(state, ("stage"@, "listing"@));
    flows::lemma_one_set(next, ("tries"@, "0"@));
    assert(step(state, input, cert, key) == setup::listing_begun(next));
}

/// Whether the flow is at no stage at all.
pub open spec fn is_new(state: JsonView) -> bool {
    &&& is_not_listing(state)
    &&& !browses(state)
    &&& !is_at(state, "making_identity"@)
    &&& !is_at(state, "ready_to_pair"@)
    &&& !is_at(state, "pairing"@)
    &&& !is_at(state, "pair_sent"@)
}

/// Pairing begins with the bridge at an address.
pub open spec fn beginning(state: JsonView, address: Seq<char>) -> (SetupStepView, JsonView) {
    (
        SetupStepView::MakeIdentity { common_name: "juno"@, note: Seq::empty() },
        JsonView::Object(
            with_text(
                with_text(fields(state), "stage"@, "making_identity"@),
                "address"@,
                address,
            ),
        ),
    )
}

/// How a bridge on the network is shown.
pub open spec fn shown_as(found: (Seq<char>, Seq<char>)) -> Seq<char> {
    found.0 + " ("@ + found.1 + ")"@
}

/// The form that asks for an address.
pub open spec fn asking_for_an_address(
    body: Seq<char>,
    default: Option<JsonView>,
) -> SetupStepView {
    SetupStepView::Form {
        title: "Pair a Caséta Smart Bridge"@,
        body,
        fields: seq![
            FieldView {
                name: "Bridge address"@,
                label: "Bridge IP address"@,
                kind: "string"@,
                help: "e.g. 192.168.1.50"@,
                default,
                options: Seq::empty(),
                required: true,
            },
        ],
    }
}

/// An address that was typed is the bridge's, without the blanks around it. Where none was typed,
/// it is that of the one bridge that was found; where none or several were, it is asked for, with
/// the first one filled in and each of them shown.
pub proof fn law_the_bridge_is_the_one_typed_or_found(
    state: JsonView,
    input: Map<Seq<char>, JsonView>,
    cert: Seq<char>,
    key: Seq<char>,
    found: Seq<(Seq<char>, Seq<char>)>,
    names: Seq<Seq<char>>,
)
    requires
        is_new(state),
        found == setup::bridges_found(state),
        names.len() == found.len(),
        forall|i: int| 0 <= i < found.len() ==> #[trigger] names[i] == shown_as(found[i]),
    ensures
        ({
            let typed = text::trimmed(text_at(input, "Bridge address"@));
            let r = step(state, input, cert, key);
            &&& typed.len() > 0 ==> r == beginning(state, typed)
            &&& typed.len() == 0 && found.len() == 1 ==> r == beginning(state, found[0].1)
            &&& typed.len() == 0 && found.len() == 0 ==> r == (
                asking_for_an_address(
                    "Enter the bridge's IP address. You'll be asked to press the button on the bridge next."@,
                    None,
                ),
                state,
            )
            &&& typed.len() == 0 && found.len() > 1 ==> r == (
                asking_for_an_address(
                    "Found "@ + text::separated(names, ", "@)
                        + " on the network — pick the right one, or type an address. You'll be asked to press the button on the bridge next."@,
                    Some(JsonView::Text(found[0].1)),
                ),
                state,
            )
        }),
{
    flows::lemma_stages();
    let typed = text::trimmed(text_at(input, "Bridge address"@));
    assert(typed == setup::typed_address(input));
    assert(setup::shown(found) =~= names);
    flows::lemma_two_set(state, ("stage"@, "making_identity"@), ("address"@, typed));
    flows::lemma_two_set(state, ("stage"@, "making_identity"@), ("address"@, found[0].1));
    let stage = setup::noted(state, "stage"@);
    assert(stage.len() > 0 ==> is_at(state, stage));
    assert(step(state, input, cert, key) == setup::address_asked(state, input));
}

proof fn lemma_bridges(a: Seq<JsonView>, b: Seq<JsonView>)
    ensures
        setup::bridges_among(a + b) == setup::bridges_among(a) + setup::bridges_among(b),
    decreases b.len(),
{
    let first = setup::bridges_among(a);
    if b.len() == 0 {
        assert(a + b =~= a);
        assert(first + Seq::<(Seq<char>, Seq<char>)>::empty() =~= first);
    } else {
        lemma_bridges(a, b.drop_last());
        assert((a + b).drop_last() =~= a + b.drop_last());
        assert((a + b).last() == b.last());
        let mid = setup::bridges_among(b.drop_last());
        let last = setup::bridge_found(b.last());
        assert(first + mid + last =~= first + (mid + last));
    }
}

/// The bridges that were found are all those on the list that have a name and an address, in its
/// order.
pub proof fn law_every_bridge_on_the_network_is_found(
    state: JsonView,
    a: Seq<JsonView>,
    b: Seq<JsonView>,
    entry: JsonView,
    name: Seq<char>,
    address: Seq<char>,
)
    ensures
        setup::bridges_found(state) == setup::bridges_among(list_at(state, "mdns_candidates"@)),
        setup::bridges_among(Seq::empty()).len() == 0,
        setup::bridges_among(a + b) == setup::bridges_among(a) + setup::bridges_among(b),
        entry.get("name"@) == Some(JsonView::Text(name)) && entry.get("address"@) == Some(
            JsonView::Text(address),
        ) ==> setup::bridges_among(seq![entry]) == seq![(name, address)],
        !(entry.get("name"@) matches Some(JsonView::Text(_))) || !(entry.get(
            "address"@,
        ) matches Some(JsonView::Text(_))) ==> setup::bridges_among(seq![entry]).len() == 0,
{
    reveal_with_fuel(setup::bridges_among, 2);
    lemma_bridges(a, b);
    assert(seq![entry].drop_last() =~= Seq::<JsonView>::empty());
    assert(seq![entry].last() == entry);
    let none = Seq::<(Seq<char>, Seq<char>)>::empty();
    assert(none + setup::bridge_found(entry) =~= setup::bridge_found(entry));
}

/// An identity is a key and a request to sign; with both somebody is told what to press, and
/// without either the flow ends.
pub proof fn law_an_identity_is_a_key_and_a_request(
    state: JsonView,
    input: Map<Seq<char>, JsonView>,
    cert: Seq<char>,
    key: Seq<char>,
)
    requires
        is_at(state, "making_identity"@),
        !browses(state),
    ensures
        words::has_href(input, "key_pem"@) && words::has_href(input, "csr_pem"@) ==> step(
            state,
            input,
            cert,
            key,
        ) == (
            showing(
                "Ready to pair"@,
                "When you continue, this connects to the bridge and waits up to 30 seconds for it to confirm its button was pressed — so press and release the small button on top of the Caséta Smart Bridge right as you continue, not before."@,
            ),
            JsonView::Object(
                with_text(
                    with_text(
                        with_text(fields(state), "stage"@, "ready_to_pair"@),
                        "key_pem"@,
                        text_at(input, "key_pem"@),
                    ),
                    "csr_pem"@,
                    text_at(input, "csr_pem"@),
                ),
            ),
        ),
        !words::has_href(input, "key_pem"@) || !words::has_href(input, "csr_pem"@) ==> step(
            state,
            input,
            cert,
            key,
        ) == giving_up(
            if words::has_href(input, "error"@) {
                "could not generate a pairing key: "@ + text_at(input, "error"@)
            } else {
                "could not generate a pairing key"@
            },
        ),
{
    flows::lemma_stages();
    flows::lemma_three_set(
        state,
        ("stage"@, "ready_to_pair"@),
        ("key_pem"@, text_at(input, "key_pem"@)),
        ("csr_pem"@, text_at(input, "csr_pem"@)),
    );
}

/// Pairing opens the unauthenticated port of the bridge with the identity that everybody pairs
/// with, and says nothing.
pub proof fn law_pairing_opens_the_other_port(
    state: JsonView,
    input: Map<Seq<char>, JsonView>,
    cert: Seq<char>,
    key: Seq<char>,
)
    requires
        is_at(state, "ready_to_pair"@),
        !browses(state),
    ensures
        step(state, input, cert, key) == (
            SetupStepView::Session {
                session: None,
                open: Some(
                    ConnectView {
                        address: text_at(fields(state), "address"@),
                        port: 8083,
                        cert_pem: cert,
                        key_pem: key,
                    },
                ),
                send: Seq::empty(),
                read_ms: 1000,
                close: false,
                note: "pair"@,
            },
            JsonView::Object(
                with_text(with_text(fields(state), "stage"@, "pairing"@), "waited"@, "0"@),
            ),
        ),
{
    flows::lemma_stages();
    flows::lemma_two_set(state, ("stage"@, "pairing"@), ("waited"@, "0"@));
}

/// Whether a message says that somebody has their hand on the bridge.
pub open spec fn has_access(msg: JsonView) -> bool {
    exists|permissions: Seq<JsonView>, j: int|
        msg.get3("Body"@, "Status"@, "Permissions"@) == Some(JsonView::Array(permissions)) && 0
            <= j < permissions.len() && #[trigger] permissions[j] == JsonView::Text(
            "PhysicalAccess"@,
        )
}

proof fn lemma_access(msg: JsonView)
    ensures
        has_access(msg) <==> setup::announces_press(msg),
{
    let there = json::items_or_empty(msg.get3("Body"@, "Status"@, "Permissions"@));
    let access = JsonView::Text("PhysicalAccess"@);
    if setup::announces_press(msg) {
        let j = choose|j: int| 0 <= j < there.len() && there[j] == access;
        assert(msg.get3("Body"@, "Status"@, "Permissions"@) == Some(JsonView::Array(there)));
        assert(there[j] == access);
    }
    if has_access(msg) {
        let (permissions, j) = choose|permissions: Seq<JsonView>, j: int|
            msg.get3("Body"@, "Status"@, "Permissions"@) == Some(JsonView::Array(permissions))
                && 0 <= j < permissions.len() && #[trigger] permissions[j] == access;
        assert(there == permissions);
        assert(there.contains(access));
    }
}

/// The request to have a certificate signed, spelled out.
pub open spec fn signing(csr: Seq<char>) -> JsonView {
    JsonView::Object(
        map![
            "Header"@ => JsonView::Object(
                map![
                    "RequestType"@ => JsonView::Text("Execute"@),
                    "Url"@ => JsonView::Text("/pair"@),
                    "ClientTag"@ => JsonView::Text("get-cert"@),
                ],
            ),
            "Body"@ => JsonView::Object(
                map![
                    "CommandType"@ => JsonView::Text("CSR"@),
                    "Parameters"@ => JsonView::Object(
                        map![
                            "CSR"@ => JsonView::Text(csr),
                            "DisplayName"@ => JsonView::Text("Juno"@),
                            "DeviceUID"@ => JsonView::Text("000000000000"@),
                            "Role"@ => JsonView::Text("Admin"@),
                        ],
                    ),
                ],
            ),
        ],
    )
}

/// A press that any of the messages tells of, wherever it stands, has the certificate signed: the
/// request goes down the same connection, which closes behind it.
pub proof fn law_any_press_has_the_certificate_signed(
    state: JsonView,
    input: Map<Seq<char>, JsonView>,
    cert: Seq<char>,
    key: Seq<char>,
    i: int,
)
    requires
        is_at(state, "pairing"@),
        !browses(state),
        !words::has_text(input, "error"@),
        0 <= i < framing::messages(text_at(input, "received"@)).len(),
        has_access(framing::messages(text_at(input, "received"@))[i]),
    ensures
        step(state, input, cert, key) == (
            SetupStepView::Session {
                session: connection(input),
                open: None,
                send: codec::printed(signing(text_at(fields(state), "csr_pem"@))).push('\n'),
                read_ms: 6000,
                close: true,
                note: "pair"@,
            },
            JsonView::Object(with_text(fields(state), "stage"@, "pair_sent"@)),
        ),
{
    flows::lemma_stages();
    let msgs = framing::messages(text_at(input, "received"@));
    lemma_access(msgs[i]);
    assert(setup::any_press(msgs));
    flows::lemma_one_set(state, ("stage"@, "pair_sent"@));
}

/// Without a press the flow goes on waiting, thirty seconds at most, and then says so.
pub proof fn law_a_press_is_waited_for_thirty_times(
    state: JsonView,
    input: Map<Seq<char>, JsonView>,
    cert: Seq<char>,
    key: Seq<char>,
    waited: nat,
)
    requires
        is_at(state, "pairing"@),
        !browses(state),
        !words::has_text(input, "error"@),
        has_tried(fields(state), "waited"@, waited),
        waited <= u32::MAX,
        forall|i: int|
            0 <= i < framing::messages(text_at(input, "received"@)).len() ==> !has_access(
                #[trigger] framing::messages(text_at(input, "received"@))[i],
            ),
    ensures
        waited < 30 ==> step(state, input, cert, key) == (
            waiting(input, 1000, "pair"@),
            JsonView::Object(with_text(fields(state), "waited"@, text::decimal(waited + 1))),
        ),
        waited >= 30 ==> step(state, input, cert, key) == (
            showing(
                "No button press"@,
                "The bridge did not report a press. Continue and press the button on the front of the bridge as soon as the next screen appears."@,
            ),
            JsonView::Object(with_text(fields(state), "stage"@, "ready_to_pair"@)),
        ),
{
    flows::lemma_stages();
    lemma_tried(state, "waited"@, waited);
    let msgs = framing::messages(text_at(input, "received"@));
    assert forall|i: int| 0 <= i < msgs.len() implies !setup::announces_press(
        #[trigger] msgs[i],
    ) by {
        lemma_access(msgs[i]);
    }
    flows::lemma_one_set(state, ("waited"@, text::decimal(waited + 1)));
    flows::lemma_one_set(state, ("stage"@, "ready_to_pair"@));
}

/// A connection that breaks while pairing is not the end: somebody is told why and tries again.
pub proof fn law_pairing_is_tried_again(
    state: JsonView,
    input: Map<Seq<char>, JsonView>,
    cert: Seq<char>,
    key: Seq<char>,
    why: Seq<char>,
)
    requires
        is_at(state, "pairing"@) || is_at(state, "pair_sent"@),
        !browses(state),
        words::has(input, "error"@, JsonView::Text(why)),
    ensures
        step(state, input, cert, key) == (
            showing(
                "Not paired yet"@,
                why
                    + " — press the button on the bridge right when you continue (the bridge only recognizes a press while a client is connected and waiting), then continue."@,
            ),
            JsonView::Object(with_text(fields(state), "stage"@, "ready_to_pair"@)),
        ),
{
    flows::lemma_stages();
    flows::lemma_one_set(state, ("stage"@, "ready_to_pair"@));
}

/// Whether a response holds this text of a signing that is not empty.
pub open spec fn signs(response: JsonView, name: Seq<char>, pem: Seq<char>) -> bool {
    response.get3("Body"@, "SigningResult"@, name) == Some(JsonView::Text(pem)) && pem.len() > 0
}

/// Both certificates of a signing are kept, each as what it is, and the list is opened with them.
pub proof fn law_the_certificates_are_kept(
    state: JsonView,
    input: Map<Seq<char>, JsonView>,
    cert: Seq<char>,
    key: Seq<char>,
    response: JsonView,
    own: Seq<char>,
    root: Seq<char>,
)
    requires
        is_at(state, "pair_sent"@),
        !browses(state),
        hears(input, response),
        signs(response, "Certificate"@, own),
        signs(response, "RootCertificate"@, root),
    ensures
        ({
            let next = with_text(
                with_text(with_text(fields(state), "stage"@, "listing"@), "cert_pem"@, own),
                "ca_pem"@,
                root,
            );
            step(state, input, cert, key) == (
                opening_the_list(next),
                JsonView::Object(with_text(next, "tries"@, "0"@)),
            )
        }),
{
    flows::lemma_stages();
    flows::lemma_names();
    let updates = seq![("stage"@, "listing"@), ("cert_pem"@, own), ("ca_pem"@, root)];
    let next = setup::merged(state, updates);
    flows::lemma_three_set(
        state,
        ("stage"@, "listing"@),
        ("cert_pem"@, own),
        ("ca_pem"@, root),
    );
    flows::lemma_one_set(next, ("tries"@, "0"@));
    assert(step(state, input, cert, key) == setup::listing_begun(next));
}

/// A response without both certificates ends the flow, and the reason shows it.
pub proof fn law_a_missing_certificate_ends_the_flow(
    state: JsonView,
    input: Map<Seq<char>, JsonView>,
    cert: Seq<char>,
    key: Seq<char>,
    response: JsonView,
)
    requires
        is_at(state, "pair_sent"@),
        !browses(state),
        hears(input, response),
        (forall|pem: Seq<char>| !#[trigger] signs(response, "Certificate"@, pem)) || (forall|
            pem: Seq<char>,
        | !#[trigger] signs(response, "RootCertificate"@, pem)),
    ensures
        step(state, input, cert, key) == giving_up(
            "the bridge answered but sent no certificate: "@ + codec::printed(response),
        ),
{
    flows::lemma_stages();
    let own = json::text_or_empty(response.get3("Body"@, "SigningResult"@, "Certificate"@));
    let root = json::text_or_empty(response.get3("Body"@, "SigningResult"@, "RootCertificate"@));
    assert(own.len() > 0 ==> signs(response, "Certificate"@, own));
    assert(root.len() > 0 ==> signs(response, "RootCertificate"@, root));
}

/// Nothing but the bridge's own driver has a flow: any other finds nothing.
pub proof fn law_no_other_driver_finds_anything(
    driver_id: Seq<char>,
    state: JsonView,
    input: Map<Seq<char>, JsonView>,
    cert: Seq<char>,
    key: Seq<char>,
)
    requires
        driver_id != "lutron.caseta.leap_bridge"@,
    ensures
        driver::discovering(driver_id, state, input, cert, key) == (
            SetupStepView::Done { candidates: Seq::<CandidateView>::empty() },
            JsonView::Null,
        ),
{
}

} // verus!
