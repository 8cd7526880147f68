//! The driver as the controller calls it: setting up, commands, events, scenes and binding.

use crate::device::{
    self, device_href, notify, occupancy_href, only, pico_buttons, zone, CasetaLeap,
};
use crate::framing::{self, tx};
use crate::host::{
    HostCall, HostCallView, Instance, InstanceView, LocalId, SceneOperation, SceneRequest,
    Candidate, CandidateView, SceneResponse, SceneResponseView, SetupStep, SetupStepView,
};
use crate::json::{self, dict1, str_of, truth_of, Dict, Json, JsonView};
use crate::listing;
use crate::messages::{
    self, press_virtual_button, read_status, read_virtual_buttons, subscribe, subscribe_button,
    subscribe_occupancy,
};
use crate::remotes;
use crate::sensors;
use crate::setup::{self, field, with_fields, PairingIdentity};
use crate::tables::{self, Kind, BRIDGE_ID};
use crate::text;
use crate::zones;
use vstd::prelude::*;

verus! {

/// A step of listing a bridge that is paired already.
pub open spec fn browsing(state: JsonView, input: Map<Seq<char>, JsonView>) -> (
    SetupStepView,
    JsonView,
) {
    let stage = setup::noted(state, "stage"@);
    let response = framing::answer(framing::messages(setup::received_in(input)));
    if stage == "listing"@ {
        listing::devices_answered(state, input, false, response)
    } else if stage == "listing_buttons"@ {
        listing::buttons_answered(state, input, false, response)
    } else if stage == "listing_areas"@ {
        listing::areas_answered(state, input, response)
    } else if stage == "listing_occupancy"@ {
        listing::occupancy_answered(state, input, false, response)
    } else {
        setup::listing_begun(setup::merged(state, seq![("stage"@, "listing"@)]))
    }
}

/// A step of pairing a bridge and listing it.
pub open spec fn pairing(
    state: JsonView,
    input: Map<Seq<char>, JsonView>,
    cert_pem: Seq<char>,
    key_pem: Seq<char>,
) -> (SetupStepView, JsonView) {
    let stage = setup::noted(state, "stage"@);
    let msgs = framing::messages(setup::received_in(input));
    let response = framing::answer(msgs);
    if stage == "making_identity"@ {
        setup::identity_answered(state, input)
    } else if stage == "ready_to_pair"@ {
        setup::pairing_opened(state, cert_pem, key_pem)
    } else if stage == "pairing"@ {
        setup::press_awaited(state, input, msgs)
    } else if stage == "pair_sent"@ {
        setup::pair_answered(state, input, response)
    } else if stage == "listing"@ {
        listing::devices_answered(state, input, true, response)
    } else if stage == "listing_buttons"@ {
        listing::buttons_answered(state, input, true, response)
    } else if stage == "listing_areas"@ {
        listing::areas_answered(state, input, response)
    } else if stage == "listing_occupancy"@ {
        listing::occupancy_answered(state, input, true, response)
    } else {
        setup::address_asked(state, input)
    }
}

/// Whether the state was seeded with the properties of a bridge that is paired already.
pub open spec fn is_browsing(state: JsonView) -> bool {
    json::bool_of(state.get("browse"@)) == Some(true)
}

/// One step of the setup flow. Nothing but a bridge is set up on its own.
pub open spec fn discovering(
    driver_id: Seq<char>,
    state: JsonView,
    input: Map<Seq<char>, JsonView>,
    cert_pem: Seq<char>,
    key_pem: Seq<char>,
) -> (SetupStepView, JsonView) {
    if driver_id != BRIDGE_ID@ {
        (SetupStepView::Done { candidates: Seq::empty() }, JsonView::Null)
    } else if is_browsing(state) {
        browsing(state, input)
    } else {
        pairing(state, input, cert_pem, key_pem)
    }
}

/// What becomes of a device on a command: which kind of zone it is decides.
pub open spec fn commanded(
    inst: InstanceView,
    cmd: Seq<char>,
    args: Map<Seq<char>, JsonView>,
) -> (InstanceView, Seq<HostCallView>) {
    match tables::kind_of(inst) {
        Kind::Light => zones::light_command(inst, cmd, args),
        Kind::Switch => (inst, zones::switch_calls(inst, cmd)),
        Kind::Fan => (inst, zones::fan_calls(inst, cmd, args)),
        Kind::Shade => (inst, zones::shade_calls(inst, cmd, args)),
    }
}

/// What becomes of a device on an event. A remote has keys, an occupancy group has its href, a
/// zone has a zone, and what has none of them is the bridge.
pub open spec fn evented(
    inst: InstanceView,
    note: Seq<char>,
    args: Map<Seq<char>, JsonView>,
) -> (InstanceView, Seq<HostCallView>) {
    if device::buttons_of(inst).len() > 0 {
        remotes::remote_event(inst, note, args)
    } else {
        match (device::group_of(inst), device::heard(note, args)) {
            (Some(group), Some(msgs)) => (inst, sensors::occupancy_messages(group, msgs)),
            (Some(_), None) => (inst, Seq::empty()),
            (None, heard) => match (device::zone_of(inst), heard) {
                (Some(_), _) => zones::zone_event(inst, note, args),
                (None, Some(msgs)) => (inst, sensors::bridge_messages(msgs)),
                (None, None) => (inst, Seq::empty()),
            },
        }
    }
}

/// The problem with a recall of something that is no scene of a bridge.
pub const NO_SCENE: &'static str = "caseta-leap: not a Caséta scene";

/// The problem with anything else that is wanted of a scene.
pub const ONLY_RECALL: &'static str =
    "caseta-leap: Caséta scenes are programmed in the Caséta app and can only be recalled from here";

/// What comes of a request about a scene: the press of a virtual button, or a problem.
pub open spec fn scene_answer(
    operation: SceneOperation,
    resource: Option<Seq<char>>,
) -> SceneResponseView {
    match operation {
        SceneOperation::Recall => match resource {
            Some(href) => if "/virtualbutton/"@.is_prefix_of(href) {
                SceneResponseView {
                    calls: seq![framing::transmission(messages::verb_view(href, "PressAndRelease"@))],
                    problem: None,
                }
            } else {
                SceneResponseView { calls: Seq::empty(), problem: Some(NO_SCENE@) }
            },
            None => SceneResponseView { calls: Seq::empty(), problem: Some(NO_SCENE@) },
        },
        SceneOperation::Manage => SceneResponseView {
            calls: Seq::empty(),
            problem: Some(ONLY_RECALL@),
        },
    }
}

/// What every device says when it is bound.
pub open spec fn online() -> HostCallView {
    device::notification("online_changed"@, map!["online"@ => JsonView::Bool(true)])
}

/// A subscription to each of some keys.
pub open spec fn key_subscriptions(buttons: Seq<(u64, Seq<char>)>) -> Seq<HostCallView> {
    Seq::new(
        buttons.len(),
        |i: int|
            framing::transmission(messages::subscribe_view(buttons[i].1 + "/status/event"@)),
    )
}

/// The question about a remote's battery. Nothing but a remote that knows its own place asks it.
pub open spec fn battery_question(inst: InstanceView) -> Seq<HostCallView> {
    match device::place_of(inst) {
        Some(place) => if device::buttons_of(inst).len() > 0 {
            seq![framing::transmission(messages::read_view(place + "/status"@))]
        } else {
            Seq::empty()
        },
        None => Seq::empty(),
    }
}

/// Whether a device is the bridge itself: it has a certificate, and neither a zone nor a key.
pub open spec fn is_bridge(inst: InstanceView) -> bool {
    &&& json::text_or_empty(inst.property("Client certificate"@)).len() > 0
    &&& device::zone_of(inst) is None
    &&& device::buttons_of(inst).len() == 0
}

/// What a device does when it is bound.
pub open spec fn binding_calls(inst: InstanceView) -> Seq<HostCallView> {
    let zone_calls = match device::zone_of(inst) {
        Some(zone) => seq![
            framing::transmission(messages::subscribe_view(zone + "/status"@)),
        ],
        None => Seq::empty(),
    };
    seq![online()] + zone_calls + if device::group_of(inst) is Some {
        seq![
            framing::transmission(messages::subscribe_view("/occupancygroup/status"@)),
        ]
    } else if is_bridge(inst) {
        seq![framing::transmission(messages::read_view("/virtualbutton"@))]
    } else {
        key_subscriptions(device::buttons_of(inst)) + battery_question(inst)
    }
}

fn browse(state: &Json, input: &Dict) -> (r: (SetupStep, Json))
    ensures
        (r.0@, r.1@) == browsing(state@, input@),
{
    let stage = field(state, "stage");
    let stage = stage.as_str();
    if text::same(stage, "listing") {
        CasetaLeap::handle_device_list(state, input, false)
    } else if text::same(stage, "listing_buttons") {
        CasetaLeap::handle_buttons(state, input, false)
    } else if text::same(stage, "listing_areas") {
        CasetaLeap::handle_areas(state, input, false)
    } else if text::same(stage, "listing_occupancy") {
        CasetaLeap::handle_occupancy(state, input, false)
    } else {
        let updates = [("stage", "listing")];
        assert(updates.deep_view() =~= seq![("stage"@, "listing"@)]);
        CasetaLeap::request_device_list(&with_fields(state, &updates))
    }
}

fn pair(state: &Json, input: &Dict, identity: &PairingIdentity) -> (r: (SetupStep, Json))
    ensures
        (r.0@, r.1@) == pairing(state@, input@, identity.cert_pem@, identity.key_pem@),
{
    let stage = field(state, "stage");
    let stage = stage.as_str();
    if text::same(stage, "making_identity") {
        CasetaLeap::identity_made(state, input)
    } else if text::same(stage, "ready_to_pair") {
        CasetaLeap::send_pair_request(state, identity)
    } else if text::same(stage, "pairing") {
        CasetaLeap::await_button_press(state, input)
    } else if text::same(stage, "pair_sent") {
        CasetaLeap::handle_pair_response(state, input)
    } else if text::same(stage, "listing") {
        CasetaLeap::handle_device_list(state, input, true)
    } else if text::same(stage, "listing_buttons") {
        CasetaLeap::handle_buttons(state, input, true)
    } else if text::same(stage, "listing_areas") {
        CasetaLeap::handle_areas(state, input, true)
    } else if text::same(stage, "listing_occupancy") {
        CasetaLeap::handle_occupancy(state, input, true)
    } else {
        CasetaLeap::ask_address(state, input)
    }
}

fn subscribe_keys(calls: &mut Vec<HostCall>, buttons: &Vec<(u64, String)>)
    ensures
        final(calls).deep_view() == old(calls).deep_view() + key_subscriptions(buttons.deep_view()),
{
    let ghost before = calls.deep_view();
    let ghost all = key_subscriptions(buttons.deep_view());
    let mut i: usize = 0;
    assert(calls.deep_view() =~= before + all.take(0));
    while i < buttons.len()
        invariant
            i <= buttons@.len(),
            all == key_subscriptions(buttons.deep_view()),
            calls.deep_view() == before + all.take(i as int),
        decreases buttons@.len() - i,
    {
        let ghost so_far = calls.deep_view();
        calls.push(tx(&subscribe_button(buttons[i].1.as_str())));
        proof {
            assert(calls.deep_view() =~= so_far.push(all[i as int]));
            assert(so_far.push(all[i as int]) =~= before + all.take(i + 1));
        }
        i += 1;
    }
    assert(all.take(i as int) =~= all);
}

fn ask_battery(calls: &mut Vec<HostCall>, inst: &Instance)
    ensures
        final(calls).deep_view() == old(calls).deep_view() + battery_question(inst@),
{
    let ghost before = calls.deep_view();
    if pico_buttons(inst).len() > 0 {
        match device_href(inst) {
            Some(href) => {
                calls.push(tx(&read_status(href.as_str())));
            },
            None => {},
        }
    }
    assert(calls.deep_view() =~= before + battery_question(inst@));
}

fn bridge_itself(inst: &Instance) -> (r: bool)
    ensures
        r == is_bridge(inst@),
{
    let certified: bool = match str_of(inst.property("Client certificate")) {
        Some(cert) => !cert.is_empty(),
        None => false,
    };
    certified && zone(inst).is_none() && pico_buttons(inst).len() == 0
}

impl CasetaLeap {
    /// One step of the setup flow of a bridge: pairing it first, unless it is paired already.
    /// Everything else is found by browsing its bridge.
    pub fn discover(
        &self,
        driver_id: &str,
        state: &Json,
        input: &Dict,
        identity: &PairingIdentity,
    ) -> (r: (SetupStep, Json))
        ensures
            (r.0@, r.1@) == discovering(
                driver_id@,
                state@,
                input@,
                identity.cert_pem@,
                identity.key_pem@,
            ),
    {
        if !text::same(driver_id, BRIDGE_ID) {
            let none: Vec<Candidate> = Vec::new();
            assert(none.deep_view() =~= Seq::<CandidateView>::empty());
            return (SetupStep::Done { candidates: none }, Json::Null);
        }
        match truth_of(state.get("browse")) {
            Some(true) => browse(state, input),
            _ => pair(state, input, identity),
        }
    }

    /// A command for a zone. Neither the bridge nor a remote takes any.
    pub fn on_command(
        &self,
        inst: &mut Instance,
        _proxy: LocalId,
        cmd: &str,
        args: &Dict,
    ) -> (r: Vec<HostCall>)
        ensures
            (final(inst)@, r.deep_view()) == commanded(old(inst)@, cmd@, args@),
    {
        match Kind::of(inst) {
            Kind::Light => Self::on_dimmer_command(inst, cmd, args),
            Kind::Switch => Self::on_switch_command(inst, cmd),
            Kind::Fan => Self::on_fan_command(inst, cmd, args),
            Kind::Shade => Self::on_shade_command(inst, cmd, args),
        }
    }

    /// Something happened on a device's connection, or a wake-up came.
    pub fn on_event(
        &self,
        inst: &mut Instance,
        _control: LocalId,
        note: &str,
        args: &Dict,
    ) -> (r: Vec<HostCall>)
        ensures
            (final(inst)@, r.deep_view()) == evented(old(inst)@, note@, args@),
    {
        if pico_buttons(inst).len() > 0 {
            return Self::on_pico_event(inst, note, args);
        }
        match occupancy_href(inst) {
            Some(group) => return Self::on_occupancy_event(group.as_str(), note, args),
            None => {},
        }
        if zone(inst).is_none() {
            return Self::on_bridge_event(note, args);
        }
        Self::on_dimmer_event(inst, note, args)
    }

    /// A scene that lives in the bridge can be recalled, and nothing else: what a virtual button
    /// does was decided in the app that belongs to the bridge.
    pub fn on_scene(&self, _inst: &mut Instance, request: &SceneRequest) -> (r: SceneResponse)
        ensures
            r@ == scene_answer(request.operation, request.resource.deep_view()),
            *final(_inst) == *old(_inst),
    {
        match request.operation {
            SceneOperation::Recall => {
                match &request.resource {
                    Some(resource) => {
                        if text::starts_with(resource.as_str(), "/virtualbutton/") {
                            return SceneResponse {
                                calls: only(tx(&press_virtual_button(resource.as_str()))),
                                problem: None,
                            };
                        }
                    },
                    None => {},
                }
                SceneResponse { calls: device::nothing(), problem: Some(NO_SCENE.to_owned()) }
            },
            SceneOperation::Manage => SceneResponse {
                calls: device::nothing(),
                problem: Some(ONLY_RECALL.to_owned()),
            },
        }
    }

    /// A device is bound: it says that it is there, and subscribes to what it has to hear.
    pub fn on_bind(&self, inst: &mut Instance) -> (r: Vec<HostCall>)
        ensures
            r.deep_view() == binding_calls(old(inst)@),
            *final(inst) == *old(inst),
    {
        let mut out = only(notify("online_changed", dict1("online", Json::Bool(true))));
        match zone(inst) {
            Some(z) => {
                out.push(tx(&subscribe(z.as_str())));
            },
            None => {},
        }
        if occupancy_href(inst).is_some() {
            out.push(tx(&subscribe_occupancy()));
            assert(out.deep_view() =~= binding_calls(inst@));
            return out;
        }
        if bridge_itself(inst) {
            out.push(tx(&read_virtual_buttons()));
            assert(out.deep_view() =~= binding_calls(inst@));
            return out;
        }
        let buttons = pico_buttons(inst);
        subscribe_keys(&mut out, &buttons);
        ask_battery(&mut out, inst);
        assert(out.deep_view() =~= binding_calls(inst@));
        out
    }
}

} // verus!
