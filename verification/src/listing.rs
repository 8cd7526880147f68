//! Listing what is behind a bridge: its devices, the buttons of its remotes, its areas and their
//! occupancy groups, one read after the other down one connection.

use crate::candidates;
use crate::device::CasetaLeap;
use crate::framing::{self, leap_answer, leap_line};
use crate::host::{SetupStep, SetupStepView};
use crate::json::{
    self, array_of, copy_items, items_copied, row, str_of, str_or_empty, Dict, Json, JsonView,
};
use crate::messages::{self, joined, read_request};
use crate::setup::{self, with_fields};
use crate::tables::{self, is_pico, READ_RETRIES};
use crate::text;
use vstd::prelude::*;

verus! {

/// Listen again on the connection that was just asked something, unless the bridge had all its
/// chances.
pub open spec fn another_read(
    state: JsonView,
    input: Map<Seq<char>, JsonView>,
    stage: Seq<char>,
) -> Option<(SetupStepView, JsonView)> {
    let tries = setup::count_in(state, "tries"@);
    if tries >= READ_RETRIES {
        None
    } else {
        Some(
            (
                setup::listening(setup::session_of(input), 2000, "list"@),
                setup::merged(
                    state,
                    seq![("stage"@, stage), ("tries"@, text::decimal((tries + 1) as nat))],
                ),
            ),
        )
    }
}

/// Listen again, or fail with a reason where the bridge had all its chances.
pub open spec fn another_read_or(
    state: JsonView,
    input: Map<Seq<char>, JsonView>,
    stage: Seq<char>,
    reason: Seq<char>,
) -> (SetupStepView, JsonView) {
    match another_read(state, input, stage) {
        Some(again) => again,
        None => setup::failing(reason),
    }
}

/// A read down the connection that is open.
pub open spec fn reading(input: Map<Seq<char>, JsonView>, url: Seq<char>) -> SetupStepView {
    SetupStepView::Session {
        session: setup::session_of(input),
        open: None,
        send: framing::framed(messages::read_view(url)),
        read_ms: 6000,
        close: false,
        note: "list"@,
    }
}

/// How a truth value is kept in the state.
pub open spec fn truth_word(b: bool) -> Seq<char> {
    if b {
        "true"@
    } else {
        "false"@
    }
}

/// The bridge is asked for every button behind it. The devices are kept for later.
pub open spec fn buttons_asked(
    state: JsonView,
    input: Map<Seq<char>, JsonView>,
    include_bridge: bool,
    devices: Seq<JsonView>,
) -> (SetupStepView, JsonView) {
    let next = setup::merged(
        state,
        seq![
            ("stage"@, "listing_buttons"@),
            ("include_bridge"@, truth_word(include_bridge)),
            ("tries"@, "0"@),
        ],
    );
    (reading(input, "/button"@), setup::carrying(next, "devices_json"@, devices))
}

/// The bridge is asked for its areas. The devices and the buttons are kept for later.
pub open spec fn areas_asked(
    state: JsonView,
    input: Map<Seq<char>, JsonView>,
    include_bridge: bool,
    devices: Seq<JsonView>,
    buttons: Seq<JsonView>,
) -> (SetupStepView, JsonView) {
    let next = setup::merged(
        state,
        seq![
            ("stage"@, "listing_areas"@),
            ("include_bridge"@, truth_word(include_bridge)),
            ("tries"@, "0"@),
        ],
    );
    (
        reading(input, "/area"@),
        setup::carrying(
            setup::carrying(next, "devices_json"@, devices),
            "buttons_json"@,
            buttons,
        ),
    )
}

/// Whether any of some devices is a remote.
pub open spec fn any_remote(devices: Seq<JsonView>) -> bool {
    exists|i: int|
        0 <= i < devices.len() && tables::is_remote(
            json::text_or_empty((#[trigger] devices[i]).get("DeviceType"@)),
        )
}

/// What comes of asking for the devices. Only a remote makes it worth asking for the buttons.
pub open spec fn devices_answered(
    state: JsonView,
    input: Map<Seq<char>, JsonView>,
    include_bridge: bool,
    response: JsonView,
) -> (SetupStepView, JsonView) {
    match setup::trouble_in(input) {
        Some(why) => setup::failing("could not read the bridge's device list: "@ + why),
        None => match json::items_of(response.get2("Body"@, "Devices"@)) {
            Some(devices) => if any_remote(devices) {
                buttons_asked(state, input, include_bridge, devices)
            } else {
                areas_asked(state, input, include_bridge, devices, Seq::empty())
            },
            None => another_read_or(
                state,
                input,
                "listing"@,
                "the bridge did not answer with its device list"@,
            ),
        },
    }
}

/// What comes of asking for the buttons.
pub open spec fn buttons_answered(
    state: JsonView,
    input: Map<Seq<char>, JsonView>,
    include_bridge: bool,
    response: JsonView,
) -> (SetupStepView, JsonView) {
    match setup::trouble_in(input) {
        Some(why) => setup::failing("could not read the bridge's buttons: "@ + why),
        None => match json::items_of(response.get2("Body"@, "Buttons"@)) {
            Some(buttons) => areas_asked(
                state,
                input,
                include_bridge,
                json::items_or_empty(state.get("devices_json"@)),
                buttons,
            ),
            None => another_read_or(
                state,
                input,
                "listing_buttons"@,
                "the bridge did not answer with its buttons"@,
            ),
        },
    }
}

/// What comes of asking for the areas.
pub open spec fn areas_answered(
    state: JsonView,
    input: Map<Seq<char>, JsonView>,
    response: JsonView,
) -> (SetupStepView, JsonView) {
    match setup::trouble_in(input) {
        Some(why) => setup::failing("could not read the bridge's areas: "@ + why),
        None => match json::items_of(response.get2("Body"@, "Areas"@)) {
            Some(areas) => (
                reading(input, "/occupancygroup"@),
                setup::carrying(
                    setup::merged(
                        state,
                        seq![("stage"@, "listing_occupancy"@), ("tries"@, "0"@)],
                    ),
                    "areas_json"@,
                    areas,
                ),
            ),
            None => another_read_or(
                state,
                input,
                "listing_areas"@,
                "the bridge did not answer with its areas"@,
            ),
        },
    }
}

/// The end of the flow, with what was found.
pub open spec fn finishing(state: JsonView, include_bridge: bool, groups: Seq<JsonView>) -> (
    SetupStepView,
    JsonView,
) {
    (
        SetupStepView::Done { candidates: candidates::gathered(state, include_bridge, groups) },
        JsonView::Null,
    )
}

/// What comes of asking for the occupancy groups. A bridge that does not answer still finishes
/// with the devices that were found before.
pub open spec fn occupancy_answered(
    state: JsonView,
    input: Map<Seq<char>, JsonView>,
    include_bridge: bool,
    response: JsonView,
) -> (SetupStepView, JsonView) {
    let groups = if input.contains_key("error"@) {
        None
    } else {
        json::items_of(response.get2("Body"@, "OccupancyGroups"@))
    };
    match groups {
        Some(groups) => finishing(state, include_bridge, groups),
        None => match another_read(state, input, "listing_occupancy"@) {
            Some(again) => again,
            None => finishing(state, include_bridge, Seq::empty()),
        },
    }
}

fn read_again_or(state: &Json, input: &Dict, stage: &str, reason: &str) -> (r: (SetupStep, Json))
    ensures
        (r.0@, r.1@) == another_read_or(state@, input@, stage@, reason@),
{
    match CasetaLeap::read_again(state, input, stage) {
        Some(again) => again,
        None => setup::failed(reason.to_owned()),
    }
}

fn truth(b: bool) -> (r: &'static str)
    ensures
        r@ == truth_word(b),
{
    if b {
        "true"
    } else {
        "false"
    }
}

fn has_remote(devices: &Vec<Json>) -> (r: bool)
    ensures
        r == any_remote(devices.deep_view()),
{
    let ghost all = devices.deep_view();
    let mut i: usize = 0;
    while i < devices.len()
        invariant
            i <= devices@.len(),
            all == devices.deep_view(),
            forall|k: int|
                0 <= k < i ==> !tables::is_remote(
                    json::text_or_empty((#[trigger] all[k]).get("DeviceType"@)),
                ),
        decreases devices@.len() - i,
    {
        assert(all[i as int] == devices@[i as int]@);
        if is_pico(str_or_empty(devices[i].get("DeviceType"))) {
            return true;
        }
        i += 1;
    }
    false
}

/// What comes of asking for the devices, for the reply that the bridge made.
pub fn on_devices_answered(
    state: &Json,
    input: &Dict,
    include_bridge: bool,
    response: &Json,
) -> (r: (SetupStep, Json))
    ensures
        (r.0@, r.1@) == devices_answered(state@, input@, include_bridge, response@),
{
    match str_of(input.get("error")) {
        Some(why) => {
            return setup::failed(joined("could not read the bridge's device list: ", why));
        },
        None => {},
    }
    match array_of(response.get2("Body", "Devices")) {
        Some(devices) => {
            if has_remote(devices) {
                return CasetaLeap::request_buttons(
                    state,
                    input,
                    include_bridge,
                    copy_items(devices),
                );
            }
            let none: Vec<Json> = Vec::new();
            assert(none.deep_view() =~= Seq::<JsonView>::empty());
            CasetaLeap::request_areas(state, input, include_bridge, copy_items(devices), none)
        },
        None => read_again_or(
            state,
            input,
            "listing",
            "the bridge did not answer with its device list",
        ),
    }
}

/// What comes of asking for the buttons, for the reply that the bridge made.
pub fn on_buttons_answered(
    state: &Json,
    input: &Dict,
    include_bridge: bool,
    response: &Json,
) -> (r: (SetupStep, Json))
    ensures
        (r.0@, r.1@) == buttons_answered(state@, input@, include_bridge, response@),
{
    match str_of(input.get("error")) {
        Some(why) => {
            return setup::failed(joined("could not read the bridge's buttons: ", why));
        },
        None => {},
    }
    match array_of(response.get2("Body", "Buttons")) {
        Some(buttons) => CasetaLeap::request_areas(
            state,
            input,
            include_bridge,
            items_copied(state.get("devices_json")),
            copy_items(buttons),
        ),
        None => read_again_or(
            state,
            input,
            "listing_buttons",
            "the bridge did not answer with its buttons",
        ),
    }
}

/// What comes of asking for the areas, for the reply that the bridge made.
pub fn on_areas_answered(state: &Json, input: &Dict, response: &Json) -> (r: (SetupStep, Json))
    ensures
        (r.0@, r.1@) == areas_answered(state@, input@, response@),
{
    match str_of(input.get("error")) {
        Some(why) => {
            return setup::failed(joined("could not read the bridge's areas: ", why));
        },
        None => {},
    }
    match array_of(response.get2("Body", "Areas")) {
        Some(areas) => {
            let updates = [("stage", "listing_occupancy"), ("tries", "0")];
            assert(updates.deep_view() =~= seq![
                ("stage"@, "listing_occupancy"@),
                ("tries"@, "0"@),
            ]);
            let next = with_fields(state, &updates);
            (
                CasetaLeap::read_on_this_connection(input, "/occupancygroup"),
                setup::carry(&next, "areas_json", copy_items(areas)),
            )
        },
        None => read_again_or(
            state,
            input,
            "listing_areas",
            "the bridge did not answer with its areas",
        ),
    }
}

fn finish(state: &Json, include_bridge: bool, groups: &[Json]) -> (r: (SetupStep, Json))
    ensures
        (r.0@, r.1@) == finishing(state@, include_bridge, groups.deep_view()),
{
    (
        SetupStep::Done { candidates: CasetaLeap::all_candidates(state, include_bridge, groups) },
        Json::Null,
    )
}

/// What comes of asking for the occupancy groups, for the reply that the bridge made.
pub fn on_occupancy_answered(
    state: &Json,
    input: &Dict,
    include_bridge: bool,
    response: &Json,
) -> (r: (SetupStep, Json))
    ensures
        (r.0@, r.1@) == occupancy_answered(state@, input@, include_bridge, response@),
{
    if input.get("error").is_none() {
        match array_of(response.get2("Body", "OccupancyGroups")) {
            Some(groups) => return finish(state, include_bridge, row(groups)),
            None => {},
        }
    }
    match CasetaLeap::read_again(state, input, "listing_occupancy") {
        Some(again) => again,
        None => {
            let none: Vec<Json> = Vec::new();
            assert(none.deep_view() =~= Seq::<JsonView>::empty());
            finish(state, include_bridge, row(&none))
        },
    }
}

impl CasetaLeap {
    /// Listen again on the connection that was just asked something.
    ///
    /// `None` once the bridge has had all its chances: then it is not answering, which is a
    /// failure to report rather than an empty list to draw.
    pub fn read_again(state: &Json, input: &Dict, stage: &str) -> (r: Option<(SetupStep, Json)>)
        ensures
            (match r {
                Some(again) => Some((again.0@, again.1@)),
                None => None,
            }) == another_read(state@, input@, stage@),
    {
        let tries: u32 = setup::count(state, "tries");
        if tries >= READ_RETRIES {
            return None;
        }
        let next = text::to_decimal(tries as u64 + 1);
        let updates = [("stage", stage), ("tries", next.as_str())];
        assert(updates.deep_view() =~= seq![
            ("stage"@, stage@),
            ("tries"@, text::decimal((tries + 1) as nat)),
        ]);
        Some(
            (setup::listen(setup::session(input), 2000, "list"), with_fields(state, &updates)),
        )
    }

    /// A read down the connection that this flow already has open.
    pub fn read_on_this_connection(input: &Dict, url: &str) -> (r: SetupStep)
        ensures
            r@ == reading(input@, url@),
    {
        SetupStep::Session {
            session: setup::session(input),
            open: None,
            send: leap_line(&read_request(url)),
            read_ms: 6000,
            close: false,
            note: "list".to_owned(),
        }
    }

    /// Every key on every remote behind this bridge, in one read. A button carries its own number
    /// and the group that it stands in.
    pub fn request_buttons(
        state: &Json,
        input: &Dict,
        include_bridge: bool,
        devices: Vec<Json>,
    ) -> (r: (SetupStep, Json))
        ensures
            (r.0@, r.1@) == buttons_asked(state@, input@, include_bridge, devices.deep_view()),
    {
        let updates = [
            ("stage", "listing_buttons"),
            ("include_bridge", truth(include_bridge)),
            ("tries", "0"),
        ];
        assert(updates.deep_view() =~= seq![
            ("stage"@, "listing_buttons"@),
            ("include_bridge"@, truth_word(include_bridge)),
            ("tries"@, "0"@),
        ]);
        let next = with_fields(state, &updates);
        (
            Self::read_on_this_connection(input, "/button"),
            setup::carry(&next, "devices_json", devices),
        )
    }

    /// The names of the rooms that the bridge knows. An occupancy group is identified by its area
    /// and by nothing else.
    pub fn request_areas(
        state: &Json,
        input: &Dict,
        include_bridge: bool,
        devices: Vec<Json>,
        buttons: Vec<Json>,
    ) -> (r: (SetupStep, Json))
        ensures
            (r.0@, r.1@) == areas_asked(
                state@,
                input@,
                include_bridge,
                devices.deep_view(),
                buttons.deep_view(),
            ),
    {
        let updates = [
            ("stage", "listing_areas"),
            ("include_bridge", truth(include_bridge)),
            ("tries", "0"),
        ];
        assert(updates.deep_view() =~= seq![
            ("stage"@, "listing_areas"@),
            ("include_bridge"@, truth_word(include_bridge)),
            ("tries"@, "0"@),
        ]);
        let next = with_fields(state, &updates);
        let next = setup::carry(&next, "devices_json", devices);
        (
            Self::read_on_this_connection(input, "/area"),
            setup::carry(&next, "buttons_json", buttons),
        )
    }

    /// The bridge answered with its devices, or has yet to.
    pub fn handle_device_list(state: &Json, input: &Dict, include_bridge: bool) -> (r: (
        SetupStep,
        Json,
    ))
        ensures
            (r.0@, r.1@) == devices_answered(
                state@,
                input@,
                include_bridge,
                framing::answer(framing::messages(setup::received_in(input@))),
            ),
    {
        let response = leap_answer(str_or_empty(input.get("received")));
        on_devices_answered(state, input, include_bridge, &response)
    }

    /// The bridge answered with its buttons, or has yet to.
    pub fn handle_buttons(state: &Json, input: &Dict, include_bridge: bool) -> (r: (
        SetupStep,
        Json,
    ))
        ensures
            (r.0@, r.1@) == buttons_answered(
                state@,
                input@,
                include_bridge,
                framing::answer(framing::messages(setup::received_in(input@))),
            ),
    {
        let response = leap_answer(str_or_empty(input.get("received")));
        on_buttons_answered(state, input, include_bridge, &response)
    }

    /// The bridge answered with its areas, or has yet to.
    pub fn handle_areas(state: &Json, input: &Dict, _include_bridge: bool) -> (r: (
        SetupStep,
        Json,
    ))
        ensures
            (r.0@, r.1@) == areas_answered(
                state@,
                input@,
                framing::answer(framing::messages(setup::received_in(input@))),
            ),
    {
        let response = leap_answer(str_or_empty(input.get("received")));
        on_areas_answered(state, input, &response)
    }

    /// The bridge answered with its occupancy groups, or has yet to, or could not.
    pub fn handle_occupancy(state: &Json, input: &Dict, include_bridge: bool) -> (r: (
        SetupStep,
        Json,
    ))
        ensures
            (r.0@, r.1@) == occupancy_answered(
                state@,
                input@,
                include_bridge,
                framing::answer(framing::messages(setup::received_in(input@))),
            ),
    {
        let response = leap_answer(str_or_empty(input.get("received")));
        on_occupancy_answered(state, input, include_bridge, &response)
    }
}

} // verus!
