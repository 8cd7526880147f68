//! The messages that this driver sends.

use crate::json::{array, dict1, dict2, dict3, string, Json, JsonView};
use crate::tables;
use crate::text;
use vstd::prelude::*;

verus! {

/// `a` followed by `b`.
pub fn joined(a: &str, b: &str) -> (r: String)
    ensures
        r@ == a@ + b@,
{
    let mut r = a.to_owned();
    r.append(b);
    r
}

/// A request of the kind `communique` for `url`.
pub open spec fn request_view(communique: Seq<char>, url: Seq<char>) -> JsonView {
    JsonView::Object(
        map![
            "CommuniqueType"@ => JsonView::Text(communique),
            "Header"@ => JsonView::Object(map!["Url"@ => JsonView::Text(url)]),
        ],
    )
}

/// A request to read `url` once.
pub open spec fn read_view(url: Seq<char>) -> JsonView {
    request_view("ReadRequest"@, url)
}

/// A request to read `url` and to keep hearing about it.
pub open spec fn subscribe_view(url: Seq<char>) -> JsonView {
    request_view("SubscribeRequest"@, url)
}

/// A command for the thing at `href`, wrapped the one way the bridge accepts a command.
pub open spec fn command_view(href: Seq<char>, command: JsonView) -> JsonView {
    JsonView::Object(
        map![
            "CommuniqueType"@ => JsonView::Text("CreateRequest"@),
            "Header"@ => JsonView::Object(
                map!["Url"@ => JsonView::Text(href + "/commandprocessor"@)],
            ),
            "Body"@ => JsonView::Object(map!["Command"@ => command]),
        ],
    )
}

/// A duration as hours, minutes and seconds.
pub open spec fn clock(seconds: nat) -> Seq<char> {
    text::two_places(text::decimal(seconds / 3600)) + ":"@ + text::two_places(
        text::decimal((seconds % 3600) / 60),
    ) + ":"@ + text::two_places(text::decimal(seconds % 60))
}

/// Go to a brightness, fading for so many seconds.
pub open spec fn dim_view(zone: Seq<char>, level: u8, fade_secs: u64) -> JsonView {
    command_view(
        zone,
        JsonView::Object(
            map![
                "CommandType"@ => JsonView::Text("GoToDimmedLevel"@),
                "DimmedLevelParameters"@ => JsonView::Object(
                    map![
                        "Level"@ => JsonView::Unsigned(level as u64),
                        "FadeTime"@ => JsonView::Text(clock(fade_secs as nat)),
                    ],
                ),
            ],
        ),
    )
}

/// Go to a level at once.
pub open spec fn level_view(zone: Seq<char>, level: u8) -> JsonView {
    command_view(
        zone,
        JsonView::Object(
            map![
                "CommandType"@ => JsonView::Text("GoToLevel"@),
                "Parameter"@ => JsonView::Array(
                    seq![
                        JsonView::Object(
                            map![
                                "Type"@ => JsonView::Text("Level"@),
                                "Value"@ => JsonView::Unsigned(level as u64),
                            ],
                        ),
                    ],
                ),
            ],
        ),
    )
}

/// Run a fan at a speed that LEAP names.
pub open spec fn fan_view(zone: Seq<char>, leap_speed: Seq<char>) -> JsonView {
    command_view(
        zone,
        JsonView::Object(
            map![
                "CommandType"@ => JsonView::Text("GoToFanSpeed"@),
                "FanSpeedParameters"@ => JsonView::Object(
                    map!["FanSpeed"@ => JsonView::Text(leap_speed)],
                ),
            ],
        ),
    )
}

/// A command that takes no parameters.
pub open spec fn verb_view(href: Seq<char>, verb: Seq<char>) -> JsonView {
    command_view(href, JsonView::Object(map!["CommandType"@ => JsonView::Text(verb)]))
}

/// Tilt the slats of a shade.
pub open spec fn tilt_view(zone: Seq<char>, tilt: u8) -> JsonView {
    command_view(
        zone,
        JsonView::Object(
            map![
                "CommandType"@ => JsonView::Text("GoToTilt"@),
                "TiltParameters"@ => JsonView::Object(
                    map!["Tilt"@ => JsonView::Unsigned(tilt as u64)],
                ),
            ],
        ),
    )
}

/// The request to sign a certificate for this installation.
pub open spec fn signing_view(csr: Seq<char>) -> JsonView {
    JsonView::Object(
        map![
            "Header"@ => JsonView::Object(
                map![
                    "RequestType"@ => JsonView::Text("Execute"@),
                    "Url"@ => JsonView::Text("/pair"@),
                    "ClientTag"@ => JsonView::Text("get-cert"@),
                ],
            ),
            "Body"@ => JsonView::Object(
                map![
                    "CommandType"@ => JsonView::Text("CSR"@),
                    "Parameters"@ => JsonView::Object(
                        map![
                            "CSR"@ => JsonView::Text(csr),
                            "DisplayName"@ => JsonView::Text("Juno"@),
                            "DeviceUID"@ => JsonView::Text("000000000000"@),
                            "Role"@ => JsonView::Text("Admin"@),
                        ],
                    ),
                ],
            ),
        ],
    )
}

fn request(communique: &str, url: &str) -> (r: Json)
    ensures
        r@ == request_view(communique@, url@),
{
    Json::Object(
        dict2(
            "CommuniqueType",
            string(communique),
            "Header",
            Json::Object(dict1("Url", string(url))),
        ),
    )
}

/// Read `url` once.
pub fn read_request(url: &str) -> (r: Json)
    ensures
        r@ == read_view(url@),
{
    request("ReadRequest", url)
}

/// Everything above, wrapped the one way the bridge accepts a command.
pub fn zone_command(zone: &str, command: Json) -> (r: Json)
    ensures
        r@ == command_view(zone@, command@),
{
    let url = joined(zone, "/commandprocessor");
    Json::Object(
        dict3(
            "CommuniqueType",
            string("CreateRequest"),
            "Header",
            Json::Object(dict1("Url", string(url.as_str()))),
            "Body",
            Json::Object(dict1("Command", command)),
        ),
    )
}

/// A duration as the bridge writes one.
pub fn fade_time(seconds: u64) -> (r: String)
    ensures
        r@ == clock(seconds as nat),
{
    let mut r = text::to_two_places(seconds / 3600);
    r.append(":");
    r.append(text::to_two_places((seconds % 3600) / 60).as_str());
    r.append(":");
    r.append(text::to_two_places(seconds % 60).as_str());
    r
}

/// A brightness, with a fade.
pub fn go_to_level(zone: &str, level: u8, fade_secs: u64) -> (r: Json)
    ensures
        r@ == dim_view(zone@, level, fade_secs),
{
    let fade = fade_time(fade_secs);
    zone_command(
        zone,
        Json::Object(
            dict2(
                "CommandType",
                string("GoToDimmedLevel"),
                "DimmedLevelParameters",
                Json::Object(
                    dict2("Level", Json::Unsigned(level as u64), "FadeTime", string(fade.as_str())),
                ),
            ),
        ),
    )
}

/// A plain level, with no fade. What a switch takes, which has no dimmer to fade, and what a
/// shade takes for a position.
pub fn go_to_plain_level(zone: &str, level: u8) -> (r: Json)
    ensures
        r@ == level_view(zone@, level),
{
    let items: Vec<Json> = vec![
        Json::Object(dict2("Type", string("Level"), "Value", Json::Unsigned(level as u64))),
    ];
    proof {
        assert(items.deep_view() =~= seq![
            JsonView::Object(
                map![
                    "Type"@ => JsonView::Text("Level"@),
                    "Value"@ => JsonView::Unsigned(level as u64),
                ],
            ),
        ]);
    }
    zone_command(
        zone,
        Json::Object(dict2("CommandType", string("GoToLevel"), "Parameter", array(items))),
    )
}

fn run_fan(zone: &str, leap_speed: &str) -> (r: Json)
    ensures
        r@ == fan_view(zone@, leap_speed@),
{
    zone_command(
        zone,
        Json::Object(
            dict2(
                "CommandType",
                string("GoToFanSpeed"),
                "FanSpeedParameters",
                Json::Object(dict1("FanSpeed", string(leap_speed))),
            ),
        ),
    )
}

/// The speed, in Lutron's spelling. Nothing for a name that is no speed of a fan.
pub fn go_to_fan_speed(zone: &str, speed: &str) -> (r: Option<Json>)
    ensures
        r.deep_view() == (match tables::leap_speed(speed@) {
            Some(theirs) => Some(fan_view(zone@, theirs)),
            None => None,
        }),
{
    match tables::to_leap_speed(speed) {
        Some(theirs) => Some(run_fan(zone, theirs)),
        None => None,
    }
}

/// Stopping a fan is a command and no speed.
pub fn stop_fan(zone: &str) -> (r: Json)
    ensures
        r@ == fan_view(zone@, "Off"@),
{
    run_fan(zone, "Off")
}

/// A motor's own verb. It takes no parameters: a shade already knows which way it is allowed to
/// go.
pub fn shade_move(zone: &str, command: &str) -> (r: Json)
    ensures
        r@ == verb_view(zone@, command@),
{
    zone_command(zone, Json::Object(dict1("CommandType", string(command))))
}

/// Tilt the slats.
pub fn go_to_tilt(zone: &str, tilt: u8) -> (r: Json)
    ensures
        r@ == tilt_view(zone@, tilt),
{
    zone_command(
        zone,
        Json::Object(
            dict2(
                "CommandType",
                string("GoToTilt"),
                "TiltParameters",
                Json::Object(dict1("Tilt", Json::Unsigned(tilt as u64))),
            ),
        ),
    )
}

/// Every scene that the bridge holds.
pub fn read_virtual_buttons() -> (r: Json)
    ensures
        r@ == read_view("/virtualbutton"@),
{
    read_request("/virtualbutton")
}

/// Recall a scene. A virtual button is pressed, and what it does was decided elsewhere.
pub fn press_virtual_button(resource: &str) -> (r: Json)
    ensures
        r@ == verb_view(resource@, "PressAndRelease"@),
{
    zone_command(resource, Json::Object(dict1("CommandType", string("PressAndRelease"))))
}

/// Keep hearing about a zone.
pub fn subscribe(zone: &str) -> (r: Json)
    ensures
        r@ == subscribe_view(zone@ + "/status"@),
{
    let url = joined(zone, "/status");
    request("SubscribeRequest", url.as_str())
}

/// Keep hearing about a key of a remote.
pub fn subscribe_button(href: &str) -> (r: Json)
    ensures
        r@ == subscribe_view(href@ + "/status/event"@),
{
    let url = joined(href, "/status/event");
    request("SubscribeRequest", url.as_str())
}

/// Keep hearing about every group's occupancy.
pub fn subscribe_occupancy() -> (r: Json)
    ensures
        r@ == subscribe_view("/occupancygroup/status"@),
{
    request("SubscribeRequest", "/occupancygroup/status")
}

/// Ask for a device's own status. The battery lives here and nowhere else.
pub fn read_status(href: &str) -> (r: Json)
    ensures
        r@ == read_view(href@ + "/status"@),
{
    let url = joined(href, "/status");
    read_request(url.as_str())
}

/// Ask the bridge to sign a certificate.
pub fn signing_request(csr: &str) -> (r: Json)
    ensures
        r@ == signing_view(csr@),
{
    let mut parameters = dict3(
        "CSR",
        string(csr),
        "DisplayName",
        string("Juno"),
        "DeviceUID",
        string("000000000000"),
    );
    parameters.insert("Role", string("Admin"));
    let header = dict3(
        "RequestType",
        string("Execute"),
        "Url",
        string("/pair"),
        "ClientTag",
        string("get-cert"),
    );
    let body = dict2("CommandType", string("CSR"), "Parameters", Json::Object(parameters));
    Json::Object(dict2("Header", Json::Object(header), "Body", Json::Object(body)))
}

} // verus!
