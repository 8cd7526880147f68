//! Laws of adoption: what is written down of a device is what the driver reads back.

use crate::candidates;
use crate::device;
use crate::driver;
use crate::host::{CandidateView, HostCallView, InstanceView};
use crate::json::{self, JsonView};
use crate::laws;
use crate::remotes;
use crate::sensors;
use crate::setup;
use crate::tables::{self, Kind, MAX_BUTTONS};
use crate::text;
use crate::zones;
use vstd::prelude::*;

verus! {

/// A candidate as the device that it becomes: what was written down, and nothing noted yet.
pub open spec fn adopted(candidate: CandidateView) -> InstanceView {
    InstanceView { properties: candidate.properties, scratch: Map::empty() }
}

proof fn lemma_properties_are_distinct()
    ensures
        "Zone"@[0] == 'Z',
        "Kind"@[0] == 'K',
        "Device href"@[0] == 'D',
        "Occupancy href"@[0] == 'O',
        "Address"@[0] == 'A',
        "Client certificate"@.len() == 18,
        "Client certificate"@[0] == 'C',
        "Client key"@.len() == 10,
        "Client key"@[0] == 'C',
        "CA certificate"@.len() == 14,
        "CA certificate"@[0] == 'C',
        "address"@[0] == 'a',
        "cert_pem"@[0] == 'c',
        "key_pem"@[0] == 'k',
{
    reveal_strlit("Zone");
    reveal_strlit("Kind");
    reveal_strlit("Device href");
    reveal_strlit("Occupancy href");
    reveal_strlit("Address");
    reveal_strlit("Client certificate");
    reveal_strlit("Client key");
    reveal_strlit("CA certificate");
    reveal_strlit("address");
    reveal_strlit("cert_pem");
    reveal_strlit("key_pem");
}

proof fn lemma_button_property(key: nat)
    ensures
        device::button_property(key).len() > 0,
        device::button_property(key)[0] == 'B',
{
    reveal_strlit("Button ");
    assert(device::button_property(key)[0] == "Button "@[0]);
}

proof fn lemma_button_properties_are_distinct(a: nat, b: nat)
    requires
        a != b,
    ensures
        device::button_property(a) != device::button_property(b),
{
    text::lemma_decimal(a);
    text::lemma_decimal(b);
    let pa = device::button_property(a);
    let pb = device::button_property(b);
    if pa == pb {
        let n = "Button "@.len() as int;
        let m = " href"@.len() as int;
        assert(pa.subrange(n, pa.len() - m) =~= text::decimal(a));
        assert(pb.subrange(n, pb.len() - m) =~= text::decimal(b));
    }
}

/// Nothing that has no property of a key is a remote.
proof fn lemma_no_buttons(inst: InstanceView, count: nat)
    requires
        forall|name: Seq<char>|
            #[trigger] inst.properties.contains_key(name) ==> name.len() == 0 || name[0] != 'B',
    ensures
        device::first_buttons(inst, count) == Seq::<(u64, Seq<char>)>::empty(),
    decreases count,
{
    if count > 0 {
        lemma_no_buttons(inst, (count - 1) as nat);
        lemma_button_property((count as u64) as nat);
        let name = device::button_property((count as u64) as nat);
        assert(!inst.properties.contains_key(name));
    }
}

/// What a zone was adopted as is what it is read back as: its kind, its zone, and nothing else.
/// Its commands and its events are those of that kind of zone.
pub proof fn law_an_adopted_zone_is_that_zone(device: JsonView, kind: Kind, zone: Seq<char>)
    requires
        zone.len() > 0,
    ensures
        ({
            let inst = adopted(candidates::zone_candidate(device, kind, zone));
            &&& tables::kind_of(inst) == kind
            &&& device::zone_of(inst) == Some(zone)
            &&& device::group_of(inst) is None
            &&& device::buttons_of(inst).len() == 0
            &&& forall|note: Seq<char>, args: Map<Seq<char>, JsonView>|
                #[trigger] driver::evented(inst, note, args) == zones::zone_event(inst, note, args)
        }),
{
    let inst = adopted(candidates::zone_candidate(device, kind, zone));
    lemma_properties_are_distinct();
    laws::tables::law_a_kind_is_read_back(kind);
    lemma_no_buttons(inst, MAX_BUTTONS as nat);
    assert(!inst.properties.contains_key("Occupancy href"@));
}

proof fn lemma_key_property(
    device: JsonView,
    keys: Seq<(Seq<char>, Seq<char>)>,
    key: nat,
)
    requires
        1 <= key,
    ensures
        json::find(
            candidates::remote_properties(device, keys),
            device::button_property(key),
        ) == if key <= keys.len() {
            Some(JsonView::Text(keys[key - 1].0))
        } else {
            None
        },
        forall|name: Seq<char>| #[trigger]
            candidates::remote_properties(device, keys).contains_key(name) ==> name
                == "Device href"@ || name.len() > 0 && name[0] == 'B',
    decreases keys.len(),
{
    lemma_properties_are_distinct();
    lemma_button_property(key);
    if keys.len() > 0 {
        lemma_key_property(device, keys.drop_last(), key);
        lemma_button_property(keys.len());
        if key != keys.len() {
            lemma_button_properties_are_distinct(key, keys.len());
        }
    }
}

/// The keys of a remote as they are numbered once it is adopted.
pub open spec fn adopted_keys(keys: Seq<(Seq<char>, Seq<char>)>) -> Seq<(u64, Seq<char>)> {
    Seq::new(keys.len(), |i: int| ((i + 1) as u64, keys[i].0))
}

proof fn lemma_first_buttons(device: JsonView, keys: Seq<(Seq<char>, Seq<char>)>, count: nat)
    requires
        keys.len() <= MAX_BUTTONS,
        count <= MAX_BUTTONS,
        forall|i: int| 0 <= i < keys.len() ==> (#[trigger] keys[i]).0.len() > 0,
    ensures
        device::first_buttons(adopted(candidates::remote_candidate(device, keys)), count)
            == adopted_keys(keys).take(
            if count <= keys.len() {
                count as int
            } else {
                keys.len() as int
            },
        ),
    decreases count,
{
    let inst = adopted(candidates::remote_candidate(device, keys));
    let all = adopted_keys(keys);
    if count == 0 {
        assert(all.take(0) =~= Seq::<(u64, Seq<char>)>::empty());
    } else {
        lemma_first_buttons(device, keys, (count - 1) as nat);
        lemma_key_property(device, keys, count);
        assert((count as u64) as nat == count);
        if count <= keys.len() {
            assert(keys[count - 1].0.len() > 0);
            assert(all.take(count as int) =~= all.take(count - 1).push(all[count - 1]));
            assert(device::first_buttons(inst, count) =~= all.take(count as int));
        } else {
            assert(device::first_buttons(inst, count) =~= all.take(keys.len() as int));
        }
    }
}

/// The keys that a remote was adopted with are the keys that it answers to, numbered from one in
/// their order. Its events are a remote's.
pub proof fn law_an_adopted_remote_has_its_keys(
    device: JsonView,
    keys: Seq<(Seq<char>, Seq<char>)>,
)
    requires
        0 < keys.len() <= MAX_BUTTONS,
        forall|i: int| 0 <= i < keys.len() ==> (#[trigger] keys[i]).0.len() > 0,
    ensures
        ({
            let inst = adopted(candidates::remote_candidate(device, keys));
            &&& device::buttons_of(inst) == adopted_keys(keys)
            &&& device::zone_of(inst) is None
            &&& device::group_of(inst) is None
            &&& forall|note: Seq<char>, args: Map<Seq<char>, JsonView>|
                #[trigger] driver::evented(inst, note, args) == remotes::remote_event(
                    inst,
                    note,
                    args,
                )
        }),
{
    let inst = adopted(candidates::remote_candidate(device, keys));
    lemma_first_buttons(device, keys, MAX_BUTTONS as nat);
    assert(adopted_keys(keys).take(keys.len() as int) =~= adopted_keys(keys));
    lemma_key_property(device, keys, 1);
    lemma_properties_are_distinct();
    assert(!inst.properties.contains_key("Zone"@));
    assert(!inst.properties.contains_key("Occupancy href"@));
}

/// The group that a sensor was adopted for is the group that it listens for.
pub proof fn law_an_adopted_sensor_watches_its_group(href: Seq<char>, area: Seq<char>)
    requires
        href.len() > 0,
    ensures
        ({
            let inst = adopted(candidates::sensor_candidate(href, area));
            &&& device::group_of(inst) == Some(href)
            &&& forall|note: Seq<char>, args: Map<Seq<char>, JsonView>|
                #[trigger] driver::evented(inst, note, args) == (
                    inst,
                    match device::heard(note, args) {
                        Some(msgs) => sensors::occupancy_messages(href, msgs),
                        None => Seq::<HostCallView>::empty(),
                    },
                )
        }),
{
    let inst = adopted(candidates::sensor_candidate(href, area));
    lemma_properties_are_distinct();
    lemma_no_buttons(inst, MAX_BUTTONS as nat);
}

/// A bridge that was paired is told apart from everything behind it by its certificate, and hears
/// its scenes.
pub proof fn law_an_adopted_bridge_is_the_bridge(state: JsonView)
    requires
        setup::noted(state, "cert_pem"@).len() > 0,
    ensures
        ({
            let inst = adopted(candidates::bridge_candidate(state));
            &&& driver::is_bridge(inst)
            &&& device::group_of(inst) is None
            &&& forall|note: Seq<char>, args: Map<Seq<char>, JsonView>|
                #[trigger] driver::evented(inst, note, args) == (
                    inst,
                    match device::heard(note, args) {
                        Some(msgs) => sensors::bridge_messages(msgs),
                        None => Seq::<HostCallView>::empty(),
                    },
                )
        }),
{
    let inst = adopted(candidates::bridge_candidate(state));
    lemma_properties_are_distinct();
    lemma_no_buttons(inst, MAX_BUTTONS as nat);
    assert(!inst.properties.contains_key("Zone"@));
    assert(!inst.properties.contains_key("Occupancy href"@));
}

/// Browsing an adopted bridge connects where pairing found it and with what pairing was given:
/// its properties and the state that they were taken from give one address, certificate and key.
pub proof fn law_an_adopted_bridge_keeps_its_identity(state: JsonView)
    ensures
        setup::identity_of(JsonView::Object(candidates::bridge_properties(state))) == (
            setup::noted(state, "address"@),
            setup::noted(state, "cert_pem"@),
            setup::noted(state, "key_pem"@),
        ),
{
    lemma_properties_are_distinct();
    let props = candidates::bridge_properties(state);
    assert(!props.contains_key("address"@));
    assert(!props.contains_key("cert_pem"@));
    assert(!props.contains_key("key_pem"@));
    assert(setup::identity_of(JsonView::Object(props)).0 =~= setup::noted(state, "address"@));
    assert(setup::identity_of(JsonView::Object(props)).1 =~= setup::noted(state, "cert_pem"@));
    assert(setup::identity_of(JsonView::Object(props)).2 =~= setup::noted(state, "key_pem"@));
}

} // verus!
