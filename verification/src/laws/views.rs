//! Laws of the views: what the other laws say of a view holds of the value itself, field by field.

use crate::host::{
    BorrowedSceneSnapshot, Candidate, Connect, Field, HostCall, HostCallView, Instance,
    SceneResponse, SetupStep, SetupStepView,
};
use crate::json::{self, Dict, Json, JsonView};
use vstd::prelude::*;

verus! {

/// A JSON value means what it holds. A whole number means the same however it is kept.
pub proof fn law_a_value_means_what_it_holds(
    b: bool,
    n: u64,
    z: i64,
    s: String,
    items: Vec<Json>,
    members: Dict,
)
    ensures
        Json::Null@ == JsonView::Null,
        Json::Bool(b)@ == JsonView::Bool(b),
        Json::Unsigned(n)@ == JsonView::Unsigned(n),
        z >= 0 ==> Json::Signed(z)@ == JsonView::Unsigned(z as u64),
        z < 0 ==> Json::Signed(z)@ == JsonView::Negative(z),
        Json::Text(s)@ == JsonView::Text(s@),
        Json::Object(members)@ == JsonView::Object(members@),
        Json::Array(items)@ matches JsonView::Array(all) && all.len() == items@.len() && forall|
            i: int,
        |
            0 <= i < items@.len() ==> #[trigger] all[i] == items@[i]@,
{
}

/// A member of a dictionary is the last entry under its name, and there is none without an entry.
pub proof fn law_the_last_entry_of_a_name_counts(dict: Dict, name: Seq<char>, k: int)
    requires
        -1 <= k < dict.entries@.len(),
        forall|i: int| k < i < dict.entries@.len() ==> (#[trigger] dict.entries@[i]).0@ != name,
        k >= 0 ==> dict.entries@[k].0@ == name,
    ensures
        k >= 0 ==> dict@.contains_key(name) && dict@[name] == dict.entries@[k].1@,
        k < 0 ==> !dict@.contains_key(name),
{
    lemma_entries(dict.entries@, name, k);
}

proof fn lemma_entries(entries: Seq<(String, Json)>, name: Seq<char>, k: int)
    requires
        -1 <= k < entries.len(),
        forall|i: int| k < i < entries.len() ==> (#[trigger] entries[i]).0@ != name,
        k >= 0 ==> entries[k].0@ == name,
    ensures
        k >= 0 ==> json::members(entries).contains_key(name) && json::members(entries)[name]
            == entries[k].1@,
        k < 0 ==> !json::members(entries).contains_key(name),
    decreases entries.len(),
{
    if entries.len() > 0 && k < entries.len() - 1 {
        let sooner = entries.drop_last();
        assert(entries[entries.len() - 1].0@ != name);
        assert forall|i: int| k < i < sooner.len() implies (#[trigger] sooner[i]).0@ != name by {
            assert(sooner[i] == entries[i]);
        }
        lemma_entries(sooner, name, k);
    }
}

/// The view of a device is its properties and its notes.
pub proof fn law_a_device_shows_its_properties_and_notes(inst: Instance)
    ensures
        inst@.properties == inst.properties@,
        inst@.scratch == inst.scratch@,
{
}

/// The view of a call to the controller is that call with each of its arguments.
pub proof fn law_a_call_shows_its_arguments(call: HostCall)
    ensures
        call matches HostCall::Tx { control, data } ==> call.deep_view() == (HostCallView::Tx {
            control,
            data: data@,
        }),
        call matches HostCall::Notify { proxy, name, args } ==> call.deep_view() == (
        HostCallView::Notify { proxy, name: name@, args: args@ }),
        call matches HostCall::SetState { proxy, key, value } ==> call.deep_view() == (
        HostCallView::SetState { proxy, key: key@, value: value@ }),
        call matches HostCall::After { ms, note } ==> call.deep_view() == (HostCallView::After {
            ms,
            note: note@,
        }),
        call matches HostCall::Log { message } ==> call.deep_view() == (HostCallView::Log {
            message: message@,
        }),
        call matches HostCall::BorrowedScenes { scenes } ==> (call.deep_view() matches
            HostCallView::BorrowedScenes { scenes: all } && all.len() == scenes@.len() && forall|
            i: int,
        |
            0 <= i < scenes@.len() ==> #[trigger] all[i] == scenes@[i].deep_view()),
{
}

/// The view of a scene is its title, its button and its steps.
pub proof fn law_a_scene_shows_its_parts(scene: BorrowedSceneSnapshot)
    ensures
        scene.deep_view().title == scene.title@,
        scene.deep_view().resource == scene.resource@,
        scene.deep_view().steps.len() == scene.steps@.len(),
{
}

/// The view of an answer about a scene is its calls and its problem.
pub proof fn law_a_scenes_answer_shows_its_parts(answer: SceneResponse)
    ensures
        answer@.calls.len() == answer.calls@.len(),
        forall|i: int|
            0 <= i < answer.calls@.len() ==> #[trigger] answer@.calls[i]
                == answer.calls@[i].deep_view(),
        answer.problem is None ==> answer@.problem is None,
        answer.problem matches Some(problem) ==> answer@.problem == Some(problem@),
{
}

/// The view of a candidate is each of its fields.
pub proof fn law_a_candidate_shows_its_fields(candidate: Candidate)
    ensures
        candidate.deep_view().label == candidate.label@,
        candidate.deep_view().room == candidate.room@,
        candidate.deep_view().kind == candidate.kind@,
        candidate.deep_view().driver_id == candidate.driver_id@,
        candidate.deep_view().properties == candidate.properties@,
        candidate.deep_view().capabilities == candidate.capabilities@,
        candidate.deep_view().verified == candidate.verified@,
{
}

/// The view of a field to fill in is each of its parts, and that of a connection too.
pub proof fn law_a_field_and_a_connection_show_their_parts(field: Field, connect: Connect)
    ensures
        field.deep_view().name == field.name@,
        field.deep_view().label == field.label@,
        field.deep_view().kind == field.kind@,
        field.deep_view().help == field.help@,
        field.deep_view().required == field.required,
        field.default is None ==> field.deep_view().default is None,
        field.default matches Some(v) ==> field.deep_view().default == Some(v@),
        field.deep_view().options.len() == field.options@.len(),
        forall|i: int|
            0 <= i < field.options@.len() ==> #[trigger] field.deep_view().options[i]
                == field.options@[i]@,
        connect.deep_view().address == connect.address@,
        connect.deep_view().port == connect.port,
        connect.deep_view().cert_pem == connect.cert_pem@,
        connect.deep_view().key_pem == connect.key_pem@,
{
}

/// The view of a step is that step with each of its parts.
pub proof fn law_a_step_shows_its_parts(step: SetupStep)
    ensures
        step matches SetupStep::Instruct { title, body, continue_label } ==> step@ == (
        SetupStepView::Instruct {
            title: title@,
            body: body@,
            continue_label: continue_label@,
        }),
        step matches SetupStep::Form { title, body, fields } ==> (step@ matches
            SetupStepView::Form { title: t, body: b, fields: all } && t == title@ && b == body@
            && all.len() == fields@.len() && forall|i: int|
            0 <= i < fields@.len() ==> #[trigger] all[i] == fields@[i].deep_view()),
        step matches SetupStep::MakeIdentity { common_name, note } ==> step@ == (
        SetupStepView::MakeIdentity { common_name: common_name@, note: note@ }),
        step matches SetupStep::Session { session, open, send, read_ms, close, note } ==> step@ == (
        SetupStepView::Session {
            session,
            open: match open {
                Some(connect) => Some(connect.deep_view()),
                None => None,
            },
            send: send@,
            read_ms,
            close,
            note: note@,
        }),
        step matches SetupStep::Failed { reason } ==> step@ == (SetupStepView::Failed {
            reason: reason@,
        }),
        step matches SetupStep::Done { candidates } ==> (step@ matches SetupStepView::Done {
            candidates: all,
        } && all.len() == candidates@.len() && forall|i: int|
            0 <= i < candidates@.len() ==> #[trigger] all[i] == candidates@[i].deep_view()),
{
}

} // verus!
