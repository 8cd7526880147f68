//! What the controller hands to this driver and takes back from it.
//!
//! Each type comes with a view, in which strings are rows of characters and objects are maps.

use crate::json::{Dict, Json, JsonView};
use vstd::prelude::*;

verus! {

/// A connection or a proxy of a device, by the number that the device's manifest gives it.
pub type LocalId = u32;

/// The driver's own network connection. The controller owns the socket.
pub const NET: LocalId = 0;

/// The one proxy that every device of this driver presents.
pub const PROXY: LocalId = 1;

/// A device as the controller knows it: what was written down at adoption, and what the driver
/// has noted since.
#[derive(Debug)]
pub struct Instance {
    pub properties: Dict,
    pub scratch: Dict,
}

/// What a device is, to a contract.
#[verifier::ext_equal]
pub struct InstanceView {
    pub properties: Map<Seq<char>, JsonView>,
    pub scratch: Map<Seq<char>, JsonView>,
}

impl View for Instance {
    type V = InstanceView;

    open spec fn view(&self) -> InstanceView {
        InstanceView { properties: self.properties@, scratch: self.scratch@ }
    }
}

/// A scene that lives in the bridge and can only be recalled.
#[derive(Debug)]
pub struct BorrowedSceneSnapshot {
    pub title: String,
    pub resource: String,
    pub steps: Vec<Json>,
}

/// What a scene is, to a contract.
#[verifier::ext_equal]
pub struct BorrowedSceneView {
    pub title: Seq<char>,
    pub resource: Seq<char>,
    pub steps: Seq<JsonView>,
}

impl DeepView for BorrowedSceneSnapshot {
    type V = BorrowedSceneView;

    open spec fn deep_view(&self) -> BorrowedSceneView {
        BorrowedSceneView {
            title: self.title@,
            resource: self.resource@,
            steps: self.steps.deep_view(),
        }
    }
}

/// Something for the controller to do.
#[derive(Debug)]
pub enum HostCall {
    /// Write bytes to a connection.
    Tx { control: LocalId, data: Vec<u8> },
    /// Tell the house what happened on a proxy.
    Notify { proxy: LocalId, name: String, args: Dict },
    /// Set what a proxy shows.
    SetState { proxy: LocalId, key: String, value: Json },
    /// Wake this device up later, with the note it left. A second call with the same note moves
    /// the first.
    After { ms: u32, note: String },
    /// Warn whoever reads the log.
    Log { message: String },
    /// Offer these scenes, in place of those that were offered before.
    BorrowedScenes { scenes: Vec<BorrowedSceneSnapshot> },
}

/// What a call is, to a contract.
#[verifier::ext_equal]
pub enum HostCallView {
    Tx { control: LocalId, data: Seq<u8> },
    Notify { proxy: LocalId, name: Seq<char>, args: Map<Seq<char>, JsonView> },
    SetState { proxy: LocalId, key: Seq<char>, value: JsonView },
    After { ms: u32, note: Seq<char> },
    Log { message: Seq<char> },
    BorrowedScenes { scenes: Seq<BorrowedSceneView> },
}

impl DeepView for HostCall {
    type V = HostCallView;

    open spec fn deep_view(&self) -> HostCallView {
        match self {
            HostCall::Tx { control, data } => HostCallView::Tx { control: *control, data: data@ },
            HostCall::Notify { proxy, name, args } => HostCallView::Notify {
                proxy: *proxy,
                name: name@,
                args: args@,
            },
            HostCall::SetState { proxy, key, value } => HostCallView::SetState {
                proxy: *proxy,
                key: key@,
                value: value@,
            },
            HostCall::After { ms, note } => HostCallView::After { ms: *ms, note: note@ },
            HostCall::Log { message } => HostCallView::Log { message: message@ },
            HostCall::BorrowedScenes { scenes } => HostCallView::BorrowedScenes {
                scenes: scenes.deep_view(),
            },
        }
    }
}

/// A question in a form of the setup flow.
#[derive(Debug)]
pub struct Field {
    pub name: String,
    pub label: String,
    pub kind: String,
    pub help: String,
    pub default: Option<Json>,
    pub options: Vec<String>,
    pub required: bool,
}

/// What a question is, to a contract.
#[verifier::ext_equal]
pub struct FieldView {
    pub name: Seq<char>,
    pub label: Seq<char>,
    pub kind: Seq<char>,
    pub help: Seq<char>,
    pub default: Option<JsonView>,
    pub options: Seq<Seq<char>>,
    pub required: bool,
}

impl DeepView for Field {
    type V = FieldView;

    open spec fn deep_view(&self) -> FieldView {
        FieldView {
            name: self.name@,
            label: self.label@,
            kind: self.kind@,
            help: self.help@,
            default: self.default.deep_view(),
            options: self.options.deep_view(),
            required: self.required,
        }
    }
}

/// Where to connect, and the certificate and key to present there.
#[derive(Debug)]
pub struct Connect {
    pub address: String,
    pub port: u16,
    pub cert_pem: String,
    pub key_pem: String,
}

/// What a connection is, to a contract.
#[verifier::ext_equal]
pub struct ConnectView {
    pub address: Seq<char>,
    pub port: u16,
    pub cert_pem: Seq<char>,
    pub key_pem: Seq<char>,
}

impl DeepView for Connect {
    type V = ConnectView;

    open spec fn deep_view(&self) -> ConnectView {
        ConnectView {
            address: self.address@,
            port: self.port,
            cert_pem: self.cert_pem@,
            key_pem: self.key_pem@,
        }
    }
}

/// A device that the setup flow found, ready to be adopted.
#[derive(Debug)]
pub struct Candidate {
    pub label: String,
    pub room: String,
    pub kind: String,
    pub driver_id: String,
    pub properties: Dict,
    pub capabilities: Dict,
    pub verified: String,
}

/// What a candidate is, to a contract.
#[verifier::ext_equal]
pub struct CandidateView {
    pub label: Seq<char>,
    pub room: Seq<char>,
    pub kind: Seq<char>,
    pub driver_id: Seq<char>,
    pub properties: Map<Seq<char>, JsonView>,
    pub capabilities: Map<Seq<char>, JsonView>,
    pub verified: Seq<char>,
}

impl DeepView for Candidate {
    type V = CandidateView;

    open spec fn deep_view(&self) -> CandidateView {
        CandidateView {
            label: self.label@,
            room: self.room@,
            kind: self.kind@,
            driver_id: self.driver_id@,
            properties: self.properties@,
            capabilities: self.capabilities@,
            verified: self.verified@,
        }
    }
}

/// What the setup flow asks for next.
#[derive(Debug)]
pub enum SetupStep {
    /// Show this and wait for somebody to continue.
    Instruct { title: String, body: String, continue_label: String },
    /// Ask these questions.
    Form { title: String, body: String, fields: Vec<Field> },
    /// Make a key and a signing request for it.
    MakeIdentity { common_name: String, note: String },
    /// Open a connection or go on with the one that `session` names, write `send` to it if it is
    /// not empty, and listen for `read_ms`.
    Session {
        session: Option<u32>,
        open: Option<Connect>,
        send: String,
        read_ms: u32,
        close: bool,
        note: String,
    },
    /// It did not work.
    Failed { reason: String },
    /// This is what was found.
    Done { candidates: Vec<Candidate> },
}

/// What a step is, to a contract.
#[verifier::ext_equal]
pub enum SetupStepView {
    Instruct { title: Seq<char>, body: Seq<char>, continue_label: Seq<char> },
    Form { title: Seq<char>, body: Seq<char>, fields: Seq<FieldView> },
    MakeIdentity { common_name: Seq<char>, note: Seq<char> },
    Session {
        session: Option<u32>,
        open: Option<ConnectView>,
        send: Seq<char>,
        read_ms: u32,
        close: bool,
        note: Seq<char>,
    },
    Failed { reason: Seq<char> },
    Done { candidates: Seq<CandidateView> },
}

impl View for SetupStep {
    type V = SetupStepView;

    open spec fn view(&self) -> SetupStepView {
        match self {
            SetupStep::Instruct { title, body, continue_label } => SetupStepView::Instruct {
                title: title@,
                body: body@,
                continue_label: continue_label@,
            },
            SetupStep::Form { title, body, fields } => SetupStepView::Form {
                title: title@,
                body: body@,
                fields: fields.deep_view(),
            },
            SetupStep::MakeIdentity { common_name, note } => SetupStepView::MakeIdentity {
                common_name: common_name@,
                note: note@,
            },
            SetupStep::Session { session, open, send, read_ms, close, note } => {
                SetupStepView::Session {
                    session: *session,
                    open: open.deep_view(),
                    send: send@,
                    read_ms: *read_ms,
                    close: *close,
                    note: note@,
                }
            },
            SetupStep::Failed { reason } => SetupStepView::Failed { reason: reason@ },
            SetupStep::Done { candidates } => SetupStepView::Done {
                candidates: candidates.deep_view(),
            },
        }
    }
}

/// What the house wants done with a scene.
#[derive(Debug, Clone, Copy, PartialEq, Eq)]
pub enum SceneOperation {
    /// Make it so.
    Recall,
    /// Create it, change it or let go of it.
    Manage,
}

/// A request about a scene, and the bridge's name for it if it has one.
#[derive(Debug)]
pub struct SceneRequest {
    pub operation: SceneOperation,
    pub resource: Option<String>,
}

/// What comes of a request about a scene.
#[derive(Debug)]
pub struct SceneResponse {
    pub calls: Vec<HostCall>,
    pub problem: Option<String>,
}

/// What comes of a request, to a contract.
#[verifier::ext_equal]
pub struct SceneResponseView {
    pub calls: Seq<HostCallView>,
    pub problem: Option<Seq<char>>,
}

impl View for SceneResponse {
    type V = SceneResponseView;

    open spec fn view(&self) -> SceneResponseView {
        SceneResponseView { calls: self.calls.deep_view(), problem: self.problem.deep_view() }
    }
}

} // verus!
