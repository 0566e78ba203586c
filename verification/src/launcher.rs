//! The cold-launch witness: what the process environment claims of the broker
//! that launched this GUI, checked against the live system, and spent once.

use crate::failure::{failure, BridgeFsError, Failure};
use crate::identifier::{
    bounded_text, instance_failure, is_bounded_text, is_canonical_uuid, is_instance, refuses,
    uid_failure, validate_instance, validate_uid,
};
use crate::table_schema::{
    check_keys, either_error, field_error, keys_refusal, names_of, SchemaWords, TableKey,
};
use crate::text::{
    byte_len, decimal, decimal_text, optional_string, parse_u64, remove_char, same_text,
    signed_decimal, signed_decimal_text, unsigned_value, without_char,
};
use vstd::prelude::*;
use vstd::utf8::encode_utf8;

verus! {

/// The most bytes that a start token or a domain name may have.
pub const MAX_IDENTITY_BYTES: usize = 256;

/// The value of an environment variable that is set.
#[derive(Debug)]
pub enum EnvValue {
    Text(String),
    NotUtf8,
}

/// The view of an optional environment value: absent, or a text, or no text.
pub open spec fn env_text(value: Option<EnvValue>) -> Option<Option<Seq<char>>> {
    match value {
        None => None,
        Some(EnvValue::Text(text)) => Some(Some(text@)),
        Some(EnvValue::NotUtf8) => Some(None),
    }
}

/// The variables that a broker sets for the GUI that it launches. All are
/// mandatory but the space.
#[derive(Debug)]
pub struct LauncherEnvironment {
    pub gui_instance: Option<EnvValue>,
    pub launcher_request_uid: Option<EnvValue>,
    pub launcher_pid: Option<EnvValue>,
    pub launcher_start_token: Option<EnvValue>,
    pub backend_instance: Option<EnvValue>,
    pub target_domain: Option<EnvValue>,
    pub target_backend_instance: Option<EnvValue>,
    pub target_server_epoch: Option<EnvValue>,
    pub target_host_uid: Option<EnvValue>,
    pub target_space_uid: Option<EnvValue>,
}

/// Who launched the GUI, for which backend and which space.
#[derive(Debug)]
pub struct LauncherOrigin {
    pub gui_instance: String,
    pub uid: u64,
    pub pid: u32,
    pub start_token: String,
    pub launcher_request_uid: String,
    pub domain: String,
    pub backend_instance_uid: String,
    pub server_epoch: String,
    pub host_uid: String,
    pub space_uid: Option<String>,
}

/// The view of a [`LauncherOrigin`].
pub struct OriginView {
    pub gui_instance: Seq<char>,
    pub uid: u64,
    pub pid: u32,
    pub start_token: Seq<char>,
    pub launcher_request_uid: Seq<char>,
    pub domain: Seq<char>,
    pub backend_instance_uid: Seq<char>,
    pub server_epoch: Seq<char>,
    pub host_uid: Seq<char>,
    pub space_uid: Option<Seq<char>>,
}

impl View for LauncherOrigin {
    type V = OriginView;

    open spec fn view(&self) -> OriginView {
        OriginView {
            gui_instance: self.gui_instance@,
            uid: self.uid,
            pid: self.pid,
            start_token: self.start_token@,
            launcher_request_uid: self.launcher_request_uid@,
            domain: self.domain@,
            backend_instance_uid: self.backend_instance_uid@,
            server_epoch: self.server_epoch@,
            host_uid: self.host_uid@,
            space_uid: optional_string(self.space_uid),
        }
    }
}

/// A verified origin and the backend through which the launcher reaches us.
#[derive(Debug)]
pub struct LauncherWitness {
    pub origin: LauncherOrigin,
    pub transport_backend_instance_uid: String,
}

/// What the process found in its environment, decided once.
#[derive(Debug)]
pub enum CapturedLauncherWitness {
    Absent,
    Present(LauncherWitness),
    Invalid(String),
}

/// The ten texts of a complete environment.
pub struct ClaimView {
    pub gui_instance: Seq<char>,
    pub launcher_request_uid: Seq<char>,
    pub launcher_pid: Seq<char>,
    pub launcher_start_token: Seq<char>,
    pub backend_instance: Seq<char>,
    pub target_domain: Seq<char>,
    pub target_backend_instance: Seq<char>,
    pub target_server_epoch: Seq<char>,
    pub target_host_uid: Seq<char>,
    pub target_space_uid: Option<Seq<char>>,
}

/// A complete environment, as texts, with the pid that it names.
#[derive(Debug)]
pub struct LauncherClaim {
    pub gui_instance: String,
    pub launcher_request_uid: String,
    pub launcher_pid: String,
    pub launcher_start_token: String,
    pub backend_instance: String,
    pub target_domain: String,
    pub target_backend_instance: String,
    pub target_server_epoch: String,
    pub target_host_uid: String,
    pub target_space_uid: Option<String>,
}

impl View for LauncherClaim {
    type V = ClaimView;

    open spec fn view(&self) -> ClaimView {
        ClaimView {
            gui_instance: self.gui_instance@,
            launcher_request_uid: self.launcher_request_uid@,
            launcher_pid: self.launcher_pid@,
            launcher_start_token: self.launcher_start_token@,
            backend_instance: self.backend_instance@,
            target_domain: self.target_domain@,
            target_backend_instance: self.target_backend_instance@,
            target_server_epoch: self.target_server_epoch@,
            target_host_uid: self.target_host_uid@,
            target_space_uid: optional_string(self.target_space_uid),
        }
    }
}

/// The nine mandatory variables, in the order in which they are read.
pub open spec fn mandatory(environment: LauncherEnvironment) -> Seq<
    (Seq<char>, Option<Option<Seq<char>>>),
> {
    seq![
        ("DMUX_GUI_INSTANCE"@, env_text(environment.gui_instance)),
        ("DMUX_GUI_LAUNCHER_REQUEST_UID"@, env_text(environment.launcher_request_uid)),
        ("DMUX_GUI_LAUNCHER_PID"@, env_text(environment.launcher_pid)),
        ("DMUX_GUI_LAUNCHER_START_TOKEN"@, env_text(environment.launcher_start_token)),
        ("DMUX_GUI_BACKEND_INSTANCE"@, env_text(environment.backend_instance)),
        ("DMUX_GUI_TARGET_DOMAIN"@, env_text(environment.target_domain)),
        ("DMUX_GUI_TARGET_BACKEND_INSTANCE"@, env_text(environment.target_backend_instance)),
        ("DMUX_GUI_TARGET_SERVER_EPOCH"@, env_text(environment.target_server_epoch)),
        ("DMUX_GUI_TARGET_HOST_UID"@, env_text(environment.target_host_uid)),
    ]
}

/// Whether no launcher variable is set at all.
pub open spec fn nothing_claimed(environment: LauncherEnvironment) -> bool {
    environment.target_space_uid is None && forall|i: int|
        0 <= i < 9 ==> (#[trigger] mandatory(environment)[i]).1 is None
}

/// Whether every mandatory variable is set.
pub open spec fn fully_claimed(environment: LauncherEnvironment) -> bool {
    forall|i: int| 0 <= i < 9 ==> (#[trigger] mandatory(environment)[i]).1 is Some
}

/// The name of the first variable that is set and no text.
pub open spec fn first_not_text(
    variables: Seq<(Seq<char>, Option<Option<Seq<char>>>)>,
) -> Option<Seq<char>>
    decreases variables.len(),
{
    if variables.len() == 0 {
        None
    } else if variables[0].1 == Some(None::<Seq<char>>) {
        Some(variables[0].0)
    } else {
        first_not_text(variables.drop_first())
    }
}

/// The claim of an environment in which everything is a text.
pub open spec fn claim_of(environment: LauncherEnvironment) -> ClaimView {
    ClaimView {
        gui_instance: env_text(environment.gui_instance)->0->0,
        launcher_request_uid: env_text(environment.launcher_request_uid)->0->0,
        launcher_pid: env_text(environment.launcher_pid)->0->0,
        launcher_start_token: env_text(environment.launcher_start_token)->0->0,
        backend_instance: env_text(environment.backend_instance)->0->0,
        target_domain: env_text(environment.target_domain)->0->0,
        target_backend_instance: env_text(environment.target_backend_instance)->0->0,
        target_server_epoch: env_text(environment.target_server_epoch)->0->0,
        target_host_uid: env_text(environment.target_host_uid)->0->0,
        target_space_uid: match env_text(environment.target_space_uid) {
            Some(text) => text,
            None => None,
        },
    }
}

fn is_set(value: &Option<EnvValue>) -> (set: bool)
    ensures
        set == (env_text(*value) is Some),
{
    value.is_some()
}

fn text_of(name: &str, value: Option<EnvValue>) -> (text: Result<String, String>)
    requires
        value is Some,
    ensures
        match text {
            Ok(text) => env_text(value) == Some(Some(text@)),
            Err(reason) => env_text(value) == Some(None::<Seq<char>>) && reason@ == name@
                + " is not valid UTF-8"@,
        },
{
    match value {
        Some(EnvValue::Text(text)) => Ok(text),
        _ => Err(name.to_owned().concat(" is not valid UTF-8")),
    }
}

/// What a launcher environment amounts to before it is checked: nothing, a
/// complete claim, or a reason why it is neither.
pub open spec fn claimed(environment: LauncherEnvironment) -> Result<
    Option<ClaimView>,
    Seq<char>,
> {
    let unreadable = first_not_text(
        mandatory(environment).push(
            ("DMUX_GUI_TARGET_SPACE_UID"@, env_text(environment.target_space_uid)),
        ),
    );
    if nothing_claimed(environment) {
        Ok(None)
    } else if !fully_claimed(environment) {
        Err(
            "cold-launch environment is partial; all mandatory broker witness fields are required"@,
        )
    } else if unreadable is Some {
        Err(unreadable->0 + " is not valid UTF-8"@)
    } else {
        Ok(Some(claim_of(environment)))
    }
}

/// Reads the launcher environment.
#[verifier::rlimit(60)]
pub fn read_claim(environment: LauncherEnvironment) -> (result: Result<
    Option<LauncherClaim>,
    String,
>)
    ensures
        match result {
            Ok(None) => claimed(environment) == Ok::<Option<ClaimView>, Seq<char>>(None),
            Ok(Some(claim)) => claimed(environment) == Ok::<Option<ClaimView>, Seq<char>>(
                Some(claim@),
            ),
            Err(reason) => claimed(environment) == Err::<Option<ClaimView>, Seq<char>>(reason@),
        },
{
    let a = is_set(&environment.gui_instance);
    let b = is_set(&environment.launcher_request_uid);
    let c = is_set(&environment.launcher_pid);
    let d = is_set(&environment.launcher_start_token);
    let e = is_set(&environment.backend_instance);
    let f = is_set(&environment.target_domain);
    let g = is_set(&environment.target_backend_instance);
    let h = is_set(&environment.target_server_epoch);
    let i = is_set(&environment.target_host_uid);
    let space = is_set(&environment.target_space_uid);
    let ghost all = mandatory(environment);
    assert(all[0].1 is Some == a && all[1].1 is Some == b && all[2].1 is Some == c && all[3].1
        is Some == d && all[4].1 is Some == e && all[5].1 is Some == f && all[6].1 is Some == g
        && all[7].1 is Some == h && all[8].1 is Some == i);
    let none = !(a || b || c || d || e || f || g || h || i) && !space;
    if none {
        return Ok(None);
    }
    if !(a && b && c && d && e && f && g && h && i) {
        return Err(
            "cold-launch environment is partial; all mandatory broker witness fields are required".to_owned(),
        );
    }
    let ghost listed = all.push(
        ("DMUX_GUI_TARGET_SPACE_UID"@, env_text(environment.target_space_uid)),
    );
    proof {
        reveal_with_fuel(first_at, 11);
        lemma_drop_first(listed);
    }
    let gui_instance = match text_of("DMUX_GUI_INSTANCE", environment.gui_instance) {
        Ok(text) => text,
        Err(reason) => {
            return Err(reason);
        },
    };
    let launcher_request_uid = match text_of(
        "DMUX_GUI_LAUNCHER_REQUEST_UID",
        environment.launcher_request_uid,
    ) {
        Ok(text) => text,
        Err(reason) => {
            return Err(reason);
        },
    };
    let launcher_pid = match text_of("DMUX_GUI_LAUNCHER_PID", environment.launcher_pid) {
        Ok(text) => text,
        Err(reason) => {
            return Err(reason);
        },
    };
    let launcher_start_token = match text_of(
        "DMUX_GUI_LAUNCHER_START_TOKEN",
        environment.launcher_start_token,
    ) {
        Ok(text) => text,
        Err(reason) => {
            return Err(reason);
        },
    };
    let backend_instance = match text_of(
        "DMUX_GUI_BACKEND_INSTANCE",
        environment.backend_instance,
    ) {
        Ok(text) => text,
        Err(reason) => {
            return Err(reason);
        },
    };
    let target_domain = match text_of("DMUX_GUI_TARGET_DOMAIN", environment.target_domain) {
        Ok(text) => text,
        Err(reason) => {
            return Err(reason);
        },
    };
    let target_backend_instance = match text_of(
        "DMUX_GUI_TARGET_BACKEND_INSTANCE",
        environment.target_backend_instance,
    ) {
        Ok(text) => text,
        Err(reason) => {
            return Err(reason);
        },
    };
    let target_server_epoch = match text_of(
        "DMUX_GUI_TARGET_SERVER_EPOCH",
        environment.target_server_epoch,
    ) {
        Ok(text) => text,
        Err(reason) => {
            return Err(reason);
        },
    };
    let target_host_uid = match text_of("DMUX_GUI_TARGET_HOST_UID", environment.target_host_uid) {
        Ok(text) => text,
        Err(reason) => {
            return Err(reason);
        },
    };
    let target_space_uid = match environment.target_space_uid {
        None => None,
        Some(EnvValue::Text(text)) => Some(text),
        Some(EnvValue::NotUtf8) => {
            return Err("DMUX_GUI_TARGET_SPACE_UID".to_owned().concat(" is not valid UTF-8"));
        },
    };
    Ok(
        Some(
            LauncherClaim {
                gui_instance,
                launcher_request_uid,
                launcher_pid,
                launcher_start_token,
                backend_instance,
                target_domain,
                target_backend_instance,
                target_server_epoch,
                target_host_uid,
                target_space_uid,
            },
        ),
    )
}

proof fn lemma_drop_first(row: Seq<(Seq<char>, Option<Option<Seq<char>>>)>)
    requires
        row.len() == 10,
    ensures
        first_not_text(row) == first_at(row, 0),
{
    lemma_first_at(row, 0);
    assert(row.skip(0) =~= row);
}

/// [`first_not_text`] counted by an index.
spec fn first_at(row: Seq<(Seq<char>, Option<Option<Seq<char>>>)>, i: int) -> Option<Seq<char>>
    decreases row.len() - i,
{
    if i >= row.len() {
        None
    } else if row[i].1 == Some(None::<Seq<char>>) {
        Some(row[i].0)
    } else {
        first_at(row, i + 1)
    }
}

proof fn lemma_first_at(row: Seq<(Seq<char>, Option<Option<Seq<char>>>)>, i: int)
    requires
        0 <= i <= row.len(),
    ensures
        first_not_text(row.skip(i)) == first_at(row, i),
    decreases row.len() - i,
{
    if i < row.len() {
        lemma_first_at(row, i + 1);
        assert(row.skip(i).drop_first() =~= row.skip(i + 1));
        assert(row.skip(i)[0] == row[i]);
    }
}

/// The process id that a text writes in canonical decimal, without a sign or
/// leading zeros, if it is positive and fits.
pub open spec fn canonical_pid(text: Seq<char>) -> Option<u32> {
    match unsigned_value(text) {
        Some(value) => if 0 < value <= u32::MAX && decimal(value) == text {
            Some(value as u32)
        } else {
            None
        },
        None => None,
    }
}

fn parse_pid(text: &str) -> (pid: Option<u32>)
    ensures
        pid == canonical_pid(text@),
{
    match parse_u64(text) {
        Some(value) => {
            if value > 0 && value <= 0xffff_ffff && same_text(decimal_text(value).as_str(), text) {
                Some(value as u32)
            } else {
                None
            }
        },
        None => None,
    }
}

/// The refusal of a named identifier that is no canonical UUID.
pub open spec fn identifier_refusal(label: Seq<char>, uid: Seq<char>) -> Option<Seq<char>> {
    match uid_failure(uid) {
        Some(refusal) => Some("invalid "@ + label + ": "@ + refusal.detail),
        None => None,
    }
}

fn check_identifier(label: &str, uid: &str) -> (result: Result<(), String>)
    ensures
        match result {
            Ok(()) => identifier_refusal(label@, uid@) is None,
            Err(reason) => identifier_refusal(label@, uid@) == Some(reason@),
        },
{
    match validate_uid(uid) {
        Ok(()) => Ok(()),
        Err(error) => Err(
            "invalid ".to_owned().concat(label).concat(": ").concat(error.detail.as_str()),
        ),
    }
}

/// The refusal of an optional space identifier.
pub open spec fn space_refusal(space: Option<Seq<char>>) -> Option<Seq<char>> {
    match space {
        Some(space) => identifier_refusal("DMUX_GUI_TARGET_SPACE_UID"@, space),
        None => None,
    }
}

/// The GUI instance that a launcher request is bound to.
pub open spec fn bound_instance(launcher_request_uid: Seq<char>) -> Seq<char> {
    "gui-"@ + without_char(launcher_request_uid, '-')
}

/// The launcher pid of a claim that is sound in itself and names our parent
/// process, or the first reason why it is not.
pub open spec fn sound_claim(claim: ClaimView, parent: i32) -> Result<u32, Seq<char>> {
    match canonical_pid(claim.launcher_pid) {
        None => Err("DMUX_GUI_LAUNCHER_PID is not a canonical positive decimal pid"@),
        Some(pid) => if parent != pid {
            Err(
                "initial GUI parent pid "@ + signed_decimal(parent as int)
                    + " does not match launcher pid "@ + decimal(pid as nat),
            )
        } else if identifier_refusal("launcher request uid"@, claim.launcher_request_uid) is Some {
            Err(identifier_refusal("launcher request uid"@, claim.launcher_request_uid)->0)
        } else if claim.gui_instance != bound_instance(claim.launcher_request_uid) {
            Err("DMUX_GUI_INSTANCE is not deterministically bound to launcher request uid"@)
        } else if identifier_refusal("backend instance uid"@, claim.backend_instance) is Some {
            Err(identifier_refusal("backend instance uid"@, claim.backend_instance)->0)
        } else if !is_bounded_text(claim.target_domain, MAX_IDENTITY_BYTES as nat) {
            Err("DMUX_GUI_TARGET_DOMAIN is empty, oversized, or contains controls"@)
        } else if identifier_refusal(
            "DMUX_GUI_TARGET_BACKEND_INSTANCE"@,
            claim.target_backend_instance,
        ) is Some {
            Err(
                identifier_refusal(
                    "DMUX_GUI_TARGET_BACKEND_INSTANCE"@,
                    claim.target_backend_instance,
                )->0,
            )
        } else if identifier_refusal("DMUX_GUI_TARGET_SERVER_EPOCH"@, claim.target_server_epoch)
            is Some {
            Err(
                identifier_refusal("DMUX_GUI_TARGET_SERVER_EPOCH"@, claim.target_server_epoch)->0,
            )
        } else if identifier_refusal("DMUX_GUI_TARGET_HOST_UID"@, claim.target_host_uid)
            is Some {
            Err(identifier_refusal("DMUX_GUI_TARGET_HOST_UID"@, claim.target_host_uid)->0)
        } else if space_refusal(claim.target_space_uid) is Some {
            Err(space_refusal(claim.target_space_uid)->0)
        } else {
            Ok(pid)
        },
    }
}

/// Checks a claim in itself and against our parent process.
pub fn check_claim(claim: &LauncherClaim, parent: i32) -> (result: Result<u32, String>)
    ensures
        match result {
            Ok(pid) => sound_claim(claim@, parent) == Ok::<u32, Seq<char>>(pid),
            Err(reason) => sound_claim(claim@, parent) == Err::<u32, Seq<char>>(reason@),
        },
{
    let pid: u32 = match parse_pid(claim.launcher_pid.as_str()) {
        Some(pid) => pid,
        None => {
            return Err(
                "DMUX_GUI_LAUNCHER_PID is not a canonical positive decimal pid".to_owned(),
            );
        },
    };
    if parent as i64 != pid as i64 {
        return Err(
            "initial GUI parent pid ".to_owned().concat(
                signed_decimal_text(parent as i64).as_str(),
            ).concat(" does not match launcher pid ").concat(decimal_text(pid as u64).as_str()),
        );
    }
    match check_identifier("launcher request uid", claim.launcher_request_uid.as_str()) {
        Ok(()) => {},
        Err(reason) => {
            return Err(reason);
        },
    }
    let expected = "gui-".to_owned().concat(
        remove_char(claim.launcher_request_uid.as_str(), '-').as_str(),
    );
    if !same_text(claim.gui_instance.as_str(), expected.as_str()) {
        return Err(
            "DMUX_GUI_INSTANCE is not deterministically bound to launcher request uid".to_owned(),
        );
    }
    match check_identifier("backend instance uid", claim.backend_instance.as_str()) {
        Ok(()) => {},
        Err(reason) => {
            return Err(reason);
        },
    }
    if !bounded_text(claim.target_domain.as_str(), MAX_IDENTITY_BYTES) {
        return Err("DMUX_GUI_TARGET_DOMAIN is empty, oversized, or contains controls".to_owned());
    }
    match check_identifier(
        "DMUX_GUI_TARGET_BACKEND_INSTANCE",
        claim.target_backend_instance.as_str(),
    ) {
        Ok(()) => {},
        Err(reason) => {
            return Err(reason);
        },
    }
    match check_identifier("DMUX_GUI_TARGET_SERVER_EPOCH", claim.target_server_epoch.as_str()) {
        Ok(()) => {},
        Err(reason) => {
            return Err(reason);
        },
    }
    match check_identifier("DMUX_GUI_TARGET_HOST_UID", claim.target_host_uid.as_str()) {
        Ok(()) => {},
        Err(reason) => {
            return Err(reason);
        },
    }
    if let Some(space) = &claim.target_space_uid {
        match check_identifier("DMUX_GUI_TARGET_SPACE_UID", space.as_str()) {
            Ok(()) => {},
            Err(reason) => {
                return Err(reason);
            },
        }
    }
    Ok(pid)
}

/// The view of a [`CapturedLauncherWitness`]: the origin and the transport
/// backend, or the reason why the environment is invalid.
pub enum CapturedView {
    Absent,
    Present(OriginView, Seq<char>),
    Invalid(Seq<char>),
}

impl View for CapturedLauncherWitness {
    type V = CapturedView;

    open spec fn view(&self) -> CapturedView {
        match *self {
            CapturedLauncherWitness::Absent => CapturedView::Absent,
            CapturedLauncherWitness::Present(witness) => CapturedView::Present(
                witness.origin@,
                witness.transport_backend_instance_uid@,
            ),
            CapturedLauncherWitness::Invalid(reason) => CapturedView::Invalid(reason@),
        }
    }
}

/// Where the capture stands: settled, or waiting for the start token of the
/// launcher process.
#[derive(Debug)]
pub enum CaptureStep {
    Settled(CapturedLauncherWitness),
    AskStartToken(LauncherClaim, u32),
}

/// What the environment and the parent process alone decide.
pub open spec fn begun(environment: LauncherEnvironment, parent: i32) -> Result<
    (ClaimView, u32),
    CapturedView,
> {
    match claimed(environment) {
        Err(reason) => Err(CapturedView::Invalid(reason)),
        Ok(None) => Err(CapturedView::Absent),
        Ok(Some(claim)) => match sound_claim(claim, parent) {
            Err(reason) => Err(CapturedView::Invalid(reason)),
            Ok(pid) => Ok((claim, pid)),
        },
    }
}

/// Begins the capture: reads the environment and checks it against our parent.
pub fn begin_capture(environment: LauncherEnvironment, parent: i32) -> (step: CaptureStep)
    ensures
        match step {
            CaptureStep::Settled(captured) => begun(environment, parent) == Err::<
                (ClaimView, u32),
                CapturedView,
            >(captured@),
            CaptureStep::AskStartToken(claim, pid) => begun(environment, parent) == Ok::<
                (ClaimView, u32),
                CapturedView,
            >((claim@, pid)),
        },
{
    match read_claim(environment) {
        Err(reason) => CaptureStep::Settled(CapturedLauncherWitness::Invalid(reason)),
        Ok(None) => CaptureStep::Settled(CapturedLauncherWitness::Absent),
        Ok(Some(claim)) => match check_claim(&claim, parent) {
            Err(reason) => CaptureStep::Settled(CapturedLauncherWitness::Invalid(reason)),
            Ok(pid) => CaptureStep::AskStartToken(claim, pid),
        },
    }
}

/// The view of a question that was answered with a text or an error text.
pub open spec fn answer(reply: Result<String, String>) -> Result<Seq<char>, Seq<char>> {
    match reply {
        Ok(text) => Ok(text@),
        Err(reason) => Err(reason@),
    }
}

/// Why the live start token of the launcher does not confirm the claim.
pub open spec fn start_token_refusal(
    claimed_token: Seq<char>,
    live: Result<Seq<char>, Seq<char>>,
) -> Option<Seq<char>> {
    match live {
        Err(reason) => Some("cannot verify launcher process: "@ + reason),
        Ok(token) => if token == claimed_token {
            None
        } else {
            Some("launcher start token does not match its live OS process incarnation"@)
        },
    }
}

/// Checks the start token that the system reports for the launcher pid.
pub fn check_start_token(claim: &LauncherClaim, live: Result<String, String>) -> (result: Result<
    (),
    String,
>)
    ensures
        match result {
            Ok(()) => start_token_refusal(claim@.launcher_start_token, answer(live)) is None,
            Err(reason) => start_token_refusal(claim@.launcher_start_token, answer(live)) == Some(
                reason@,
            ),
        },
{
    match live {
        Err(reason) => Err("cannot verify launcher process: ".to_owned().concat(reason.as_str())),
        Ok(token) => {
            if same_text(claim.launcher_start_token.as_str(), token.as_str()) {
                Ok(())
            } else {
                Err("launcher start token does not match its live OS process incarnation".to_owned())
            }
        },
    }
}

/// The origin that a confirmed claim gives.
pub open spec fn origin_of(claim: ClaimView, pid: u32, euid: u32) -> OriginView {
    OriginView {
        gui_instance: claim.gui_instance,
        uid: euid as u64,
        pid,
        start_token: claim.launcher_start_token,
        launcher_request_uid: claim.launcher_request_uid,
        domain: claim.target_domain,
        backend_instance_uid: claim.target_backend_instance,
        server_epoch: claim.target_server_epoch,
        host_uid: claim.target_host_uid,
        space_uid: claim.target_space_uid,
    }
}

/// What the backend that the managed service descriptor names makes of a claim.
pub open spec fn bound_to_backend(
    claim: ClaimView,
    pid: u32,
    backend: Result<Seq<char>, Seq<char>>,
    euid: u32,
) -> CapturedView {
    match backend {
        Err(reason) => CapturedView::Invalid(
            "cannot bind launcher to verified managed service: "@ + reason,
        ),
        Ok(backend) => if backend != claim.backend_instance {
            CapturedView::Invalid(
                "launcher backend instance does not match verified managed descriptor"@,
            )
        } else {
            CapturedView::Present(origin_of(claim, pid, euid), claim.backend_instance)
        },
    }
}

/// Ends the capture with the backend that the managed service descriptor names.
pub fn finish_capture(
    claim: LauncherClaim,
    pid: u32,
    backend: Result<String, String>,
    euid: u32,
) -> (captured: CapturedLauncherWitness)
    ensures
        captured@ == bound_to_backend(claim@, pid, answer(backend), euid),
{
    match backend {
        Err(reason) => CapturedLauncherWitness::Invalid(
            "cannot bind launcher to verified managed service: ".to_owned().concat(
                reason.as_str(),
            ),
        ),
        Ok(backend) => {
            if !same_text(claim.backend_instance.as_str(), backend.as_str()) {
                return CapturedLauncherWitness::Invalid(
                    "launcher backend instance does not match verified managed descriptor".to_owned(),
                );
            }
            CapturedLauncherWitness::Present(
                LauncherWitness {
                    origin: LauncherOrigin {
                        gui_instance: claim.gui_instance,
                        uid: euid as u64,
                        pid,
                        start_token: claim.launcher_start_token,
                        launcher_request_uid: claim.launcher_request_uid,
                        domain: claim.target_domain,
                        backend_instance_uid: claim.target_backend_instance,
                        server_epoch: claim.target_server_epoch,
                        host_uid: claim.target_host_uid,
                        space_uid: claim.target_space_uid,
                    },
                    transport_backend_instance_uid: claim.backend_instance,
                },
            )
        },
    }
}

/// What a whole capture finds.
pub open spec fn captured_from(
    environment: LauncherEnvironment,
    parent: i32,
    live: Result<Seq<char>, Seq<char>>,
    backend: Result<Seq<char>, Seq<char>>,
    euid: u32,
) -> CapturedView {
    match begun(environment, parent) {
        Err(settled) => settled,
        Ok((claim, pid)) => match start_token_refusal(claim.launcher_start_token, live) {
            Some(reason) => CapturedView::Invalid(reason),
            None => bound_to_backend(claim, pid, backend, euid),
        },
    }
}

/// Captures the launcher witness from the environment of the process, the pid
/// of its parent, the start token that the system reports for the launcher,
/// and the backend that the managed service descriptor names.
pub fn capture_launcher_witness_from_process(
    environment: LauncherEnvironment,
    parent: i32,
    live: Result<String, String>,
    backend: Result<String, String>,
    euid: u32,
) -> (captured: CapturedLauncherWitness)
    ensures
        captured@ == captured_from(environment, parent, answer(live), answer(backend), euid),
{
    match begin_capture(environment, parent) {
        CaptureStep::Settled(captured) => captured,
        CaptureStep::AskStartToken(claim, pid) => match check_start_token(&claim, live) {
            Err(reason) => CapturedLauncherWitness::Invalid(reason),
            Ok(()) => finish_capture(claim, pid, backend, euid),
        },
    }
}

/// The witness of a capture: none, one, or a refusal.
pub fn captured_launcher_witness(captured: &CapturedLauncherWitness) -> (result: Result<
    Option<&LauncherWitness>,
    BridgeFsError,
>)
    ensures
        match (captured@, result) {
            (CapturedView::Absent, Ok(None)) => true,
            (CapturedView::Present(origin, backend), Ok(Some(witness))) => witness.origin@ == origin
                && witness.transport_backend_instance_uid@ == backend,
            (CapturedView::Invalid(reason), Err(error)) => error@ == failure(
                "launcher_witness_invalid"@,
                reason,
            ),
            _ => false,
        },
{
    match captured {
        CapturedLauncherWitness::Absent => Ok(None),
        CapturedLauncherWitness::Present(witness) => Ok(Some(witness)),
        CapturedLauncherWitness::Invalid(reason) => Err(
            BridgeFsError::new("launcher_witness_invalid", reason.clone()),
        ),
    }
}

/// The refusal of an optional request identifier.
pub open spec fn optional_uid_failure(uid: Option<Seq<char>>) -> Option<Failure> {
    match uid {
        Some(uid) => uid_failure(uid),
        None => None,
    }
}

/// Whether the fixed parts of an origin are acceptable for this user.
pub open spec fn origin_is_sound(origin: OriginView, euid: u32) -> bool {
    &&& is_bounded_text(origin.domain, MAX_IDENTITY_BYTES as nat)
    &&& origin.uid == euid
    &&& origin.pid != 0
    &&& origin.start_token.len() > 0
    &&& encode_utf8(origin.start_token).len() <= MAX_IDENTITY_BYTES
}

/// Why an origin does not match the captured one.
pub open spec fn origin_refusal(
    captured: OriginView,
    origin: OriginView,
    leased_instance: Seq<char>,
    euid: u32,
) -> Option<Failure> {
    if instance_failure(origin.gui_instance) is Some {
        instance_failure(origin.gui_instance)
    } else if uid_failure(origin.launcher_request_uid) is Some {
        uid_failure(origin.launcher_request_uid)
    } else if uid_failure(origin.backend_instance_uid) is Some {
        uid_failure(origin.backend_instance_uid)
    } else if uid_failure(origin.server_epoch) is Some {
        uid_failure(origin.server_epoch)
    } else if uid_failure(origin.host_uid) is Some {
        uid_failure(origin.host_uid)
    } else if optional_uid_failure(origin.space_uid) is Some {
        optional_uid_failure(origin.space_uid)
    } else if !origin_is_sound(origin, euid) {
        Some(
            failure(
                "launcher_witness_invalid"@,
                "cold-launch origin has invalid fixed domain or process identity"@,
            ),
        )
    } else if origin.gui_instance != leased_instance || origin != captured {
        Some(
            failure(
                "launcher_witness_mismatch"@,
                "cold-launch origin does not exactly match the captured broker witness"@,
            ),
        )
    } else {
        None
    }
}

fn same_optional(left: &Option<String>, right: &Option<String>) -> (same: bool)
    ensures
        same == (optional_string(*left) == optional_string(*right)),
{
    match (left, right) {
        (Some(left), Some(right)) => same_text(left.as_str(), right.as_str()),
        (None, None) => true,
        _ => false,
    }
}

fn same_origin(left: &LauncherOrigin, right: &LauncherOrigin) -> (same: bool)
    ensures
        same == (left@ == right@),
{
    same_text(left.gui_instance.as_str(), right.gui_instance.as_str()) && left.uid == right.uid
        && left.pid == right.pid && same_text(left.start_token.as_str(), right.start_token.as_str())
        && same_text(left.launcher_request_uid.as_str(), right.launcher_request_uid.as_str())
        && same_text(left.domain.as_str(), right.domain.as_str()) && same_text(
        left.backend_instance_uid.as_str(),
        right.backend_instance_uid.as_str(),
    ) && same_text(left.server_epoch.as_str(), right.server_epoch.as_str()) && same_text(
        left.host_uid.as_str(),
        right.host_uid.as_str(),
    ) && same_optional(&left.space_uid, &right.space_uid)
}

/// Checks that an origin is exactly the captured one and bound to the leased
/// instance.
pub fn validate_launcher_witness(
    captured: &LauncherWitness,
    origin: &LauncherOrigin,
    leased_instance: &str,
    euid: u32,
) -> (result: Result<(), BridgeFsError>)
    ensures
        refuses(result, origin_refusal(captured.origin@, origin@, leased_instance@, euid)),
{
    validate_instance(origin.gui_instance.as_str())?;
    validate_uid(origin.launcher_request_uid.as_str())?;
    validate_uid(origin.backend_instance_uid.as_str())?;
    validate_uid(origin.server_epoch.as_str())?;
    validate_uid(origin.host_uid.as_str())?;
    if let Some(space_uid) = &origin.space_uid {
        validate_uid(space_uid.as_str())?;
    }
    if !bounded_text(origin.domain.as_str(), MAX_IDENTITY_BYTES) || origin.uid != euid as u64
        || origin.pid == 0 || origin.start_token.as_str().is_empty() || byte_len(
        origin.start_token.as_str(),
    ) > MAX_IDENTITY_BYTES {
        return Err(
            BridgeFsError::new(
                "launcher_witness_invalid",
                "cold-launch origin has invalid fixed domain or process identity".to_owned(),
            ),
        );
    }
    if !same_text(origin.gui_instance.as_str(), leased_instance) || !same_origin(
        origin,
        &captured.origin,
    ) {
        return Err(
            BridgeFsError::new(
                "launcher_witness_mismatch",
                "cold-launch origin does not exactly match the captured broker witness".to_owned(),
            ),
        );
    }
    Ok(())
}

/// Finds the captured witness and checks an origin against it.
pub fn admit_origin<'a>(
    captured: &'a CapturedLauncherWitness,
    origin: &LauncherOrigin,
    leased_instance: &str,
    euid: u32,
) -> (result: Result<&'a LauncherWitness, BridgeFsError>)
    ensures
        refuses(result, admission_refusal(captured@, origin@, leased_instance@, euid)),
        match result {
            Ok(witness) => captured@ == CapturedView::Present(
                witness.origin@,
                witness.transport_backend_instance_uid@,
            ),
            Err(_) => true,
        },
{
    match captured_launcher_witness(captured)? {
        None => Err(
            BridgeFsError::new(
                "launcher_witness_unavailable",
                "this GUI process was not launched with a complete broker witness".to_owned(),
            ),
        ),
        Some(witness) => {
            validate_launcher_witness(witness, origin, leased_instance, euid)?;
            Ok(witness)
        },
    }
}

/// Why an origin is not admitted.
pub open spec fn admission_refusal(
    captured: CapturedView,
    origin: OriginView,
    leased_instance: Seq<char>,
    euid: u32,
) -> Option<Failure> {
    match captured {
        CapturedView::Invalid(reason) => Some(failure("launcher_witness_invalid"@, reason)),
        CapturedView::Absent => Some(
            failure(
                "launcher_witness_unavailable"@,
                "this GUI process was not launched with a complete broker witness"@,
            ),
        ),
        CapturedView::Present(witness, _) => origin_refusal(witness, origin, leased_instance, euid),
    }
}

/// The view of a backend that was asked for.
pub open spec fn backend_reply(reply: Result<String, BridgeFsError>) -> Result<Seq<char>, Failure> {
    match reply {
        Ok(backend) => Ok(backend@),
        Err(error) => Err(error@),
    }
}

/// Why an admitted witness cannot be spent: it is stale, or already spent.
pub open spec fn spending_refusal(
    witness: OriginView,
    transport_backend: Seq<char>,
    live: Result<Seq<char>, Seq<char>>,
    backend: Result<Seq<char>, Failure>,
    consumed: bool,
) -> Option<Failure> {
    match live {
        Err(reason) => Some(failure("launcher_witness_stale"@, reason)),
        Ok(token) => if token != witness.start_token {
            Some(
                failure(
                    "launcher_witness_stale"@,
                    "launcher pid no longer names the captured process incarnation"@,
                ),
            )
        } else {
            match backend {
                Err(refusal) => Some(refusal),
                Ok(backend) => if backend != transport_backend {
                    Some(
                        failure(
                            "launcher_witness_stale"@,
                            "managed service backend identity changed before witness consumption"@,
                        ),
                    )
                } else if consumed {
                    Some(
                        failure(
                            "launcher_witness_replayed"@,
                            "cold-launch broker witness was already consumed in this GUI process"@,
                        ),
                    )
                } else {
                    None
                },
            }
        },
    }
}

/// Spends an admitted witness, if the launcher and the backend are still the
/// captured ones and the witness was not spent before.
pub fn consume_launcher_witness(
    witness: &LauncherWitness,
    live: Result<String, String>,
    backend: Result<String, BridgeFsError>,
    consumed: &mut bool,
) -> (result: Result<(), BridgeFsError>)
    ensures
        refuses(
            result,
            spending_refusal(
                witness.origin@,
                witness.transport_backend_instance_uid@,
                answer(live),
                backend_reply(backend),
                *old(consumed),
            ),
        ),
        *final(consumed) == (*old(consumed) || result is Ok),
{
    match live {
        Err(reason) => {
            return Err(BridgeFsError::new("launcher_witness_stale", reason));
        },
        Ok(token) => {
            if !same_text(token.as_str(), witness.origin.start_token.as_str()) {
                return Err(
                    BridgeFsError::new(
                        "launcher_witness_stale",
                        "launcher pid no longer names the captured process incarnation".to_owned(),
                    ),
                );
            }
        },
    }
    let backend = backend?;
    if !same_text(backend.as_str(), witness.transport_backend_instance_uid.as_str()) {
        return Err(
            BridgeFsError::new(
                "launcher_witness_stale",
                "managed service backend identity changed before witness consumption".to_owned(),
            ),
        );
    }
    if *consumed {
        return Err(
            BridgeFsError::new(
                "launcher_witness_replayed",
                "cold-launch broker witness was already consumed in this GUI process".to_owned(),
            ),
        );
    }
    *consumed = true;
    Ok(())
}

/// A witness is captured only where the claim names our parent process by its
/// live incarnation, our own user, the instance that the request is bound to,
/// and the backend that serves us.
pub proof fn law_captured_witness_is_confirmed(
    environment: LauncherEnvironment,
    parent: i32,
    live: Result<Seq<char>, Seq<char>>,
    backend: Result<Seq<char>, Seq<char>>,
    euid: u32,
)
    requires
        captured_from(environment, parent, live, backend, euid) is Present,
    ensures
        ({
            let origin = captured_from(environment, parent, live, backend, euid)->Present_0;
            let transport = captured_from(environment, parent, live, backend, euid)->Present_1;
            &&& origin.pid == parent
            &&& origin.pid != 0
            &&& live == Ok::<Seq<char>, Seq<char>>(origin.start_token)
            &&& backend == Ok::<Seq<char>, Seq<char>>(transport)
            &&& origin.uid == euid
            &&& origin.gui_instance == bound_instance(origin.launcher_request_uid)
        }),
{
}

/// A captured origin carries the text of every variable under its own field. The
/// space is the text of its variable where that is set, and none where it is not.
pub proof fn law_captured_origin_is_the_environment(
    environment: LauncherEnvironment,
    parent: i32,
    live: Result<Seq<char>, Seq<char>>,
    backend: Result<Seq<char>, Seq<char>>,
    euid: u32,
)
    requires
        captured_from(environment, parent, live, backend, euid) is Present,
    ensures
        ({
            let origin = captured_from(environment, parent, live, backend, euid)->Present_0;
            let transport = captured_from(environment, parent, live, backend, euid)->Present_1;
            &&& env_text(environment.gui_instance) == Some(Some(origin.gui_instance))
            &&& env_text(environment.launcher_request_uid) == Some(
                Some(origin.launcher_request_uid),
            )
            &&& env_text(environment.launcher_pid) == Some(Some(decimal(origin.pid as nat)))
            &&& env_text(environment.launcher_start_token) == Some(Some(origin.start_token))
            &&& env_text(environment.backend_instance) == Some(Some(transport))
            &&& env_text(environment.target_domain) == Some(Some(origin.domain))
            &&& env_text(environment.target_backend_instance) == Some(
                Some(origin.backend_instance_uid),
            )
            &&& env_text(environment.target_server_epoch) == Some(Some(origin.server_epoch))
            &&& env_text(environment.target_host_uid) == Some(Some(origin.host_uid))
            &&& match environment.target_space_uid {
                Some(EnvValue::Text(space)) => origin.space_uid == Some(space@),
                Some(EnvValue::NotUtf8) => false,
                None => origin.space_uid is None,
            }
        }),
{
    let row = mandatory(environment).push(
        ("DMUX_GUI_TARGET_SPACE_UID"@, env_text(environment.target_space_uid)),
    );
    assert(fully_claimed(environment));
    assert(first_not_text(row) is None);
    lemma_all_texts(row);
    assert forall|i: int| 0 <= i < 9 implies row[i] == mandatory(environment)[i] by {}
    assert(mandatory(environment)[0].1 is Some && row[0].1 != Some(None::<Seq<char>>));
    assert(mandatory(environment)[1].1 is Some && row[1].1 != Some(None::<Seq<char>>));
    assert(mandatory(environment)[2].1 is Some && row[2].1 != Some(None::<Seq<char>>));
    assert(mandatory(environment)[3].1 is Some && row[3].1 != Some(None::<Seq<char>>));
    assert(mandatory(environment)[4].1 is Some && row[4].1 != Some(None::<Seq<char>>));
    assert(mandatory(environment)[5].1 is Some && row[5].1 != Some(None::<Seq<char>>));
    assert(mandatory(environment)[6].1 is Some && row[6].1 != Some(None::<Seq<char>>));
    assert(mandatory(environment)[7].1 is Some && row[7].1 != Some(None::<Seq<char>>));
    assert(mandatory(environment)[8].1 is Some && row[8].1 != Some(None::<Seq<char>>));
    assert(row[9].1 != Some(None::<Seq<char>>));
}

proof fn lemma_all_texts(row: Seq<(Seq<char>, Option<Option<Seq<char>>>)>)
    requires
        first_not_text(row) is None,
    ensures
        forall|i: int| 0 <= i < row.len() ==> (#[trigger] row[i]).1 != Some(None::<Seq<char>>),
    decreases row.len(),
{
    if row.len() > 0 {
        lemma_all_texts(row.drop_first());
        assert forall|i: int| 0 <= i < row.len() implies (#[trigger] row[i]).1 != Some(
            None::<Seq<char>>,
        ) by {
            if i > 0 {
                assert(row.drop_first()[i - 1] == row[i]);
            }
        }
    }
}

proof fn lemma_no_foreign_text(row: Seq<(Seq<char>, Option<Option<Seq<char>>>)>)
    requires
        forall|i: int| 0 <= i < row.len() ==> (#[trigger] row[i]).1 != Some(None::<Seq<char>>),
    ensures
        first_not_text(row) is None,
    decreases row.len(),
{
    if row.len() > 0 {
        assert(row[0].1 != Some(None::<Seq<char>>));
        assert forall|i: int| 0 <= i < row.len() - 1 implies (#[trigger] row.drop_first()[i]).1
            != Some(None::<Seq<char>>) by {
            assert(row.drop_first()[i] == row[i + 1]);
        }
        lemma_no_foreign_text(row.drop_first());
    }
}

/// What is captured is well formed: every identifier is canonical, and the domain is
/// a bounded text.
pub proof fn law_captured_origin_is_well_formed(
    environment: LauncherEnvironment,
    parent: i32,
    live: Result<Seq<char>, Seq<char>>,
    backend: Result<Seq<char>, Seq<char>>,
    euid: u32,
)
    requires
        captured_from(environment, parent, live, backend, euid) is Present,
    ensures
        ({
            let origin = captured_from(environment, parent, live, backend, euid)->Present_0;
            let transport = captured_from(environment, parent, live, backend, euid)->Present_1;
            &&& is_canonical_uuid(origin.launcher_request_uid)
            &&& is_canonical_uuid(transport)
            &&& is_bounded_text(origin.domain, 256)
            &&& is_canonical_uuid(origin.backend_instance_uid)
            &&& is_canonical_uuid(origin.server_epoch)
            &&& is_canonical_uuid(origin.host_uid)
            &&& origin.space_uid matches Some(space) ==> is_canonical_uuid(space)
            &&& origin.gui_instance == "gui-"@ + without_char(origin.launcher_request_uid, '-')
        }),
{
}

/// A complete and consistent environment is captured: the launcher is the live
/// parent process, its identifiers are canonical, the instance is the one that
/// follows from the launcher request, and the backend is the one that the managed
/// service has.
pub proof fn law_complete_environment_is_captured(
    environment: LauncherEnvironment,
    pid: u32,
    live: Result<Seq<char>, Seq<char>>,
    backend: Result<Seq<char>, Seq<char>>,
    euid: u32,
)
    requires
        0 < pid <= i32::MAX,
        env_text(environment.launcher_pid) == Some(Some(decimal(pid as nat))),
        env_text(environment.launcher_request_uid) matches Some(Some(uid)) && uid_failure(uid)
            is None && env_text(environment.gui_instance) == Some(
            Some("gui-"@ + without_char(uid, '-')),
        ),
        env_text(environment.launcher_start_token) matches Some(Some(token)) && live == Ok::<
            Seq<char>,
            Seq<char>,
        >(token),
        env_text(environment.backend_instance) matches Some(Some(uid)) && uid_failure(uid) is None
            && backend == Ok::<Seq<char>, Seq<char>>(uid),
        env_text(environment.target_domain) matches Some(Some(domain)) && is_bounded_text(
            domain,
            256,
        ),
        env_text(environment.target_backend_instance) matches Some(Some(uid)) && uid_failure(uid)
            is None,
        env_text(environment.target_server_epoch) matches Some(Some(uid)) && uid_failure(uid)
            is None,
        env_text(environment.target_host_uid) matches Some(Some(uid)) && uid_failure(uid) is None,
        environment.target_space_uid is None || (env_text(environment.target_space_uid) matches Some(
            Some(uid),
        ) && uid_failure(uid) is None),
    ensures
        captured_from(environment, pid as i32, live, backend, euid) is Present,
        captured_from(environment, pid as i32, live, backend, euid)->Present_0.uid == euid,
        captured_from(environment, pid as i32, live, backend, euid)->Present_0.pid == pid,
{
    let all = mandatory(environment);
    let row = all.push(("DMUX_GUI_TARGET_SPACE_UID"@, env_text(environment.target_space_uid)));
    assert forall|i: int| 0 <= i < 9 implies (#[trigger] all[i]).1 is Some by {}
    assert(all[0].1 is Some);
    assert(!nothing_claimed(environment));
    assert(fully_claimed(environment));
    assert forall|i: int| 0 <= i < row.len() implies (#[trigger] row[i]).1 != Some(
        None::<Seq<char>>,
    ) by {}
    lemma_no_foreign_text(row);
    crate::text::lemma_decimal_reads_back(pid as nat);
}

/// With no variable set there is no witness, and one that is set without the
/// other mandatory ones makes the capture invalid.
pub proof fn law_partial_environment_is_not_captured(
    environment: LauncherEnvironment,
    parent: i32,
    live: Result<Seq<char>, Seq<char>>,
    backend: Result<Seq<char>, Seq<char>>,
    euid: u32,
)
    ensures
        ({
            let captured = captured_from(environment, parent, live, backend, euid);
            let any = environment.gui_instance is Some || environment.launcher_request_uid is Some
                || environment.launcher_pid is Some || environment.launcher_start_token is Some
                || environment.backend_instance is Some || environment.target_domain is Some
                || environment.target_backend_instance is Some
                || environment.target_server_epoch is Some || environment.target_host_uid is Some
                || environment.target_space_uid is Some;
            let all = environment.gui_instance is Some && environment.launcher_request_uid is Some
                && environment.launcher_pid is Some && environment.launcher_start_token is Some
                && environment.backend_instance is Some && environment.target_domain is Some
                && environment.target_backend_instance is Some
                && environment.target_server_epoch is Some && environment.target_host_uid is Some;
            &&& captured is Absent <==> !any
            &&& any && !all ==> captured is Invalid
        }),
{
    let row = mandatory(environment);
    assert(row[0].1 == env_text(environment.gui_instance));
    assert(row[1].1 == env_text(environment.launcher_request_uid));
    assert(row[2].1 == env_text(environment.launcher_pid));
    assert(row[3].1 == env_text(environment.launcher_start_token));
    assert(row[4].1 == env_text(environment.backend_instance));
    assert(row[5].1 == env_text(environment.target_domain));
    assert(row[6].1 == env_text(environment.target_backend_instance));
    assert(row[7].1 == env_text(environment.target_server_epoch));
    assert(row[8].1 == env_text(environment.target_host_uid));
}

/// An origin that is admitted is the captured one, field by field, and names
/// the leased instance.
pub proof fn law_admitted_origin_is_the_captured_one(
    captured: CapturedView,
    origin: OriginView,
    leased_instance: Seq<char>,
    euid: u32,
)
    requires
        admission_refusal(captured, origin, leased_instance, euid) is None,
    ensures
        captured is Present,
        captured->Present_0 == origin,
        origin.gui_instance == leased_instance,
{
}

/// The captured origin itself is admitted by the leased instance that it names:
/// its instance and its identifiers are well formed, its domain and start token
/// are bounded, and it belongs to this user.
pub proof fn law_captured_origin_is_admitted(origin: OriginView, transport: Seq<char>, euid: u32)
    requires
        instance_failure(origin.gui_instance) is None,
        uid_failure(origin.launcher_request_uid) is None,
        uid_failure(origin.backend_instance_uid) is None,
        uid_failure(origin.server_epoch) is None,
        uid_failure(origin.host_uid) is None,
        origin.space_uid matches Some(space) ==> uid_failure(space) is None,
        is_bounded_text(origin.domain, 256),
        origin.uid == euid,
        origin.pid != 0,
        origin.start_token.len() > 0,
        encode_utf8(origin.start_token).len() <= 256,
    ensures
        admission_refusal(
            CapturedView::Present(origin, transport),
            origin,
            origin.gui_instance,
            euid,
        ) is None,
{
}

/// An origin is admitted only if it is well formed and belongs to this user, and a
/// refusal says why: there is no witness, or the witness or the origin is invalid,
/// or the two differ.
pub proof fn law_refused_origin_says_why(
    captured: CapturedView,
    origin: OriginView,
    leased_instance: Seq<char>,
    euid: u32,
)
    ensures
        ({
            let refusal = admission_refusal(captured, origin, leased_instance, euid);
            &&& captured is Absent ==> refusal is Some && refusal->0.code
                == "launcher_witness_unavailable"@
            &&& captured matches CapturedView::Invalid(reason) ==> refusal == Some(
                failure("launcher_witness_invalid"@, reason),
            )
            &&& refusal is None ==> {
                &&& is_instance(origin.gui_instance)
                &&& is_canonical_uuid(origin.launcher_request_uid)
                &&& is_canonical_uuid(origin.backend_instance_uid)
                &&& is_canonical_uuid(origin.server_epoch)
                &&& is_canonical_uuid(origin.host_uid)
                &&& origin.space_uid matches Some(space) ==> is_canonical_uuid(space)
                &&& is_bounded_text(origin.domain, 256)
                &&& origin.uid == euid
                &&& origin.pid != 0
                &&& origin.start_token.len() > 0
                &&& encode_utf8(origin.start_token).len() <= 256
            }
            &&& captured is Present && captured->Present_0 != origin && admission_refusal(
                CapturedView::Present(origin, captured->Present_1),
                origin,
                origin.gui_instance,
                euid,
            ) is None ==> refusal is Some && refusal->0.code == "launcher_witness_mismatch"@
        }),
{
}

/// A witness that is not spent says why: its launcher is not the same live process,
/// the service has another backend, or it was spent before.
pub proof fn law_unspent_witness_says_why(
    witness: OriginView,
    transport_backend: Seq<char>,
    live: Result<Seq<char>, Seq<char>>,
    backend: Result<Seq<char>, Failure>,
    consumed: bool,
)
    ensures
        ({
            let refusal = spending_refusal(witness, transport_backend, live, backend, consumed);
            let same_process = live == Ok::<Seq<char>, Seq<char>>(witness.start_token);
            &&& !same_process ==> refusal is Some && refusal->0.code == "launcher_witness_stale"@
            &&& same_process && backend is Err ==> refusal == Some(backend->Err_0)
            &&& same_process && backend is Ok && backend->Ok_0 != transport_backend ==> refusal
                is Some && refusal->0.code == "launcher_witness_stale"@
            &&& same_process && backend == Ok::<Seq<char>, Failure>(transport_backend) && consumed
                ==> refusal is Some && refusal->0.code == "launcher_witness_replayed"@
        }),
{
}

/// A witness that was not spent yet can be spent while its launcher is the same
/// live process and the managed service has the same backend, and in no other
/// case.
pub proof fn law_live_witness_can_be_spent(
    witness: OriginView,
    transport_backend: Seq<char>,
    live: Result<Seq<char>, Seq<char>>,
    backend: Result<Seq<char>, Failure>,
)
    ensures
        spending_refusal(witness, transport_backend, live, backend, false) is None <==> live
            == Ok::<Seq<char>, Seq<char>>(witness.start_token) && backend == Ok::<
            Seq<char>,
            Failure,
        >(transport_backend),
{
}

/// A witness is spent at most once: after it was spent, every further attempt
/// is refused.
pub proof fn law_launcher_witness_is_one_use(
    witness: OriginView,
    transport_backend: Seq<char>,
    live: Result<Seq<char>, Seq<char>>,
    backend: Result<Seq<char>, Failure>,
)
    ensures
        spending_refusal(witness, transport_backend, live, backend, true) is Some,
{
}

/// An origin as a script hands it in: the keys of its table, and each field as
/// it could be read.
#[derive(Debug)]
pub struct OriginRequest {
    pub keys: Vec<TableKey>,
    pub gui_instance: Result<String, String>,
    pub uid: Result<u64, String>,
    pub pid: Result<u32, String>,
    pub start_token: Result<String, String>,
    pub launcher_request_uid: Result<String, String>,
    pub domain: Result<String, String>,
    pub backend_instance_uid: Result<String, String>,
    pub server_epoch: Result<String, String>,
    pub host_uid: Result<String, String>,
    pub space_uid: Result<Option<String>, String>,
}

/// The fields of an origin.
pub open spec fn origin_fields() -> Seq<Seq<char>> {
    seq![
        "gui_instance"@,
        "uid"@,
        "pid"@,
        "start_token"@,
        "launcher_request_uid"@,
        "domain"@,
        "backend_instance_uid"@,
        "server_epoch"@,
        "host_uid"@,
        "space_uid"@,
    ]
}

fn origin_field_names() -> (names: Vec<&'static str>)
    ensures
        names_of(names@) == origin_fields(),
{
    let mut names: Vec<&'static str> = Vec::new();
    names.push("gui_instance");
    names.push("uid");
    names.push("pid");
    names.push("start_token");
    names.push("launcher_request_uid");
    names.push("domain");
    names.push("backend_instance_uid");
    names.push("server_epoch");
    names.push("host_uid");
    names.push("space_uid");
    assert(names_of(names@) =~= origin_fields());
    names
}

/// The refusal of an unreadable or unknown key of an origin.
pub open spec fn origin_keys_refusal(request: OriginRequest) -> Option<Seq<char>> {
    keys_refusal(
        request.keys@.map_values(|k: TableKey| k@),
        origin_fields(),
        "dmux_bridge_launcher_witness_invalid: origin key is "@,
        " rather than a string"@,
        "dmux_bridge_launcher_witness_invalid: unknown origin field "@,
        ""@,
    )
}

/// The first error of an origin's fields, in the order in which they are read.
pub open spec fn origin_field_error(request: OriginRequest) -> Option<Seq<char>> {
    let rest = field_error(request.space_uid);
    let rest = either_error(field_error(request.host_uid), rest);
    let rest = either_error(field_error(request.server_epoch), rest);
    let rest = either_error(field_error(request.backend_instance_uid), rest);
    let rest = either_error(field_error(request.domain), rest);
    let rest = either_error(field_error(request.launcher_request_uid), rest);
    let rest = either_error(field_error(request.start_token), rest);
    let rest = either_error(field_error(request.pid), rest);
    let rest = either_error(field_error(request.uid), rest);
    let rest = either_error(field_error(request.gui_instance), rest);
    rest
}

/// Reads an origin that a script hands in.
#[verifier::rlimit(60)]
pub fn launcher_witness_from_table(request: OriginRequest) -> (result: Result<
    LauncherOrigin,
    String,
>)
    ensures
        match result {
            Err(reason) => if origin_keys_refusal(request) is Some {
                origin_keys_refusal(request) == Some(reason@)
            } else {
                origin_field_error(request) == Some(reason@)
            },
            Ok(origin) => {
                &&& origin_keys_refusal(request) is None
                &&& origin_field_error(request) is None
                &&& request.gui_instance == Ok::<String, String>(origin.gui_instance)
                &&& request.uid == Ok::<u64, String>(origin.uid)
                &&& request.pid == Ok::<u32, String>(origin.pid)
                &&& request.start_token == Ok::<String, String>(origin.start_token)
                &&& request.launcher_request_uid == Ok::<String, String>(
                    origin.launcher_request_uid,
                )
                &&& request.domain == Ok::<String, String>(origin.domain)
                &&& request.backend_instance_uid == Ok::<String, String>(
                    origin.backend_instance_uid,
                )
                &&& request.server_epoch == Ok::<String, String>(origin.server_epoch)
                &&& request.host_uid == Ok::<String, String>(origin.host_uid)
                &&& request.space_uid == Ok::<Option<String>, String>(origin.space_uid)
            },
        },
{
    let allowed = origin_field_names();
    let words = SchemaWords {
        before_type: "dmux_bridge_launcher_witness_invalid: origin key is ",
        behind_type: " rather than a string",
        before_field: "dmux_bridge_launcher_witness_invalid: unknown origin field ",
        behind_field: "",
    };
    check_keys(&request.keys, &allowed, words)?;
    Ok(
        LauncherOrigin {
            gui_instance: request.gui_instance?,
            uid: request.uid?,
            pid: request.pid?,
            start_token: request.start_token?,
            launcher_request_uid: request.launcher_request_uid?,
            domain: request.domain?,
            backend_instance_uid: request.backend_instance_uid?,
            server_epoch: request.server_epoch?,
            host_uid: request.host_uid?,
            space_uid: request.space_uid?,
        },
    )
}

} // verus!
