//! Packet coverage classification and vanilla-conformance obligations.
//!
//! Every clientbound packet in `login`, `configuration` and `play` is
//! explicitly classified here. No packet may disappear silently: packets
//! without a detailed entry fall back to [`CoverageClass::IntentionallyIgnored`]
//! with [`ConformanceStatus::NotImplemented`].
//!
//! Statuses are honest: nothing is `Pass` until a real vanilla 1.21.4
//! capture exists and the semantic diff agrees. Mock-server + golden tests
//! only justify `Partial`.
use crate::text_build::{append_int, decimal};
use vstd::prelude::*;

verus! {

/// How a clientbound packet is treated today.
#[derive(Debug, Clone, Copy, PartialEq, Eq, Structural)]
pub enum CoverageClass {
    /// Decoded and actively handled (response sent and/or state updated).
    Handled,
    /// Decoded and deliberately ignored; no response is required.
    IntentionallyIgnored,
    /// Decoded and retained for a later behavior system (world, entities).
    StoredForLater,
    /// Not supported yet; must fail loudly (structured diagnostic).
    Unsupported,
}

/// Timing tolerance class used by the trace diff engine.
#[derive(Debug, Clone, Copy, PartialEq, Eq, Structural)]
pub enum TimingClass {
    /// Required immediate acknowledgement; ordering must match exactly.
    Strict,
    /// Must happen within the same client tick as the trigger.
    TickBound,
    /// Periodic cadence (keep-alive, idle movement refresh).
    Periodic,
    /// Non-essential; compared loosely.
    BestEffort,
    /// No response expected.
    NoResponse,
}

/// Vanilla-conformance status of a packet behavior.
#[derive(Debug, Clone, Copy, PartialEq, Eq, Structural)]
pub enum ConformanceStatus {
    /// Vanilla trace, own trace and semantic diff all agree.
    Pass,
    /// Implemented and covered by mock/golden tests; vanilla capture pending.
    Partial,
    /// Implemented but known to diverge from vanilla.
    Fail,
    /// Not implemented yet.
    NotImplemented,
    /// Vanilla has no observable obligation for this packet.
    NotApplicable,
}

/// What vanilla 1.21.4 does in response to a clientbound packet.
#[derive(Debug, Clone, Copy)]
pub struct Obligation {
    /// Serverbound packet vanilla sends in response, if any.
    pub responds_with: Option<&'static str>,
    /// Timing tolerance class of that response.
    pub timing: TimingClass,
    /// Required client state update, or "none".
    pub state_update: &'static str,
    /// Current conformance status.
    pub status: ConformanceStatus,
    /// Conformance scenario covering this packet, or "".
    pub scenario: &'static str,
    /// Evidence: test/capture reference. "none" means no coverage at all.
    pub evidence: &'static str,
}

/// Coverage entry for one clientbound packet.
#[derive(Debug, Clone, Copy)]
pub struct CoverageEntry {
    pub class: CoverageClass,
    pub obligation: Obligation,
}

/// What an obligation says.
#[verifier::ext_equal]
pub struct ObligationModel {
    pub responds_with: Option<Seq<char>>,
    pub timing: TimingClass,
    pub state_update: Seq<char>,
    pub status: ConformanceStatus,
    pub scenario: Seq<char>,
    pub evidence: Seq<char>,
}

/// What a coverage entry says.
#[verifier::ext_equal]
pub struct EntryModel {
    pub class: CoverageClass,
    pub obligation: ObligationModel,
}

/// What an optional text says.
pub open spec fn text_of(t: Option<&'static str>) -> Option<Seq<char>> {
    match t {
        Some(t) => Some(t@),
        None => None,
    }
}

impl View for Obligation {
    type V = ObligationModel;

    open spec fn view(&self) -> ObligationModel {
        ObligationModel {
            responds_with: text_of(self.responds_with),
            timing: self.timing,
            state_update: self.state_update@,
            status: self.status,
            scenario: self.scenario@,
            evidence: self.evidence@,
        }
    }
}

impl View for CoverageEntry {
    type V = EntryModel;

    open spec fn view(&self) -> EntryModel {
        EntryModel { class: self.class, obligation: self.obligation@ }
    }
}

/// Covered by a mock server.
pub const EVIDENCE_MOCK: &'static str =
    "mock-server + golden tests + Paper 1.21.4 b232; vanilla capture pending";

/// Covered by a mock server and real servers.
pub const EVIDENCE_VALIDATED: &'static str =
    "mock + Paper 1.21.4 b232 + vanilla 1.21.4 server; vanilla client capture pending";

/// Covered by unit tests.
pub const EVIDENCE_UNIT: &'static str =
    "unit-tested state projection; mock/vanilla capture pending";

/// Not covered.
pub const EVIDENCE_NONE: &'static str = "none";

/// Nothing is owed.
pub open spec fn no_response_model() -> ObligationModel {
    ObligationModel {
        responds_with: None,
        timing: TimingClass::NoResponse,
        state_update: "none"@,
        status: ConformanceStatus::NotApplicable,
        scenario: ""@,
        evidence: EVIDENCE_NONE@,
    }
}

/// The entry of packets without a detailed one: decoded, but no behavior is
/// implemented yet.
pub open spec fn default_model() -> EntryModel {
    ignored_model(
        ObligationModel { status: ConformanceStatus::NotImplemented, ..no_response_model() },
    )
}

/// An entry of a packet that is handled.
pub open spec fn handled_model(obligation: ObligationModel) -> EntryModel {
    EntryModel { class: CoverageClass::Handled, obligation }
}

/// An entry of a packet that is ignored.
pub open spec fn ignored_model(obligation: ObligationModel) -> EntryModel {
    EntryModel { class: CoverageClass::IntentionallyIgnored, obligation }
}

/// An entry of a packet that is not supported, whose answer would be strict.
pub open spec fn unsupported_model(responds_with: Option<Seq<char>>) -> EntryModel {
    EntryModel {
        class: CoverageClass::Unsupported,
        obligation: ObligationModel {
            responds_with,
            timing: TimingClass::Strict,
            status: ConformanceStatus::NotImplemented,
            ..no_response_model()
        },
    }
}

/// Implemented, on the evidence of a mock server.
pub open spec fn partial_model(
    responds_with: Option<Seq<char>>,
    timing: TimingClass,
    state_update: Seq<char>,
    scenario: Seq<char>,
) -> ObligationModel {
    ObligationModel {
        responds_with,
        timing,
        state_update,
        status: ConformanceStatus::Partial,
        scenario,
        evidence: EVIDENCE_MOCK@,
    }
}

/// Not implemented.
pub open spec fn not_implemented_model(
    responds_with: Option<Seq<char>>,
    timing: TimingClass,
    state_update: Seq<char>,
    scenario: Seq<char>,
) -> ObligationModel {
    ObligationModel {
        responds_with,
        timing,
        state_update,
        status: ConformanceStatus::NotImplemented,
        scenario,
        evidence: EVIDENCE_NONE@,
    }
}

/// A state-only packet: no wire response, covered by unit tests.
pub open spec fn state_only_model(state_update: Seq<char>) -> ObligationModel {
    ObligationModel {
        responds_with: None,
        timing: TimingClass::NoResponse,
        state_update,
        status: ConformanceStatus::Partial,
        scenario: ""@,
        evidence: EVIDENCE_UNIT@,
    }
}

fn no_response() -> (o: Obligation)
    ensures
        o@ == no_response_model(),
{
    Obligation {
        responds_with: None,
        timing: TimingClass::NoResponse,
        state_update: "none",
        status: ConformanceStatus::NotApplicable,
        scenario: "",
        evidence: EVIDENCE_NONE,
    }
}

fn default_entry() -> (e: CoverageEntry)
    ensures
        e@ == default_model(),
{
    ignored(Obligation { status: ConformanceStatus::NotImplemented, ..no_response() })
}

/// An entry of a packet that is handled.
pub fn handled(obligation: Obligation) -> (e: CoverageEntry)
    ensures
        e@ == handled_model(obligation@),
{
    CoverageEntry { class: CoverageClass::Handled, obligation }
}

/// An entry of a packet that is ignored.
pub fn ignored(obligation: Obligation) -> (e: CoverageEntry)
    ensures
        e@ == ignored_model(obligation@),
{
    CoverageEntry { class: CoverageClass::IntentionallyIgnored, obligation }
}

/// An entry of a packet that is not supported.
pub fn unsupported(responds_with: Option<&'static str>) -> (e: CoverageEntry)
    ensures
        e@ == unsupported_model(text_of(responds_with)),
{
    CoverageEntry {
        class: CoverageClass::Unsupported,
        obligation: Obligation {
            responds_with,
            timing: TimingClass::Strict,
            status: ConformanceStatus::NotImplemented,
            ..no_response()
        },
    }
}

/// Implemented, on the evidence of a mock server.
pub fn partial(
    responds_with: Option<&'static str>,
    timing: TimingClass,
    state_update: &'static str,
    scenario: &'static str,
) -> (o: Obligation)
    ensures
        o@ == partial_model(text_of(responds_with), timing, state_update@, scenario@),
{
    Obligation {
        responds_with,
        timing,
        state_update,
        status: ConformanceStatus::Partial,
        scenario,
        evidence: EVIDENCE_MOCK,
    }
}

/// Not implemented.
pub fn not_implemented(
    responds_with: Option<&'static str>,
    timing: TimingClass,
    state_update: &'static str,
    scenario: &'static str,
) -> (o: Obligation)
    ensures
        o@ == not_implemented_model(text_of(responds_with), timing, state_update@, scenario@),
{
    Obligation {
        responds_with,
        timing,
        state_update,
        status: ConformanceStatus::NotImplemented,
        scenario,
        evidence: EVIDENCE_NONE,
    }
}

/// A state-only packet: decoded and folded into the play state, no wire
/// response. Covered by unit tests; server-trace confirmation still pending.
pub fn state_only(state_update: &'static str) -> (o: Obligation)
    ensures
        o@ == state_only_model(state_update@),
{
    Obligation {
        responds_with: None,
        timing: TimingClass::NoResponse,
        state_update,
        status: ConformanceStatus::Partial,
        scenario: "",
        evidence: EVIDENCE_UNIT,
    }
}

/// Clientbound packets of the login state; the registry has others.
#[derive(Debug, Clone, Copy, PartialEq, Eq, Structural)]
pub enum LoginPacket {
    Disconnect,
    EncryptionBegin,
    Success,
    Compress,
    LoginPluginRequest,
    CookieRequest,
    Other,
}

/// What the client owes for a packet of the login state.
pub open spec fn login_entry(packet: LoginPacket) -> EntryModel {
    match packet {
        LoginPacket::Disconnect => handled_model(
            partial_model(None, TimingClass::NoResponse, "close connection"@, "offline_login"@),
        ),
        LoginPacket::EncryptionBegin => handled_model(
            partial_model(
                Some("encryption_begin"@),
                TimingClass::Strict,
                "enable AES-CFB8 encryption"@,
                "offline_login"@,
            ),
        ),
        LoginPacket::Success => handled_model(
            partial_model(
                Some("login_acknowledged"@),
                TimingClass::Strict,
                "transition to configuration"@,
                "offline_login"@,
            ),
        ),
        LoginPacket::Compress => handled_model(
            partial_model(None, TimingClass::Strict, "enable zlib compression"@, "offline_login"@),
        ),
        LoginPacket::LoginPluginRequest => handled_model(
            partial_model(
                Some("login_plugin_response"@),
                TimingClass::Strict,
                "none"@,
                "offline_login"@,
            ),
        ),
        LoginPacket::CookieRequest => unsupported_model(Some("cookie_response"@)),
        LoginPacket::Other => default_model(),
    }
}

/// What the client owes for a packet of the login state.
pub fn login_coverage(packet: LoginPacket) -> (e: CoverageEntry)
    ensures
        e@ == login_entry(packet),
{
    match packet {
        LoginPacket::Disconnect => handled(
            partial(None, TimingClass::NoResponse, "close connection", "offline_login"),
        ),
        LoginPacket::EncryptionBegin => handled(
            partial(
                Some("encryption_begin"),
                TimingClass::Strict,
                "enable AES-CFB8 encryption",
                "offline_login",
            ),
        ),
        LoginPacket::Success => handled(
            partial(
                Some("login_acknowledged"),
                TimingClass::Strict,
                "transition to configuration",
                "offline_login",
            ),
        ),
        LoginPacket::Compress => handled(
            partial(None, TimingClass::Strict, "enable zlib compression", "offline_login"),
        ),
        LoginPacket::LoginPluginRequest => handled(
            partial(Some("login_plugin_response"), TimingClass::Strict, "none", "offline_login"),
        ),
        LoginPacket::CookieRequest => unsupported(Some("cookie_response")),
        LoginPacket::Other => default_entry(),
    }
}

/// Clientbound packets of the configuration state; the registry has others.
#[derive(Debug, Clone, Copy, PartialEq, Eq, Structural)]
pub enum ConfigurationPacket {
    Disconnect,
    FinishConfiguration,
    KeepAlive,
    Ping,
    SelectKnownPacks,
    CustomPayload,
    ResetChat,
    RegistryData,
    AddResourcePack,
    RemoveResourcePack,
    StoreCookie,
    Transfer,
    FeatureFlags,
    Tags,
    CustomReportDetails,
    ServerLinks,
    CookieRequest,
    Other,
}

/// What the client owes for a packet of the configuration state.
pub open spec fn configuration_entry(packet: ConfigurationPacket) -> EntryModel {
    match packet {
        ConfigurationPacket::Disconnect => handled_model(
            partial_model(
                None,
                TimingClass::NoResponse,
                "close connection"@,
                "configuration_completion"@,
            ),
        ),
        ConfigurationPacket::FinishConfiguration => handled_model(
            partial_model(
                Some("finish_configuration"@),
                TimingClass::Strict,
                "transition to play"@,
                "configuration_completion"@,
            ),
        ),
        ConfigurationPacket::KeepAlive => handled_model(
            partial_model(Some("keep_alive"@), TimingClass::Strict, "none"@, "join_idle"@),
        ),
        ConfigurationPacket::Ping => handled_model(
            partial_model(Some("pong"@), TimingClass::Strict, "none"@, "join_idle"@),
        ),
        ConfigurationPacket::SelectKnownPacks => handled_model(
            partial_model(
                Some("select_known_packs"@),
                TimingClass::Strict,
                "none"@,
                "configuration_completion"@,
            ),
        ),
        ConfigurationPacket::CustomPayload => ignored_model(
            ObligationModel {
                state_update: "vanilla sends brand voluntarily; no response required"@,
                status: ConformanceStatus::NotImplemented,
                evidence: EVIDENCE_NONE@,
                ..no_response_model()
            },
        ),
        ConfigurationPacket::ResetChat => ignored_model(no_response_model()),
        ConfigurationPacket::RegistryData => handled_model(
            state_only_model("store dimension types for chunk decode and world physics"@),
        ),
        ConfigurationPacket::AddResourcePack => handled_model(
            ObligationModel {
                responds_with: Some("resource_pack_receive"@),
                timing: TimingClass::Strict,
                state_update: "none"@,
                status: ConformanceStatus::Partial,
                scenario: "resource_pack"@,
                evidence: EVIDENCE_MOCK@,
            },
        ),
        ConfigurationPacket::RemoveResourcePack => handled_model(
            state_only_model("no client-side pack state to remove"@),
        ),
        ConfigurationPacket::StoreCookie => ignored_model(
            ObligationModel { status: ConformanceStatus::NotImplemented, ..no_response_model() },
        ),
        ConfigurationPacket::Transfer => ignored_model(
            not_implemented_model(None, TimingClass::Strict, "reconnect to another server"@, ""@),
        ),
        ConfigurationPacket::FeatureFlags => ignored_model(
            not_implemented_model(None, TimingClass::NoResponse, "enable feature flags"@, ""@),
        ),
        ConfigurationPacket::Tags => EntryModel {
            class: CoverageClass::StoredForLater,
            obligation: not_implemented_model(None, TimingClass::NoResponse, "store tags"@, ""@),
        },
        ConfigurationPacket::CustomReportDetails
        | ConfigurationPacket::ServerLinks => ignored_model(
            not_implemented_model(
                None,
                TimingClass::NoResponse,
                "store for pause-menu reporting"@,
                ""@,
            ),
        ),
        ConfigurationPacket::CookieRequest => unsupported_model(Some("cookie_response"@)),
        ConfigurationPacket::Other => default_model(),
    }
}

/// What the client owes for a packet of the configuration state.
pub fn configuration_coverage(packet: ConfigurationPacket) -> (e: CoverageEntry)
    ensures
        e@ == configuration_entry(packet),
{
    match packet {
        ConfigurationPacket::Disconnect => handled(
            partial(None, TimingClass::NoResponse, "close connection", "configuration_completion"),
        ),
        ConfigurationPacket::FinishConfiguration => handled(
            partial(
                Some("finish_configuration"),
                TimingClass::Strict,
                "transition to play",
                "configuration_completion",
            ),
        ),
        ConfigurationPacket::KeepAlive => handled(
            partial(Some("keep_alive"), TimingClass::Strict, "none", "join_idle"),
        ),
        ConfigurationPacket::Ping => handled(
            partial(Some("pong"), TimingClass::Strict, "none", "join_idle"),
        ),
        ConfigurationPacket::SelectKnownPacks => handled(
            partial(
                Some("select_known_packs"),
                TimingClass::Strict,
                "none",
                "configuration_completion",
            ),
        ),
        ConfigurationPacket::CustomPayload => ignored(
            Obligation {
                state_update: "vanilla sends brand voluntarily; no response required",
                status: ConformanceStatus::NotImplemented,
                evidence: EVIDENCE_NONE,
                ..no_response()
            },
        ),
        ConfigurationPacket::ResetChat => ignored(no_response()),
        ConfigurationPacket::RegistryData => handled(
            state_only("store dimension types for chunk decode and world physics"),
        ),
        ConfigurationPacket::AddResourcePack => handled(
            Obligation {
                responds_with: Some("resource_pack_receive"),
                timing: TimingClass::Strict,
                state_update: "none",
                status: ConformanceStatus::Partial,
                scenario: "resource_pack",
                evidence: EVIDENCE_MOCK,
            },
        ),
        ConfigurationPacket::RemoveResourcePack => handled(
            state_only("no client-side pack state to remove"),
        ),
        ConfigurationPacket::StoreCookie => ignored(
            Obligation { status: ConformanceStatus::NotImplemented, ..no_response() },
        ),
        ConfigurationPacket::Transfer => ignored(
            not_implemented(None, TimingClass::Strict, "reconnect to another server", ""),
        ),
        ConfigurationPacket::FeatureFlags => ignored(
            not_implemented(None, TimingClass::NoResponse, "enable feature flags", ""),
        ),
        ConfigurationPacket::Tags => CoverageEntry {
            class: CoverageClass::StoredForLater,
            obligation: not_implemented(None, TimingClass::NoResponse, "store tags", ""),
        },
        ConfigurationPacket::CustomReportDetails | ConfigurationPacket::ServerLinks => ignored(
            not_implemented(None, TimingClass::NoResponse, "store for pause-menu reporting", ""),
        ),
        ConfigurationPacket::CookieRequest => unsupported(Some("cookie_response")),
        ConfigurationPacket::Other => default_entry(),
    }
}

/// Clientbound packets of the play state; the registry has others.
#[derive(Debug, Clone, Copy, PartialEq, Eq, Structural)]
pub enum PlayPacket {
    KeepAlive,
    KickDisconnect,
    Login,
    SpawnEntity,
    EntityDestroy,
    RelEntityMove,
    EntityMoveLook,
    EntityLook,
    EntityTeleport,
    SyncEntityPosition,
    EntityVelocity,
    EntityHeadRotation,
    Abilities,
    SetCooldown,
    EntityEffect,
    RemoveEntityEffect,
    EntityUpdateAttributes,
    Experience,
    Difficulty,
    SpawnPosition,
    InitializeWorldBorder,
    WorldBorderCenter,
    WorldBorderLerpSize,
    WorldBorderSize,
    WorldBorderWarningDelay,
    WorldBorderWarningReach,
    Position,
    ChunkBatchStart,
    ChunkBatchFinished,
    MapChunk,
    TileEntityData,
    UnloadChunk,
    BlockChange,
    MultiBlockChange,
    UpdateLight,
    Ping,
    DeathCombatEvent,
    UpdateHealth,
    Respawn,
    OpenWindow,
    CloseWindow,
    WindowItems,
    SetSlot,
    SetCursorItem,
    CraftProgressBar,
    HeldItemSlot,
    SetPlayerInventory,
    PlayerInfo,
    PlayerRemove,
    UpdateTime,
    GameStateChange,
    PlayerChat,
    SystemChat,
    ProfilelessChat,
    ActionBar,
    SetTitleText,
    SetTitleSubtitle,
    SetTitleTime,
    ClearTitles,
    PlayerlistHeader,
    BossBar,
    ResetScore,
    ScoreboardDisplayObjective,
    ScoreboardObjective,
    Teams,
    ScoreboardScore,
    StartConfiguration,
    CookieRequest,
    CustomPayload,
    AddResourcePack,
    RemoveResourcePack,
    Transfer,
    StoreCookie,
    Tags,
    Other,
}

/// What the client owes for a packet of the play state.
pub open spec fn play_entry(packet: PlayPacket) -> EntryModel {
    match packet {
        PlayPacket::KeepAlive => handled_model(
            ObligationModel {
                responds_with: Some("keep_alive"@),
                timing: TimingClass::Strict,
                state_update: "none"@,
                status: ConformanceStatus::Partial,
                scenario: "join_idle"@,
                evidence: EVIDENCE_VALIDATED@,
            },
        ),
        PlayPacket::KickDisconnect => handled_model(
            partial_model(
                None,
                TimingClass::NoResponse,
                "store structured reason, emit event, close connection"@,
                "join_idle"@,
            ),
        ),
        PlayPacket::Login => handled_model(
            partial_model(
                None,
                TimingClass::NoResponse,
                "store own entity id, dimension, world info"@,
                "join_idle"@,
            ),
        ),
        PlayPacket::SpawnEntity => handled_model(state_only_model("track new entity"@)),
        PlayPacket::EntityDestroy => handled_model(
            state_only_model("remove entities from tracker"@),
        ),
        PlayPacket::RelEntityMove
        | PlayPacket::EntityMoveLook
        | PlayPacket::EntityLook
        | PlayPacket::EntityTeleport
        | PlayPacket::SyncEntityPosition => handled_model(
            state_only_model("update entity position/rotation"@),
        ),
        PlayPacket::EntityVelocity => handled_model(state_only_model("update entity velocity"@)),
        PlayPacket::EntityHeadRotation => handled_model(
            state_only_model("update entity head yaw"@),
        ),
        PlayPacket::Abilities => handled_model(
            state_only_model(
                "store player ability flags and flying/walking speeds; emit HUD event"@,
            ),
        ),
        PlayPacket::SetCooldown => handled_model(
            state_only_model("apply bounded cooldown group lifecycle; emit HUD event"@),
        ),
        PlayPacket::EntityEffect | PlayPacket::RemoveEntityEffect => handled_model(
            state_only_model("apply bounded local-player status-effect lifecycle; emit HUD event"@),
        ),
        PlayPacket::EntityUpdateAttributes => handled_model(
            state_only_model("replace bounded local-player attributes/modifiers; emit HUD event"@),
        ),
        PlayPacket::Experience => handled_model(
            state_only_model("update experience bar/level/total"@),
        ),
        PlayPacket::Difficulty => handled_model(
            state_only_model("store difficulty and server lock state; emit HUD event"@),
        ),
        PlayPacket::SpawnPosition => handled_model(
            state_only_model("store global spawn block position and angle; emit HUD event"@),
        ),
        PlayPacket::InitializeWorldBorder
        | PlayPacket::WorldBorderCenter
        | PlayPacket::WorldBorderLerpSize
        | PlayPacket::WorldBorderSize
        | PlayPacket::WorldBorderWarningDelay
        | PlayPacket::WorldBorderWarningReach => handled_model(
            state_only_model(
                "apply bounded world-border lifecycle safely out of order; emit HUD event"@,
            ),
        ),
        PlayPacket::Position => handled_model(
            ObligationModel {
                responds_with: Some("teleport_confirm"@),
                timing: TimingClass::Strict,
                state_update: "update position/rotation (relative flags applied)"@,
                status: ConformanceStatus::Partial,
                scenario: "teleport_correction"@,
                evidence: EVIDENCE_VALIDATED@,
            },
        ),
        PlayPacket::ChunkBatchStart => handled_model(
            ObligationModel {
                responds_with: None,
                timing: TimingClass::NoResponse,
                state_update: "start timing the batch for adaptive chunks-per-tick pacing"@,
                status: ConformanceStatus::Partial,
                scenario: "initial_chunks"@,
                evidence: EVIDENCE_UNIT@,
            },
        ),
        PlayPacket::ChunkBatchFinished => handled_model(
            ObligationModel {
                responds_with: Some("chunk_batch_received"@),
                timing: TimingClass::Strict,
                state_update: "acknowledge batch with desired chunks-per-tick"@,
                status: ConformanceStatus::Partial,
                scenario: "initial_chunks"@,
                evidence: EVIDENCE_VALIDATED@,
            },
        ),
        PlayPacket::MapChunk => handled_model(
            ObligationModel {
                responds_with: None,
                timing: TimingClass::NoResponse,
                state_update: "decode and store all block-state/biome chunk sections"@,
                status: ConformanceStatus::Partial,
                scenario: "join_idle, initial_chunks"@,
                evidence: EVIDENCE_UNIT@,
            },
        ),
        PlayPacket::TileEntityData => handled_model(
            state_only_model("update block entity in cached chunk snapshot"@),
        ),
        PlayPacket::UnloadChunk => handled_model(state_only_model("drop chunk from world cache"@)),
        PlayPacket::BlockChange => handled_model(
            state_only_model("update one cached block state"@),
        ),
        PlayPacket::MultiBlockChange => handled_model(
            state_only_model("update cached block states in one section"@),
        ),
        PlayPacket::UpdateLight => handled_model(
            state_only_model("replace light data in cached chunk snapshot"@),
        ),
        PlayPacket::Ping => handled_model(
            ObligationModel {
                responds_with: Some("pong"@),
                timing: TimingClass::Strict,
                state_update: "none"@,
                status: ConformanceStatus::Partial,
                scenario: "join_idle"@,
                evidence: EVIDENCE_UNIT@,
            },
        ),
        PlayPacket::DeathCombatEvent => handled_model(
            state_only_model("store structured local-player death information; emit HUD event"@),
        ),
        PlayPacket::UpdateHealth => handled_model(
            state_only_model("update health/hunger/saturation"@),
        ),
        PlayPacket::Respawn => handled_model(
            state_only_model("reset dimension/world and readiness gate for a new life"@),
        ),
        PlayPacket::OpenWindow => handled_model(
            state_only_model(
                "replace open container, cancel stale transactions and emit inventory events"@,
            ),
        ),
        PlayPacket::CloseWindow => handled_model(
            state_only_model(
                "close matching container, cancel transactions and emit inventory events"@,
            ),
        ),
        PlayPacket::WindowItems => handled_model(
            state_only_model("apply bounded full slot/cursor correction and resolve transactions"@),
        ),
        PlayPacket::SetSlot => handled_model(
            state_only_model("apply bounded slot update and confirm newer-state transactions"@),
        ),
        PlayPacket::SetCursorItem => handled_model(
            state_only_model("update authoritative cursor item and emit event"@),
        ),
        PlayPacket::CraftProgressBar => handled_model(
            state_only_model("update bounded deterministic window property state and emit event"@),
        ),
        PlayPacket::HeldItemSlot => handled_model(
            state_only_model("validate and track the selected hotbar slot"@),
        ),
        PlayPacket::SetPlayerInventory => handled_model(
            state_only_model(
                "update bounded player inventory plus hotbar/held-item projections; emit events"@,
            ),
        ),
        PlayPacket::PlayerInfo => handled_model(
            state_only_model(
                "apply bounded deterministic player-list fields and emit join/HUD events"@,
            ),
        ),
        PlayPacket::PlayerRemove => handled_model(
            state_only_model("remove deterministic player-list entries and emit leave/HUD events"@),
        ),
        PlayPacket::UpdateTime => handled_model(
            state_only_model("store world age, day time and ticking flag; emit time/HUD events"@),
        ),
        PlayPacket::GameStateChange => handled_model(
            state_only_model("store game mode and rain/thunder state; emit weather/HUD events"@),
        ),
        PlayPacket::PlayerChat => handled_model(
            state_only_model(
                "store safe display text plus unverified raw signed-chat data; emit event"@,
            ),
        ),
        PlayPacket::SystemChat => handled_model(
            state_only_model(
                "store system chat or action bar according to packet flag; emit event"@,
            ),
        ),
        PlayPacket::ProfilelessChat => handled_model(
            state_only_model("store structured disguised chat metadata and emit event"@),
        ),
        PlayPacket::ActionBar => handled_model(
            state_only_model("replace structured action-bar state and emit event"@),
        ),
        PlayPacket::SetTitleText => handled_model(
            state_only_model("replace structured title and emit event"@),
        ),
        PlayPacket::SetTitleSubtitle => handled_model(
            state_only_model("replace structured subtitle and emit event"@),
        ),
        PlayPacket::SetTitleTime => handled_model(
            state_only_model("replace title timing values and emit event"@),
        ),
        PlayPacket::ClearTitles => handled_model(
            state_only_model("clear title/subtitle; reset default timings only when requested"@),
        ),
        PlayPacket::PlayerlistHeader => handled_model(
            state_only_model("replace structured tab-list header/footer and emit event"@),
        ),
        PlayPacket::BossBar => handled_model(
            state_only_model(
                "apply bounded add/update/remove state by stable uuid and emit event"@,
            ),
        ),
        PlayPacket::ResetScore => handled_model(
            state_only_model("remove one/all bounded scores for an owner and emit event"@),
        ),
        PlayPacket::ScoreboardDisplayObjective => handled_model(
            state_only_model(
                "attach/detach bounded display slot by stable objective name and emit event"@,
            ),
        ),
        PlayPacket::ScoreboardObjective => handled_model(
            state_only_model(
                "create/update/remove bounded objective; detach slots/scores on removal; emit event"@,
            ),
        ),
        PlayPacket::Teams => handled_model(
            state_only_model(
                "apply bounded team lifecycle/options/membership by stable name and emit event"@,
            ),
        ),
        PlayPacket::ScoreboardScore => handled_model(
            state_only_model(
                "create/update bounded score with display/number formatting and emit event"@,
            ),
        ),
        PlayPacket::StartConfiguration => ignored_model(
            not_implemented_model(
                Some("configuration_acknowledged"@),
                TimingClass::Strict,
                "re-enter configuration state"@,
                ""@,
            ),
        ),
        PlayPacket::CookieRequest => unsupported_model(Some("cookie_response"@)),
        PlayPacket::CustomPayload => ignored_model(
            ObligationModel {
                state_update: "vanilla answers known plugin channels; brand sent voluntarily"@,
                status: ConformanceStatus::NotImplemented,
                evidence: EVIDENCE_NONE@,
                ..no_response_model()
            },
        ),
        PlayPacket::AddResourcePack => handled_model(
            ObligationModel {
                responds_with: Some("resource_pack_receive"@),
                timing: TimingClass::Strict,
                state_update: "none"@,
                status: ConformanceStatus::Partial,
                scenario: "resource_pack"@,
                evidence: EVIDENCE_MOCK@,
            },
        ),
        PlayPacket::RemoveResourcePack => handled_model(
            state_only_model("no client-side pack state to remove"@),
        ),
        PlayPacket::Transfer => ignored_model(
            not_implemented_model(None, TimingClass::Strict, "reconnect to another server"@, ""@),
        ),
        PlayPacket::StoreCookie => ignored_model(
            ObligationModel { status: ConformanceStatus::NotImplemented, ..no_response_model() },
        ),
        PlayPacket::Tags => EntryModel {
            class: CoverageClass::StoredForLater,
            obligation: not_implemented_model(None, TimingClass::NoResponse, "store tags"@, ""@),
        },
        PlayPacket::Other => default_model(),
    }
}

/// What the client owes for a packet of the play state.
pub fn play_coverage(packet: PlayPacket) -> (e: CoverageEntry)
    ensures
        e@ == play_entry(packet),
{
    match packet {
        PlayPacket::KeepAlive => handled(
            Obligation {
                responds_with: Some("keep_alive"),
                timing: TimingClass::Strict,
                state_update: "none",
                status: ConformanceStatus::Partial,
                scenario: "join_idle",
                evidence: EVIDENCE_VALIDATED,
            },
        ),
        PlayPacket::KickDisconnect => handled(
            partial(
                None,
                TimingClass::NoResponse,
                "store structured reason, emit event, close connection",
                "join_idle",
            ),
        ),
        PlayPacket::Login => handled(
            partial(
                None,
                TimingClass::NoResponse,
                "store own entity id, dimension, world info",
                "join_idle",
            ),
        ),
        PlayPacket::SpawnEntity => handled(state_only("track new entity")),
        PlayPacket::EntityDestroy => handled(state_only("remove entities from tracker")),
        PlayPacket::RelEntityMove
        | PlayPacket::EntityMoveLook
        | PlayPacket::EntityLook
        | PlayPacket::EntityTeleport
        | PlayPacket::SyncEntityPosition => handled(
            state_only("update entity position/rotation"),
        ),
        PlayPacket::EntityVelocity => handled(state_only("update entity velocity")),
        PlayPacket::EntityHeadRotation => handled(state_only("update entity head yaw")),
        PlayPacket::Abilities => handled(
            state_only("store player ability flags and flying/walking speeds; emit HUD event"),
        ),
        PlayPacket::SetCooldown => handled(
            state_only("apply bounded cooldown group lifecycle; emit HUD event"),
        ),
        PlayPacket::EntityEffect | PlayPacket::RemoveEntityEffect => handled(
            state_only("apply bounded local-player status-effect lifecycle; emit HUD event"),
        ),
        PlayPacket::EntityUpdateAttributes => handled(
            state_only("replace bounded local-player attributes/modifiers; emit HUD event"),
        ),
        PlayPacket::Experience => handled(state_only("update experience bar/level/total")),
        PlayPacket::Difficulty => handled(
            state_only("store difficulty and server lock state; emit HUD event"),
        ),
        PlayPacket::SpawnPosition => handled(
            state_only("store global spawn block position and angle; emit HUD event"),
        ),
        PlayPacket::InitializeWorldBorder
        | PlayPacket::WorldBorderCenter
        | PlayPacket::WorldBorderLerpSize
        | PlayPacket::WorldBorderSize
        | PlayPacket::WorldBorderWarningDelay
        | PlayPacket::WorldBorderWarningReach => handled(
            state_only("apply bounded world-border lifecycle safely out of order; emit HUD event"),
        ),
        PlayPacket::Position => handled(
            Obligation {
                responds_with: Some("teleport_confirm"),
                timing: TimingClass::Strict,
                state_update: "update position/rotation (relative flags applied)",
                status: ConformanceStatus::Partial,
                scenario: "teleport_correction",
                evidence: EVIDENCE_VALIDATED,
            },
        ),
        PlayPacket::ChunkBatchStart => handled(
            Obligation {
                responds_with: None,
                timing: TimingClass::NoResponse,
                state_update: "start timing the batch for adaptive chunks-per-tick pacing",
                status: ConformanceStatus::Partial,
                scenario: "initial_chunks",
                evidence: EVIDENCE_UNIT,
            },
        ),
        PlayPacket::ChunkBatchFinished => handled(
            Obligation {
                responds_with: Some("chunk_batch_received"),
                timing: TimingClass::Strict,
                state_update: "acknowledge batch with desired chunks-per-tick",
                status: ConformanceStatus::Partial,
                scenario: "initial_chunks",
                evidence: EVIDENCE_VALIDATED,
            },
        ),
        PlayPacket::MapChunk => handled(
            Obligation {
                responds_with: None,
                timing: TimingClass::NoResponse,
                state_update: "decode and store all block-state/biome chunk sections",
                status: ConformanceStatus::Partial,
                scenario: "join_idle, initial_chunks",
                evidence: EVIDENCE_UNIT,
            },
        ),
        PlayPacket::TileEntityData => handled(
            state_only("update block entity in cached chunk snapshot"),
        ),
        PlayPacket::UnloadChunk => handled(state_only("drop chunk from world cache")),
        PlayPacket::BlockChange => handled(state_only("update one cached block state")),
        PlayPacket::MultiBlockChange => handled(
            state_only("update cached block states in one section"),
        ),
        PlayPacket::UpdateLight => handled(
            state_only("replace light data in cached chunk snapshot"),
        ),
        PlayPacket::Ping => handled(
            Obligation {
                responds_with: Some("pong"),
                timing: TimingClass::Strict,
                state_update: "none",
                status: ConformanceStatus::Partial,
                scenario: "join_idle",
                evidence: EVIDENCE_UNIT,
            },
        ),
        PlayPacket::DeathCombatEvent => handled(
            state_only("store structured local-player death information; emit HUD event"),
        ),
        PlayPacket::UpdateHealth => handled(state_only("update health/hunger/saturation")),
        PlayPacket::Respawn => handled(
            state_only("reset dimension/world and readiness gate for a new life"),
        ),
        PlayPacket::OpenWindow => handled(
            state_only(
                "replace open container, cancel stale transactions and emit inventory events",
            ),
        ),
        PlayPacket::CloseWindow => handled(
            state_only("close matching container, cancel transactions and emit inventory events"),
        ),
        PlayPacket::WindowItems => handled(
            state_only("apply bounded full slot/cursor correction and resolve transactions"),
        ),
        PlayPacket::SetSlot => handled(
            state_only("apply bounded slot update and confirm newer-state transactions"),
        ),
        PlayPacket::SetCursorItem => handled(
            state_only("update authoritative cursor item and emit event"),
        ),
        PlayPacket::CraftProgressBar => handled(
            state_only("update bounded deterministic window property state and emit event"),
        ),
        PlayPacket::HeldItemSlot => handled(
            state_only("validate and track the selected hotbar slot"),
        ),
        PlayPacket::SetPlayerInventory => handled(
            state_only(
                "update bounded player inventory plus hotbar/held-item projections; emit events",
            ),
        ),
        PlayPacket::PlayerInfo => handled(
            state_only("apply bounded deterministic player-list fields and emit join/HUD events"),
        ),
        PlayPacket::PlayerRemove => handled(
            state_only("remove deterministic player-list entries and emit leave/HUD events"),
        ),
        PlayPacket::UpdateTime => handled(
            state_only("store world age, day time and ticking flag; emit time/HUD events"),
        ),
        PlayPacket::GameStateChange => handled(
            state_only("store game mode and rain/thunder state; emit weather/HUD events"),
        ),
        PlayPacket::PlayerChat => handled(
            state_only("store safe display text plus unverified raw signed-chat data; emit event"),
        ),
        PlayPacket::SystemChat => handled(
            state_only("store system chat or action bar according to packet flag; emit event"),
        ),
        PlayPacket::ProfilelessChat => handled(
            state_only("store structured disguised chat metadata and emit event"),
        ),
        PlayPacket::ActionBar => handled(
            state_only("replace structured action-bar state and emit event"),
        ),
        PlayPacket::SetTitleText => handled(state_only("replace structured title and emit event")),
        PlayPacket::SetTitleSubtitle => handled(
            state_only("replace structured subtitle and emit event"),
        ),
        PlayPacket::SetTitleTime => handled(
            state_only("replace title timing values and emit event"),
        ),
        PlayPacket::ClearTitles => handled(
            state_only("clear title/subtitle; reset default timings only when requested"),
        ),
        PlayPacket::PlayerlistHeader => handled(
            state_only("replace structured tab-list header/footer and emit event"),
        ),
        PlayPacket::BossBar => handled(
            state_only("apply bounded add/update/remove state by stable uuid and emit event"),
        ),
        PlayPacket::ResetScore => handled(
            state_only("remove one/all bounded scores for an owner and emit event"),
        ),
        PlayPacket::ScoreboardDisplayObjective => handled(
            state_only(
                "attach/detach bounded display slot by stable objective name and emit event",
            ),
        ),
        PlayPacket::ScoreboardObjective => handled(
            state_only(
                "create/update/remove bounded objective; detach slots/scores on removal; emit event",
            ),
        ),
        PlayPacket::Teams => handled(
            state_only(
                "apply bounded team lifecycle/options/membership by stable name and emit event",
            ),
        ),
        PlayPacket::ScoreboardScore => handled(
            state_only("create/update bounded score with display/number formatting and emit event"),
        ),
        PlayPacket::StartConfiguration => ignored(
            not_implemented(
                Some("configuration_acknowledged"),
                TimingClass::Strict,
                "re-enter configuration state",
                "",
            ),
        ),
        PlayPacket::CookieRequest => unsupported(Some("cookie_response")),
        PlayPacket::CustomPayload => ignored(
            Obligation {
                state_update: "vanilla answers known plugin channels; brand sent voluntarily",
                status: ConformanceStatus::NotImplemented,
                evidence: EVIDENCE_NONE,
                ..no_response()
            },
        ),
        PlayPacket::AddResourcePack => handled(
            Obligation {
                responds_with: Some("resource_pack_receive"),
                timing: TimingClass::Strict,
                state_update: "none",
                status: ConformanceStatus::Partial,
                scenario: "resource_pack",
                evidence: EVIDENCE_MOCK,
            },
        ),
        PlayPacket::RemoveResourcePack => handled(
            state_only("no client-side pack state to remove"),
        ),
        PlayPacket::Transfer => ignored(
            not_implemented(None, TimingClass::Strict, "reconnect to another server", ""),
        ),
        PlayPacket::StoreCookie => ignored(
            Obligation { status: ConformanceStatus::NotImplemented, ..no_response() },
        ),
        PlayPacket::Tags => CoverageEntry {
            class: CoverageClass::StoredForLater,
            obligation: not_implemented(None, TimingClass::NoResponse, "store tags", ""),
        },
        PlayPacket::Other => default_entry(),
    }
}

/// A clientbound packet and the state it belongs to. The handshake and status
/// states owe nothing in particular.
#[derive(Debug, Clone, Copy, PartialEq, Eq, Structural)]
pub enum Clientbound {
    Login(LoginPacket),
    Configuration(ConfigurationPacket),
    Play(PlayPacket),
    Elsewhere,
}

/// What the client owes for a clientbound packet.
pub open spec fn coverage_of(packet: Clientbound) -> EntryModel {
    match packet {
        Clientbound::Login(p) => login_entry(p),
        Clientbound::Configuration(p) => configuration_entry(p),
        Clientbound::Play(p) => play_entry(p),
        Clientbound::Elsewhere => default_model(),
    }
}

/// Looks up the coverage entry for a clientbound packet. Every packet has one;
/// those without a detailed one have the default entry.
pub fn clientbound_coverage(packet: Clientbound) -> (e: CoverageEntry)
    ensures
        e@ == coverage_of(packet),
{
    match packet {
        Clientbound::Login(p) => login_coverage(p),
        Clientbound::Configuration(p) => configuration_coverage(p),
        Clientbound::Play(p) => play_coverage(p),
        Clientbound::Elsewhere => default_entry(),
    }
}

/// No packet is claimed to pass, and none that is handled lacks evidence.
pub proof fn law_statuses_are_honest(packet: Clientbound)
    ensures
        coverage_of(packet).obligation.status != ConformanceStatus::Pass,
        coverage_of(packet).class == CoverageClass::Handled ==> coverage_of(packet).obligation.status
            == ConformanceStatus::Partial,
        coverage_of(packet).class == CoverageClass::Unsupported ==> coverage_of(
            packet,
        ).obligation.status == ConformanceStatus::NotImplemented,
{
}

/// What a class is called.
pub open spec fn class_text(class: CoverageClass) -> Seq<char> {
    match class {
        CoverageClass::Handled => "handled"@,
        CoverageClass::IntentionallyIgnored => "ignored"@,
        CoverageClass::StoredForLater => "stored"@,
        CoverageClass::Unsupported => "UNSUPPORTED"@,
    }
}

/// What a timing is called.
pub open spec fn timing_text(timing: TimingClass) -> Seq<char> {
    match timing {
        TimingClass::Strict => "strict"@,
        TimingClass::TickBound => "tick-bound"@,
        TimingClass::Periodic => "periodic"@,
        TimingClass::BestEffort => "best-effort"@,
        TimingClass::NoResponse => "—"@,
    }
}

/// What a status is called.
pub open spec fn status_text(status: ConformanceStatus) -> Seq<char> {
    match status {
        ConformanceStatus::Pass => "PASS"@,
        ConformanceStatus::Partial => "PARTIAL"@,
        ConformanceStatus::Fail => "FAIL"@,
        ConformanceStatus::NotImplemented => "NOT IMPLEMENTED"@,
        ConformanceStatus::NotApplicable => "NOT APPLICABLE"@,
    }
}

/// What a class is called.
pub fn class_name(class: CoverageClass) -> (s: &'static str)
    ensures
        s@ == class_text(class),
{
    match class {
        CoverageClass::Handled => "handled",
        CoverageClass::IntentionallyIgnored => "ignored",
        CoverageClass::StoredForLater => "stored",
        CoverageClass::Unsupported => "UNSUPPORTED",
    }
}

/// What a timing is called.
pub fn timing_name(timing: TimingClass) -> (s: &'static str)
    ensures
        s@ == timing_text(timing),
{
    match timing {
        TimingClass::Strict => "strict",
        TimingClass::TickBound => "tick-bound",
        TimingClass::Periodic => "periodic",
        TimingClass::BestEffort => "best-effort",
        TimingClass::NoResponse => "—",
    }
}

/// What a status is called.
pub fn status_name(status: ConformanceStatus) -> (s: &'static str)
    ensures
        s@ == status_text(status),
{
    match status {
        ConformanceStatus::Pass => "PASS",
        ConformanceStatus::Partial => "PARTIAL",
        ConformanceStatus::Fail => "FAIL",
        ConformanceStatus::NotImplemented => "NOT IMPLEMENTED",
        ConformanceStatus::NotApplicable => "NOT APPLICABLE",
    }
}

/// Header line of the generated conformance document.
pub const MATRIX_HEADER: &'static str =
    "<!-- @generated by `cargo run --bin conformance_matrix`; DO NOT EDIT MANUALLY -->";

/// A packet as the registry lists it: its id, its name where it has one, and
/// what it is.
pub struct RegistryRow {
    pub id: i32,
    pub name: Option<String>,
    pub packet: Clientbound,
}

/// A line of the document.
pub open spec fn row_text(row: RegistryRow) -> Seq<char> {
    let e = coverage_of(row.packet);
    let o = e.obligation;
    "| "@ + decimal(row.id as int) + " | "@ + match row.name {
        Some(name) => name@,
        None => "UNKNOWN"@,
    } + " | "@ + class_text(e.class) + " | "@ + match o.responds_with {
        Some(t) => t,
        None => "—"@,
    } + " | "@ + timing_text(o.timing) + " | "@ + o.state_update + " | "@ + status_text(o.status)
        + " | "@ + o.scenario + " | "@ + o.evidence + " |\n"@
}

/// Lines one after the other.
pub open spec fn rows_text(rows: Seq<RegistryRow>) -> Seq<char>
    decreases rows.len(),
{
    if rows.len() == 0 {
        Seq::empty()
    } else {
        rows_text(rows.drop_last()) + row_text(rows.last())
    }
}

/// The names of a table's columns.
pub const TABLE_COLUMNS: &'static str =
    "| id | packet | class | responds with | timing | state update | status | scenario | evidence |\n";

/// The line below a table's columns.
pub const TABLE_RULE: &'static str = "|---:|---|---|---|---|---|---|---|---|\n";

/// A titled table.
pub open spec fn table_text(title: Seq<char>, rows: Seq<RegistryRow>) -> Seq<char> {
    "## "@ + title + "\n\n"@ + TABLE_COLUMNS@ + TABLE_RULE@ + rows_text(rows) + "\n"@
}

fn append_row(out: &mut String, row: &RegistryRow)
    ensures
        final(out)@ == old(out)@ + row_text(*row),
{
    let entry = clientbound_coverage(row.packet);
    let mut line: String = "| ".to_owned();
    append_int(&mut line, row.id as i128);
    line.append(" | ");
    match &row.name {
        Some(name) => line.append(name.as_str()),
        None => line.append("UNKNOWN"),
    }
    line.append(" | ");
    line.append(class_name(entry.class));
    line.append(" | ");
    match entry.obligation.responds_with {
        Some(text) => line.append(text),
        None => line.append("—"),
    }
    line.append(" | ");
    line.append(timing_name(entry.obligation.timing));
    line.append(" | ");
    line.append(entry.obligation.state_update);
    line.append(" | ");
    line.append(status_name(entry.obligation.status));
    line.append(" | ");
    line.append(entry.obligation.scenario);
    line.append(" | ");
    line.append(entry.obligation.evidence);
    line.append(" |\n");
    out.append(line.as_str());
}

/// Appends the table of a state.
pub fn state_table(out: &mut String, title: &str, rows: &Vec<RegistryRow>)
    ensures
        final(out)@ == old(out)@ + table_text(title@, rows@),
{
    out.append("## ");
    out.append(title);
    out.append("\n\n");
    out.append(TABLE_COLUMNS);
    out.append(TABLE_RULE);
    let ghost head = out@;
    let mut i: usize = 0;
    assert(rows@.take(0) =~= Seq::empty());
    assert(out@ =~= head + rows_text(rows@.take(0)));
    while i < rows.len()
        invariant
            i <= rows@.len(),
            out@ == head + rows_text(rows@.take(i as int)),
        decreases rows@.len() - i,
    {
        append_row(out, &rows[i]);
        i += 1;
        assert(rows@.take(i as int).drop_last() =~= rows@.take(i - 1));
        assert(out@ =~= head + rows_text(rows@.take(i as int)));
    }
    assert(rows@.take(i as int) =~= rows@);
    out.append("\n");
    assert(out@ =~= old(out)@ + table_text(title@, rows@));
}

/// The title of the document.
pub const MATRIX_TITLE: &'static str =
    "\n\n# Vanilla conformance matrix — Minecraft 1.21.4 (protocol 769)\n\n";

/// What stands below the title.
pub const MATRIX_PREAMBLE: &'static str =
    "Client obligation matrix for every clientbound packet in `login`, `configuration`\nand `play`. Generated from `src/minecraft/coverage.rs` against the generated\nminecraft-data registries, so packet coverage cannot silently drift.\n\nStatuses: `PASS` requires a real vanilla 1.21.4 capture plus a passing semantic\ndiff. Mock-server and golden tests only justify `PARTIAL`. No packet may be\nabsent from this table: the drift test fails if the generated registries gain\nor lose an id.\n\n";

/// Renders the conformance document from the coverage table and the
/// registries of the three states.
pub fn render_matrix(
    login: &Vec<RegistryRow>,
    configuration: &Vec<RegistryRow>,
    play: &Vec<RegistryRow>,
) -> (out: String)
    ensures
        out@ == MATRIX_HEADER@ + MATRIX_TITLE@ + MATRIX_PREAMBLE@ + table_text("Login"@, login@)
            + table_text("Configuration"@, configuration@) + table_text("Play"@, play@),
{
    let mut out: String = MATRIX_HEADER.to_owned();
    out.append(MATRIX_TITLE);
    out.append(MATRIX_PREAMBLE);
    state_table(&mut out, "Login", login);
    state_table(&mut out, "Configuration", configuration);
    state_table(&mut out, "Play", play);
    out
}

} // verus!
