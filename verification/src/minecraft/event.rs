//! Bot events: a stream of things that happen to the bot.
//!
//! Delivery is best-effort: the channel is bounded, so slow observers can never
//! back-pressure the network.
use crate::minecraft::hud::HudEvent;
use crate::minecraft::inventory::InventoryEvent;
use crate::minecraft::presentation::PresentationEvent;
use crate::minecraft::scoreboard::ScoreboardEvent;
use vstd::prelude::*;

verus! {

/// The buffer depth of the event broadcast channel. Deep enough that a
/// consumer polling at a human or per-tick cadence never lags on a normal
/// packet burst, small enough to bound memory.
pub const EVENT_CHANNEL_CAPACITY: usize = 256;

/// Something the bot observed.
pub enum BotEvent {
    /// Entered the play state; the server assigned this entity id.
    Login { entity_id: i32 },
    /// Finished the initial world-load handshake (`player_loaded` sent). The
    /// bot is now "in the world" and moving.
    Spawned,
    /// Health/food/saturation changed; the two fractions are single-precision
    /// bits.
    Health { health: u32, food: i32, saturation: u32 },
    /// The bot died (health reached zero). Auto-respawn is already in flight.
    Death,
    /// A player chat message. `sender` is the rendered display name.
    Chat { sender: String, message: String },
    /// A system chat message (join/leave notices, `/say`, plugin output).
    SystemChat { message: String },
    /// A player appeared in the tab list (joined, or was first seen).
    PlayerJoined { uuid: u128, name: String },
    /// A player left the tab list.
    PlayerLeft { uuid: u128 },
    /// The world time advanced/changed (`time_of_day` in ticks, 0..24000).
    Time { time_of_day: i64 },
    /// Rain started or stopped.
    Weather { raining: bool },
    /// The server kicked the bot; the play loop ends after this.
    Kicked { reason: String },
    /// An entity came into view.
    EntitySpawned { entity_id: i32, uuid: u128, kind: i32 },
    /// An entity went out of view.
    EntityRemoved { entity_id: i32 },
    /// Chat, titles, tab list or boss bars changed.
    Presentation(PresentationEvent),
    /// The scoreboard changed.
    Scoreboard(ScoreboardEvent),
    /// The HUD changed.
    Hud(HudEvent),
    /// A window, the cursor or a transaction changed.
    Inventory(InventoryEvent),
    /// A connect attempt is starting.
    Connecting,
    /// The connection has reached the play state.
    Connected,
    /// The active session ended, for any reason.
    Disconnected { reason: String },
    /// A reconnect attempt was scheduled after this delay, following the
    /// given (1-based) attempt count.
    ReconnectScheduled { attempt: u32, delay_millis: u64 },
    /// A new connect attempt is beginning after backoff.
    RetryAttemptStarted { attempt: u32 },
    /// The configured retry limit was reached without a successful reconnect.
    RetriesExhausted,
    /// Stopped on request.
    StoppedByCancellation,
}

} // verus!
