//! Tab-list player tracking: the online players the server reports.
//!
//! Player-info entries are additive per action flag (a packet may set only
//! latency, or only game mode, for an already-known player), so fields are
//! applied individually and a previously-unseen uuid is inserted with just the
//! fields present.
use crate::minecraft::hud::flag;
use crate::minecraft::nbt::Nbt;
use crate::minecraft::text::{fresh_budget, TextComponent, TextModel};
use crate::minecraft::text_nbt::nbt_component;
use crate::sharing::Replica;
use crate::sorted_map::{lemma_entry, MapKey, SortedMap};
use std::sync::Arc;
use vstd::prelude::*;

verus! {

/// A defensive ceiling for tab-list state. Real servers stay far below this;
/// the bound prevents a hostile stream of unique UUIDs from growing forever.
pub const MAX_PLAYERS: usize = 4_096;

/// One entry in the tab list.
#[derive(Debug)]
pub struct PlayerEntry {
    pub uuid: u128,
    /// Account name; empty until seen.
    pub name: String,
    /// Game mode (0 survival, 1 creative, 2 adventure, 3 spectator), or -1
    /// if the server has not reported it.
    pub gamemode: i32,
    /// Ping in milliseconds, or -1 if unknown.
    pub latency: i32,
    /// Whether the player is shown in the tab list.
    pub listed: bool,
    /// Server-provided tab-list display name, distinct from the account name.
    pub display_name: Option<Arc<TextComponent>>,
    /// Sorting priority within the tab list.
    pub list_priority: i32,
    /// Whether the player's hat skin layer is shown in the tab list.
    pub show_hat: bool,
    /// Bounded metadata for the currently initialized signed-chat session.
    pub chat_session: Option<PlayerChatSession>,
}

/// What is kept of a signed-chat session.
#[derive(Debug, Clone, Copy, PartialEq, Eq)]
pub struct PlayerChatSession {
    pub session_id: u128,
    pub expires_at_millis: i64,
    pub public_key_bytes: usize,
    pub signature_bytes: usize,
}

/// What an entry says.
#[verifier::ext_equal]
pub struct EntryModel {
    pub uuid: u128,
    pub name: Seq<char>,
    pub gamemode: i32,
    pub latency: i32,
    pub listed: bool,
    pub display_name: Option<TextModel>,
    pub list_priority: i32,
    pub show_hat: bool,
    pub chat_session: Option<PlayerChatSession>,
}

impl View for PlayerEntry {
    type V = EntryModel;

    open spec fn view(&self) -> EntryModel {
        EntryModel {
            uuid: self.uuid,
            name: self.name@,
            gamemode: self.gamemode,
            latency: self.latency,
            listed: self.listed,
            display_name: match self.display_name {
                Some(text) => Some(text@),
                None => None,
            },
            list_priority: self.list_priority,
            show_hat: self.show_hat,
            chat_session: self.chat_session,
        }
    }
}

/// An entry of which nothing but the uuid is known.
pub open spec fn unknown_entry(uuid: u128) -> EntryModel {
    EntryModel {
        uuid,
        name: Seq::empty(),
        gamemode: -1i32,
        latency: -1i32,
        listed: false,
        display_name: None,
        list_priority: 0,
        show_hat: false,
        chat_session: None,
    }
}

/// Which fields a packet sets: one bit each.
#[derive(Debug, Clone, Copy)]
pub struct PacketPlayerInfoAction(pub u8);

/// Sets the name.
pub const ADD_PLAYER: u8 = 0x01;

/// Sets the chat session.
pub const INITIALIZE_CHAT: u8 = 0x02;

/// Sets the game mode.
pub const UPDATE_GAME_MODE: u8 = 0x04;

/// Sets whether the player is listed.
pub const UPDATE_LISTED: u8 = 0x08;

/// Sets the latency.
pub const UPDATE_LATENCY: u8 = 0x10;

/// Sets the display name.
pub const UPDATE_DISPLAY_NAME: u8 = 0x20;

/// Sets the priority.
pub const UPDATE_LIST_ORDER: u8 = 0x40;

/// Sets whether the hat is shown.
pub const UPDATE_HAT: u8 = 0x80;

/// A signed-chat session as the server sends it.
pub struct ChatSessionValue {
    pub uuid: u128,
    pub expire_time: i64,
    pub key_bytes: Vec<u8>,
    pub key_signature: Vec<u8>,
}

/// The fields that a packet holds for one player.
pub struct PacketPlayerInfoDataItem {
    pub uuid: u128,
    pub player: Option<String>,
    pub chat_session: Option<Option<ChatSessionValue>>,
    pub gamemode: Option<i32>,
    pub listed: Option<i32>,
    pub latency: Option<i32>,
    pub display_name: Option<Option<Nbt>>,
    pub list_priority: Option<i32>,
    pub show_hat: Option<bool>,
}

/// Fields of players change.
pub struct PacketPlayerInfo {
    pub action: PacketPlayerInfoAction,
    pub data: Vec<PacketPlayerInfoDataItem>,
}

/// Players leave.
pub struct PacketPlayerRemove {
    pub players: Vec<u128>,
}

/// What is kept of a session that the server sends.
pub open spec fn session_of(s: ChatSessionValue) -> PlayerChatSession {
    PlayerChatSession {
        session_id: s.uuid,
        expires_at_millis: s.expire_time,
        public_key_bytes: s.key_bytes@.len() as usize,
        signature_bytes: s.key_signature@.len() as usize,
    }
}

/// What an entry says once the flagged fields that the item holds are set.
pub open spec fn updated_entry(
    e: EntryModel,
    action: PacketPlayerInfoAction,
    item: PacketPlayerInfoDataItem,
) -> EntryModel {
    EntryModel {
        uuid: e.uuid,
        name: match item.player {
            Some(name) if flag(action.0, 0) => name@,
            _ => e.name,
        },
        chat_session: match item.chat_session {
            Some(session) if flag(action.0, 1) => match session {
                Some(s) => Some(session_of(s)),
                None => None,
            },
            _ => e.chat_session,
        },
        gamemode: match item.gamemode {
            Some(mode) if flag(action.0, 2) => mode,
            _ => e.gamemode,
        },
        listed: match item.listed {
            Some(listed) if flag(action.0, 3) => listed != 0,
            _ => e.listed,
        },
        latency: match item.latency {
            Some(ms) if flag(action.0, 4) => ms,
            _ => e.latency,
        },
        display_name: match item.display_name {
            Some(name) if flag(action.0, 5) => match name {
                Some(tag) => Some(nbt_component(tag, fresh_budget(), 0).0),
                None => None,
            },
            _ => e.display_name,
        },
        list_priority: match item.list_priority {
            Some(priority) if flag(action.0, 6) => priority,
            _ => e.list_priority,
        },
        show_hat: match item.show_hat {
            Some(show) if flag(action.0, 7) => show,
            _ => e.show_hat,
        },
    }
}

/// The players and what a packet did to them.
#[verifier::ext_equal]
pub struct InfoResult {
    pub players: Map<int, EntryModel>,
    pub joined: Seq<(u128, Seq<char>)>,
    pub updated: Seq<u128>,
    pub rejected: nat,
}

impl InfoResult {
    /// One item applied: a new player is refused where the list is full, and
    /// counts as joined once it has a name.
    pub open spec fn after(
        self,
        action: PacketPlayerInfoAction,
        item: PacketPlayerInfoDataItem,
    ) -> InfoResult {
        let key = item.uuid as int;
        let known = self.players.contains_key(key);
        if !known && self.players.len() >= MAX_PLAYERS {
            InfoResult { rejected: self.rejected + 1, ..self }
        } else {
            let before = if known {
                self.players[key]
            } else {
                unknown_entry(item.uuid)
            };
            let entry = updated_entry(before, action, item);
            InfoResult {
                players: self.players.insert(key, entry),
                joined: if !known && entry.name.len() > 0 {
                    self.joined.push((entry.uuid, entry.name))
                } else {
                    self.joined
                },
                updated: self.updated.push(item.uuid),
                rejected: self.rejected,
            }
        }
    }

    /// Items applied one after the other.
    pub open spec fn after_all(
        self,
        action: PacketPlayerInfoAction,
        items: Seq<PacketPlayerInfoDataItem>,
    ) -> InfoResult
        decreases items.len(),
    {
        if items.len() == 0 {
            self
        } else {
            self.after_all(action, items.drop_last()).after(action, items.last())
        }
    }
}

/// Players as they are before a packet.
pub open spec fn unchanged(players: Map<int, EntryModel>) -> InfoResult {
    InfoResult { players, joined: Seq::empty(), updated: Seq::empty(), rejected: 0 }
}

/// The players left once some are removed, and who of those was there.
pub open spec fn removed_all(players: Map<int, EntryModel>, uuids: Seq<u128>) -> (
    Map<int, EntryModel>,
    Seq<u128>,
)
    decreases uuids.len(),
{
    if uuids.len() == 0 {
        (players, Seq::empty())
    } else {
        let (left, gone) = removed_all(players, uuids.drop_last());
        let uuid = uuids.last();
        if left.contains_key(uuid as int) {
            (left.remove(uuid as int), gone.push(uuid))
        } else {
            (left, gone)
        }
    }
}

/// Whether entries are those of these players, by ascending uuid.
pub open spec fn lists(
    players: Map<int, EntryModel>,
    uuids: Seq<int>,
    all: Seq<&PlayerEntry>,
) -> bool {
    &&& uuids.len() == all.len()
    &&& forall|i: int, j: int|
        0 <= i < j < uuids.len() ==> #[trigger] uuids[i] < #[trigger] uuids[j]
    &&& forall|i: int|
        0 <= i < uuids.len() ==> players.contains_key(#[trigger] uuids[i]) && players[uuids[i]]
            == all[i]@
}

/// The set of players currently known from the tab list, keyed by uuid.
pub struct PlayerList {
    players: SortedMap<u128, PlayerEntry>,
}

/// What the entries say.
pub open spec fn entry_models(players: Map<int, PlayerEntry>) -> Map<int, EntryModel> {
    Map::new(|k: int| players.contains_key(k), |k: int| players[k]@)
}

impl View for PlayerList {
    type V = Map<int, EntryModel>;

    closed spec fn view(&self) -> Map<int, EntryModel> {
        entry_models(self.players@)
    }
}

/// The outcome of applying a `player_info` packet, so the caller can emit
/// join events only for players that were genuinely new.
#[derive(Debug)]
pub struct PlayerInfoChanges {
    /// `(uuid, name)` for players inserted by this packet (first seen).
    pub joined: Vec<(u128, String)>,
    /// Every UUID whose accepted entry was touched, in packet order.
    pub updated: Vec<u128>,
    /// Entries refused because the defensive player bound was full.
    pub rejected: usize,
}

/// Who joined, by name.
pub open spec fn joined_view(joined: Seq<(u128, String)>) -> Seq<(u128, Seq<char>)> {
    Seq::new(joined.len(), |i: int| (joined[i].0, joined[i].1@))
}

/// Testing a mask of one bit.
pub proof fn lemma_masks(raw: u8)
    ensures
        (raw & 0x01 != 0) == flag(raw, 0),
        (raw & 0x02 != 0) == flag(raw, 1),
        (raw & 0x04 != 0) == flag(raw, 2),
        (raw & 0x08 != 0) == flag(raw, 3),
        (raw & 0x10 != 0) == flag(raw, 4),
        (raw & 0x20 != 0) == flag(raw, 5),
        (raw & 0x40 != 0) == flag(raw, 6),
        (raw & 0x80 != 0) == flag(raw, 7),
{
    assert((raw & 0x01 != 0) == ((raw >> 0u8) & 1 == 1) && (raw & 0x02 != 0) == ((raw >> 1u8) & 1
        == 1) && (raw & 0x04 != 0) == ((raw >> 2u8) & 1 == 1) && (raw & 0x08 != 0) == ((raw >> 3u8)
        & 1 == 1) && (raw & 0x10 != 0) == ((raw >> 4u8) & 1 == 1) && (raw & 0x20 != 0) == ((raw
        >> 5u8) & 1 == 1) && (raw & 0x40 != 0) == ((raw >> 6u8) & 1 == 1) && (raw & 0x80 != 0) == ((
    raw >> 7u8) & 1 == 1)) by (bit_vector);
}

fn apply_item(
    entry: PlayerEntry,
    action: PacketPlayerInfoAction,
    item: &PacketPlayerInfoDataItem,
) -> (out: PlayerEntry)
    ensures
        out@ == updated_entry(entry@, action, *item),
{
    let flags: u8 = action.0;
    proof {
        lemma_masks(flags);
    }
    let name = match &item.player {
        Some(name) => if flags & ADD_PLAYER != 0 {
            name.clone()
        } else {
            entry.name
        },
        None => entry.name,
    };
    let display_name = match &item.display_name {
        Some(name) => if flags & UPDATE_DISPLAY_NAME != 0 {
            match name {
                Some(tag) => Some(Arc::new(TextComponent::from_nbt(tag))),
                None => None,
            }
        } else {
            entry.display_name
        },
        None => entry.display_name,
    };
    let chat_session = match &item.chat_session {
        Some(session) => if flags & INITIALIZE_CHAT != 0 {
            match session {
                Some(s) => Some(
                    PlayerChatSession {
                        session_id: s.uuid,
                        expires_at_millis: s.expire_time,
                        public_key_bytes: s.key_bytes.len(),
                        signature_bytes: s.key_signature.len(),
                    },
                ),
                None => None,
            }
        } else {
            entry.chat_session
        },
        None => entry.chat_session,
    };
    let listed = match item.listed {
        Some(listed) => if flags & UPDATE_LISTED != 0 {
            listed != 0
        } else {
            entry.listed
        },
        None => entry.listed,
    };
    PlayerEntry {
        uuid: entry.uuid,
        name,
        gamemode: pick(flags & UPDATE_GAME_MODE != 0, item.gamemode, entry.gamemode),
        latency: pick(flags & UPDATE_LATENCY != 0, item.latency, entry.latency),
        listed,
        display_name,
        list_priority: pick(flags & UPDATE_LIST_ORDER != 0, item.list_priority, entry.list_priority),
        show_hat: pick(flags & UPDATE_HAT != 0, item.show_hat, entry.show_hat),
        chat_session,
    }
}

fn pick<T: Copy>(flagged: bool, field: Option<T>, current: T) -> (value: T)
    ensures
        value == (match field {
            Some(v) if flagged => v,
            _ => current,
        }),
{
    match field {
        Some(v) => if flagged {
            v
        } else {
            current
        },
        None => current,
    }
}

fn new_entry(uuid: u128) -> (e: PlayerEntry)
    ensures
        e@ == unknown_entry(uuid),
{
    PlayerEntry {
        uuid,
        name: String::new(),
        gamemode: -1,
        latency: -1,
        listed: false,
        display_name: None,
        list_priority: 0,
        show_hat: false,
        chat_session: None,
    }
}

impl PlayerList {
    /// An empty list.
    pub fn new() -> (l: Self)
        ensures
            l@ == Map::<int, EntryModel>::empty(),
    {
        let l = PlayerList { players: SortedMap::new() };
        assert(l@ =~= Map::empty());
        l
    }

    /// Number of tracked players.
    pub fn len(&self) -> (n: usize)
        ensures
            n == self@.len(),
            self@.dom().finite(),
    {
        assert(self@.dom() =~= self.players@.dom());
        self.players.len()
    }

    /// Whether the list is empty.
    pub fn is_empty(&self) -> (b: bool)
        ensures
            b == (self@.len() == 0),
    {
        assert(self@.dom() =~= self.players@.dom());
        self.players.is_empty()
    }

    /// Looks up a player by uuid.
    pub fn get(&self, uuid: u128) -> (e: Option<&PlayerEntry>)
        ensures
            e is Some <==> self@.contains_key(uuid as int),
            e matches Some(e) ==> e@ == self@[uuid as int],
    {
        self.players.get(&uuid)
    }

    /// The tracked players, by ascending uuid.
    pub fn iter(&self) -> (all: Vec<&PlayerEntry>)
        ensures
            all@.len() == self@.len(),
            exists|uuids: Seq<int>| #[trigger] lists(self@, uuids, all@),
    {
        let n: usize = self.players.len();
        assert(self@.dom() =~= self.players@.dom());
        let mut all: Vec<&PlayerEntry> = Vec::new();
        let mut i: usize = 0;
        while i < n
            invariant
                n == self.players.sorted().len(),
                i <= n,
                all@.len() == i,
                forall|k: int|
                    0 <= k < i ==> *(#[trigger] all@[k]) == self.players.sorted()[k].1,
            decreases n - i,
        {
            all.push(self.players.entry(i).1);
            i += 1;
        }
        proof {
            let sorted = self.players.sorted();
            let uuids = Seq::new(sorted.len(), |i: int| sorted[i].0 as int);
            assert forall|i: int| 0 <= i < uuids.len() implies self@.contains_key(
                #[trigger] uuids[i],
            ) && self@[uuids[i]] == all@[i]@ by {
                lemma_entry(sorted, i);
            }
            assert forall|i: int, j: int| 0 <= i < j < uuids.len() implies #[trigger] uuids[i]
                < #[trigger] uuids[j] by {
                assert(<u128 as MapKey>::less(
                    sorted[i].0.key(),
                    sorted[j].0.key(),
                ));
            }
            assert(lists(self@, uuids, all@));
        }
        all
    }

    /// Applies a `player_info` packet, folding each action's fields into the
    /// per-uuid entry. Returns which uuids were newly inserted.
    pub fn apply_info(&mut self, packet: &PacketPlayerInfo) -> (changes: PlayerInfoChanges)
        ensures
            (InfoResult {
                players: final(self)@,
                joined: joined_view(changes.joined@),
                updated: changes.updated@,
                rejected: changes.rejected as nat,
            }) == unchanged(old(self)@).after_all(packet.action, packet.data@),
            old(self)@.len() <= MAX_PLAYERS ==> final(self)@.len() <= MAX_PLAYERS,
    {
        let mut changes = PlayerInfoChanges {
            joined: Vec::new(),
            updated: Vec::new(),
            rejected: 0,
        };
        let mut i: usize = 0;
        let ghost start = unchanged(old(self)@);
        proof {
            assert(packet.data@.take(0) =~= Seq::empty());
            assert(joined_view(changes.joined@) =~= Seq::empty());
        }
        while i < packet.data.len()
            invariant
                i <= packet.data@.len(),
                changes.rejected <= i,
                start == unchanged(old(self)@),
                (InfoResult {
                    players: self@,
                    joined: joined_view(changes.joined@),
                    updated: changes.updated@,
                    rejected: changes.rejected as nat,
                }) == start.after_all(packet.action, packet.data@.take(i as int)),
                old(self)@.len() <= MAX_PLAYERS ==> self@.len() <= MAX_PLAYERS,
            decreases packet.data@.len() - i,
        {
            let item: &PacketPlayerInfoDataItem = &packet.data[i];
            let ghost key = item.uuid as int;
            let ghost before = self@;
            let ghost joined = changes.joined@;
            proof {
                assert(packet.data@.take(i + 1).drop_last() =~= packet.data@.take(i as int));
                assert(packet.data@.take(i + 1).last() == *item);
            }
            i += 1;
            let count: usize = self.len();
            let known = self.players.contains(&item.uuid);
            if !known && count >= MAX_PLAYERS {
                changes.rejected += 1;
                continue ;
            }
            let entry = match self.players.remove(&item.uuid) {
                Some(entry) => entry,
                None => new_entry(item.uuid),
            };
            let entry = apply_item(entry, packet.action, item);
            changes.updated.push(item.uuid);
            if !known && entry.name.as_str().unicode_len() > 0 {
                changes.joined.push((entry.uuid, entry.name.clone()));
                assert(joined_view(changes.joined@) =~= joined_view(joined).push(
                    (entry.uuid, entry.name@),
                ));
            }
            let ghost model = entry@;
            self.players.insert(item.uuid, entry);
            proof {
                assert(self@ =~= before.insert(key, model));
                if known {
                    assert(before.insert(key, model).dom() =~= before.dom());
                } else {
                    assert(before.insert(key, model).dom() =~= before.dom().insert(key));
                }
            }
        }
        assert(packet.data@.take(i as int) =~= packet.data@);
        changes
    }

    /// Applies a `player_remove` packet, returning the uuids removed.
    pub fn apply_remove(&mut self, packet: &PacketPlayerRemove) -> (removed: Vec<u128>)
        ensures
            (final(self)@, removed@) == removed_all(old(self)@, packet.players@),
            final(self)@.len() <= old(self)@.len(),
    {
        let mut removed: Vec<u128> = Vec::new();
        let mut i: usize = 0;
        assert(packet.players@.take(0) =~= Seq::empty());
        while i < packet.players.len()
            invariant
                i <= packet.players@.len(),
                (self@, removed@) == removed_all(old(self)@, packet.players@.take(i as int)),
                self@.len() <= old(self)@.len(),
            decreases packet.players@.len() - i,
        {
            let uuid: u128 = packet.players[i];
            let ghost before = self@;
            let _ = self.len();
            proof {
                assert(packet.players@.take(i + 1).drop_last() =~= packet.players@.take(i as int));
                assert(before.remove(uuid as int).dom() =~= before.dom().remove(uuid as int));
            }
            match self.players.remove(&uuid) {
                Some(_) => {
                    removed.push(uuid);
                },
                None => {},
            }
            proof {
                assert(self@ =~= before.remove(uuid as int));
                if !before.contains_key(uuid as int) {
                    assert(self@ =~= before);
                }
            }
            i += 1;
        }
        assert(packet.players@.take(i as int) =~= packet.players@);
        removed
    }
}

impl Replica for PlayerList {
    open spec fn agrees(&self, other: &PlayerList) -> bool {
        self@ == other@
    }

    fn replica(&self) -> (r: PlayerList) {
        let players = self.players.replica();
        assert(players@ =~= self.players@);
        PlayerList { players }
    }
}

/// A packet touches nobody but the players that it names.
pub proof fn law_other_players_keep_their_entries(
    players: Map<int, EntryModel>,
    action: PacketPlayerInfoAction,
    items: Seq<PacketPlayerInfoDataItem>,
    uuid: int,
)
    requires
        forall|i: int| 0 <= i < items.len() ==> (#[trigger] items[i]).uuid != uuid,
    ensures
        ({
            let after = unchanged(players).after_all(action, items).players;
            &&& after.contains_key(uuid) == players.contains_key(uuid)
            &&& players.contains_key(uuid) ==> after[uuid] == players[uuid]
        }),
    decreases items.len(),
{
    if items.len() > 0 {
        assert forall|i: int| 0 <= i < items.drop_last().len() implies (
        #[trigger] items.drop_last()[i]).uuid != uuid by {
            assert(items.drop_last()[i] == items[i]);
        }
        law_other_players_keep_their_entries(players, action, items.drop_last(), uuid);
        assert(items.last() == items[items.len() - 1]);
    }
}

/// A player that was removed is gone.
pub proof fn law_removed_players_are_gone(players: Map<int, EntryModel>, uuids: Seq<u128>, i: int)
    requires
        0 <= i < uuids.len(),
    ensures
        !removed_all(players, uuids).0.contains_key(uuids[i] as int),
    decreases uuids.len(),
{
    if i < uuids.len() - 1 {
        law_removed_players_are_gone(players, uuids.drop_last(), i);
        assert(uuids.drop_last()[i] == uuids[i]);
    }
}

} // verus!
