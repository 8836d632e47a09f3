//! Copies of the play state's parts, and the view of it that is published.
use crate::minecraft::configuration::DimensionType;
use crate::minecraft::entity::{Entity, EntityStore};
use crate::minecraft::hud::{Attribute, HudState, StatusEffect};
use crate::minecraft::inventory::{
    InventoryOutcome, InventoryState, InventoryTransaction, Window,
};
use crate::minecraft::item::Slot;
use crate::minecraft::play::PlayState;
use crate::minecraft::player::LocalPlayer;
use crate::minecraft::players::{PlayerEntry, PlayerList};
use crate::minecraft::presentation::{
    BossBar, ChatMessage, PresentationState, TabListPresentation, TitleState,
};
use crate::minecraft::scoreboard::{ScoreboardState, Team};
use crate::sharing::{share, share_some, Replica};
use std::collections::VecDeque;
use std::sync::Arc;
use vstd::prelude::*;

verus! {

impl Replica for Entity {
    open spec fn agrees(&self, other: &Entity) -> bool {
        *self == *other
    }

    fn replica(&self) -> (r: Entity) {
        *self
    }
}

impl Replica for StatusEffect {
    open spec fn agrees(&self, other: &StatusEffect) -> bool {
        *self == *other
    }

    fn replica(&self) -> (r: StatusEffect) {
        *self
    }
}

impl Replica for InventoryOutcome {
    open spec fn agrees(&self, other: &InventoryOutcome) -> bool {
        *self == *other
    }

    fn replica(&self) -> (r: InventoryOutcome) {
        *self
    }
}

impl Replica for Slot {
    open spec fn agrees(&self, other: &Slot) -> bool {
        *self == *other
    }

    fn replica(&self) -> (r: Slot) {
        self.clone()
    }
}

impl Replica for BossBar {
    open spec fn agrees(&self, other: &BossBar) -> bool {
        *self == *other
    }

    fn replica(&self) -> (r: BossBar) {
        self.clone()
    }
}

impl Replica for Attribute {
    open spec fn agrees(&self, other: &Attribute) -> bool {
        *self == *other
    }

    fn replica(&self) -> (r: Attribute) {
        Attribute {
            key: self.key,
            base_value: self.base_value,
            modifiers: share(&self.modifiers),
            modifiers_truncated: self.modifiers_truncated,
        }
    }
}

impl Replica for PlayerEntry {
    open spec fn agrees(&self, other: &PlayerEntry) -> bool {
        *self == *other
    }

    fn replica(&self) -> (r: PlayerEntry) {
        PlayerEntry {
            uuid: self.uuid,
            name: self.name.clone(),
            gamemode: self.gamemode,
            latency: self.latency,
            listed: self.listed,
            display_name: share_some(&self.display_name),
            list_priority: self.list_priority,
            show_hat: self.show_hat,
            chat_session: self.chat_session,
        }
    }
}

impl Replica for Team {
    open spec fn agrees(&self, other: &Team) -> bool {
        self@ == other@ && self.members@ == other.members@
    }

    fn replica(&self) -> (r: Team) {
        self.copy()
    }
}

impl Replica for Window {
    open spec fn agrees(&self, other: &Window) -> bool {
        self@ == other@
    }

    fn replica(&self) -> (r: Window) {
        let mut slots: Vec<Slot> = Vec::new();
        let mut i: usize = 0;
        while i < self.slots.len()
            invariant
                i <= self.slots@.len(),
                slots@.len() == i,
                forall|k: int| 0 <= k < i ==> #[trigger] slots@[k] == self.slots@[k],
            decreases self.slots@.len() - i,
        {
            slots.push(self.slots[i].clone());
            i += 1;
        }
        let properties = self.properties.replica();
        assert(slots@ =~= self.slots@);
        assert(properties@ =~= self.properties@);
        Window {
            id: self.id,
            kind: self.kind,
            title: self.title.clone(),
            state_id: self.state_id,
            slots,
            slots_truncated: self.slots_truncated,
            properties,
        }
    }
}

impl Replica for InventoryState {
    open spec fn agrees(&self, other: &InventoryState) -> bool {
        self@ == other@
    }

    fn replica(&self) -> (r: InventoryState) {
        let mut pending_transactions: VecDeque<InventoryTransaction> = VecDeque::new();
        let mut i: usize = 0;
        while i < self.pending_transactions.len()
            invariant
                i <= self.pending_transactions@.len(),
                pending_transactions@.len() == i,
                forall|k: int|
                    0 <= k < i ==> #[trigger] pending_transactions@[k]
                        == self.pending_transactions@[k],
            decreases self.pending_transactions@.len() - i,
        {
            pending_transactions.push_back(self.pending_transactions[i]);
            i += 1;
        }
        let completed_transactions = self.completed_transactions.replica();
        assert(pending_transactions@ =~= self.pending_transactions@);
        assert(completed_transactions@ =~= self.completed_transactions@);
        InventoryState {
            player_inventory: self.player_inventory.replica(),
            open_window: match &self.open_window {
                Some(w) => Some(w.replica()),
                None => None,
            },
            cursor: self.cursor.clone(),
            selected_hotbar_slot: self.selected_hotbar_slot,
            pending_transactions,
            completed_transactions,
            drag: self.drag,
        }
    }
}

impl Replica for PresentationState {
    open spec fn agrees(&self, other: &PresentationState) -> bool {
        self@ == other@
    }

    fn replica(&self) -> (r: PresentationState) {
        let mut chat: VecDeque<Arc<ChatMessage>> = VecDeque::new();
        let mut i: usize = 0;
        while i < self.chat.len()
            invariant
                i <= self.chat@.len(),
                chat@.len() == i,
                forall|k: int| 0 <= k < i ==> #[trigger] chat@[k] == self.chat@[k],
            decreases self.chat@.len() - i,
        {
            chat.push_back(share(&self.chat[i]));
            i += 1;
        }
        let boss_bars = self.boss_bars.replica();
        assert(chat@ =~= self.chat@);
        assert(boss_bars@ =~= self.boss_bars@);
        PresentationState {
            chat,
            action_bar: share_some(&self.action_bar),
            titles: TitleState {
                title: share_some(&self.titles.title),
                subtitle: share_some(&self.titles.subtitle),
                timing: self.titles.timing,
            },
            tab_list: TabListPresentation {
                header: share_some(&self.tab_list.header),
                footer: share_some(&self.tab_list.footer),
            },
            boss_bars,
            disconnect_reason: share_some(&self.disconnect_reason),
            next_chat_sequence: self.next_chat_sequence,
        }
    }
}

impl Replica for ScoreboardState {
    open spec fn agrees(&self, other: &ScoreboardState) -> bool {
        &&& self@ == other@
        &&& self.valid() ==> other.valid()
        &&& self.teams@.dom() == other.teams@.dom()
        &&& forall|name: Seq<char>| #[trigger]
            self.teams@.contains_key(name) ==> self.teams@[name].members@
                == other.teams@[name].members@
    }

    fn replica(&self) -> (r: ScoreboardState) {
        let objectives = self.objectives.replica();
        let display_slots = self.display_slots.replica();
        let scores = self.scores.replica();
        let teams = self.teams.replica();
        let member_teams = self.member_teams.replica();
        let r = ScoreboardState { objectives, display_slots, scores, teams, member_teams };
        proof {
            assert(r.objectives@ =~= self.objectives@);
            assert(r.display_slots@ =~= self.display_slots@);
            assert(r.scores@ =~= self.scores@);
            assert(r.member_teams@ =~= self.member_teams@);
            assert forall|k: Seq<char>| self.teams@.contains_key(k) implies (
            #[trigger] r.teams@[k])@ == self.teams@[k]@ && r.teams@[k].members@
                == self.teams@[k].members@ by {
                assert(self.teams@[k].agrees(&r.teams@[k]));
            }
            assert(r@.teams =~= self@.teams);
        }
        r
    }
}

impl Replica for HudState {
    open spec fn agrees(&self, other: &HudState) -> bool {
        self@ == other@
    }

    fn replica(&self) -> (r: HudState) {
        let hotbar = self.hotbar.replica();
        let cooldowns = self.cooldowns.replica();
        let active_effects = self.active_effects.replica();
        let attributes = self.attributes.replica();
        assert(hotbar@ =~= self.hotbar@);
        assert(cooldowns@ =~= self.cooldowns@);
        assert(active_effects@ =~= self.active_effects@);
        assert(attributes@ =~= self.attributes@);
        HudState {
            entity_id: self.entity_id,
            vitals: self.vitals,
            experience: self.experience,
            game_mode: self.game_mode,
            previous_game_mode: self.previous_game_mode,
            hardcore: self.hardcore,
            abilities: self.abilities,
            selected_hotbar_slot: self.selected_hotbar_slot,
            held_item: self.held_item.clone(),
            hotbar,
            cooldowns,
            active_effects,
            attributes,
            death: share_some(&self.death),
            respawn: self.respawn.clone(),
            world_border: self.world_border,
            time: self.time,
            weather: self.weather,
            difficulty: self.difficulty,
            spawn_position: self.spawn_position,
        }
    }
}

/// A read-only view of play state, published once per tick and after every
/// clientbound packet. The blocks are left out: copying them every tick would
/// be expensive.
pub struct StateSnapshot {
    /// The tick this snapshot was published on.
    pub tick: u64,
    pub player: LocalPlayer,
    pub entities: EntityStore,
    pub inventory: InventoryState,
    pub players: PlayerList,
    pub presentation: PresentationState,
    pub scoreboard: ScoreboardState,
    pub hud: HudState,
    pub world_time: i64,
    pub raining: bool,
    /// Properties of the dimension the player is in; `None` before the first
    /// login or respawn.
    pub dimension: Option<DimensionType>,
}

impl PlayState {
    /// A copy of the parts that a caller would want to observe; it stays as it
    /// is whatever becomes of the state.
    pub fn snapshot(&self, tick: u64) -> (s: StateSnapshot)
        ensures
            s.tick == tick,
            s.player == self.player,
            s.entities@ == self.entities@,
            s.inventory@ == self.inventory@,
            s.players@ == self.players@,
            s.presentation@ == self.presentation@,
            s.scoreboard@ == self.scoreboard@,
            self.scoreboard.agrees(&s.scoreboard),
            s.hud@ == self.hud@,
            s.world_time == self.world_time,
            s.raining == self.raining,
            s.dimension == self.dimension,
    {
        StateSnapshot {
            tick,
            player: self.player,
            entities: self.entities.replica(),
            inventory: self.inventory.replica(),
            players: self.players.replica(),
            presentation: self.presentation.replica(),
            scoreboard: self.scoreboard.replica(),
            hud: self.hud.replica(),
            world_time: self.world_time,
            raining: self.raining,
            dimension: match &self.dimension {
                Some(d) => Some(d.clone()),
                None => None,
            },
        }
    }
}

} // verus!
