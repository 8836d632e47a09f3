//! Headless presentation state for chat, titles, action bars, tab-list
//! header/footer, boss bars, and disconnect reasons.
//!
//! Signed-chat material needed by a future verifier is retained without
//! claiming verification.
use std::collections::VecDeque;
use std::sync::Arc;
use vstd::prelude::*;
use vstd::string::*;

use crate::float_bits::Single;
use crate::minecraft::hud::{flag, has_place, lemma_flags, value_of};
use crate::minecraft::nbt::Nbt;
use crate::minecraft::scoreboard::says;
use crate::minecraft::text::{
    fresh_budget, literal_model, plain, style_view, Style, TextComponent,
};
use crate::minecraft::text_nbt::nbt_component;
use crate::sharing::share;
use crate::sorted_map::SortedMap;
use crate::text_build::text_around;

verus! {

/// Retained chat entries. Oldest entries are discarded first.
pub const MAX_CHAT_HISTORY: usize = 512;

/// Maximum concurrently tracked boss bars from an untrusted server.
pub const MAX_BOSS_BARS: usize = 256;

/// Defensive cap for the previous-message chain copied into public state.
pub const MAX_PREVIOUS_MESSAGES: usize = 64;

/// Defensive cap for a partial-filter bit mask copied into public state.
pub const MAX_FILTER_MASK_WORDS: usize = 512;

/// Forward-compatible bound for inline chat-decoration parameters.
pub const MAX_CHAT_TYPE_PARAMETERS: usize = 16;

/// All headless-readable presentation state.
pub struct PresentationState {
    pub chat: VecDeque<Arc<ChatMessage>>,
    pub action_bar: Option<Arc<TextComponent>>,
    pub titles: TitleState,
    pub tab_list: TabListPresentation,
    /// Deterministic ordering makes snapshots and tests stable.
    pub boss_bars: SortedMap<u128, BossBar>,
    pub disconnect_reason: Option<Arc<TextComponent>>,
    pub next_chat_sequence: u64,
}

/// What is presented.
#[verifier::ext_equal]
pub struct PresentationModel {
    pub chat: Seq<Arc<ChatMessage>>,
    pub action_bar: Option<Arc<TextComponent>>,
    pub titles: TitleState,
    pub tab_list: TabListPresentation,
    pub boss_bars: Map<int, BossBar>,
    pub disconnect_reason: Option<Arc<TextComponent>>,
    pub next_sequence: u64,
}

impl View for PresentationState {
    type V = PresentationModel;

    open spec fn view(&self) -> PresentationModel {
        PresentationModel {
            chat: self.chat@,
            action_bar: self.action_bar,
            titles: self.titles,
            tab_list: self.tab_list,
            boss_bars: self.boss_bars@,
            disconnect_reason: self.disconnect_reason,
            next_sequence: self.next_chat_sequence,
        }
    }
}

/// Current title/subtitle and vanilla timing values, measured in ticks.
#[derive(Debug, PartialEq)]
pub struct TitleState {
    pub title: Option<Arc<TextComponent>>,
    pub subtitle: Option<Arc<TextComponent>>,
    pub timing: TitleTiming,
}

#[derive(Debug, Clone, Copy, PartialEq, Eq)]
pub struct TitleTiming {
    pub fade_in: i32,
    pub stay: i32,
    pub fade_out: i32,
}

/// The timing that vanilla starts with.
pub open spec fn default_timing() -> TitleTiming {
    TitleTiming { fade_in: 10, stay: 70, fade_out: 20 }
}

impl Default for TitleTiming {
    fn default() -> (t: Self)
        ensures
            t == default_timing(),
    {
        TitleTiming { fade_in: 10, stay: 70, fade_out: 20 }
    }
}

#[derive(Debug, PartialEq)]
pub struct TabListPresentation {
    pub header: Option<Arc<TextComponent>>,
    pub footer: Option<Arc<TextComponent>>,
}

/// The progress holds the bits of a single-precision number.
#[derive(Debug, PartialEq)]
pub struct BossBar {
    pub id: u128,
    pub title: Arc<TextComponent>,
    pub progress: Single,
    pub color: BossBarColor,
    pub overlay: BossBarOverlay,
    pub flags: BossBarFlags,
}

impl Clone for BossBar {
    fn clone(&self) -> (r: Self)
        ensures
            r == *self,
    {
        BossBar {
            id: self.id,
            title: share(&self.title),
            progress: self.progress,
            color: self.color,
            overlay: self.overlay,
            flags: self.flags,
        }
    }
}

#[derive(Debug, Clone, Copy, PartialEq, Eq)]
pub enum BossBarColor {
    Pink,
    Blue,
    Red,
    Green,
    Yellow,
    Purple,
    White,
    Unknown(i32),
}

/// The colour with this number.
pub open spec fn bar_color_numbered(value: i32) -> BossBarColor {
    if value == 0 {
        BossBarColor::Pink
    } else if value == 1 {
        BossBarColor::Blue
    } else if value == 2 {
        BossBarColor::Red
    } else if value == 3 {
        BossBarColor::Green
    } else if value == 4 {
        BossBarColor::Yellow
    } else if value == 5 {
        BossBarColor::Purple
    } else if value == 6 {
        BossBarColor::White
    } else {
        BossBarColor::Unknown(value)
    }
}

impl From<i32> for BossBarColor {
    fn from(value: i32) -> (r: Self) {
        match value {
            0 => BossBarColor::Pink,
            1 => BossBarColor::Blue,
            2 => BossBarColor::Red,
            3 => BossBarColor::Green,
            4 => BossBarColor::Yellow,
            5 => BossBarColor::Purple,
            6 => BossBarColor::White,
            other => BossBarColor::Unknown(other),
        }
    }
}

impl vstd::std_specs::convert::FromSpecImpl<i32> for BossBarColor {
    open spec fn obeys_from_spec() -> bool {
        true
    }

    open spec fn from_spec(value: i32) -> Self {
        bar_color_numbered(value)
    }
}

#[derive(Debug, Clone, Copy, PartialEq, Eq)]
pub enum BossBarOverlay {
    Progress,
    Notched6,
    Notched10,
    Notched12,
    Notched20,
    Unknown(i32),
}

/// The overlay with this number.
pub open spec fn overlay_numbered(value: i32) -> BossBarOverlay {
    if value == 0 {
        BossBarOverlay::Progress
    } else if value == 1 {
        BossBarOverlay::Notched6
    } else if value == 2 {
        BossBarOverlay::Notched10
    } else if value == 3 {
        BossBarOverlay::Notched12
    } else if value == 4 {
        BossBarOverlay::Notched20
    } else {
        BossBarOverlay::Unknown(value)
    }
}

impl From<i32> for BossBarOverlay {
    fn from(value: i32) -> (r: Self) {
        match value {
            0 => BossBarOverlay::Progress,
            1 => BossBarOverlay::Notched6,
            2 => BossBarOverlay::Notched10,
            3 => BossBarOverlay::Notched12,
            4 => BossBarOverlay::Notched20,
            other => BossBarOverlay::Unknown(other),
        }
    }
}

impl vstd::std_specs::convert::FromSpecImpl<i32> for BossBarOverlay {
    open spec fn obeys_from_spec() -> bool {
        true
    }

    open spec fn from_spec(value: i32) -> Self {
        overlay_numbered(value)
    }
}

/// Boss-bar flags are a bit set. Unknown future bits remain in raw.
#[derive(Debug, Clone, Copy, PartialEq, Eq)]
pub struct BossBarFlags {
    pub raw: u8,
}

impl BossBarFlags {
    pub fn darken_sky(self) -> (b: bool)
        ensures
            b == flag(self.raw, 0),
    {
        proof {
            lemma_flags(self.raw);
        }
        self.raw & 0x01 != 0
    }

    pub fn play_end_music(self) -> (b: bool)
        ensures
            b == flag(self.raw, 1),
    {
        proof {
            lemma_flags(self.raw);
        }
        self.raw & 0x02 != 0
    }

    pub fn create_world_fog(self) -> (b: bool)
        ensures
            b == flag(self.raw, 2),
    {
        proof {
            lemma_flags(self.raw);
        }
        self.raw & 0x04 != 0
    }
}

#[derive(Debug, Clone, Copy, PartialEq, Eq)]
pub enum BossBarAction {
    Add,
    Remove,
    UpdateProgress,
    UpdateTitle,
    UpdateStyle,
    UpdateFlags,
    Unknown(i32),
}

#[derive(Debug, Clone, Copy, PartialEq, Eq, Structural)]
pub enum ChatKind {
    Player,
    Disguised,
    System,
}

/// One safe display message plus preserved protocol metadata.
#[derive(Debug, PartialEq)]
pub struct ChatMessage {
    /// Monotonic within one play session; assigned when applied to state.
    pub sequence: u64,
    pub kind: ChatKind,
    pub content: TextComponent,
    pub sender: Option<TextComponent>,
    pub target: Option<TextComponent>,
    pub chat_type: Option<ChatTypeReference>,
    pub signed: Option<SignedChatData>,
}

impl ChatMessage {
    /// The message as one line: the sender's name, where there is one, in
    /// angle brackets before the content.
    pub open spec fn display(self) -> Seq<char> {
        match self.sender {
            Some(sender) if plain(sender@).len() > 0 => "<"@ + plain(sender@) + "> "@ + plain(
                self.content@,
            ),
            _ => plain(self.content@),
        }
    }

    /// Deterministic, non-executing display rendering.
    pub fn display_text(&self) -> (s: String)
        ensures
            s@ == self.display(),
    {
        let content = self.content.plain_text();
        match &self.sender {
            Some(sender) => {
                let sender = sender.plain_text();
                if sender.as_str().is_empty() {
                    content
                } else {
                    let mut line = text_around("<", sender.as_str(), "> ");
                    line.append(content.as_str());
                    line
                }
            },
            None => content,
        }
    }
}

/// Data required by a future signed-chat verifier. Retaining it does not
/// imply verification.
#[derive(Debug, PartialEq)]
pub struct SignedChatData {
    pub sender_uuid: u128,
    pub index: i32,
    pub signature: Option<Vec<u8>>,
    pub plain_message: String,
    pub timestamp: i64,
    pub salt: i64,
    pub previous_messages: Vec<PreviousMessage>,
    pub previous_messages_truncated: bool,
    pub filter: ChatFilter,
}

#[derive(Debug, PartialEq)]
pub struct PreviousMessage {
    pub id: i32,
    pub signature: Option<Vec<u8>>,
}

#[derive(Debug, PartialEq)]
pub enum ChatFilter {
    PassThrough,
    FullyFiltered,
    PartiallyFiltered { mask: Vec<i64>, truncated: bool },
    Unknown(i32),
}

#[derive(Debug, PartialEq)]
pub enum ChatTypeReference {
    Registry(i32),
    Inline(Box<ChatDecorations>),
}

#[derive(Debug, PartialEq)]
pub struct ChatDecorations {
    pub chat: ChatDecoration,
    pub narration: ChatDecoration,
}

#[derive(Debug, PartialEq)]
pub struct ChatDecoration {
    pub translation_key: String,
    pub parameters: Vec<ChatTypeParameter>,
    pub parameters_truncated: bool,
    pub style: Style,
}

#[derive(Debug, Clone, Copy, PartialEq, Eq)]
pub enum ChatTypeParameter {
    Content,
    Sender,
    Target,
}

/// Ordered presentation event carried by the bot event stream.
#[derive(Debug, PartialEq)]
pub enum PresentationEvent {
    Chat(Arc<ChatMessage>),
    ActionBarChanged { text: Arc<TextComponent> },
    TitleChanged { text: Arc<TextComponent> },
    SubtitleChanged { text: Arc<TextComponent> },
    TitleTimingChanged { timing: TitleTiming },
    TitlesCleared { reset: bool },
    TabListChanged { header: Arc<TextComponent>, footer: Arc<TextComponent> },
    BossBarChanged {
        id: u128,
        action: BossBarAction,
        current: Option<BossBar>,
        /// False for out-of-order updates/removals, capacity rejects, and
        /// unknown actions. State remains unchanged.
        applied: bool,
    },
    Disconnected { reason: Arc<TextComponent> },
}

/// A change to what is presented, out of one packet.
pub enum PresentationUpdate {
    Chat(ChatMessage),
    ActionBar(Arc<TextComponent>),
    Title(Arc<TextComponent>),
    Subtitle(Arc<TextComponent>),
    TitleTiming(TitleTiming),
    ClearTitles { reset: bool },
    TabList { header: Arc<TextComponent>, footer: Arc<TextComponent> },
    BossBar(BossBarUpdate),
    Disconnect(Arc<TextComponent>),
}

pub enum BossBarUpdate {
    Add(BossBar),
    Remove { id: u128 },
    Progress { id: u128, progress: Single },
    Title { id: u128, title: Arc<TextComponent> },
    Style { id: u128, color: BossBarColor, overlay: BossBarOverlay },
    Flags { id: u128, flags: BossBarFlags },
    Unknown { id: u128, action: i32 },
}

impl BossBarUpdate {
    /// The bar that the update is about.
    pub open spec fn bar(self) -> u128 {
        match self {
            BossBarUpdate::Add(bar) => bar.id,
            BossBarUpdate::Remove { id } => id,
            BossBarUpdate::Progress { id, .. } => id,
            BossBarUpdate::Title { id, .. } => id,
            BossBarUpdate::Style { id, .. } => id,
            BossBarUpdate::Flags { id, .. } => id,
            BossBarUpdate::Unknown { id, .. } => id,
        }
    }

    /// What the update does.
    pub open spec fn kind(self) -> BossBarAction {
        match self {
            BossBarUpdate::Add(_) => BossBarAction::Add,
            BossBarUpdate::Remove { .. } => BossBarAction::Remove,
            BossBarUpdate::Progress { .. } => BossBarAction::UpdateProgress,
            BossBarUpdate::Title { .. } => BossBarAction::UpdateTitle,
            BossBarUpdate::Style { .. } => BossBarAction::UpdateStyle,
            BossBarUpdate::Flags { .. } => BossBarAction::UpdateFlags,
            BossBarUpdate::Unknown { action, .. } => BossBarAction::Unknown(action),
        }
    }

    fn id(&self) -> (id: u128)
        ensures
            id == self.bar(),
    {
        match self {
            BossBarUpdate::Add(bar) => bar.id,
            BossBarUpdate::Remove { id } => *id,
            BossBarUpdate::Progress { id, .. } => *id,
            BossBarUpdate::Title { id, .. } => *id,
            BossBarUpdate::Style { id, .. } => *id,
            BossBarUpdate::Flags { id, .. } => *id,
            BossBarUpdate::Unknown { id, .. } => *id,
        }
    }

    fn action(&self) -> (a: BossBarAction)
        ensures
            a == self.kind(),
    {
        match self {
            BossBarUpdate::Add(_) => BossBarAction::Add,
            BossBarUpdate::Remove { .. } => BossBarAction::Remove,
            BossBarUpdate::Progress { .. } => BossBarAction::UpdateProgress,
            BossBarUpdate::Title { .. } => BossBarAction::UpdateTitle,
            BossBarUpdate::Style { .. } => BossBarAction::UpdateStyle,
            BossBarUpdate::Flags { .. } => BossBarAction::UpdateFlags,
            BossBarUpdate::Unknown { action, .. } => BossBarAction::Unknown(*action),
        }
    }

    /// A bar after the update.
    pub open spec fn changed(self, bar: BossBar) -> BossBar {
        match self {
            BossBarUpdate::Progress { progress, .. } => BossBar { progress, ..bar },
            BossBarUpdate::Title { title, .. } => BossBar { title, ..bar },
            BossBarUpdate::Style { color, overlay, .. } => BossBar { color, overlay, ..bar },
            BossBarUpdate::Flags { flags, .. } => BossBar { flags, ..bar },
            _ => bar,
        }
    }
}

impl PresentationModel {
    /// Nothing presented yet.
    pub open spec fn empty() -> PresentationModel {
        PresentationModel {
            chat: Seq::empty(),
            action_bar: None,
            titles: TitleState { title: None, subtitle: None, timing: default_timing() },
            tab_list: TabListPresentation { header: None, footer: None },
            boss_bars: Map::empty(),
            disconnect_reason: None,
            next_sequence: 0,
        }
    }

    /// Collections keep within their bounds.
    pub open spec fn valid(self) -> bool {
        &&& self.chat.len() <= MAX_CHAT_HISTORY
        &&& self.boss_bars.dom().finite()
        &&& self.boss_bars.len() <= MAX_BOSS_BARS
    }

    /// A chat message recorded: numbered, the oldest making room where the
    /// history is full.
    pub open spec fn chatted(self, message: ChatMessage) -> (PresentationModel, PresentationEvent) {
        let numbered = Arc::new(ChatMessage { sequence: self.next_sequence, ..message });
        let room = if self.chat.len() == MAX_CHAT_HISTORY {
            self.chat.drop_first()
        } else {
            self.chat
        };
        (
            PresentationModel {
                chat: room.push(numbered),
                next_sequence: if self.next_sequence == u64::MAX {
                    u64::MAX
                } else {
                    (self.next_sequence + 1) as u64
                },
                ..self
            },
            PresentationEvent::Chat(numbered),
        )
    }

    /// What a boss-bar update does, and whether it applies. Only a bar that was
    /// added can change.
    pub open spec fn bar_updated(self, update: BossBarUpdate) -> (PresentationModel, bool) {
        let id = update.bar() as int;
        match update {
            BossBarUpdate::Add(bar) => if has_place(self.boss_bars, id, MAX_BOSS_BARS) {
                (PresentationModel { boss_bars: self.boss_bars.insert(id, bar), ..self }, true)
            } else {
                (self, false)
            },
            BossBarUpdate::Remove { .. } => (
                PresentationModel { boss_bars: self.boss_bars.remove(id), ..self },
                self.boss_bars.contains_key(id),
            ),
            BossBarUpdate::Unknown { .. } => (self, false),
            _ => if self.boss_bars.contains_key(id) {
                (
                    PresentationModel {
                        boss_bars: self.boss_bars.insert(id, update.changed(self.boss_bars[id])),
                        ..self
                    },
                    true,
                )
            } else {
                (self, false)
            },
        }
    }

    /// What an update does, and what it reports.
    pub open spec fn applied(self, update: PresentationUpdate) -> (
        PresentationModel,
        PresentationEvent,
    ) {
        match update {
            PresentationUpdate::Chat(message) => self.chatted(message),
            PresentationUpdate::ActionBar(text) => (
                PresentationModel { action_bar: Some(text), ..self },
                PresentationEvent::ActionBarChanged { text },
            ),
            PresentationUpdate::Title(text) => (
                PresentationModel {
                    titles: TitleState { title: Some(text), ..self.titles },
                    ..self
                },
                PresentationEvent::TitleChanged { text },
            ),
            PresentationUpdate::Subtitle(text) => (
                PresentationModel {
                    titles: TitleState { subtitle: Some(text), ..self.titles },
                    ..self
                },
                PresentationEvent::SubtitleChanged { text },
            ),
            PresentationUpdate::TitleTiming(timing) => (
                PresentationModel { titles: TitleState { timing, ..self.titles }, ..self },
                PresentationEvent::TitleTimingChanged { timing },
            ),
            PresentationUpdate::ClearTitles { reset } => (
                PresentationModel {
                    titles: TitleState {
                        title: None,
                        subtitle: None,
                        timing: if reset {
                            default_timing()
                        } else {
                            self.titles.timing
                        },
                    },
                    ..self
                },
                PresentationEvent::TitlesCleared { reset },
            ),
            PresentationUpdate::TabList { header, footer } => (
                PresentationModel {
                    tab_list: TabListPresentation { header: Some(header), footer: Some(footer) },
                    ..self
                },
                PresentationEvent::TabListChanged { header, footer },
            ),
            PresentationUpdate::BossBar(update) => {
                let (after, applied) = self.bar_updated(update);
                (
                    after,
                    PresentationEvent::BossBarChanged {
                        id: update.bar(),
                        action: update.kind(),
                        current: value_of(after.boss_bars, update.bar() as int),
                        applied,
                    },
                )
            },
            PresentationUpdate::Disconnect(reason) => (
                PresentationModel { disconnect_reason: Some(reason), ..self },
                PresentationEvent::Disconnected { reason },
            ),
        }
    }
}

impl PresentationState {
    /// Collections keep within their bounds.
    pub open spec fn valid(&self) -> bool {
        self@.valid()
    }

    /// Nothing presented yet.
    pub fn new() -> (s: Self)
        ensures
            s.valid(),
            s@ == PresentationModel::empty(),
    {
        PresentationState {
            chat: VecDeque::new(),
            action_bar: None,
            titles: TitleState { title: None, subtitle: None, timing: TitleTiming::default() },
            tab_list: TabListPresentation { header: None, footer: None },
            boss_bars: SortedMap::new(),
            disconnect_reason: None,
            next_chat_sequence: 0,
        }
    }

    /// Applies one decoded update and returns its ordered public event.
    pub fn apply(&mut self, update: PresentationUpdate) -> (event: PresentationEvent)
        requires
            old(self).valid(),
        ensures
            final(self).valid(),
            (final(self)@, event) == old(self)@.applied(update),
    {
        match update {
            PresentationUpdate::Chat(message) => {
                let mut message = message;
                message.sequence = self.next_chat_sequence;
                let message = Arc::new(message);
                self.next_chat_sequence = self.next_chat_sequence.saturating_add(1);
                if self.chat.len() == MAX_CHAT_HISTORY {
                    let _ = self.chat.pop_front();
                    assert(self.chat@ =~= old(self)@.chat.drop_first());
                }
                self.chat.push_back(share(&message));
                PresentationEvent::Chat(message)
            },
            PresentationUpdate::ActionBar(text) => {
                self.action_bar = Some(share(&text));
                PresentationEvent::ActionBarChanged { text }
            },
            PresentationUpdate::Title(text) => {
                self.titles.title = Some(share(&text));
                PresentationEvent::TitleChanged { text }
            },
            PresentationUpdate::Subtitle(text) => {
                self.titles.subtitle = Some(share(&text));
                PresentationEvent::SubtitleChanged { text }
            },
            PresentationUpdate::TitleTiming(timing) => {
                self.titles.timing = timing;
                PresentationEvent::TitleTimingChanged { timing }
            },
            PresentationUpdate::ClearTitles { reset } => {
                self.titles.title = None;
                self.titles.subtitle = None;
                if reset {
                    self.titles.timing = TitleTiming::default();
                }
                PresentationEvent::TitlesCleared { reset }
            },
            PresentationUpdate::TabList { header, footer } => {
                self.tab_list.header = Some(share(&header));
                self.tab_list.footer = Some(share(&footer));
                PresentationEvent::TabListChanged { header, footer }
            },
            PresentationUpdate::BossBar(update) => self.apply_boss_bar(update),
            PresentationUpdate::Disconnect(reason) => {
                self.disconnect_reason = Some(share(&reason));
                PresentationEvent::Disconnected { reason }
            },
        }
    }

    fn apply_boss_bar(&mut self, update: BossBarUpdate) -> (event: PresentationEvent)
        requires
            old(self).valid(),
        ensures
            final(self).valid(),
            (final(self)@, event) == old(self)@.applied(PresentationUpdate::BossBar(update)),
    {
        let ghost before = self@;
        let id: u128 = update.id();
        let action = update.action();
        let applied = match update {
            BossBarUpdate::Add(bar) => {
                if self.boss_bars.contains(&id) || self.boss_bars.len() < MAX_BOSS_BARS {
                    let _ = self.boss_bars.insert(id, bar);
                    assert(self@.boss_bars.dom() =~= before.boss_bars.dom().insert(id as int));
                    true
                } else {
                    false
                }
            },
            BossBarUpdate::Remove { .. } => {
                let gone = self.boss_bars.remove(&id).is_some();
                assert(self@.boss_bars.dom() =~= before.boss_bars.dom().remove(id as int));
                gone
            },
            BossBarUpdate::Unknown { .. } => false,
            BossBarUpdate::Progress { progress, .. } => match self.bar(id) {
                Some(mut bar) => {
                    bar.progress = progress;
                    self.put_bar(id, bar)
                },
                None => false,
            },
            BossBarUpdate::Title { title, .. } => match self.bar(id) {
                Some(mut bar) => {
                    bar.title = title;
                    self.put_bar(id, bar)
                },
                None => false,
            },
            BossBarUpdate::Style { color, overlay, .. } => match self.bar(id) {
                Some(mut bar) => {
                    bar.color = color;
                    bar.overlay = overlay;
                    self.put_bar(id, bar)
                },
                None => false,
            },
            BossBarUpdate::Flags { flags, .. } => match self.bar(id) {
                Some(mut bar) => {
                    bar.flags = flags;
                    self.put_bar(id, bar)
                },
                None => false,
            },
        };
        let current = self.bar(id);
        PresentationEvent::BossBarChanged { id, action, current, applied }
    }

    /// A copy of a bar.
    fn bar(&self, id: u128) -> (bar: Option<BossBar>)
        ensures
            bar == value_of(self@.boss_bars, id as int),
    {
        match self.boss_bars.get(&id) {
            Some(bar) => Some(bar.clone()),
            None => None,
        }
    }

    /// Replaces a bar that is there.
    fn put_bar(&mut self, id: u128, bar: BossBar) -> (done: bool)
        requires
            old(self).valid(),
            old(self)@.boss_bars.contains_key(id as int),
        ensures
            final(self).valid(),
            final(self)@ == (PresentationModel {
                boss_bars: old(self)@.boss_bars.insert(id as int, bar),
                ..old(self)@
            }),
            done,
    {
        let _ = self.boss_bars.insert(id, bar);
        assert(self@.boss_bars.dom() =~= old(self)@.boss_bars.dom());
        true
    }
}

impl Default for PresentationState {
    fn default() -> (s: Self)
        ensures
            s.valid(),
            s@ == PresentationModel::empty(),
    {
        PresentationState::new()
    }
}

/// A chat type: one of the registry, or one given in full.
pub enum ChatTypesHolder {
    Reference(i32),
    Inline(ChatTypes),
}

/// A chat type given in full.
pub struct ChatTypes {
    pub chat: ChatType,
    pub narration: ChatType,
}

/// One decoration of a chat type, as sent.
pub struct ChatType {
    pub translation_key: String,
    pub parameters: Vec<ChatTypeParameter>,
    pub style: Nbt,
}

/// Player chat, as sent.
pub struct PacketPlayerChat {
    pub sender_uuid: u128,
    pub index: i32,
    pub signature: Option<Vec<u8>>,
    pub plain_message: String,
    pub timestamp: i64,
    pub salt: i64,
    pub previous_messages: Vec<PreviousMessage>,
    pub unsigned_chat_content: Option<Nbt>,
    pub filter_type: i32,
    /// Carried by a partial filter only.
    pub filter_type_mask: Option<Vec<i64>>,
    pub chat_type: ChatTypesHolder,
    pub network_name: Nbt,
    pub network_target_name: Option<Nbt>,
}

/// Chat without a profile, as sent.
pub struct PacketProfilelessChat {
    pub message: Nbt,
    pub chat_type: ChatTypesHolder,
    pub name: Nbt,
    pub target: Option<Nbt>,
}

/// A boss bar, as sent: which fields are there depends on the action.
pub struct PacketBossBar {
    pub entity_uuid: u128,
    pub action: i32,
    pub title: Option<Nbt>,
    pub health: Option<u32>,
    pub color: Option<i32>,
    pub dividers: Option<i32>,
    pub flags: Option<u8>,
}

/// The packets that carry presentation data, as sent.
pub enum PresentationPacket {
    SystemChat { content: Nbt, is_action_bar: bool },
    PlayerChat(PacketPlayerChat),
    ProfilelessChat(PacketProfilelessChat),
    ActionBar { text: Nbt },
    SetTitleText { text: Nbt },
    SetTitleSubtitle { text: Nbt },
    SetTitleTime { fade_in: i32, stay: i32, fade_out: i32 },
    ClearTitles { reset: bool },
    PlayerlistHeader { header: Nbt, footer: Nbt },
    BossBar(PacketBossBar),
    KickDisconnect { reason: Nbt },
}

/// The first `max` elements.
pub open spec fn cut<T>(s: Seq<T>, max: usize) -> Seq<T> {
    if s.len() > max {
        s.take(max as int)
    } else {
        s
    }
}

/// Whether an optional component is what an optional tag says.
pub open spec fn maybe_says(c: Option<TextComponent>, tag: Option<Nbt>) -> bool {
    match (c, tag) {
        (Some(c), Some(tag)) => says(c, tag),
        (None, None) => true,
        _ => false,
    }
}

/// Whether a decoration is what a packet says.
pub open spec fn decoration_of(t: ChatType, d: ChatDecoration) -> bool {
    &&& d.translation_key == t.translation_key
    &&& d.parameters@ == cut(t.parameters@, MAX_CHAT_TYPE_PARAMETERS)
    &&& d.parameters_truncated == (t.parameters@.len() > MAX_CHAT_TYPE_PARAMETERS)
    &&& style_view(d.style) == nbt_component(t.style, fresh_budget(), 0).0.style
}

/// Whether a chat type is what a packet says.
pub open spec fn chat_type_of(h: ChatTypesHolder, r: ChatTypeReference) -> bool {
    match (h, r) {
        (ChatTypesHolder::Reference(id), ChatTypeReference::Registry(n)) => n == id,
        (ChatTypesHolder::Inline(types), ChatTypeReference::Inline(d)) => decoration_of(
            types.chat,
            d.chat,
        ) && decoration_of(types.narration, d.narration),
        _ => false,
    }
}

/// Whether a filter is what a packet says.
pub open spec fn filter_of(kind: i32, mask: Option<Vec<i64>>, f: ChatFilter) -> bool {
    if kind == 0 {
        f is PassThrough
    } else if kind == 1 {
        f is FullyFiltered
    } else {
        match mask {
            Some(words) if kind == 2 => f matches ChatFilter::PartiallyFiltered { mask, truncated }
                && mask@ == cut(words@, MAX_FILTER_MASK_WORDS) && truncated == (words@.len()
                > MAX_FILTER_MASK_WORDS),
            _ => f == ChatFilter::Unknown(kind),
        }
    }
}

/// Whether a message is what a player-chat packet says: the unsigned content
/// where there is one, else the signed text; with the signed material.
pub open spec fn player_chat_of(p: PacketPlayerChat, m: ChatMessage) -> bool {
    &&& m.sequence == 0
    &&& m.kind == ChatKind::Player
    &&& match p.unsigned_chat_content {
        Some(tag) => says(m.content, tag),
        None => m.content@ == literal_model(p.plain_message@),
    }
    &&& maybe_says(m.sender, Some(p.network_name))
    &&& maybe_says(m.target, p.network_target_name)
    &&& m.chat_type matches Some(r) && chat_type_of(p.chat_type, r)
    &&& m.signed matches Some(s) && {
        &&& s.sender_uuid == p.sender_uuid
        &&& s.index == p.index
        &&& s.signature == p.signature
        &&& s.plain_message == p.plain_message
        &&& s.timestamp == p.timestamp
        &&& s.salt == p.salt
        &&& s.previous_messages@ == cut(p.previous_messages@, MAX_PREVIOUS_MESSAGES)
        &&& s.previous_messages_truncated == (p.previous_messages@.len() > MAX_PREVIOUS_MESSAGES)
        &&& filter_of(p.filter_type, p.filter_type_mask, s.filter)
    }
}

/// Whether a boss-bar update is what a packet says.
pub open spec fn bar_update_of(p: PacketBossBar, u: BossBarUpdate) -> bool {
    let id = p.entity_uuid;
    let unknown = u == (BossBarUpdate::Unknown { id, action: p.action });
    if p.action == 0 {
        u matches BossBarUpdate::Add(bar) && {
            &&& bar.id == id
            &&& match p.title {
                Some(tag) => says(*bar.title, tag),
                None => bar.title@ == literal_model(Seq::empty()),
            }
            &&& bar.progress == Single(
                match p.health {
                    Some(bits) => bits,
                    None => 0,
                },
            )
            &&& bar.color == (match p.color {
                Some(value) => bar_color_numbered(value),
                None => BossBarColor::Unknown(-1i32),
            })
            &&& bar.overlay == (match p.dividers {
                Some(value) => overlay_numbered(value),
                None => BossBarOverlay::Unknown(-1i32),
            })
            &&& bar.flags.raw == (match p.flags {
                Some(raw) => raw,
                None => 0,
            })
        }
    } else if p.action == 1 {
        u == (BossBarUpdate::Remove { id })
    } else if p.action == 2 {
        match p.health {
            Some(bits) => u == (BossBarUpdate::Progress { id, progress: Single(bits) }),
            None => unknown,
        }
    } else if p.action == 3 {
        match p.title {
            Some(tag) => u matches BossBarUpdate::Title { id: i, title } && i == id && says(
                *title,
                tag,
            ),
            None => unknown,
        }
    } else if p.action == 4 {
        match (p.color, p.dividers) {
            (Some(color), Some(overlay)) => u == (BossBarUpdate::Style {
                id,
                color: bar_color_numbered(color),
                overlay: overlay_numbered(overlay),
            }),
            _ => unknown,
        }
    } else if p.action == 5 {
        match p.flags {
            Some(raw) => u == (BossBarUpdate::Flags { id, flags: BossBarFlags { raw } }),
            None => unknown,
        }
    } else {
        unknown
    }
}

/// Whether an update is what a packet says.
pub open spec fn presentation_update_of(p: PresentationPacket, u: PresentationUpdate) -> bool {
    match (p, u) {
        (
            PresentationPacket::SystemChat { content, is_action_bar },
            PresentationUpdate::ActionBar(text),
        ) => is_action_bar && says(*text, content),
        (
            PresentationPacket::SystemChat { content, is_action_bar },
            PresentationUpdate::Chat(m),
        ) => !is_action_bar && says(m.content, content) && m.sequence == 0 && m.kind
            == ChatKind::System && m.sender is None && m.target is None && m.chat_type is None
            && m.signed is None,
        (PresentationPacket::PlayerChat(p), PresentationUpdate::Chat(m)) => player_chat_of(p, m),
        (PresentationPacket::ProfilelessChat(p), PresentationUpdate::Chat(m)) => says(
            m.content,
            p.message,
        ) && m.sequence == 0 && m.kind == ChatKind::Disguised && maybe_says(m.sender, Some(p.name))
            && maybe_says(m.target, p.target) && (m.chat_type matches Some(r) && chat_type_of(
            p.chat_type,
            r,
        )) && m.signed is None,
        (PresentationPacket::ActionBar { text: tag }, PresentationUpdate::ActionBar(text)) => says(
            *text,
            tag,
        ),
        (PresentationPacket::SetTitleText { text: tag }, PresentationUpdate::Title(text)) => says(
            *text,
            tag,
        ),
        (PresentationPacket::SetTitleSubtitle { text: tag }, PresentationUpdate::Subtitle(text)) =>
            says(*text, tag),
        (
            PresentationPacket::SetTitleTime { fade_in, stay, fade_out },
            PresentationUpdate::TitleTiming(t),
        ) => t == (TitleTiming { fade_in, stay, fade_out }),
        (
            PresentationPacket::ClearTitles { reset },
            PresentationUpdate::ClearTitles { reset: r },
        ) => r == reset,
        (
            PresentationPacket::PlayerlistHeader { header, footer },
            PresentationUpdate::TabList { header: h, footer: f },
        ) => says(*h, header) && says(*f, footer),
        (PresentationPacket::BossBar(p), PresentationUpdate::BossBar(u)) => bar_update_of(p, u),
        (PresentationPacket::KickDisconnect { reason }, PresentationUpdate::Disconnect(text)) =>
            says(*text, reason),
        _ => false,
    }
}

/// Cuts a list to its first `max` elements.
fn cut_to<T>(v: Vec<T>, max: usize) -> (r: Vec<T>)
    ensures
        r@ == cut(v@, max),
{
    let mut r = v;
    r.truncate(max);
    assert(r@ =~= cut(v@, max));
    r
}

fn shared_text(tag: &Nbt) -> (c: Arc<TextComponent>)
    ensures
        says(*c, *tag),
{
    Arc::new(TextComponent::from_nbt(tag))
}

fn optional_text(tag: &Option<Nbt>) -> (c: Option<TextComponent>)
    ensures
        maybe_says(c, *tag),
{
    match tag {
        Some(tag) => Some(TextComponent::from_nbt(tag)),
        None => None,
    }
}

/// Turns a presentation packet into the update it asks for.
pub fn decode_update(packet: PresentationPacket) -> (update: PresentationUpdate)
    ensures
        presentation_update_of(packet, update),
{
    match packet {
        PresentationPacket::SystemChat { content, is_action_bar } => {
            if is_action_bar {
                PresentationUpdate::ActionBar(shared_text(&content))
            } else {
                PresentationUpdate::Chat(
                    ChatMessage {
                        sequence: 0,
                        kind: ChatKind::System,
                        content: TextComponent::from_nbt(&content),
                        sender: None,
                        target: None,
                        chat_type: None,
                        signed: None,
                    },
                )
            }
        },
        PresentationPacket::PlayerChat(packet) => PresentationUpdate::Chat(player_chat(packet)),
        PresentationPacket::ProfilelessChat(packet) => PresentationUpdate::Chat(
            ChatMessage {
                sequence: 0,
                kind: ChatKind::Disguised,
                content: TextComponent::from_nbt(&packet.message),
                sender: Some(TextComponent::from_nbt(&packet.name)),
                target: optional_text(&packet.target),
                chat_type: Some(chat_type_reference(packet.chat_type)),
                signed: None,
            },
        ),
        PresentationPacket::ActionBar { text } => PresentationUpdate::ActionBar(shared_text(&text)),
        PresentationPacket::SetTitleText { text } => PresentationUpdate::Title(shared_text(&text)),
        PresentationPacket::SetTitleSubtitle { text } => PresentationUpdate::Subtitle(
            shared_text(&text),
        ),
        PresentationPacket::SetTitleTime { fade_in, stay, fade_out } =>
            PresentationUpdate::TitleTiming(TitleTiming { fade_in, stay, fade_out }),
        PresentationPacket::ClearTitles { reset } => PresentationUpdate::ClearTitles { reset },
        PresentationPacket::PlayerlistHeader { header, footer } => PresentationUpdate::TabList {
            header: shared_text(&header),
            footer: shared_text(&footer),
        },
        PresentationPacket::BossBar(packet) => PresentationUpdate::BossBar(boss_bar_update(packet)),
        PresentationPacket::KickDisconnect { reason } => PresentationUpdate::Disconnect(
            shared_text(&reason),
        ),
    }
}

/// The message that a player-chat packet carries.
pub fn player_chat(packet: PacketPlayerChat) -> (m: ChatMessage)
    ensures
        player_chat_of(packet, m),
{
    let content = match &packet.unsigned_chat_content {
        Some(tag) => TextComponent::from_nbt(tag),
        None => TextComponent::literal(packet.plain_message.as_str()),
    };
    let sender = Some(TextComponent::from_nbt(&packet.network_name));
    let target = optional_text(&packet.network_target_name);
    let previous_messages_truncated = packet.previous_messages.len() > MAX_PREVIOUS_MESSAGES;
    let previous_messages = cut_to(packet.previous_messages, MAX_PREVIOUS_MESSAGES);
    let filter = match (packet.filter_type, packet.filter_type_mask) {
        (0, _) => ChatFilter::PassThrough,
        (1, _) => ChatFilter::FullyFiltered,
        (2, Some(words)) => {
            let truncated = words.len() > MAX_FILTER_MASK_WORDS;
            let mask = cut_to(words, MAX_FILTER_MASK_WORDS);
            ChatFilter::PartiallyFiltered { mask, truncated }
        },
        (other, _) => ChatFilter::Unknown(other),
    };
    ChatMessage {
        sequence: 0,
        kind: ChatKind::Player,
        content,
        sender,
        target,
        chat_type: Some(chat_type_reference(packet.chat_type)),
        signed: Some(
            SignedChatData {
                sender_uuid: packet.sender_uuid,
                index: packet.index,
                signature: packet.signature,
                plain_message: packet.plain_message,
                timestamp: packet.timestamp,
                salt: packet.salt,
                previous_messages,
                previous_messages_truncated,
                filter,
            },
        ),
    }
}

/// The chat type that a packet names or gives.
pub fn chat_type_reference(holder: ChatTypesHolder) -> (r: ChatTypeReference)
    ensures
        chat_type_of(holder, r),
{
    match holder {
        ChatTypesHolder::Reference(id) => ChatTypeReference::Registry(id),
        ChatTypesHolder::Inline(types) => ChatTypeReference::Inline(
            Box::new(
                ChatDecorations {
                    chat: chat_decoration(types.chat),
                    narration: chat_decoration(types.narration),
                },
            ),
        ),
    }
}

/// One decoration, its parameters cut to the bound.
pub fn chat_decoration(decoration: ChatType) -> (d: ChatDecoration)
    ensures
        decoration_of(decoration, d),
{
    let parameters_truncated = decoration.parameters.len() > MAX_CHAT_TYPE_PARAMETERS;
    let style = TextComponent::from_nbt(&decoration.style).style;
    let parameters = cut_to(decoration.parameters, MAX_CHAT_TYPE_PARAMETERS);
    ChatDecoration {
        translation_key: decoration.translation_key,
        parameters,
        parameters_truncated,
        style,
    }
}

/// The update that a boss-bar packet asks for. An action whose fields are
/// missing is kept as unknown.
pub fn boss_bar_update(packet: PacketBossBar) -> (u: BossBarUpdate)
    ensures
        bar_update_of(packet, u),
{
    let id: u128 = packet.entity_uuid;
    let action: i32 = packet.action;
    let title = match &packet.title {
        Some(tag) => Some(shared_text(tag)),
        None => None,
    };
    let color = match packet.color {
        Some(value) => Some(BossBarColor::from(value)),
        None => None,
    };
    let overlay = match packet.dividers {
        Some(value) => Some(BossBarOverlay::from(value)),
        None => None,
    };
    match action {
        0 => BossBarUpdate::Add(
            BossBar {
                id,
                title: match title {
                    Some(title) => title,
                    None => Arc::new(TextComponent::default()),
                },
                progress: Single(
                    match packet.health {
                        Some(bits) => bits,
                        None => 0,
                    },
                ),
                color: match color {
                    Some(color) => color,
                    None => BossBarColor::Unknown(-1),
                },
                overlay: match overlay {
                    Some(overlay) => overlay,
                    None => BossBarOverlay::Unknown(-1),
                },
                flags: BossBarFlags {
                    raw: match packet.flags {
                        Some(raw) => raw,
                        None => 0,
                    },
                },
            },
        ),
        1 => BossBarUpdate::Remove { id },
        2 => match packet.health {
            Some(bits) => BossBarUpdate::Progress { id, progress: Single(bits) },
            None => BossBarUpdate::Unknown { id, action },
        },
        3 => match title {
            Some(title) => BossBarUpdate::Title { id, title },
            None => BossBarUpdate::Unknown { id, action },
        },
        4 => match (color, overlay) {
            (Some(color), Some(overlay)) => BossBarUpdate::Style { id, color, overlay },
            _ => BossBarUpdate::Unknown { id, action },
        },
        5 => match packet.flags {
            Some(raw) => BossBarUpdate::Flags { id, flags: BossBarFlags { raw } },
            None => BossBarUpdate::Unknown { id, action },
        },
        _ => BossBarUpdate::Unknown { id, action },
    }
}

/// Chat messages are numbered in order: each gets the number after the one
/// before it, and the history never outgrows its bound.
pub proof fn law_chat_is_numbered_and_bounded(
    m: PresentationModel,
    first: ChatMessage,
    second: ChatMessage,
)
    requires
        m.valid(),
        m.next_sequence < u64::MAX,
    ensures
        ({
            let a = m.chatted(first).0;
            let b = a.chatted(second).0;
            &&& a.valid() && b.valid()
            &&& a.chat.last().sequence == m.next_sequence
            &&& b.chat.last().sequence == m.next_sequence + 1
            &&& b.chat[b.chat.len() - 2] == a.chat.last()
        }),
{
}

/// What is shown after updates, from the start.
pub open spec fn shown_after(updates: Seq<PresentationUpdate>) -> PresentationModel
    decreases updates.len(),
{
    if updates.len() == 0 {
        PresentationModel::empty()
    } else {
        shown_after(updates.drop_last()).applied(updates.last()).0
    }
}

/// The chat messages among updates, in the order of their arrival.
pub open spec fn messages_of(updates: Seq<PresentationUpdate>) -> Seq<ChatMessage>
    decreases updates.len(),
{
    if updates.len() == 0 {
        Seq::empty()
    } else {
        match updates.last() {
            PresentationUpdate::Chat(message) => messages_of(updates.drop_last()).push(message),
            _ => messages_of(updates.drop_last()),
        }
    }
}

/// The last messages of a history, at most so many as are kept, each with its
/// place as its number.
pub open spec fn kept_messages(messages: Seq<ChatMessage>) -> Seq<Arc<ChatMessage>> {
    let first: int = if messages.len() > MAX_CHAT_HISTORY {
        messages.len() - MAX_CHAT_HISTORY
    } else {
        0
    };
    Seq::new(
        (messages.len() - first) as nat,
        |i: int| Arc::new(ChatMessage { sequence: (first + i) as u64, ..messages[first + i] }),
    )
}

/// Whatever the updates, the history holds the latest chat messages in the order
/// of their arrival, numbered from zero whatever number they came with, and a
/// chat update reports the last of them.
pub proof fn law_the_latest_messages_are_kept(updates: Seq<PresentationUpdate>)
    requires
        messages_of(updates).len() < u64::MAX,
    ensures
        shown_after(updates).chat == kept_messages(messages_of(updates)),
        ({
            let (n, chat) = (messages_of(updates).len(), shown_after(updates).chat);
            &&& chat.len() == if n < MAX_CHAT_HISTORY {
                n
            } else {
                MAX_CHAT_HISTORY as nat
            }
            &&& forall|i: int|
                0 <= i < chat.len() ==> (#[trigger] chat[i]).sequence == n - chat.len() + i
        }),
        shown_after(updates).next_sequence == messages_of(updates).len(),
        updates.len() > 0 && updates.last() is Chat ==> {
            let chat = shown_after(updates).chat;
            &&& shown_after(updates.drop_last()).applied(updates.last()).1
                == PresentationEvent::Chat(chat.last())
            &&& chat.last().sequence == messages_of(updates).len() - 1
        },
    decreases updates.len(),
{
    if updates.len() == 0 {
        assert(shown_after(updates).chat =~= kept_messages(messages_of(updates)));
    } else {
        let before = updates.drop_last();
        law_the_latest_messages_are_kept(before);
        let m = shown_after(before);
        match updates.last() {
            PresentationUpdate::Chat(message) => {
                let n = messages_of(before).len();
                assert(m.chatted(message).0.chat =~= kept_messages(messages_of(updates)));
            },
            _ => {},
        }
    }
}

/// Updates to a boss bar that was never added, or was removed, change nothing
/// and are reported as not applied.
pub proof fn law_out_of_order_bar_updates_do_nothing(m: PresentationModel, update: BossBarUpdate)
    requires
        !m.boss_bars.contains_key(update.bar() as int),
        !(update is Add),
    ensures
        m.bar_updated(update) == (m, false),
        m.applied(PresentationUpdate::BossBar(update)).1 == (PresentationEvent::BossBarChanged {
            id: update.bar(),
            action: update.kind(),
            current: None,
            applied: false,
        }),
{
    assert(m.boss_bars.remove(update.bar() as int) =~= m.boss_bars);
}

/// Clearing the titles keeps their timing; only a reset restores it.
pub proof fn law_only_a_reset_restores_timing(m: PresentationModel)
    ensures
        ({
            let cleared = m.applied(PresentationUpdate::ClearTitles { reset: false }).0;
            let reset = m.applied(PresentationUpdate::ClearTitles { reset: true }).0;
            &&& cleared.titles.title is None && cleared.titles.subtitle is None
            &&& cleared.titles.timing == m.titles.timing
            &&& reset.titles.timing == default_timing()
        }),
{
}

} // verus!
