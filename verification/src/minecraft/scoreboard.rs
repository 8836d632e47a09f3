//! Headless scoreboard and team state.
//!
//! Public models use stable identities, deterministic ordering, the shared
//! [`TextComponent`] representation, and explicit `Unknown` variants for
//! forward compatibility. Every server-controlled collection is bounded.
use std::sync::Arc;
use vstd::prelude::*;

use crate::minecraft::hud::{flag, has_place, lemma_flags, value_of};
use crate::minecraft::nbt::Nbt;
use crate::minecraft::text::{fresh_budget, literal_model, TextComponent};
use crate::minecraft::text_nbt::nbt_component;
use crate::sharing::share;
use crate::sorted_map::{compare_text, kept, text_less, MapKey, Order, SortedMap, Test};
use crate::text_build::same_text;

verus! {

pub const MAX_OBJECTIVES: usize = 256;

pub const MAX_DISPLAY_SLOTS: usize = 64;

pub const MAX_SCORES: usize = 16_384;

pub const MAX_TEAMS: usize = 1_024;

pub const MAX_TEAM_MEMBERS: usize = 16_384;

#[derive(Debug, PartialEq)]
pub struct Objective {
    pub name: String,
    pub display_name: Arc<TextComponent>,
    pub render_type: ObjectiveRenderType,
    /// `None` means vanilla's default integer formatting.
    pub number_format: Option<NumberFormat>,
}

#[derive(Debug, Clone, Copy, PartialEq, Eq)]
pub enum ObjectiveRenderType {
    Integer,
    Hearts,
    Unknown(i32),
}

/// The render type with this number.
pub open spec fn render_type_numbered(value: i32) -> ObjectiveRenderType {
    if value == 0 {
        ObjectiveRenderType::Integer
    } else if value == 1 {
        ObjectiveRenderType::Hearts
    } else {
        ObjectiveRenderType::Unknown(value)
    }
}

impl From<i32> for ObjectiveRenderType {
    fn from(value: i32) -> (r: Self) {
        match value {
            0 => ObjectiveRenderType::Integer,
            1 => ObjectiveRenderType::Hearts,
            other => ObjectiveRenderType::Unknown(other),
        }
    }
}

impl vstd::std_specs::convert::FromSpecImpl<i32> for ObjectiveRenderType {
    open spec fn obeys_from_spec() -> bool {
        true
    }

    open spec fn from_spec(value: i32) -> Self {
        render_type_numbered(value)
    }
}

#[derive(Debug, PartialEq)]
pub enum NumberFormat {
    Blank,
    /// The raw style compound is retained for a future renderer.
    Styled(Nbt),
    Fixed(Arc<TextComponent>),
    Unknown { kind: i32, styling: Option<Nbt> },
}

#[derive(Debug, Clone, Copy, PartialEq, Eq, PartialOrd, Ord)]
pub enum DisplaySlot {
    List,
    Sidebar,
    BelowName,
    Team(TeamColor),
    Unknown(i32),
}

/// The display slot with this number.
pub open spec fn slot_numbered(value: i32) -> DisplaySlot {
    if value == 0 {
        DisplaySlot::List
    } else if value == 1 {
        DisplaySlot::Sidebar
    } else if value == 2 {
        DisplaySlot::BelowName
    } else if 3 <= value <= 18 {
        DisplaySlot::Team(color_numbered((value - 3) as i32))
    } else {
        DisplaySlot::Unknown(value)
    }
}

impl From<i32> for DisplaySlot {
    fn from(value: i32) -> (s: Self) {
        match value {
            0 => DisplaySlot::List,
            1 => DisplaySlot::Sidebar,
            2 => DisplaySlot::BelowName,
            other => if 3 <= other && other <= 18 {
                DisplaySlot::Team(TeamColor::from(other - 3))
            } else {
                DisplaySlot::Unknown(other)
            },
        }
    }
}

impl vstd::std_specs::convert::FromSpecImpl<i32> for DisplaySlot {
    open spec fn obeys_from_spec() -> bool {
        true
    }

    open spec fn from_spec(value: i32) -> Self {
        slot_numbered(value)
    }
}

/// Where a colour stands in the order of colours.
pub open spec fn color_rank(c: TeamColor) -> int {
    match c {
        TeamColor::Black => 0,
        TeamColor::DarkBlue => 1,
        TeamColor::DarkGreen => 2,
        TeamColor::DarkAqua => 3,
        TeamColor::DarkRed => 4,
        TeamColor::DarkPurple => 5,
        TeamColor::Gold => 6,
        TeamColor::Gray => 7,
        TeamColor::DarkGray => 8,
        TeamColor::Blue => 9,
        TeamColor::Green => 10,
        TeamColor::Aqua => 11,
        TeamColor::Red => 12,
        TeamColor::LightPurple => 13,
        TeamColor::Yellow => 14,
        TeamColor::White => 15,
        TeamColor::Reset => 16,
        TeamColor::Unknown(v) => 17 + (v - i32::MIN),
    }
}

/// Where a display slot stands in the order of display slots.
pub open spec fn slot_rank(s: DisplaySlot) -> (int, int) {
    match s {
        DisplaySlot::List => (0, 0),
        DisplaySlot::Sidebar => (1, 0),
        DisplaySlot::BelowName => (2, 0),
        DisplaySlot::Team(c) => (3, color_rank(c)),
        DisplaySlot::Unknown(v) => (4, v as int),
    }
}

fn color_place(c: &TeamColor) -> (r: i64)
    ensures
        r == color_rank(*c),
{
    match c {
        TeamColor::Black => 0,
        TeamColor::DarkBlue => 1,
        TeamColor::DarkGreen => 2,
        TeamColor::DarkAqua => 3,
        TeamColor::DarkRed => 4,
        TeamColor::DarkPurple => 5,
        TeamColor::Gold => 6,
        TeamColor::Gray => 7,
        TeamColor::DarkGray => 8,
        TeamColor::Blue => 9,
        TeamColor::Green => 10,
        TeamColor::Aqua => 11,
        TeamColor::Red => 12,
        TeamColor::LightPurple => 13,
        TeamColor::Yellow => 14,
        TeamColor::White => 15,
        TeamColor::Reset => 16,
        TeamColor::Unknown(v) => 17 + (*v as i64 - i32::MIN as i64),
    }
}

fn slot_place(s: &DisplaySlot) -> (r: (i64, i64))
    ensures
        (r.0 as int, r.1 as int) == slot_rank(*s),
{
    match s {
        DisplaySlot::List => (0, 0),
        DisplaySlot::Sidebar => (1, 0),
        DisplaySlot::BelowName => (2, 0),
        DisplaySlot::Team(c) => (3, color_place(c)),
        DisplaySlot::Unknown(v) => (4, *v as i64),
    }
}

impl MapKey for DisplaySlot {
    type Key = DisplaySlot;

    open spec fn key(&self) -> DisplaySlot {
        *self
    }

    open spec fn less(a: DisplaySlot, b: DisplaySlot) -> bool {
        slot_rank(a).0 < slot_rank(b).0 || (slot_rank(a).0 == slot_rank(b).0 && slot_rank(a).1
            < slot_rank(b).1)
    }

    proof fn irreflexive(a: DisplaySlot) {
    }

    proof fn transitive(a: DisplaySlot, b: DisplaySlot, c: DisplaySlot) {
    }

    fn compare(&self, other: &Self) -> (o: Order) {
        let a = slot_place(self);
        let b = slot_place(other);
        if a.0 < b.0 {
            Order::Less
        } else if a.0 > b.0 {
            Order::Greater
        } else if a.1 < b.1 {
            Order::Less
        } else if a.1 > b.1 {
            Order::Greater
        } else {
            Order::Equal
        }
    }

    fn duplicate(&self) -> (k: Self)
        ensures
            k == *self,
    {
        *self
    }
}

#[derive(Debug, PartialEq, Eq, PartialOrd, Ord)]
pub struct ScoreKey {
    pub objective: String,
    pub owner: String,
}

impl ScoreKey {
    pub fn new(owner: String, objective: String) -> (k: Self)
        ensures
            k.owner == owner,
            k.objective == objective,
    {
        ScoreKey { objective, owner }
    }
}

impl MapKey for ScoreKey {
    /// Objective, then owner.
    type Key = (Seq<char>, Seq<char>);

    open spec fn key(&self) -> (Seq<char>, Seq<char>) {
        (self.objective@, self.owner@)
    }

    open spec fn less(a: (Seq<char>, Seq<char>), b: (Seq<char>, Seq<char>)) -> bool {
        text_less(a.0, b.0) || (a.0 == b.0 && text_less(a.1, b.1))
    }

    proof fn irreflexive(a: (Seq<char>, Seq<char>)) {
        <String as MapKey>::irreflexive(a.0);
        <String as MapKey>::irreflexive(a.1);
    }

    proof fn transitive(
        a: (Seq<char>, Seq<char>),
        b: (Seq<char>, Seq<char>),
        c: (Seq<char>, Seq<char>),
    ) {
        if text_less(a.0, b.0) && text_less(b.0, c.0) {
            <String as MapKey>::transitive(a.0, b.0, c.0);
        }
        if text_less(a.1, b.1) && text_less(b.1, c.1) {
            <String as MapKey>::transitive(a.1, b.1, c.1);
        }
    }

    fn compare(&self, other: &Self) -> (o: Order) {
        match compare_text(self.objective.as_str(), other.objective.as_str()) {
            Order::Equal => compare_text(self.owner.as_str(), other.owner.as_str()),
            o => o,
        }
    }

    fn duplicate(&self) -> (k: Self)
        ensures
            k == *self,
    {
        ScoreKey { objective: self.objective.clone(), owner: self.owner.clone() }
    }
}

#[derive(Debug, PartialEq)]
pub struct Score {
    pub owner: String,
    pub objective: String,
    pub value: i32,
    pub display_name: Option<TextComponent>,
    /// `None` inherits the objective's number format.
    pub number_format: Option<NumberFormat>,
}

/// A team and its members.
pub struct Team {
    pub name: String,
    pub display_name: Arc<TextComponent>,
    pub friendly_fire: FriendlyFire,
    pub name_tag_visibility: NameTagVisibility,
    pub collision_rule: CollisionRule,
    pub color: TeamColor,
    pub prefix: Arc<TextComponent>,
    pub suffix: Arc<TextComponent>,
    pub members: SortedMap<String, ()>,
}

/// What a team is, apart from who belongs to it.
#[verifier::ext_equal]
pub struct TeamModel {
    pub name: String,
    pub display_name: Arc<TextComponent>,
    pub friendly_fire: FriendlyFire,
    pub name_tag_visibility: NameTagVisibility,
    pub collision_rule: CollisionRule,
    pub color: TeamColor,
    pub prefix: Arc<TextComponent>,
    pub suffix: Arc<TextComponent>,
}

impl View for Team {
    type V = TeamModel;

    open spec fn view(&self) -> TeamModel {
        TeamModel {
            name: self.name,
            display_name: self.display_name,
            friendly_fire: self.friendly_fire,
            name_tag_visibility: self.name_tag_visibility,
            collision_rule: self.collision_rule,
            color: self.color,
            prefix: self.prefix,
            suffix: self.suffix,
        }
    }
}

#[derive(Debug, Clone, Copy, PartialEq, Eq)]
pub struct FriendlyFire {
    pub raw: u8,
}

impl FriendlyFire {
    pub fn allows_friendly_fire(self) -> (b: bool)
        ensures
            b == flag(self.raw, 0),
    {
        proof {
            lemma_flags(self.raw);
        }
        self.raw & 0x01 != 0
    }

    pub fn see_friendly_invisibles(self) -> (b: bool)
        ensures
            b == flag(self.raw, 1),
    {
        proof {
            lemma_flags(self.raw);
        }
        self.raw & 0x02 != 0
    }
}

#[derive(Debug, PartialEq, Eq)]
pub enum NameTagVisibility {
    Always,
    Never,
    HideForOtherTeams,
    HideForOwnTeam,
    Unknown(String),
}

impl Clone for NameTagVisibility {
    fn clone(&self) -> (r: Self)
        ensures
            r == *self,
    {
        match self {
            NameTagVisibility::Always => NameTagVisibility::Always,
            NameTagVisibility::Never => NameTagVisibility::Never,
            NameTagVisibility::HideForOtherTeams => NameTagVisibility::HideForOtherTeams,
            NameTagVisibility::HideForOwnTeam => NameTagVisibility::HideForOwnTeam,
            NameTagVisibility::Unknown(s) => NameTagVisibility::Unknown(s.clone()),
        }
    }
}

impl From<String> for NameTagVisibility {
    fn from(value: String) -> (v: Self) {
        if same_text(value.as_str(), "always") {
            NameTagVisibility::Always
        } else if same_text(value.as_str(), "never") {
            NameTagVisibility::Never
        } else if same_text(value.as_str(), "hideForOtherTeams") {
            NameTagVisibility::HideForOtherTeams
        } else if same_text(value.as_str(), "hideForOwnTeam") {
            NameTagVisibility::HideForOwnTeam
        } else {
            NameTagVisibility::Unknown(value)
        }
    }
}

/// The visibility with this name.
pub open spec fn visibility_named(value: String) -> NameTagVisibility {
    if value@ == "always"@ {
        NameTagVisibility::Always
    } else if value@ == "never"@ {
        NameTagVisibility::Never
    } else if value@ == "hideForOtherTeams"@ {
        NameTagVisibility::HideForOtherTeams
    } else if value@ == "hideForOwnTeam"@ {
        NameTagVisibility::HideForOwnTeam
    } else {
        NameTagVisibility::Unknown(value)
    }
}

impl vstd::std_specs::convert::FromSpecImpl<String> for NameTagVisibility {
    open spec fn obeys_from_spec() -> bool {
        true
    }

    open spec fn from_spec(value: String) -> Self {
        visibility_named(value)
    }
}

#[derive(Debug, PartialEq, Eq)]
pub enum CollisionRule {
    Always,
    Never,
    PushOtherTeams,
    PushOwnTeam,
    Unknown(String),
}

impl Clone for CollisionRule {
    fn clone(&self) -> (r: Self)
        ensures
            r == *self,
    {
        match self {
            CollisionRule::Always => CollisionRule::Always,
            CollisionRule::Never => CollisionRule::Never,
            CollisionRule::PushOtherTeams => CollisionRule::PushOtherTeams,
            CollisionRule::PushOwnTeam => CollisionRule::PushOwnTeam,
            CollisionRule::Unknown(s) => CollisionRule::Unknown(s.clone()),
        }
    }
}

impl From<String> for CollisionRule {
    fn from(value: String) -> (v: Self) {
        if same_text(value.as_str(), "always") {
            CollisionRule::Always
        } else if same_text(value.as_str(), "never") {
            CollisionRule::Never
        } else if same_text(value.as_str(), "pushOtherTeams") {
            CollisionRule::PushOtherTeams
        } else if same_text(value.as_str(), "pushOwnTeam") {
            CollisionRule::PushOwnTeam
        } else {
            CollisionRule::Unknown(value)
        }
    }
}

/// The rule with this name.
pub open spec fn rule_named(value: String) -> CollisionRule {
    if value@ == "always"@ {
        CollisionRule::Always
    } else if value@ == "never"@ {
        CollisionRule::Never
    } else if value@ == "pushOtherTeams"@ {
        CollisionRule::PushOtherTeams
    } else if value@ == "pushOwnTeam"@ {
        CollisionRule::PushOwnTeam
    } else {
        CollisionRule::Unknown(value)
    }
}

impl vstd::std_specs::convert::FromSpecImpl<String> for CollisionRule {
    open spec fn obeys_from_spec() -> bool {
        true
    }

    open spec fn from_spec(value: String) -> Self {
        rule_named(value)
    }
}

#[derive(Debug, Clone, Copy, PartialEq, Eq, PartialOrd, Ord)]
pub enum TeamColor {
    Black,
    DarkBlue,
    DarkGreen,
    DarkAqua,
    DarkRed,
    DarkPurple,
    Gold,
    Gray,
    DarkGray,
    Blue,
    Green,
    Aqua,
    Red,
    LightPurple,
    Yellow,
    White,
    Reset,
    Unknown(i32),
}

/// The colour with this number.
pub open spec fn color_numbered(value: i32) -> TeamColor {
    if value == 0 {
        TeamColor::Black
    } else if value == 1 {
        TeamColor::DarkBlue
    } else if value == 2 {
        TeamColor::DarkGreen
    } else if value == 3 {
        TeamColor::DarkAqua
    } else if value == 4 {
        TeamColor::DarkRed
    } else if value == 5 {
        TeamColor::DarkPurple
    } else if value == 6 {
        TeamColor::Gold
    } else if value == 7 {
        TeamColor::Gray
    } else if value == 8 {
        TeamColor::DarkGray
    } else if value == 9 {
        TeamColor::Blue
    } else if value == 10 {
        TeamColor::Green
    } else if value == 11 {
        TeamColor::Aqua
    } else if value == 12 {
        TeamColor::Red
    } else if value == 13 {
        TeamColor::LightPurple
    } else if value == 14 {
        TeamColor::Yellow
    } else if value == 15 {
        TeamColor::White
    } else if value == -1 {
        TeamColor::Reset
    } else {
        TeamColor::Unknown(value)
    }
}

impl From<i32> for TeamColor {
    fn from(value: i32) -> (c: Self) {
        match value {
            0 => TeamColor::Black,
            1 => TeamColor::DarkBlue,
            2 => TeamColor::DarkGreen,
            3 => TeamColor::DarkAqua,
            4 => TeamColor::DarkRed,
            5 => TeamColor::DarkPurple,
            6 => TeamColor::Gold,
            7 => TeamColor::Gray,
            8 => TeamColor::DarkGray,
            9 => TeamColor::Blue,
            10 => TeamColor::Green,
            11 => TeamColor::Aqua,
            12 => TeamColor::Red,
            13 => TeamColor::LightPurple,
            14 => TeamColor::Yellow,
            15 => TeamColor::White,
            -1 => TeamColor::Reset,
            other => TeamColor::Unknown(other),
        }
    }
}

impl vstd::std_specs::convert::FromSpecImpl<i32> for TeamColor {
    open spec fn obeys_from_spec() -> bool {
        true
    }

    open spec fn from_spec(value: i32) -> Self {
        color_numbered(value)
    }
}

#[derive(Debug, Clone, Copy, PartialEq, Eq)]
pub enum ObjectiveAction {
    Create,
    Remove,
    Update,
    Unknown(i8),
}

/// The action with this number.
pub open spec fn objective_action_numbered(value: i8) -> ObjectiveAction {
    if value == 0 {
        ObjectiveAction::Create
    } else if value == 1 {
        ObjectiveAction::Remove
    } else if value == 2 {
        ObjectiveAction::Update
    } else {
        ObjectiveAction::Unknown(value)
    }
}

impl From<i8> for ObjectiveAction {
    fn from(value: i8) -> (a: Self) {
        match value {
            0 => ObjectiveAction::Create,
            1 => ObjectiveAction::Remove,
            2 => ObjectiveAction::Update,
            other => ObjectiveAction::Unknown(other),
        }
    }
}

impl vstd::std_specs::convert::FromSpecImpl<i8> for ObjectiveAction {
    open spec fn obeys_from_spec() -> bool {
        true
    }

    open spec fn from_spec(value: i8) -> Self {
        objective_action_numbered(value)
    }
}

#[derive(Debug, Clone, Copy, PartialEq, Eq)]
pub enum ScoreAction {
    Assign,
    Reset,
}

#[derive(Debug, Clone, Copy, PartialEq, Eq)]
pub enum TeamAction {
    Create,
    Remove,
    Update,
    AddMembers,
    RemoveMembers,
    Unknown(i8),
}

/// What changed on the scoreboard.
pub enum ScoreboardEvent {
    ObjectiveChanged {
        name: String,
        action: ObjectiveAction,
        current: Option<Arc<Objective>>,
        detached_slots: usize,
        removed_scores: usize,
        applied: bool,
    },
    DisplaySlotChanged { slot: DisplaySlot, objective: Option<String>, applied: bool },
    ScoreChanged {
        owner: String,
        objective: Option<String>,
        action: ScoreAction,
        current: Option<Arc<Score>>,
        affected: usize,
        applied: bool,
    },
    TeamChanged {
        name: String,
        action: TeamAction,
        current: Option<Box<Team>>,
        affected_members: usize,
        rejected_members: usize,
        applied: bool,
    },
}

/// A change to the scoreboard, out of one packet.
pub enum ScoreboardUpdate {
    Objective {
        name: String,
        action: ObjectiveAction,
        definition: Option<ObjectiveDefinition>,
    },
    DisplaySlot { slot: DisplaySlot, objective: Option<String> },
    SetScore(Score),
    ResetScore { owner: String, objective: Option<String> },
    Team(TeamUpdate),
}

pub struct ObjectiveDefinition {
    pub display_name: Arc<TextComponent>,
    pub render_type: ObjectiveRenderType,
    pub number_format: Option<NumberFormat>,
}

impl ObjectiveDefinition {
    /// The objective of that name.
    pub open spec fn named(self, name: String) -> Objective {
        Objective {
            name,
            display_name: self.display_name,
            render_type: self.render_type,
            number_format: self.number_format,
        }
    }

    fn into_objective(self, name: String) -> (o: Objective)
        ensures
            o == self.named(name),
    {
        Objective {
            name,
            display_name: self.display_name,
            render_type: self.render_type,
            number_format: self.number_format,
        }
    }
}

pub struct TeamDefinition {
    pub display_name: Arc<TextComponent>,
    pub friendly_fire: FriendlyFire,
    pub name_tag_visibility: NameTagVisibility,
    pub collision_rule: CollisionRule,
    pub color: TeamColor,
    pub prefix: Arc<TextComponent>,
    pub suffix: Arc<TextComponent>,
}

impl TeamDefinition {
    /// The team of that name.
    pub open spec fn named(self, name: String) -> TeamModel {
        TeamModel {
            name,
            display_name: self.display_name,
            friendly_fire: self.friendly_fire,
            name_tag_visibility: self.name_tag_visibility,
            collision_rule: self.collision_rule,
            color: self.color,
            prefix: self.prefix,
            suffix: self.suffix,
        }
    }

    fn into_team(self, name: String, members: SortedMap<String, ()>) -> (t: Team)
        ensures
            t@ == self.named(name),
            t.members == members,
    {
        Team {
            name,
            display_name: self.display_name,
            friendly_fire: self.friendly_fire,
            name_tag_visibility: self.name_tag_visibility,
            collision_rule: self.collision_rule,
            color: self.color,
            prefix: self.prefix,
            suffix: self.suffix,
            members,
        }
    }
}

pub enum TeamUpdate {
    Create { name: String, definition: TeamDefinition, members: Vec<String> },
    Remove { name: String },
    Update { name: String, definition: TeamDefinition },
    AddMembers { name: String, members: Vec<String> },
    RemoveMembers { name: String, members: Vec<String> },
    Unknown { name: String, mode: i8 },
}

impl TeamUpdate {
    /// The team that the update is about.
    pub open spec fn team(self) -> String {
        match self {
            TeamUpdate::Create { name, .. } => name,
            TeamUpdate::Remove { name } => name,
            TeamUpdate::Update { name, .. } => name,
            TeamUpdate::AddMembers { name, .. } => name,
            TeamUpdate::RemoveMembers { name, .. } => name,
            TeamUpdate::Unknown { name, .. } => name,
        }
    }

    /// What the update does.
    pub open spec fn kind(self) -> TeamAction {
        match self {
            TeamUpdate::Create { .. } => TeamAction::Create,
            TeamUpdate::Remove { .. } => TeamAction::Remove,
            TeamUpdate::Update { .. } => TeamAction::Update,
            TeamUpdate::AddMembers { .. } => TeamAction::AddMembers,
            TeamUpdate::RemoveMembers { .. } => TeamAction::RemoveMembers,
            TeamUpdate::Unknown { mode, .. } => TeamAction::Unknown(mode),
        }
    }
}

/// Complete scoreboard state included in every play snapshot.
pub struct ScoreboardState {
    pub objectives: SortedMap<String, Arc<Objective>>,
    pub display_slots: SortedMap<DisplaySlot, String>,
    pub scores: SortedMap<ScoreKey, Arc<Score>>,
    pub teams: SortedMap<String, Team>,
    pub member_teams: SortedMap<String, String>,
}

/// What the scoreboard holds. Membership is one function from entries to teams:
/// an entry belongs to at most one team.
#[verifier::ext_equal]
pub struct ScoreboardModel {
    pub objectives: Map<Seq<char>, Arc<Objective>>,
    pub slots: Map<DisplaySlot, String>,
    pub scores: Map<(Seq<char>, Seq<char>), Arc<Score>>,
    pub teams: Map<Seq<char>, TeamModel>,
    pub membership: Map<Seq<char>, Seq<char>>,
}

/// The teams without their members.
pub open spec fn team_models(teams: Map<Seq<char>, Team>) -> Map<Seq<char>, TeamModel> {
    Map::new(|k: Seq<char>| teams.contains_key(k), |k: Seq<char>| teams[k]@)
}

/// The index without the strings that hold it.
pub open spec fn membership_of(index: Map<Seq<char>, String>) -> Map<Seq<char>, Seq<char>> {
    Map::new(|k: Seq<char>| index.contains_key(k), |k: Seq<char>| index[k]@)
}

impl View for ScoreboardState {
    type V = ScoreboardModel;

    open spec fn view(&self) -> ScoreboardModel {
        ScoreboardModel {
            objectives: self.objectives@,
            slots: self.display_slots@,
            scores: self.scores@,
            teams: team_models(self.teams@),
            membership: membership_of(self.member_teams@),
        }
    }
}

/// Every team lists exactly the entries that the index gives it.
pub open spec fn consistent(teams: Map<Seq<char>, Team>, index: Map<Seq<char>, String>) -> bool {
    &&& forall|x: Seq<char>| #[trigger]
        index.contains_key(x) ==> teams.contains_key(index[x]@)
            && teams[index[x]@].members@.contains_key(x)
    &&& forall|t: Seq<char>, x: Seq<char>|
        teams.contains_key(t) && #[trigger] teams[t].members@.contains_key(x)
            ==> index.contains_key(x) && index[x]@ == t
}

/// Whether the index gives each member the one team that lists it.
pub open spec fn members_agree(state: ScoreboardState) -> bool {
    forall|x: Seq<char>, t: Seq<char>|
        (state@.membership.contains_key(x) && #[trigger] state@.membership[x] == t) <==> (
        state.teams@.contains_key(t) && #[trigger] state.teams@[t].members@.contains_key(x))
}

/// Whether a text is among texts.
pub open spec fn lists(members: Seq<String>, x: Seq<char>) -> bool {
    exists|i: int| 0 <= i < members.len() && (#[trigger] members[i])@ == x
}

/// Where a team update leaves one who may belong to a team: an update of a team
/// keeps its members, a removal frees them, a team that is made anew has none but
/// those it is made with, and one who joins a team is in no other.
pub open spec fn member_moved(
    before: ScoreboardState,
    update: TeamUpdate,
    after: ScoreboardState,
    x: Seq<char>,
) -> bool {
    let (was, now) = (before@.membership, after@.membership);
    match update {
        TeamUpdate::Update { .. } => now == was,
        TeamUpdate::Remove { name } => {
            &&& !after.teams@.contains_key(name@)
            &&& was.contains_key(x) && was[x] == name@ ==> !now.contains_key(x)
        },
        TeamUpdate::Create { name, members, .. } => has_place(before@.teams, name@, MAX_TEAMS)
            && now.contains_key(x) ==> (now[x] == name@ <==> lists(members@, x)),
        TeamUpdate::AddMembers { name, members } => before@.teams.contains_key(name@)
            && now.contains_key(x) && lists(members@, x) ==> now[x] == name@
            && after.teams@[name@].members@.contains_key(x),
        _ => true,
    }
}

/// One entry joining a team: the membership after it, and whether it counts as
/// moved and as turned away.
pub open spec fn joined(
    membership: Map<Seq<char>, Seq<char>>,
    team: Seq<char>,
    member: Seq<char>,
) -> (Map<Seq<char>, Seq<char>>, nat, nat) {
    if membership.contains_key(member) && membership[member] == team {
        (membership, 0, 0)
    } else if !membership.contains_key(member) && membership.len() >= MAX_TEAM_MEMBERS {
        (membership, 0, 1)
    } else {
        (membership.insert(member, team), 1, 0)
    }
}

/// Several entries joining a team in order, with the counts.
pub open spec fn all_joined(
    membership: Map<Seq<char>, Seq<char>>,
    team: Seq<char>,
    members: Seq<String>,
) -> (Map<Seq<char>, Seq<char>>, nat, nat)
    decreases members.len(),
{
    if members.len() == 0 {
        (membership, 0, 0)
    } else {
        let (before, moved, refused) = all_joined(membership, team, members.drop_last());
        let (after, m, r) = joined(before, team, members.last()@);
        (after, moved + m, refused + r)
    }
}

/// Several entries leaving a team in order, with the number that were in it.
pub open spec fn all_left(
    membership: Map<Seq<char>, Seq<char>>,
    team: Seq<char>,
    members: Seq<String>,
) -> (Map<Seq<char>, Seq<char>>, nat)
    decreases members.len(),
{
    if members.len() == 0 {
        (membership, 0)
    } else {
        let (before, n) = all_left(membership, team, members.drop_last());
        let x = members.last()@;
        if before.contains_key(x) && before[x] == team {
            (before.remove(x), n + 1)
        } else {
            (before, n)
        }
    }
}

/// The membership without a team.
pub open spec fn disbanded(membership: Map<Seq<char>, Seq<char>>, team: Seq<char>) -> Map<
    Seq<char>,
    Seq<char>,
> {
    kept(membership, |x: Seq<char>, t: Seq<char>| t != team)
}

/// What an update to teams comes to: whether it applies, and how many entries it
/// moves and turns away.
#[verifier::ext_equal]
pub struct TeamResult {
    pub after: ScoreboardModel,
    pub applied: bool,
    pub affected: nat,
    pub rejected: nat,
}

impl ScoreboardModel {
    /// Nothing yet.
    pub open spec fn empty() -> ScoreboardModel {
        ScoreboardModel {
            objectives: Map::empty(),
            slots: Map::empty(),
            scores: Map::empty(),
            teams: Map::empty(),
            membership: Map::empty(),
        }
    }

    /// Every collection keeps within its bound; slots and scores only name
    /// objectives that exist.
    pub open spec fn valid(self) -> bool {
        &&& self.objectives.dom().finite()
        &&& self.objectives.len() <= MAX_OBJECTIVES
        &&& self.slots.dom().finite()
        &&& self.slots.len() <= MAX_DISPLAY_SLOTS
        &&& self.scores.dom().finite()
        &&& self.scores.len() <= MAX_SCORES
        &&& self.teams.dom().finite()
        &&& self.teams.len() <= MAX_TEAMS
        &&& self.membership.dom().finite()
        &&& self.membership.len() <= MAX_TEAM_MEMBERS
        &&& forall|x: Seq<char>| #[trigger]
            self.membership.contains_key(x) ==> self.teams.contains_key(self.membership[x])
        &&& forall|s: DisplaySlot| #[trigger]
            self.slots.contains_key(s) ==> self.objectives.contains_key(self.slots[s]@)
        &&& forall|k: (Seq<char>, Seq<char>)| #[trigger]
            self.scores.contains_key(k) ==> self.objectives.contains_key(k.0)
    }

    /// After an objective was removed: its slots and scores go with it.
    pub open spec fn without_objective(self, name: Seq<char>) -> ScoreboardModel {
        ScoreboardModel {
            objectives: self.objectives.remove(name),
            slots: kept(self.slots, |s: DisplaySlot, o: String| o@ != name),
            scores: kept(self.scores, |k: (Seq<char>, Seq<char>), v: Arc<Score>| k.0 != name),
            ..self
        }
    }

    /// What an objective update does, and whether it applies.
    pub open spec fn objective_updated(
        self,
        name: String,
        action: ObjectiveAction,
        definition: Option<ObjectiveDefinition>,
    ) -> (ScoreboardModel, bool) {
        match (action, definition) {
            (ObjectiveAction::Create, Some(d)) => if has_place(
                self.objectives,
                name@,
                MAX_OBJECTIVES,
            ) {
                (
                    ScoreboardModel {
                        objectives: self.objectives.insert(name@, Arc::new(d.named(name))),
                        ..self
                    },
                    true,
                )
            } else {
                (self, false)
            },
            (ObjectiveAction::Update, Some(d)) => if self.objectives.contains_key(name@) {
                (
                    ScoreboardModel {
                        objectives: self.objectives.insert(name@, Arc::new(d.named(name))),
                        ..self
                    },
                    true,
                )
            } else {
                (self, false)
            },
            (ObjectiveAction::Remove, _) => {
                let after = self.without_objective(name@);
                (
                    after,
                    self.objectives.contains_key(name@) || after.slots.len() != self.slots.len()
                        || after.scores.len() != self.scores.len(),
                )
            },
            _ => (self, false),
        }
    }

    /// What setting a display slot does, and whether it applies: a slot shows
    /// only an objective that exists.
    pub open spec fn slot_set(self, slot: DisplaySlot, objective: Option<String>) -> (
        ScoreboardModel,
        bool,
    ) {
        match objective {
            None => (
                ScoreboardModel { slots: self.slots.remove(slot), ..self },
                self.slots.contains_key(slot),
            ),
            Some(name) => if self.objectives.contains_key(name@) && has_place(
                self.slots,
                slot,
                MAX_DISPLAY_SLOTS,
            ) {
                (ScoreboardModel { slots: self.slots.insert(slot, name), ..self }, true)
            } else {
                (self, false)
            },
        }
    }

    /// What setting a score does, and whether it applies.
    pub open spec fn score_set(self, score: Score) -> (ScoreboardModel, bool) {
        let key = (score.objective@, score.owner@);
        if self.objectives.contains_key(score.objective@) && has_place(
            self.scores,
            key,
            MAX_SCORES,
        ) {
            (ScoreboardModel { scores: self.scores.insert(key, Arc::new(score)), ..self }, true)
        } else {
            (self, false)
        }
    }

    /// After an owner's score was reset, for one objective or for all.
    pub open spec fn score_reset(self, owner: Seq<char>, objective: Option<String>) -> ScoreboardModel {
        ScoreboardModel {
            scores: match objective {
                Some(o) => self.scores.remove((o@, owner)),
                None => kept(
                    self.scores,
                    |k: (Seq<char>, Seq<char>), v: Arc<Score>| k.1 != owner,
                ),
            },
            ..self
        }
    }

    /// How many entries belong to a team.
    pub open spec fn team_size(self, team: Seq<char>) -> nat {
        (self.membership.len() - disbanded(self.membership, team).len()) as nat
    }

    /// What a team update comes to.
    pub open spec fn team_updated(self, update: TeamUpdate) -> TeamResult {
        let nothing = TeamResult { after: self, applied: false, affected: 0, rejected: 0 };
        match update {
            TeamUpdate::Create { name, definition, members } => if has_place(
                self.teams,
                name@,
                MAX_TEAMS,
            ) {
                let (membership, affected, rejected) = all_joined(
                    disbanded(self.membership, name@),
                    name@,
                    members@,
                );
                TeamResult {
                    after: ScoreboardModel {
                        teams: self.teams.insert(name@, definition.named(name)),
                        membership,
                        ..self
                    },
                    applied: true,
                    affected,
                    rejected,
                }
            } else {
                TeamResult { rejected: members@.len(), ..nothing }
            },
            TeamUpdate::Remove { name } => TeamResult {
                after: ScoreboardModel {
                    teams: self.teams.remove(name@),
                    membership: disbanded(self.membership, name@),
                    ..self
                },
                applied: self.teams.contains_key(name@),
                affected: self.team_size(name@),
                rejected: 0,
            },
            TeamUpdate::Update { name, definition } => if self.teams.contains_key(name@) {
                TeamResult {
                    after: ScoreboardModel {
                        teams: self.teams.insert(name@, definition.named(name)),
                        ..self
                    },
                    applied: true,
                    affected: 0,
                    rejected: 0,
                }
            } else {
                nothing
            },
            TeamUpdate::AddMembers { name, members } => if self.teams.contains_key(name@) {
                let (membership, affected, rejected) = all_joined(
                    self.membership,
                    name@,
                    members@,
                );
                TeamResult {
                    after: ScoreboardModel { membership, ..self },
                    applied: affected != 0,
                    affected,
                    rejected,
                }
            } else {
                TeamResult { rejected: members@.len(), ..nothing }
            },
            TeamUpdate::RemoveMembers { name, members } => if self.teams.contains_key(name@) {
                let (membership, affected) = all_left(self.membership, name@, members@);
                TeamResult {
                    after: ScoreboardModel { membership, ..self },
                    applied: affected != 0,
                    affected,
                    rejected: 0,
                }
            } else {
                TeamResult { rejected: members@.len(), ..nothing }
            },
            TeamUpdate::Unknown { .. } => nothing,
        }
    }
}

/// Removing entries cannot add any.
proof fn lemma_kept<K, V>(m: Map<K, V>, keep: spec_fn(K, V) -> bool)
    requires
        m.dom().finite(),
    ensures
        kept(m, keep).dom().finite(),
        kept(m, keep).len() <= m.len(),
{
    assert(kept(m, keep).dom().subset_of(m.dom()));
    vstd::set_lib::lemma_len_subset(kept(m, keep).dom(), m.dom());
}

/// Joining keeps the bound and the counts small.
proof fn lemma_all_joined(
    membership: Map<Seq<char>, Seq<char>>,
    team: Seq<char>,
    members: Seq<String>,
)
    requires
        membership.dom().finite(),
        membership.len() <= MAX_TEAM_MEMBERS,
    ensures
        all_joined(membership, team, members).0.dom().finite(),
        all_joined(membership, team, members).0.len() <= MAX_TEAM_MEMBERS,
        all_joined(membership, team, members).1 + all_joined(membership, team, members).2
            <= members.len(),
    decreases members.len(),
{
    if members.len() > 0 {
        lemma_all_joined(membership, team, members.drop_last());
        let before = all_joined(membership, team, members.drop_last()).0;
        let x = members.last()@;
        assert(before.insert(x, team).dom() =~= before.dom().insert(x));
    }
}

proof fn lemma_all_left(
    membership: Map<Seq<char>, Seq<char>>,
    team: Seq<char>,
    members: Seq<String>,
)
    requires
        membership.dom().finite(),
    ensures
        all_left(membership, team, members).0.dom().finite(),
        all_left(membership, team, members).0.len() <= membership.len(),
        all_left(membership, team, members).1 <= members.len(),
    decreases members.len(),
{
    if members.len() > 0 {
        lemma_all_left(membership, team, members.drop_last());
        let before = all_left(membership, team, members.drop_last()).0;
        let x = members.last()@;
        assert(before.remove(x).dom() =~= before.dom().remove(x));
    }
}

/// Keeps the display slots that show another objective.
struct Shows<'a> {
    name: &'a String,
}

impl<'a> Test<DisplaySlot, String> for Shows<'a> {
    closed spec fn accepts(&self, k: DisplaySlot, v: String) -> bool {
        v@ != self.name@
    }

    fn check(&self, k: &DisplaySlot, v: &String) -> (b: bool) {
        !same_text(v.as_str(), self.name.as_str())
    }
}

/// Keeps the scores of other objectives.
struct Counts<'a> {
    name: &'a String,
}

impl<'a> Test<ScoreKey, Arc<Score>> for Counts<'a> {
    closed spec fn accepts(&self, k: (Seq<char>, Seq<char>), v: Arc<Score>) -> bool {
        k.0 != self.name@
    }

    fn check(&self, k: &ScoreKey, v: &Arc<Score>) -> (b: bool) {
        !same_text(k.objective.as_str(), self.name.as_str())
    }
}

/// Keeps the scores of other owners.
struct Owned<'a> {
    name: &'a String,
}

impl<'a> Test<ScoreKey, Arc<Score>> for Owned<'a> {
    closed spec fn accepts(&self, k: (Seq<char>, Seq<char>), v: Arc<Score>) -> bool {
        k.1 != self.name@
    }

    fn check(&self, k: &ScoreKey, v: &Arc<Score>) -> (b: bool) {
        !same_text(k.owner.as_str(), self.name.as_str())
    }
}

/// Keeps the entries of other teams.
struct Belongs<'a> {
    name: &'a String,
}

impl<'a> Test<String, String> for Belongs<'a> {
    closed spec fn accepts(&self, k: Seq<char>, v: String) -> bool {
        v@ != self.name@
    }

    fn check(&self, k: &String, v: &String) -> (b: bool) {
        !same_text(v.as_str(), self.name.as_str())
    }
}

impl Team {
    /// A team that nothing is known of.
    fn blank() -> (t: Team)
        ensures
            t.name@ == Seq::<char>::empty(),
            t.display_name@ == literal_model(Seq::empty()),
            t.friendly_fire.raw == 0,
            t.name_tag_visibility == NameTagVisibility::Always,
            t.collision_rule == CollisionRule::Always,
            t.color == TeamColor::Reset,
            t.prefix@ == literal_model(Seq::empty()),
            t.suffix@ == literal_model(Seq::empty()),
            t.members@ == Map::<Seq<char>, ()>::empty(),
    {
        proof {
            reveal_strlit("");
            assert(""@ =~= Seq::<char>::empty());
        }
        Team {
            name: String::new(),
            display_name: Arc::new(TextComponent::literal("")),
            friendly_fire: FriendlyFire { raw: 0 },
            name_tag_visibility: NameTagVisibility::Always,
            collision_rule: CollisionRule::Always,
            color: TeamColor::Reset,
            prefix: Arc::new(TextComponent::literal("")),
            suffix: Arc::new(TextComponent::literal("")),
            members: SortedMap::new(),
        }
    }

    /// The same team with the same members.
    pub fn copy(&self) -> (t: Team)
        ensures
            t@ == self@,
            t.members@ == self.members@,
    {
        Team {
            name: self.name.clone(),
            display_name: share(&self.display_name),
            friendly_fire: self.friendly_fire,
            name_tag_visibility: self.name_tag_visibility.clone(),
            collision_rule: self.collision_rule.clone(),
            color: self.color,
            prefix: share(&self.prefix),
            suffix: share(&self.suffix),
            members: self.members.copy_keys(),
        }
    }
}

impl ScoreboardState {
    /// Bounds hold, and teams and index agree.
    pub open spec fn valid(&self) -> bool {
        &&& self@.valid()
        &&& consistent(self.teams@, self.member_teams@)
    }

    /// An empty scoreboard.
    pub fn new() -> (s: Self)
        ensures
            s.valid(),
            s@ == ScoreboardModel::empty(),
    {
        let s = ScoreboardState {
            objectives: SortedMap::new(),
            display_slots: SortedMap::new(),
            scores: SortedMap::new(),
            teams: SortedMap::new(),
            member_teams: SortedMap::new(),
        };
        assert(s@ =~= ScoreboardModel::empty());
        s
    }

    /// Returns the one team currently owning this scoreboard entry.
    pub fn team_for_member(&self, member: &str) -> (team: Option<&str>)
        ensures
            team is Some <==> self@.membership.contains_key(member@),
            team matches Some(t) ==> t@ == self@.membership[member@],
    {
        let key: String = member.to_owned();
        match self.member_teams.get(&key) {
            Some(team) => Some(team.as_str()),
            None => None,
        }
    }

    /// Applies an update.
    pub fn apply(&mut self, update: ScoreboardUpdate) -> (event: ScoreboardEvent)
        requires
            old(self).valid(),
        ensures
            final(self).valid(),
            members_agree(*final(self)),
            scoreboard_outcome(old(self)@, *final(self), event, update),
    {
        let event = match update {
            ScoreboardUpdate::Objective { name, action, definition } => self.apply_objective(
                name,
                action,
                definition,
            ),
            ScoreboardUpdate::DisplaySlot { slot, objective } => self.apply_display_slot(
                slot,
                objective,
            ),
            ScoreboardUpdate::SetScore(score) => self.apply_score(score),
            ScoreboardUpdate::ResetScore { owner, objective } => self.apply_score_reset(
                owner,
                objective,
            ),
            ScoreboardUpdate::Team(update) => self.apply_team(update),
        };
        proof {
            law_members_belong_to_one_team(*self);
        }
        event
    }

    fn apply_objective(
        &mut self,
        name: String,
        action: ObjectiveAction,
        definition: Option<ObjectiveDefinition>,
    ) -> (event: ScoreboardEvent)
        requires
            old(self).valid(),
        ensures
            final(self).valid(),
            objective_outcome(old(self)@, final(self)@, event, name, action, definition),
    {
        let ghost before = self@;
        let mut detached_slots: usize = 0;
        let mut removed_scores: usize = 0;
        let applied = match (action, definition) {
            (ObjectiveAction::Create, Some(definition)) => {
                if !self.objectives.contains(&name) && self.objectives.len() >= MAX_OBJECTIVES {
                    false
                } else {
                    let objective = Arc::new(definition.into_objective(name.clone()));
                    let _ = self.objectives.insert(name.clone(), objective);
                    assert(self@.objectives.dom() =~= before.objectives.dom().insert(name@));
                    true
                }
            },
            (ObjectiveAction::Update, Some(definition)) => {
                if self.objectives.contains(&name) {
                    let objective = Arc::new(definition.into_objective(name.clone()));
                    let _ = self.objectives.insert(name.clone(), objective);
                    assert(self@.objectives.dom() =~= before.objectives.dom());
                    true
                } else {
                    false
                }
            },
            (ObjectiveAction::Remove, _) => {
                let removed = self.objectives.remove(&name).is_some();
                let ghost other_slot = |s: DisplaySlot, o: String| o@ != name@;
                let ghost other_score = |k: (Seq<char>, Seq<char>), v: Arc<Score>| k.0 != name@;
                detached_slots = self.display_slots.retain(Shows { name: &name });
                removed_scores = self.scores.retain(Counts { name: &name });
                proof {
                    lemma_kept(before.slots, other_slot);
                    lemma_kept(before.scores, other_score);
                    assert(self@.objectives.dom() =~= before.objectives.dom().remove(name@));
                    assert(self@ =~= before.without_objective(name@));
                }
                removed || detached_slots != 0 || removed_scores != 0
            },
            _ => false,
        };
        let current = match self.objectives.get(&name) {
            Some(objective) => Some(share(objective)),
            None => None,
        };
        ScoreboardEvent::ObjectiveChanged {
            name,
            action,
            current,
            detached_slots,
            removed_scores,
            applied,
        }
    }

    fn apply_display_slot(&mut self, slot: DisplaySlot, objective: Option<String>) -> (event:
        ScoreboardEvent)
        requires
            old(self).valid(),
        ensures
            final(self).valid(),
            slot_outcome(old(self)@, final(self)@, event, slot, objective),
    {
        let ghost before = self@;
        let applied = match objective {
            None => {
                let gone = self.display_slots.remove(&slot).is_some();
                assert(self@.slots.dom() =~= before.slots.dom().remove(slot));
                gone
            },
            Some(name) => {
                if !self.objectives.contains(&name) {
                    false
                } else if !self.display_slots.contains(&slot) && self.display_slots.len()
                    >= MAX_DISPLAY_SLOTS {
                    false
                } else {
                    let _ = self.display_slots.insert(slot, name);
                    assert(self@.slots.dom() =~= before.slots.dom().insert(slot));
                    true
                }
            },
        };
        let objective = match self.display_slots.get(&slot) {
            Some(name) => Some(name.clone()),
            None => None,
        };
        ScoreboardEvent::DisplaySlotChanged { slot, objective, applied }
    }

    fn apply_score(&mut self, score: Score) -> (event: ScoreboardEvent)
        requires
            old(self).valid(),
        ensures
            final(self).valid(),
            score_outcome(old(self)@, final(self)@, event, score),
    {
        let ghost before = self@;
        let owner = score.owner.clone();
        let objective = score.objective.clone();
        let key = ScoreKey::new(owner.clone(), objective.clone());
        let applied = if self.objectives.contains(&objective) && (self.scores.contains(&key)
            || self.scores.len() < MAX_SCORES) {
            let _ = self.scores.insert(key.duplicate(), Arc::new(score));
            assert(self@.scores.dom() =~= before.scores.dom().insert(key.key()));
            true
        } else {
            false
        };
        let current = match self.scores.get(&key) {
            Some(score) => Some(share(score)),
            None => None,
        };
        ScoreboardEvent::ScoreChanged {
            owner,
            objective: Some(objective),
            action: ScoreAction::Assign,
            current,
            affected: if applied {
                1
            } else {
                0
            },
            applied,
        }
    }

    fn apply_score_reset(&mut self, owner: String, objective: Option<String>) -> (event:
        ScoreboardEvent)
        requires
            old(self).valid(),
        ensures
            final(self).valid(),
            reset_outcome(old(self)@, final(self)@, event, owner, objective),
    {
        let ghost before = self@;
        let affected: usize = match &objective {
            Some(objective) => {
                let key = ScoreKey::new(owner.clone(), objective.clone());
                let gone = self.scores.remove(&key).is_some();
                proof {
                    let k = (objective@, owner@);
                    assert(before.scores.remove(k).dom() =~= before.scores.dom().remove(k));
                    assert(self@.scores == before.scores.remove(k));
                }
                if gone {
                    1
                } else {
                    0
                }
            },
            None => {
                let ghost other = |k: (Seq<char>, Seq<char>), v: Arc<Score>| k.1 != owner@;
                let n = self.scores.retain(Owned { name: &owner });
                proof {
                    lemma_kept(before.scores, other);
                    assert(self@.scores =~= kept(before.scores, other));
                }
                n
            },
        };
        proof {
            assert(self@ =~= before.score_reset(owner@, objective));
            assert(affected == before.scores.len() - self@.scores.len());
        }
        ScoreboardEvent::ScoreChanged {
            owner,
            objective,
            action: ScoreAction::Reset,
            current: None,
            affected,
            applied: affected != 0,
        }
    }

    /// Applies an update of a team. Nobody is ever in two teams.
    pub fn apply_team(&mut self, update: TeamUpdate) -> (event: ScoreboardEvent)
        requires
            old(self).valid(),
        ensures
            final(self).valid(),
            team_outcome(old(self)@, *final(self), event, update),
            members_agree(*final(self)),
            forall|x: Seq<char>| #[trigger] member_moved(*old(self), update, *final(self), x),
    {
        let event = self.change_team(update);
        proof {
            law_members_belong_to_one_team(*self);
            assert forall|x: Seq<char>| #[trigger]
                member_moved(*old(self), update, *self, x) by {
                law_team_updates_move_members(*old(self), update, *self, event, x);
            }
        }
        event
    }

    fn change_team(&mut self, update: TeamUpdate) -> (event: ScoreboardEvent)
        requires
            old(self).valid(),
        ensures
            final(self).valid(),
            team_outcome(old(self)@, *final(self), event, update),
    {
        let ghost before = self@;
        match update {
            TeamUpdate::Create { name, definition, members } => {
                if !self.teams.contains(&name) && self.team_count() >= MAX_TEAMS {
                    let rejected: usize = members.len();
                    self.team_event(name, TeamAction::Create, false, 0, rejected)
                } else {
                    let _ = self.remove_team_members(&name);
                    let ghost mid = *self;
                    let team = definition.into_team(name.clone(), SortedMap::new());
                    let ghost blank = team;
                    let _ = self.teams.insert(name.clone(), team);
                    proof {
                        lemma_team_replaced(mid.teams@, mid.member_teams@, name@, blank);
                        assert(self@.teams =~= before.teams.insert(name@, definition.named(name)));
                        assert(self@.teams.dom() =~= before.teams.dom().insert(name@));
                        assert(self@.membership =~= disbanded(before.membership, name@));
                    }
                    let (affected, rejected) = self.add_team_members(&name, &members);
                    self.team_event(name, TeamAction::Create, true, affected, rejected)
                }
            },
            TeamUpdate::Remove { name } => {
                let affected: usize = self.remove_team_members(&name);
                let ghost mid = *self;
                let applied = self.teams.remove(&name).is_some();
                proof {
                    assert(self@.teams =~= before.teams.remove(name@));
                    assert(self@.teams.dom() =~= before.teams.dom().remove(name@));
                    assert(self@.membership =~= disbanded(before.membership, name@));
                    assert forall|x: Seq<char>| #[trigger] self.member_teams@.contains_key(
                        x,
                    ) implies self.member_teams@[x]@ != name@ by {
                        assert(disbanded(before.membership, name@).contains_key(x));
                    }
                    assert forall|x: Seq<char>| #[trigger]
                        self@.membership.contains_key(x) implies self@.teams.contains_key(
                        self@.membership[x],
                    ) by {
                        assert(mid@.membership.contains_key(x));
                    }
                }
                self.team_event(name, TeamAction::Remove, applied, affected, 0)
            },
            TeamUpdate::Update { name, definition } => {
                match self.teams.insert_over(&name, Team::blank()) {
                    Some(team) => {
                        let ghost members = team.members@;
                        let updated = definition.into_team(name.clone(), team.members);
                        let ghost done = updated;
                        let _ = self.teams.insert(name.clone(), updated);
                        proof {
                            assert(self@.teams =~= before.teams.insert(
                                name@,
                                definition.named(name),
                            ));
                            assert(self@.teams.dom() =~= before.teams.dom());
                            assert(self@.membership =~= before.membership);
                        }
                        self.team_event(name, TeamAction::Update, true, 0, 0)
                    },
                    None => self.team_event(name, TeamAction::Update, false, 0, 0),
                }
            },
            TeamUpdate::AddMembers { name, members } => {
                if !self.teams.contains(&name) {
                    let rejected: usize = members.len();
                    self.team_event(name, TeamAction::AddMembers, false, 0, rejected)
                } else {
                    let (affected, rejected) = self.add_team_members(&name, &members);
                    self.team_event(
                        name,
                        TeamAction::AddMembers,
                        affected != 0,
                        affected,
                        rejected,
                    )
                }
            },
            TeamUpdate::RemoveMembers { name, members } => {
                if !self.teams.contains(&name) {
                    let rejected: usize = members.len();
                    self.team_event(name, TeamAction::RemoveMembers, false, 0, rejected)
                } else {
                    let affected: usize = self.remove_named_team_members(&name, &members);
                    self.team_event(name, TeamAction::RemoveMembers, affected != 0, affected, 0)
                }
            },
            TeamUpdate::Unknown { name, mode } => self.team_event(
                name,
                TeamAction::Unknown(mode),
                false,
                0,
                0,
            ),
        }
    }

    /// Number of teams.
    fn team_count(&self) -> (n: usize)
        ensures
            n == self@.teams.len(),
    {
        assert(self@.teams.dom() =~= self.teams@.dom());
        self.teams.len()
    }

    fn team_event(
        &self,
        name: String,
        action: TeamAction,
        applied: bool,
        affected_members: usize,
        rejected_members: usize,
    ) -> (event: ScoreboardEvent)
        requires
            self.valid(),
        ensures
            event matches ScoreboardEvent::TeamChanged {
                name: n,
                action: a,
                current,
                affected_members: am,
                rejected_members: rm,
                applied: ap,
            } && n == name && a == action && am == affected_members && rm == rejected_members && ap
                == applied && current_team(*self, name@, current),
    {
        let current = match self.teams.get(&name) {
            Some(team) => Some(Box::new(team.copy())),
            None => None,
        };
        ScoreboardEvent::TeamChanged {
            current,
            name,
            action,
            affected_members,
            rejected_members,
            applied,
        }
    }

    /// Puts a member into the list of a team.
    fn list_member(&mut self, team_name: &String, member: String)
        requires
            old(self).teams@.contains_key(team_name@),
        ensures
            final(self).teams@.dom() == old(self).teams@.dom(),
            final(self).teams@[team_name@]@ == old(self).teams@[team_name@]@,
            final(self).teams@[team_name@].members@ == old(self).teams@[team_name@].members@.insert(
                member@,
                (),
            ),
            forall|t: Seq<char>|
                #![trigger final(self).teams@[t]]
                t != team_name@ ==> final(self).teams@[t] == old(self).teams@[t],
            final(self).objectives == old(self).objectives,
            final(self).display_slots == old(self).display_slots,
            final(self).scores == old(self).scores,
            final(self).member_teams == old(self).member_teams,
    {
        match self.teams.insert_over(team_name, Team::blank()) {
            Some(mut team) => {
                let _ = team.members.insert(member, ());
                let _ = self.teams.insert(team_name.clone(), team);
                assert(self.teams@.dom() =~= old(self).teams@.dom());
            },
            None => {},
        }
    }

    /// Takes a member out of the list of a team.
    fn unlist_member(&mut self, team_name: &String, member: &String)
        requires
            old(self).teams@.contains_key(team_name@),
        ensures
            final(self).teams@.dom() == old(self).teams@.dom(),
            final(self).teams@[team_name@]@ == old(self).teams@[team_name@]@,
            final(self).teams@[team_name@].members@ == old(self).teams@[team_name@].members@.remove(
                member@,
            ),
            forall|t: Seq<char>|
                #![trigger final(self).teams@[t]]
                t != team_name@ ==> final(self).teams@[t] == old(self).teams@[t],
            final(self).objectives == old(self).objectives,
            final(self).display_slots == old(self).display_slots,
            final(self).scores == old(self).scores,
            final(self).member_teams == old(self).member_teams,
    {
        match self.teams.insert_over(team_name, Team::blank()) {
            Some(mut team) => {
                let _ = team.members.remove(member);
                let _ = self.teams.insert(team_name.clone(), team);
                assert(self.teams@.dom() =~= old(self).teams@.dom());
            },
            None => {},
        }
    }

    /// Moves one entry to a team; whether it moved, and whether it was turned
    /// away.
    fn join(&mut self, team_name: &String, member: &String) -> (counts: (usize, usize))
        requires
            old(self).valid(),
            old(self)@.teams.contains_key(team_name@),
        ensures
            final(self).valid(),
            ({
                let (after, moved, refused) = joined(
                    old(self)@.membership,
                    team_name@,
                    member@,
                );
                &&& final(self)@ == (ScoreboardModel { membership: after, ..old(self)@ })
                &&& counts.0 == moved
                &&& counts.1 == refused
            }),
    {
        let ghost before = *self;
        let ghost m = self@;
        proof {
            assert(m.membership.dom() =~= self.member_teams@.dom());
        }
        match self.member_teams.get(member) {
            Some(team) => {
                if same_text(team.as_str(), team_name.as_str()) {
                    return (0, 0);
                }
            },
            None => {
                if self.member_teams.len() >= MAX_TEAM_MEMBERS {
                    return (0, 1);
                }
            },
        }
        match self.member_teams.insert(member.clone(), team_name.clone()) {
            Some(previous) => {
                self.unlist_member(&previous, member);
            },
            None => {},
        }
        let ghost mid = *self;
        self.list_member(team_name, member.clone());
        proof {
            assert(self@.membership =~= m.membership.insert(member@, team_name@));
            assert(self@.membership.dom() =~= m.membership.dom().insert(member@));
            assert(self@.teams =~= m.teams);
            assert(self@.teams.dom() =~= m.teams.dom());
            let teams = self.teams@;
            let index = self.member_teams@;
            assert forall|x: Seq<char>| #[trigger] index.contains_key(x) implies teams.contains_key(
                index[x]@,
            ) && teams[index[x]@].members@.contains_key(x) by {
                if x != member@ {
                    assert(before.member_teams@.contains_key(x));
                    assert(before.teams@[index[x]@].members@.contains_key(x));
                }
            }
            assert forall|t: Seq<char>, x: Seq<char>|
                teams.contains_key(t) && #[trigger] teams[t].members@.contains_key(
                    x,
                ) implies index.contains_key(x) && index[x]@ == t by {
                if x != member@ {
                    assert(before.teams@[t].members@.contains_key(x));
                } else if t != team_name@ {
                    assert(mid.teams@[t].members@.contains_key(x));
                    if before.teams@[t].members@.contains_key(x) {
                        assert(before.member_teams@[x]@ == t);
                    }
                }
            }
        }
        (1, 0)
    }

    fn add_team_members(&mut self, team_name: &String, members: &Vec<String>) -> (counts: (
        usize,
        usize,
    ))
        requires
            old(self).valid(),
            old(self)@.teams.contains_key(team_name@),
        ensures
            final(self).valid(),
            ({
                let (after, moved, refused) = all_joined(
                    old(self)@.membership,
                    team_name@,
                    members@,
                );
                &&& final(self)@ == (ScoreboardModel { membership: after, ..old(self)@ })
                &&& counts.0 == moved
                &&& counts.1 == refused
            }),
    {
        let ghost m = self@;
        let mut affected: usize = 0;
        let mut rejected: usize = 0;
        let mut i: usize = 0;
        assert(members@.take(0) =~= Seq::<String>::empty());
        while i < members.len()
            invariant
                i <= members@.len(),
                m.valid(),
                self.valid(),
                m.teams.contains_key(team_name@),
                affected + rejected <= i,
                ({
                    let (after, moved, refused) = all_joined(
                        m.membership,
                        team_name@,
                        members@.take(i as int),
                    );
                    &&& self@ == (ScoreboardModel { membership: after, ..m })
                    &&& affected == moved
                    &&& rejected == refused
                }),
            decreases members@.len() - i,
        {
            assert(members@.take(i + 1).drop_last() =~= members@.take(i as int));
            let (moved, refused) = self.join(team_name, &members[i]);
            affected += moved;
            rejected += refused;
            i += 1;
        }
        assert(members@.take(members@.len() as int) =~= members@);
        (affected, rejected)
    }

    /// Takes one entry out of a team; whether it was in it.
    fn leave(&mut self, team_name: &String, member: &String) -> (gone: bool)
        requires
            old(self).valid(),
        ensures
            final(self).valid(),
            gone == (old(self)@.membership.contains_key(member@) && old(self)@.membership[member@]
                == team_name@),
            final(self)@ == (ScoreboardModel {
                membership: if gone {
                    old(self)@.membership.remove(member@)
                } else {
                    old(self)@.membership
                },
                ..old(self)@
            }),
    {
        let ghost before = *self;
        let ghost m = self@;
        let here = match self.member_teams.get(member) {
            Some(team) => same_text(team.as_str(), team_name.as_str()),
            None => false,
        };
        if !here {
            return false;
        }
        proof {
            assert(before.teams@.contains_key(before.member_teams@[member@]@));
        }
        let _ = self.member_teams.remove(member);
        self.unlist_member(team_name, member);
        proof {
            assert(self@.membership =~= m.membership.remove(member@));
            assert(self@.membership.dom() =~= m.membership.dom().remove(member@));
            assert(self@.teams =~= m.teams);
            assert(self@.teams.dom() =~= m.teams.dom());
            let teams = self.teams@;
            let index = self.member_teams@;
            assert forall|x: Seq<char>| #[trigger] index.contains_key(x) implies teams.contains_key(
                index[x]@,
            ) && teams[index[x]@].members@.contains_key(x) by {
                assert(before.member_teams@.contains_key(x));
                assert(before.teams@[index[x]@].members@.contains_key(x));
            }
            assert forall|t: Seq<char>, x: Seq<char>|
                teams.contains_key(t) && #[trigger] teams[t].members@.contains_key(
                    x,
                ) implies index.contains_key(x) && index[x]@ == t by {
                assert(before.teams@[t].members@.contains_key(x));
            }
        }
        true
    }

    /// Takes every member out of a team; how many there were.
    fn remove_team_members(&mut self, team_name: &String) -> (affected: usize)
        requires
            old(self).valid(),
        ensures
            final(self).valid(),
            final(self)@ == (ScoreboardModel {
                membership: disbanded(old(self)@.membership, team_name@),
                ..old(self)@
            }),
            affected == old(self)@.team_size(team_name@),
            final(self).teams@.contains_key(team_name@) ==> final(self).teams@[team_name@].members@ == Map::<Seq<char>, ()>::empty(),
    {
        let ghost before = *self;
        let ghost m = self@;
        let ghost others = |x: Seq<char>, t: String| t@ != team_name@;
        let affected: usize = self.member_teams.retain(Belongs { name: team_name });
        proof {
            assert(self@.membership =~= disbanded(m.membership, team_name@));
            assert(self@.membership.dom() =~= self.member_teams@.dom());
            assert(m.membership.dom() =~= before.member_teams@.dom());
            lemma_kept(m.membership, |x: Seq<char>, t: Seq<char>| t != team_name@);
        }
        match self.teams.insert_over(team_name, Team::blank()) {
            Some(mut team) => {
                team.members.clear();
                let _ = self.teams.insert(team_name.clone(), team);
            },
            None => {},
        }
        proof {
            assert(self@.teams =~= m.teams);
            assert(self@.teams.dom() =~= m.teams.dom());
            let teams = self.teams@;
            let index = self.member_teams@;
            assert forall|x: Seq<char>| #[trigger] index.contains_key(x) implies teams.contains_key(
                index[x]@,
            ) && teams[index[x]@].members@.contains_key(x) by {
                assert(before.member_teams@.contains_key(x));
                assert(before.teams@[index[x]@].members@.contains_key(x));
            }
            assert forall|t: Seq<char>, x: Seq<char>|
                teams.contains_key(t) && #[trigger] teams[t].members@.contains_key(
                    x,
                ) implies index.contains_key(x) && index[x]@ == t by {
                assert(before.teams@[t].members@.contains_key(x));
                assert(before.member_teams@.contains_key(x));
            }
            assert forall|x: Seq<char>| #[trigger]
                self@.membership.contains_key(x) implies self@.teams.contains_key(
                self@.membership[x],
            ) by {
                assert(m.membership.contains_key(x));
            }
        }
        affected
    }

    fn remove_named_team_members(&mut self, team_name: &String, members: &Vec<String>) -> (affected:
        usize)
        requires
            old(self).valid(),
        ensures
            final(self).valid(),
            ({
                let (after, n) = all_left(old(self)@.membership, team_name@, members@);
                &&& final(self)@ == (ScoreboardModel { membership: after, ..old(self)@ })
                &&& affected == n
            }),
    {
        let ghost m = self@;
        let mut affected: usize = 0;
        let mut i: usize = 0;
        assert(members@.take(0) =~= Seq::<String>::empty());
        while i < members.len()
            invariant
                i <= members@.len(),
                self.valid(),
                affected <= i,
                ({
                    let (after, n) = all_left(m.membership, team_name@, members@.take(i as int));
                    &&& self@ == (ScoreboardModel { membership: after, ..m })
                    &&& affected == n
                }),
            decreases members@.len() - i,
        {
            assert(members@.take(i + 1).drop_last() =~= members@.take(i as int));
            if self.leave(team_name, &members[i]) {
                affected += 1;
            }
            i += 1;
        }
        assert(members@.take(members@.len() as int) =~= members@);
        affected
    }
}

impl Default for ScoreboardState {
    fn default() -> (s: Self)
        ensures
            s.valid(),
            s@ == ScoreboardModel::empty(),
    {
        ScoreboardState::new()
    }
}

/// A team without members can be put in place of one without members.
proof fn lemma_team_replaced(
    teams: Map<Seq<char>, Team>,
    index: Map<Seq<char>, String>,
    name: Seq<char>,
    team: Team,
)
    requires
        consistent(teams, index),
        team.members@ == Map::<Seq<char>, ()>::empty(),
        forall|x: Seq<char>| #[trigger] index.contains_key(x) ==> index[x]@ != name,
    ensures
        consistent(teams.insert(name, team), index),
{
    let after = teams.insert(name, team);
    assert forall|x: Seq<char>| #[trigger] index.contains_key(x) implies after.contains_key(
        index[x]@,
    ) && after[index[x]@].members@.contains_key(x) by {
        assert(teams[index[x]@].members@.contains_key(x));
    }
    assert forall|t: Seq<char>, x: Seq<char>|
        after.contains_key(t) && #[trigger] after[t].members@.contains_key(x) implies index.contains_key(
        x,
    ) && index[x]@ == t by {
        if t != name {
            assert(teams[t].members@.contains_key(x));
        }
    }
}

/// What an objective update did and reported.
pub open spec fn objective_outcome(
    before: ScoreboardModel,
    after: ScoreboardModel,
    event: ScoreboardEvent,
    name: String,
    action: ObjectiveAction,
    definition: Option<ObjectiveDefinition>,
) -> bool {
    let (m, applied) = before.objective_updated(name, action, definition);
    &&& after == m
    &&& event == (ScoreboardEvent::ObjectiveChanged {
        name,
        action,
        current: value_of(m.objectives, name@),
        detached_slots: (before.slots.len() - m.slots.len()) as usize,
        removed_scores: (before.scores.len() - m.scores.len()) as usize,
        applied,
    })
}

/// What a display-slot update did and reported.
pub open spec fn slot_outcome(
    before: ScoreboardModel,
    after: ScoreboardModel,
    event: ScoreboardEvent,
    slot: DisplaySlot,
    objective: Option<String>,
) -> bool {
    let (m, applied) = before.slot_set(slot, objective);
    &&& after == m
    &&& event == (ScoreboardEvent::DisplaySlotChanged {
        slot,
        objective: value_of(m.slots, slot),
        applied,
    })
}

/// What a score update did and reported.
pub open spec fn score_outcome(
    before: ScoreboardModel,
    after: ScoreboardModel,
    event: ScoreboardEvent,
    score: Score,
) -> bool {
    let (m, applied) = before.score_set(score);
    &&& after == m
    &&& event == (ScoreboardEvent::ScoreChanged {
        owner: score.owner,
        objective: Some(score.objective),
        action: ScoreAction::Assign,
        current: value_of(m.scores, (score.objective@, score.owner@)),
        affected: if applied {
            1
        } else {
            0
        },
        applied,
    })
}

/// What a score reset did and reported.
pub open spec fn reset_outcome(
    before: ScoreboardModel,
    after: ScoreboardModel,
    event: ScoreboardEvent,
    owner: String,
    objective: Option<String>,
) -> bool {
    let m = before.score_reset(owner@, objective);
    let affected = before.scores.len() - m.scores.len();
    &&& after == m
    &&& event == (ScoreboardEvent::ScoreChanged {
        owner,
        objective,
        action: ScoreAction::Reset,
        current: None,
        affected: affected as usize,
        applied: affected != 0,
    })
}

/// The current state of a team, in a report.
pub open spec fn current_team(state: ScoreboardState, name: Seq<char>, current: Option<Box<Team>>) -> bool {
    match current {
        Some(team) => {
            &&& state@.teams.contains_key(name)
            &&& team@ == state@.teams[name]
            &&& forall|x: Seq<char>| #[trigger]
                team.members@.contains_key(x) <==> (state@.membership.contains_key(x)
                    && state@.membership[x] == name)
        },
        None => !state@.teams.contains_key(name),
    }
}

/// What a team update did and reported.
pub open spec fn team_outcome(
    before: ScoreboardModel,
    after: ScoreboardState,
    event: ScoreboardEvent,
    update: TeamUpdate,
) -> bool {
    let r = before.team_updated(update);
    &&& after@ == r.after
    &&& event matches ScoreboardEvent::TeamChanged {
        name,
        action,
        current,
        affected_members,
        rejected_members,
        applied,
    } && name == update.team() && action == update.kind() && affected_members == r.affected
        && rejected_members == r.rejected && applied == r.applied && current_team(
        after,
        name@,
        current,
    )
}

/// A field that only some modes of a packet carry.
pub enum Switched<T> {
    V0(T),
    V2(T),
    Default,
}

impl<T> Switched<T> {
    /// The value, where there is one.
    pub open spec fn value(self) -> Option<T> {
        match self {
            Switched::V0(v) => Some(v),
            Switched::V2(v) => Some(v),
            Switched::Default => None,
        }
    }
}

/// Number styling that only some formats carry.
pub enum Styling {
    V1(Nbt),
    V2(Nbt),
    Default,
}

impl Styling {
    /// The styling, where there is one.
    pub open spec fn value(self) -> Option<Nbt> {
        match self {
            Styling::V1(v) => Some(v),
            Styling::V2(v) => Some(v),
            Styling::Default => None,
        }
    }
}

/// The entries that a team packet names, in the modes that name any.
pub enum PacketTeamsPlayers {
    V0(Vec<String>),
    V3(Vec<String>),
    V4(Vec<String>),
    Default,
}

impl PacketTeamsPlayers {
    /// The entries, where the packet names any.
    pub open spec fn value(self) -> Option<Vec<String>> {
        match self {
            PacketTeamsPlayers::V0(v) => Some(v),
            PacketTeamsPlayers::V3(v) => Some(v),
            PacketTeamsPlayers::V4(v) => Some(v),
            PacketTeamsPlayers::Default => None,
        }
    }
}

/// An objective, as sent.
pub struct PacketScoreboardObjective {
    pub name: String,
    pub action: i8,
    pub display_text: Switched<Nbt>,
    pub kind: Switched<i32>,
    pub number_format: Switched<Option<i32>>,
    pub styling: Switched<Styling>,
}

/// A display slot, as sent.
pub struct PacketScoreboardDisplayObjective {
    pub position: i32,
    pub name: String,
}

/// A score, as sent.
pub struct PacketScoreboardScore {
    pub item_name: String,
    pub score_name: String,
    pub value: i32,
    pub display_name: Option<Nbt>,
    pub number_format: Option<i32>,
    pub styling: Styling,
}

/// A score reset, as sent.
pub struct PacketResetScore {
    pub entity_name: String,
    pub objective_name: Option<String>,
}

/// A team, as sent.
pub struct PacketTeams {
    pub team: String,
    pub mode: i8,
    pub name: Switched<Nbt>,
    pub friendly_fire: Switched<i8>,
    pub name_tag_visibility: Switched<String>,
    pub collision_rule: Switched<String>,
    pub formatting: Switched<i32>,
    pub prefix: Switched<Nbt>,
    pub suffix: Switched<Nbt>,
    pub players: PacketTeamsPlayers,
}

/// The packets that carry scoreboard data, as sent.
pub enum ScoreboardPacket {
    Objective(PacketScoreboardObjective),
    DisplayObjective(PacketScoreboardDisplayObjective),
    Score(PacketScoreboardScore),
    ResetScore(PacketResetScore),
    Teams(PacketTeams),
}

/// Whether a component is what a tag says.
pub open spec fn says(c: TextComponent, tag: Nbt) -> bool {
    c@ == nbt_component(tag, fresh_budget(), 0).0
}

/// Whether a number format is what a packet says.
pub open spec fn format_of(kind: Option<i32>, styling: Option<Nbt>, f: Option<NumberFormat>) -> bool {
    match (kind, styling) {
        (None, _) => f is None,
        (Some(0), _) => f == Some(NumberFormat::Blank),
        (Some(1), Some(tag)) => f == Some(NumberFormat::Styled(tag)),
        (Some(2), Some(tag)) => f matches Some(NumberFormat::Fixed(text)) && says(*text, tag),
        (Some(k), styling) => f == Some(NumberFormat::Unknown { kind: k, styling }),
    }
}

/// Whether a definition is what an objective packet says.
pub open spec fn objective_of(
    p: PacketScoreboardObjective,
    d: Option<ObjectiveDefinition>,
) -> bool {
    match (p.display_text.value(), p.kind.value(), p.number_format.value()) {
        (Some(text), Some(kind), Some(format)) => d matches Some(d) && says(*d.display_name, text)
            && d.render_type == render_type_numbered(kind) && format_of(
            format,
            match p.styling.value() {
                Some(s) => s.value(),
                None => None,
            },
            d.number_format,
        ),
        _ => d is None,
    }
}

/// Whether a definition is what a team packet says.
pub open spec fn team_of(p: PacketTeams, d: Option<TeamDefinition>) -> bool {
    if p.name.value() is Some && p.friendly_fire.value() is Some
        && p.name_tag_visibility.value() is Some && p.collision_rule.value() is Some
        && p.formatting.value() is Some && p.prefix.value() is Some && p.suffix.value() is Some {
        d matches Some(d) && says(*d.display_name, p.name.value()->0) && d.friendly_fire.raw
            == p.friendly_fire.value()->0 as u8 && d.name_tag_visibility == visibility_named(
            p.name_tag_visibility.value()->0,
        ) && d.collision_rule == rule_named(p.collision_rule.value()->0) && d.color
            == color_numbered(p.formatting.value()->0) && says(*d.prefix, p.prefix.value()->0)
            && says(*d.suffix, p.suffix.value()->0)
    } else {
        d is None
    }
}

/// Whether an update is what a team packet says.
pub open spec fn team_update_of(p: PacketTeams, u: TeamUpdate) -> bool {
    let unknown = u == (TeamUpdate::Unknown { name: p.team, mode: p.mode });
    if p.mode == 0 {
        match (u, p.players.value()) {
            (TeamUpdate::Create { name, definition, members }, Some(players)) => name == p.team
                && members == players && team_of(p, Some(definition)),
            _ => unknown && (p.players.value() is None || team_of(p, None)),
        }
    } else if p.mode == 1 {
        u == (TeamUpdate::Remove { name: p.team })
    } else if p.mode == 2 {
        match u {
            TeamUpdate::Update { name, definition } => name == p.team && team_of(
                p,
                Some(definition),
            ),
            _ => unknown && team_of(p, None),
        }
    } else if p.mode == 3 {
        match p.players.value() {
            Some(members) => u == (TeamUpdate::AddMembers { name: p.team, members }),
            None => unknown,
        }
    } else if p.mode == 4 {
        match p.players.value() {
            Some(members) => u == (TeamUpdate::RemoveMembers { name: p.team, members }),
            None => unknown,
        }
    } else {
        unknown
    }
}

/// Whether an update is what a packet says.
pub open spec fn scoreboard_update_of(p: ScoreboardPacket, u: ScoreboardUpdate) -> bool {
    match (p, u) {
        (
            ScoreboardPacket::Objective(p),
            ScoreboardUpdate::Objective { name, action, definition },
        ) => name == p.name && action == objective_action_numbered(p.action) && objective_of(
            p,
            definition,
        ),
        (
            ScoreboardPacket::DisplayObjective(p),
            ScoreboardUpdate::DisplaySlot { slot, objective },
        ) => slot == slot_numbered(p.position) && objective == if p.name@.len() == 0 {
            None
        } else {
            Some(p.name)
        },
        (ScoreboardPacket::Score(p), ScoreboardUpdate::SetScore(s)) => {
            &&& s.owner == p.item_name
            &&& s.objective == p.score_name
            &&& s.value == p.value
            &&& match (p.display_name, s.display_name) {
                (Some(tag), Some(c)) => says(c, tag),
                (None, None) => true,
                _ => false,
            }
            &&& format_of(p.number_format, p.styling.value(), s.number_format)
        },
        (ScoreboardPacket::ResetScore(p), ScoreboardUpdate::ResetScore { owner, objective }) =>
            owner == p.entity_name && objective == p.objective_name,
        (ScoreboardPacket::Teams(p), ScoreboardUpdate::Team(u)) => team_update_of(p, u),
        _ => false,
    }
}

/// Turns a scoreboard or team packet into the update it asks for.
pub fn decode_update(packet: ScoreboardPacket) -> (update: ScoreboardUpdate)
    ensures
        scoreboard_update_of(packet, update),
{
    match packet {
        ScoreboardPacket::Objective(packet) => {
            let action = ObjectiveAction::from(packet.action);
            let definition = objective_definition(&packet);
            ScoreboardUpdate::Objective { name: packet.name, action, definition }
        },
        ScoreboardPacket::DisplayObjective(packet) => {
            let slot = DisplaySlot::from(packet.position);
            if packet.name.as_str().is_empty() {
                ScoreboardUpdate::DisplaySlot { slot, objective: None }
            } else {
                ScoreboardUpdate::DisplaySlot { slot, objective: Some(packet.name) }
            }
        },
        ScoreboardPacket::Score(packet) => {
            let display_name = match &packet.display_name {
                Some(tag) => Some(TextComponent::from_nbt(tag)),
                None => None,
            };
            let styling = score_styling(packet.styling);
            ScoreboardUpdate::SetScore(
                Score {
                    owner: packet.item_name,
                    objective: packet.score_name,
                    value: packet.value,
                    display_name,
                    number_format: number_format(packet.number_format, styling),
                },
            )
        },
        ScoreboardPacket::ResetScore(packet) => ScoreboardUpdate::ResetScore {
            owner: packet.entity_name,
            objective: packet.objective_name,
        },
        ScoreboardPacket::Teams(packet) => ScoreboardUpdate::Team(team_update(packet)),
    }
}

/// The definition that an objective packet carries, where it carries one.
pub fn objective_definition(packet: &PacketScoreboardObjective) -> (d: Option<ObjectiveDefinition>)
    ensures
        objective_of(*packet, d),
{
    let display_name = match &packet.display_text {
        Switched::V0(tag) => Arc::new(TextComponent::from_nbt(tag)),
        Switched::V2(tag) => Arc::new(TextComponent::from_nbt(tag)),
        Switched::Default => {
            return None;
        },
    };
    let kind: i32 = match &packet.kind {
        Switched::V0(kind) => *kind,
        Switched::V2(kind) => *kind,
        Switched::Default => {
            return None;
        },
    };
    let format: Option<i32> = match &packet.number_format {
        Switched::V0(format) => *format,
        Switched::V2(format) => *format,
        Switched::Default => {
            return None;
        },
    };
    Some(
        ObjectiveDefinition {
            display_name,
            render_type: ObjectiveRenderType::from(kind),
            number_format: number_format(format, objective_styling(&packet.styling)),
        },
    )
}

/// The styling that an objective packet carries, where it carries one.
pub fn objective_styling(styling: &Switched<Styling>) -> (s: Option<Nbt>)
    ensures
        s == match styling.value() {
            Some(s) => s.value(),
            None => None,
        },
{
    let inner = match styling {
        Switched::V0(inner) => inner,
        Switched::V2(inner) => inner,
        Switched::Default => {
            return None;
        },
    };
    match inner {
        Styling::V1(tag) => Some(tag.clone()),
        Styling::V2(tag) => Some(tag.clone()),
        Styling::Default => None,
    }
}

/// The styling that a score packet carries, where it carries one.
pub fn score_styling(styling: Styling) -> (s: Option<Nbt>)
    ensures
        s == styling.value(),
{
    match styling {
        Styling::V1(tag) => Some(tag),
        Styling::V2(tag) => Some(tag),
        Styling::Default => None,
    }
}

/// The number format that a kind and a styling make.
pub fn number_format(kind: Option<i32>, styling: Option<Nbt>) -> (f: Option<NumberFormat>)
    ensures
        format_of(kind, styling, f),
{
    match kind {
        None => None,
        Some(0) => Some(NumberFormat::Blank),
        Some(1) => Some(
            match styling {
                Some(tag) => NumberFormat::Styled(tag),
                None => NumberFormat::Unknown { kind: 1, styling: None },
            },
        ),
        Some(2) => Some(
            match styling {
                Some(tag) => NumberFormat::Fixed(Arc::new(TextComponent::from_nbt(&tag))),
                None => NumberFormat::Unknown { kind: 2, styling: None },
            },
        ),
        Some(kind) => Some(NumberFormat::Unknown { kind, styling }),
    }
}

/// The update that a team packet asks for. A mode whose fields are missing is
/// kept as unknown.
pub fn team_update(packet: PacketTeams) -> (u: TeamUpdate)
    ensures
        team_update_of(packet, u),
{
    let mode: i8 = packet.mode;
    match mode {
        0 => {
            let definition = team_definition(&packet);
            match (definition, team_players(packet.players)) {
                (Some(definition), Some(members)) => TeamUpdate::Create {
                    name: packet.team,
                    definition,
                    members,
                },
                _ => TeamUpdate::Unknown { name: packet.team, mode },
            }
        },
        1 => TeamUpdate::Remove { name: packet.team },
        2 => match team_definition(&packet) {
            Some(definition) => TeamUpdate::Update { name: packet.team, definition },
            None => TeamUpdate::Unknown { name: packet.team, mode },
        },
        3 => match team_players(packet.players) {
            Some(members) => TeamUpdate::AddMembers { name: packet.team, members },
            None => TeamUpdate::Unknown { name: packet.team, mode },
        },
        4 => match team_players(packet.players) {
            Some(members) => TeamUpdate::RemoveMembers { name: packet.team, members },
            None => TeamUpdate::Unknown { name: packet.team, mode },
        },
        _ => TeamUpdate::Unknown { name: packet.team, mode },
    }
}

/// A component out of a field that may be missing.
fn text_field(field: &Switched<Nbt>) -> (c: Option<Arc<TextComponent>>)
    ensures
        match (field.value(), c) {
            (Some(tag), Some(c)) => says(*c, tag),
            (None, None) => true,
            _ => false,
        },
{
    match field {
        Switched::V0(tag) => Some(Arc::new(TextComponent::from_nbt(tag))),
        Switched::V2(tag) => Some(Arc::new(TextComponent::from_nbt(tag))),
        Switched::Default => None,
    }
}

/// A text out of a field that may be missing.
fn name_field(field: &Switched<String>) -> (s: Option<String>)
    ensures
        s == field.value(),
{
    match field {
        Switched::V0(s) => Some(s.clone()),
        Switched::V2(s) => Some(s.clone()),
        Switched::Default => None,
    }
}

/// The definition that a team packet carries, where it carries all of it.
pub fn team_definition(packet: &PacketTeams) -> (d: Option<TeamDefinition>)
    ensures
        team_of(*packet, d),
{
    let display_name = match text_field(&packet.name) {
        Some(c) => c,
        None => {
            return None;
        },
    };
    let friendly_fire = match &packet.friendly_fire {
        Switched::V0(raw) => FriendlyFire { raw: *raw as u8 },
        Switched::V2(raw) => FriendlyFire { raw: *raw as u8 },
        Switched::Default => {
            return None;
        },
    };
    let name_tag_visibility = match name_field(&packet.name_tag_visibility) {
        Some(s) => NameTagVisibility::from(s),
        None => {
            return None;
        },
    };
    let collision_rule = match name_field(&packet.collision_rule) {
        Some(s) => CollisionRule::from(s),
        None => {
            return None;
        },
    };
    let color = match &packet.formatting {
        Switched::V0(value) => TeamColor::from(*value),
        Switched::V2(value) => TeamColor::from(*value),
        Switched::Default => {
            return None;
        },
    };
    let prefix = match text_field(&packet.prefix) {
        Some(c) => c,
        None => {
            return None;
        },
    };
    let suffix = match text_field(&packet.suffix) {
        Some(c) => c,
        None => {
            return None;
        },
    };
    Some(
        TeamDefinition {
            display_name,
            friendly_fire,
            name_tag_visibility,
            collision_rule,
            color,
            prefix,
            suffix,
        },
    )
}

/// The entries that a team packet names, where it names any.
pub fn team_players(players: PacketTeamsPlayers) -> (v: Option<Vec<String>>)
    ensures
        v == players.value(),
{
    match players {
        PacketTeamsPlayers::V0(v) => Some(v),
        PacketTeamsPlayers::V3(v) => Some(v),
        PacketTeamsPlayers::V4(v) => Some(v),
        PacketTeamsPlayers::Default => None,
    }
}

/// Every update keeps the bounds, and slots, scores and memberships only ever
/// name what exists.
pub proof fn law_updates_keep_validity(
    m: ScoreboardModel,
    name: String,
    action: ObjectiveAction,
    definition: Option<ObjectiveDefinition>,
    slot: DisplaySlot,
    shown: Option<String>,
    score: Score,
)
    requires
        m.valid(),
    ensures
        m.objective_updated(name, action, definition).0.valid(),
        m.slot_set(slot, shown).0.valid(),
        m.score_set(score).0.valid(),
        m.score_reset(score.owner@, shown).valid(),
{
    let a = m.objective_updated(name, action, definition).0;
    assert(m.objectives.insert(name@, arbitrary()).dom() =~= m.objectives.dom().insert(name@));
    lemma_kept(m.slots, |s: DisplaySlot, o: String| o@ != name@);
    lemma_kept(m.scores, |k: (Seq<char>, Seq<char>), v: Arc<Score>| k.0 != name@);
    lemma_kept(m.scores, |k: (Seq<char>, Seq<char>), v: Arc<Score>| k.1 != score.owner@);
    if let Some(d) = definition {
        assert(m.objectives.insert(name@, Arc::new(d.named(name))).dom()
            =~= m.objectives.dom().insert(name@));
    }
    assert(m.objectives.remove(name@).dom() =~= m.objectives.dom().remove(name@));
    assert(m.slots.remove(slot).dom() =~= m.slots.dom().remove(slot));
    if let Some(shown) = shown {
        assert(m.slots.insert(slot, shown).dom() =~= m.slots.dom().insert(slot));
        let k = (shown@, score.owner@);
        assert(m.scores.remove(k).dom() =~= m.scores.dom().remove(k));
    }
    let key = (score.objective@, score.owner@);
    assert(m.scores.insert(key, Arc::new(score)).dom() =~= m.scores.dom().insert(key));
}

/// Removing an objective leaves nothing of it: no slot shows it and no score
/// names it. What belongs to other objectives stays.
pub proof fn law_removing_an_objective_removes_its_slots_and_scores(
    m: ScoreboardModel,
    name: String,
    definition: Option<ObjectiveDefinition>,
    slot: DisplaySlot,
    key: (Seq<char>, Seq<char>),
)
    ensures
        ({
            let after = m.objective_updated(name, ObjectiveAction::Remove, definition).0;
            &&& !after.objectives.contains_key(name@)
            &&& after.slots.contains_key(slot) ==> after.slots[slot]@ != name@
            &&& after.scores.contains_key(key) ==> key.0 != name@
            &&& m.slots.contains_key(slot) && m.slots[slot]@ != name@ ==> after.slots.contains_key(
                slot,
            ) && after.slots[slot] == m.slots[slot]
            &&& m.scores.contains_key(key) && key.0 != name@ ==> after.scores.contains_key(key)
                && after.scores[key] == m.scores[key]
        }),
{
}

/// An entry that joins a team is in that team and in no other, whatever team it
/// was in before.
pub proof fn law_joining_moves_the_member(
    membership: Map<Seq<char>, Seq<char>>,
    team: Seq<char>,
    member: Seq<char>,
)
    requires
        membership.contains_key(member) || membership.len() < MAX_TEAM_MEMBERS,
    ensures
        joined(membership, team, member).0.contains_key(member),
        joined(membership, team, member).0[member] == team,
        forall|x: Seq<char>|
            x != member && #[trigger] membership.contains_key(x) ==> joined(
                membership,
                team,
                member,
            ).0.contains_key(x) && joined(membership, team, member).0[x] == membership[x],
{
}

/// Every state that is reached has each member in the one team that the index
/// gives it, and in no other.
pub proof fn law_members_belong_to_one_team(state: ScoreboardState)
    requires
        state.valid(),
    ensures
        members_agree(state),
        forall|x: Seq<char>, t: Seq<char>, u: Seq<char>|
            state.teams@.contains_key(t) && #[trigger] state.teams@[t].members@.contains_key(x)
                && state.teams@.contains_key(u) && #[trigger] state.teams@[u].members@.contains_key(
                x,
            ) ==> t == u,
{
}

/// Joining touches none but those who join, and they end up in the team unless
/// they were turned away.
proof fn lemma_joining_touches(
    membership: Map<Seq<char>, Seq<char>>,
    team: Seq<char>,
    members: Seq<String>,
    x: Seq<char>,
)
    ensures
        ({
            let after = all_joined(membership, team, members).0;
            if lists(members, x) {
                after.contains_key(x) ==> after[x] == team
            } else {
                after.contains_key(x) == membership.contains_key(x) && (membership.contains_key(x)
                    ==> after[x] == membership[x])
            }
        }),
    decreases members.len(),
{
    if members.len() > 0 {
        let short = members.drop_last();
        lemma_joining_touches(membership, team, short, x);
        if exists|i: int| 0 <= i < short.len() && (#[trigger] short[i])@ == x {
            let i = choose|i: int| 0 <= i < short.len() && (#[trigger] short[i])@ == x;
            assert(members[i]@ == x);
        } else if exists|i: int| 0 <= i < members.len() && (#[trigger] members[i])@ == x {
            let i = choose|i: int| 0 <= i < members.len() && (#[trigger] members[i])@ == x;
            assert(i == members.len() - 1) by {
                if i < short.len() {
                    assert(short[i]@ == x);
                }
            }
        } else {
            assert(members[members.len() - 1]@ != x);
        }
    }
}

/// A team update moves members as a whole: an update of a team keeps its members,
/// a removal frees them, a team that is made anew has none but those it is made
/// with, and one who joins a team is in no other.
pub proof fn law_team_updates_move_members(
    before: ScoreboardState,
    update: TeamUpdate,
    after: ScoreboardState,
    event: ScoreboardEvent,
    x: Seq<char>,
)
    requires
        before.valid(),
        after.valid(),
        team_outcome(before@, after, event, update),
    ensures
        member_moved(before, update, after, x),
{
    match update {
        TeamUpdate::Create { name, members, .. } => {
            lemma_joining_touches(disbanded(before@.membership, name@), name@, members@, x);
        },
        TeamUpdate::AddMembers { name, members } => {
            lemma_joining_touches(before@.membership, name@, members@, x);
            law_members_belong_to_one_team(after);
            if after@.membership.contains_key(x) {
                let t = after@.membership[x];
                assert(after.teams@[t].members@.contains_key(x));
            }
        },
        TeamUpdate::Remove { name } => {
            assert(!after@.teams.contains_key(name@));
        },
        _ => {},
    }
}

/// A team that is removed keeps no members.
pub proof fn law_removed_teams_have_no_members(m: ScoreboardModel, name: String, x: Seq<char>)
    ensures
        ({
            let after = m.team_updated(TeamUpdate::Remove { name }).after;
            after.membership.contains_key(x) ==> after.membership[x] != name@
        }),
{
}

/// What an update does to the scoreboard.
pub open spec fn scoreboard_outcome(
    before: ScoreboardModel,
    after: ScoreboardState,
    event: ScoreboardEvent,
    update: ScoreboardUpdate,
) -> bool {
    match update {
        ScoreboardUpdate::Objective { name, action, definition } => objective_outcome(
            before,
            after@,
            event,
            name,
            action,
            definition,
        ),
        ScoreboardUpdate::DisplaySlot { slot, objective } => slot_outcome(
            before,
            after@,
            event,
            slot,
            objective,
        ),
        ScoreboardUpdate::SetScore(score) => score_outcome(
            before,
            after@,
            event,
            score,
        ),
        ScoreboardUpdate::ResetScore { owner, objective } => reset_outcome(
            before,
            after@,
            event,
            owner,
            objective,
        ),
        ScoreboardUpdate::Team(update) => team_outcome(
            before,
            after,
            event,
            update,
        ),
    }
}

} // verus!
