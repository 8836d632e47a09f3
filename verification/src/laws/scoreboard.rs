//! Objectives, scores and teams.
use crate::minecraft::hud::lemma_flags;
use crate::minecraft::nbt::Nbt;
use crate::minecraft::scoreboard::{
    all_joined, all_left, color_numbered, decode_update, lists, number_format, objective_definition,
    objective_styling, rule_named, score_styling, slot_numbered, team_definition, team_update,
    visibility_named, DisplaySlot, FriendlyFire, NumberFormat, ObjectiveAction, ObjectiveDefinition,
    PacketScoreboardObjective, PacketTeams, PacketTeamsPlayers, Score, ScoreboardEvent,
    ScoreboardModel, ScoreboardPacket, ScoreboardState, ScoreboardUpdate, Styling, Switched,
    TeamDefinition, TeamUpdate,
};
use crate::minecraft::text::TextComponent;
use vstd::prelude::*;

verus! {

/// An objective that is created or updated is there under its name as defined; only
/// one that is there can be updated. Removing one takes its slots and scores along.
/// Other objectives stay.
pub proof fn law_objectives_are_kept_by_name(
    s: &mut ScoreboardState,
    name: String,
    action: ObjectiveAction,
    d: ObjectiveDefinition,
    event: ScoreboardEvent,
    other: Seq<char>,
    slot: DisplaySlot,
    key: (Seq<char>, Seq<char>),
)
    requires
        call_ensures(
            ScoreboardState::apply,
            (s, ScoreboardUpdate::Objective { name, action, definition: Some(d) }),
            event,
        ),
    ensures
        ({
            let (a, b) = (old(s)@, final(s)@);
            let set = (action is Create && (a.objectives.contains_key(name@) || a.objectives.len()
                < 256)) || (action is Update && a.objectives.contains_key(name@));
            &&& set ==> b.objectives.contains_key(name@) && b.objectives[name@].name == name
                && b.objectives[name@].display_name == d.display_name
                && b.objectives[name@].render_type == d.render_type
                && b.objectives[name@].number_format == d.number_format && b.slots == a.slots
                && b.scores == a.scores
            &&& !set && !(action is Remove) ==> b == a
            &&& action is Remove ==> {
                &&& !b.objectives.contains_key(name@)
                &&& b.slots.contains_key(slot) <==> a.slots.contains_key(slot) && a.slots[slot]@
                    != name@
                &&& b.scores.contains_key(key) <==> a.scores.contains_key(key) && key.0 != name@
            }
            &&& other != name@ ==> b.objectives.contains_key(other) == a.objectives.contains_key(
                other,
            ) && (a.objectives.contains_key(other) ==> b.objectives[other] == a.objectives[other])
            &&& b.teams == a.teams && b.membership == a.membership
        }),
{
}

/// A slot shows the objective that was set for it, where there is one of that name, and
/// nothing once it is cleared. Other slots stay.
pub proof fn law_slots_show_their_objective(
    s: &mut ScoreboardState,
    slot: DisplaySlot,
    objective: Option<String>,
    event: ScoreboardEvent,
    other: DisplaySlot,
)
    requires
        call_ensures(
            ScoreboardState::apply,
            (s, ScoreboardUpdate::DisplaySlot { slot, objective }),
            event,
        ),
    ensures
        ({
            let (a, b) = (old(s)@, final(s)@);
            &&& objective is None ==> !b.slots.contains_key(slot)
            &&& objective matches Some(name) ==> a.objectives.contains_key(name@) && (
            a.slots.contains_key(slot) || a.slots.len() < 64) ==> b.slots.contains_key(slot)
                && b.slots[slot] == name
            &&& objective matches Some(name) ==> !a.objectives.contains_key(name@) ==> b == a
            &&& other != slot ==> b.slots.contains_key(other) == a.slots.contains_key(other) && (
            a.slots.contains_key(other) ==> b.slots[other] == a.slots[other])
            &&& b == (ScoreboardModel { slots: b.slots, ..a })
        }),
{
}

/// A score is kept under its objective and its owner, where the objective is there. A
/// reset drops the owner's score of one objective or of all. Other scores stay.
pub proof fn law_scores_are_kept_by_objective_and_owner(
    a: &mut ScoreboardState,
    b: &mut ScoreboardState,
    score: Score,
    owner: String,
    objective: Option<String>,
    ae: ScoreboardEvent,
    be: ScoreboardEvent,
    key: (Seq<char>, Seq<char>),
)
    requires
        call_ensures(ScoreboardState::apply, (a, ScoreboardUpdate::SetScore(score)), ae),
        call_ensures(
            ScoreboardState::apply,
            (b, ScoreboardUpdate::ResetScore { owner, objective }),
            be,
        ),
    ensures
        ({
            let (was, now) = (old(a)@, final(a)@);
            let own = (score.objective@, score.owner@);
            &&& was.objectives.contains_key(score.objective@) && (was.scores.contains_key(own)
                || was.scores.len() < 16_384) ==> now.scores.contains_key(own) && *now.scores[own]
                == score
            &&& !was.objectives.contains_key(score.objective@) ==> now == was
            &&& key != own ==> now.scores.contains_key(key) == was.scores.contains_key(key) && (
            was.scores.contains_key(key) ==> now.scores[key] == was.scores[key])
            &&& now == (ScoreboardModel { scores: now.scores, ..was })
        }),
        ({
            let (was, now) = (old(b)@, final(b)@);
            let hit = key.1 == owner@ && (objective is None || objective->0@ == key.0);
            &&& now.scores.contains_key(key) <==> was.scores.contains_key(key) && !hit
            &&& now.scores.contains_key(key) ==> now.scores[key] == was.scores[key]
            &&& now == (ScoreboardModel { scores: now.scores, ..was })
        }),
{
}

/// A team has what its definition says under its name, and an update of it keeps the
/// members. Removing it leaves no one in it. Other teams stay.
pub proof fn law_teams_are_kept_by_name(
    s: &mut ScoreboardState,
    update: TeamUpdate,
    event: ScoreboardEvent,
    other: Seq<char>,
    x: Seq<char>,
)
    requires
        old(s).valid(),
        call_ensures(ScoreboardState::apply_team, (s, update), event),
    ensures
        ({
            let (a, b) = (old(s)@, final(s)@);
            &&& update matches TeamUpdate::Create { name, definition: d, .. } ==> (
            a.teams.contains_key(name@) || a.teams.len() < 1024) ==> b.teams.contains_key(name@)
                && defined(b.teams[name@], d, name)
            &&& update matches TeamUpdate::Update { name, definition: d } ==> (
            if a.teams.contains_key(name@) {
                b.teams.contains_key(name@) && defined(b.teams[name@], d, name)
            } else {
                b == a
            }) && b.membership == a.membership
            &&& update matches TeamUpdate::Remove { name } ==> !b.teams.contains_key(name@) && (
            b.membership.contains_key(x) <==> a.membership.contains_key(x) && a.membership[x]
                != name@)
            &&& update is AddMembers || update is RemoveMembers || update is Unknown ==> b.teams
                == a.teams
            &&& update is Unknown ==> b == a
            &&& other != update.team()@ ==> b.teams.contains_key(other) == a.teams.contains_key(
                other,
            ) && (a.teams.contains_key(other) ==> b.teams[other] == a.teams[other])
            &&& b.objectives == a.objectives && b.scores == a.scores && b.slots == a.slots
        }),
{
}

/// Whether a team is what a definition says.
pub open spec fn defined(
    t: crate::minecraft::scoreboard::TeamModel,
    d: TeamDefinition,
    name: String,
) -> bool {
    &&& t.name == name
    &&& t.display_name == d.display_name
    &&& t.friendly_fire == d.friendly_fire
    &&& t.name_tag_visibility == d.name_tag_visibility
    &&& t.collision_rule == d.collision_rule
    &&& t.color == d.color
    &&& t.prefix == d.prefix
    &&& t.suffix == d.suffix
}

/// While there is room those who join a team are in it, and those who leave it are in
/// none; nobody else moves.
pub proof fn law_members_join_and_leave(
    membership: Map<Seq<char>, Seq<char>>,
    team: Seq<char>,
    members: Seq<String>,
    x: Seq<char>,
)
    requires
        membership.dom().finite(),
        membership.len() + members.len() <= 16_384,
    ensures
        ({
            let (after, moved, refused) = all_joined(membership, team, members);
            &&& after.dom().finite()
            &&& after.len() <= membership.len() + members.len()
            &&& refused == 0
            &&& lists(members, x) ==> after.contains_key(x) && after[x] == team
            &&& !lists(members, x) ==> after.contains_key(x) == membership.contains_key(x) && (
            membership.contains_key(x) ==> after[x] == membership[x])
        }),
        ({
            let (after, count) = all_left(membership, team, members);
            &&& lists(members, x) && membership.contains_key(x) && membership[x] == team
                ==> !after.contains_key(x)
            &&& !(lists(members, x) && membership.contains_key(x) && membership[x] == team)
                ==> after.contains_key(x) == membership.contains_key(x) && (
            membership.contains_key(x) ==> after[x] == membership[x])
        }),
    decreases members.len(),
{
    if members.len() > 0 {
        let front = members.drop_last();
        law_members_join_and_leave(membership, team, front, x);
        let before = all_joined(membership, team, front).0;
        let last = members.last()@;
        assert(before.insert(last, team).dom() =~= before.dom().insert(last));
        assert(members[members.len() - 1] == members.last());
        if lists(front, x) {
            let i = choose|i: int| 0 <= i < front.len() && (#[trigger] front[i])@ == x;
            assert(members[i]@ == x);
        }
        if lists(members, x) && x != last {
            let i = choose|i: int| 0 <= i < members.len() && (#[trigger] members[i])@ == x;
            assert(front[i]@ == x);
        }
    }
}

/// The team of a member is the one it is in.
pub proof fn law_the_team_of_a_member(s: &ScoreboardState, member: &str, team: Option<&str>)
    requires
        s.valid(),
        call_ensures(ScoreboardState::team_for_member, (s, member), team),
    ensures
        team matches Some(t) ==> s.teams@.contains_key(t@) && s.teams@[t@].members@.contains_key(
            member@,
        ),
        team is None ==> forall|t: Seq<char>|
            s.teams@.contains_key(t) ==> !(#[trigger] s.teams@[t]).members@.contains_key(member@),
{
    crate::minecraft::scoreboard::law_members_belong_to_one_team(*s);
    if let Some(t) = team {
        assert(s@.membership[member@] == t@);
    } else {
        assert forall|t: Seq<char>| s.teams@.contains_key(t) implies !(
        #[trigger] s.teams@[t]).members@.contains_key(member@) by {
            if s.teams@[t].members@.contains_key(member@) {
                assert(s@.membership[member@] == t);
            }
        }
    }
}

/// Slots are numbered: the list, the sidebar, below the name, and then one for each
/// colour. Colours have their numbers, and minus one is none.
pub proof fn law_slots_and_colors_are_numbered(value: i32)
    ensures
        slot_numbered(value) is List <==> value == 0,
        slot_numbered(value) is Sidebar <==> value == 1,
        slot_numbered(value) is BelowName <==> value == 2,
        3 <= value <= 18 ==> slot_numbered(value) == DisplaySlot::Team(
            color_numbered((value - 3) as i32),
        ),
        value < 0 || value > 18 ==> slot_numbered(value) == DisplaySlot::Unknown(value),
        color_numbered(value) is Black <==> value == 0,
        color_numbered(value) is DarkBlue <==> value == 1,
        color_numbered(value) is DarkGreen <==> value == 2,
        color_numbered(value) is DarkAqua <==> value == 3,
        color_numbered(value) is DarkRed <==> value == 4,
        color_numbered(value) is DarkPurple <==> value == 5,
        color_numbered(value) is Gold <==> value == 6,
        color_numbered(value) is Gray <==> value == 7,
        color_numbered(value) is DarkGray <==> value == 8,
        color_numbered(value) is Blue <==> value == 9,
        color_numbered(value) is Green <==> value == 10,
        color_numbered(value) is Aqua <==> value == 11,
        color_numbered(value) is Red <==> value == 12,
        color_numbered(value) is LightPurple <==> value == 13,
        color_numbered(value) is Yellow <==> value == 14,
        color_numbered(value) is White <==> value == 15,
        color_numbered(value) is Reset <==> value == -1,
{
}

/// Friendly fire has a bit for hitting and one for seeing one's own.
pub proof fn law_friendly_fire_is_two_bits(f: FriendlyFire, hits: bool, sees: bool)
    requires
        call_ensures(FriendlyFire::allows_friendly_fire, (f,), hits),
        call_ensures(FriendlyFire::see_friendly_invisibles, (f,), sees),
    ensures
        hits <==> f.raw & 0x01 != 0,
        sees <==> f.raw & 0x02 != 0,
{
    lemma_flags(f.raw);
}

/// A number format is blank, styled or fixed by its kind, and keeps its styling.
pub proof fn law_number_formats_have_their_kinds(
    kind: Option<i32>,
    styling: Option<Nbt>,
    f: Option<NumberFormat>,
    tag: Nbt,
    text: TextComponent,
)
    requires
        call_ensures(number_format, (kind, styling), f),
        call_ensures(TextComponent::from_nbt, (&tag,), text),
    ensures
        kind is None <==> f is None,
        kind == Some(0i32) ==> f == Some(NumberFormat::Blank),
        kind == Some(1i32) && styling == Some(tag) ==> f == Some(NumberFormat::Styled(tag)),
        kind == Some(2i32) && styling == Some(tag) ==> (f matches Some(NumberFormat::Fixed(t))
            && t@ == text@),
        kind matches Some(k) ==> k < 0 || k > 2 ==> f == Some(
            NumberFormat::Unknown { kind: kind->0, styling },
        ),
{
}

/// An objective's packet defines it where it carries all of it.
pub proof fn law_objective_packets_define_them(
    p: &PacketScoreboardObjective,
    d: Option<ObjectiveDefinition>,
    tag: Nbt,
    text: TextComponent,
    kind: i32,
)
    requires
        call_ensures(objective_definition, (p,), d),
        call_ensures(TextComponent::from_nbt, (&tag,), text),
    ensures
        p.display_text is Default || p.kind is Default || p.number_format is Default ==> d is None,
        p.display_text == Switched::V0(tag) && p.kind == Switched::V0(kind) && p.number_format
            == Switched::V0(None::<i32>) ==> (d matches Some(d) && d.display_name@ == text@
            && d.number_format is None && (d.render_type is Integer <==> kind == 0) && (
        d.render_type is Hearts <==> kind == 1)),
        p.display_text == Switched::V2(tag) && p.kind == Switched::V2(kind) && p.number_format
            == Switched::V2(None::<i32>) ==> (d matches Some(d) && d.display_name@ == text@
            && d.number_format is None && (d.render_type is Integer <==> kind == 0) && (
        d.render_type is Hearts <==> kind == 1)),
{
}

/// A team's packet: nought makes it with its members, one removes it, two updates it,
/// three and four add and remove members.
pub proof fn law_team_packets_have_their_modes(p: PacketTeams, u: TeamUpdate, members: Vec<String>)
    requires
        call_ensures(team_update, (p,), u),
    ensures
        u is Create ==> p.mode == 0,
        p.mode == 1 <==> u is Remove,
        u is Update ==> p.mode == 2,
        u is AddMembers ==> p.mode == 3,
        u is RemoveMembers ==> p.mode == 4,
        p.mode == 1 ==> u == (TeamUpdate::Remove { name: p.team }),
        p.mode == 3 && p.players == PacketTeamsPlayers::V3(members) ==> u == (
        TeamUpdate::AddMembers { name: p.team, members }),
        p.mode == 4 && p.players == PacketTeamsPlayers::V4(members) ==> u == (
        TeamUpdate::RemoveMembers { name: p.team, members }),
        u matches TeamUpdate::Create { name, members: m, .. } ==> name == p.team && (p.players
            == PacketTeamsPlayers::V0(members) ==> m == members),
        u matches TeamUpdate::Update { name, .. } ==> name == p.team,
        p.mode < 0 || p.mode > 4 ==> u == (TeamUpdate::Unknown { name: p.team, mode: p.mode }),
{
}

/// A team's packet defines it, each part in its place: the prefix is not the suffix,
/// and names of rules are what they say.
pub proof fn law_team_packets_define_them(
    p: &PacketTeams,
    d: Option<TeamDefinition>,
    name: Nbt,
    prefix: Nbt,
    suffix: Nbt,
    texts: (TextComponent, TextComponent, TextComponent),
    fire: i8,
    visibility: String,
    rule: String,
    color: i32,
)
    requires
        call_ensures(team_definition, (p,), d),
        call_ensures(TextComponent::from_nbt, (&name,), texts.0),
        call_ensures(TextComponent::from_nbt, (&prefix,), texts.1),
        call_ensures(TextComponent::from_nbt, (&suffix,), texts.2),
        p.name == Switched::V0(name) || p.name == Switched::V2(name),
        p.prefix == Switched::V0(prefix) || p.prefix == Switched::V2(prefix),
        p.suffix == Switched::V0(suffix) || p.suffix == Switched::V2(suffix),
        p.friendly_fire == Switched::V0(fire) || p.friendly_fire == Switched::V2(fire),
        p.name_tag_visibility == Switched::V0(visibility) || p.name_tag_visibility == Switched::V2(
            visibility,
        ),
        p.collision_rule == Switched::V0(rule) || p.collision_rule == Switched::V2(rule),
        p.formatting == Switched::V0(color) || p.formatting == Switched::V2(color),
    ensures
        d matches Some(t) && t.display_name@ == texts.0@ && t.prefix@ == texts.1@ && t.suffix@
            == texts.2@ && t.friendly_fire.raw == fire as u8 && t.color == color_numbered(color)
            && (visibility@ == "always"@ ==> t.name_tag_visibility is Always) && (visibility@
            == "never"@ ==> t.name_tag_visibility is Never) && (visibility@ == "hideForOtherTeams"@
            ==> t.name_tag_visibility is HideForOtherTeams) && (visibility@ == "hideForOwnTeam"@
            ==> t.name_tag_visibility is HideForOwnTeam) && (rule@ == "always"@ ==> t.collision_rule
            is Always) && (rule@ == "never"@ ==> t.collision_rule is Never) && (rule@
            == "pushOtherTeams"@ ==> t.collision_rule is PushOtherTeams) && (rule@ == "pushOwnTeam"@
            ==> t.collision_rule is PushOwnTeam),
{
    reveal_strlit("always");
    reveal_strlit("never");
    reveal_strlit("hideForOtherTeams");
    reveal_strlit("hideForOwnTeam");
    reveal_strlit("pushOtherTeams");
    reveal_strlit("pushOwnTeam");
    assert("always"@.len() == 6 && "never"@.len() == 5 && "hideForOtherTeams"@.len() == 17);
    assert("hideForOwnTeam"@.len() == 14 && "pushOtherTeams"@.len() == 14);
    assert("pushOwnTeam"@.len() == 11);
    let t = d->0;
    assert(t.color == color_numbered(color));
    assert(t.name_tag_visibility == visibility_named(visibility));
    assert(t.collision_rule == rule_named(rule));
}

/// Scoreboard packets ask for what they hold: the owner is the item and the objective
/// the score's name; an empty name clears a slot.
pub proof fn law_scoreboard_packets_ask_for_what_they_hold(
    p: ScoreboardPacket,
    u: ScoreboardUpdate,
)
    requires
        call_ensures(decode_update, (p,), u),
    ensures
        p matches ScoreboardPacket::Objective(q) ==> (u matches ScoreboardUpdate::Objective {
            name,
            action,
            ..
        } && name == q.name && (action is Create <==> q.action == 0) && (action is Remove
            <==> q.action == 1) && (action is Update <==> q.action == 2)),
        p matches ScoreboardPacket::DisplayObjective(q) ==> (u matches
            ScoreboardUpdate::DisplaySlot { slot, objective } && slot == slot_numbered(q.position)
            && (objective is None <==> q.name@.len() == 0) && (objective matches Some(o) ==> o
            == q.name)),
        p matches ScoreboardPacket::Score(q) ==> (u matches ScoreboardUpdate::SetScore(s)
            && s.owner == q.item_name && s.objective == q.score_name && s.value == q.value && (
        s.display_name is None <==> q.display_name is None) && (s.number_format is None
            <==> q.number_format is None)),
        p matches ScoreboardPacket::ResetScore(q) ==> (u matches ScoreboardUpdate::ResetScore {
            owner,
            objective,
        } && owner == q.entity_name && objective == q.objective_name),
        p is Teams ==> u is Team,
{
}

/// The styling of a packet is the tag it carries, in either form.
pub proof fn law_stylings_are_the_tags_they_carry(
    tag: Nbt,
    a: Option<Nbt>,
    b: Option<Nbt>,
    none: Option<Nbt>,
    objective: &Switched<Styling>,
    o: Option<Nbt>,
)
    requires
        call_ensures(score_styling, (Styling::V1(tag),), a),
        call_ensures(score_styling, (Styling::V2(tag),), b),
        call_ensures(score_styling, (Styling::Default,), none),
        call_ensures(objective_styling, (objective,), o),
    ensures
        a == Some(tag) && b == Some(tag) && none is None,
        objective is Default ==> o is None,
        *objective == Switched::V0(Styling::V1(tag)) || *objective == Switched::V2(
            Styling::V1(tag),
        ) ==> o == Some(tag),
        *objective == Switched::V0(Styling::V2(tag)) || *objective == Switched::V2(
            Styling::V2(tag),
        ) ==> o == Some(tag),
{
}

} // verus!
