//! What is presented: chat, titles, the tab list and boss bars.
use crate::float_bits::Single;
use crate::minecraft::hud::lemma_flags;
use crate::minecraft::nbt::Nbt;
use crate::minecraft::presentation::{
    boss_bar_update, chat_decoration, chat_type_reference, decode_update, player_chat, BossBar,
    BossBarFlags, BossBarUpdate, ChatDecoration, ChatFilter, ChatMessage, ChatType,
    ChatTypeReference, ChatTypesHolder, PacketBossBar, PacketPlayerChat, PresentationEvent,
    PresentationModel, PresentationPacket, PresentationState, PresentationUpdate,
};
use crate::minecraft::text::{plain, TextComponent};
use vstd::prelude::*;

verus! {

/// A message is kept at the end under the next number, and the oldest of 512 makes
/// room for it. What is kept and reported is the message itself.
pub proof fn law_messages_are_kept_in_order(
    s: &mut PresentationState,
    message: ChatMessage,
    event: PresentationEvent,
    i: int,
)
    requires
        old(s)@.valid(),
        call_ensures(PresentationState::apply, (s, PresentationUpdate::Chat(message)), event),
    ensures
        ({
            let (a, b) = (old(s)@, final(s)@);
            &&& a.chat.len() < 512 ==> b.chat.len() == a.chat.len() + 1 && (0 <= i < a.chat.len()
                ==> b.chat[i] == a.chat[i])
            &&& a.chat.len() == 512 ==> b.chat.len() == 512 && (0 <= i < 511 ==> b.chat[i]
                == a.chat[i + 1])
            &&& b.chat.last().content == message.content && b.chat.last().sender == message.sender
                && b.chat.last().target == message.target && b.chat.last().kind == message.kind
                && b.chat.last().chat_type == message.chat_type && b.chat.last().signed
                == message.signed
            &&& b.chat.last().sequence == a.next_sequence
            &&& a.next_sequence < u64::MAX ==> b.next_sequence == a.next_sequence + 1
            &&& event == PresentationEvent::Chat(b.chat.last())
            &&& b == (PresentationModel {
                chat: b.chat,
                next_sequence: b.next_sequence,
                ..a
            })
        }),
{
}

/// Texts go where they belong: the action bar, the title, the subtitle, the two ends
/// of the tab list and the reason of a disconnect. Nothing else changes.
pub proof fn law_texts_go_where_they_belong(
    s: &mut PresentationState,
    update: PresentationUpdate,
    event: PresentationEvent,
)
    requires
        call_ensures(PresentationState::apply, (s, update), event),
    ensures
        ({
            let (a, b) = (old(s)@, final(s)@);
            &&& update matches PresentationUpdate::ActionBar(t) ==> b.action_bar == Some(t) && b
                == (PresentationModel { action_bar: b.action_bar, ..a }) && event == (
            PresentationEvent::ActionBarChanged { text: t })
            &&& update matches PresentationUpdate::Title(t) ==> b.titles.title == Some(t)
                && b.titles.subtitle == a.titles.subtitle && b.titles.timing == a.titles.timing && b
                == (PresentationModel { titles: b.titles, ..a }) && event == (
            PresentationEvent::TitleChanged { text: t })
            &&& update matches PresentationUpdate::Subtitle(t) ==> b.titles.subtitle == Some(t)
                && b.titles.title == a.titles.title && b.titles.timing == a.titles.timing && b == (
            PresentationModel { titles: b.titles, ..a }) && event == (
            PresentationEvent::SubtitleChanged { text: t })
            &&& update matches PresentationUpdate::TitleTiming(t) ==> b.titles.timing == t
                && b.titles.title == a.titles.title && b.titles.subtitle == a.titles.subtitle && b
                == (PresentationModel { titles: b.titles, ..a }) && event == (
            PresentationEvent::TitleTimingChanged { timing: t })
            &&& update matches PresentationUpdate::ClearTitles { reset } ==> b.titles.title is None
                && b.titles.subtitle is None && (!reset ==> b.titles.timing == a.titles.timing) && (
            reset ==> b.titles.timing.fade_in == 10 && b.titles.timing.stay == 70
                && b.titles.timing.fade_out == 20) && b == (PresentationModel {
                titles: b.titles,
                ..a
            }) && event == (PresentationEvent::TitlesCleared { reset })
            &&& update matches PresentationUpdate::TabList { header, footer } ==> b.tab_list.header
                == Some(header) && b.tab_list.footer == Some(footer) && b == (PresentationModel {
                tab_list: b.tab_list,
                ..a
            }) && event == (PresentationEvent::TabListChanged { header, footer })
            &&& update matches PresentationUpdate::Disconnect(t) ==> b.disconnect_reason == Some(t)
                && b == (PresentationModel { disconnect_reason: b.disconnect_reason, ..a })
                && event == (PresentationEvent::Disconnected { reason: t })
        }),
{
}

/// A bar that is added is there, one that is removed is not, and an update changes its
/// part of a bar that is there. No other bar changes.
pub proof fn law_bars_change_part_by_part(
    s: &mut PresentationState,
    update: BossBarUpdate,
    event: PresentationEvent,
    other: int,
)
    requires
        call_ensures(PresentationState::apply, (s, PresentationUpdate::BossBar(update)), event),
    ensures
        ({
            let (a, b) = (old(s)@.boss_bars, final(s)@.boss_bars);
            &&& update matches BossBarUpdate::Add(bar) ==> (a.contains_key(bar.id as int) || a.len()
                < 256 ==> b.contains_key(bar.id as int) && b[bar.id as int] == bar) && (other
                != bar.id ==> b.contains_key(other) == a.contains_key(other))
            &&& update matches BossBarUpdate::Remove { id } ==> !b.contains_key(id as int) && (other
                != id ==> b.contains_key(other) == a.contains_key(other))
            &&& update matches BossBarUpdate::Progress { id, progress } ==> b.dom() =~= a.dom() && (
            a.contains_key(id as int) ==> b[id as int] == (BossBar { progress, ..a[id as int] }))
                && (other != id ==> b[other] == a[other])
            &&& update matches BossBarUpdate::Title { id, title } ==> b.dom() =~= a.dom() && (
            a.contains_key(id as int) ==> b[id as int] == (BossBar { title, ..a[id as int] })) && (
            other != id ==> b[other] == a[other])
            &&& update matches BossBarUpdate::Style { id, color, overlay } ==> b.dom() =~= a.dom()
                && (a.contains_key(id as int) ==> b[id as int] == (BossBar {
                color,
                overlay,
                ..a[id as int]
            })) && (other != id ==> b[other] == a[other])
            &&& update matches BossBarUpdate::Flags { id, flags } ==> b.dom() =~= a.dom() && (
            a.contains_key(id as int) ==> b[id as int] == (BossBar { flags, ..a[id as int] })) && (
            other != id ==> b[other] == a[other])
            &&& update is Unknown ==> b == a
        }),
        final(s)@ == (PresentationModel { boss_bars: final(s)@.boss_bars, ..old(s)@ }),
        event matches PresentationEvent::BossBarChanged { current, applied, .. } && (update
            is Unknown ==> !applied),
{
}

/// A boss bar on the wire: nought adds it, one removes it, two to five change the
/// progress, the title, the style and the flags. Colours and overlays have their
/// numbers.
pub proof fn law_bars_have_their_wire_numbers(
    p: PacketBossBar,
    u: BossBarUpdate,
    tag: Nbt,
    text: TextComponent,
)
    requires
        call_ensures(boss_bar_update, (p,), u),
        call_ensures(TextComponent::from_nbt, (&tag,), text),
    ensures
        p.action == 0 ==> (u matches BossBarUpdate::Add(bar) && bar.id == p.entity_uuid && (p.title
            == Some(tag) ==> bar.title@ == text@) && (p.health matches Some(h) ==> bar.progress
            == Single(h)) && (p.flags matches Some(f) ==> bar.flags.raw == f)),
        p.action == 1 ==> u == (BossBarUpdate::Remove { id: p.entity_uuid }),
        p.action == 2 && p.health is Some ==> u == (BossBarUpdate::Progress {
            id: p.entity_uuid,
            progress: Single(p.health->0),
        }),
        p.action == 3 && p.title == Some(tag) ==> (u matches BossBarUpdate::Title { id, title }
            && id == p.entity_uuid && title@ == text@),
        p.action == 4 && p.color is Some && p.dividers is Some ==> (u matches BossBarUpdate::Style {
            id,
            color,
            overlay,
        } && {
            let (c, d) = (p.color->0, p.dividers->0);
            &&& id == p.entity_uuid
            &&& color is Pink <==> c == 0
            &&& color is Blue <==> c == 1
            &&& color is Red <==> c == 2
            &&& color is Green <==> c == 3
            &&& color is Yellow <==> c == 4
            &&& color is Purple <==> c == 5
            &&& color is White <==> c == 6
            &&& overlay is Progress <==> d == 0
            &&& overlay is Notched6 <==> d == 1
            &&& overlay is Notched10 <==> d == 2
            &&& overlay is Notched12 <==> d == 3
            &&& overlay is Notched20 <==> d == 4
        }),
        p.action == 5 && p.flags is Some ==> u == (BossBarUpdate::Flags {
            id: p.entity_uuid,
            flags: BossBarFlags { raw: p.flags->0 },
        }),
        p.action < 0 || p.action > 5 ==> u == (BossBarUpdate::Unknown {
            id: p.entity_uuid,
            action: p.action,
        }),
{
}

/// A bar's flags are bits from the low end: a dark sky, music and fog.
pub proof fn law_bar_flags_are_bits(f: BossBarFlags, sky: bool, music: bool, fog: bool)
    requires
        call_ensures(BossBarFlags::darken_sky, (f,), sky),
        call_ensures(BossBarFlags::play_end_music, (f,), music),
        call_ensures(BossBarFlags::create_world_fog, (f,), fog),
    ensures
        sky <==> f.raw & 0x01 != 0,
        music <==> f.raw & 0x02 != 0,
        fog <==> f.raw & 0x04 != 0,
{
    lemma_flags(f.raw);
}

/// A message as a line is its content, after the sender's name in angle brackets where
/// the name is not empty.
pub proof fn law_lines_name_their_sender(m: &ChatMessage, line: String, content: String)
    requires
        call_ensures(ChatMessage::display_text, (m,), line),
        call_ensures(TextComponent::plain_text, (&m.content,), content),
    ensures
        m.sender is None ==> line@ == content@,
        m.sender matches Some(sender) ==> (if plain(sender@).len() == 0 {
            line@ == content@
        } else {
            line@ == seq!['<'] + plain(sender@) + seq!['>', ' '] + content@
        }),
{
    reveal_strlit("<");
    reveal_strlit("> ");
    assert("<"@ =~= seq!['<']);
    assert("> "@ =~= seq!['>', ' ']);
}

/// Packets present what they hold: a system message as chat or, where it says so, on
/// the action bar; titles, times and ends of the tab list each in their place.
pub proof fn law_packets_present_what_they_hold(
    p: PresentationPacket,
    u: PresentationUpdate,
    tag: Nbt,
    second: Nbt,
    text: TextComponent,
    other: TextComponent,
)
    requires
        call_ensures(decode_update, (p,), u),
        call_ensures(TextComponent::from_nbt, (&tag,), text),
        call_ensures(TextComponent::from_nbt, (&second,), other),
    ensures
        p == (PresentationPacket::SystemChat { content: tag, is_action_bar: true }) ==> (u matches
            PresentationUpdate::ActionBar(t) && t@ == text@),
        p == (PresentationPacket::SystemChat { content: tag, is_action_bar: false }) ==> (u matches
            PresentationUpdate::Chat(m) && m.content@ == text@ && m.kind is System && m.sender
            is None && m.target is None && m.signed is None),
        p == (PresentationPacket::ActionBar { text: tag }) ==> (u matches
            PresentationUpdate::ActionBar(t) && t@ == text@),
        p == (PresentationPacket::SetTitleText { text: tag }) ==> (u matches
            PresentationUpdate::Title(t) && t@ == text@),
        p == (PresentationPacket::SetTitleSubtitle { text: tag }) ==> (u matches
            PresentationUpdate::Subtitle(t) && t@ == text@),
        p is SetTitleTime ==> (u matches PresentationUpdate::TitleTiming(t) && t.fade_in
            == p->fade_in && t.stay == p->stay && t.fade_out == p->fade_out),
        p is ClearTitles ==> u == (PresentationUpdate::ClearTitles { reset: p->reset }),
        p == (PresentationPacket::PlayerlistHeader { header: tag, footer: second }) ==> (u matches
            PresentationUpdate::TabList { header, footer } && header@ == text@ && footer@
            == other@),
        p == (PresentationPacket::KickDisconnect { reason: tag }) ==> (u matches
            PresentationUpdate::Disconnect(t) && t@ == text@),
        p is BossBar ==> u is BossBar,
        p is PlayerChat ==> (u matches PresentationUpdate::Chat(m) && m.kind is Player),
        p matches PresentationPacket::ProfilelessChat(q) ==> (u matches PresentationUpdate::Chat(m)
            && m.kind is Disguised && m.signed is None && (q.message == tag ==> m.content@ == text@)
            && (q.name == second ==> (m.sender matches Some(s) && s@ == other@))),
{
}

/// A player's message shows the unsigned content where there is one, under the
/// sender's name, and keeps all that was signed, each part in its place.
pub proof fn law_player_messages_keep_what_was_signed(
    p: PacketPlayerChat,
    m: ChatMessage,
    tag: Nbt,
    text: TextComponent,
)
    requires
        call_ensures(player_chat, (p,), m),
        call_ensures(TextComponent::from_nbt, (&tag,), text),
    ensures
        m.kind is Player,
        p.unsigned_chat_content == Some(tag) ==> m.content@ == text@,
        p.unsigned_chat_content is None ==> plain(m.content@) == p.plain_message@,
        p.network_name == tag ==> (m.sender matches Some(s) && s@ == text@),
        p.network_target_name == Some(tag) ==> (m.target matches Some(t) && t@ == text@),
        p.network_target_name is None ==> m.target is None,
        m.signed matches Some(s) && s.sender_uuid == p.sender_uuid && s.index == p.index
            && s.signature == p.signature && s.plain_message == p.plain_message && s.timestamp
            == p.timestamp && s.salt == p.salt && (p.previous_messages@.len() <= 64
            ==> s.previous_messages@ == p.previous_messages@ && !s.previous_messages_truncated) && (
        p.previous_messages@.len() > 64 ==> s.previous_messages@.len() == 64
            && s.previous_messages_truncated) && (s.filter is PassThrough <==> p.filter_type == 0)
            && (s.filter is FullyFiltered <==> p.filter_type == 1) && (p.filter_type == 2
            && p.filter_type_mask is Some && p.filter_type_mask->0@.len() <= 512 ==> (s.filter
            matches ChatFilter::PartiallyFiltered { mask, truncated } && mask@
            == p.filter_type_mask->0@ && !truncated)),
{
    lemma_literals_read_plainly(p.plain_message@);
}

/// A literal's plain text is the literal.
proof fn lemma_literals_read_plainly(s: Seq<char>)
    ensures
        plain(crate::minecraft::text::literal_model(s)) == s,
{
}

/// A chat type is a number of the registry or two decorations of its own; a decoration
/// keeps its key and its first sixteen parameters, in order.
pub proof fn law_chat_types_are_kept(
    h: ChatTypesHolder,
    r: ChatTypeReference,
    t: ChatType,
    d: ChatDecoration,
)
    requires
        call_ensures(chat_type_reference, (h,), r),
        call_ensures(chat_decoration, (t,), d),
    ensures
        h matches ChatTypesHolder::Reference(id) ==> r == ChatTypeReference::Registry(id),
        h matches ChatTypesHolder::Inline(types) ==> (r matches ChatTypeReference::Inline(both)
            && both.chat.translation_key == types.chat.translation_key
            && both.narration.translation_key == types.narration.translation_key),
        d.translation_key == t.translation_key,
        t.parameters@.len() <= 16 ==> d.parameters@ == t.parameters@ && !d.parameters_truncated,
        t.parameters@.len() > 16 ==> d.parameters@ == t.parameters@.take(16)
            && d.parameters_truncated,
{
}

/// A bar that is added has the colour and the overlay of their numbers, and is unknown
/// in what was not sent.
pub proof fn law_added_bars_have_their_colors(p: PacketBossBar, u: BossBarUpdate)
    requires
        call_ensures(boss_bar_update, (p,), u),
        p.action == 0,
    ensures
        u matches BossBarUpdate::Add(bar) && {
            &&& p.color matches Some(c) ==> (bar.color is Pink <==> c == 0) && (bar.color is Blue
                <==> c == 1) && (bar.color is Red <==> c == 2) && (bar.color is Green <==> c == 3)
                && (bar.color is Yellow <==> c == 4) && (bar.color is Purple <==> c == 5) && (
            bar.color is White <==> c == 6)
            &&& p.dividers matches Some(d) ==> (bar.overlay is Progress <==> d == 0) && (bar.overlay
                is Notched6 <==> d == 1) && (bar.overlay is Notched10 <==> d == 2) && (bar.overlay
                is Notched12 <==> d == 3) && (bar.overlay is Notched20 <==> d == 4)
            &&& p.color is None ==> bar.color is Unknown
            &&& p.dividers is None ==> bar.overlay is Unknown
            &&& p.health is None ==> bar.progress == Single(0)
            &&& p.flags is None ==> bar.flags.raw == 0
            &&& p.title is None ==> plain(bar.title@) == Seq::<char>::empty()
        },
{
    lemma_literals_read_plainly(Seq::empty());
}

} // verus!
