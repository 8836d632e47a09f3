//! The list of players.
use crate::minecraft::nbt::Nbt;
use crate::minecraft::players::{
    joined_view, law_other_players_keep_their_entries, lemma_masks, removed_all, unchanged,
    EntryModel, PacketPlayerInfo, PacketPlayerInfoDataItem, PacketPlayerRemove, PlayerInfoChanges,
    PlayerList,
};
use crate::minecraft::text::TextComponent;
use vstd::prelude::*;

verus! {

/// A packet about one player sets each field by its own bit, where the packet holds
/// it, and leaves the others: name, chat session, game mode, listing, latency, display
/// name, priority and hat, from the low end. A player who was not there starts with
/// nothing known and counts as joined once it has a name.
pub proof fn law_player_fields_are_set_by_their_bits(
    list: &mut PlayerList,
    packet: &PacketPlayerInfo,
    changes: PlayerInfoChanges,
    tag: Nbt,
    text: TextComponent,
)
    requires
        call_ensures(PlayerList::apply_info, (list, packet), changes),
        call_ensures(TextComponent::from_nbt, (&tag,), text),
        packet.data@.len() == 1,
        old(list)@.len() < 4096,
    ensures
        ({
            let item = packet.data@[0];
            let f = packet.action.0;
            let key = item.uuid as int;
            let known = old(list)@.contains_key(key);
            let was = old(list)@[key];
            let now = final(list)@[key];
            &&& final(list)@.contains_key(key)
            &&& now.uuid == (if known { was.uuid } else { item.uuid })
            &&& item.player matches Some(name) ==> f & 0x01 != 0 ==> now.name == name@
            &&& item.player is None || f & 0x01 == 0 ==> now.name == (if known {
                was.name
            } else {
                Seq::empty()
            })
            &&& item.chat_session matches Some(Some(s)) ==> f & 0x02 != 0 ==> (now.chat_session
                matches Some(t) && t.session_id == item.chat_session->0->0.uuid
                && t.expires_at_millis == item.chat_session->0->0.expire_time && t.public_key_bytes
                == item.chat_session->0->0.key_bytes@.len() as usize && t.signature_bytes
                == item.chat_session->0->0.key_signature@.len() as usize)
            &&& item.gamemode matches Some(v) ==> f & 0x04 != 0 ==> now.gamemode == v
            &&& item.gamemode is None || f & 0x04 == 0 ==> now.gamemode == (if known {
                was.gamemode as int
            } else {
                -1
            })
            &&& item.listed matches Some(v) ==> f & 0x08 != 0 ==> (now.listed <==> v != 0)
            &&& item.latency matches Some(v) ==> f & 0x10 != 0 ==> now.latency == v
            &&& item.latency is None || f & 0x10 == 0 ==> now.latency == (if known {
                was.latency as int
            } else {
                -1
            })
            &&& item.display_name == Some(Some(tag)) && f & 0x20 != 0 ==> now.display_name == Some(
                text@,
            )
            &&& item.list_priority matches Some(v) ==> f & 0x40 != 0 ==> now.list_priority == v
            &&& item.show_hat matches Some(v) ==> f & 0x80 != 0 ==> now.show_hat == v
            &&& f == 0 && known ==> now == was
            &&& joined_view(changes.joined@).len() == (if !known && now.name.len() > 0 {
                1int
            } else {
                0
            })
            &&& !known && now.name.len() > 0 ==> joined_view(changes.joined@)[0] == (
                item.uuid,
                now.name,
            )
            &&& changes.updated@ == seq![item.uuid]
            &&& changes.rejected == 0
        }),
{
    let item = packet.data@[0];
    lemma_masks(packet.action.0);
    let start = unchanged(old(list)@);
    assert(packet.data@.drop_last() =~= Seq::<PacketPlayerInfoDataItem>::empty());
    assert(packet.data@.last() == item);
    reveal_with_fuel(crate::minecraft::players::InfoResult::after_all, 2);
    assert(start.after_all(packet.action, packet.data@) == start.after(packet.action, item));
    assert(changes.updated@ =~= seq![item.uuid]);
    if packet.action.0 == 0 {
        assert(0u8 & 0x01 == 0 && 0u8 & 0x02 == 0 && 0u8 & 0x04 == 0 && 0u8 & 0x08 == 0 && 0u8
            & 0x10 == 0 && 0u8 & 0x20 == 0 && 0u8 & 0x40 == 0 && 0u8 & 0x80 == 0) by (bit_vector);
    }
}

/// A packet changes none but the players it names.
pub proof fn law_other_players_stay(
    list: &mut PlayerList,
    packet: &PacketPlayerInfo,
    changes: PlayerInfoChanges,
    uuid: int,
)
    requires
        call_ensures(PlayerList::apply_info, (list, packet), changes),
        forall|i: int| 0 <= i < packet.data@.len() ==> (#[trigger] packet.data@[i]).uuid != uuid,
    ensures
        final(list)@.contains_key(uuid) == old(list)@.contains_key(uuid),
        old(list)@.contains_key(uuid) ==> final(list)@[uuid] == old(list)@[uuid],
{
    law_other_players_keep_their_entries(old(list)@, packet.action, packet.data@, uuid);
}

/// Players who leave are gone, and every other stays as it was.
pub proof fn law_players_leave(
    list: &mut PlayerList,
    packet: &PacketPlayerRemove,
    removed: Vec<u128>,
    uuid: u128,
)
    requires
        call_ensures(PlayerList::apply_remove, (list, packet), removed),
    ensures
        packet.players@.contains(uuid) ==> !final(list)@.contains_key(uuid as int),
        !packet.players@.contains(uuid) ==> final(list)@.contains_key(uuid as int) == old(
            list,
        )@.contains_key(uuid as int),
        !packet.players@.contains(uuid) && old(list)@.contains_key(uuid as int)
            ==> final(list)@[uuid as int] == old(list)@[uuid as int],
        removed@.contains(uuid) <==> packet.players@.contains(uuid) && old(list)@.contains_key(
            uuid as int,
        ),
{
    lemma_leaving(old(list)@, packet.players@, uuid);
}

proof fn lemma_leaving(players: Map<int, EntryModel>, uuids: Seq<u128>, uuid: u128)
    ensures
        ({
            let (left, gone) = removed_all(players, uuids);
            &&& uuids.contains(uuid) ==> !left.contains_key(uuid as int)
            &&& !uuids.contains(uuid) ==> left.contains_key(uuid as int) == players.contains_key(
                uuid as int,
            ) && (players.contains_key(uuid as int) ==> left[uuid as int] == players[uuid as int])
            &&& gone.contains(uuid) <==> uuids.contains(uuid) && players.contains_key(uuid as int)
        }),
    decreases uuids.len(),
{
    if uuids.len() > 0 {
        let front = uuids.drop_last();
        lemma_leaving(players, front, uuid);
        let (left, gone) = removed_all(players, front);
        if uuids.contains(uuid) {
            let i = choose|i: int| 0 <= i < uuids.len() && uuids[i] == uuid;
            if i < front.len() {
                assert(front[i] == uuid);
            }
        }
        if front.contains(uuid) {
            let i = choose|i: int| 0 <= i < front.len() && front[i] == uuid;
            assert(uuids[i] == uuid);
        }
        assert(uuids[uuids.len() - 1] == uuids.last());
        let more = gone.push(uuids.last());
        assert(more.contains(uuid) <==> gone.contains(uuid) || uuid == uuids.last()) by {
            assert(more[gone.len() as int] == uuids.last());
            if gone.contains(uuid) {
                let i = choose|i: int| 0 <= i < gone.len() && gone[i] == uuid;
                assert(more[i] == uuid);
            }
            if more.contains(uuid) {
                let i = choose|i: int| 0 <= i < more.len() && more[i] == uuid;
                if i < gone.len() {
                    assert(gone[i] == uuid);
                }
            }
        }
    } else {
        assert(!uuids.contains(uuid));
    }
}

/// Where the list is full a new player is turned away and counted; what is sent as
/// nothing clears the field.
pub proof fn law_full_lists_turn_players_away(
    list: &mut PlayerList,
    packet: &PacketPlayerInfo,
    changes: PlayerInfoChanges,
)
    requires
        call_ensures(PlayerList::apply_info, (list, packet), changes),
        packet.data@.len() == 1,
    ensures
        ({
            let item = packet.data@[0];
            let key = item.uuid as int;
            let f = packet.action.0;
            &&& old(list)@.len() >= 4096 && !old(list)@.contains_key(key) ==> final(list)@ == old(
                list,
            )@ && changes.rejected == 1 && changes.updated@.len() == 0
            &&& old(list)@.contains_key(key) ==> changes.rejected == 0 && joined_view(
                changes.joined@,
            ).len() == 0
            &&& final(list)@.contains_key(key) && f & 0x02 != 0 && item.chat_session == Some(
                None::<crate::minecraft::players::ChatSessionValue>,
            ) ==> final(list)@[key].chat_session is None
            &&& final(list)@.contains_key(key) && f & 0x20 != 0 && item.display_name == Some(
                None::<Nbt>,
            ) ==> final(list)@[key].display_name is None
        }),
{
    let item = packet.data@[0];
    lemma_masks(packet.action.0);
    let start = unchanged(old(list)@);
    assert(packet.data@.drop_last() =~= Seq::<PacketPlayerInfoDataItem>::empty());
    assert(packet.data@.last() == item);
    reveal_with_fuel(crate::minecraft::players::InfoResult::after_all, 2);
    assert(start.after_all(packet.action, packet.data@) == start.after(packet.action, item));
}

} // verus!
