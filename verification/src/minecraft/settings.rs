//! What every client tells the server of itself, and how reasons are rendered.
use crate::error::MineRiderError;
use crate::minecraft::nbt::Nbt;
use crate::minecraft::text::{fresh_budget, plain, TextComponent};
use crate::minecraft::text_nbt::nbt_component;
use crate::protocol::buffer::{lemma_string_len, string_bytes, PacketWriter};
use vstd::prelude::*;

verus! {

/// The client brand a vanilla client reports on the `minecraft:brand`
/// plugin channel.
pub const CLIENT_BRAND: &'static str = "vanilla";

/// The `minecraft:brand` plugin-message channel.
pub const BRAND_CHANNEL: &'static str = "minecraft:brand";

/// The client chose not to download an offered pack. There is no renderer to
/// apply a pack to, so declining is the honest response.
pub const RESOURCE_PACK_STATUS_DECLINED: i32 = 1;

/// The out-of-box vanilla render distance (matches a fresh install).
pub const DEFAULT_VIEW_DISTANCE: i8 = 12;

/// How many particles are shown.
#[derive(Debug, Clone, Copy, PartialEq, Eq, Structural)]
pub enum ParticleStatus {
    All,
    Decreased,
    Minimal,
}

/// The client's options.
#[derive(Debug)]
pub struct PacketCommonSettings {
    pub locale: String,
    pub view_distance: i8,
    pub chat_flags: i32,
    pub chat_colors: bool,
    pub skin_parts: u8,
    pub main_hand: i32,
    pub enable_text_filtering: bool,
    pub enable_server_listing: bool,
    pub particle_status: ParticleStatus,
}

/// Whether these are the options of a fresh install with this view distance.
pub open spec fn out_of_the_box(s: PacketCommonSettings, view_distance: i8) -> bool {
    &&& s.locale@ == "en_us"@
    &&& s == (PacketCommonSettings {
        locale: s.locale,
        view_distance,
        chat_flags: 0,
        chat_colors: true,
        skin_parts: 0x7f,
        main_hand: 1,
        enable_text_filtering: false,
        enable_server_listing: true,
        particle_status: ParticleStatus::All,
    })
}

/// The options a vanilla 1.21.4 client sends out of the box: `en_us`, chat fully
/// enabled and colored, every skin layer shown, right main hand, no text
/// filtering, server listings allowed, all particles. The view distance bounds
/// how many chunks the server streams.
pub fn vanilla_client_information(view_distance: i8) -> (s: PacketCommonSettings)
    ensures
        out_of_the_box(s, view_distance),
{
    PacketCommonSettings {
        locale: "en_us".to_owned(),
        view_distance,
        chat_flags: 0,  // chat enabled (1 = commands only, 2 = hidden)
        chat_colors: true,
        skin_parts: 0x7f,  // all seven skin layers shown
        main_hand: 1,  // right
        enable_text_filtering: false,
        enable_server_listing: true,
        particle_status: ParticleStatus::All,
    }
}

/// The payload bytes of the client's `minecraft:brand` plugin message: the
/// brand string written as a length-prefixed string.
pub fn brand_payload() -> (res: Result<Vec<u8>, MineRiderError>)
    ensures
        res matches Ok(bytes) && bytes@ == string_bytes(CLIENT_BRAND@),
{
    proof {
        reveal_strlit("vanilla");
        lemma_string_len(CLIENT_BRAND@);
    }
    let mut w = PacketWriter::new();
    match w.put_string(CLIENT_BRAND) {
        Ok(_) => {
            assert(w@ =~= string_bytes(CLIENT_BRAND@));
            Ok(w.to_vec())
        },
        Err(e) => Err(e),
    }
}

/// A message on a plugin channel.
#[derive(Debug)]
pub struct PacketCustomPayload {
    pub channel: String,
    pub data: Vec<u8>,
}

/// A packet that opens the configuration state.
#[derive(Debug)]
pub enum OpeningPacket {
    CustomPayload(PacketCustomPayload),
    Settings(PacketCommonSettings),
}

/// The two packets a vanilla client emits on entering the configuration state,
/// in vanilla's order: the brand first, then the settings. The order can be
/// observed on the wire.
pub fn client_configuration(view_distance: i8) -> (res: Result<
    Vec<OpeningPacket>,
    MineRiderError,
>)
    ensures
        res matches Ok(packets) && {
            &&& packets@.len() == 2
            &&& packets@[0] matches OpeningPacket::CustomPayload(p) && p.channel@ == BRAND_CHANNEL@
                && p.data@ == string_bytes(CLIENT_BRAND@)
            &&& packets@[1] matches OpeningPacket::Settings(s) && out_of_the_box(s, view_distance)
        },
{
    let data = match brand_payload() {
        Ok(data) => data,
        Err(e) => return Err(e),
    };
    let mut packets: Vec<OpeningPacket> = Vec::new();
    packets.push(
        OpeningPacket::CustomPayload(
            PacketCustomPayload { channel: BRAND_CHANNEL.to_owned(), data },
        ),
    );
    packets.push(OpeningPacket::Settings(vanilla_client_information(view_distance)));
    Ok(packets)
}

/// A text component, rendered as plain text.
pub open spec fn reason_text(component: Nbt) -> Seq<char> {
    plain(nbt_component(component, fresh_budget(), 0).0)
}

/// Renders an NBT text component (disconnect reason, chat message, ...) as
/// plain readable text.
pub fn nbt_reason_text(component: &Nbt) -> (s: String)
    ensures
        s@ == reason_text(*component),
{
    TextComponent::from_nbt(component).plain_text()
}

} // verus!
