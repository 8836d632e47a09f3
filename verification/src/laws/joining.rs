//! From the handshake to the play state: login, configuration and resource packs.
use crate::error::MineRiderError;
use crate::minecraft::configuration::{
    floor_div_16, floor_mod_16, known_packs, registry_dimensions, store_registry,
    vanilla_dimension_type, Configuration, ConfigurationAction, ConfigurationClientbound,
    ConfigurationData, DimensionType, KnownPack, PacketRegistryData, RegistryEntry,
};
use crate::minecraft::coverage::{configuration_coverage, ConfigurationPacket, CoverageEntry};
use crate::minecraft::handshake::{handshake_bytes, login_handshake, PacketSetProtocol};
use crate::minecraft::login::{
    encryption_steps, is_valid_username, login_start, EncryptionStep, Login, LoginAction,
    LoginClientbound, PacketEncryptionBegin, PacketLoginStart, PremiumIdentity,
};
use crate::minecraft::nbt::Nbt;
use crate::minecraft::resource_pack::{
    answer_offer, check_digest, check_response, check_url, is_web_address, parsed_url,
    report_download, sha1_of, trim, trimmed, verify_body, Download, DownloadFailure, Failure,
    PacketCommonAddResourcePack, PacketResourcePackReceive,
};
use crate::minecraft::settings::{
    brand_payload, client_configuration, vanilla_client_information, OpeningPacket,
    PacketCommonSettings,
};
use crate::protocol::buffer::{string_bytes, PacketReader, PacketWriter};
use crate::protocol::varint::varint_bytes;
use vstd::prelude::*;

verus! {

/// A handshake says the version, the host, the port and what comes next, in this
/// order; a login asks for state two.
pub proof fn law_handshakes_ask_for_the_login(
    version: i32,
    address: &str,
    port: u16,
    p: PacketSetProtocol,
)
    requires
        call_ensures(login_handshake, (version, address, port), p),
    ensures
        p.protocol_version == version && p.server_host@ == address@ && p.server_port == port
            && p.next_state == 2,
        handshake_bytes(p) == varint_bytes(version) + string_bytes(address@) + seq![
            (port / 256) as u8,
            (port % 256) as u8,
        ] + varint_bytes(2),
{
    crate::laws::wire::law_high_bytes_come_first(0, 0, 0, 0, port as nat);
}

/// A name fits where it has three to sixteen letters, digits or underscores.
pub proof fn law_names_have_letters_digits_and_underscores(name: &str, fits: bool, i: int)
    requires
        call_ensures(is_valid_username, (name,), fits),
    ensures
        fits ==> 3 <= name@.len() <= 16,
        fits && 0 <= i < name@.len() ==> ({
            let c = name@[i] as u32;
            48 <= c <= 57 || 65 <= c <= 90 || 97 <= c <= 122 || c == 95
        }),
        3 <= name@.len() <= 16 && (forall|k: int|
            0 <= k < name@.len() ==> ({
                let c = #[trigger] name@[k];
                '0' <= c <= '9' || 'A' <= c <= 'Z' || 'a' <= c <= 'z' || c == '_'
            })) ==> fits,
{
}

/// A login starts with the account's name and number where there is one, and otherwise
/// with the name and number nought, where the name fits.
pub proof fn law_logins_start_with_the_identity(
    name: &str,
    premium: Option<&PremiumIdentity>,
    fits: bool,
    res: Result<PacketLoginStart, MineRiderError>,
)
    requires
        call_ensures(login_start, (name, premium), res),
        call_ensures(is_valid_username, (name,), fits),
    ensures
        premium matches Some(identity) ==> (res matches Ok(p) && p.username@ == identity.username@
            && p.player_uuid == identity.uuid),
        premium is None && fits ==> (res matches Ok(p) && p.username@ == name@ && p.player_uuid
            == 0),
        premium is None && !fits ==> res matches Err(MineRiderError::Protocol(_)),
{
}

/// The packets of the login are answered in kind: a success ends it with the identity
/// that the server gave, compression takes the server's threshold, a request of a
/// plugin is refused by its number.
pub proof fn law_login_packets_are_answered(packet: LoginClientbound, action: LoginAction)
    requires
        call_ensures(crate::minecraft::login::react, (packet,), action),
    ensures
        packet matches LoginClientbound::Success { uuid, username } ==> (action matches
            LoginAction::Finish(s) && s.uuid == uuid && s.username == username),
        packet matches LoginClientbound::Compress { threshold } ==> action
            == LoginAction::SetCompression(threshold),
        packet matches LoginClientbound::PluginRequest { message_id, .. } ==> action == (
        LoginAction::RefusePlugin { message_id }),
        packet matches LoginClientbound::EncryptionBegin(r) ==> action == LoginAction::Encrypt(r),
        packet matches LoginClientbound::Disconnect { reason } ==> (action matches
            LoginAction::Fail(MineRiderError::Disconnected(s)) && s@ == reason@),
        packet is Other ==> action matches LoginAction::Fail(MineRiderError::Protocol(_)),
{
}

/// A login reads 64 packets and no more, a configuration 512.
pub proof fn law_joining_is_bounded(
    l: &mut Login,
    c: &mut Configuration,
    login: Result<(), MineRiderError>,
    configuration: Result<(), MineRiderError>,
)
    requires
        call_ensures(Login::next_packet, (l,), login),
        call_ensures(Configuration::next_packet, (c,), configuration),
    ensures
        login is Ok <==> old(l).read < 64,
        login is Ok ==> final(l).read == old(l).read + 1,
        login is Err ==> final(l).read == old(l).read,
        configuration is Ok <==> old(c).read < 512,
        configuration is Ok ==> final(c).read == old(c).read + 1,
        configuration is Err ==> final(c).read == old(c).read,
        final(c).data == old(c).data,
{
}

/// Encryption is answered and then switched on; where the server asks for it the
/// session is joined before, which takes an account.
pub proof fn law_encryption_follows_its_steps(
    request: &PacketEncryptionBegin,
    premium: bool,
    res: Result<Vec<EncryptionStep>, MineRiderError>,
)
    requires
        call_ensures(encryption_steps, (request, premium), res),
    ensures
        res is Err <==> request.should_authenticate && !premium,
        res matches Ok(steps) ==> steps@.last() is EnableEncryption && steps@[steps@.len() - 2]
            is Respond && (request.should_authenticate ==> steps@.len() == 3 && steps@[0]
            is JoinSession) && (!request.should_authenticate ==> steps@.len() == 2),
{
}

/// What the client says of itself: English, chat in colours, every layer of the skin,
/// the right hand, no filter, listed, all particles, and the distance it was given.
pub proof fn law_the_client_is_out_of_the_box(view_distance: i8, s: PacketCommonSettings)
    requires
        call_ensures(vanilla_client_information, (view_distance,), s),
    ensures
        s.locale@ == seq!['e', 'n', '_', 'u', 's'],
        s.view_distance == view_distance,
        s.chat_flags == 0,
        s.chat_colors,
        s.skin_parts == 127,
        s.main_hand == 1,
        !s.enable_text_filtering,
        s.enable_server_listing,
        s.particle_status is All,
{
    reveal_strlit("en_us");
    assert(s.locale@ =~= seq!['e', 'n', '_', 'u', 's']);
}

/// The brand goes out first, as a text, and then the settings.
pub proof fn law_the_brand_comes_before_the_settings(
    view_distance: i8,
    packets: Result<Vec<OpeningPacket>, MineRiderError>,
    brand: Result<Vec<u8>, MineRiderError>,
)
    requires
        call_ensures(client_configuration, (view_distance,), packets),
        call_ensures(brand_payload, (), brand),
    ensures
        brand matches Ok(b) && b@ == string_bytes("vanilla"@),
        packets matches Ok(p) && p@.len() == 2 && (p@[0] matches OpeningPacket::CustomPayload(c)
            && c.channel@ == "minecraft:brand"@ && c.data@ == string_bytes("vanilla"@)) && (p@[1]
            matches OpeningPacket::Settings(s) && s.view_distance == view_distance),
{
}

/// Division by sixteen goes down, and the remainder is never below zero.
pub proof fn law_division_goes_down(n: i32, q: i32, m: usize)
    requires
        call_ensures(floor_div_16, (n,), q),
        call_ensures(floor_mod_16, (n,), m),
    ensures
        n == 16 * q + m,
        0 <= m < 16,
{
}

/// The dimensions that every client knows.
pub proof fn law_known_dimensions_have_their_bounds(key: &String, d: Option<DimensionType>)
    requires
        call_ensures(vanilla_dimension_type, (key,), d),
    ensures
        d matches Some(t) ==> t.key == *key && t.height % 16 == 0 && t.min_y % 16 == 0,
        key@ == "minecraft:overworld"@ ==> (d matches Some(t) && t.min_y == -64 && t.height == 384
            && t.logical_height == 384 && t.coordinate_scale == 0x3FF0_0000_0000_0000
            && !t.ultrawarm && !t.has_ceiling),
        key@ == "minecraft:the_nether"@ ==> (d matches Some(t) && t.min_y == 0 && t.height == 256
            && t.logical_height == 128 && t.coordinate_scale == 0x4020_0000_0000_0000
            && t.ultrawarm && t.has_ceiling),
        key@ == "minecraft:the_end"@ ==> (d matches Some(t) && t.min_y == 0 && t.height == 256
            && t.logical_height == 256 && t.coordinate_scale == 0x3FF0_0000_0000_0000
            && !t.ultrawarm && !t.has_ceiling),
{
    reveal_strlit("minecraft:overworld");
    reveal_strlit("minecraft:overworld_caves");
    reveal_strlit("minecraft:the_nether");
    reveal_strlit("minecraft:the_end");
    assert("minecraft:overworld"@.len() == 19);
    assert("minecraft:overworld_caves"@.len() == 25);
    assert("minecraft:the_nether"@.len() == 20);
    assert("minecraft:the_end"@.len() == 17);
}

/// A registry of dimensions replaces what was known: one dimension for each entry, in
/// order, with the fields of its value, each from its own name. Other registries
/// change nothing.
pub proof fn law_dimensions_have_the_fields_of_their_entry(
    data: &mut ConfigurationData,
    packet: &PacketRegistryData,
    res: Result<(), MineRiderError>,
    i: int,
    value: Nbt,
)
    requires
        call_ensures(store_registry, (data, packet), res),
        packet.id@ == "minecraft:dimension_type"@,
        res is Ok,
        0 <= i < packet.entries@.len(),
    ensures
        final(data).dimension_types@.len() == packet.entries@.len(),
        final(data).dimension_types@[i].key == packet.entries@[i].key,
        packet.entries@[i].value == Some(value) ==> {
            let d = final(data).dimension_types@[i];
            &&& value.field("min_y"@) == Some(Nbt::Int(d.min_y))
            &&& value.field("height"@) == Some(Nbt::Int(d.height))
            &&& value.field("logical_height"@) == Some(Nbt::Int(d.logical_height))
            &&& value.field("coordinate_scale"@) == Some(Nbt::Double(d.coordinate_scale))
            &&& value.field("ultrawarm"@) matches Some(Nbt::Byte(b)) && (d.ultrawarm <==> b != 0)
            &&& value.field("has_ceiling"@) matches Some(Nbt::Byte(b)) && (d.has_ceiling <==> b
                != 0)
        },
        0 < final(data).dimension_types@[i].height <= 4096 + 15,
        final(data).dimension_types@[i].height % 16 == 0,
        final(data).dimension_types@[i].min_y as int % 16 == 0,
{
    lemma_registry(packet.entries@, Seq::empty(), i);
}

/// Which dimension is kept for an entry.
proof fn lemma_registry(entries: Seq<RegistryEntry>, kept: Seq<DimensionType>, i: int)
    requires
        registry_dimensions(entries, kept).1 is None,
    ensures
        registry_dimensions(entries, kept).0.len() == kept.len() + entries.len(),
        forall|k: int|
            0 <= k < kept.len() ==> #[trigger] registry_dimensions(entries, kept).0[k] == kept[k],
        0 <= i < entries.len() ==> crate::minecraft::configuration::entry_dimension(entries[i])
            == Ok::<DimensionType, Seq<char>>(
            registry_dimensions(entries, kept).0[kept.len() + i],
        ),
    decreases entries.len(),
{
    if entries.len() > 0 {
        match crate::minecraft::configuration::entry_dimension(entries[0]) {
            Ok(d) => {
                let rest = entries.drop_first();
                let more = kept.push(d);
                lemma_registry(rest, more, i - 1);
                let all = registry_dimensions(entries, kept).0;
                assert(all == registry_dimensions(rest, more).0);
                assert forall|k: int| 0 <= k < kept.len() implies #[trigger] all[k] == kept[k] by {
                    assert(registry_dimensions(rest, more).0[k] == more[k]);
                }
                let n = kept.len() as int;
                assert(registry_dimensions(rest, more).0[n] == more[n]);
                if 0 < i < entries.len() {
                    assert(rest[i - 1] == entries[i]);
                }
            },
            Err(_) => {},
        }
    }
}

/// Other registries change nothing.
pub proof fn law_other_registries_are_passed_over(
    data: &mut ConfigurationData,
    packet: &PacketRegistryData,
    res: Result<(), MineRiderError>,
)
    requires
        call_ensures(store_registry, (data, packet), res),
        packet.id@ != "minecraft:dimension_type"@,
    ensures
        res is Ok,
        *final(data) == *old(data),
{
}

/// The packets of the configuration are answered in kind: payloads go back as they
/// came, an offer is handed on, the core pack of the version is the one selected.
pub proof fn law_configuration_packets_are_answered(
    c: &mut Configuration,
    packet: ConfigurationClientbound,
    action: ConfigurationAction,
)
    requires
        call_ensures(Configuration::react, (c, packet), action),
    ensures
        packet matches ConfigurationClientbound::KeepAlive { payload } ==> action == (
        ConfigurationAction::KeepAlive { payload }),
        packet matches ConfigurationClientbound::Ping { payload } ==> action == (
        ConfigurationAction::Pong { payload }),
        packet matches ConfigurationClientbound::AddResourcePack(p) ==> action
            == ConfigurationAction::Offer(p),
        packet is FinishConfiguration <==> action is Finish,
        packet is SelectKnownPacks ==> (action matches ConfigurationAction::SelectKnownPacks(packs)
            && packs@.len() == 1 && packs@[0].namespace@ == "minecraft"@ && packs@[0].id@
            == "core"@ && packs@[0].version@ == "1.21.4"@),
        packet is Disconnect ==> action matches ConfigurationAction::Fail(
            MineRiderError::Disconnected(_),
        ),
        packet is RemoveResourcePack ==> action is Nothing,
        !(packet is RegistryData) ==> final(c).data == old(c).data,
        final(c).read == old(c).read,
{
}

/// An offer is answered by its own number: accepted is three and declined one.
pub proof fn law_offers_are_answered_by_number(
    pack: &PacketCommonAddResourcePack,
    accept: bool,
    r: PacketResourcePackReceive,
)
    requires
        call_ensures(answer_offer, (pack, accept), r),
    ensures
        r.uuid == pack.uuid,
        accept <==> r.result == 3,
        !accept <==> r.result == 1,
{
}

/// A download is reported by the pack's number: downloaded and loaded where it came,
/// five for a bad address, two for any other failure.
pub proof fn law_downloads_are_reported(
    uuid: u128,
    download: Download,
    r: Vec<PacketResourcePackReceive>,
    i: int,
)
    requires
        call_ensures(report_download, (uuid, download), r),
    ensures
        0 <= i < r@.len() ==> r@[i].uuid == uuid,
        download is Done ==> r@.len() == 2 && r@[0].result == 4 && r@[1].result == 0,
        download == Download::Failed(DownloadFailure::InvalidUrl) ==> r@.len() == 1 && r@[0].result
            == 5,
        download matches Download::Failed(DownloadFailure::Failed(_)) ==> r@.len() == 1
            && r@[0].result == 2,
        download is TimedOut ==> r@.len() == 1 && r@[0].result == 2,
{
}

/// Archives come over the web, from a host.
pub proof fn law_archives_come_over_the_web(scheme: &str, host: bool, web: bool)
    requires
        call_ensures(is_web_address, (scheme, host), web),
    ensures
        web <==> host && (scheme@ == seq!['h', 't', 't', 'p'] || scheme@ == seq![
            'h',
            't',
            't',
            'p',
            's',
        ]),
{
    reveal_strlit("http");
    reveal_strlit("https");
    assert("http"@ =~= seq!['h', 't', 't', 'p']);
    assert("https"@ =~= seq!['h', 't', 't', 'p', 's']);
}

/// A response is taken where it succeeded and says a size of no more than a hundred
/// mebibytes.
pub proof fn law_responses_say_their_size(
    success: bool,
    length: Option<u64>,
    res: Result<u64, DownloadFailure>,
)
    requires
        call_ensures(check_response, (success, length), res),
    ensures
        res matches Ok(n) ==> success && length == Some(n) && n <= 100 * 1024 * 1024,
        success && length is Some && length->0 <= 100 * 1024 * 1024 ==> res is Ok,
        !success ==> res == Err::<u64, _>(DownloadFailure::Failed(Failure::Status)),
        success && length is None ==> res == Err::<u64, _>(
            DownloadFailure::Failed(Failure::MissingContentLength),
        ),
        success && length is Some && length->0 > 100 * 1024 * 1024 ==> res == Err::<u64, _>(
            DownloadFailure::Failed(Failure::TooLarge),
        ),
{
}

/// Trimming takes white space off the ends and leaves the rest.
pub proof fn law_trimming_takes_space_off_the_ends(s: Seq<char>, front: Seq<char>, back: Seq<char>)
    requires
        s.len() > 0,
        !crate::minecraft::resource_pack::is_space(s[0]),
        !crate::minecraft::resource_pack::is_space(s.last()),
        forall|i: int|
            0 <= i < front.len() ==> crate::minecraft::resource_pack::is_space(#[trigger] front[i]),
        forall|i: int|
            0 <= i < back.len() ==> crate::minecraft::resource_pack::is_space(#[trigger] back[i]),
    ensures
        trimmed(front + s + back) == s,
    decreases front.len() + back.len(),
{
    if front.len() > 0 {
        let rest = front.drop_first();
        assert(front[0] == (front + s + back)[0]);
        assert((front + s + back).drop_first() =~= rest + s + back);
        assert(forall|i: int| 0 <= i < rest.len() ==> #[trigger] rest[i] == front[i + 1]);
        law_trimming_takes_space_off_the_ends(s, rest, back);
    } else {
        assert(front + s + back =~= s + back);
        assert((s + back)[0] == s[0]);
        lemma_trimmed_end(s, back);
    }
}

/// What is trimmed has lost the white space at its ends and nothing else.
pub proof fn law_trimmed_texts_have_lost_their_ends(
    text: &str,
    t: String,
    s: Seq<char>,
    front: Seq<char>,
    back: Seq<char>,
)
    requires
        call_ensures(trim, (text,), t),
        text@ == front + s + back,
        s.len() > 0,
        !crate::minecraft::resource_pack::is_space(s[0]),
        !crate::minecraft::resource_pack::is_space(s.last()),
        forall|i: int|
            0 <= i < front.len() ==> crate::minecraft::resource_pack::is_space(#[trigger] front[i]),
        forall|i: int|
            0 <= i < back.len() ==> crate::minecraft::resource_pack::is_space(#[trigger] back[i]),
    ensures
        t@ == s,
{
    law_trimming_takes_space_off_the_ends(s, front, back);
}

proof fn lemma_trimmed_end(s: Seq<char>, back: Seq<char>)
    requires
        s.len() > 0,
        !crate::minecraft::resource_pack::is_space(s.last()),
        forall|i: int|
            0 <= i < back.len() ==> crate::minecraft::resource_pack::is_space(#[trigger] back[i]),
    ensures
        crate::minecraft::resource_pack::trimmed_end(s + back) == s,
    decreases back.len(),
{
    if back.len() > 0 {
        let rest = back.drop_last();
        assert((s + back).last() == back[back.len() - 1]);
        assert((s + back).drop_last() =~= s + rest);
        assert(forall|i: int| 0 <= i < rest.len() ==> #[trigger] rest[i] == back[i]);
        lemma_trimmed_end(s, rest);
    } else {
        assert(s + back =~= s);
    }
}

/// The two digits of a byte, in either case.
pub open spec fn writes_byte(high: char, low: char, byte: u8) -> bool {
    let (h, l) = (byte / 16, byte % 16);
    &&& if h < 10 {
        high == (48 + h) as char
    } else {
        high == (87 + h) as char || high == (55 + h) as char
    }
    &&& if l < 10 {
        low == (48 + l) as char
    } else {
        low == (87 + l) as char || low == (55 + l) as char
    }
}

/// A digest passes where the field is empty or writes it out, two digits for each
/// byte; a field that writes no digest is refused as such.
pub proof fn law_digests_are_written_in_hexadecimal(
    field: &str,
    digest: &Vec<u8>,
    res: Result<(), DownloadFailure>,
    i: int,
)
    requires
        call_ensures(check_digest, (field, digest), res),
        digest@.len() == 20,
    ensures
        field@.len() == 0 ==> res is Ok,
        field@.len() > 0 && field@.len() != 40 ==> res == Err::<(), _>(
            DownloadFailure::Failed(Failure::InvalidSha1Field),
        ),
        field@.len() == 40 && (forall|k: int|
            0 <= k < 20 ==> writes_byte(field@[2 * k], field@[2 * k + 1], #[trigger] digest@[k]))
            ==> res is Ok,
        field@.len() > 0 && res is Ok && 0 <= i < 20 ==> writes_byte(
            field@[2 * i],
            field@[2 * i + 1],
            digest@[i],
        ),
{
    let f = field@;
    if f.len() == 40 && (forall|k: int|
        0 <= k < 20 ==> writes_byte(f[2 * k], f[2 * k + 1], #[trigger] digest@[k])) {
        assert forall|j: int| 0 <= j < f.len() implies crate::minecraft::resource_pack::hex_value(
            #[trigger] f[j],
        ) is Some by {
            let k = j / 2;
            assert(writes_byte(f[2 * k], f[2 * k + 1], digest@[k]));
            assert(j == 2 * k || j == 2 * k + 1);
        }
        assert(crate::minecraft::resource_pack::is_sha1_text(f));
        assert(crate::minecraft::resource_pack::writes_bytes(f, digest@)) by {
            assert forall|k: int| 0 <= k < digest@.len() implies #[trigger] digest@[k] == 16
                * crate::minecraft::resource_pack::hex_value(f[2 * k])->0
                + crate::minecraft::resource_pack::hex_value(f[2 * k + 1])->0 by {
                assert(writes_byte(f[2 * k], f[2 * k + 1], digest@[k]));
            }
        }
    }
    if f.len() > 0 && res is Ok && 0 <= i < 20 {
        assert(crate::minecraft::resource_pack::hex_value(f[2 * i]) is Some);
        assert(crate::minecraft::resource_pack::hex_value(f[2 * i + 1]) is Some);
        assert(digest@[i] == 16 * crate::minecraft::resource_pack::hex_value(f[2 * i])->0
            + crate::minecraft::resource_pack::hex_value(f[2 * i + 1])->0);
    }
}

/// A body passes where it has the size that was declared and its digest passes; then
/// its size is given.
pub proof fn law_bodies_have_the_declared_size(
    body: &[u8],
    declared: u64,
    hash: &str,
    field: &str,
    digest: &Vec<u8>,
    verdict: Result<(), DownloadFailure>,
    res: Result<u64, DownloadFailure>,
)
    requires
        call_ensures(verify_body, (body, declared, hash), res),
        call_ensures(check_digest, (field, digest), verdict),
        field@ == trimmed(hash@),
        digest@ == sha1_of(body@),
    ensures
        res matches Ok(n) ==> n == body@.len() && n == declared && verdict is Ok,
        body@.len() == declared && declared <= 100 * 1024 * 1024 && verdict is Ok ==> res is Ok,
        body@.len() != declared ==> res == Err::<u64, _>(
            DownloadFailure::Failed(Failure::InvalidSize),
        ),
        body@.len() == declared && declared <= 100 * 1024 * 1024 && verdict is Err ==> res
            == Err::<u64, _>(verdict->Err_0),
{
}

/// A handshake that was written is read back, and what follows it stays; a host of more
/// than 32767 characters is not written.
pub proof fn law_handshakes_are_read_back(
    p: &PacketSetProtocol,
    w: &mut PacketWriter,
    r: &mut PacketReader<'_>,
    put: Result<(), MineRiderError>,
    got: Result<PacketSetProtocol, MineRiderError>,
    rest: Seq<u8>,
)
    requires
        call_ensures(PacketSetProtocol::encode, (p, w), put),
        call_ensures(PacketSetProtocol::decode, (r,), got),
        old(w)@.len() == 0,
        old(r)@ == final(w)@ + rest,
    ensures
        put is Ok <==> p.server_host@.len() <= 32767,
        put is Ok ==> (got matches Ok(q) && q.protocol_version == p.protocol_version
            && q.server_host@ == p.server_host@ && q.server_port == p.server_port && q.next_state
            == p.next_state) && final(r)@ == rest,
{
    if put is Ok {
        assert(old(w)@ + handshake_bytes(*p) =~= handshake_bytes(*p));
        crate::minecraft::handshake::law_handshake_round_trip(*p, rest);
    }
}

/// A dimension has a section for every sixteen layers, the lowest numbered by its
/// lowest layer.
pub proof fn law_dimensions_have_sections_of_sixteen_layers(
    d: &DimensionType,
    n: usize,
    lowest: i32,
)
    requires
        call_ensures(DimensionType::section_count, (d,), n),
        call_ensures(DimensionType::min_section_y, (d,), lowest),
    ensures
        d.height >= 0 ==> 16 * n <= d.height < 16 * (n + 1),
        16 * lowest <= d.min_y < 16 * (lowest + 1),
{
}

/// The core pack of the version is the one that is known.
pub proof fn law_the_core_pack_is_known(packs: Vec<KnownPack>)
    requires
        call_ensures(known_packs, (), packs),
    ensures
        packs@.len() == 1,
        packs@[0].namespace@ == "minecraft"@,
        packs@[0].id@ == "core"@,
        packs@[0].version@ == "1.21.4"@,
{
}

/// An address is good where it parses to one of the web with a host; any other is
/// refused as such.
pub proof fn law_addresses_are_of_the_web(url: &str, res: Result<(), DownloadFailure>)
    requires
        call_ensures(check_url, (url,), res),
    ensures
        res is Ok <==> (parsed_url(url@) matches Some((scheme, host)) && host && (scheme
            == "http"@ || scheme == "https"@)),
        res matches Err(e) ==> e is InvalidUrl,
{
}

/// A packet of the configuration that nothing handles is passed over, with a warning
/// where it is kept for later or not supported.
pub proof fn law_passed_over_packets_may_warn(
    c: &mut Configuration,
    packet: ConfigurationPacket,
    action: ConfigurationAction,
    e: CoverageEntry,
)
    requires
        call_ensures(
            Configuration::react,
            (c, ConfigurationClientbound::Other { packet }),
            action,
        ),
        call_ensures(configuration_coverage, (packet,), e),
    ensures
        action == (ConfigurationAction::Ignore {
            warn: e.class is StoredForLater || e.class is Unsupported,
        }),
        final(c).data == old(c).data,
{
}

/// What a configuration or a login says when it goes wrong.
pub proof fn law_joining_says_what_went_wrong(
    l: &mut Login,
    c: &mut Configuration,
    login: Result<(), MineRiderError>,
    configuration: Result<(), MineRiderError>,
    fresh: Login,
    start: Configuration,
)
    requires
        call_ensures(Login::next_packet, (l,), login),
        call_ensures(Configuration::next_packet, (c,), configuration),
        call_ensures(Login::new, (), fresh),
        call_ensures(Configuration::new, (), start),
    ensures
        login matches Err(e) ==> (e matches MineRiderError::Protocol(s) && s@
            == "login did not complete within 64 packets"@),
        configuration matches Err(e) ==> (e matches MineRiderError::Protocol(s) && s@
            == "configuration did not finish within 512 packets"@),
        fresh.read == 0 && start.read == 0,
        start.data.dimension_types@.len() == 0,
{
}

} // verus!
