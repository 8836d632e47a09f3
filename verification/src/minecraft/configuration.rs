//! Configuration state: keep-alive/ping echo, known packs, registries, finish.
use crate::error::{protocol_error, MineRiderError};
use crate::minecraft::coverage::{
    configuration_coverage, configuration_entry, ConfigurationPacket, CoverageClass,
};
use crate::minecraft::nbt::Nbt;
use crate::minecraft::nbt_text::{append_tag, tag_text};
use crate::minecraft::resource_pack::PacketCommonAddResourcePack;
use crate::minecraft::settings::{nbt_reason_text, reason_text};
use crate::text_build::{append_int, decimal, same_text, text_around};
use vstd::prelude::*;

verus! {

/// Safety bound on packets read during configuration.
pub const MAX_CONFIGURATION_PACKETS: usize = 512;

/// The registry that describes the dimensions.
pub const DIMENSION_TYPE_REGISTRY: &'static str = "minecraft:dimension_type";

/// Registry information retained from configuration for play-state decoding.
#[derive(Debug)]
pub struct ConfigurationData {
    pub dimension_types: Vec<DimensionType>,
}

/// The dimension properties needed to decode chunks and run world physics.
#[derive(Debug)]
pub struct DimensionType {
    pub key: String,
    pub min_y: i32,
    pub height: i32,
    pub logical_height: i32,
    /// The bits of a double-precision number.
    pub coordinate_scale: u64,
    pub ultrawarm: bool,
    pub has_ceiling: bool,
}

/// Double-precision one.
pub const SCALE_ONE: u64 = 0x3FF0_0000_0000_0000;

/// Double-precision eight.
pub const SCALE_EIGHT: u64 = 0x4020_0000_0000_0000;

impl Clone for DimensionType {
    fn clone(&self) -> (r: Self)
        ensures
            r == *self,
    {
        DimensionType { key: self.key.clone(), ..*self }
    }
}

impl DimensionType {
    /// The bounds that chunk decoding relies on.
    pub open spec fn bounded(self) -> bool {
        self.height > 0 && self.height % 16 == 0 && self.min_y % 16 == 0 && self.height / 16 <= 256
    }

    /// How many sections of sixteen layers a column holds. A height below minus
    /// fifteen wraps around.
    pub fn section_count(&self) -> (n: usize)
        ensures
            self.height >= 0 ==> n == self.height / 16,
            -16 < self.height < 0 ==> n == 0,
            self.height <= -16 ==> n == usize::MAX + 1 - (-self.height) / 16,
    {
        if self.height >= 0 {
            (self.height / 16) as usize
        } else {
            let below: usize = ((-(self.height as i64)) / 16) as usize;
            if below == 0 {
                0
            } else {
                usize::MAX - (below - 1)
            }
        }
    }

    /// The number of the lowest section.
    pub fn min_section_y(&self) -> (y: i32)
        ensures
            y == self.min_y as int / 16,
    {
        floor_div_16(self.min_y)
    }
}

/// The quotient by sixteen, rounded down.
pub fn floor_div_16(n: i32) -> (q: i32)
    ensures
        q == n as int / 16,
{
    if n >= 0 {
        n / 16
    } else {
        -((-(n + 1)) / 16) - 1
    }
}

/// The remainder by sixteen, never negative.
pub fn floor_mod_16(n: i32) -> (m: usize)
    ensures
        m == n as int % 16,
{
    let m: i64 = n as i64 - floor_div_16(n) as i64 * 16;
    m as usize
}

impl Default for ConfigurationData {
    fn default() -> (d: Self)
        ensures
            d.dimension_types@ == Seq::<DimensionType>::empty(),
    {
        ConfigurationData { dimension_types: Vec::new() }
    }
}

impl ConfigurationData {
    /// Every dimension kept has the bounds that chunk decoding relies on.
    pub open spec fn bounded(self) -> bool {
        forall|i: int|
            0 <= i < self.dimension_types@.len() ==> (#[trigger] self.dimension_types@[i]).bounded()
    }
}

/// One entry of a registry; a known pack may leave its value out.
pub struct RegistryEntry {
    pub key: String,
    pub value: Option<Nbt>,
}

/// A registry as the server sends it.
pub struct PacketRegistryData {
    pub id: String,
    pub entries: Vec<RegistryEntry>,
}

/// How a field of the wrong kind is reported: what it must be, and what was
/// found.
pub open spec fn wrong_kind(value: Nbt, key: Seq<char>, must: Seq<char>) -> Seq<char> {
    "dimension_type "@ + key + must + match value.field(key) {
        Some(tag) => "Some("@ + tag_text(tag) + ")"@,
        None => "None"@,
    }
}

fn kind_error(value: &Nbt, key: &str, must: &str) -> (e: MineRiderError)
    ensures
        e.is_protocol(wrong_kind(*value, key@, must@)),
{
    let mut text = text_around("dimension_type ", key, must);
    match value.get(key) {
        Some(tag) => {
            text.append("Some(");
            append_tag(&mut text, tag);
            text.append(")");
        },
        None => text.append("None"),
    }
    proof {
        assert(text@ =~= wrong_kind(*value, key@, must@));
    }
    MineRiderError::Protocol(text)
}

/// An int of a compound, or what is wrong with it.
pub open spec fn int_field(value: Nbt, key: Seq<char>) -> Result<i32, Seq<char>> {
    match value.field(key) {
        Some(Nbt::Int(v)) => Ok(v),
        _ => Err(wrong_kind(value, key, " must be an int, got "@)),
    }
}

/// A double of a compound, or what is wrong with it.
pub open spec fn double_field(value: Nbt, key: Seq<char>) -> Result<u64, Seq<char>> {
    match value.field(key) {
        Some(Nbt::Double(v)) => Ok(v),
        _ => Err(wrong_kind(value, key, " must be a double, got "@)),
    }
}

/// A byte of a compound read as a flag, or what is wrong with it.
pub open spec fn flag_field(value: Nbt, key: Seq<char>) -> Result<bool, Seq<char>> {
    match value.field(key) {
        Some(Nbt::Byte(v)) => Ok(v != 0),
        _ => Err(wrong_kind(value, key, " must be a byte, got "@)),
    }
}

/// A result over text, as an executable function gives it.
pub open spec fn agrees<T>(res: Result<T, MineRiderError>, want: Result<T, Seq<char>>) -> bool {
    match (res, want) {
        (Ok(v), Ok(w)) => v == w,
        (Err(e), Err(t)) => e.is_protocol(t),
        _ => false,
    }
}

fn nbt_i32(value: &Nbt, key: &str) -> (res: Result<i32, MineRiderError>)
    ensures
        agrees(res, int_field(*value, key@)),
{
    match value.get(key) {
        Some(Nbt::Int(v)) => Ok(*v),
        _ => Err(kind_error(value, key, " must be an int, got ")),
    }
}

fn nbt_f64(value: &Nbt, key: &str) -> (res: Result<u64, MineRiderError>)
    ensures
        agrees(res, double_field(*value, key@)),
{
    match value.get(key) {
        Some(Nbt::Double(v)) => Ok(*v),
        _ => Err(kind_error(value, key, " must be a double, got ")),
    }
}

fn nbt_bool(value: &Nbt, key: &str) -> (res: Result<bool, MineRiderError>)
    ensures
        agrees(res, flag_field(*value, key@)),
{
    match value.get(key) {
        Some(Nbt::Byte(v)) => Ok(*v != 0),
        _ => Err(kind_error(value, key, " must be a byte, got ")),
    }
}

/// The dimensions that every client knows by name.
pub open spec fn vanilla_dimension(key: String) -> Option<DimensionType> {
    if key@ == "minecraft:overworld"@ || key@ == "minecraft:overworld_caves"@ {
        Some(
            DimensionType {
                key,
                min_y: -64i32,
                height: 384,
                logical_height: 384,
                coordinate_scale: SCALE_ONE,
                ultrawarm: false,
                has_ceiling: false,
            },
        )
    } else if key@ == "minecraft:the_nether"@ {
        Some(
            DimensionType {
                key,
                min_y: 0,
                height: 256,
                logical_height: 128,
                coordinate_scale: SCALE_EIGHT,
                ultrawarm: true,
                has_ceiling: true,
            },
        )
    } else if key@ == "minecraft:the_end"@ {
        Some(
            DimensionType {
                key,
                min_y: 0,
                height: 256,
                logical_height: 256,
                coordinate_scale: SCALE_ONE,
                ultrawarm: false,
                has_ceiling: false,
            },
        )
    } else {
        None
    }
}

/// The dimension that every client knows by this name, if there is one.
pub fn vanilla_dimension_type(key: &String) -> (d: Option<DimensionType>)
    ensures
        d == vanilla_dimension(*key),
{
    let name = key.as_str();
    if same_text(name, "minecraft:overworld") || same_text(name, "minecraft:overworld_caves") {
        Some(
            DimensionType {
                key: key.clone(),
                min_y: -64,
                height: 384,
                logical_height: 384,
                coordinate_scale: SCALE_ONE,
                ultrawarm: false,
                has_ceiling: false,
            },
        )
    } else if same_text(name, "minecraft:the_nether") {
        Some(
            DimensionType {
                key: key.clone(),
                min_y: 0,
                height: 256,
                logical_height: 128,
                coordinate_scale: SCALE_EIGHT,
                ultrawarm: true,
                has_ceiling: true,
            },
        )
    } else if same_text(name, "minecraft:the_end") {
        Some(
            DimensionType {
                key: key.clone(),
                min_y: 0,
                height: 256,
                logical_height: 256,
                coordinate_scale: SCALE_ONE,
                ultrawarm: false,
                has_ceiling: false,
            },
        )
    } else {
        None
    }
}

/// The dimension that an inline value describes: its fields are looked at in
/// a fixed order, and the first that is missing or of another type is named.
pub open spec fn inline_dimension(key: String, value: Nbt) -> Result<DimensionType, Seq<char>> {
    match int_field(value, "min_y"@) {
        Err(t) => Err(t),
        Ok(min_y) => match int_field(value, "height"@) {
            Err(t) => Err(t),
            Ok(height) => match int_field(value, "logical_height"@) {
                Err(t) => Err(t),
                Ok(logical_height) => match double_field(value, "coordinate_scale"@) {
                    Err(t) => Err(t),
                    Ok(coordinate_scale) => match flag_field(value, "ultrawarm"@) {
                        Err(t) => Err(t),
                        Ok(ultrawarm) => match flag_field(value, "has_ceiling"@) {
                            Err(t) => Err(t),
                            Ok(has_ceiling) => Ok(
                                DimensionType {
                                    key,
                                    min_y,
                                    height,
                                    logical_height,
                                    coordinate_scale,
                                    ultrawarm,
                                    has_ceiling,
                                },
                            ),
                        },
                    },
                },
            },
        },
    }
}

fn inline_dimension_type(key: &String, value: &Nbt) -> (res: Result<DimensionType, MineRiderError>)
    ensures
        agrees(res, inline_dimension(*key, *value)),
{
    let min_y: i32 = match nbt_i32(value, "min_y") {
        Ok(v) => v,
        Err(e) => return Err(e),
    };
    let height: i32 = match nbt_i32(value, "height") {
        Ok(v) => v,
        Err(e) => return Err(e),
    };
    let logical_height: i32 = match nbt_i32(value, "logical_height") {
        Ok(v) => v,
        Err(e) => return Err(e),
    };
    let coordinate_scale: u64 = match nbt_f64(value, "coordinate_scale") {
        Ok(v) => v,
        Err(e) => return Err(e),
    };
    let ultrawarm = match nbt_bool(value, "ultrawarm") {
        Ok(v) => v,
        Err(e) => return Err(e),
    };
    let has_ceiling = match nbt_bool(value, "has_ceiling") {
        Ok(v) => v,
        Err(e) => return Err(e),
    };
    Ok(
        DimensionType {
            key: key.clone(),
            min_y,
            height,
            logical_height,
            coordinate_scale,
            ultrawarm,
            has_ceiling,
        },
    )
}

/// What an entry of the registry describes, or what is wrong with it.
pub open spec fn entry_dimension(entry: RegistryEntry) -> Result<DimensionType, Seq<char>> {
    let described = match entry.value {
        Some(value) => inline_dimension(entry.key, value),
        None => match vanilla_dimension(entry.key) {
            Some(d) => Ok(d),
            None => Err("unknown dimension_type "@ + entry.key@ + " omitted its inline value"@),
        },
    };
    match described {
        Ok(d) => if d.bounded() {
            Ok(d)
        } else {
            Err(bounds_text(d))
        },
        Err(t) => Err(t),
    }
}

/// How bounds that do not fit are reported.
pub open spec fn bounds_text(d: DimensionType) -> Seq<char> {
    "invalid dimension_type bounds for "@ + d.key@ + ": min_y "@ + decimal(d.min_y as int)
        + ", height "@ + decimal(d.height as int)
}

/// The dimensions kept from a registry, and what was wrong with the entry at
/// which reading stopped.
pub open spec fn registry_dimensions(
    entries: Seq<RegistryEntry>,
    kept: Seq<DimensionType>,
) -> (Seq<DimensionType>, Option<Seq<char>>)
    decreases entries.len(),
{
    if entries.len() == 0 {
        (kept, None)
    } else {
        match entry_dimension(entries[0]) {
            Ok(d) => registry_dimensions(entries.drop_first(), kept.push(d)),
            Err(t) => (kept, Some(t)),
        }
    }
}

/// Keeps what a registry says of the dimensions, in place of what was known;
/// other registries are passed over.
pub fn store_registry(data: &mut ConfigurationData, packet: &PacketRegistryData) -> (res: Result<
    (),
    MineRiderError,
>)
    ensures
        packet.id@ != DIMENSION_TYPE_REGISTRY@ ==> *final(data) == *old(data) && res is Ok,
        packet.id@ == DIMENSION_TYPE_REGISTRY@ ==> {
            let (kept, wrong) = registry_dimensions(packet.entries@, Seq::empty());
            &&& final(data).dimension_types@ == kept
            &&& match (res, wrong) {
                (Ok(_), None) => true,
                (Err(e), Some(t)) => e.is_protocol(t),
                _ => false,
            }
        },
        old(data).bounded() ==> final(data).bounded(),
{
    if !same_text(packet.id.as_str(), DIMENSION_TYPE_REGISTRY) {
        return Ok(());
    }
    data.dimension_types.clear();
    let mut i: usize = 0;
    proof {
        assert(packet.entries@.skip(0) =~= packet.entries@);
        assert(data.dimension_types@ =~= Seq::empty());
    }
    while i < packet.entries.len()
        invariant
            packet.id@ == DIMENSION_TYPE_REGISTRY@,
            i <= packet.entries@.len(),
            registry_dimensions(packet.entries@.skip(i as int), data.dimension_types@)
                == registry_dimensions(packet.entries@, Seq::empty()),
            data.bounded(),
        decreases packet.entries@.len() - i,
    {
        let entry: &RegistryEntry = &packet.entries[i];
        proof {
            assert(packet.entries@.skip(i as int)[0] == *entry);
            assert(packet.entries@.skip(i as int).drop_first() =~= packet.entries@.skip(i + 1));
        }
        let dimension = match &entry.value {
            Some(value) => match inline_dimension_type(&entry.key, value) {
                Ok(d) => d,
                Err(e) => return Err(e),
            },
            None => match vanilla_dimension_type(&entry.key) {
                Some(d) => d,
                None => return Err(
                    MineRiderError::Protocol(
                        text_around(
                            "unknown dimension_type ",
                            entry.key.as_str(),
                            " omitted its inline value",
                        ),
                    ),
                ),
            },
        };
        if dimension.height <= 0 || dimension.height % 16 != 0 || !multiple_of_16(dimension.min_y)
            || dimension.section_count() > 256 {
            let mut text = text_around(
                "invalid dimension_type bounds for ",
                dimension.key.as_str(),
                ": min_y ",
            );
            append_int(&mut text, dimension.min_y as i128);
            text.append(", height ");
            append_int(&mut text, dimension.height as i128);
            return Err(MineRiderError::Protocol(text));
        }
        data.dimension_types.push(dimension);
        i += 1;
    }
    proof {
        assert(packet.entries@.skip(i as int) =~= Seq::empty());
    }
    Ok(())
}

fn multiple_of_16(n: i32) -> (b: bool)
    ensures
        b == (n as int % 16 == 0),
{
    floor_mod_16(n) == 0
}

/// A pack of data that both sides know.
#[derive(Debug)]
pub struct KnownPack {
    pub namespace: String,
    pub id: String,
    pub version: String,
}

/// A packet of the configuration state, decoded.
pub enum ConfigurationClientbound {
    Disconnect { reason: Nbt },
    FinishConfiguration,
    RegistryData(PacketRegistryData),
    KeepAlive { payload: Vec<u8> },
    Ping { payload: Vec<u8> },
    AddResourcePack(PacketCommonAddResourcePack),
    RemoveResourcePack,
    SelectKnownPacks,
    Other { packet: ConfigurationPacket },
}

/// What the client does next.
pub enum ConfigurationAction {
    /// Send this back as a keep-alive.
    KeepAlive { payload: Vec<u8> },
    /// Send this back as a pong.
    Pong { payload: Vec<u8> },
    /// Answer the offer of an archive.
    Offer(PacketCommonAddResourcePack),
    /// Select these packs.
    SelectKnownPacks(Vec<KnownPack>),
    /// Acknowledge, and go on to the play state.
    Finish,
    /// Read on.
    Nothing,
    /// Read on, and note that the packet was passed over. The flag tells
    /// whether that deserves a warning.
    Ignore { warn: bool },
    /// Give up.
    Fail(MineRiderError),
}

/// Whether these are the packs that a vanilla client selects: the built-in core
/// pack alone. Selecting every offered pack can make the server omit registry
/// data.
pub open spec fn selects_core(packs: Seq<KnownPack>) -> bool {
    &&& packs.len() == 1
    &&& packs[0].namespace@ == "minecraft"@
    &&& packs[0].id@ == "core"@
    &&& packs[0].version@ == "1.21.4"@
}

/// The packs that a vanilla client selects.
pub fn known_packs() -> (packs: Vec<KnownPack>)
    ensures
        selects_core(packs@),
{
    let mut packs: Vec<KnownPack> = Vec::new();
    packs.push(
        KnownPack {
            namespace: "minecraft".to_owned(),
            id: "core".to_owned(),
            version: "1.21.4".to_owned(),
        },
    );
    packs
}

/// How far the configuration is.
pub struct Configuration {
    pub data: ConfigurationData,
    /// Packets read so far.
    pub read: usize,
}

/// Whether a packet that nothing handles deserves a warning.
pub open spec fn warns(packet: ConfigurationPacket) -> bool {
    let class = configuration_entry(packet).class;
    class == CoverageClass::StoredForLater || class == CoverageClass::Unsupported
}

/// What becomes of a packet of the configuration state.
pub open spec fn configuration_reaction(
    before: ConfigurationData,
    packet: ConfigurationClientbound,
    after: ConfigurationData,
    action: ConfigurationAction,
) -> bool {
    match packet {
        ConfigurationClientbound::RegistryData(registry) => {
            if registry.id@ != DIMENSION_TYPE_REGISTRY@ {
                action == ConfigurationAction::Nothing && after == before
            } else {
                let (kept, wrong) = registry_dimensions(registry.entries@, Seq::empty());
                &&& after.dimension_types@ == kept
                &&& match wrong {
                    None => action == ConfigurationAction::Nothing,
                    Some(text) => action matches ConfigurationAction::Fail(e) && e.is_protocol(
                        text,
                    ),
                }
            }
        },
        other => after == before && match other {
            ConfigurationClientbound::Disconnect { reason } => action matches
                ConfigurationAction::Fail(e) && e.is_disconnected(reason_text(reason)),
            ConfigurationClientbound::FinishConfiguration => action == ConfigurationAction::Finish,
            ConfigurationClientbound::KeepAlive { payload } => action == (
            ConfigurationAction::KeepAlive { payload }),
            ConfigurationClientbound::Ping { payload } => action == (ConfigurationAction::Pong {
                payload,
            }),
            ConfigurationClientbound::AddResourcePack(pack) => action == ConfigurationAction::Offer(
                pack,
            ),
            ConfigurationClientbound::RemoveResourcePack => action == ConfigurationAction::Nothing,
            ConfigurationClientbound::SelectKnownPacks => action matches
                ConfigurationAction::SelectKnownPacks(packs) && selects_core(packs@),
            ConfigurationClientbound::Other { packet } => action == (ConfigurationAction::Ignore {
                warn: warns(packet),
            }),
            ConfigurationClientbound::RegistryData(_) => true,
        },
    }
}

impl Configuration {
    /// Nothing was read yet.
    pub fn new() -> (c: Self)
        ensures
            c.read == 0,
            c.data.dimension_types@ == Seq::<DimensionType>::empty(),
            c.data.bounded(),
    {
        Configuration { data: ConfigurationData::default(), read: 0 }
    }

    /// Counts one more packet, unless there were too many.
    pub fn next_packet(&mut self) -> (res: Result<(), MineRiderError>)
        ensures
            final(self).data == old(self).data,
            match res {
                Ok(_) => old(self).read < MAX_CONFIGURATION_PACKETS && final(self).read == old(
                    self,
                ).read + 1,
                Err(e) => old(self).read >= MAX_CONFIGURATION_PACKETS && final(self).read == old(
                    self,
                ).read && e.is_protocol("configuration did not finish within 512 packets"@),
            },
    {
        if self.read >= MAX_CONFIGURATION_PACKETS {
            return Err(protocol_error("configuration did not finish within 512 packets"));
        }
        self.read += 1;
        Ok(())
    }

    /// Decides what becomes of a packet of the configuration state.
    pub fn react(&mut self, packet: ConfigurationClientbound) -> (action: ConfigurationAction)
        ensures
            final(self).read == old(self).read,
            configuration_reaction(old(self).data, packet, final(self).data, action),
            old(self).data.bounded() ==> final(self).data.bounded(),
    {
        match packet {
            ConfigurationClientbound::Disconnect { reason } => ConfigurationAction::Fail(
                MineRiderError::Disconnected(nbt_reason_text(&reason)),
            ),
            ConfigurationClientbound::FinishConfiguration => ConfigurationAction::Finish,
            ConfigurationClientbound::RegistryData(registry) => match store_registry(
                &mut self.data,
                &registry,
            ) {
                Ok(_) => ConfigurationAction::Nothing,
                Err(e) => ConfigurationAction::Fail(e),
            },
            ConfigurationClientbound::KeepAlive { payload } => ConfigurationAction::KeepAlive {
                payload,
            },
            ConfigurationClientbound::Ping { payload } => ConfigurationAction::Pong { payload },
            ConfigurationClientbound::AddResourcePack(pack) => ConfigurationAction::Offer(pack),
            ConfigurationClientbound::RemoveResourcePack => ConfigurationAction::Nothing,
            ConfigurationClientbound::SelectKnownPacks => ConfigurationAction::SelectKnownPacks(
                known_packs(),
            ),
            ConfigurationClientbound::Other { packet } => {
                let entry = configuration_coverage(packet);
                let warn = match entry.class {
                    CoverageClass::Handled | CoverageClass::IntentionallyIgnored => false,
                    CoverageClass::StoredForLater | CoverageClass::Unsupported => true,
                };
                ConfigurationAction::Ignore { warn }
            },
        }
    }
}

} // verus!
