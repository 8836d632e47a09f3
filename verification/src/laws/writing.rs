//! Numbers and texts in reports.
use crate::error::{protocol_error, MineRiderError};
use crate::minecraft::control::ActionValidationError;
use crate::minecraft::inventory::InventoryError;
use crate::minecraft::login::bad_username;
use crate::minecraft::nbt::Nbt;
use crate::minecraft::nbt_text::append_tag;
use crate::minecraft::resource_pack::Failure;
use crate::minecraft::world::CollisionFault;
use crate::network::connection::connect_timed_out;
use crate::network::socks5::{
    EnvConfigError, Negotiation, ProxyPassword, ProxySocks5Error, Socks5Credentials,
    Socks5ProxyConfig, Socks5Reply,
};
use crate::text_build::{
    append_hex, append_int, debug_text, decimal, same_text, text_around, text_with, text_with_two,
};
use vstd::prelude::*;

verus! {

/// Numbers are appended digit by digit: one digit is itself, a longer number its front
/// and its last digit, and one below zero has a minus in front.
pub proof fn law_numbers_are_appended(s: &mut String, n: i128, h: &mut String, m: i32)
    requires
        call_ensures(append_int, (s, n), ()),
        call_ensures(append_hex, (h, m), ()),
    ensures
        0 <= n < 10 ==> final(s)@ == old(s)@.push((48 + n) as char),
        n >= 10 ==> final(s)@ == old(s)@ + decimal(n as int / 10).push((48 + n % 10) as char),
        n < 0 ==> final(s)@ == old(s)@ + (seq!['-'] + decimal(-n)),
        0 <= m < 10 ==> final(h)@ == old(h)@ + seq!['0', (48 + m) as char],
        10 <= m < 16 ==> final(h)@ == old(h)@ + seq!['0', (87 + m) as char],
{
    crate::laws::wire::law_decimals_are_written_from_the_high_end(n as int);
    crate::laws::wire::law_hex_has_two_digits(m);
    if 0 <= n < 10 {
        assert(final(s)@ =~= old(s)@.push((48 + n) as char));
    }
}

/// Texts are put together in the order they are given.
pub proof fn law_texts_are_put_together_in_order(
    a: &str,
    b: &str,
    c: &str,
    n: i128,
    m: i128,
    one: String,
    two: String,
    around: String,
)
    requires
        call_ensures(text_with, (a, n, b), one),
        call_ensures(text_with_two, (a, n, b, m, c), two),
        call_ensures(text_around, (a, b, c), around),
    ensures
        one@ == a@ + decimal(n as int) + b@,
        two@ == a@ + decimal(n as int) + b@ + decimal(m as int) + c@,
        around@ == a@ + b@ + c@,
{
}

/// Two texts are the same where their characters are.
pub proof fn law_texts_are_the_same_by_their_characters(
    a: &str,
    b: &str,
    same: bool,
    e: MineRiderError,
)
    requires
        call_ensures(same_text, (a, b), same),
        call_ensures(protocol_error, (a,), e),
    ensures
        same <==> a@ == b@,
        e matches MineRiderError::Protocol(s) && s@ == a@,
{
}

/// A whole number as a tag is written with its kind and its value.
pub proof fn law_tags_are_written_with_their_kind(out: &mut String, tag: &Nbt)
    requires
        call_ensures(append_tag, (out, tag), ()),
    ensures
        tag matches Nbt::Int(v) ==> final(out)@ == old(out)@ + ("Int("@ + decimal(*v as int)
            + ")"@),
        tag matches Nbt::Byte(v) ==> final(out)@ == old(out)@ + ("Byte("@ + decimal(*v as int)
            + ")"@),
        tag matches Nbt::Short(v) ==> final(out)@ == old(out)@ + ("Short("@ + decimal(*v as int)
            + ")"@),
        tag matches Nbt::Long(v) ==> final(out)@ == old(out)@ + ("Long("@ + decimal(*v as int)
            + ")"@),
{
}

/// A connection that timed out names its host and its port.
pub proof fn law_timeouts_name_host_and_port(host: &str, port: u16, e: MineRiderError)
    requires
        call_ensures(connect_timed_out, (host, port), e),
    ensures
        e matches MineRiderError::Timeout(s) && s@ == "connecting to "@ + host@ + ":"@ + decimal(
            port as int,
        ),
{
}

/// A proxy keeps its host, its port and its credentials, and shows its endpoint as
/// both with a colon between.
pub proof fn law_proxies_keep_what_they_are_given(
    host: &str,
    port: u16,
    bare: Socks5ProxyConfig,
    username: &str,
    password: &str,
    credentials: Socks5Credentials,
    full: Socks5ProxyConfig,
    endpoint: String,
)
    requires
        call_ensures(Socks5ProxyConfig::new, (host, port), bare),
        call_ensures(Socks5Credentials::new, (username, password), credentials),
        call_ensures(Socks5ProxyConfig::with_credentials, (bare, credentials), full),
        call_ensures(Socks5ProxyConfig::endpoint, (&full,), endpoint),
    ensures
        full.host@ == host@ && full.port == port,
        full.credentials == Some(credentials),
        credentials.username@ == username@ && credentials.password@ == password@,
        bare.credentials is None,
        endpoint@ == host@ + seq![':'] + decimal(port as int),
{
    reveal_strlit(":");
    assert(":"@ =~= seq![':']);
}

/// What is shown of a refused action names what was wrong with it.
pub proof fn law_refusals_name_what_was_wrong(
    e: &ActionValidationError,
    coordinate: &str,
    s: String,
)
    requires
        call_ensures(ActionValidationError::message, (e, coordinate), s),
    ensures
        e matches ActionValidationError::HotbarSlotOutOfRange { slot } ==> s@ == "hotbar slot "@
            + decimal(*slot as int) + " is out of range; must be 0..=8"@,
        e matches ActionValidationError::BlockFaceOutOfRange { face } ==> s@ == "block face "@
            + decimal(*face as int) + " is out of range; must be 0..=5"@,
        e matches ActionValidationError::ChatTooLong { actual, max } ==> s@ == "chat message is "@
            + decimal(*actual as int) + " UTF-16 units; maximum is "@ + decimal(*max as int),
        e is EmptyChat ==> s@ == "chat messages must not be empty"@,
        e is EmptyCommand ==> s@ == "commands must not be empty"@,
{
    reveal_strlit("");
    if let ActionValidationError::ChatTooLong { actual, max } = e {
        let front = "chat message is "@ + decimal(*actual as int) + " UTF-16 units; maximum is "@
            + decimal(*max as int);
        assert(front + ""@ =~= front);
    }
}

/// What is shown of a refused click names the numbers in question.
pub proof fn law_refused_clicks_name_their_numbers(e: &InventoryError, s: String)
    requires
        call_ensures(InventoryError::message, (e,), s),
    ensures
        e matches InventoryError::UnknownWindow { window_id } ==> s@ == "window "@ + decimal(
            *window_id as int,
        ) + " is not open"@,
        e matches InventoryError::InvalidSlot { slot, slot_count } ==> s@ == "slot "@ + decimal(
            *slot as int,
        ) + " is outside the current window's "@ + decimal(*slot_count as int) + " slots"@,
        e matches InventoryError::InvalidHotbarSlot { slot } ==> s@ == "hotbar destination "@
            + decimal(*slot as int) + " is outside 0..=8"@,
        e matches InventoryError::DuplicateTransaction { transaction_id } ==> s@
            == "inventory transaction id "@ + decimal(*transaction_id as int)
            + " already exists"@,
        e is QueueFull ==> s@ == "the bounded inventory transaction queue is full"@,
{
}

/// A collision without an answer names its block, x, y and z in this order, or its
/// state.
pub proof fn law_collision_faults_name_their_block(f: CollisionFault, e: MineRiderError)
    requires
        call_ensures(CollisionFault::error, (f,), e),
    ensures
        f matches CollisionFault::Unloaded { x, y, z } ==> (e matches MineRiderError::Protocol(s)
            && s@ == "collision query crosses unloaded block "@ + decimal(x as int) + ","@
            + decimal(y as int) + ","@ + decimal(z as int)),
        f matches CollisionFault::UnknownState { state } ==> (e matches MineRiderError::Protocol(s)
            && s@ == "unknown block state id "@ + decimal(state as int)),
{
}

/// A secret is given out only where it is asked for, and never shown.
pub proof fn law_secrets_are_kept(
    password: &str,
    p: ProxyPassword,
    secret: &str,
    shown: String,
    config: &Socks5ProxyConfig,
    text: String,
    other: &Socks5ProxyConfig,
    other_text: String,
)
    requires
        call_ensures(ProxyPassword::new, (password,), p),
        call_ensures(ProxyPassword::expose_secret, (&p,), secret),
        call_ensures(ProxyPassword::redacted, (&p,), shown),
        call_ensures(Socks5ProxyConfig::redacted, (config,), text),
        call_ensures(Socks5ProxyConfig::redacted, (other,), other_text),
    ensures
        secret@ == password@,
        shown@ == "ProxyPassword(<redacted>)"@,
        config.host@ == other.host@ && config.port == other.port && config.credentials is Some
            == other.credentials is Some ==> text@ == other_text@,
{
}

/// What is read and written in each step of a negotiation has its name.
pub proof fn law_steps_have_their_names(n: &Negotiation, read: &'static str, write: &'static str)
    requires
        call_ensures(Negotiation::read_phase, (n,), read),
        call_ensures(Negotiation::write_phase, (n,), write),
    ensures
        n.awaiting is Method ==> read@ == "method negotiation"@ && write@ == "method negotiation"@,
        n.awaiting is Authentication ==> read@ == "authentication"@ && write@ == "authentication"@,
        n.awaiting is Head ==> read@ == "CONNECT reply"@ && write@ == "CONNECT request"@,
{
}

/// What is shown of a failed proxy names the proxy, and what it refused.
pub proof fn law_proxy_failures_name_the_proxy(e: &ProxySocks5Error, s: String, r: String)
    requires
        call_ensures(ProxySocks5Error::message, (e,), s),
        e matches ProxySocks5Error::ConnectRefused { reply, .. } ==> call_ensures(
            Socks5Reply::message,
            (reply,),
            r,
        ),
    ensures
        e matches ProxySocks5Error::ProxyConnect { endpoint, source } ==> s@
            == "connecting to SOCKS5 proxy "@ + endpoint@ + ": "@ + source@,
        e matches ProxySocks5Error::Timeout { endpoint, phase } ==> s@
            == "timed out talking to SOCKS5 proxy "@ + endpoint@ + " during "@ + phase@,
        e matches ProxySocks5Error::ConnectRefused { endpoint, target, .. } ==> s@ == "SOCKS5 proxy "@
            + endpoint@ + " refused CONNECT to "@ + target@ + ": "@ + r@,
        e matches ProxySocks5Error::Protocol { endpoint, phase, reason } ==> s@ == "SOCKS5 proxy "@
            + endpoint@ + " sent a malformed "@ + phase@ + ": "@ + reason@,
        e matches ProxySocks5Error::NoAcceptableAuthMethod { endpoint } ==> s@ == "SOCKS5 proxy "@
            + endpoint@ + " rejected every offered authentication method"@,
        e matches ProxySocks5Error::AuthenticationRejected { endpoint } ==> s@ == "SOCKS5 proxy "@
            + endpoint@ + " rejected the supplied username/password"@,
{
}

/// What a reply says is what its code stands for.
pub proof fn law_replies_say_what_they_are(r: &Socks5Reply, s: String)
    requires
        call_ensures(Socks5Reply::message, (r,), s),
    ensures
        r is GeneralFailure ==> s@ == "general SOCKS server failure"@,
        r is NotAllowedByRuleset ==> s@ == "connection not allowed by ruleset"@,
        r is NetworkUnreachable ==> s@ == "network unreachable"@,
        r is HostUnreachable ==> s@ == "host unreachable"@,
        r is ConnectionRefused ==> s@ == "connection refused"@,
        r is TtlExpired ==> s@ == "TTL expired"@,
        r is CommandNotSupported ==> s@ == "command not supported"@,
        r is AddressTypeNotSupported ==> s@ == "address type not supported"@,
{
}

/// What is wrong with the variables of a proxy names the variable.
pub proof fn law_wrong_variables_are_named(e: &EnvConfigError, s: String)
    requires
        call_ensures(EnvConfigError::message, (e,), s),
    ensures
        e matches EnvConfigError::Missing(var) ==> s@ == "environment variable "@ + var@
            + " is required when the host variable is set"@,
        e matches EnvConfigError::InvalidPort(var) ==> s@ == "environment variable "@ + var@
            + " is not a valid port number"@,
{
}

/// A name that does not fit is shown in quotes.
pub proof fn law_wrong_names_are_quoted(name: &str, s: String, f: Failure, reason: &'static str)
    requires
        call_ensures(bad_username, (name,), s),
        call_ensures(Failure::reason, (f,), reason),
    ensures
        s@ == "invalid username "@ + debug_text(name@)
            + ": must be 3-16 characters, letters/digits/underscore only"@,
        f is TooLarge ==> reason@ == "pack exceeds 100 MiB limit"@,
        f is Sha1Mismatch ==> reason@ == "SHA-1 mismatch"@,
        f is Status ==> reason@ == "HTTP status"@,
{
}

} // verus!
