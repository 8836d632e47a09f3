//! Connections, and the proxy before them.
use crate::error::{MineRiderError, RetryClass};
use crate::network::connection::{
    error_poisons_connection, timed_out, ConnectionState, ConnectionStatus, ConnectionTimeouts,
    Stage,
};
use crate::network::socks5::{
    check_auth, check_head, check_method, encode_target, parse_port, Awaiting, EnvConfigError,
    EnvVars, Exchange, IpLiteral, Negotiation, ProxySocks5Error, Socks5ProxyConfig, Socks5Reply,
    Tail,
};
use crate::protocol::big_endian::be_bytes;
use vstd::prelude::*;
use vstd::utf8::encode_utf8;

verus! {

/// The address in a request: one and four octets, four and sixteen, or three and the
/// name behind its length, which has to fit a byte.
pub proof fn law_targets_are_addresses_or_names(
    host: &str,
    n: u32,
    m: u128,
    four: Result<Vec<u8>, ProxySocks5Error>,
    sixteen: Result<Vec<u8>, ProxySocks5Error>,
    name: Result<Vec<u8>, ProxySocks5Error>,
)
    requires
        call_ensures(encode_target, (host, Some(IpLiteral::V4(n))), four),
        call_ensures(encode_target, (host, Some(IpLiteral::V6(m))), sixteen),
        call_ensures(encode_target, (host, None::<IpLiteral>), name),
    ensures
        four matches Ok(b) && b@ == seq![
            1u8,
            (n / 0x100_0000) as u8,
            (n / 0x1_0000 % 256) as u8,
            (n / 256 % 256) as u8,
            (n % 256) as u8,
        ],
        sixteen matches Ok(b) && b@.len() == 17 && b@[0] == 4 && b@[16] == m % 256,
        encode_utf8(host@).len() <= 255 ==> (name matches Ok(b) && b@ == seq![
            3u8,
            encode_utf8(host@).len() as u8,
        ] + encode_utf8(host@)),
        encode_utf8(host@).len() > 255 ==> (name matches Err(ProxySocks5Error::TargetTooLong {
            target,
        }) && target@ == host@),
{
    crate::laws::wire::law_high_bytes_come_first(0, 0, 0, 0, n as nat);
    assert(four->Ok_0@ =~= seq![
        1u8,
        (n / 0x100_0000) as u8,
        (n / 0x1_0000 % 256) as u8,
        (n / 256 % 256) as u8,
        (n % 256) as u8,
    ]);
    lemma_last_byte(m as nat, 16);
}

/// Bytes of a number: so many, and the last is the low one.
proof fn lemma_last_byte(v: nat, n: nat)
    ensures
        be_bytes(v, n).len() == n,
        n > 0 ==> be_bytes(v, n)[n - 1] == v % 256,
    decreases n,
{
    if n > 0 {
        lemma_last_byte(v / 256, (n - 1) as nat);
    }
}

/// A negotiation opens with the version, one method and which: the one for
/// credentials where there are any, and two bytes are read back. Fields too long to
/// be sent open none.
pub proof fn law_negotiations_open_with_one_method(
    proxy: Socks5ProxyConfig,
    host: &str,
    literal: Option<IpLiteral>,
    port: u16,
    res: Result<(Negotiation, Exchange), ProxySocks5Error>,
)
    requires
        call_ensures(Negotiation::start, (proxy, host, literal, port), res),
    ensures
        res matches Ok((n, x)) ==> x.write@.len() == 3 && x.write@[0] == 5 && x.write@[1] == 1
            && x.read == 2 && (x.write@[2] == 2 <==> proxy.credentials is Some) && (x.write@[2] == 0
            <==> proxy.credentials is None) && n.target_port == port && n.target_host@ == host@
            && n.awaiting is Method && n.credentials == proxy.credentials,
        proxy.credentials matches Some(c) ==> encode_utf8(c.username@).len() > 255 ==> res == Err::<
            (Negotiation, Exchange),
            _,
        >(ProxySocks5Error::UsernameTooLong),
        proxy.credentials matches Some(c) ==> encode_utf8(c.username@).len() <= 255 && encode_utf8(
            c.password@,
        ).len() > 255 ==> res == Err::<(Negotiation, Exchange), _>(
            ProxySocks5Error::PasswordTooLong,
        ),
        proxy.credentials is None && literal is Some ==> res is Ok,
        res matches Ok((n, x)) ==> proxy.credentials matches Some(c) ==> encode_utf8(
            c.username@,
        ).len() <= 255 && encode_utf8(c.password@).len() <= 255,
{
}

/// The reply to the opening is taken where it has the version and the method that was
/// offered. 255 means that none was acceptable.
pub proof fn law_methods_are_taken_as_offered(
    endpoint: &str,
    credentials: bool,
    reply: &[u8],
    res: Result<(), ProxySocks5Error>,
)
    requires
        call_ensures(check_method, (endpoint, credentials, reply), res),
        reply@.len() == 2,
    ensures
        res is Ok <==> reply@[0] == 5 && reply@[1] == (if credentials { 2int } else { 0 }),
        reply@[0] == 5 && reply@[1] == 255 ==> (res matches Err(
            ProxySocks5Error::NoAcceptableAuthMethod { endpoint: at },
        ) && at@ == endpoint@),
        reply@[0] != 5 ==> res matches Err(ProxySocks5Error::Protocol { .. }),
{
}

/// Credentials are taken where the reply says version one and nought.
pub proof fn law_credentials_are_taken_with_nought(
    endpoint: &str,
    reply: &[u8],
    res: Result<(), ProxySocks5Error>,
)
    requires
        call_ensures(check_auth, (endpoint, reply), res),
        reply@.len() == 2,
    ensures
        res is Ok <==> reply@[0] == 1 && reply@[1] == 0,
        reply@[0] == 1 && reply@[1] != 0 ==> (res matches Err(
            ProxySocks5Error::AuthenticationRejected { endpoint: at },
        ) && at@ == endpoint@),
{
}

/// The reply to the request goes on by the kind of its address, in the fourth byte.
pub proof fn law_replies_go_on_by_their_address(
    endpoint: &str,
    head: &[u8],
    res: Result<Tail, ProxySocks5Error>,
)
    requires
        call_ensures(check_head, (endpoint, head), res),
        head@.len() == 4,
    ensures
        res == Ok::<_, ProxySocks5Error>(Tail::Address(4)) <==> head@[0] == 5 && head@[3] == 1,
        res == Ok::<_, ProxySocks5Error>(Tail::Address(16)) <==> head@[0] == 5 && head@[3] == 4,
        res == Ok::<_, ProxySocks5Error>(Tail::Name) <==> head@[0] == 5 && head@[3] == 3,
        res is Ok ==> head@[0] == 5,
{
}

/// Credentials go out each behind its length, the name first.
pub open spec fn credentials_sent(name: Seq<char>, password: Seq<char>, write: Seq<u8>) -> bool {
    let (n, p) = (encode_utf8(name), encode_utf8(password));
    &&& write.len() == 3 + n.len() + p.len()
    &&& write[0] == 1
    &&& write[1] == n.len() as u8
    &&& write.subrange(2, 2 + n.len() as int) == n
    &&& write[2 + n.len() as int] == p.len() as u8
    &&& write.skip(3 + n.len() as int) == p
}

/// A request has the version, the command to connect, nought, the target and the port,
/// high byte first.
pub open spec fn request_sent(target: Seq<u8>, port: u16, write: Seq<u8>) -> bool {
    &&& write.len() == 5 + target.len()
    &&& write[0] == 5
    &&& write[1] == 1
    &&& write[2] == 0
    &&& write.subrange(3, 3 + target.len() as int) == target
    &&& write[3 + target.len() as int] == port / 256
    &&& write[4 + target.len() as int] == port % 256
}

/// Each reply leads one step on: with credentials they are sent before the request,
/// without them the request at once. After the head come the address and the port,
/// and the tunnel stands where the code was nought. Nothing but the step changes.
pub proof fn law_replies_lead_one_step_on(
    n: &mut Negotiation,
    reply: &[u8],
    res: Result<Exchange, ProxySocks5Error>,
)
    requires
        call_ensures(Negotiation::on_reply, (n, reply), res),
        reply@.len() == old(n).due(),
    ensures
        ({
            let a = old(n).awaiting;
            let b = final(n).awaiting;
            &&& res is Err ==> *final(n) == *old(n)
            &&& *final(n) == (Negotiation { awaiting: b, ..*old(n) })
            &&& a is Method && res is Ok ==> reply@[0] == 5 && (if old(n).credentials is Some {
                b is Authentication && reply@[1] == 2 && credentials_sent(
                    old(n).credentials->0.username@,
                    old(n).credentials->0.password@,
                    res->Ok_0.write@,
                ) && res->Ok_0.read == 2
            } else {
                b is Head && reply@[1] == 0 && request_sent(
                    old(n).target@,
                    old(n).target_port,
                    res->Ok_0.write@,
                ) && res->Ok_0.read == 4
            })
            &&& a is Authentication ==> (res is Ok <==> reply@[0] == 1 && reply@[1] == 0)
            &&& a is Authentication && res is Ok ==> b is Head && request_sent(
                old(n).target@,
                old(n).target_port,
                res->Ok_0.write@,
            ) && res->Ok_0.read == 4
            &&& a is Head && res is Ok ==> res->Ok_0.write@.len() == 0 && (reply@[3] == 1 ==> b == (
            Awaiting::Rest { code: reply@[1], len: 6 }) && res->Ok_0.read == 6) && (reply@[3] == 4
                ==> b == (Awaiting::Rest { code: reply@[1], len: 18 }) && res->Ok_0.read == 18) && (
            reply@[3] == 3 ==> b == (Awaiting::NameLength { code: reply@[1] }) && res->Ok_0.read
                == 1)
            &&& a matches Awaiting::NameLength { code } ==> (res matches Ok(x) && b == (
            Awaiting::Rest { code, len: (reply@[0] + 2) as usize }) && x.read == reply@[0] + 2
                && x.write@.len() == 0)
            &&& a matches Awaiting::Rest { code, .. } ==> (if code == 0 {
                res is Ok && b is Done
            } else {
                res matches Err(ProxySocks5Error::ConnectRefused { endpoint, reply: r, .. })
                    && endpoint@ == old(n).endpoint@
            })
        }),
{
    let a = old(n).awaiting;
    let (target, port) = (old(n).target@, old(n).target_port);
    crate::laws::wire::law_high_bytes_come_first(0, 0, 0, 0, port as nat);
    let request = old(n).request();
    assert(request.subrange(3, 3 + target.len() as int) =~= target);
    if let Some(c) = old(n).credentials {
        let (u, p) = (encode_utf8(c.username@), encode_utf8(c.password@));
        let write = crate::network::socks5::auth_bytes(c.username@, c.password@);
        assert(write.subrange(2, 2 + u.len() as int) =~= u);
        assert(write.skip(3 + u.len() as int) =~= p);
    }
}

/// Replies have their codes, and are worth another try by what they say.
pub proof fn law_replies_have_their_codes(code: u8, r: Socks5Reply, class: RetryClass)
    requires
        call_ensures(Socks5Reply::from_code, (code,), r),
        call_ensures(Socks5Reply::retry_class, (r,), class),
    ensures
        r is Succeeded <==> code == 0,
        r is GeneralFailure <==> code == 1,
        r is NotAllowedByRuleset <==> code == 2,
        r is NetworkUnreachable <==> code == 3,
        r is HostUnreachable <==> code == 4,
        r is ConnectionRefused <==> code == 5,
        r is TtlExpired <==> code == 6,
        r is CommandNotSupported <==> code == 7,
        r is AddressTypeNotSupported <==> code == 8,
        code > 8 ==> r == Socks5Reply::Unknown(code),
        class is ServerRejected <==> code == 2,
        class is ProtocolIncompatible <==> code >= 7,
        class is Transient <==> code < 7 && code != 2,
{
}

/// Failures of the way to the proxy are worth another try, those of the credentials
/// and of what it can do are not.
pub proof fn law_failures_have_their_class(e: &ProxySocks5Error, class: RetryClass)
    requires
        call_ensures(ProxySocks5Error::retry_class, (e,), class),
    ensures
        e is ProxyConnect || e is Io || e is Timeout ==> class is Transient,
        e is NoAcceptableAuthMethod || e is AuthenticationRejected || e is UsernameTooLong || e
            is PasswordTooLong ==> class is AuthFailure,
        e is TargetTooLong || e is Protocol ==> class is ProtocolIncompatible,
        e matches ProxySocks5Error::ConnectRefused { reply, .. } ==> reply is NotAllowedByRuleset
            ==> class is ServerRejected,
{
}

/// A port is a decimal number up to 65535: one digit is its value, and one more digit
/// is ten times the number and the digit.
pub proof fn law_ports_are_decimal(
    digit: &str,
    longer: &str,
    shorter: &str,
    d: nat,
    one: Option<u16>,
    more: Option<u16>,
    less: Option<u16>,
)
    requires
        call_ensures(parse_port, (digit,), one),
        call_ensures(parse_port, (longer,), more),
        call_ensures(parse_port, (shorter,), less),
        d < 10,
        digit@ == seq![(48 + d) as char],
        shorter@.len() > 0,
        shorter@[0] != '+',
        longer@ == shorter@.push((48 + d) as char),
    ensures
        one == Some(d as u16),
        less matches Some(v) ==> (if 10 * v + d <= 65535 {
            more == Some((10 * v + d) as u16)
        } else {
            more is None
        }),
{
    reveal_with_fuel(crate::network::socks5::digits_value, 2);
    assert(digit@.drop_last() =~= Seq::<char>::empty());
    assert(longer@.drop_last() =~= shorter@);
    assert(longer@[0] == shorter@[0]);
}

/// A proxy comes out of the environment where its host does: then it needs a port that
/// is one, and both of name and password or neither.
pub proof fn law_proxies_come_from_the_environment(
    prefix: &str,
    vars: &EnvVars,
    port: Option<u16>,
    text: &str,
    res: Result<Option<Socks5ProxyConfig>, EnvConfigError>,
)
    requires
        call_ensures(Socks5ProxyConfig::from_vars, (prefix, vars), res),
        call_ensures(parse_port, (text,), port),
        vars.port matches Some(p) ==> p@ == text@,
    ensures
        vars.host is None <==> res == Ok::<_, EnvConfigError>(None::<Socks5ProxyConfig>),
        vars.host is Some && vars.port is None ==> res matches Err(EnvConfigError::Missing(_)),
        vars.host is Some && vars.port is Some && port is None ==> res matches Err(
            EnvConfigError::InvalidPort(_),
        ),
        vars.host is Some && vars.port is Some && port is Some && (vars.username is Some
            != vars.password is Some) ==> res == Err::<Option<Socks5ProxyConfig>, _>(
            EnvConfigError::PartialCredentials,
        ),
        res matches Ok(Some(c)) ==> c.host@ == vars.host->0@ && Some(c.port) == port && (
        c.credentials is Some <==> vars.username is Some),
        res matches Ok(Some(c)) ==> c.credentials matches Some(k) ==> k.username@
            == vars.username->0@ && k.password@ == vars.password->0@,
{
}

/// The timeouts of a connection: ten seconds to connect, thirty for each read and each
/// send.
pub proof fn law_timeouts_have_their_defaults(t: ConnectionTimeouts, s: ConnectionStatus)
    requires
        call_ensures(<ConnectionTimeouts as Default>::default, (), t),
        call_ensures(ConnectionStatus::new, (t,), s),
    ensures
        t.connect == 10_000 && t.read == 30_000 && t.write == 30_000,
        s.read_timeout == 30_000 && s.write_timeout == 30_000,
        !s.write_failed,
        s.state is Handshaking,
{
}

/// What is set on a connection is set alone.
pub proof fn law_connection_settings_are_set_alone(
    a: &mut ConnectionStatus,
    b: &mut ConnectionStatus,
    c: &mut ConnectionStatus,
    timeouts: ConnectionTimeouts,
    fresh: ConnectionStatus,
    state: ConnectionState,
    read: u64,
    write: u64,
)
    requires
        call_ensures(ConnectionStatus::set_state, (a, state), ()),
        call_ensures(ConnectionStatus::set_read_timeout, (b, read), ()),
        call_ensures(ConnectionStatus::set_write_timeout, (c, write), ()),
        call_ensures(ConnectionStatus::new, (timeouts,), fresh),
    ensures
        final(a).state == state && final(a).read_timeout == old(a).read_timeout
            && final(a).write_timeout == old(a).write_timeout && final(a).write_failed == old(
            a,
        ).write_failed,
        final(b).read_timeout == read && final(b).write_timeout == old(b).write_timeout
            && final(b).state == old(b).state && final(b).write_failed == old(b).write_failed,
        final(c).write_timeout == write && final(c).read_timeout == old(c).read_timeout
            && final(c).state == old(c).state && final(c).write_failed == old(c).write_failed,
        fresh.read_timeout == timeouts.read && fresh.write_timeout == timeouts.write,
{
}

/// A send that timed out closes the connection for good, any other outcome leaves it
/// as it is; and a closed one is refused by a timeout.
pub proof fn law_only_timeouts_close_a_connection(
    s: &mut ConnectionStatus,
    outcome: Result<(), MineRiderError>,
    res: Result<(), MineRiderError>,
    t: &ConnectionStatus,
    check: Result<(), MineRiderError>,
    e: &MineRiderError,
    poisons: bool,
    n: usize,
    read: Result<(), MineRiderError>,
)
    requires
        call_ensures(ConnectionStatus::after_send, (s, outcome), res),
        call_ensures(ConnectionStatus::check_not_failed, (t,), check),
        call_ensures(error_poisons_connection, (e,), poisons),
        call_ensures(ConnectionStatus::after_read, (t, n), read),
    ensures
        res == outcome,
        final(s).write_failed <==> old(s).write_failed || (outcome matches Err(x) && x is Timeout),
        final(s).state == old(s).state && final(s).read_timeout == old(s).read_timeout
            && final(s).write_timeout == old(s).write_timeout,
        check is Ok <==> !t.write_failed,
        check matches Err(x) ==> x is Timeout,
        poisons <==> e is Timeout,
        read is Ok <==> n > 0,
        read matches Err(x) ==> x is ConnectionClosed,
{
}

/// A timeout says what was going on.
pub proof fn law_timeouts_name_their_step(stage: Stage, e: MineRiderError)
    requires
        call_ensures(timed_out, (stage,), e),
    ensures
        e matches MineRiderError::Timeout(s) && (stage is Read ==> s@ == "reading from socket"@)
            && (stage is Flush ==> s@ == "writing packet to socket (flush)"@) && (stage is WriteAll
            ==> s@ == "writing packet to socket (write_all)"@),
{
}

} // verus!
