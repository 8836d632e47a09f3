//! What is owed for each packet.
use crate::minecraft::coverage::{
    class_name, clientbound_coverage, configuration_coverage, handled, ignored, login_coverage,
    not_implemented, partial, play_coverage, rows_text, state_only, state_table, status_name,
    table_text, timing_name, unsupported, Clientbound, ConfigurationPacket, ConformanceStatus,
    CoverageClass, CoverageEntry, LoginPacket, Obligation, PlayPacket, RegistryRow, TimingClass,
};
use vstd::prelude::*;

verus! {

/// Whether an entry names this answer.
pub open spec fn answers(e: CoverageEntry, text: Seq<char>) -> bool {
    e.obligation.responds_with matches Some(t) && t@ == text
}

/// Every packet of the login is handled but for cookies, which are not supported, and
/// what is not known; answers have their names.
pub proof fn law_login_packets_are_covered(packet: LoginPacket, e: CoverageEntry)
    requires
        call_ensures(login_coverage, (packet,), e),
    ensures
        e.class is Unsupported <==> packet is CookieRequest,
        e.class is IntentionallyIgnored <==> packet is Other,
        e.class is Handled <==> !(packet is CookieRequest) && !(packet is Other),
        packet is EncryptionBegin ==> answers(e, "encryption_begin"@),
        packet is Success ==> answers(e, "login_acknowledged"@),
        packet is LoginPluginRequest ==> answers(e, "login_plugin_response"@),
        packet is CookieRequest ==> answers(e, "cookie_response"@),
        packet is Disconnect || packet is Compress || packet is Other ==> e.obligation.responds_with
            is None,
        e.obligation.responds_with is Some ==> e.obligation.timing is Strict,
{
    assert(e@.obligation.responds_with is None <==> e.obligation.responds_with is None);
}

/// Which packets of the configuration are handled, ignored, kept for later or not
/// supported, and what is answered to them.
pub proof fn law_configuration_packets_are_covered(packet: ConfigurationPacket, e: CoverageEntry)
    requires
        call_ensures(configuration_coverage, (packet,), e),
    ensures
        e.class is Unsupported <==> packet is CookieRequest,
        e.class is StoredForLater <==> packet is Tags,
        e.class is IntentionallyIgnored <==> packet is CustomPayload || packet is ResetChat || packet
            is StoreCookie || packet is Transfer || packet is FeatureFlags || packet
            is CustomReportDetails || packet is ServerLinks || packet is Other,
        packet is FinishConfiguration ==> answers(e, "finish_configuration"@),
        packet is KeepAlive ==> answers(e, "keep_alive"@),
        packet is Ping ==> answers(e, "pong"@),
        packet is SelectKnownPacks ==> answers(e, "select_known_packs"@),
        packet is AddResourcePack ==> answers(e, "resource_pack_receive"@),
        packet is CookieRequest ==> answers(e, "cookie_response"@),
        e.obligation.responds_with is Some ==> e.obligation.timing is Strict && (packet
            is FinishConfiguration || packet is KeepAlive || packet is Ping || packet
            is SelectKnownPacks || packet is AddResourcePack || packet is CookieRequest),
{
    assert(e@.obligation.responds_with is None <==> e.obligation.responds_with is None);
}

/// Which packets of the play state are not handled, and which are answered, and how.
pub proof fn law_play_packets_are_covered(packet: PlayPacket, e: CoverageEntry)
    requires
        call_ensures(play_coverage, (packet,), e),
    ensures
        e.class is Unsupported <==> packet is CookieRequest,
        e.class is StoredForLater <==> packet is Tags,
        e.class is IntentionallyIgnored <==> packet is StartConfiguration || packet is CustomPayload
            || packet is Transfer || packet is StoreCookie || packet is Other,
        packet is KeepAlive ==> answers(e, "keep_alive"@),
        packet is Ping ==> answers(e, "pong"@),
        packet is Position ==> answers(e, "teleport_confirm"@),
        packet is ChunkBatchFinished ==> answers(e, "chunk_batch_received"@),
        packet is AddResourcePack ==> answers(e, "resource_pack_receive"@),
        packet is StartConfiguration ==> answers(e, "configuration_acknowledged"@),
        packet is CookieRequest ==> answers(e, "cookie_response"@),
        e.obligation.responds_with is Some ==> e.obligation.timing is Strict && (packet is KeepAlive
            || packet is Ping || packet is Position || packet is ChunkBatchFinished || packet
            is AddResourcePack || packet is StartConfiguration || packet is CookieRequest),
        e.class is Handled && e.obligation.responds_with is None ==> e.obligation.timing
            is NoResponse,
{
    assert(e@.obligation.responds_with is None <==> e.obligation.responds_with is None);
}

/// Every packet has the entry of its own state, and none claims what was not shown.
pub proof fn law_packets_have_the_entry_of_their_state(
    packet: Clientbound,
    e: CoverageEntry,
    login: LoginPacket,
    l: CoverageEntry,
    configuration: ConfigurationPacket,
    c: CoverageEntry,
    play: PlayPacket,
    p: CoverageEntry,
)
    requires
        call_ensures(clientbound_coverage, (packet,), e),
        call_ensures(login_coverage, (login,), l),
        call_ensures(configuration_coverage, (configuration,), c),
        call_ensures(play_coverage, (play,), p),
    ensures
        packet == Clientbound::Login(login) ==> e@ == l@,
        packet == Clientbound::Configuration(configuration) ==> e@ == c@,
        packet == Clientbound::Play(play) ==> e@ == p@,
        packet is Elsewhere ==> e.class is IntentionallyIgnored,
        !(e.obligation.status is Pass),
        e.class is Handled ==> e.obligation.status is Partial,
        e.class is Unsupported ==> e.obligation.status is NotImplemented,
{
}

/// What classes, timings and statuses are called.
pub proof fn law_classes_have_their_names(
    class: CoverageClass,
    timing: TimingClass,
    status: ConformanceStatus,
    a: &'static str,
    b: &'static str,
    c: &'static str,
)
    requires
        call_ensures(class_name, (class,), a),
        call_ensures(timing_name, (timing,), b),
        call_ensures(status_name, (status,), c),
    ensures
        class is Handled ==> a@ == "handled"@,
        class is IntentionallyIgnored ==> a@ == "ignored"@,
        class is StoredForLater ==> a@ == "stored"@,
        class is Unsupported ==> a@ == "UNSUPPORTED"@,
        timing is Strict ==> b@ == "strict"@,
        timing is TickBound ==> b@ == "tick-bound"@,
        timing is Periodic ==> b@ == "periodic"@,
        timing is BestEffort ==> b@ == "best-effort"@,
        status is Pass ==> c@ == "PASS"@,
        status is Partial ==> c@ == "PARTIAL"@,
        status is Fail ==> c@ == "FAIL"@,
        status is NotImplemented ==> c@ == "NOT IMPLEMENTED"@,
        status is NotApplicable ==> c@ == "NOT APPLICABLE"@,
{
}

/// A table has one line for each packet, in order: one more packet adds its line.
pub proof fn law_tables_have_a_line_for_each_packet(
    out: &mut String,
    title: &str,
    rows: &Vec<RegistryRow>,
    all: Seq<RegistryRow>,
    row: RegistryRow,
)
    requires
        call_ensures(state_table, (out, title, rows), ()),
    ensures
        final(out)@ == old(out)@ + table_text(title@, rows@),
        rows_text(all.push(row)) == rows_text(all) + crate::minecraft::coverage::row_text(row),
        rows_text(Seq::empty()) == Seq::<char>::empty(),
{
    assert(all.push(row).drop_last() =~= all);
}

/// What an entry is made of: what is handled, ignored or not supported, with what it
/// owes.
pub proof fn law_entries_are_what_they_are_made_of(
    o: Obligation,
    h: CoverageEntry,
    i: CoverageEntry,
    answer: Option<&'static str>,
    u: CoverageEntry,
    timing: TimingClass,
    update: &'static str,
    scenario: &'static str,
    p: Obligation,
    n: Obligation,
    s: Obligation,
)
    requires
        call_ensures(handled, (o,), h),
        call_ensures(ignored, (o,), i),
        call_ensures(unsupported, (answer,), u),
        call_ensures(partial, (answer, timing, update, scenario), p),
        call_ensures(not_implemented, (answer, timing, update, scenario), n),
        call_ensures(state_only, (update,), s),
    ensures
        h.class is Handled && h.obligation@ == o@,
        i.class is IntentionallyIgnored && i.obligation@ == o@,
        u.class is Unsupported && u.obligation.timing is Strict && u.obligation.status
            is NotImplemented,
        p.status is Partial && p.timing == timing && p.state_update@ == update@ && p.scenario@
            == scenario@,
        n.status is NotImplemented && n.timing == timing && n.state_update@ == update@
            && n.scenario@ == scenario@ && n.evidence@ == "none"@,
        s.status is Partial && s.timing is NoResponse && s.state_update@ == update@
            && s.responds_with is None,
        p@.responds_with == n@.responds_with,
        answer is None <==> p.responds_with is None,
{
    let (x, y) = (p@.responds_with, s@.responds_with);
    assert(x is None <==> p.responds_with is None);
    assert(y is None <==> s.responds_with is None);
}

} // verus!
