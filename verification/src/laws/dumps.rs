//! Listings for people to read.
use crate::minecraft::coverage::{
    class_name, clientbound_coverage, render_matrix, row_text, state_table, status_name,
    timing_name, CoverageEntry, RegistryRow,
};
use crate::minecraft::gui::{
    listed_pairs, listed_properties, listed_texts, lore_lines, slot_line, slot_lines, slot_views,
    GuiView, SlotViewModel,
};
use crate::minecraft::nbt::Nbt;
use crate::minecraft::settings::nbt_reason_text;
use crate::text_build::{debug_text, decimal};
use vstd::prelude::*;

verus! {

/// Lore reads line by line; a line that is absent is left out.
pub proof fn law_lore_reads_line_by_line(lines: Seq<Option<Nbt>>, tag: Nbt, text: String)
    requires
        call_ensures(nbt_reason_text, (&tag,), text),
    ensures
        lore_lines(Seq::empty()) == Seq::<Seq<char>>::empty(),
        lore_lines(lines.push(Some(tag))) == lore_lines(lines).push(text@),
        lore_lines(lines.push(None)) == lore_lines(lines),
{
    assert(lines.push(Some(tag)).drop_last() =~= lines);
    assert(lines.push(None).drop_last() =~= lines);
}

/// A listing starts with the line of its window: the number, the kind, the title, the
/// revision and how many slots there are.
pub proof fn law_listings_start_with_their_window(view: &GuiView, out: String)
    requires
        call_ensures(GuiView::dump_text, (view,), out),
    ensures
        ({
            let head = "window_id="@ + decimal(view.window_id as int) + " menu_type="@ + decimal(
                view.menu_type as int,
            ) + " title="@ + debug_text(view.title_text@) + " state_id="@ + decimal(
                view.state_id as int,
            ) + " slots="@ + decimal(view.slots@.len() as int) + " truncated="@ + (
            if view.slots_truncated {
                "true"@
            } else {
                "false"@
            }) + "\n"@;
            let lines = slot_lines(slot_views(view.slots@));
            &&& out@.len() >= head.len() + lines.len()
            &&& out@.take(head.len() as int) == head
            &&& out@.subrange(head.len() as int, head.len() + lines.len() as int) == lines
        }),
{
    let head = crate::minecraft::gui::window_line(*view);
    let lines = slot_lines(slot_views(view.slots@));
    let tail = crate::minecraft::gui::cursor_line(view.cursor@)
        + crate::minecraft::gui::properties_line(view.properties@);
    assert(out@ =~= head + lines + tail);
    assert(out@.take(head.len() as int) =~= head);
    assert(out@.subrange(head.len() as int, head.len() + lines.len() as int) =~= lines);
}

/// Then comes a line for each slot, in order, with its place, its item, its count and
/// what is known of it.
pub proof fn law_listings_have_a_line_for_each_slot(v: Seq<SlotViewModel>, s: SlotViewModel)
    requires
        s.custom_name is None && s.registry_name is None && s.lore is None && s.enchantments is None,
    ensures
        slot_lines(Seq::empty()) == Seq::<char>::empty(),
        slot_lines(v.push(s)) == slot_lines(v) + slot_line(s),
        s.item_id matches Some(id) ==> slot_line(s) == "  slot="@ + decimal(s.index as int)
            + " empty="@ + (if s.empty {
            "true"@
        } else {
            "false"@
        }) + " item_id="@ + ("Some("@ + decimal(id as int) + ")"@) + " registry_name="@ + "None"@
            + " count="@ + decimal(s.count as int) + " custom_name="@ + "None"@ + " lore="@
            + "None"@ + " enchantments="@ + "None"@ + "\n"@,
{
    assert(v.push(s).drop_last() =~= v);
}

/// Lists are written with commas between their parts.
pub proof fn law_lists_have_commas_between(
    texts: Seq<Seq<char>>,
    text: Seq<char>,
    pairs: Seq<(i32, i32)>,
    pair: (i32, i32),
    properties: Seq<(i16, i16)>,
    property: (i16, i16),
)
    requires
        texts.len() > 0,
        pairs.len() > 0,
        properties.len() > 0,
    ensures
        listed_texts(texts.push(text)) == listed_texts(texts) + ", "@ + debug_text(text),
        listed_pairs(pairs.push(pair)) == listed_pairs(pairs) + ", "@ + ("("@ + decimal(
            pair.0 as int,
        ) + ", "@ + decimal(pair.1 as int) + ")"@),
        listed_properties(properties.push(property)) == listed_properties(properties) + ", "@ + (
        decimal(property.0 as int) + ": "@ + decimal(property.1 as int)),
{
    assert(texts.push(text).drop_last() =~= texts);
    assert(pairs.push(pair).drop_last() =~= pairs);
    assert(properties.push(property).drop_last() =~= properties);
    reveal_strlit("");
    assert(""@ + decimal(property.0 as int) =~= decimal(property.0 as int));
}

/// A line of the table has the packet's number, its name, its class, its answer, the
/// timing, the change of state, the status, the scenario and the evidence.
pub proof fn law_table_lines_say_what_is_owed(
    row: RegistryRow,
    e: CoverageEntry,
    class: &'static str,
    timing: &'static str,
    status: &'static str,
)
    requires
        call_ensures(clientbound_coverage, (row.packet,), e),
        call_ensures(class_name, (e.class,), class),
        call_ensures(timing_name, (e.obligation.timing,), timing),
        call_ensures(status_name, (e.obligation.status,), status),
    ensures
        row.name is Some && e.obligation.responds_with is Some ==> row_text(row) == "| "@ + decimal(
            row.id as int,
        ) + " | "@ + row.name->0@ + " | "@ + class@ + " | "@ + e.obligation.responds_with->0@
            + " | "@ + timing@ + " | "@ + e.obligation.state_update@ + " | "@ + status@ + " | "@
            + e.obligation.scenario@ + " | "@ + e.obligation.evidence@ + " |\n"@,
{
    let o = e@.obligation;
    assert(e.obligation.responds_with is Some ==> o.responds_with == Some(
        e.obligation.responds_with->0@,
    ));
    assert(o.state_update == e.obligation.state_update@ && o.scenario == e.obligation.scenario@
        && o.evidence == e.obligation.evidence@);
}

/// The document has the tables of the login, the configuration and the play state, in
/// this order.
pub proof fn law_the_document_has_three_tables(
    login: &Vec<RegistryRow>,
    configuration: &Vec<RegistryRow>,
    play: &Vec<RegistryRow>,
    out: String,
    a: &mut String,
    b: &mut String,
    c: &mut String,
)
    requires
        call_ensures(render_matrix, (login, configuration, play), out),
        call_ensures(state_table, (a, "Login", login), ()),
        call_ensures(state_table, (b, "Configuration", configuration), ()),
        call_ensures(state_table, (c, "Play", play), ()),
        old(a)@ == crate::minecraft::coverage::MATRIX_HEADER@
            + crate::minecraft::coverage::MATRIX_TITLE@
            + crate::minecraft::coverage::MATRIX_PREAMBLE@,
        old(b)@ == final(a)@,
        old(c)@ == final(b)@,
    ensures
        out@ == final(c)@,
{
}

} // verus!
