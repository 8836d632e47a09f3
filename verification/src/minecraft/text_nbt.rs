//! Text components out of network NBT.
use vstd::prelude::*;

use crate::minecraft::nbt::{nbt_view, Nbt, NbtList};
use crate::minecraft::text::{
    bounded_literal, color_of, later, lemma_texts_view, literal_bounded, literal_model, parse_color,
    style_view, text_view, texts_view, Budget, ClickEvent, Content, ContentModel, HoverEvent,
    HoverModel, RawEvent, Style, StyleModel, TextComponent, TextModel, MAX_DEPTH, MAX_NODES,
};
use crate::text_build::same_text;

verus! {

/// A text field.
pub open spec fn text_field(v: Nbt, name: Seq<char>) -> Option<Seq<char>> {
    match v.field(name) {
        Some(Nbt::String(s)) => Some(s@),
        _ => None,
    }
}

/// A yes-or-no field.
pub open spec fn flag_field(v: Nbt, name: Seq<char>) -> Option<bool> {
    match v.field(name) {
        Some(Nbt::Byte(b)) => Some(b != 0),
        _ => None,
    }
}

/// A list field.
pub open spec fn items_field(v: Nbt, name: Seq<char>) -> Option<Seq<Nbt>> {
    match v.field(name) {
        Some(Nbt::List(list)) => Some(list.items@),
        _ => None,
    }
}

/// A field under either of two spellings, the first one first.
pub open spec fn either_field(v: Nbt, camel: Seq<char>, snake: Seq<char>) -> Option<Nbt> {
    match v.field(camel) {
        Some(x) => Some(x),
        None => v.field(snake),
    }
}

/// The click event of a component.
pub open spec fn click_of(v: Nbt) -> Option<(Seq<char>, Seq<char>)> {
    match either_field(v, "clickEvent"@, "click_event"@) {
        Some(event) => match text_field(event, "action"@) {
            Some(action) => Some(
                (
                    action,
                    match text_field(event, "value"@) {
                        Some(value) => value,
                        None => Seq::empty(),
                    },
                ),
            ),
            None => None,
        },
        None => None,
    }
}

/// The style of a component, but for the hover event.
pub open spec fn style_of(v: Nbt, hover: Option<HoverModel>) -> StyleModel {
    StyleModel {
        color: match text_field(v, "color"@) {
            Some(c) => Some(color_of(c)),
            None => None,
        },
        bold: flag_field(v, "bold"@),
        italic: flag_field(v, "italic"@),
        underlined: flag_field(v, "underlined"@),
        strikethrough: flag_field(v, "strikethrough"@),
        obfuscated: flag_field(v, "obfuscated"@),
        insertion: text_field(v, "insertion"@),
        font: text_field(v, "font"@),
        click: click_of(v),
        hover,
    }
}

/// The component that a tag stands for, and the budget after it. A string is a
/// literal; a list is its first element with the others as siblings; a compound
/// is a component with its fields; anything else shows nothing.
pub open spec fn nbt_component(v: Nbt, b: Budget, depth: nat) -> (TextModel, Budget)
    decreases MAX_NODES - b.nodes, 0nat, 0nat,
{
    if depth > MAX_DEPTH || b.nodes >= MAX_NODES {
        (literal_model(Seq::empty()), b)
    } else {
        let b1 = Budget { nodes: (b.nodes + 1) as usize, ..b };
        match v {
            Nbt::String(s) => bounded_literal(s@, b1),
            Nbt::List(list) => if list.items@.len() == 0 {
                (literal_model(Seq::empty()), b1)
            } else {
                let (first, b2) = nbt_component(list.items@[0], b1, depth + 1);
                let (rest, b3) = nbt_components(
                    list.items@.drop_first(),
                    later(b1, b2),
                    depth + 1,
                );
                (TextModel { extra: first.extra + rest, ..first }, b3)
            },
            Nbt::Compound(_) => nbt_compound(v, b1, depth),
            _ => (literal_model(Seq::empty()), b1),
        }
    }
}

/// The components of a list, which stops where the node budget does.
pub open spec fn nbt_components(items: Seq<Nbt>, b: Budget, depth: nat) -> (
    Seq<TextModel>,
    Budget,
)
    decreases MAX_NODES - b.nodes, 1nat, items.len(),
{
    if items.len() == 0 || b.nodes >= MAX_NODES {
        (Seq::empty(), b)
    } else {
        let (c, b2) = nbt_component(items[0], b, depth);
        let (rest, b3) = nbt_components(items.drop_first(), later(b, b2), depth);
        (seq![c] + rest, b3)
    }
}

/// The hover event of a component.
pub open spec fn nbt_hover(v: Nbt, b: Budget) -> (Option<HoverModel>, Budget)
    decreases MAX_NODES - b.nodes, 2nat, 0nat,
{
    match either_field(v, "hoverEvent"@, "hover_event"@) {
        None => (None, b),
        Some(event) => match text_field(event, "action"@) {
            None => (None, b),
            Some(action) => match either_field(event, "contents"@, "value"@) {
                Some(contents) if action == "show_text"@ => {
                    let (text, b2) = nbt_component(contents, b, 0);
                    (
                        Some(
                            HoverModel {
                                action,
                                text: Some(Box::new(text)),
                                raw: RawEvent::Nbt(event),
                            },
                        ),
                        b2,
                    )
                },
                _ => (Some(HoverModel { action, text: None, raw: RawEvent::Nbt(event) }), b),
            },
        },
    }
}

/// What a compound's own content is.
pub open spec fn nbt_content(v: Nbt, b: Budget, depth: nat) -> (ContentModel, Budget)
    decreases MAX_NODES - b.nodes, 2nat, 0nat,
{
    match (text_field(v, "text"@), text_field(v, "translate"@)) {
        (Some(text), _) => {
            let (c, b2) = bounded_literal(text, b);
            (c.content, b2)
        },
        (None, Some(key)) => match items_field(v, "with"@) {
            Some(items) => {
                let (args, b2) = nbt_components(items, b, depth + 1);
                (ContentModel::Translate { key, args }, b2)
            },
            None => (ContentModel::Translate { key, args: Seq::empty() }, b),
        },
        (None, None) => (ContentModel::Unknown { raw: nbt_view(v) }, b),
    }
}

/// The component that a compound stands for: content, then style, then siblings.
pub open spec fn nbt_compound(v: Nbt, b: Budget, depth: nat) -> (TextModel, Budget)
    decreases MAX_NODES - b.nodes, 3nat, 0nat,
{
    let (content, b1) = nbt_content(v, b, depth);
    let (hover, b2) = nbt_hover(v, later(b, b1));
    let style = style_of(v, hover);
    match items_field(v, "extra"@) {
        Some(items) => {
            let (extra, b3) = nbt_components(items, later(b, b2), depth + 1);
            (TextModel { content, style, extra }, b3)
        },
        None => (TextModel { content, style, extra: Seq::empty() }, b2),
    }
}

/// A budget after parsing: no smaller, and within its caps.
pub open spec fn grows(a: Budget, b: Budget) -> bool {
    a.nodes <= b.nodes && b.within()
}

fn string_field(value: &Nbt, name: &str) -> (s: Option<String>)
    ensures
        s is Some <==> text_field(*value, name@) is Some,
        s matches Some(s) ==> text_field(*value, name@) == Some(s@),
{
    match value.get(name) {
        Some(Nbt::String(s)) => Some(s.clone()),
        _ => None,
    }
}

fn bool_field(value: &Nbt, name: &str) -> (b: Option<bool>)
    ensures
        b == flag_field(*value, name@),
{
    match value.get(name) {
        Some(Nbt::Byte(b)) => Some(*b != 0),
        _ => None,
    }
}

fn list_field<'a>(value: &'a Nbt, name: &str) -> (items: Option<&'a Vec<Nbt>>)
    ensures
        items is Some <==> items_field(*value, name@) is Some,
        items matches Some(v) ==> items_field(*value, name@) == Some(v@),
{
    match value.get(name) {
        Some(Nbt::List(list)) => Some(&list.items),
        _ => None,
    }
}

fn event_field<'a>(value: &'a Nbt, camel: &str, snake: &str) -> (v: Option<&'a Nbt>)
    ensures
        v is Some <==> either_field(*value, camel@, snake@) is Some,
        v matches Some(v) ==> either_field(*value, camel@, snake@) == Some(*v),
{
    match value.get(camel) {
        Some(v) => Some(v),
        None => value.get(snake),
    }
}

/// Parses a component.
pub(crate) fn parse(value: &Nbt, budget: &mut Budget, depth: usize) -> (c: TextComponent)
    requires
        old(budget).within(),
        depth <= MAX_DEPTH + 1,
    ensures
        (text_view(c), *final(budget)) == nbt_component(*value, *old(budget), depth as nat),
        grows(*old(budget), *final(budget)),
    decreases MAX_NODES - old(budget).nodes, 0nat, 0nat,
{
    proof {
        reveal_strlit("");
        assert(""@ =~= Seq::<char>::empty());
    }
    if depth > MAX_DEPTH || !budget.take_node() {
        return TextComponent::literal("");
    }
    let ghost b1 = *budget;
    match value {
        Nbt::String(text) => literal_bounded(text.as_str(), budget),
        Nbt::List(list) => {
            if list.items.len() == 0 {
                return TextComponent::literal("");
            }
            let mut component = parse(&list.items[0], budget, depth + 1);
            let ghost first = component;
            let mut rest = parse_list(&list.items, 1, budget, depth + 1);
            let ghost siblings = rest@;
            component.extra.append(&mut rest);
            proof {
                assert(list.items@.skip(1) =~= list.items@.drop_first());
                lemma_texts_view(first.extra@);
                lemma_texts_view(siblings);
                lemma_texts_view(component.extra@);
                assert(texts_view(component.extra@) =~= texts_view(first.extra@) + texts_view(
                    siblings,
                ));
            }
            component
        },
        Nbt::Compound(_) => parse_compound(value, budget, depth),
        _ => TextComponent::literal(""),
    }
}

/// Parses the components of a list from an index on.
fn parse_list(
    items: &Vec<Nbt>,
    from: usize,
    budget: &mut Budget,
    depth: usize,
) -> (out: Vec<TextComponent>)
    requires
        old(budget).within(),
        depth <= MAX_DEPTH + 1,
        from <= items@.len(),
    ensures
        (texts_view(out@), *final(budget)) == nbt_components(
            items@.skip(from as int),
            *old(budget),
            depth as nat,
        ),
        grows(*old(budget), *final(budget)),
    decreases MAX_NODES - old(budget).nodes, 1nat, 0nat,
{
    let ghost start = *budget;
    let ghost whole = nbt_components(items@.skip(from as int), start, depth as nat);
    let mut out: Vec<TextComponent> = Vec::new();
    let mut i: usize = from;
    while i < items.len() && !budget.is_exhausted()
        invariant
            from <= i <= items@.len(),
            depth <= MAX_DEPTH + 1,
            grows(start, *budget),
            start == *old(budget),
            ({
                let rest = nbt_components(items@.skip(i as int), *budget, depth as nat);
                whole == (texts_view(out@) + rest.0, rest.1)
            }),
        decreases items@.len() - i,
    {
        let ghost tail = items@.skip(i as int);
        let ghost before = *budget;
        let ghost done = out@;
        assert(tail[0] == items@[i as int]);
        assert(tail.drop_first() =~= items@.skip(i + 1));
        let c = parse(&items[i], budget, depth);
        out.push(c);
        proof {
            assert(later(before, *budget) == *budget);
            assert(out@.drop_last() =~= done);
            let rest = nbt_components(items@.skip(i + 1), *budget, depth as nat);
            assert(texts_view(done) + (seq![text_view(c)] + rest.0) =~= texts_view(out@) + rest.0);
        }
        i += 1;
    }
    proof {
        assert(whole.0 =~= texts_view(out@));
    }
    out
}

fn parse_click_event(value: &Nbt) -> (c: Option<ClickEvent>)
    ensures
        c is Some <==> click_of(*value) is Some,
        c matches Some(c) ==> click_of(*value) == Some((c.action@, c.value@)),
{
    let event = match event_field(value, "clickEvent", "click_event") {
        Some(event) => event,
        None => {
            return None;
        },
    };
    let action = match string_field(event, "action") {
        Some(action) => action,
        None => {
            return None;
        },
    };
    let value = match string_field(event, "value") {
        Some(value) => value,
        None => String::new(),
    };
    Some(ClickEvent { action, value })
}

/// What a hover event says.
pub open spec fn hover_view(h: Option<HoverEvent>) -> Option<HoverModel> {
    match h {
        Some(h) => Some(
            HoverModel {
                action: h.action@,
                text: match h.text {
                    Some(t) => Some(Box::new(text_view(*t))),
                    None => None,
                },
                raw: h.raw,
            },
        ),
        None => None,
    }
}

fn parse_hover_event(value: &Nbt, budget: &mut Budget) -> (h: Option<HoverEvent>)
    requires
        old(budget).within(),
    ensures
        (hover_view(h), *final(budget)) == nbt_hover(*value, *old(budget)),
        grows(*old(budget), *final(budget)),
    decreases MAX_NODES - old(budget).nodes, 2nat, 0nat,
{
    let event = match event_field(value, "hoverEvent", "hover_event") {
        Some(event) => event,
        None => {
            return None;
        },
    };
    let action = match string_field(event, "action") {
        Some(action) => action,
        None => {
            return None;
        },
    };
    let contents = event_field(event, "contents", "value");
    let shows_text = same_text(action.as_str(), "show_text");
    let text = match contents {
        Some(contents) => if shows_text {
            Some(Box::new(parse(contents, budget, 0)))
        } else {
            None
        },
        None => None,
    };
    Some(HoverEvent { action, text, raw: RawEvent::Nbt(event.clone()) })
}

fn parse_style(value: &Nbt, hover_event: Option<HoverEvent>) -> (s: Style)
    ensures
        style_view(s) == style_of(*value, hover_view(hover_event)),
{
    let color = match string_field(value, "color") {
        Some(c) => Some(parse_color(c.as_str())),
        None => None,
    };
    Style {
        color,
        bold: bool_field(value, "bold"),
        italic: bool_field(value, "italic"),
        underlined: bool_field(value, "underlined"),
        strikethrough: bool_field(value, "strikethrough"),
        obfuscated: bool_field(value, "obfuscated"),
        insertion: string_field(value, "insertion"),
        font: string_field(value, "font"),
        click_event: parse_click_event(value),
        hover_event,
    }
}

fn parse_content(value: &Nbt, budget: &mut Budget, depth: usize) -> (c: Content)
    requires
        old(budget).within(),
        depth <= MAX_DEPTH,
    ensures
        (text_view(TextComponent { content: c, ..arbitrary() }).content, *final(budget))
            == nbt_content(*value, *old(budget), depth as nat),
        grows(*old(budget), *final(budget)),
    decreases MAX_NODES - old(budget).nodes, 2nat, 0nat,
{
    match string_field(value, "text") {
        Some(text) => {
            let c = literal_bounded(text.as_str(), budget);
            c.content
        },
        None => match string_field(value, "translate") {
            Some(key) => {
                let args = match list_field(value, "with") {
                    Some(items) => {
                        assert(items@.skip(0) =~= items@);
                        parse_list(items, 0, budget, depth + 1)
                    },
                    None => Vec::new(),
                };
                Content::Translate { key, args }
            },
            None => Content::Unknown { raw: value.clone() },
        },
    }
}

fn parse_compound(value: &Nbt, budget: &mut Budget, depth: usize) -> (c: TextComponent)
    requires
        old(budget).within(),
        depth <= MAX_DEPTH,
    ensures
        (text_view(c), *final(budget)) == nbt_compound(*value, *old(budget), depth as nat),
        grows(*old(budget), *final(budget)),
    decreases MAX_NODES - old(budget).nodes, 3nat, 0nat,
{
    let content = parse_content(value, budget, depth);
    let hover_event = parse_hover_event(value, budget);
    let style = parse_style(value, hover_event);
    let extra = match list_field(value, "extra") {
        Some(items) => {
            assert(items@.skip(0) =~= items@);
            parse_list(items, 0, budget, depth + 1)
        },
        None => Vec::new(),
    };
    TextComponent { content, style, extra }
}

/// Parsing never spends more than the budget: whatever the input, the node and
/// text caps hold after it, and every component parsed within the depth cap
/// takes a node of its own.
pub proof fn law_budget_holds(v: Nbt, b: Budget, depth: nat)
    requires
        b.within(),
    ensures
        grows(b, nbt_component(v, b, depth).1),
        depth <= MAX_DEPTH && b.nodes < MAX_NODES ==> nbt_component(v, b, depth).1.nodes > b.nodes,
    decreases MAX_NODES - b.nodes, 0nat, 0nat,
{
    if !(depth > MAX_DEPTH || b.nodes >= MAX_NODES) {
        let b1 = Budget { nodes: (b.nodes + 1) as usize, ..b };
        match v {
            Nbt::List(list) => if list.items@.len() > 0 {
                law_budget_holds(list.items@[0], b1, depth + 1);
                law_list_budget_holds(
                    list.items@.drop_first(),
                    nbt_component(list.items@[0], b1, depth + 1).1,
                    depth + 1,
                );
            },
            Nbt::Compound(_) => {
                lemma_compound_budget(v, b1, depth);
            },
            _ => {},
        }
    }
}

/// A list within the depth cap is cut where the node budget ends: it has no more
/// elements than nodes were left.
pub proof fn law_list_budget_holds(items: Seq<Nbt>, b: Budget, depth: nat)
    requires
        b.within(),
    ensures
        grows(b, nbt_components(items, b, depth).1),
        depth <= MAX_DEPTH ==> nbt_components(items, b, depth).0.len()
            <= MAX_NODES - b.nodes,
    decreases MAX_NODES - b.nodes, 1nat, items.len(),
{
    if !(items.len() == 0 || b.nodes >= MAX_NODES) {
        law_budget_holds(items[0], b, depth);
        law_list_budget_holds(
            items.drop_first(),
            nbt_component(items[0], b, depth).1,
            depth,
        );
    }
}

/// A bare list is cut where the node budget ends: besides the siblings that its
/// first element brings along, it has no more of them than nodes were left.
pub proof fn law_bare_lists_are_cut(list: std::sync::Arc<NbtList>, b: Budget, depth: nat)
    requires
        b.within(),
        b.nodes < MAX_NODES,
        depth < MAX_DEPTH,
        list.items@.len() > 0,
    ensures
        ({
            let b1 = Budget { nodes: (b.nodes + 1) as usize, ..b };
            let first = nbt_component(list.items@[0], b1, depth + 1).0;
            nbt_component(Nbt::List(list), b, depth).0.extra.len() <= first.extra.len()
                + MAX_NODES - b1.nodes
        }),
{
    let b1 = Budget { nodes: (b.nodes + 1) as usize, ..b };
    law_budget_holds(list.items@[0], b1, depth + 1);
    law_list_budget_holds(
        list.items@.drop_first(),
        nbt_component(list.items@[0], b1, depth + 1).1,
        depth + 1,
    );
}

proof fn lemma_hover_budget(v: Nbt, b: Budget)
    requires
        b.within(),
    ensures
        grows(b, nbt_hover(v, b).1),
    decreases MAX_NODES - b.nodes, 2nat, 0nat,
{
    if let Some(event) = either_field(v, "hoverEvent"@, "hover_event"@) {
        if let Some(contents) = either_field(event, "contents"@, "value"@) {
            law_budget_holds(contents, b, 0);
        }
    }
}

proof fn lemma_content_budget(v: Nbt, b: Budget, depth: nat)
    requires
        b.within(),
    ensures
        grows(b, nbt_content(v, b, depth).1),
    decreases MAX_NODES - b.nodes, 2nat, 0nat,
{
    if let Some(items) = items_field(v, "with"@) {
        law_list_budget_holds(items, b, depth + 1);
    }
}

proof fn lemma_compound_budget(v: Nbt, b: Budget, depth: nat)
    requires
        b.within(),
    ensures
        grows(b, nbt_compound(v, b, depth).1),
    decreases MAX_NODES - b.nodes, 3nat, 0nat,
{
    lemma_content_budget(v, b, depth);
    let b1 = nbt_content(v, b, depth).1;
    lemma_hover_budget(v, b1);
    let b2 = nbt_hover(v, b1).1;
    if let Some(items) = items_field(v, "extra"@) {
        law_list_budget_holds(items, b2, depth + 1);
    }
}

} // verus!
