//! Text components out of JSON.
use std::sync::Arc;
use vstd::prelude::*;

use crate::minecraft::json::Json;
use crate::minecraft::nbt::{nbt_entries_view, nbt_list_view, nbt_view, Nbt, NbtList, NbtModel};
use crate::minecraft::text::{
    bounded_literal, color_of, later, lemma_texts_view, literal_bounded, literal_model, parse_color,
    style_view, text_view, texts_view, Budget, ClickEvent, Content, ContentModel, HoverEvent,
    HoverModel, RawEvent, Style, StyleModel, TextComponent, TextModel, MAX_DEPTH, MAX_NODES,
};
use crate::text_build::same_text;

verus! {

/// A text field.
pub open spec fn text_field(v: Json, name: Seq<char>) -> Option<Seq<char>> {
    match v.field(name) {
        Some(Json::String(s)) => Some(s@),
        _ => None,
    }
}

/// A yes-or-no field.
pub open spec fn flag_field(v: Json, name: Seq<char>) -> Option<bool> {
    match v.field(name) {
        Some(Json::Bool(b)) => Some(b),
        _ => None,
    }
}

/// A list field.
pub open spec fn items_field(v: Json, name: Seq<char>) -> Option<Seq<Json>> {
    match v.field(name) {
        Some(Json::Array(list)) => Some(list@),
        _ => None,
    }
}

/// A field under either of two spellings, the first one first.
pub open spec fn either_field(v: Json, camel: Seq<char>, snake: Seq<char>) -> Option<Json> {
    match v.field(camel) {
        Some(x) => Some(x),
        None => v.field(snake),
    }
}

/// The click event of a component.
pub open spec fn click_of(v: Json) -> Option<(Seq<char>, Seq<char>)> {
    match either_field(v, "clickEvent"@, "click_event"@) {
        Some(event) => match text_field(event, "action"@) {
            Some(action) => Some(
                (
                    action,
                    match text_field(event, "value"@) {
                        Some(value) => value,
                        None => Seq::empty(),
                    },
                ),
            ),
            None => None,
        },
        None => None,
    }
}

/// The style of a component, but for the hover event.
pub open spec fn style_of(v: Json, hover: Option<HoverModel>) -> StyleModel {
    StyleModel {
        color: match text_field(v, "color"@) {
            Some(c) => Some(color_of(c)),
            None => None,
        },
        bold: flag_field(v, "bold"@),
        italic: flag_field(v, "italic"@),
        underlined: flag_field(v, "underlined"@),
        strikethrough: flag_field(v, "strikethrough"@),
        obfuscated: flag_field(v, "obfuscated"@),
        insertion: text_field(v, "insertion"@),
        font: text_field(v, "font"@),
        click: click_of(v),
        hover,
    }
}

/// The component that a value stands for, and the budget after it. A string is a
/// literal; an array is its first element with the others as siblings; an object
/// is a component with its fields; anything else shows nothing.
pub open spec fn json_component(v: Json, b: Budget, depth: nat) -> (TextModel, Budget)
    decreases MAX_NODES - b.nodes, 0nat, 0nat,
{
    if depth > MAX_DEPTH || b.nodes >= MAX_NODES {
        (literal_model(Seq::empty()), b)
    } else {
        let b1 = Budget { nodes: (b.nodes + 1) as usize, ..b };
        match v {
            Json::String(s) => bounded_literal(s@, b1),
            Json::Array(list) => if list@.len() == 0 {
                (literal_model(Seq::empty()), b1)
            } else {
                let (first, b2) = json_component(list@[0], b1, depth + 1);
                let (rest, b3) = json_components(
                    list@.drop_first(),
                    later(b1, b2),
                    depth + 1,
                );
                (TextModel { extra: first.extra + rest, ..first }, b3)
            },
            Json::Object(_) => json_object(v, b1, depth),
            _ => (literal_model(Seq::empty()), b1),
        }
    }
}

/// The components of a list, which stops where the node budget does.
pub open spec fn json_components(items: Seq<Json>, b: Budget, depth: nat) -> (
    Seq<TextModel>,
    Budget,
)
    decreases MAX_NODES - b.nodes, 1nat, items.len(),
{
    if items.len() == 0 || b.nodes >= MAX_NODES {
        (Seq::empty(), b)
    } else {
        let (c, b2) = json_component(items[0], b, depth);
        let (rest, b3) = json_components(items.drop_first(), later(b, b2), depth);
        (seq![c] + rest, b3)
    }
}

/// The hover event of a component.
pub open spec fn json_hover(v: Json, b: Budget) -> (Option<HoverModel>, Budget)
    decreases MAX_NODES - b.nodes, 2nat, 0nat,
{
    match either_field(v, "hoverEvent"@, "hover_event"@) {
        None => (None, b),
        Some(event) => match text_field(event, "action"@) {
            None => (None, b),
            Some(action) => match either_field(event, "contents"@, "value"@) {
                Some(contents) if action == "show_text"@ => {
                    let (text, b2) = json_component(contents, b, 0);
                    (
                        Some(
                            HoverModel {
                                action,
                                text: Some(Box::new(text)),
                                raw: RawEvent::Json(event),
                            },
                        ),
                        b2,
                    )
                },
                _ => (Some(HoverModel { action, text: None, raw: RawEvent::Json(event) }), b),
            },
        },
    }
}

/// What an object's own content is.
pub open spec fn json_content(v: Json, b: Budget, depth: nat) -> (ContentModel, Budget)
    decreases MAX_NODES - b.nodes, 2nat, 0nat,
{
    match (text_field(v, "text"@), text_field(v, "translate"@)) {
        (Some(text), _) => {
            let (c, b2) = bounded_literal(text, b);
            (c.content, b2)
        },
        (None, Some(key)) => match items_field(v, "with"@) {
            Some(items) => {
                let (args, b2) = json_components(items, b, depth + 1);
                (ContentModel::Translate { key, args }, b2)
            },
            None => (ContentModel::Translate { key, args: Seq::empty() }, b),
        },
        (None, None) => (ContentModel::Unknown { raw: lossy(v) }, b),
    }
}

/// The component that an object stands for: content, then style, then siblings.
pub open spec fn json_object(v: Json, b: Budget, depth: nat) -> (TextModel, Budget)
    decreases MAX_NODES - b.nodes, 3nat, 0nat,
{
    let (content, b1) = json_content(v, b, depth);
    let (hover, b2) = json_hover(v, later(b, b1));
    let style = style_of(v, hover);
    match items_field(v, "extra"@) {
        Some(items) => {
            let (extra, b3) = json_components(items, later(b, b2), depth + 1);
            (TextModel { content, style, extra }, b3)
        },
        None => (TextModel { content, style, extra: Seq::empty() }, b2),
    }
}

/// A budget after parsing: no smaller, and within its caps.
pub open spec fn grows(a: Budget, b: Budget) -> bool {
    a.nodes <= b.nodes && b.within()
}

fn string_field(value: &Json, name: &str) -> (s: Option<String>)
    ensures
        s is Some <==> text_field(*value, name@) is Some,
        s matches Some(s) ==> text_field(*value, name@) == Some(s@),
{
    match value.get(name) {
        Some(Json::String(s)) => Some(s.clone()),
        _ => None,
    }
}

fn bool_field(value: &Json, name: &str) -> (b: Option<bool>)
    ensures
        b == flag_field(*value, name@),
{
    match value.get(name) {
        Some(Json::Bool(b)) => Some(*b),
        _ => None,
    }
}

fn list_field<'a>(value: &'a Json, name: &str) -> (items: Option<&'a Vec<Json>>)
    ensures
        items is Some <==> items_field(*value, name@) is Some,
        items matches Some(v) ==> items_field(*value, name@) == Some(v@),
{
    match value.get(name) {
        Some(Json::Array(list)) => Some(list),
        _ => None,
    }
}

fn event_field<'a>(value: &'a Json, camel: &str, snake: &str) -> (v: Option<&'a Json>)
    ensures
        v is Some <==> either_field(*value, camel@, snake@) is Some,
        v matches Some(v) ==> either_field(*value, camel@, snake@) == Some(*v),
{
    match value.get(camel) {
        Some(v) => Some(v),
        None => value.get(snake),
    }
}

/// Parses a component.
pub(crate) fn parse(value: &Json, budget: &mut Budget, depth: usize) -> (c: TextComponent)
    requires
        old(budget).within(),
        depth <= MAX_DEPTH + 1,
    ensures
        (text_view(c), *final(budget)) == json_component(*value, *old(budget), depth as nat),
        grows(*old(budget), *final(budget)),
    decreases MAX_NODES - old(budget).nodes, 0nat, 0nat,
{
    proof {
        reveal_strlit("");
        assert(""@ =~= Seq::<char>::empty());
    }
    if depth > MAX_DEPTH || !budget.take_node() {
        return TextComponent::literal("");
    }
    let ghost b1 = *budget;
    match value {
        Json::String(text) => literal_bounded(text.as_str(), budget),
        Json::Array(list) => {
            if list.len() == 0 {
                return TextComponent::literal("");
            }
            let mut component = parse(&list[0], budget, depth + 1);
            let ghost first = component;
            let mut rest = parse_list(list, 1, budget, depth + 1);
            let ghost siblings = rest@;
            component.extra.append(&mut rest);
            proof {
                assert(list@.skip(1) =~= list@.drop_first());
                lemma_texts_view(first.extra@);
                lemma_texts_view(siblings);
                lemma_texts_view(component.extra@);
                assert(texts_view(component.extra@) =~= texts_view(first.extra@) + texts_view(
                    siblings,
                ));
            }
            component
        },
        Json::Object(_) => parse_object(value, budget, depth),
        _ => TextComponent::literal(""),
    }
}

/// Parses the components of a list from an index on.
fn parse_list(
    items: &Vec<Json>,
    from: usize,
    budget: &mut Budget,
    depth: usize,
) -> (out: Vec<TextComponent>)
    requires
        old(budget).within(),
        depth <= MAX_DEPTH + 1,
        from <= items@.len(),
    ensures
        (texts_view(out@), *final(budget)) == json_components(
            items@.skip(from as int),
            *old(budget),
            depth as nat,
        ),
        grows(*old(budget), *final(budget)),
    decreases MAX_NODES - old(budget).nodes, 1nat, 0nat,
{
    let ghost start = *budget;
    let ghost whole = json_components(items@.skip(from as int), start, depth as nat);
    let mut out: Vec<TextComponent> = Vec::new();
    let mut i: usize = from;
    while i < items.len() && !budget.is_exhausted()
        invariant
            from <= i <= items@.len(),
            depth <= MAX_DEPTH + 1,
            grows(start, *budget),
            start == *old(budget),
            ({
                let rest = json_components(items@.skip(i as int), *budget, depth as nat);
                whole == (texts_view(out@) + rest.0, rest.1)
            }),
        decreases items@.len() - i,
    {
        let ghost tail = items@.skip(i as int);
        let ghost before = *budget;
        let ghost done = out@;
        assert(tail[0] == items@[i as int]);
        assert(tail.drop_first() =~= items@.skip(i + 1));
        let c = parse(&items[i], budget, depth);
        out.push(c);
        proof {
            assert(later(before, *budget) == *budget);
            assert(out@.drop_last() =~= done);
            let rest = json_components(items@.skip(i + 1), *budget, depth as nat);
            assert(texts_view(done) + (seq![text_view(c)] + rest.0) =~= texts_view(out@) + rest.0);
        }
        i += 1;
    }
    proof {
        assert(whole.0 =~= texts_view(out@));
    }
    out
}

fn parse_click_event(value: &Json) -> (c: Option<ClickEvent>)
    ensures
        c is Some <==> click_of(*value) is Some,
        c matches Some(c) ==> click_of(*value) == Some((c.action@, c.value@)),
{
    let event = match event_field(value, "clickEvent", "click_event") {
        Some(event) => event,
        None => {
            return None;
        },
    };
    let action = match string_field(event, "action") {
        Some(action) => action,
        None => {
            return None;
        },
    };
    let value = match string_field(event, "value") {
        Some(value) => value,
        None => String::new(),
    };
    Some(ClickEvent { action, value })
}

/// What a hover event says.
pub open spec fn hover_view(h: Option<HoverEvent>) -> Option<HoverModel> {
    match h {
        Some(h) => Some(
            HoverModel {
                action: h.action@,
                text: match h.text {
                    Some(t) => Some(Box::new(text_view(*t))),
                    None => None,
                },
                raw: h.raw,
            },
        ),
        None => None,
    }
}

fn parse_hover_event(value: &Json, budget: &mut Budget) -> (h: Option<HoverEvent>)
    requires
        old(budget).within(),
    ensures
        (hover_view(h), *final(budget)) == json_hover(*value, *old(budget)),
        grows(*old(budget), *final(budget)),
    decreases MAX_NODES - old(budget).nodes, 2nat, 0nat,
{
    let event = match event_field(value, "hoverEvent", "hover_event") {
        Some(event) => event,
        None => {
            return None;
        },
    };
    let action = match string_field(event, "action") {
        Some(action) => action,
        None => {
            return None;
        },
    };
    let contents = event_field(event, "contents", "value");
    let shows_text = same_text(action.as_str(), "show_text");
    let text = match contents {
        Some(contents) => if shows_text {
            Some(Box::new(parse(contents, budget, 0)))
        } else {
            None
        },
        None => None,
    };
    Some(HoverEvent { action, text, raw: RawEvent::Json(event.clone()) })
}

fn parse_style(value: &Json, hover_event: Option<HoverEvent>) -> (s: Style)
    ensures
        style_view(s) == style_of(*value, hover_view(hover_event)),
{
    let color = match string_field(value, "color") {
        Some(c) => Some(parse_color(c.as_str())),
        None => None,
    };
    Style {
        color,
        bold: bool_field(value, "bold"),
        italic: bool_field(value, "italic"),
        underlined: bool_field(value, "underlined"),
        strikethrough: bool_field(value, "strikethrough"),
        obfuscated: bool_field(value, "obfuscated"),
        insertion: string_field(value, "insertion"),
        font: string_field(value, "font"),
        click_event: parse_click_event(value),
        hover_event,
    }
}

fn parse_content(value: &Json, budget: &mut Budget, depth: usize) -> (c: Content)
    requires
        old(budget).within(),
        depth <= MAX_DEPTH,
    ensures
        (text_view(TextComponent { content: c, ..arbitrary() }).content, *final(budget))
            == json_content(*value, *old(budget), depth as nat),
        grows(*old(budget), *final(budget)),
    decreases MAX_NODES - old(budget).nodes, 2nat, 0nat,
{
    match string_field(value, "text") {
        Some(text) => {
            let c = literal_bounded(text.as_str(), budget);
            c.content
        },
        None => match string_field(value, "translate") {
            Some(key) => {
                let args = match list_field(value, "with") {
                    Some(items) => {
                        assert(items@.skip(0) =~= items@);
                        parse_list(items, 0, budget, depth + 1)
                    },
                    None => Vec::new(),
                };
                Content::Translate { key, args }
            },
            None => Content::Unknown { raw: json_to_nbt_lossy(value) },
        },
    }
}

fn parse_object(value: &Json, budget: &mut Budget, depth: usize) -> (c: TextComponent)
    requires
        old(budget).within(),
        depth <= MAX_DEPTH,
    ensures
        (text_view(c), *final(budget)) == json_object(*value, *old(budget), depth as nat),
        grows(*old(budget), *final(budget)),
    decreases MAX_NODES - old(budget).nodes, 3nat, 0nat,
{
    let content = parse_content(value, budget, depth);
    let hover_event = parse_hover_event(value, budget);
    let style = parse_style(value, hover_event);
    let extra = match list_field(value, "extra") {
        Some(items) => {
            assert(items@.skip(0) =~= items@);
            parse_list(items, 0, budget, depth + 1)
        },
        None => Vec::new(),
    };
    TextComponent { content, style, extra }
}

/// The tag that an uninterpreted JSON value is kept as: nothing becomes an empty
/// compound, flags become bytes, numbers longs where they fit and doubles where
/// they do not.
pub open spec fn lossy(v: Json) -> NbtModel
    decreases v,
{
    match v {
        Json::Null => NbtModel::Compound(Seq::empty()),
        Json::Bool(b) => NbtModel::Number {
            tag: 1,
            value: if b {
                1
            } else {
                0
            },
        },
        Json::Number { integer, bits } => match (integer, bits) {
            (Some(i), _) => NbtModel::Number { tag: 4, value: i as int },
            (None, Some(d)) => NbtModel::Number { tag: 6, value: d.0 as int },
            (None, None) => NbtModel::Number { tag: 4, value: 0 },
        },
        Json::String(s) => NbtModel::Text(s@),
        Json::Array(items) => NbtModel::List {
            tag: if items@.len() == 0 {
                8
            } else {
                lossy_tag(items@[0])
            },
            items: lossy_each(items@),
        },
        Json::Object(members) => NbtModel::Compound(lossy_members(members@)),
    }
}

/// The tag id of the kept form.
pub open spec fn lossy_tag(v: Json) -> u8 {
    match v {
        Json::Null => 10,
        Json::Bool(_) => 1,
        Json::Number { integer, bits } => if integer is None && bits is Some {
            6
        } else {
            4
        },
        Json::String(_) => 8,
        Json::Array(_) => 9,
        Json::Object(_) => 10,
    }
}

/// The kept form of each of several values.
pub open spec fn lossy_each(s: Seq<Json>) -> Seq<NbtModel>
    decreases s,
{
    if s.len() == 0 {
        Seq::empty()
    } else {
        lossy_each(s.drop_last()).push(lossy(s.last()))
    }
}

/// The kept form of each member.
pub open spec fn lossy_members(s: Seq<(String, Json)>) -> Seq<(Seq<char>, NbtModel)>
    decreases s,
{
    if s.len() == 0 {
        Seq::empty()
    } else {
        lossy_members(s.drop_last()).push((s.last().0@, lossy(s.last().1)))
    }
}

/// A best-effort conversion so an unrecognized JSON component's raw data can be
/// kept in the same [`Content::Unknown`] shape the NBT parser uses.
pub fn json_to_nbt_lossy(value: &Json) -> (n: Nbt)
    ensures
        nbt_view(n) == lossy(*value),
        n.wire_id() == lossy_tag(*value),
    decreases value,
{
    match value {
        Json::Null => Nbt::Compound(Arc::new(Vec::new())),
        Json::Bool(b) => Nbt::Byte(
            if *b {
                1
            } else {
                0
            },
        ),
        Json::Number { integer, bits } => match (integer, bits) {
            (Some(i), _) => Nbt::Long(*i),
            (None, Some(d)) => Nbt::Double(d.0),
            (None, None) => Nbt::Long(0),
        },
        Json::String(s) => Nbt::String(s.clone()),
        Json::Array(list) => {
            let items = all_to_nbt_lossy(list);
            let tag: u8 = if items.len() == 0 {
                8
            } else {
                items[0].tag_id()
            };
            Nbt::List(Arc::new(NbtList { tag, items }))
        },
        Json::Object(members) => Nbt::Compound(Arc::new(members_to_nbt_lossy(members))),
    }
}

/// Converts each of several values.
fn all_to_nbt_lossy(list: &Vec<Json>) -> (items: Vec<Nbt>)
    ensures
        items@.len() == list@.len(),
        nbt_list_view(items@) == lossy_each(list@),
        items@.len() > 0 ==> items@[0].wire_id() == lossy_tag(list@[0]),
    decreases list,
{
    let mut items: Vec<Nbt> = Vec::new();
    let mut i: usize = 0;
    assert(list@.take(0) =~= Seq::<Json>::empty());
    while i < list.len()
        invariant
            i <= list@.len(),
            items@.len() == i,
            nbt_list_view(items@) == lossy_each(list@.take(i as int)),
            i > 0 ==> items@[0].wire_id() == lossy_tag(list@[0]),
        decreases list@.len() - i,
    {
        let ghost before = items@;
        let item = json_to_nbt_lossy(&list[i]);
        items.push(item);
        assert(items@.drop_last() =~= before);
        assert(list@.take(i + 1).drop_last() =~= list@.take(i as int));
        i += 1;
    }
    assert(list@.take(list@.len() as int) =~= list@);
    items
}

/// Converts each of several members.
fn members_to_nbt_lossy(members: &Vec<(String, Json)>) -> (entries: Vec<(String, Nbt)>)
    ensures
        nbt_entries_view(entries@) == lossy_members(members@),
    decreases members,
{
    let mut entries: Vec<(String, Nbt)> = Vec::new();
    let mut i: usize = 0;
    assert(members@.take(0) =~= Seq::<(String, Json)>::empty());
    while i < members.len()
        invariant
            i <= members@.len(),
            entries@.len() == i,
            nbt_entries_view(entries@) == lossy_members(members@.take(i as int)),
        decreases members@.len() - i,
    {
        let ghost before = entries@;
        assert(decreases_to!(members => members@[i as int]));
        let item = json_to_nbt_lossy(&members[i].1);
        entries.push((members[i].0.clone(), item));
        assert(entries@.drop_last() =~= before);
        assert(members@.take(i + 1).drop_last() =~= members@.take(i as int));
        i += 1;
    }
    assert(members@.take(members@.len() as int) =~= members@);
    entries
}

/// Parsing never spends more than the budget: whatever the input, the node and
/// text caps hold after it, and every component parsed within the depth cap
/// takes a node of its own.
pub proof fn law_budget_holds(v: Json, b: Budget, depth: nat)
    requires
        b.within(),
    ensures
        grows(b, json_component(v, b, depth).1),
        depth <= MAX_DEPTH && b.nodes < MAX_NODES ==> json_component(v, b, depth).1.nodes > b.nodes,
    decreases MAX_NODES - b.nodes, 0nat, 0nat,
{
    if !(depth > MAX_DEPTH || b.nodes >= MAX_NODES) {
        let b1 = Budget { nodes: (b.nodes + 1) as usize, ..b };
        match v {
            Json::Array(list) => if list@.len() > 0 {
                law_budget_holds(list@[0], b1, depth + 1);
                law_list_budget_holds(
                    list@.drop_first(),
                    json_component(list@[0], b1, depth + 1).1,
                    depth + 1,
                );
            },
            Json::Object(_) => {
                lemma_object_budget(v, b1, depth);
            },
            _ => {},
        }
    }
}

/// A list within the depth cap is cut where the node budget ends: it has no more
/// elements than nodes were left.
pub proof fn law_list_budget_holds(items: Seq<Json>, b: Budget, depth: nat)
    requires
        b.within(),
    ensures
        grows(b, json_components(items, b, depth).1),
        depth <= MAX_DEPTH ==> json_components(items, b, depth).0.len()
            <= MAX_NODES - b.nodes,
    decreases MAX_NODES - b.nodes, 1nat, items.len(),
{
    if !(items.len() == 0 || b.nodes >= MAX_NODES) {
        law_budget_holds(items[0], b, depth);
        law_list_budget_holds(
            items.drop_first(),
            json_component(items[0], b, depth).1,
            depth,
        );
    }
}

/// A bare list is cut where the node budget ends: besides the siblings that its
/// first element brings along, it has no more of them than nodes were left.
pub proof fn law_bare_lists_are_cut(list: Arc<Vec<Json>>, b: Budget, depth: nat)
    requires
        b.within(),
        b.nodes < MAX_NODES,
        depth < MAX_DEPTH,
        list@.len() > 0,
    ensures
        ({
            let b1 = Budget { nodes: (b.nodes + 1) as usize, ..b };
            let first = json_component(list@[0], b1, depth + 1).0;
            json_component(Json::Array(list), b, depth).0.extra.len() <= first.extra.len()
                + MAX_NODES - b1.nodes
        }),
{
    let b1 = Budget { nodes: (b.nodes + 1) as usize, ..b };
    law_budget_holds(list@[0], b1, depth + 1);
    law_list_budget_holds(
        list@.drop_first(),
        json_component(list@[0], b1, depth + 1).1,
        depth + 1,
    );
}

proof fn lemma_hover_budget(v: Json, b: Budget)
    requires
        b.within(),
    ensures
        grows(b, json_hover(v, b).1),
    decreases MAX_NODES - b.nodes, 2nat, 0nat,
{
    if let Some(event) = either_field(v, "hoverEvent"@, "hover_event"@) {
        if let Some(contents) = either_field(event, "contents"@, "value"@) {
            law_budget_holds(contents, b, 0);
        }
    }
}

proof fn lemma_content_budget(v: Json, b: Budget, depth: nat)
    requires
        b.within(),
    ensures
        grows(b, json_content(v, b, depth).1),
    decreases MAX_NODES - b.nodes, 2nat, 0nat,
{
    if let Some(items) = items_field(v, "with"@) {
        law_list_budget_holds(items, b, depth + 1);
    }
}

proof fn lemma_object_budget(v: Json, b: Budget, depth: nat)
    requires
        b.within(),
    ensures
        grows(b, json_object(v, b, depth).1),
    decreases MAX_NODES - b.nodes, 3nat, 0nat,
{
    lemma_content_budget(v, b, depth);
    let b1 = json_content(v, b, depth).1;
    lemma_hover_budget(v, b1);
    let b2 = json_hover(v, b1).1;
    if let Some(items) = items_field(v, "extra"@) {
        law_list_budget_holds(items, b2, depth + 1);
    }
}

} // verus!
