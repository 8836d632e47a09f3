//! Text components out of JSON.
use crate::minecraft::json::{json_document, json_view, Json, JsonModel};
use crate::minecraft::nbt::{nbt_entries_view, nbt_view, Nbt};
use crate::minecraft::text::{
    bounded_literal, literal_model, Budget, Color, Content, RawEvent, TextComponent,
};
use crate::minecraft::text_json::{json_component, json_components, json_to_nbt_lossy};
use vstd::prelude::*;
use vstd::utf8::encode_utf8;

verus! {

/// A text is a literal of itself, up to 262144 bytes, and a longer one an empty
/// literal. What is neither a text nor a list nor an object shows nothing.
pub proof fn law_json_strings_are_literals(v: &Json, c: TextComponent)
    requires
        call_ensures(TextComponent::from_json, (v,), c),
    ensures
        v matches Json::String(s) ==> (if encode_utf8(s@).len() <= 262144 {
            c@ == literal_model(s@)
        } else {
            c@ == literal_model(Seq::empty())
        }),
        !(v is String) && !(v is Array) && !(v is Object) ==> c@ == literal_model(Seq::empty()),
{
}

/// The style of an object is that of its fields, each from its own name; a field that is
/// absent or of another kind specifies nothing.
pub proof fn law_json_styles_come_from_their_fields(v: &Json, c: TextComponent)
    requires
        call_ensures(TextComponent::from_json, (v,), c),
        v is Object,
    ensures
        match v.field("bold"@) {
            Some(Json::Bool(x)) => c.style.bold == Some(x),
            _ => c.style.bold is None,
        },
        match v.field("italic"@) {
            Some(Json::Bool(x)) => c.style.italic == Some(x),
            _ => c.style.italic is None,
        },
        match v.field("underlined"@) {
            Some(Json::Bool(x)) => c.style.underlined == Some(x),
            _ => c.style.underlined is None,
        },
        match v.field("strikethrough"@) {
            Some(Json::Bool(x)) => c.style.strikethrough == Some(x),
            _ => c.style.strikethrough is None,
        },
        match v.field("obfuscated"@) {
            Some(Json::Bool(x)) => c.style.obfuscated == Some(x),
            _ => c.style.obfuscated is None,
        },
        match v.field("color"@) {
            Some(Json::String(s)) => if s@.len() > 0 && s@[0] == '#' {
                c.style.color matches Some(Color::Hex(h)) && h@ == s@.skip(1)
            } else {
                c.style.color matches Some(Color::Named(n)) && n@ == s@
            },
            _ => c.style.color is None,
        },
        match v.field("insertion"@) {
            Some(Json::String(s)) => c.style.insertion matches Some(t) && t@ == s@,
            _ => c.style.insertion is None,
        },
        match v.field("font"@) {
            Some(Json::String(s)) => c.style.font matches Some(t) && t@ == s@,
            _ => c.style.font is None,
        },
{
    let b1 = Budget { nodes: 1, text_bytes: 0 };
    assert(c@ == crate::minecraft::text_json::json_object(*v, b1, 0).0);
    assert(c@.style == crate::minecraft::text_json::style_of(*v, c@.style.hover));
}

/// A click has the action and the value of its event, which goes by either spelling.
pub proof fn law_json_clicks_come_from_their_event(
    v: &Json,
    c: TextComponent,
    event: Json,
    action: String,
    value: String,
)
    requires
        call_ensures(TextComponent::from_json, (v,), c),
        v is Object,
        v.field("clickEvent"@) == Some(event) || (v.field("clickEvent"@) is None && v.field(
            "click_event"@,
        ) == Some(event)),
    ensures
        event.field("action"@) == Some(Json::String(action)) && event.field("value"@) == Some(
            Json::String(value),
        ) ==> (c.style.click_event matches Some(e) && e.action@ == action@ && e.value@ == value@),
        event.field("action"@) is None ==> c.style.click_event is None,
{
    let b1 = Budget { nodes: 1, text_bytes: 0 };
    assert(c@ == crate::minecraft::text_json::json_object(*v, b1, 0).0);
    assert(c@.style == crate::minecraft::text_json::style_of(*v, c@.style.hover));
}

/// A hover event keeps its action and its data, and shows a text where it says so.
pub proof fn law_json_hovers_come_from_their_event(
    v: &Json,
    c: TextComponent,
    event: Json,
    action: String,
)
    requires
        call_ensures(TextComponent::from_json, (v,), c),
        v is Object,
        v.field("hoverEvent"@) == Some(event) || (v.field("hoverEvent"@) is None && v.field(
            "hover_event"@,
        ) == Some(event)),
    ensures
        event.field("action"@) == Some(Json::String(action)) ==> (c.style.hover_event matches Some(
            h,
        ) && h.action@ == action@ && h.raw == RawEvent::Json(event) && (h.text is Some <==> action@
            == "show_text"@ && (event.field("contents"@) is Some || event.field("value"@)
            is Some))),
        event.field("action"@) is None ==> c.style.hover_event is None,
{
    let b1 = Budget { nodes: 1, text_bytes: 0 };
    assert(c@ == crate::minecraft::text_json::json_object(*v, b1, 0).0);
    let content = crate::minecraft::text_json::json_content(*v, b1, 0);
    assert(c@.style.hover == crate::minecraft::text_json::json_hover(
        *v,
        crate::minecraft::text::later(b1, content.1),
    ).0);
}

/// The content of an object is its text; without one it is the translation of its key;
/// without either it is kept as it came.
pub proof fn law_json_content_is_text_before_translation(
    v: &Json,
    c: TextComponent,
    text: String,
    key: String,
)
    requires
        call_ensures(TextComponent::from_json, (v,), c),
        v is Object,
    ensures
        v.field("text"@) == Some(Json::String(text)) && encode_utf8(text@).len() <= 262144 ==> (
        c.content matches Content::Literal(s) && s@ == text@),
        v.field("text"@) is None && v.field("translate"@) == Some(Json::String(key)) ==> (
        c.content matches Content::Translate { key: k, .. } && k@ == key@),
        v.field("text"@) is None && v.field("translate"@) is None ==> c.content
            is Unknown,
{
    let b1 = Budget { nodes: 1, text_bytes: 0 };
    assert(c@ == crate::minecraft::text_json::json_object(*v, b1, 0).0);
    assert(c@.content == crate::minecraft::text_json::json_content(*v, b1, 0).0);
}

/// The bytes of several texts.
pub open spec fn bytes_of(items: Seq<Json>) -> nat
    decreases items.len(),
{
    if items.len() == 0 {
        0
    } else {
        bytes_of(items.drop_first()) + (match items[0] {
            Json::String(s) => encode_utf8(s@).len(),
            _ => 0nat,
        })
    }
}

/// Texts in a list are literals one by one, in their order, as long as the bounds
/// allow them.
pub proof fn law_json_texts_are_read_one_by_one(items: Seq<Json>, b: Budget, depth: nat, i: int)
    requires
        depth <= 64,
        forall|k: int| 0 <= k < items.len() ==> (#[trigger] items[k]) is String,
        b.nodes + items.len() <= 4096,
        b.text_bytes + bytes_of(items) <= 262144,
    ensures
        ({
            let (all, after) = json_components(items, b, depth);
            &&& all.len() == items.len()
            &&& 0 <= i < items.len() ==> all[i] == literal_model(items[i]->String_0@)
            &&& after.nodes == b.nodes + items.len()
            &&& after.text_bytes == b.text_bytes + bytes_of(items)
        }),
    decreases items.len(),
{
    if items.len() > 0 {
        let rest = items.drop_first();
        assert(forall|k: int| 0 <= k < rest.len() ==> #[trigger] rest[k] == items[k + 1]);
        assert(items[0] is String);
        let s = items[0]->String_0@;
        let first = json_component(items[0], b, depth);
        let b1 = Budget { nodes: (b.nodes + 1) as usize, ..b };
        assert(first == bounded_literal(s, b1));
        let b2 = first.1;
        assert(b2.nodes == b.nodes + 1 && b2.text_bytes == b.text_bytes + encode_utf8(s).len());
        assert(crate::minecraft::text::later(b, b2) == b2);
        law_json_texts_are_read_one_by_one(rest, b2, depth, i - 1);
        let all = json_components(items, b, depth).0;
        assert(all =~= seq![first.0] + json_components(rest, b2, depth).0);
    }
}

/// Siblings stand behind their component in the order of the list, and the arguments
/// of a translation in theirs.
pub proof fn law_json_lists_keep_their_order(
    v: &Json,
    c: TextComponent,
    items: Seq<Json>,
    key: String,
    i: int,
)
    requires
        call_ensures(TextComponent::from_json, (v,), c),
        v is Object,
        v.field("hoverEvent"@) is None,
        v.field("hover_event"@) is None,
        v.field("text"@) is None,
        v.field("translate"@) == Some(Json::String(key)),
        items.len() <= 4000,
        forall|k: int| 0 <= k < items.len() ==> (#[trigger] items[k]) is String,
        bytes_of(items) <= 262144,
        0 <= i < items.len(),
    ensures
        v.field("with"@) matches Some(Json::Array(l)) ==> l@ == items ==> (c.content matches
            Content::Translate { key: k, args } && k@ == key@ && args@.len() == items.len()
            && args@[i]@ == literal_model(items[i]->String_0@)),
        v.field("with"@) is None ==> (v.field("extra"@) matches Some(Json::Array(l)) ==> l@ == items
            ==> c.extra@.len() == items.len() && c.extra@[i]@ == literal_model(
            items[i]->String_0@,
        )),
        v.field("extra"@) is None ==> c.extra@.len() == 0,
{
    let b1 = Budget { nodes: 1, text_bytes: 0 };
    law_json_texts_are_read_one_by_one(items, b1, 1, i);
    assert(c@ == crate::minecraft::text_json::json_object(*v, b1, 0).0);
    if let Content::Translate { key: k, args } = c.content {
        crate::minecraft::text::lemma_texts_view(args@);
    }
    crate::minecraft::text::lemma_texts_view(c.extra@);
    assert(c@.content == crate::minecraft::text_json::json_content(*v, b1, 0).0);
    if v.field("with"@) is None {
        assert(crate::minecraft::text_json::json_content(*v, b1, 0).1 == b1);
    }
}

/// A bare list is its first text with the others behind it, in order; an empty one
/// shows nothing.
pub proof fn law_bare_json_lists_are_a_text_and_its_siblings(v: &Json, c: TextComponent, i: int)
    requires
        call_ensures(TextComponent::from_json, (v,), c),
    ensures
        v matches Json::Array(l) ==> l@.len() == 0 ==> c@ == literal_model(Seq::empty()),
        v matches Json::Array(l) ==> 0 < l@.len() <= 4000 && (forall|k: int|
            0 <= k < l@.len() ==> (#[trigger] l@[k]) is String) && bytes_of(l@) <= 262144
            ==> {
            &&& c.content matches Content::Literal(s) && s@ == l@[0]->String_0@
            &&& c.extra@.len() == l@.len() - 1
            &&& 0 < i < l@.len() ==> c.extra@[i - 1]@ == literal_model(l@[i]->String_0@)
        },
{
    if let Json::Array(l) = v {
        let items = l@;
        if 0 < items.len() <= 4000 && (forall|k: int|
            0 <= k < items.len() ==> (#[trigger] items[k]) is String) && bytes_of(items)
            <= 262144 {
            let b1 = Budget { nodes: 1, text_bytes: 0 };
            let rest = items.drop_first();
            assert(items[0] is String);
            assert(forall|k: int| 0 <= k < rest.len() ==> #[trigger] rest[k] == items[k + 1]);
            let s = items[0]->String_0@;
            let first = json_component(items[0], b1, 1);
            assert(first == bounded_literal(s, Budget { nodes: 2, text_bytes: 0 }));
            let b2 = first.1;
            assert(crate::minecraft::text::later(b1, b2) == b2);
            law_json_texts_are_read_one_by_one(rest, b2, 1, i - 1);
            crate::minecraft::text::lemma_texts_view(c.extra@);
            let tail = json_components(rest, b2, 1).0;
            assert(first.0.extra + tail =~= tail);
            assert(c@.extra == tail);
            assert(c@.content == first.0.content);
        }
    }
}

/// What a hover shows is what its event holds, under the newer name before the older.
pub proof fn law_json_hovers_show_what_their_event_holds(
    v: &Json,
    c: TextComponent,
    event: Json,
    action: String,
    shown: String,
    text: String,
)
    requires
        call_ensures(TextComponent::from_json, (v,), c),
        v is Object,
        v.field("hoverEvent"@) == Some(event),
        event.field("action"@) == Some(Json::String(action)),
        action@ == "show_text"@,
        event.field("contents"@) == Some(Json::String(shown)) || (event.field("contents"@) is None
            && event.field("value"@) == Some(Json::String(shown))),
        v.field("text"@) == Some(Json::String(text)),
        encode_utf8(text@).len() + encode_utf8(shown@).len() <= 262144,
    ensures
        c.style.hover_event matches Some(h) && (h.text matches Some(t) && t@ == literal_model(
            shown@,
        )),
{
    let b1 = Budget { nodes: 1, text_bytes: 0 };
    assert(c@ == crate::minecraft::text_json::json_object(*v, b1, 0).0);
    let content = crate::minecraft::text_json::json_content(*v, b1, 0);
    assert(content.1 == bounded_literal(text@, b1).1);
    let b2 = content.1;
    assert(crate::minecraft::text::later(b1, b2) == b2);
    assert(c@.style.hover == crate::minecraft::text_json::json_hover(*v, b2).0);
    assert(json_component(Json::String(shown), b2, 0) == bounded_literal(
        shown@,
        Budget { nodes: 2, ..b2 },
    ));
}

/// What is kept of a JSON value as a tag: yes and no as a byte, whole numbers as longs,
/// fractions as doubles, texts as they are, nothing as an empty compound.
pub proof fn law_json_values_are_kept_as_tags(v: &Json, n: Nbt)
    requires
        call_ensures(json_to_nbt_lossy, (v,), n),
    ensures
        v matches Json::Bool(b) ==> n == Nbt::Byte(if *b { 1i8 } else { 0i8 }),
        v matches Json::String(s) ==> (n matches Nbt::String(t) && t@ == s@),
        v matches Json::Number { integer: Some(i), .. } ==> n == Nbt::Long(*i),
        v matches Json::Number { integer: None, bits: Some(d) } ==> n == Nbt::Double(d.0),
        v is Null ==> (n matches Nbt::Compound(e) && e@.len() == 0),
        v is Array <==> n is List,
        v is Object ==> n is Compound,
{
    let m = nbt_view(n);
    if v is Null {
        if let Nbt::Compound(e) = n {
            if e@.len() > 0 {
                assert(nbt_entries_view(e@).len() > 0);
            }
        }
    }
}

/// A text that is no JSON is a literal of itself; one that is a JSON text is a literal
/// of what it says.
pub proof fn law_json_documents_are_read(json: &str, c: TextComponent, s: Seq<char>)
    requires
        call_ensures(TextComponent::from_json_str, (json,), c),
    ensures
        json_document(json@) is None ==> c@ == literal_model(json@),
        json_document(json@) == Some(JsonModel::Text(s)) && encode_utf8(s).len() <= 262144 ==> c@
            == literal_model(s),
{
    if json_document(json@) == Some(JsonModel::Text(s)) {
        let value = choose|value: Json|
            json_view(value) == JsonModel::Text(s) && c@ == #[trigger] json_component(
                value,
                crate::minecraft::text::fresh_budget(),
                0,
            ).0;
        assert(value is String);
    }
}

} // verus!
