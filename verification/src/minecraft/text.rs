//! Shared text-component model: the one representation chat, system
//! messages, action bar, titles, boss bars, scoreboards and tab-list
//! header/footer are all built on.
//!
//! Text arrives in three forms, all supported here: network NBT
//! ([`TextComponent::from_nbt`]), a JSON string
//! ([`TextComponent::from_json_str`]), and plain strings
//! ([`TextComponent::literal`]).
//!
//! Parsing never fails: a malformed or hostile component degrades to the
//! best-effort text it can extract (worst case, an empty literal). Recursion
//! depth, total node count and total literal-text bytes are all bounded (see
//! the `MAX_*` constants).
use vstd::prelude::*;
use vstd::string::*;
use vstd::utf8::encode_utf8;

use crate::minecraft::json::{json_of, parse_json, Json};
use crate::minecraft::nbt::{nbt_view, Nbt, NbtModel};
use crate::text_build::{push_char, same_text};

verus! {

/// Recursion depth cap while parsing a component tree.
pub const MAX_DEPTH: usize = 64;

/// Total node cap (this component plus every sibling/argument reachable
/// from it, at any depth) — bounds parse time/memory independent of depth.
pub const MAX_NODES: usize = 4_096;

/// Total literal-text byte cap across the whole tree.
pub const MAX_TEXT_BYTES: usize = 262_144;

/// A parsed Minecraft text component.
#[derive(Debug, PartialEq)]
pub struct TextComponent {
    pub content: Content,
    pub style: Style,
    /// Sibling components appended after this one's own text, in order.
    pub extra: Vec<TextComponent>,
}

/// What a component actually says.
#[derive(Debug, PartialEq)]
pub enum Content {
    Literal(String),
    /// A translation key plus its (still-structured, not pre-rendered)
    /// arguments. [`TextComponent::plain_text`] substitutes known keys from
    /// a small built-in table (see [`translation_template`]); an unknown
    /// key falls back to showing the key and its rendered arguments.
    Translate { key: String, args: Vec<TextComponent> },
    /// A component kind this module doesn't specifically interpret (score,
    /// selector, keybind, nbt-value components, or a shape not recognized):
    /// the original data is preserved here.
    Unknown { raw: Nbt },
}

/// Formatting/interaction fields. Every field is optional: `None` means
/// "not specified here" (a real client would inherit from a parent
/// component), not "explicitly off".
#[derive(Debug, PartialEq)]
pub struct Style {
    pub color: Option<Color>,
    pub bold: Option<bool>,
    pub italic: Option<bool>,
    pub underlined: Option<bool>,
    pub strikethrough: Option<bool>,
    pub obfuscated: Option<bool>,
    pub insertion: Option<String>,
    pub font: Option<String>,
    pub click_event: Option<ClickEvent>,
    pub hover_event: Option<HoverEvent>,
}

#[derive(Debug, Clone, PartialEq)]
pub enum Color {
    /// A named color ("red", "gold", "reset", ...) exactly as the server
    /// sent it.
    Named(String),
    /// A `#RRGGBB` hex color (without the leading `#`).
    Hex(String),
}

/// Preserved click-event data: `{action, value}`.
#[derive(Debug, Clone, PartialEq)]
pub struct ClickEvent {
    pub action: String,
    pub value: String,
}

/// Preserved hover-event data.
#[derive(Debug, PartialEq)]
pub struct HoverEvent {
    pub action: String,
    /// Populated when `action` is `"show_text"` — the nested component is
    /// parsed like any other and shares this parse's node/text budget.
    pub text: Option<Box<TextComponent>>,
    pub raw: RawEvent,
}

/// The hover event's un-interpreted payload, in whichever encoding it was
/// parsed from.
#[derive(Debug, PartialEq)]
pub enum RawEvent {
    Nbt(Nbt),
    Json(Json),
}

/// What a component says, whatever holds it.
#[verifier::ext_equal]
pub struct TextModel {
    pub content: ContentModel,
    pub style: StyleModel,
    pub extra: Seq<TextModel>,
}

/// What a component's own content says.
#[verifier::ext_equal]
pub enum ContentModel {
    Literal(Seq<char>),
    Translate { key: Seq<char>, args: Seq<TextModel> },
    Unknown { raw: NbtModel },
}

/// A colour, whatever holds it.
#[verifier::ext_equal]
pub enum ColorModel {
    Named(Seq<char>),
    Hex(Seq<char>),
}

/// A style, whatever holds it.
#[verifier::ext_equal]
pub struct StyleModel {
    pub color: Option<ColorModel>,
    pub bold: Option<bool>,
    pub italic: Option<bool>,
    pub underlined: Option<bool>,
    pub strikethrough: Option<bool>,
    pub obfuscated: Option<bool>,
    pub insertion: Option<Seq<char>>,
    pub font: Option<Seq<char>>,
    pub click: Option<(Seq<char>, Seq<char>)>,
    pub hover: Option<HoverModel>,
}

/// A hover event, whatever holds it.
#[verifier::ext_equal]
pub struct HoverModel {
    pub action: Seq<char>,
    pub text: Option<Box<TextModel>>,
    pub raw: RawEvent,
}

/// The characters of an optional text.
pub open spec fn opt_chars(s: Option<String>) -> Option<Seq<char>> {
    match s {
        Some(s) => Some(s@),
        None => None,
    }
}

/// What a component says.
pub open spec fn text_view(c: TextComponent) -> TextModel
    decreases c,
{
    TextModel {
        content: match c.content {
            Content::Literal(s) => ContentModel::Literal(s@),
            Content::Translate { key, args } => ContentModel::Translate {
                key: key@,
                args: texts_view(args@),
            },
            Content::Unknown { raw } => ContentModel::Unknown { raw: nbt_view(raw) },
        },
        style: style_view(c.style),
        extra: texts_view(c.extra@),
    }
}

/// What each of several components says.
pub open spec fn texts_view(s: Seq<TextComponent>) -> Seq<TextModel>
    decreases s,
{
    if s.len() == 0 {
        Seq::empty()
    } else {
        texts_view(s.drop_last()).push(text_view(s.last()))
    }
}

/// What a style says.
pub open spec fn style_view(s: Style) -> StyleModel
    decreases s,
{
    StyleModel {
        color: match s.color {
            Some(c) => Some(color_view(c)),
            None => None,
        },
        bold: s.bold,
        italic: s.italic,
        underlined: s.underlined,
        strikethrough: s.strikethrough,
        obfuscated: s.obfuscated,
        insertion: opt_chars(s.insertion),
        font: opt_chars(s.font),
        click: match s.click_event {
            Some(c) => Some((c.action@, c.value@)),
            None => None,
        },
        hover: match s.hover_event {
            Some(h) => Some(
                HoverModel {
                    action: h.action@,
                    text: match h.text {
                        Some(t) => Some(Box::new(text_view(*t))),
                        None => None,
                    },
                    raw: h.raw,
                },
            ),
            None => None,
        },
    }
}

/// What a colour says.
pub open spec fn color_view(c: Color) -> ColorModel {
    match c {
        Color::Named(s) => ColorModel::Named(s@),
        Color::Hex(s) => ColorModel::Hex(s@),
    }
}

/// Views of several components: their number, and each.
pub proof fn lemma_texts_view(s: Seq<TextComponent>)
    ensures
        texts_view(s).len() == s.len(),
        forall|i: int| 0 <= i < s.len() ==> #[trigger] texts_view(s)[i] == text_view(s[i]),
    decreases s.len(),
{
    if s.len() > 0 {
        lemma_texts_view(s.drop_last());
        assert forall|i: int| 0 <= i < s.len() implies #[trigger] texts_view(s)[i] == text_view(
            s[i],
        ) by {
            if i < s.len() - 1 {
                assert(s.drop_last()[i] == s[i]);
                assert(texts_view(s.drop_last())[i] == text_view(s.drop_last()[i]));
            }
        }
    }
}

/// The style that specifies nothing.
pub open spec fn no_style() -> StyleModel {
    StyleModel {
        color: None,
        bold: None,
        italic: None,
        underlined: None,
        strikethrough: None,
        obfuscated: None,
        insertion: None,
        font: None,
        click: None,
        hover: None,
    }
}

/// A plain literal.
pub open spec fn literal_model(text: Seq<char>) -> TextModel {
    TextModel { content: ContentModel::Literal(text), style: no_style(), extra: Seq::empty() }
}

/// The flattened text of a component: its own, then every sibling's, in order.
pub open spec fn plain(c: TextModel) -> Seq<char>
    decreases c,
{
    (match c.content {
        ContentModel::Literal(s) => s,
        ContentModel::Translate { key, args } => translated(key, plain_each(args)),
        ContentModel::Unknown { .. } => Seq::empty(),
    }) + joined(plain_each(c.extra), Seq::empty())
}

/// The flattened text of each of several components.
pub open spec fn plain_each(s: Seq<TextModel>) -> Seq<Seq<char>>
    decreases s,
{
    if s.len() == 0 {
        Seq::empty()
    } else {
        plain_each(s.drop_last()).push(plain(s.last()))
    }
}

/// Texts in a row, with `between` between each two.
pub open spec fn joined(parts: Seq<Seq<char>>, between: Seq<char>) -> Seq<char>
    decreases parts.len(),
{
    if parts.len() == 0 {
        Seq::empty()
    } else if parts.len() == 1 {
        parts[0]
    } else {
        joined(parts.drop_last(), between) + between + parts.last()
    }
}

/// A translation as plain text: the known template with its arguments filled
/// in, else the key, with the arguments in braces where there are any.
pub open spec fn translated(key: Seq<char>, args: Seq<Seq<char>>) -> Seq<char> {
    match template_of(key) {
        Some(template) => filled(template, args, 0),
        None => if args.len() == 0 {
            key
        } else {
            key + seq!['{'] + joined(args, ", "@) + seq!['}']
        },
    }
}

/// The built-in table of templates.
pub open spec fn template_of(key: Seq<char>) -> Option<Seq<char>> {
    if key == "chat.type.text"@ {
        Some("<%s> %s"@)
    } else if key == "chat.type.announcement"@ {
        Some("[%s] %s"@)
    } else if key == "chat.type.emote"@ {
        Some("* %s %s"@)
    } else if key == "chat.type.team.text"@ {
        Some("%s <%s> %s"@)
    } else if key == "multiplayer.player.joined"@ {
        Some("%s joined the game"@)
    } else if key == "multiplayer.player.joined.renamed"@ {
        Some("%s (formerly known as %s) joined the game"@)
    } else if key == "multiplayer.player.left"@ {
        Some("%s left the game"@)
    } else if key == "commands.message.display.incoming"@ {
        Some("%s whispers to you: %s"@)
    } else if key == "commands.message.display.outgoing"@ {
        Some("You whisper to %s: %s"@)
    } else {
        None
    }
}

/// Whether a character is a decimal digit.
pub open spec fn is_digit(c: char) -> bool {
    '0' <= c && c <= '9'
}

/// How many digits stand at the front.
pub open spec fn digit_run(s: Seq<char>) -> nat
    decreases s.len(),
{
    if s.len() > 0 && is_digit(s[0]) {
        1 + digit_run(s.drop_first())
    } else {
        0
    }
}

/// The number that digits write.
pub open spec fn digits_value(s: Seq<char>) -> nat
    decreases s.len(),
{
    if s.len() == 0 {
        0
    } else {
        digits_value(s.drop_last()) * 10 + (s.last() as nat - '0' as nat) as nat
    }
}

/// The argument with this index; past the end there is nothing.
pub open spec fn argument(args: Seq<Seq<char>>, index: int) -> Seq<char> {
    if 0 <= index < args.len() {
        args[index]
    } else {
        Seq::empty()
    }
}

/// How much of `s` an optional `$s`, or a bare `$`, at its front takes.
pub open spec fn index_suffix(s: Seq<char>) -> int {
    if s.len() > 0 && s[0] == '$' {
        if s.len() > 1 && s[1] == 's' {
            2
        } else {
            1
        }
    } else {
        0
    }
}

/// A template with its placeholders filled in: `%%` is a percent sign, `%s` the
/// next argument, `%N$s` the `N`th.
pub open spec fn filled(template: Seq<char>, args: Seq<Seq<char>>, next: nat) -> Seq<char>
    decreases template.len(),
{
    if template.len() == 0 {
        Seq::empty()
    } else if template[0] != '%' {
        seq![template[0]] + filled(template.skip(1), args, next)
    } else if template.len() > 1 && template[1] == '%' {
        seq!['%'] + filled(template.skip(2), args, next)
    } else if template.len() > 1 && template[1] == 's' {
        argument(args, next as int) + filled(template.skip(2), args, next + 1)
    } else if template.len() > 1 && is_digit(template[1]) {
        proof {
            lemma_digit_run(template.skip(1));
        }
        let digits = digit_run(template.skip(1)) as int;
        let rest = template.skip(1 + digits);
        argument(args, digits_value(template.subrange(1, 1 + digits)) - 1) + filled(
            rest.skip(index_suffix(rest)),
            args,
            next,
        )
    } else {
        seq!['%'] + filled(template.skip(1), args, next)
    }
}

/// Parse budget spent so far.
#[derive(Debug, Clone, Copy)]
pub struct Budget {
    pub nodes: usize,
    pub text_bytes: usize,
}

/// The budget before anything is spent.
pub open spec fn fresh_budget() -> Budget {
    Budget { nodes: 0, text_bytes: 0 }
}

/// The later of two budgets; a budget never shrinks.
pub open spec fn later(a: Budget, b: Budget) -> Budget {
    if a.nodes <= b.nodes <= MAX_NODES && b.text_bytes <= MAX_TEXT_BYTES {
        b
    } else {
        a
    }
}

/// A literal, or the empty one where the text budget does not allow it.
pub open spec fn bounded_literal(text: Seq<char>, b: Budget) -> (TextModel, Budget) {
    if b.text_bytes + encode_utf8(text).len() > MAX_TEXT_BYTES {
        (literal_model(Seq::empty()), b)
    } else {
        (
            literal_model(text),
            Budget { text_bytes: (b.text_bytes + encode_utf8(text).len()) as usize, ..b },
        )
    }
}

/// A colour as the server writes it.
pub open spec fn color_of(raw: Seq<char>) -> ColorModel {
    if raw.len() > 0 && raw[0] == '#' {
        ColorModel::Hex(raw.skip(1))
    } else {
        ColorModel::Named(raw)
    }
}

impl Budget {
    /// Within its caps.
    pub open spec fn within(self) -> bool {
        self.nodes <= MAX_NODES && self.text_bytes <= MAX_TEXT_BYTES
    }

    /// Nothing spent yet.
    pub fn new() -> (b: Budget)
        ensures
            b == fresh_budget(),
    {
        Budget { nodes: 0, text_bytes: 0 }
    }

    /// Whether the node budget is used up — checked *before* even
    /// attempting to parse another sibling/argument, so an oversized list
    /// is truncated in length, not just left with empty entries past the limit.
    pub fn is_exhausted(&self) -> (b: bool)
        ensures
            b == (self.nodes >= MAX_NODES),
    {
        self.nodes >= MAX_NODES
    }

    /// Reserves one node; `false` once the node budget is exhausted.
    pub fn take_node(&mut self) -> (ok: bool)
        ensures
            ok == (old(self).nodes < MAX_NODES),
            *final(self) == if ok {
                Budget { nodes: (old(self).nodes + 1) as usize, ..*old(self) }
            } else {
                *old(self)
            },
    {
        if self.is_exhausted() {
            return false;
        }
        self.nodes = self.nodes + 1;
        true
    }

    /// Reserves `len` bytes of literal text; `false` once the text budget
    /// does not allow it.
    pub fn take_text(&mut self, len: usize) -> (ok: bool)
        ensures
            ok == (old(self).text_bytes + len <= MAX_TEXT_BYTES),
            *final(self) == if ok {
                Budget { text_bytes: (old(self).text_bytes + len) as usize, ..*old(self) }
            } else {
                *old(self)
            },
    {
        if self.text_bytes > MAX_TEXT_BYTES || len > MAX_TEXT_BYTES - self.text_bytes {
            return false;
        }
        self.text_bytes = self.text_bytes + len;
        true
    }
}

/// A style that specifies nothing.
pub fn plain_style() -> (s: Style)
    ensures
        style_view(s) == no_style(),
{
    Style {
        color: None,
        bold: None,
        italic: None,
        underlined: None,
        strikethrough: None,
        obfuscated: None,
        insertion: None,
        font: None,
        click_event: None,
        hover_event: None,
    }
}

impl Default for Style {
    fn default() -> (s: Self)
        ensures
            style_view(s) == no_style(),
    {
        plain_style()
    }
}

impl Default for TextComponent {
    fn default() -> (c: Self)
        ensures
            text_view(c) == literal_model(Seq::empty()),
    {
        proof {
            reveal_strlit("");
            assert(""@ =~= Seq::<char>::empty());
        }
        TextComponent::literal("")
    }
}

/// A component with this content, no style and no siblings.
pub(crate) fn bare(content: Content) -> (c: TextComponent)
    ensures
        c.content == content,
        style_view(c.style) == no_style(),
        c.extra@.len() == 0,
        text_view(c).style == no_style(),
        text_view(c).extra == Seq::<TextModel>::empty(),
{
    TextComponent { content, style: plain_style(), extra: Vec::new() }
}

/// A literal, or the empty one where the text budget does not allow it.
pub(crate) fn literal_bounded(text: &str, budget: &mut Budget) -> (c: TextComponent)
    ensures
        (text_view(c), *final(budget)) == bounded_literal(text@, *old(budget)),
{
    let len: usize = text.as_bytes().len();
    if budget.take_text(len) {
        TextComponent::literal(text)
    } else {
        let c = TextComponent::literal("");
        proof {
            reveal_strlit("");
            assert(""@ =~= Seq::<char>::empty());
        }
        c
    }
}

impl TextComponent {
    /// What the component says.
    pub open spec fn view(&self) -> TextModel {
        text_view(*self)
    }

    /// A plain literal component with default style and no siblings.
    pub fn literal(text: &str) -> (c: Self)
        ensures
            c@ == literal_model(text@),
    {
        bare(Content::Literal(text.to_owned()))
    }

    /// Parses a network NBT text component — the encoding every play-state
    /// text field uses.
    pub fn from_nbt(nbt: &Nbt) -> (c: TextComponent)
        ensures
            c@ == crate::minecraft::text_nbt::nbt_component(*nbt, fresh_budget(), 0).0,
    {
        let mut budget = Budget::new();
        crate::minecraft::text_nbt::parse(nbt, &mut budget, 0)
    }

    /// Parses a JSON-encoded text component (the login-state Disconnect
    /// `reason` field). Malformed JSON degrades to a literal component
    /// containing the raw string.
    pub fn from_json_str(json: &str) -> (c: TextComponent)
        ensures
            match crate::minecraft::json::json_document(json@) {
                Some(model) => exists|value: Json|
                    crate::minecraft::json::json_view(value) == model && c@
                        == #[trigger] crate::minecraft::text_json::json_component(
                        value,
                        fresh_budget(),
                        0,
                    ).0,
                None => c@ == literal_model(json@),
            },
    {
        match parse_json(json) {
            Some(value) => TextComponent::from_json(&json_of(value)),
            None => TextComponent::literal(json),
        }
    }

    /// Parses a text component out of a JSON value.
    pub fn from_json(value: &Json) -> (c: TextComponent)
        ensures
            c@ == crate::minecraft::text_json::json_component(*value, fresh_budget(), 0).0,
    {
        let mut budget = Budget::new();
        crate::minecraft::text_json::parse(value, &mut budget, 0)
    }

    /// Flattened, unstyled text: this component's literal/translated text
    /// followed by every sibling's, in order.
    pub fn plain_text(&self) -> (s: String)
        ensures
            s@ == plain(self@),
    {
        let mut out = String::new();
        self.render_plain(&mut out);
        assert(out@ =~= plain(self@));
        out
    }

    fn render_plain(&self, out: &mut String)
        ensures
            final(out)@ == old(out)@ + plain(self@),
        decreases self,
    {
        let ghost start = out@;
        match &self.content {
            Content::Literal(text) => {
                out.append(text.as_str());
            },
            Content::Translate { key, args } => {
                let rendered = plain_all(args);
                render_translation(key.as_str(), &rendered, out);
            },
            Content::Unknown { .. } => {
                assert(out@ =~= start + Seq::<char>::empty());
            },
        }
        let parts = plain_all(&self.extra);
        let all = join(&parts, "");
        proof {
            reveal_strlit("");
            assert(""@ =~= Seq::<char>::empty());
        }
        out.append(all.as_str());
        assert(out@ =~= start + plain(self@));
    }
}

/// The characters of each text.
pub open spec fn chars_of(v: Seq<String>) -> Seq<Seq<char>> {
    v.map_values(|s: String| s@)
}

/// Flattens each of several components.
fn plain_all(items: &Vec<TextComponent>) -> (out: Vec<String>)
    ensures
        chars_of(out@) == plain_each(texts_view(items@)),
    decreases items,
{
    let mut out: Vec<String> = Vec::new();
    let mut i: usize = 0;
    assert(items@.take(0) =~= Seq::<TextComponent>::empty());
    assert(chars_of(out@) =~= Seq::<Seq<char>>::empty());
    while i < items.len()
        invariant
            i <= items@.len(),
            out@.len() == i,
            chars_of(out@) == plain_each(texts_view(items@.take(i as int))),
        decreases items@.len() - i,
    {
        let mut text = String::new();
        items[i].render_plain(&mut text);
        assert(text@ =~= plain(text_view(items@[i as int])));
        proof {
            let seen = items@.take(i + 1);
            assert(seen.drop_last() =~= items@.take(i as int));
            lemma_texts_view(seen);
            assert(texts_view(seen).drop_last() =~= texts_view(seen.drop_last()));
            assert(chars_of(out@.push(text)) =~= chars_of(out@).push(text@));
        }
        out.push(text);
        i += 1;
    }
    assert(items@.take(items@.len() as int) =~= items@);
    out
}

/// Texts in a row, with `between` between each two.
fn join(parts: &Vec<String>, between: &str) -> (out: String)
    ensures
        out@ == joined(chars_of(parts@), between@),
{
    let mut out = String::new();
    let mut i: usize = 0;
    let ghost all = chars_of(parts@);
    assert(all.take(0) =~= Seq::<Seq<char>>::empty());
    while i < parts.len()
        invariant
            i <= parts@.len(),
            all == chars_of(parts@),
            out@ == joined(all.take(i as int), between@),
        decreases parts@.len() - i,
    {
        proof {
            assert(all.take(i + 1).drop_last() =~= all.take(i as int));
            assert(all.take(i + 1).last() == parts@[i as int]@);
        }
        if i > 0 {
            out.append(between);
        } else {
            assert(all.take(1)[0] == parts@[0]@);
            assert(out@ + parts@[0]@ =~= parts@[0]@);
        }
        out.append(parts[i].as_str());
        i += 1;
    }
    assert(all.take(all.len() as int) =~= all);
    out
}

/// The colour that the server's text stands for.
pub fn parse_color(raw: &str) -> (c: Color)
    ensures
        color_view(c) == color_of(raw@),
{
    let len: usize = raw.unicode_len();
    if len > 0 && raw.get_char(0) == '#' {
        let hex = raw.substring_char(1, len);
        assert(hex@ =~= raw@.skip(1));
        Color::Hex(hex.to_owned())
    } else {
        Color::Named(raw.to_owned())
    }
}

/// Renders a `translate` component's plain text: substitutes `%s`/`%N$s`
/// placeholders in a small built-in table of the keys a bot most often
/// sees, or falls back to showing the key and its rendered arguments for
/// anything not in that table.
fn render_translation(key: &str, rendered_args: &Vec<String>, out: &mut String)
    ensures
        final(out)@ == old(out)@ + translated(key@, chars_of(rendered_args@)),
{
    let ghost start = out@;
    match translation_template(key) {
        Some(template) => {
            substitute_placeholders(template, rendered_args, out);
        },
        None => {
            out.append(key);
            if rendered_args.len() > 0 {
                push_char(out, '{');
                let all = join(rendered_args, ", ");
                out.append(all.as_str());
                push_char(out, '}');
            }
        },
    }
    assert(out@ =~= start + translated(key@, chars_of(rendered_args@)));
}

/// A small table of the translation keys a bot most often sees in chat/
/// system messages.
pub fn translation_template(key: &str) -> (t: Option<&'static str>)
    ensures
        t is Some <==> template_of(key@) is Some,
        t matches Some(t) ==> template_of(key@) == Some(t@),
{
    if same_text(key, "chat.type.text") {
        Some("<%s> %s")
    } else if same_text(key, "chat.type.announcement") {
        Some("[%s] %s")
    } else if same_text(key, "chat.type.emote") {
        Some("* %s %s")
    } else if same_text(key, "chat.type.team.text") {
        Some("%s <%s> %s")
    } else if same_text(key, "multiplayer.player.joined") {
        Some("%s joined the game")
    } else if same_text(key, "multiplayer.player.joined.renamed") {
        Some("%s (formerly known as %s) joined the game")
    } else if same_text(key, "multiplayer.player.left") {
        Some("%s left the game")
    } else if same_text(key, "commands.message.display.incoming") {
        Some("%s whispers to you: %s")
    } else if same_text(key, "commands.message.display.outgoing") {
        Some("You whisper to %s: %s")
    } else {
        None
    }
}

/// The characters of a text, one by one.
pub(crate) fn to_chars(text: &str) -> (out: Vec<char>)
    ensures
        out@ == text@,
{
    let mut out: Vec<char> = Vec::new();
    let mut rest = text.chars();
    assert(text@.skip(0) =~= text@);
    loop
        invariant
            out@.len() <= text@.len(),
            out@ =~= text@.take(out@.len() as int),
            vstd::std_specs::iter::IteratorSpec::remaining(&rest) == text@.skip(
                out@.len() as int,
            ),
        decreases text@.len() - out@.len(),
    {
        match rest.next() {
            Some(c) => {
                let ghost at = out@.len() as int;
                assert(text@.skip(at).drop_first() =~= text@.skip(at + 1));
                assert(c == text@[at]);
                out.push(c);
            },
            None => {
                assert(out@ =~= text@);
                return out;
            },
        }
    }
}

/// Appends the argument with this index, where there is one.
fn append_argument(args: &Vec<String>, index: usize, out: &mut String)
    ensures
        final(out)@ == old(out)@ + argument(chars_of(args@), index as int),
{
    if index < args.len() {
        out.append(args[index].as_str());
    } else {
        assert(out@ + Seq::<char>::empty() =~= out@);
    }
}

/// The digits at the front are digits, and end where they end.
pub proof fn lemma_digit_run(s: Seq<char>)
    ensures
        digit_run(s) <= s.len(),
        forall|i: int| 0 <= i < digit_run(s) ==> is_digit(#[trigger] s[i]),
        digit_run(s) < s.len() ==> !is_digit(s[digit_run(s) as int]),
    decreases s.len(),
{
    if s.len() > 0 && is_digit(s[0]) {
        lemma_digit_run(s.drop_first());
        let n = digit_run(s.drop_first());
        assert forall|i: int| 0 <= i < n + 1 implies is_digit(#[trigger] s[i]) by {
            if i > 0 {
                assert(s.drop_first()[i - 1] == s[i]);
            }
        }
        if n + 1 < s.len() {
            assert(s.drop_first()[n as int] == s[n as int + 1]);
        }
    }
}

/// The number, or nothing where it is too large.
spec fn is_index(r: Option<usize>, value: nat) -> bool {
    match r {
        Some(v) => v == value,
        None => value > usize::MAX,
    }
}

/// Reads the digits that start at `from`: where they end, and the number they
/// write, where it is small enough to index anything.
fn read_index(template: &Vec<char>, from: usize) -> (r: (usize, Option<usize>))
    requires
        from < template@.len(),
    ensures
        r.0 == from + digit_run(template@.skip(from as int)),
        r.0 <= template@.len(),
        is_index(r.1, digits_value(template@.subrange(from as int, r.0 as int))),
{
    let mut at: usize = from;
    let mut value: Option<usize> = Some(0);
    let ghost run = digit_run(template@.skip(from as int));
    proof {
        lemma_digit_run(template@.skip(from as int));
        assert(template@.subrange(from as int, from as int) =~= Seq::<char>::empty());
    }
    while at < template.len() && '0' <= template[at] && template[at] <= '9'
        invariant
            from <= at <= from + run,
            from + run <= template@.len(),
            run == digit_run(template@.skip(from as int)),
            is_index(value, digits_value(template@.subrange(from as int, at as int))),
        decreases template@.len() - at,
    {
        proof {
            lemma_digit_run(template@.skip(from as int));
            if at == from + run {
                assert(template@.skip(from as int)[run as int] == template@[at as int]);
            }
            let next = template@.subrange(from as int, at + 1);
            assert(next.drop_last() =~= template@.subrange(from as int, at as int));
            assert(next.last() == template@[at as int]);
        }
        let digit: usize = (template[at] as u32 - '0' as u32) as usize;
        value = match value {
            Some(v) => if v > (usize::MAX - digit) / 10 {
                None
            } else {
                Some(v * 10 + digit)
            },
            None => None,
        };
        at += 1;
    }
    proof {
        lemma_digit_run(template@.skip(from as int));
        if at < from + run {
            assert(template@.skip(from as int)[at - from] == template@[at as int]);
        }
    }
    (at, value)
}

/// Substitutes `%s` (sequential) and `%N$s` (indexed) placeholders in a
/// vanilla translation template with the supplied, already-rendered
/// arguments.
pub fn substitute_placeholders(template: &str, args: &Vec<String>, out: &mut String)
    ensures
        final(out)@ == old(out)@ + filled(template@, chars_of(args@), 0),
{
    let t = to_chars(template);
    let ghost a = chars_of(args@);
    let ghost whole = out@ + filled(t@, a, 0);
    let mut i: usize = 0;
    let mut next_seq: usize = 0;
    assert(t@.skip(0) =~= t@);
    while i < t.len()
        invariant
            i <= t@.len(),
            next_seq <= i,
            a == chars_of(args@),
            whole == out@ + filled(t@.skip(i as int), a, next_seq as nat),
        decreases t@.len() - i,
    {
        let ghost rest = t@.skip(i as int);
        let ghost before = out@;
        let ghost from = i as int;
        assert(rest[0] == t@[i as int]);
        if t[i] != '%' {
            push_char(out, t[i]);
            i += 1;
            assert(rest.skip(1) =~= t@.skip(i as int));
            assert(whole =~= out@ + filled(t@.skip(i as int), a, next_seq as nat));
        } else if i + 1 < t.len() && t[i + 1] == '%' {
            assert(rest[1] == t@[i + 1]);
            push_char(out, '%');
            i += 2;
            assert(rest.skip(2) =~= t@.skip(i as int));
            assert(whole =~= out@ + filled(t@.skip(i as int), a, next_seq as nat));
        } else if i + 1 < t.len() && t[i + 1] == 's' {
            assert(rest[1] == t@[i + 1]);
            append_argument(args, next_seq, out);
            next_seq += 1;
            i += 2;
            assert(rest.skip(2) =~= t@.skip(i as int));
            assert(whole =~= out@ + filled(t@.skip(i as int), a, next_seq as nat));
        } else if i + 1 < t.len() && '0' <= t[i + 1] && t[i + 1] <= '9' {
            assert(rest[1] == t@[i + 1]);
            let (end, index) = read_index(&t, i + 1);
            assert(rest.skip(1) =~= t@.skip(i + 1));
            let ghost digits = digit_run(rest.skip(1)) as int;
            let ghost tail = rest.skip(1 + digits);
            assert(tail =~= t@.skip(end as int));
            assert(rest.subrange(1, 1 + digits) =~= t@.subrange(from + 1, end as int));
            i = end;
            if i < t.len() && t[i] == '$' {
                assert(tail[0] == t@[i as int]);
                i += 1;
                if i < t.len() && t[i] == 's' {
                    assert(tail[1] == t@[i as int]);
                    i += 1;
                } else if i < t.len() {
                    assert(tail[1] == t@[i as int]);
                }
            } else if i < t.len() {
                assert(tail[0] == t@[i as int]);
            }
            assert(tail.skip(index_suffix(tail)) =~= t@.skip(i as int));
            let ghost number = digits_value(rest.subrange(1, 1 + digits));
            match index {
                Some(index) if index > 0 => {
                    append_argument(args, index - 1, out);
                },
                _ => {
                    let count: usize = args.len();
                    assert(a.len() == count);
                    assert(out@ =~= before + argument(a, number - 1));
                },
            }
            assert(whole =~= out@ + filled(t@.skip(i as int), a, next_seq as nat));
        } else {
            if i + 1 < t.len() {
                assert(rest[1] == t@[i + 1]);
            }
            push_char(out, '%');
            i += 1;
            assert(rest.skip(1) =~= t@.skip(i as int));
            assert(whole =~= out@ + filled(t@.skip(i as int), a, next_seq as nat));
        }
    }
    assert(out@ =~= whole);
}

} // verus!
