//! What text components read as.
use crate::minecraft::nbt::{first_named, Nbt};
use crate::minecraft::text::{
    argument, chars_of, filled, index_suffix, joined, parse_color, plain, plain_each, plain_style,
    substitute_placeholders, translated, translation_template, Budget, Color, ContentModel, Style,
    TextComponent, TextModel,
};
use vstd::prelude::*;

verus! {

/// A literal reads as its text. Content that is not understood reads as nothing.
pub proof fn law_literals_read_as_their_text(text: &str, c: TextComponent, s: String)
    requires
        call_ensures(TextComponent::literal, (text,), c),
        call_ensures(TextComponent::plain_text, (&c,), s),
    ensures
        s@ == text@,
{
}

/// A component reads as its own text and then its siblings', in order: one sibling
/// more adds its text at the end.
pub proof fn law_siblings_read_after_their_component(c: TextModel, sibling: TextModel)
    ensures
        plain(TextModel { extra: Seq::empty(), ..c }) == (match c.content {
            ContentModel::Literal(s) => s,
            ContentModel::Translate { key, args } => translated(key, plain_each(args)),
            ContentModel::Unknown { .. } => Seq::empty(),
        }),
        plain(TextModel { extra: c.extra.push(sibling), ..c }) == plain(c) + plain(sibling),
{
    let more = c.extra.push(sibling);
    assert(more.drop_last() =~= c.extra);
    lemma_plain_each(c.extra);
    lemma_plain_each(more);
    let parts = plain_each(more);
    assert(parts.drop_last() =~= plain_each(c.extra));
    let own = plain(TextModel { extra: Seq::empty(), ..c });
    assert(plain(TextModel { extra: more, ..c }) =~= plain(c) + plain(sibling)) by {
        if c.extra.len() == 0 {
            assert(joined(plain_each(c.extra), Seq::empty()) =~= Seq::<char>::empty());
            assert(joined(parts, Seq::empty()) =~= plain(sibling));
        } else {
            assert(joined(parts, Seq::empty()) =~= joined(plain_each(c.extra), Seq::empty())
                + plain(sibling));
        }
    }
}

proof fn lemma_plain_each(s: Seq<TextModel>)
    ensures
        plain_each(s).len() == s.len(),
        forall|i: int| 0 <= i < s.len() ==> #[trigger] plain_each(s)[i] == plain(s[i]),
    decreases s.len(),
{
    if s.len() > 0 {
        lemma_plain_each(s.drop_last());
        assert forall|i: int| 0 <= i < s.len() implies #[trigger] plain_each(s)[i] == plain(
            s[i],
        ) by {
            if i < s.len() - 1 {
                assert(s.drop_last()[i] == s[i]);
                assert(plain_each(s.drop_last())[i] == plain(s.drop_last()[i]));
            }
        }
    }
}

/// Text without a percent sign stands as it is, and what follows is filled in.
pub proof fn law_templates_keep_their_text(
    front: Seq<char>,
    rest: Seq<char>,
    args: Seq<Seq<char>>,
    next: nat,
)
    requires
        !front.contains('%'),
    ensures
        filled(front + rest, args, next) == front + filled(rest, args, next),
    decreases front.len(),
{
    if front.len() == 0 {
        assert(front + rest =~= rest);
        assert(front + filled(rest, args, next) =~= filled(rest, args, next));
    } else {
        assert(front[0] != '%') by {
            assert(front.contains(front[0]));
        }
        let tail = front.skip(1);
        assert(!tail.contains('%')) by {
            if tail.contains('%') {
                let i = choose|i: int| 0 <= i < tail.len() && tail[i] == '%';
                assert(front[i + 1] == '%');
            }
        }
        law_templates_keep_their_text(tail, rest, args, next);
        assert((front + rest).skip(1) =~= tail + rest);
        assert(seq![front[0]] + (tail + filled(rest, args, next)) =~= front + filled(
            rest,
            args,
            next,
        ));
    }
}

/// A placeholder takes the next argument, a numbered one the argument of its number
/// counted from one, and a doubled percent sign is one. An argument that is not there
/// is nothing.
pub proof fn law_placeholders_take_their_arguments(
    rest: Seq<char>,
    args: Seq<Seq<char>>,
    next: nat,
    digit: nat,
)
    requires
        digit < 10,
    ensures
        filled(seq!['%', 's'] + rest, args, next) == argument(args, next as int) + filled(
            rest,
            args,
            next + 1,
        ),
        filled(seq!['%', '%'] + rest, args, next) == seq!['%'] + filled(rest, args, next),
        filled(seq!['%', (48 + digit) as char, '$', 's'] + rest, args, next) == argument(
            args,
            digit - 1,
        ) + filled(rest, args, next),
        next < args.len() ==> argument(args, next as int) == args[next as int],
        next >= args.len() ==> argument(args, next as int) == Seq::<char>::empty(),
        filled(Seq::empty(), args, next) == Seq::<char>::empty(),
{
    assert((seq!['%', 's'] + rest).skip(2) =~= rest);
    assert((seq!['%', '%'] + rest).skip(2) =~= rest);
    let c = (48 + digit) as char;
    let t = seq!['%', c, '$', 's'] + rest;
    assert(t.skip(1) =~= seq![c, '$', 's'] + rest);
    assert(t.skip(1).drop_first() =~= seq!['$', 's'] + rest);
    reveal_with_fuel(crate::minecraft::text::digit_run, 3);
    assert(crate::minecraft::text::digit_run(t.skip(1)) == 1);
    assert(t.skip(2) =~= seq!['$', 's'] + rest);
    assert(index_suffix(t.skip(2)) == 2);
    assert(t.skip(2).skip(2) =~= rest);
    assert(t.subrange(1, 2) =~= seq![c]);
    reveal_with_fuel(crate::minecraft::text::digits_value, 2);
    assert(seq![c].drop_last() =~= Seq::<char>::empty());
    assert(crate::minecraft::text::digits_value(t.subrange(1, 2)) == digit);
}

/// A template with two places.
proof fn lemma_two_places(
    template: Seq<char>,
    a: Seq<char>,
    b: Seq<char>,
    c: Seq<char>,
    args: Seq<Seq<char>>,
)
    requires
        template == a + (seq!['%', 's'] + (b + (seq!['%', 's'] + c))),
        !a.contains('%') && !b.contains('%') && !c.contains('%'),
        args.len() == 2,
    ensures
        filled(template, args, 0) == a + args[0] + b + args[1] + c,
{
    law_templates_keep_their_text(a, seq!['%', 's'] + (b + (seq!['%', 's'] + c)), args, 0);
    law_placeholders_take_their_arguments(b + (seq!['%', 's'] + c), args, 0, 0);
    law_templates_keep_their_text(b, seq!['%', 's'] + c, args, 1);
    law_placeholders_take_their_arguments(c, args, 1, 0);
    assert(c + Seq::<char>::empty() =~= c);
    law_templates_keep_their_text(c, Seq::empty(), args, 2);
    assert(filled(template, args, 0) =~= a + args[0] + b + args[1] + c);
}

/// What the chat of players reads as: the sender and the message in their places.
pub proof fn law_chat_translations_read_as_chat(args: Seq<Seq<char>>)
    requires
        args.len() == 2,
    ensures
        translated("chat.type.text"@, args) == seq!['<'] + args[0] + seq!['>', ' '] + args[1],
        translated("chat.type.announcement"@, args) == seq!['['] + args[0] + seq![']', ' ']
            + args[1],
        translated("chat.type.emote"@, args) == seq!['*', ' '] + args[0] + seq![' '] + args[1],
        translated("commands.message.display.incoming"@, args) == args[0] + " whispers to you: "@
            + args[1],
        translated("commands.message.display.outgoing"@, args) == "You whisper to "@ + args[0]
            + seq![':', ' '] + args[1],
{
    reveal_strlit("chat.type.text");
    reveal_strlit("chat.type.announcement");
    reveal_strlit("chat.type.emote");
    reveal_strlit("chat.type.team.text");
    reveal_strlit("multiplayer.player.joined");
    reveal_strlit("multiplayer.player.joined.renamed");
    reveal_strlit("multiplayer.player.left");
    reveal_strlit("commands.message.display.incoming");
    reveal_strlit("commands.message.display.outgoing");
    reveal_strlit("<%s> %s");
    reveal_strlit("[%s] %s");
    reveal_strlit("* %s %s");
    reveal_strlit("%s whispers to you: %s");
    reveal_strlit("You whisper to %s: %s");
    reveal_strlit(" whispers to you: ");
    reveal_strlit("You whisper to ");
    let none = Seq::<char>::empty();
    assert("chat.type.announcement"@[10] != "chat.type.text"@[10]);
    assert("chat.type.emote"@[10] != "chat.type.text"@[10]);
    assert("chat.type.emote"@[10] != "chat.type.announcement"@[10]);
    assert("commands.message.display.incoming"@.len() == 33);
    assert("multiplayer.player.joined.renamed"@.len() == 33);
    assert("commands.message.display.incoming"@[0] != "multiplayer.player.joined.renamed"@[0]);
    assert("commands.message.display.outgoing"@[0] != "multiplayer.player.joined.renamed"@[0]);
    assert("commands.message.display.incoming"@[25] != "commands.message.display.outgoing"@[25]);
    assert("<%s> %s"@ =~= seq!['<'] + (seq!['%', 's'] + (seq!['>', ' '] + (seq!['%', 's']
        + none))));
    lemma_two_places("<%s> %s"@, seq!['<'], seq!['>', ' '], none, args);
    assert("[%s] %s"@ =~= seq!['['] + (seq!['%', 's'] + (seq![']', ' '] + (seq!['%', 's']
        + none))));
    lemma_two_places("[%s] %s"@, seq!['['], seq![']', ' '], none, args);
    assert("* %s %s"@ =~= seq!['*', ' '] + (seq!['%', 's'] + (seq![' '] + (seq!['%', 's']
        + none))));
    lemma_two_places("* %s %s"@, seq!['*', ' '], seq![' '], none, args);
    assert("%s whispers to you: %s"@ =~= none + (seq!['%', 's'] + (" whispers to you: "@ + (seq![
        '%',
        's',
    ] + none))));
    lemma_two_places("%s whispers to you: %s"@, none, " whispers to you: "@, none, args);
    assert("You whisper to %s: %s"@ =~= "You whisper to "@ + (seq!['%', 's'] + (seq![':', ' '] + (
    seq!['%', 's'] + none))));
    lemma_two_places("You whisper to %s: %s"@, "You whisper to "@, seq![':', ' '], none, args);
    assert(seq!['<'] + args[0] + seq!['>', ' '] + args[1] + none =~= seq!['<'] + args[0] + seq![
        '>',
        ' ',
    ] + args[1]);
    assert(seq!['['] + args[0] + seq![']', ' '] + args[1] + none =~= seq!['['] + args[0] + seq![
        ']',
        ' ',
    ] + args[1]);
    assert(seq!['*', ' '] + args[0] + seq![' '] + args[1] + none =~= seq!['*', ' '] + args[0]
        + seq![' '] + args[1]);
    assert(none + args[0] + " whispers to you: "@ + args[1] + none =~= args[0]
        + " whispers to you: "@ + args[1]);
    assert("You whisper to "@ + args[0] + seq![':', ' '] + args[1] + none =~= "You whisper to "@
        + args[0] + seq![':', ' '] + args[1]);
}

/// A template with one place.
proof fn lemma_one_place(template: Seq<char>, a: Seq<char>, b: Seq<char>, args: Seq<Seq<char>>)
    requires
        template == a + (seq!['%', 's'] + b),
        !a.contains('%') && !b.contains('%'),
        args.len() >= 1,
    ensures
        filled(template, args, 0) == a + args[0] + b,
{
    law_templates_keep_their_text(a, seq!['%', 's'] + b, args, 0);
    law_placeholders_take_their_arguments(b, args, 0, 0);
    assert(b + Seq::<char>::empty() =~= b);
    law_templates_keep_their_text(b, Seq::empty(), args, 1);
    assert(filled(template, args, 0) =~= a + args[0] + b);
}

/// Players who come and go are told of by their name; one who came under another name
/// by both.
pub proof fn law_comings_and_goings_name_the_player(one: Seq<Seq<char>>, two: Seq<Seq<char>>)
    requires
        one.len() == 1,
        two.len() == 2,
    ensures
        translated("multiplayer.player.joined"@, one) == one[0] + " joined the game"@,
        translated("multiplayer.player.left"@, one) == one[0] + " left the game"@,
        translated("multiplayer.player.joined.renamed"@, two) == two[0] + " (formerly known as "@
            + two[1] + ") joined the game"@,
{
    reveal_strlit("chat.type.text");
    reveal_strlit("chat.type.announcement");
    reveal_strlit("chat.type.emote");
    reveal_strlit("chat.type.team.text");
    reveal_strlit("multiplayer.player.joined");
    reveal_strlit("multiplayer.player.joined.renamed");
    reveal_strlit("multiplayer.player.left");
    reveal_strlit("%s joined the game");
    reveal_strlit("%s left the game");
    reveal_strlit("%s (formerly known as %s) joined the game");
    reveal_strlit(" joined the game");
    reveal_strlit(" left the game");
    reveal_strlit(" (formerly known as ");
    reveal_strlit(") joined the game");
    let none = Seq::<char>::empty();
    assert("multiplayer.player.joined"@.len() == 25);
    assert("multiplayer.player.left"@.len() == 23);
    assert("multiplayer.player.joined.renamed"@.len() == 33);
    assert("chat.type.text"@.len() == 14);
    assert("chat.type.announcement"@.len() == 22);
    assert("chat.type.emote"@.len() == 15);
    assert("chat.type.team.text"@.len() == 19);
    assert("%s joined the game"@ =~= none + (seq!['%', 's'] + " joined the game"@));
    lemma_one_place("%s joined the game"@, none, " joined the game"@, one);
    assert(none + one[0] + " joined the game"@ =~= one[0] + " joined the game"@);
    assert("%s left the game"@ =~= none + (seq!['%', 's'] + " left the game"@));
    lemma_one_place("%s left the game"@, none, " left the game"@, one);
    assert(none + one[0] + " left the game"@ =~= one[0] + " left the game"@);
    assert("%s (formerly known as %s) joined the game"@ =~= none + (seq!['%', 's'] + (
    " (formerly known as "@ + (seq!['%', 's'] + ") joined the game"@))));
    lemma_two_places(
        "%s (formerly known as %s) joined the game"@,
        none,
        " (formerly known as "@,
        ") joined the game"@,
        two,
    );
    assert(none + two[0] + " (formerly known as "@ + two[1] + ") joined the game"@ =~= two[0]
        + " (formerly known as "@ + two[1] + ") joined the game"@);
}

/// A budget has 4096 nodes and 262144 bytes of text: each is taken while it lasts, and
/// what does not fit takes nothing.
pub proof fn law_budgets_are_spent_while_they_last(
    fresh: Budget,
    a: &mut Budget,
    node: bool,
    b: &mut Budget,
    len: usize,
    text: bool,
    c: &Budget,
    out: bool,
)
    requires
        call_ensures(Budget::new, (), fresh),
        call_ensures(Budget::take_node, (a,), node),
        call_ensures(Budget::take_text, (b, len), text),
        call_ensures(Budget::is_exhausted, (c,), out),
    ensures
        fresh.nodes == 0 && fresh.text_bytes == 0,
        node <==> old(a).nodes < 4096,
        node ==> final(a).nodes == old(a).nodes + 1 && final(a).text_bytes == old(a).text_bytes,
        !node ==> *final(a) == *old(a),
        text <==> old(b).text_bytes + len <= 262144,
        text ==> final(b).text_bytes == old(b).text_bytes + len && final(b).nodes == old(b).nodes,
        !text ==> *final(b) == *old(b),
        out <==> c.nodes >= 4096,
{
}

/// A key without a template reads as the key, with its arguments in braces where there
/// are any.
pub proof fn law_unknown_keys_read_as_themselves(
    key: &str,
    template: Option<&'static str>,
    args: Seq<Seq<char>>,
)
    requires
        call_ensures(translation_template, (key,), template),
        template is None,
    ensures
        args.len() == 0 ==> translated(key@, args) == key@,
        args.len() == 1 ==> translated(key@, args) == key@ + seq!['{'] + args[0] + seq!['}'],
        args.len() == 2 ==> translated(key@, args) == key@ + seq!['{'] + args[0] + seq![',', ' ']
            + args[1] + seq!['}'],
{
    reveal_strlit(", ");
    assert(", "@ =~= seq![',', ' ']);
    if args.len() == 2 {
        assert(args.drop_last()[0] == args[0]);
        assert(joined(args.drop_last(), ", "@) == args[0]);
        assert(translated(key@, args) =~= key@ + seq!['{'] + args[0] + seq![',', ' '] + args[1]
            + seq!['}']);
    }
}

/// Filling a template in adds to what is there.
pub proof fn law_substitution_appends(template: &str, args: &Vec<String>, out: &mut String)
    requires
        call_ensures(substitute_placeholders, (template, args, out), ()),
    ensures
        final(out)@ == old(out)@ + filled(template@, chars_of(args@), 0),
{
}

/// A colour with a hash sign is a hexadecimal one, without the sign; any other is a
/// name.
pub proof fn law_colors_are_names_or_hex(raw: &str, c: Color)
    requires
        call_ensures(parse_color, (raw,), c),
    ensures
        raw@.len() > 0 && raw@[0] == '#' ==> (c matches Color::Hex(s) && seq!['#'] + s@ == raw@),
        raw@.len() == 0 || raw@[0] != '#' ==> (c matches Color::Named(s) && s@ == raw@),
{
    if raw@.len() > 0 && raw@[0] == '#' {
        assert(seq!['#'] + raw@.skip(1) =~= raw@);
    }
}

/// A style that specifies nothing specifies nothing.
pub proof fn law_plain_style_is_empty(s: Style)
    requires
        call_ensures(plain_style, (), s),
    ensures
        s.color is None && s.bold is None && s.italic is None && s.underlined is None,
        s.strikethrough is None && s.obfuscated is None && s.insertion is None && s.font is None,
        s.click_event is None && s.hover_event is None,
{
}

/// The entry of a name is the first that has it.
pub proof fn law_the_first_entry_of_a_name_counts(
    entries: Seq<(String, Nbt)>,
    name: Seq<char>,
    k: int,
)
    ensures
        0 <= k < entries.len() && entries[k].0@ == name && (forall|j: int|
            0 <= j < k ==> (#[trigger] entries[j]).0@ != name) ==> first_named(entries, name)
            == Some(entries[k].1),
        (forall|j: int| 0 <= j < entries.len() ==> (#[trigger] entries[j]).0@ != name)
            ==> first_named(entries, name) is None,
    decreases entries.len(),
{
    if entries.len() > 0 {
        let rest = entries.drop_first();
        law_the_first_entry_of_a_name_counts(rest, name, k - 1);
        assert(forall|j: int| 0 <= j < rest.len() ==> #[trigger] rest[j] == entries[j + 1]);
    }
}

/// A tag has the number of its kind.
pub proof fn law_tags_have_their_numbers(tag: &Nbt, id: u8)
    requires
        call_ensures(Nbt::tag_id, (tag,), id),
    ensures
        tag is Byte <==> id == 1,
        tag is Short <==> id == 2,
        tag is Int <==> id == 3,
        tag is Long <==> id == 4,
        tag is Float <==> id == 5,
        tag is Double <==> id == 6,
        tag is ByteArray <==> id == 7,
        tag is String <==> id == 8,
        tag is List <==> id == 9,
        tag is Compound <==> id == 10,
        tag is IntArray <==> id == 11,
        tag is LongArray <==> id == 12,
{
}

} // verus!
