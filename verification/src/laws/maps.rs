//! Maps and the order of their keys.
use crate::minecraft::hud::AttributeKey;
use crate::minecraft::scoreboard::{DisplaySlot, ScoreKey, TeamColor};
use crate::sorted_map::{compare_text, text_less, MapKey, Order, SortedMap};
use vstd::prelude::*;

verus! {

/// Numbers are in ascending order, pairs by the first and then the second.
pub proof fn law_number_keys_ascend(a: int, b: int, p: (int, int), q: (int, int))
    ensures
        <i32 as MapKey>::less(a, b) <==> a < b,
        <u128 as MapKey>::less(a, b) <==> a < b,
        <u64 as MapKey>::less(a, b) <==> a < b,
        <i16 as MapKey>::less(a, b) <==> a < b,
        <(i32, i32) as MapKey>::less(p, q) <==> p.0 < q.0 || (p.0 == q.0 && p.1 < q.1),
{
}

/// Texts are in the order of a dictionary: a text comes before any longer one that
/// starts with it, and otherwise the first character that differs decides.
pub proof fn law_text_keys_are_in_dictionary_order(
    front: Seq<char>,
    c: char,
    d: char,
    x: Seq<char>,
    y: Seq<char>,
)
    requires
        (c as int) < (d as int),
    ensures
        text_less(front, front + seq![c] + x),
        !text_less(front + seq![c] + x, front),
        text_less(front + seq![c] + x, front + seq![d] + y),
        !text_less(front + seq![d] + y, front + seq![c] + x),
{
    let a = front + seq![c] + x;
    let b = front + seq![d] + y;
    let n = front.len() as int;
    assert(crate::sorted_map::splits_at(front, a, n));
    assert(crate::sorted_map::splits_at(a, b, n));
    if text_less(a, front) {
        <String as MapKey>::transitive(a, front, a);
        <String as MapKey>::irreflexive(a);
    }
    if text_less(b, a) {
        <String as MapKey>::transitive(a, b, a);
        <String as MapKey>::irreflexive(a);
    }
}

/// Comparing texts says which comes first.
pub proof fn law_texts_are_told_apart(a: &str, b: &str, o: Order)
    requires
        call_ensures(compare_text, (a, b), o),
    ensures
        o is Equal ==> a@ == b@,
        o is Less ==> text_less(a@, b@) && !text_less(b@, a@),
        o is Greater ==> text_less(b@, a@) && !text_less(a@, b@),
{
    if o is Less && text_less(b@, a@) {
        <String as MapKey>::transitive(a@, b@, a@);
        <String as MapKey>::irreflexive(a@);
    }
    if o is Greater && text_less(a@, b@) {
        <String as MapKey>::transitive(a@, b@, a@);
        <String as MapKey>::irreflexive(a@);
    }
}

/// Scores are ordered by their objective and then by their owner.
pub proof fn law_score_keys_are_ordered(
    owner: String,
    objective: String,
    k: ScoreKey,
    a: (Seq<char>, Seq<char>),
    b: (Seq<char>, Seq<char>),
)
    requires
        call_ensures(ScoreKey::new, (owner, objective), k),
    ensures
        k.owner == owner,
        k.objective == objective,
        k.key() == (objective@, owner@),
        text_less(a.0, b.0) ==> <ScoreKey as MapKey>::less(a, b),
        a.0 == b.0 && text_less(a.1, b.1) ==> <ScoreKey as MapKey>::less(a, b),
{
}

/// Display slots are in the order of their numbers, and attributes in that of their
/// names.
pub proof fn law_slots_and_attributes_are_ordered(c: TeamColor, n: i32)
    ensures
        <DisplaySlot as MapKey>::less(DisplaySlot::List, DisplaySlot::Sidebar),
        <DisplaySlot as MapKey>::less(DisplaySlot::Sidebar, DisplaySlot::BelowName),
        <DisplaySlot as MapKey>::less(DisplaySlot::BelowName, DisplaySlot::Team(c)),
        <DisplaySlot as MapKey>::less(DisplaySlot::Team(c), DisplaySlot::Unknown(n)),
        <DisplaySlot as MapKey>::less(
            DisplaySlot::Team(TeamColor::Black),
            DisplaySlot::Team(TeamColor::White),
        ),
        <AttributeKey as MapKey>::less(AttributeKey::Armor, AttributeKey::ArmorToughness),
        <AttributeKey as MapKey>::less(AttributeKey::Luck, AttributeKey::MaxHealth),
        <AttributeKey as MapKey>::less(AttributeKey::Scale, AttributeKey::StepHeight),
{
}

/// What was put into a map is got back under its key until it is taken out; other keys
/// stay as they were.
pub proof fn law_maps_give_back_what_was_put(
    m: &mut SortedMap<i32, u64>,
    n: &mut SortedMap<i32, u64>,
    r: &SortedMap<i32, u64>,
    k: i32,
    v: u64,
    key: &i32,
    before: Option<u64>,
    taken: Option<u64>,
    got: Option<&u64>,
    has: bool,
    other: int,
)
    requires
        call_ensures(SortedMap::<i32, u64>::insert, (m, k, v), before),
        call_ensures(SortedMap::<i32, u64>::remove, (n, key), taken),
        call_ensures(SortedMap::<i32, u64>::get, (r, key), got),
        call_ensures(SortedMap::<i32, u64>::contains, (r, key), has),
    ensures
        final(m)@.contains_key(k as int) && final(m)@[k as int] == v,
        before is Some <==> old(m)@.contains_key(k as int),
        other != k ==> final(m)@.contains_key(other) == old(m)@.contains_key(other) && (old(
            m,
        )@.contains_key(other) ==> final(m)@[other] == old(m)@[other]),
        !final(n)@.contains_key(*key as int),
        taken matches Some(t) ==> old(n)@.contains_key(*key as int) && old(n)@[*key as int] == t,
        other != *key ==> final(n)@.contains_key(other) == old(n)@.contains_key(other) && (old(
            n,
        )@.contains_key(other) ==> final(n)@[other] == old(n)@[other]),
        got is Some <==> r@.contains_key(*key as int),
        got matches Some(g) ==> *g == r@[*key as int],
        has <==> r@.contains_key(*key as int),
{
}

} // verus!
