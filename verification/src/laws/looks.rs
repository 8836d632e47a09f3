//! Random looks.
use crate::minecraft::control::{
    drawn, interval_ticks, random_interval_ticks, seeded, BotCommand, Controller, RandomLookConfig,
    RandomLookRuntime,
};
use rand::rngs::StdRng;
use vstd::prelude::*;

verus! {

/// An interval is a whole number of ticks of fifty milliseconds, at least one, and at
/// least what the shortest interval takes where whole ticks fit between the bounds.
pub proof fn law_intervals_are_whole_ticks(config: &RandomLookConfig, millis: u64, ticks: u32)
    requires
        call_ensures(interval_ticks, (config, millis), ticks),
        millis < 0x1_0000_0000,
        config.max_interval_nanos < 0x1_0000_0000 * 50_000_000,
    ensures
        ({
            let whole = millis as int / 50;
            let least = (config.min_interval_nanos + 50_000_000 - 1) / 50_000_000;
            let most = config.max_interval_nanos as int / 50_000_000;
            &&& ticks >= 1 || least > 0
            &&& whole >= 1 && (least <= whole || least > most) ==> ticks == whole
            &&& whole < 1 && least <= 1 ==> ticks == 1
            &&& whole < least && 1 < least <= most ==> ticks == least
        }),
{
}

/// The countdown is drawn between the two intervals, in milliseconds and never below a
/// tick; where they are the same nothing is drawn.
pub proof fn law_countdowns_are_drawn_between_the_bounds(
    config: &RandomLookConfig,
    rng: &mut StdRng,
    ticks: u32,
    least: u64,
    most: u64,
    plain: u32,
    random: u32,
)
    requires
        call_ensures(random_interval_ticks, (config, rng), ticks),
        config.min_interval_nanos / 1_000_000 < 0x1_0000_0000,
        config.max_interval_nanos / 1_000_000 < 0x1_0000_0000,
        least == (if config.min_interval_nanos / 1_000_000 < 50 {
            50int
        } else {
            config.min_interval_nanos as int / 1_000_000
        }),
        most == (if config.max_interval_nanos / 1_000_000 < least {
            least as int
        } else {
            config.max_interval_nanos as int / 1_000_000
        }),
        call_ensures(interval_ticks, (config, least), plain),
        call_ensures(interval_ticks, (config, drawn(*old(rng), least, most).0), random),
    ensures
        most == least ==> ticks == plain && *final(rng) == *old(rng),
        most > least ==> ticks == random && *final(rng) == drawn(*old(rng), least, most).1,
{
}

/// Looking around is switched on with the source of its seed and off again, and no
/// other command touches it. The keys stay.
pub proof fn law_looking_around_is_switched(
    a: &mut Controller,
    b: &mut Controller,
    config: RandomLookConfig,
    seed: u64,
    look: RandomLookRuntime,
)
    requires
        config.seed == Some(seed),
        call_ensures(Controller::apply, (a, BotCommand::SetRandomLook(Some(config))), ()),
        call_ensures(Controller::apply, (b, BotCommand::SetRandomLook(None)), ()),
        call_ensures(RandomLookRuntime::start, (config, seeded(seed)), look),
    ensures
        final(a).random_look == Some(look),
        look.config == config,
        final(a).manual == old(a).manual && final(a).goal == old(a).goal,
        final(b).random_look is None,
        final(b).manual == old(b).manual && final(b).goal == old(b).goal,
{
    assert(final(a).keys() == old(a).keys());
    assert(final(b).keys() == old(b).keys());
}

/// The countdown goes down by one on each tick, and a look is due at nought.
pub proof fn law_countdowns_go_down(c: &mut Controller, due: bool, goal: &Controller, has: bool)
    requires
        call_ensures(Controller::tick_random_look, (c,), due),
        call_ensures(Controller::has_goal, (goal,), has),
    ensures
        old(c).random_look is None ==> !due && final(c).random_look is None,
        old(c).random_look matches Some(look) ==> (due <==> look.ticks_until_next == 0),
        old(c).random_look matches Some(look) ==> look.ticks_until_next > 0 ==> (
        final(c).random_look matches Some(next) && next.ticks_until_next == old(
            c,
        ).random_look->0.ticks_until_next - 1 && next.config == old(c).random_look->0.config
            && next.rng == old(c).random_look->0.rng),
        final(c).manual == old(c).manual && final(c).goal == old(c).goal,
        has <==> goal.goal is Some,
{
    assert(final(c).keys() == old(c).keys());
}

} // verus!
