//! Clicks from their request to their end.
use crate::minecraft::inventory::{
    all_recorded, drag_button, mouse_button, recorded, validate_optional_slot, validate_slot,
    DragButton, DragPhase, DragState, Due, InventoryClick, InventoryClickRequest, InventoryError,
    InventoryEvent, InventoryModel, InventoryOutcome, InventoryState, InventoryTransaction,
    InventoryTransactionStatus, MouseButton, PacketCloseWindow, PacketHeldItemSlot, PacketSetSlot,
    PacketWindowItems, PreparedClick, WindowModel,
};
use vstd::prelude::*;

verus! {

/// A click that is accepted waits behind the others, as it was requested, since this
/// tick, and is reported as queued. One that is refused leaves everything. No click
/// changes a window, the cursor or the hotbar.
pub proof fn law_accepted_clicks_wait_in_order(
    s: &mut InventoryState,
    request: InventoryClickRequest,
    tick: u64,
    creative: bool,
    res: Result<PreparedClick, InventoryError>,
)
    requires
        call_ensures(InventoryState::prepare_click, (s, request, tick, creative), res),
    ensures
        res is Err ==> final(s)@ == old(s)@,
        res matches Ok(c) ==> c.packet.window_id == request.window_id && c.packet.state_id
            == request.state_id && c.packet.changed_slots@.len() == 0 && c.packet.cursor_item
            == old(s)@.cursor && c.event == (InventoryEvent::TransactionQueued {
            transaction_id: request.transaction_id,
        }),
        res is Ok ==> {
            &&& final(s)@.pending.len() == old(s)@.pending.len() + 1
            &&& final(s)@.pending.drop_last() == old(s)@.pending
            &&& final(s)@.pending.last() == (InventoryTransaction {
                request,
                status: InventoryTransactionStatus::Queued,
                queued_tick: tick,
            })
        },
        final(s)@.player == old(s)@.player,
        final(s)@.open == old(s)@.open,
        final(s)@.cursor == old(s)@.cursor,
        final(s)@.selected == old(s)@.selected,
        final(s)@.completed == old(s)@.completed,
{
    if res is Ok {
        assert(final(s)@.pending.drop_last() =~= old(s)@.pending);
    }
}

/// A pickup goes out in mode zero with the button's own number and the slot it names,
/// or -999 outside the window; the other clicks in their modes.
pub proof fn law_clicks_are_told_by_slot_button_and_mode(
    s: &mut InventoryState,
    request: InventoryClickRequest,
    tick: u64,
    creative: bool,
    res: Result<PreparedClick, InventoryError>,
)
    requires
        call_ensures(InventoryState::prepare_click, (s, request, tick, creative), res),
        res is Ok,
    ensures
        ({
            let p = res->Ok_0.packet;
            &&& request.click matches InventoryClick::Pickup { slot, button } ==> p.mode == 0 && (
            p.mouse_button == 0 <==> button == MouseButton::Left) && (p.mouse_button == 1
                <==> button == MouseButton::Right) && (slot matches Some(at) ==> p.slot == at) && (
            slot is None ==> p.slot == -999)
            &&& request.click matches InventoryClick::QuickMove { slot } ==> p.mode == 1
                && p.mouse_button == 0 && p.slot == slot
            &&& request.click is HotbarSwap <==> p.mode == 2
            &&& request.click is Clone <==> p.mode == 3
            &&& request.click matches InventoryClick::Throw { slot, whole_stack } ==> p.mode == 4
                && (p.mouse_button == 1 <==> whole_stack) && p.slot == slot
            &&& request.click is QuickCraft <==> p.mode == 5
            &&& request.click matches InventoryClick::PickupAll { slot } ==> p.mode == 6
                && p.mouse_button == 0 && p.slot == slot
        }),
{
    let w = old(s)@.window(request.window_id)->0;
    crate::laws::inventories::law_clicks_have_their_wire_numbers(
        old(s)@.drag,
        request.click,
        w.slots.len() as usize,
        creative,
    );
}

/// Why a click is refused before it is looked at: too many wait, its number was used,
/// its window is not there, or the window has another revision. They are looked at in
/// this order.
pub proof fn law_clicks_are_refused_in_order(
    s: &mut InventoryState,
    request: InventoryClickRequest,
    tick: u64,
    creative: bool,
    res: Result<PreparedClick, InventoryError>,
    i: int,
)
    requires
        call_ensures(InventoryState::prepare_click, (s, request, tick, creative), res),
    ensures
        ({
            let m = old(s)@;
            let id = request.transaction_id;
            let used = m.completed.contains_key(id as int) || (0 <= i < m.pending.len()
                && m.pending[i].request.transaction_id == id);
            &&& m.pending.len() >= 64 ==> res == Err::<PreparedClick, _>(InventoryError::QueueFull)
            &&& m.pending.len() < 64 && used ==> res == Err::<PreparedClick, _>(
                InventoryError::DuplicateTransaction { transaction_id: id },
            )
            &&& res matches Err(InventoryError::UnknownWindow { window_id }) ==> window_id
                == request.window_id && window_id != 0 && (m.open matches Some(w) ==> w.id
                != request.window_id)
            &&& res matches Err(InventoryError::StaleState { requested, current }) ==> requested
                == request.state_id && current != requested && (request.window_id == 0 ==> current
                == m.player.state_id) && (request.window_id != 0 ==> m.open is Some && current
                == m.open->0.state_id)
            &&& res is Ok && request.window_id == 0 ==> m.player.state_id == request.state_id
            &&& res is Ok && request.window_id != 0 ==> (m.open matches Some(w) && w.id
                == request.window_id && w.state_id == request.state_id)
            &&& res is Ok ==> m.pending.len() < 64 && !used
        }),
{
}

/// A drag runs with one button: its start notes the button, its end forgets it, and
/// every other click leaves it.
pub proof fn law_drags_run_with_one_button(
    s: &mut InventoryState,
    request: InventoryClickRequest,
    tick: u64,
    creative: bool,
    res: Result<PreparedClick, InventoryError>,
)
    requires
        call_ensures(InventoryState::prepare_click, (s, request, tick, creative), res),
        res is Ok,
    ensures
        request.click matches InventoryClick::QuickCraft { phase, button, slot } ==> {
            &&& phase == DragPhase::Start ==> old(s)@.drag is None && final(s)@.drag == Some(
                DragState { button },
            )
            &&& phase == DragPhase::AddSlot ==> old(s)@.drag == Some(DragState { button })
                && final(s)@.drag == old(s)@.drag
            &&& phase == DragPhase::End ==> old(s)@.drag == Some(DragState { button })
                && final(s)@.drag is None
            &&& phase == DragPhase::AddSlot <==> slot is Some
        },
        !(request.click is QuickCraft) ==> old(s)@.drag is None && final(s)@.drag is None,
{
}

/// The numbers of buttons: left and right are nought and one, and a drag takes four
/// times the button and adds its phase.
pub proof fn law_buttons_have_their_numbers(
    button: MouseButton,
    code: i8,
    drag: DragButton,
    phase: DragPhase,
    drag_code: i8,
)
    requires
        call_ensures(mouse_button, (button,), code),
        call_ensures(drag_button, (drag, phase), drag_code),
    ensures
        code == 0 <==> button == MouseButton::Left,
        code == 1 <==> button == MouseButton::Right,
        drag_code / 4 == 0 <==> drag == DragButton::Left,
        drag_code / 4 == 1 <==> drag == DragButton::Right,
        drag_code / 4 == 2 <==> drag == DragButton::Middle,
        drag_code % 4 == 0 <==> phase == DragPhase::Start,
        drag_code % 4 == 1 <==> phase == DragPhase::AddSlot,
        drag_code % 4 == 2 <==> phase == DragPhase::End,
{
}

/// Slots run from nought up to the number of them; no slot stands for the outside.
pub proof fn law_slots_run_from_nought(
    slot: i16,
    count: usize,
    one: Result<(), InventoryError>,
    some: Result<i16, InventoryError>,
    outside: Result<i16, InventoryError>,
)
    requires
        call_ensures(validate_slot, (slot, count), one),
        call_ensures(validate_optional_slot, (Some(slot), count), some),
        call_ensures(validate_optional_slot, (None::<i16>, count), outside),
    ensures
        one is Ok <==> 0 <= slot < count,
        some == Ok::<_, InventoryError>(slot) <==> 0 <= slot < count,
        !(0 <= slot < count) ==> one->Err_0 == (InventoryError::InvalidSlot {
            slot,
            slot_count: count,
        }) && some == Err::<i16, _>(InventoryError::InvalidSlot { slot, slot_count: count }),
        outside matches Ok(o) && o == -999,
{
}

/// Marking a click as sent changes its status alone, and only that of the click with
/// the number. A drag that has not ended is done with that.
pub proof fn law_sent_clicks_are_marked(
    s: &mut InventoryState,
    id: u64,
    events: Vec<InventoryEvent>,
    i: int,
)
    requires
        old(s)@.valid(),
        call_ensures(InventoryState::mark_sent, (s, id), events),
        0 <= i < old(s)@.pending.len(),
    ensures
        ({
            let t = old(s)@.pending[i];
            let phase_only = t.request.click matches InventoryClick::QuickCraft { phase, .. }
                && phase != DragPhase::End;
            &&& t.request.transaction_id == id && !phase_only ==> {
                &&& final(s)@.pending.len() == old(s)@.pending.len()
                &&& final(s)@.pending[i] == (InventoryTransaction {
                    status: InventoryTransactionStatus::Sent,
                    ..t
                })
                &&& events@ == seq![InventoryEvent::TransactionSent { transaction_id: id }]
                &&& forall|j: int|
                    0 <= j < old(s)@.pending.len() && j != i ==> #[trigger] final(s)@.pending[j]
                        == old(s)@.pending[j]
            }
            &&& t.request.transaction_id == id && phase_only ==> events@ == seq![
                InventoryEvent::TransactionSent { transaction_id: id },
                InventoryEvent::TransactionFinished {
                    transaction_id: id,
                    outcome: InventoryOutcome::Sent,
                },
            ]
        }),
        final(s)@.player == old(s)@.player,
        final(s)@.open == old(s)@.open,
        final(s)@.cursor == old(s)@.cursor,
{
    let m = old(s)@;
    let t = m.pending[i];
    if t.request.transaction_id == id {
        assert(m.has_pending(id));
        let phase_only = t.request.click matches InventoryClick::QuickCraft { phase, .. }
            && phase != DragPhase::End;
        if phase_only {
            assert(m.is_unconfirmed_phase(id));
        } else {
            assert forall|j: int| 0 <= j < m.pending.len() && j != i implies (
            #[trigger] m.pending[j]).request.transaction_id != id by {
                if j < i {
                    assert(m.pending[j].request.transaction_id
                        != m.pending[i].request.transaction_id);
                } else {
                    assert(m.pending[i].request.transaction_id
                        != m.pending[j].request.transaction_id);
                }
            }
            assert(!m.is_unconfirmed_phase(id));
        }
    }
}

/// What was recorded has the outcome, and while there is room nothing is forgotten.
pub proof fn law_outcomes_are_recorded(
    completed: Map<int, InventoryOutcome>,
    id: u64,
    outcome: InventoryOutcome,
    other: int,
)
    ensures
        recorded(completed, id, outcome).contains_key(id as int),
        recorded(completed, id, outcome)[id as int] == outcome,
        completed.len() < 128 && other != id ==> recorded(completed, id, outcome).contains_key(
            other,
        ) == completed.contains_key(other) && (completed.contains_key(other) ==> recorded(
            completed,
            id,
            outcome,
        )[other] == completed[other]),
        other != id && recorded(completed, id, outcome).contains_key(other)
            ==> completed.contains_key(other) && recorded(completed, id, outcome)[other]
            == completed[other],
{
}

/// A refusal is recorded under the click's number and reported, and changes nothing
/// else.
pub proof fn law_refusals_are_recorded(
    s: &mut InventoryState,
    id: u64,
    error: InventoryError,
    event: InventoryEvent,
)
    requires
        call_ensures(InventoryState::reject_transaction, (s, id, error), event),
    ensures
        final(s)@.completed.contains_key(id as int),
        final(s)@.completed[id as int] == InventoryOutcome::Rejected(error),
        event == (InventoryEvent::TransactionRejected { transaction_id: id, error }),
        final(s)@ == (InventoryModel { completed: final(s)@.completed, ..old(s)@ }),
{
}

/// Clicks that have waited a hundred ticks time out, and no others: they leave the
/// queue, and the others stay in their order. Each is reported.
pub proof fn law_clicks_time_out(
    s: &mut InventoryState,
    tick: u64,
    events: Vec<InventoryEvent>,
    i: int,
)
    requires
        call_ensures(InventoryState::expire_transactions, (s, tick), events),
        0 <= i < old(s)@.pending.len(),
    ensures
        ({
            let t = old(s)@.pending[i];
            &&& tick >= t.queued_tick + 100 ==> !final(s)@.pending.contains(t) && events@.contains(
                InventoryEvent::TransactionFinished {
                    transaction_id: t.request.transaction_id,
                    outcome: InventoryOutcome::TimedOut,
                },
            )
            &&& tick < t.queued_tick + 100 ==> final(s)@.pending.contains(t)
        }),
        forall|k: int|
            0 <= k < events@.len() ==> ((#[trigger] events@[k]) matches
                InventoryEvent::TransactionFinished { outcome, .. } && outcome
                == InventoryOutcome::TimedOut),
        final(s)@.player == old(s)@.player,
        final(s)@.open == old(s)@.open,
        final(s)@.cursor == old(s)@.cursor,
        final(s)@.drag == old(s)@.drag,
{
    let due = Due::Expired { tick };
    let m = old(s)@;
    let t = m.pending[i];
    let keep = |t: InventoryTransaction| !due.covers(t);
    let gone = |t: InventoryTransaction| due.covers(t);
    m.pending.filter_lemma(keep);
    m.pending.filter_lemma(gone);
    let rest = m.pending.filter(keep);
    let done = m.pending.filter(gone);
    assert(final(s)@.pending == rest);
    if tick >= t.queued_tick + 100 {
        assert(gone(t));
        if rest.contains(t) {
            let k = rest.index_of(t);
            assert(keep(rest[k]));
        }
        assert(done.contains(t));
        let k = done.index_of(t);
        assert(events@[k] == (InventoryEvent::TransactionFinished {
            transaction_id: t.request.transaction_id,
            outcome: InventoryOutcome::TimedOut,
        }));
    } else {
        assert(keep(t));
        assert(rest.contains(t));
    }
}

/// Selecting a hotbar slot takes one of nine.
pub proof fn law_hotbar_slots_are_selected(
    s: &mut InventoryState,
    t: &mut InventoryState,
    slot: i16,
    packet: &PacketHeldItemSlot,
    a: InventoryEvent,
    b: InventoryEvent,
)
    requires
        call_ensures(InventoryState::select_hotbar_slot, (s, slot), a),
        call_ensures(InventoryState::held_item_slot, (t, packet), b),
    ensures
        0 <= slot < 9 ==> final(s)@.selected == slot,
        !(0 <= slot < 9) ==> final(s)@.selected == old(s)@.selected,
        0 <= packet.slot < 9 ==> final(t)@.selected == packet.slot,
        !(0 <= packet.slot < 9) ==> final(t)@.selected == old(t)@.selected,
        final(s)@ == (InventoryModel { selected: final(s)@.selected, ..old(s)@ }),
        final(t)@ == (InventoryModel { selected: final(t)@.selected, ..old(t)@ }),
{
}

/// Every click that ends is recorded with its outcome, and nothing else changes while
/// there is room.
proof fn lemma_all_recorded(
    completed: Map<int, InventoryOutcome>,
    done: Seq<InventoryTransaction>,
    outcome: InventoryOutcome,
    k: int,
)
    requires
        completed.dom().finite(),
        completed.len() + done.len() <= 128,
    ensures
        ({
            let after = all_recorded(completed, done, outcome);
            &&& after.dom().finite()
            &&& after.len() <= completed.len() + done.len()
            &&& (exists|i: int|
                0 <= i < done.len() && (#[trigger] done[i]).request.transaction_id == k)
                ==> after.contains_key(k) && after[k] == outcome
            &&& !(exists|i: int|
                0 <= i < done.len() && (#[trigger] done[i]).request.transaction_id == k)
                ==> after.contains_key(k) == completed.contains_key(k) && (completed.contains_key(k)
                ==> after[k] == completed[k])
        }),
    decreases done.len(),
{
    if done.len() > 0 {
        let front = done.drop_last();
        lemma_all_recorded(completed, front, outcome, k);
        let before = all_recorded(completed, front, outcome);
        let id = done.last().request.transaction_id as int;
        assert(before.insert(id, outcome).dom() =~= before.dom().insert(id));
        assert(done[done.len() - 1] == done.last());
        if exists|i: int|
            0 <= i < front.len() && (#[trigger] front[i]).request.transaction_id == k {
            let i = choose|i: int|
                0 <= i < front.len() && (#[trigger] front[i]).request.transaction_id == k;
            assert(done[i].request.transaction_id == k);
        }
        if exists|i: int| 0 <= i < done.len() && (#[trigger] done[i]).request.transaction_id == k {
            let i = choose|i: int|
                0 <= i < done.len() && (#[trigger] done[i]).request.transaction_id == k;
            if i < front.len() {
                assert(front[i].request.transaction_id == k);
            }
        }
    }
}

/// What ends on an occasion leaves the queue and is recorded with its outcome.
proof fn lemma_finish(m: InventoryModel, due: Due, outcome: InventoryOutcome, i: int)
    requires
        m.completed.dom().finite(),
        m.completed.len() + m.pending.len() <= 128,
        0 <= i < m.pending.len(),
    ensures
        ({
            let after = m.finish(due, outcome);
            let t = m.pending[i];
            &&& due.covers(t) ==> after.completed.contains_key(t.request.transaction_id as int)
                && after.completed[t.request.transaction_id as int] == outcome
                && !after.pending.contains(t)
            &&& !due.covers(t) ==> after.pending.contains(t)
        }),
{
    let t = m.pending[i];
    let keep = |t: InventoryTransaction| !due.covers(t);
    let gone = |t: InventoryTransaction| due.covers(t);
    m.pending.filter_lemma(keep);
    m.pending.filter_lemma(gone);
    let rest = m.pending.filter(keep);
    let done = m.pending.filter(gone);
    assert(done.len() <= m.pending.len()) by {
        m.pending.lemma_filter_len_push(gone, t);
    }
    lemma_all_recorded(m.completed, done, outcome, t.request.transaction_id as int);
    if due.covers(t) {
        assert(gone(t));
        assert(done.contains(t));
        let k = done.index_of(t);
        assert(done[k].request.transaction_id == t.request.transaction_id);
        if rest.contains(t) {
            let j = rest.index_of(t);
            assert(keep(rest[j]));
        }
    } else {
        assert(keep(t));
        assert(rest.contains(t));
    }
}

/// A refresh of a window ends every click on it as corrected; a slot of a newer
/// revision ends those that were sent before it as confirmed. Other clicks wait on.
pub proof fn law_updates_end_clicks(
    a: &mut InventoryState,
    b: &mut InventoryState,
    all: &PacketWindowItems,
    one: &PacketSetSlot,
    ae: Vec<InventoryEvent>,
    be: Vec<InventoryEvent>,
    i: int,
    j: int,
)
    requires
        old(a)@.valid(),
        old(b)@.valid(),
        call_ensures(InventoryState::window_items, (a, all), ae),
        call_ensures(InventoryState::set_slot, (b, one), be),
        0 <= i < old(a)@.pending.len(),
        0 <= j < old(b)@.pending.len(),
        old(a)@.completed.len() + old(a)@.pending.len() <= 128,
        old(b)@.completed.len() + old(b)@.pending.len() <= 128,
    ensures
        ({
            let t = old(a)@.pending[i];
            let id = t.request.transaction_id as int;
            &&& all.window_id == 0 && t.request.window_id == 0 ==> final(a)@.completed.contains_key(
                id,
            ) && final(a)@.completed[id] == (InventoryOutcome::Corrected { state_id: all.state_id })
                && !final(a)@.pending.contains(t)
            &&& t.request.window_id != all.window_id ==> final(a)@.pending.contains(t)
        }),
        ({
            let t = old(b)@.pending[j];
            let id = t.request.transaction_id as int;
            &&& one.window_id == 0 && 0 <= one.slot < 1024 && t.request.window_id == 0
                && t.request.state_id < one.state_id && t.status
                == InventoryTransactionStatus::Sent ==> final(b)@.completed.contains_key(id)
                && final(b)@.completed[id] == (InventoryOutcome::Confirmed {
                state_id: one.state_id,
            })
            &&& t.request.window_id != one.window_id || t.request.state_id >= one.state_id
                || t.status == InventoryTransactionStatus::Queued ==> final(b)@.pending.contains(t)
        }),
{
    let (t, u) = (old(a)@.pending[i], old(b)@.pending[j]);
    let m = InventoryModel { cursor: all.carried_item, ..old(a)@ };
    if let Some(w) = m.window(all.window_id) {
        let n = m.with_window(all.window_id, w.refreshed(all.items@, all.state_id));
        lemma_finish(
            n,
            Due::Window(all.window_id),
            InventoryOutcome::Corrected { state_id: all.state_id },
            i,
        );
    } else {
        assert(final(a)@.pending[i] == t);
    }
    let before = old(b)@;
    if one.window_id != -1 {
        if let Some(w) = before.window(one.window_id) {
            let set = (WindowModel { state_id: one.state_id, ..w }).with_slot(one.slot, one.item);
            let n = before.with_window(one.window_id, set);
            lemma_finish(
                n,
                Due::Confirmed { window_id: one.window_id, state_id: one.state_id },
                InventoryOutcome::Confirmed { state_id: one.state_id },
                j,
            );
            if !(0 <= one.slot < 1024) {
                assert(final(b)@.pending[j] == u);
            }
        } else {
            assert(final(b)@.pending[j] == u);
        }
    } else {
        assert(final(b)@.pending[j] == u);
    }
}

/// Closing a window ends every click on it as closed.
pub proof fn law_closing_ends_clicks(
    s: &mut InventoryState,
    p: &PacketCloseWindow,
    events: Vec<InventoryEvent>,
    i: int,
)
    requires
        old(s)@.valid(),
        call_ensures(InventoryState::close_window, (s, p), events),
        0 <= i < old(s)@.pending.len(),
        old(s)@.completed.len() + old(s)@.pending.len() <= 128,
        old(s)@.open is Some,
        old(s)@.open->0.id == p.window_id,
    ensures
        ({
            let t = old(s)@.pending[i];
            let id = t.request.transaction_id as int;
            &&& t.request.window_id == p.window_id ==> final(s)@.completed.contains_key(id)
                && final(s)@.completed[id] == InventoryOutcome::WindowClosed
                && !final(s)@.pending.contains(t)
            &&& t.request.window_id != p.window_id ==> final(s)@.pending.contains(t)
        }),
{
    let m = InventoryModel { open: None, ..old(s)@ };
    lemma_finish(m, Due::Window(p.window_id), InventoryOutcome::WindowClosed, i);
}

} // verus!
