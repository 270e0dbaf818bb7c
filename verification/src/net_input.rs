//! When the client sends a local player's input, which ticks the sent chain
//! covers, and the bookkeeping of sent input packages. Durations and times
//! are counted in nanoseconds.
use crate::snapshot_history::first_key;
use std::collections::BTreeMap;
use vstd::prelude::*;

verus! {

/// A sent input package is forgotten once it is older than this (3 s).
pub const SENT_INPUT_TIMEOUT_NANOS: u128 = 3_000_000_000;

/// Most inputs kept as bases for differences.
pub const MAX_INPUT_DIFF_BASES: usize = 10;

/// Whether and why a local player's input is sent.
#[derive(Copy, Clone, PartialEq, Eq, Structural)]
pub struct InputSend {
    /// The input is sent now.
    pub send: bool,
    /// It is sent because it changed (the tick of the input moves on).
    pub by_input_change: bool,
}

/// The send rate allows sending: no input was sent yet, or the last one at
/// least a tick ago.
pub open spec fn rate_allows(sent_input_time: Option<u128>, cur_time: u128, time_per_tick: u128) -> bool {
    !(sent_input_time matches Some(t) && cur_time - t < time_per_tick)
}

/// The decision: a change of the consumable part of the input is sent
/// (right away, unless only the weapon difference changed), a change of the
/// state part always, a moved cursor when the rate allows; an unchanged
/// input is sent again while it is younger than `ticks_to_send` ticks and
/// the rate allows.
pub open spec fn spec_input_send(
    sent_input_time: Option<u128>,
    cur_time: u128,
    time_per_tick: u128,
    consumable_changed: bool,
    only_weapon_diff_changed: bool,
    state_changed: bool,
    cursor_changed: bool,
    tick_of_inp: u64,
    sent_inp_tick: u64,
    ticks_to_send: u64,
) -> InputSend {
    let rates = rate_allows(sent_input_time, cur_time, time_per_tick);
    let by_change = (consumable_changed && (!only_weapon_diff_changed || rates)) || state_changed
        || (cursor_changed && rates);
    let old_input = (if tick_of_inp >= sent_inp_tick {
        tick_of_inp - sent_inp_tick
    } else {
        0
    }) < ticks_to_send;
    InputSend { send: by_change || (old_input && rates), by_input_change: by_change }
}

/// Decides whether a local player's input is sent now (see
/// `spec_input_send`). The last send time must not lie after `cur_time`.
pub fn input_send_decision(
    sent_input_time: Option<u128>,
    cur_time: u128,
    time_per_tick: u128,
    consumable_changed: bool,
    only_weapon_diff_changed: bool,
    state_changed: bool,
    cursor_changed: bool,
    tick_of_inp: u64,
    sent_inp_tick: u64,
    ticks_to_send: u64,
) -> (r: InputSend)
    requires
        sent_input_time matches Some(t) ==> t <= cur_time,
    ensures
        r == spec_input_send(
            sent_input_time,
            cur_time,
            time_per_tick,
            consumable_changed,
            only_weapon_diff_changed,
            state_changed,
            cursor_changed,
            tick_of_inp,
            sent_inp_tick,
            ticks_to_send,
        ),
        consumable_changed && !only_weapon_diff_changed ==> r.send && r.by_input_change,
        state_changed ==> r.send && r.by_input_change,
        r.by_input_change ==> r.send,
        !consumable_changed && !state_changed && !cursor_changed ==> !r.by_input_change,
{
    let rates = match sent_input_time {
        Some(t) => !(cur_time - t < time_per_tick),
        None => true,
    };
    let by_change = (consumable_changed && (!only_weapon_diff_changed || rates)) || state_changed
        || (cursor_changed && rates);
    let old_input = tick_of_inp.saturating_sub(sent_inp_tick) < ticks_to_send;
    InputSend { send: by_change || (old_input && rates), by_input_change: by_change }
}

/// The ticks a sent input chain covers: the `ticks_to_send` ticks up to the
/// input's tick (fewer at the start of the game), first and last.
pub fn input_chain_ticks(tick_of_inp: u64, ticks_to_send: u64) -> (r: (u64, u64))
    ensures
        r.1 == tick_of_inp,
        r.0 as int == {
            let span: int = if ticks_to_send == 0 {
                0
            } else {
                ticks_to_send - 1
            };
            if tick_of_inp >= span {
                tick_of_inp - span
            } else {
                0
            }
        },
{
    (tick_of_inp.saturating_sub(ticks_to_send.saturating_sub(1)), tick_of_inp)
}

/// A sent input package is stale once more than the timeout passed since
/// it was sent.
pub open spec fn is_stale(cur_time: u128, sent_at: u128) -> bool {
    (if cur_time >= sent_at {
        cur_time - sent_at
    } else {
        0
    }) > SENT_INPUT_TIMEOUT_NANOS
}

/// The packages that stay when the oldest ids are forgotten while they are
/// stale: those with a fresh package at or below their id.
pub open spec fn keep_sent(m: Map<u64, u128>, cur_time: u128) -> Map<u64, u128> {
    m.restrict(
        m.dom().filter(
            |k: u64|
                exists|j: u64| #[trigger]
                    m.contains_key(j) && j <= k && !is_stale(cur_time, m[j]),
        ),
    )
}

/// Records input package `input_id`, sent at `cur_time`, after forgetting
/// the oldest packages (lowest ids) as long as they are stale.
pub fn record_sent_input(sent_input_ids: &mut BTreeMap<u64, u128>, input_id: u64, cur_time: u128)
    ensures
        final(sent_input_ids)@ == keep_sent(old(sent_input_ids)@, cur_time).insert(
            input_id,
            cur_time,
        ),
{
    let ghost start = sent_input_ids@;
    let mut done = false;
    while !done
        invariant
            forall|k: u64| #[trigger]
                sent_input_ids@.contains_key(k) ==> start.contains_key(k) && sent_input_ids@[k]
                    == start[k],
            forall|k: u64|
                start.contains_key(k) && !sent_input_ids@.contains_key(k) ==> is_stale(
                    cur_time,
                    #[trigger] start[k],
                ),
            forall|k: u64, j: u64|
                #[trigger] start.contains_key(k) && !sent_input_ids@.contains_key(k) && #[trigger]
                    sent_input_ids@.contains_key(j) ==> k < j,
            forall|k: u64|
                start.contains_key(k) && !sent_input_ids@.contains_key(k) ==> forall|j: u64|
                    start.contains_key(j) && j <= k ==> !#[trigger] sent_input_ids@.contains_key(j),
            done ==> (sent_input_ids@.dom() == Set::<u64>::empty() || exists|k: u64|
                #[trigger] sent_input_ids@.contains_key(k) && !is_stale(cur_time, sent_input_ids@[k])
                    && forall|j: u64| #[trigger] sent_input_ids@.contains_key(j) ==> k <= j),
        decreases sent_input_ids@.dom().len() + if done {
            0int
        } else {
            1int
        },
    {
        match first_key(sent_input_ids) {
            Some(k) => {
                let sent_at = *sent_input_ids.get(&k).unwrap();
                if cur_time.saturating_sub(sent_at) > SENT_INPUT_TIMEOUT_NANOS {
                    let ghost before = sent_input_ids@;
                    sent_input_ids.remove(&k);
                    proof {
                        assert(before.dom().contains(k));
                        assert(sent_input_ids@.dom() =~= before.dom().remove(k));
                    }
                } else {
                    done = true;
                }
            },
            None => {
                done = true;
            },
        }
    }
    proof {
        let cur = sent_input_ids@;
        let kept = keep_sent(start, cur_time);
        assert forall|k: u64| #[trigger] cur.contains_key(k) implies kept.contains_key(k) by {
            if cur.dom() != Set::<u64>::empty() {
                let f = choose|f: u64| #[trigger]
                    cur.contains_key(f) && !is_stale(cur_time, cur[f]) && forall|j: u64| #[trigger]
                        cur.contains_key(j) ==> f <= j;
                assert(cur.contains_key(f) && f <= k && !is_stale(cur_time, start[f]));
            }
        }
        assert forall|k: u64| #[trigger] kept.contains_key(k) implies cur.contains_key(k) by {
            let j = choose|j: u64| #[trigger] start.contains_key(j) && j <= k && !is_stale(
                cur_time,
                start[j],
            );
            assert(cur.contains_key(j));
        }
        assert(cur =~= kept);
    }
    sent_input_ids.insert(input_id, cur_time);
}

/// Whether an input can be sent as a base for later differences: fewer
/// than ten are kept.
pub fn input_as_diff(kept_inputs: usize) -> (r: bool)
    ensures
        r == (kept_inputs < MAX_INPUT_DIFF_BASES),
{
    kept_inputs < MAX_INPUT_DIFF_BASES
}


/// Whether the inputs queued for the ticks have distinct ticks (they are
/// keyed by tick).
pub open spec fn distinct_ticks(keys: Seq<u64>) -> bool {
    forall|i: int, j: int| 0 <= i < j < keys.len() ==> keys[i] != keys[j]
}

/// Where the input for `tick` is taken from, as a position in the queue
/// (oldest first): the tick's own input, else the newest queued input of a
/// tick not after it; none if there is neither.
pub open spec fn input_choice(keys: Seq<u64>, tick: u64) -> Option<int> {
    if exists|i: int| 0 <= i < keys.len() && keys[i] == tick {
        Some(choose|i: int| 0 <= i < keys.len() && keys[i] == tick)
    } else if exists|i: int| 0 <= i < keys.len() && keys[i] <= tick {
        Some(
            choose|i: int|
                0 <= i < keys.len() && keys[i] <= tick && forall|j: int|
                    i < j < keys.len() ==> keys[j] > tick,
        )
    } else {
        None
    }
}

/// Finds the input used for `tick` among the queued inputs, given by their
/// ticks in queue order (see `input_choice`).
pub fn input_for_tick(keys: &Vec<u64>, tick: u64) -> (r: Option<usize>)
    requires
        distinct_ticks(keys@),
    ensures
        r matches Some(i) ==> input_choice(keys@, tick) == Some(i as int),
        r is None ==> input_choice(keys@, tick) is None,
{
    let mut i: usize = 0;
    while i < keys.len()
        invariant
            i <= keys@.len(),
            distinct_ticks(keys@),
            forall|j: int| 0 <= j < i ==> keys@[j] != tick,
        decreases keys@.len() - i,
    {
        if keys[i] == tick {
            proof {
                let c = choose|j: int| 0 <= j < keys@.len() && keys@[j] == tick;
                assert(keys@[c] == tick);
                if c != i {
                    if c < i {
                        assert(keys@[c] != tick);
                    } else {
                        assert(keys@[i as int] != keys@[c]);
                    }
                }
            }
            return Some(i);
        }
        i = i + 1;
    }
    let mut k: usize = keys.len();
    while k > 0
        invariant
            k <= keys@.len(),
            forall|j: int| 0 <= j < keys@.len() ==> keys@[j] != tick,
            forall|j: int| k <= j < keys@.len() ==> keys@[j] > tick,
        decreases k,
    {
        if keys[k - 1] <= tick {
            proof {
                let w = (k - 1) as int;
                assert(0 <= w < keys@.len() && keys@[w] <= tick && forall|j: int|
                    w < j < keys@.len() ==> keys@[j] > tick);
                let c = choose|c: int|
                    0 <= c < keys@.len() && keys@[c] <= tick && forall|j: int|
                        c < j < keys@.len() ==> keys@[j] > tick;
                if c < w {
                    assert(keys@[w] > tick);
                } else if c > w {
                    assert(keys@[c] > tick);
                }
            }
            return Some(k - 1);
        }
        k = k - 1;
    }
    None
}

/// Number of leading queued inputs (oldest first) of ticks before `tick`:
/// those a snapshot of `tick` makes obsolete.
pub open spec fn obsolete_prefix(keys: Seq<u64>, tick: u64) -> nat
    decreases keys.len(),
{
    if keys.len() == 0 || keys[0] >= tick {
        0
    } else {
        1 + obsolete_prefix(keys.drop_first(), tick)
    }
}

/// How many queued inputs to drop from the front once the server's state
/// of `tick` arrived.
pub fn obsolete_inputs(keys: &Vec<u64>, tick: u64) -> (r: usize)
    ensures
        r == obsolete_prefix(keys@, tick),
{
    let mut i: usize = 0;
    proof {
        assert(keys@.skip(0) =~= keys@);
    }
    while i < keys.len() && keys[i] < tick
        invariant
            i <= keys@.len(),
            obsolete_prefix(keys@, tick) == i + obsolete_prefix(keys@.skip(i as int), tick),
        decreases keys@.len() - i,
    {
        proof {
            assert(keys@.skip(i as int).drop_first() =~= keys@.skip(i + 1));
        }
        i = i + 1;
    }
    i
}

/// The client's frame loop sends an unchanged cursor, or a changed weapon
/// difference alone, at most once every 20 ms.
pub const FRAME_INPUT_RESEND_NANOS: u128 = 20_000_000;

/// The frame loop's decision for a local player's input: a change of the
/// consumable part is sent (right away, unless only the weapon difference
/// changed), a change of the state part always, a moved cursor when 20 ms
/// have passed since the last send.
pub open spec fn spec_frame_input_send(
    sent_input_time: Option<u128>,
    cur_time: u128,
    consumable_changed: bool,
    only_weapon_diff_changed: bool,
    state_changed: bool,
    cursor_changed: bool,
) -> bool {
    let rates = rate_allows(sent_input_time, cur_time, FRAME_INPUT_RESEND_NANOS);
    (consumable_changed && (!only_weapon_diff_changed || rates)) || state_changed || (
    cursor_changed && rates)
}

/// Decides whether the frame loop sends a local player's input now (see
/// `spec_frame_input_send`). The last send time must not lie after
/// `cur_time`.
pub fn frame_input_send(
    sent_input_time: Option<u128>,
    cur_time: u128,
    consumable_changed: bool,
    only_weapon_diff_changed: bool,
    state_changed: bool,
    cursor_changed: bool,
) -> (r: bool)
    requires
        sent_input_time matches Some(t) ==> t <= cur_time,
    ensures
        r == spec_frame_input_send(
            sent_input_time,
            cur_time,
            consumable_changed,
            only_weapon_diff_changed,
            state_changed,
            cursor_changed,
        ),
        (consumable_changed && !only_weapon_diff_changed) || state_changed ==> r,
        !consumable_changed && !state_changed && !cursor_changed ==> !r,
{
    let rates = match sent_input_time {
        Some(t) => !(cur_time - t < FRAME_INPUT_RESEND_NANOS),
        None => true,
    };
    (consumable_changed && (!only_weapon_diff_changed || rates)) || state_changed || (cursor_changed
        && rates)
}

/// A local player as the dummy copy sees it: whether it copies its moves to
/// the dummies after it, and whether it is a dummy.
#[derive(Copy, Clone, Debug, PartialEq, Eq, Structural)]
pub struct CopyMovesPlayer {
    pub dummy_copy_moves: bool,
    pub is_dummy: bool,
}

/// The last player before the end of `players` that copies its moves.
pub open spec fn last_copy_source(players: Seq<CopyMovesPlayer>) -> Option<int>
    decreases players.len(),
{
    if players.len() == 0 {
        None
    } else if players.last().dummy_copy_moves {
        Some(players.len() - 1)
    } else {
        last_copy_source(players.drop_last())
    }
}

/// Whose input player `i` takes in this frame: a dummy takes the input of
/// the last player before it that copies its moves (if any); a player that
/// copies its moves, and any other player, keeps its own.
pub open spec fn copy_source(players: Seq<CopyMovesPlayer>, i: int) -> Option<int> {
    if players[i].dummy_copy_moves || !players[i].is_dummy {
        None
    } else {
        last_copy_source(players.take(i))
    }
}

proof fn lemma_last_copy_source_bounds(players: Seq<CopyMovesPlayer>)
    ensures
        last_copy_source(players) matches Some(j) ==> 0 <= j < players.len()
            && players[j].dummy_copy_moves,
    decreases players.len(),
{
    if players.len() > 0 && !players.last().dummy_copy_moves {
        lemma_last_copy_source_bounds(players.drop_last());
    }
}

/// For each local player, in order, whose input it takes this frame (see
/// `copy_source`): the dummies copy the moves of the last player before
/// them that has copying switched on.
pub fn dummy_copy_sources(players: &Vec<CopyMovesPlayer>) -> (r: Vec<Option<usize>>)
    ensures
        r@.len() == players@.len(),
        forall|i: int|
            0 <= i < r@.len() ==> (match #[trigger] r@[i] {
                Some(j) => copy_source(players@, i) == Some(j as int),
                None => copy_source(players@, i) is None,
            }),
        forall|i: int|
            0 <= i < r@.len() ==> (#[trigger] r@[i] matches Some(j) ==> j < i
                && players@[j as int].dummy_copy_moves),
{
    let mut r: Vec<Option<usize>> = Vec::new();
    let mut source: Option<usize> = None;
    let mut i: usize = 0;
    while i < players.len()
        invariant
            i <= players@.len(),
            r@.len() == i,
            match source {
                Some(j) => last_copy_source(players@.take(i as int)) == Some(j as int),
                None => last_copy_source(players@.take(i as int)) is None,
            },
            forall|k: int|
                0 <= k < i ==> (match #[trigger] r@[k] {
                    Some(j) => copy_source(players@, k) == Some(j as int),
                    None => copy_source(players@, k) is None,
                }),
            forall|k: int|
                0 <= k < i ==> (#[trigger] r@[k] matches Some(j) ==> j < k
                    && players@[j as int].dummy_copy_moves),
        decreases players@.len() - i,
    {
        let p = players[i];
        proof {
            assert(players@.take(i + 1).drop_last() =~= players@.take(i as int));
            assert(players@.take(i + 1).last() == p);
            lemma_last_copy_source_bounds(players@.take(i as int));
            if source is Some {
                assert(players@.take(i as int)[source.unwrap() as int] == players@[source.unwrap() as int]);
            }
        }
        if p.dummy_copy_moves {
            r.push(None);
            source = Some(i);
        } else if p.is_dummy {
            r.push(source);
        } else {
            r.push(None);
        }
        i = i + 1;
    }
    r
}

/// A changed input is sent at once, whatever the send rate: a change of
/// the consumable part (jump, fire, hook and the like, unless only the
/// weapon difference changed) or of the state part; a moved cursor or a
/// weapon-difference change alone waits for the rate; an unchanged input
/// never counts as changed, and what counts as changed is always sent.
pub proof fn law_changed_input_is_sent_at_once(
    sent_input_time: Option<u128>,
    cur_time: u128,
    time_per_tick: u128,
    consumable_changed: bool,
    only_weapon_diff_changed: bool,
    state_changed: bool,
    cursor_changed: bool,
    tick_of_inp: u64,
    sent_inp_tick: u64,
    ticks_to_send: u64,
)
    ensures
        ({
            let r = spec_input_send(
                sent_input_time,
                cur_time,
                time_per_tick,
                consumable_changed,
                only_weapon_diff_changed,
                state_changed,
                cursor_changed,
                tick_of_inp,
                sent_inp_tick,
                ticks_to_send,
            );
            &&& (consumable_changed && !only_weapon_diff_changed) || state_changed ==> r.send
                && r.by_input_change
            &&& r.by_input_change ==> r.send
            &&& !consumable_changed && !state_changed && !cursor_changed ==> !r.by_input_change
            &&& !state_changed && !(consumable_changed && !only_weapon_diff_changed) && !rate_allows(
                sent_input_time,
                cur_time,
                time_per_tick,
            ) ==> !r.send
        }),
        ({
            let f = spec_frame_input_send(
                sent_input_time,
                cur_time,
                consumable_changed,
                only_weapon_diff_changed,
                state_changed,
                cursor_changed,
            );
            &&& (consumable_changed && !only_weapon_diff_changed) || state_changed ==> f
            &&& !state_changed && !(consumable_changed && !only_weapon_diff_changed) && !rate_allows(
                sent_input_time,
                cur_time,
                FRAME_INPUT_RESEND_NANOS,
            ) ==> !f
            &&& !consumable_changed && !state_changed && !cursor_changed ==> !f
        }),
{
}

/// Recording a sent package forgets only stale packages (sent more than
/// three seconds before), never one still fresh, and keeps what it keeps
/// unchanged; the new package is recorded with its time.
pub proof fn law_sent_inputs_forget_only_stale(m: Map<u64, u128>, cur_time: u128, k: u64)
    ensures
        is_stale(cur_time, m[k]) <==> cur_time > m[k] + SENT_INPUT_TIMEOUT_NANOS,
        m.contains_key(k) && !is_stale(cur_time, m[k]) ==> keep_sent(m, cur_time).contains_key(k),
        keep_sent(m, cur_time).contains_key(k) ==> m.contains_key(k) && keep_sent(m, cur_time)[k]
            == m[k],
        m.contains_key(k) && !keep_sent(m, cur_time).contains_key(k) ==> is_stale(cur_time, m[k]),
{
    if m.contains_key(k) && !is_stale(cur_time, m[k]) {
        assert(m.contains_key(k) && k <= k && !is_stale(cur_time, m[k]));
    }
}

/// The inputs a snapshot of `tick` makes obsolete are exactly the leading
/// ones of earlier ticks: all dropped ones are before `tick`, and the first
/// kept one (if any) is not.
pub proof fn law_obsolete_inputs_are_the_leading_earlier_ones(keys: Seq<u64>, tick: u64)
    ensures
        obsolete_prefix(keys, tick) <= keys.len(),
        forall|i: int| 0 <= i < obsolete_prefix(keys, tick) ==> #[trigger] keys[i] < tick,
        obsolete_prefix(keys, tick) < keys.len() ==> keys[obsolete_prefix(keys, tick) as int]
            >= tick,
    decreases keys.len(),
{
    if keys.len() > 0 && keys[0] < tick {
        let t = keys.drop_first();
        law_obsolete_inputs_are_the_leading_earlier_ones(t, tick);
        assert forall|i: int| 0 <= i < obsolete_prefix(keys, tick) implies #[trigger] keys[i] < tick by {
            if i > 0 {
                assert(keys[i] == t[i - 1]);
            }
        }
        if obsolete_prefix(keys, tick) < keys.len() {
            assert(keys[obsolete_prefix(keys, tick) as int] == t[obsolete_prefix(t, tick) as int]);
        }
    }
}

} // verus!
