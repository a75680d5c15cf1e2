//! What holds of every circuit, as seen through a store that keeps its keys.

use vstd::prelude::*;

use crate::circuit_breaker;
use crate::circuit_breaker::{
    Access, Ask, CheckStage, ErrorStage, Keys, Reply, SuccessStage, Then, TripRule,
};
use crate::ids;

verus! {

/// The number of the keys that are in the store.
pub open spec fn present(store: Map<Seq<char>, int>, keys: Seq<Seq<char>>) -> int
    decreases keys.len(),
{
    if keys.len() == 0 {
        0
    } else {
        let rest = present(store.remove(keys.last()), keys.drop_last());
        if store.dom().contains(keys.last()) {
            rest + 1
        } else {
            rest
        }
    }
}

/// What a store that keeps its keys does with a command. That keys also expire, with
/// the lifetimes given, is a step of the store's own between commands.
pub open spec fn answer(store: Map<Seq<char>, int>, ask: Ask) -> (Map<Seq<char>, int>, Reply) {
    match ask {
        Ask::Exists(key) => (store, Reply::Flag(store.dom().contains(key))),
        Ask::PutIfAbsent(key, ttl) => if store.dom().contains(key) {
            (store, Reply::Flag(false))
        } else {
            (store.insert(key, 1), Reply::Flag(true))
        },
        Ask::Put(key, ttl) => (store.insert(key, 1), Reply::Flag(true)),
        Ask::Increment(key) => {
            let n = if store.dom().contains(key) {
                store[key] + 1
            } else {
                1
            };
            (store.insert(key, n), Reply::Number(n as i64))
        },
        Ask::Expire(key, ttl) => (store, Reply::Flag(store.dom().contains(key))),
        Ask::Delete(keys) => (
            store.remove_keys(keys.to_set()),
            Reply::Number(present(store, keys) as i64),
        ),
    }
}

/// The question of access, put to the store from a stage on; `None` where it takes more
/// than `fuel` commands.
pub open spec fn run_check(
    store: Map<Seq<char>, int>,
    k: Keys,
    ask: Ask,
    stage: CheckStage,
    fuel: nat,
) -> Option<(Map<Seq<char>, int>, Access)>
    decreases fuel,
{
    if fuel == 0 {
        None
    } else {
        let (after, reply) = answer(store, ask);
        match circuit_breaker::check_step(k, stage, reply) {
            Then::Done(access) => Some((after, access)),
            Then::Asks(ask, stage) => run_check(after, k, ask, stage, (fuel - 1) as nat),
        }
    }
}

/// The access that a request gets, and the store after it.
pub open spec fn check(store: Map<Seq<char>, int>, k: Keys) -> Option<
    (Map<Seq<char>, int>, Access),
> {
    run_check(store, k, Ask::Exists(k.open), CheckStage::Open, 3)
}

/// The recording of a probe success, put to the store from a stage on.
pub open spec fn run_success(
    store: Map<Seq<char>, int>,
    k: Keys,
    ask: Ask,
    stage: SuccessStage,
    fuel: nat,
) -> Option<(Map<Seq<char>, int>, bool)>
    decreases fuel,
{
    if fuel == 0 {
        None
    } else {
        let (after, reply) = answer(store, ask);
        match circuit_breaker::success_step(k, stage, reply) {
            Then::Done(closed) => Some((after, closed)),
            Then::Asks(ask, stage) => run_success(after, k, ask, stage, (fuel - 1) as nat),
        }
    }
}

/// What recording a probe success comes to, and the store after it.
pub open spec fn succeed(store: Map<Seq<char>, int>, k: Keys) -> Option<
    (Map<Seq<char>, int>, bool),
> {
    run_success(store, k, Ask::Increment(k.succ), SuccessStage::Count, 4)
}

/// The recording of an error, put to the store from a stage on.
pub open spec fn run_error(
    store: Map<Seq<char>, int>,
    k: Keys,
    rule: TripRule,
    ask: Ask,
    stage: ErrorStage,
    fuel: nat,
) -> Option<(Map<Seq<char>, int>, bool)>
    decreases fuel,
{
    if fuel == 0 {
        None
    } else {
        let (after, reply) = answer(store, ask);
        match circuit_breaker::error_step(k, rule, stage, reply) {
            Then::Done(opened) => Some((after, opened)),
            Then::Asks(ask, stage) => run_error(after, k, rule, ask, stage, (fuel - 1) as nat),
        }
    }
}

/// What recording an error comes to, and the store after it.
pub open spec fn fail(store: Map<Seq<char>, int>, k: Keys, rule: TripRule) -> Option<
    (Map<Seq<char>, int>, bool),
> {
    let (ask, stage) = circuit_breaker::error_start(k, rule);
    run_error(store, k, rule, ask, stage, 5)
}

/// No two keys of a circuit are the same.
pub open spec fn distinct(k: Keys) -> bool {
    &&& k.err != k.open
    &&& k.err != k.half
    &&& k.err != k.probe
    &&& k.err != k.succ
    &&& k.open != k.half
    &&& k.open != k.probe
    &&& k.open != k.succ
    &&& k.half != k.probe
    &&& k.half != k.succ
    &&& k.probe != k.succ
}

/// The kind of a key shows in its fourth character.
proof fn lemma_kind_of_key(group_id: u128, server_id: u128, slot: Seq<char>)
    ensures
        circuit_breaker::key_of("cb:err:"@, group_id, server_id, slot)[3] == 'e',
        circuit_breaker::key_of("cb:open:"@, group_id, server_id, slot)[3] == 'o',
        circuit_breaker::key_of("cb:half:"@, group_id, server_id, slot)[3] == 'h',
        circuit_breaker::key_of("cb:probe:"@, group_id, server_id, slot)[3] == 'p',
        circuit_breaker::key_of("cb:succ:"@, group_id, server_id, slot)[3] == 's',
{
    reveal_strlit("cb:err:");
    reveal_strlit("cb:open:");
    reveal_strlit("cb:half:");
    reveal_strlit("cb:probe:");
    reveal_strlit("cb:succ:");
}

/// The keys of a circuit are distinct.
pub proof fn law_keys_are_distinct(group_id: u128, server_id: u128, model: Option<Seq<char>>)
    ensures
        distinct(circuit_breaker::keys_of(group_id, server_id, model)),
{
    lemma_kind_of_key(group_id, server_id, circuit_breaker::slot_of(model));
}

/// Two keys under one prefix tell group, server and slot apart.
proof fn lemma_key_injective(
    prefix: Seq<char>,
    g1: u128,
    s1: u128,
    slot1: Seq<char>,
    g2: u128,
    s2: u128,
    slot2: Seq<char>,
)
    requires
        circuit_breaker::key_of(prefix, g1, s1, slot1) == circuit_breaker::key_of(
            prefix,
            g2,
            s2,
            slot2,
        ),
    ensures
        g1 == g2,
        s1 == s2,
        slot1 == slot2,
{
    let a = circuit_breaker::key_of(prefix, g1, s1, slot1);
    let b = circuit_breaker::key_of(prefix, g2, s2, slot2);
    let n = prefix.len() as int;
    ids::lemma_uuid_text(g1, g2);
    ids::lemma_uuid_text(g2, g1);
    ids::lemma_uuid_text(s1, s2);
    ids::lemma_uuid_text(s2, s1);
    reveal_strlit(":");
    assert(a.subrange(n, n + 36) =~= ids::uuid_text(g1));
    assert(b.subrange(n, n + 36) =~= ids::uuid_text(g2));
    assert(a.subrange(n + 37, n + 73) =~= ids::uuid_text(s1));
    assert(b.subrange(n + 37, n + 73) =~= ids::uuid_text(s2));
    assert(a.skip(n + 74) =~= slot1);
    assert(b.skip(n + 74) =~= slot2);
}

/// Circuits of different groups, servers or models share no key, except that a request
/// without a model shares the circuit of a model named `_any`.
pub proof fn law_circuits_share_no_key(
    g1: u128,
    s1: u128,
    m1: Option<Seq<char>>,
    g2: u128,
    s2: u128,
    m2: Option<Seq<char>>,
)
    requires
        g1 != g2 || s1 != s2 || circuit_breaker::slot_of(m1) != circuit_breaker::slot_of(m2),
    ensures
        ({
            let a = circuit_breaker::keys_of(g1, s1, m1);
            let b = circuit_breaker::keys_of(g2, s2, m2);
            forall|x: Seq<char>, y: Seq<char>| #[trigger]
                is_key(a, x) && #[trigger] is_key(b, y) ==> x != y
        }),
{
    let a = circuit_breaker::keys_of(g1, s1, m1);
    let b = circuit_breaker::keys_of(g2, s2, m2);
    let slot1 = circuit_breaker::slot_of(m1);
    let slot2 = circuit_breaker::slot_of(m2);
    lemma_kind_of_key(g1, s1, slot1);
    lemma_kind_of_key(g2, s2, slot2);
    assert forall|x: Seq<char>, y: Seq<char>| #[trigger]
        is_key(a, x) && #[trigger] is_key(b, y) implies x != y by {
        if x == y {
            if x == a.err {
                lemma_key_injective("cb:err:"@, g1, s1, slot1, g2, s2, slot2);
            } else if x == a.open {
                lemma_key_injective("cb:open:"@, g1, s1, slot1, g2, s2, slot2);
            } else if x == a.half {
                lemma_key_injective("cb:half:"@, g1, s1, slot1, g2, s2, slot2);
            } else if x == a.probe {
                lemma_key_injective("cb:probe:"@, g1, s1, slot1, g2, s2, slot2);
            } else {
                lemma_key_injective("cb:succ:"@, g1, s1, slot1, g2, s2, slot2);
            }
        }
    }
}

/// The text is one of the keys.
pub open spec fn is_key(k: Keys, x: Seq<char>) -> bool {
    x == k.err || x == k.open || x == k.half || x == k.probe || x == k.succ
}

/// An open circuit is skipped, whatever else the store holds.
pub proof fn law_open_circuit_is_skipped(store: Map<Seq<char>, int>, k: Keys)
    requires
        store.dom().contains(k.open),
    ensures
        check(store, k) == Some((store, Access::Skip)),
{
    reveal_with_fuel(run_check, 4);
}

/// A closed circuit lets requests through and leaves the store as it is.
pub proof fn law_closed_circuit_allows(store: Map<Seq<char>, int>, k: Keys)
    requires
        !store.dom().contains(k.open),
        !store.dom().contains(k.half),
    ensures
        check(store, k) == Some((store, Access::Allow)),
{
    reveal_with_fuel(run_check, 4);
}

/// A half-open circuit lets exactly one request through as its probe: while that one
/// holds the permit, every other is to skip the server.
pub proof fn law_one_probe_at_a_time(store: Map<Seq<char>, int>, k: Keys)
    requires
        distinct(k),
        !store.dom().contains(k.open),
        store.dom().contains(k.half),
        !store.dom().contains(k.probe),
    ensures
        check(store, k) == Some((store.insert(k.probe, 1), Access::Probe)),
        check(store.insert(k.probe, 1), k) == Some((store.insert(k.probe, 1), Access::Skip)),
{
    reveal_with_fuel(run_check, 4);
}

/// Access fails open: a command that fails, at whatever stage and whatever was replied
/// before, allows the request.
pub proof fn law_access_fails_open(k: Keys, stage: CheckStage)
    ensures
        circuit_breaker::check_step(k, stage, Reply::Failed) == Then::<CheckStage, Access>::Done(
            Access::Allow,
        ),
{
}

/// The half-open marker is given a longer lifetime than the open key, by the grace
/// period: when the cooldown is over, the marker is still there.
pub proof fn law_marker_outlives_the_cooldown(k: Keys, rule: TripRule)
    ensures
        circuit_breaker::error_step(k, rule, ErrorStage::Trip, Reply::Flag(true)) matches Then::Asks(
            Ask::Put(key, ttl),
            stage,
        ) && key == k.half && ttl == rule.cooldown_seconds
            + circuit_breaker::HALF_OPEN_GRACE_SECONDS && ttl > rule.cooldown_seconds,
{
}

/// A failed probe reopens the circuit at once: requests skip the server, the probe's
/// bookkeeping is gone, and when the open key expires the circuit is half-open.
pub proof fn law_failed_probe_reopens(store: Map<Seq<char>, int>, k: Keys, rule: TripRule)
    requires
        distinct(k),
        rule.was_probe,
        !store.dom().contains(k.open),
    ensures
        fail(store, k, rule) matches Some((after, opened)) && opened && after.dom().contains(k.open)
            && after.dom().contains(k.half) && !after.dom().contains(k.probe)
            && !after.dom().contains(k.succ) && check(after, k) == Some((after, Access::Skip))
            && check(after.remove(k.open), k) == Some(
            (after.remove(k.open).insert(k.probe, 1), Access::Probe),
        ),
{
    reveal_with_fuel(run_error, 6);
    reveal_with_fuel(run_check, 4);
    let gone = seq![k.succ, k.probe];
    assert(gone[0] == k.succ && gone[1] == k.probe);
    assert(gone.to_set().contains(k.succ));
    assert(gone.to_set().contains(k.probe));
}

/// Errors below the limit are counted and trip nothing; the one that reaches it trips
/// the circuit, once, and the count starts anew.
pub proof fn law_errors_trip_at_the_limit(store: Map<Seq<char>, int>, k: Keys, rule: TripRule)
    requires
        distinct(k),
        !rule.was_probe,
        !store.dom().contains(k.open),
        store.dom().contains(k.err) ==> 0 < store[k.err] < i64::MAX,
    ensures
        ({
            let count = if store.dom().contains(k.err) {
                store[k.err] + 1
            } else {
                1
            };
            if count < rule.max_failures {
                fail(store, k, rule) == Some((store.insert(k.err, count), false))
            } else {
                fail(store, k, rule) matches Some((after, opened)) && opened
                    && after.dom().contains(k.open) && after.dom().contains(k.half)
                    && !after.dom().contains(k.err) && check(after, k) == Some(
                    (after, Access::Skip),
                )
            }
        }),
{
    reveal_with_fuel(run_error, 6);
    reveal_with_fuel(run_check, 4);
    let gone = seq![k.err];
    assert(gone[0] == k.err);
    assert(gone.to_set().contains(k.err));
}

/// Two probe successes in a row close a half-open circuit, and only the second one
/// reports it; between them the permit is free for the next probe.
pub proof fn law_two_successes_close(store: Map<Seq<char>, int>, k: Keys)
    requires
        distinct(k),
        !store.dom().contains(k.open),
        store.dom().contains(k.half),
        !store.dom().contains(k.succ),
    ensures
        succeed(store, k) matches Some((once, closed)) && !closed && once.dom().contains(k.half)
            && !once.dom().contains(k.probe) && (succeed(once, k) matches Some((twice, closed))
            && closed && !twice.dom().contains(k.half) && !twice.dom().contains(k.succ)
            && check(twice, k) == Some((twice, Access::Allow))),
{
    reveal_with_fuel(run_success, 5);
    reveal_with_fuel(run_check, 4);
    let permit = seq![k.probe];
    assert(permit[0] == k.probe);
    assert(permit.to_set().contains(k.probe));
    let marker = seq![k.half];
    assert(marker[0] == k.half);
    assert(marker.to_set().contains(k.half));
    let rest = seq![k.succ, k.probe, k.err];
    assert(rest[0] == k.succ && rest[1] == k.probe && rest[2] == k.err);
    assert(rest.to_set().contains(k.succ));
    reveal_with_fuel(present, 2);
    assert(marker.drop_last() =~= Seq::empty());
    let once = store.insert(k.succ, 1).remove_keys(permit.to_set());
    assert(succeed(store, k) == Some((once, false)));
    assert(!permit.to_set().contains(k.half));
    assert(!permit.to_set().contains(k.succ));
    assert(!permit.to_set().contains(k.open));
    let counted = once.insert(k.succ, 2);
    assert(present(counted, marker) == 1);
    let unmarked = counted.remove_keys(marker.to_set());
    assert(!marker.to_set().contains(k.open));
    let twice = unmarked.remove_keys(rest.to_set());
    assert(succeed(once, k) == Some((twice, true)));
}

/// A key that is set, or whose lifetime is bounded, lives as long as its kind of key does:
/// the open key for the cooldown, the half-open marker an hour longer, the permit of a probe
/// for two minutes, the count of errors for the window, the count of successes for an hour.
pub open spec fn lives_as_it_should(k: Keys, rule: TripRule, ask: Ask) -> bool {
    match ask {
        Ask::PutIfAbsent(key, ttl) => (key == k.open && ttl == rule.cooldown_seconds) || (key
            == k.probe && ttl == 120),
        Ask::Put(key, ttl) => key == k.half && ttl == rule.cooldown_seconds + 3600,
        Ask::Expire(key, ttl) => (key == k.err && ttl == rule.window_seconds) || (key == k.succ
            && ttl == 3600),
        _ => true,
    }
}

/// No command of any operation on a circuit sets a key for longer or shorter than it is to
/// live.
pub proof fn law_keys_live_as_they_should(
    k: Keys,
    rule: TripRule,
    check: CheckStage,
    success: SuccessStage,
    error: ErrorStage,
    reply: Reply,
)
    ensures
        circuit_breaker::check_step(k, check, reply) matches Then::Asks(ask, stage)
            ==> lives_as_it_should(k, rule, ask),
        circuit_breaker::success_step(k, success, reply) matches Then::Asks(ask, stage)
            ==> lives_as_it_should(k, rule, ask),
        circuit_breaker::error_step(k, rule, error, reply) matches Then::Asks(ask, stage)
            ==> lives_as_it_should(k, rule, ask),
        lives_as_it_should(k, rule, circuit_breaker::error_start(k, rule).0),
{
}

/// A counter gets its lifetime with the first thing it counts, and never again: later ones do
/// not stretch the window.
pub proof fn law_windows_are_not_stretched(k: Keys, rule: TripRule, n: i64)
    ensures
        circuit_breaker::error_step(k, rule, ErrorStage::Count, Reply::Number(n)) matches
            Then::Asks(Ask::Expire(key, ttl), stage) <==> n == 1,
        circuit_breaker::success_step(k, SuccessStage::Count, Reply::Number(n)) matches
            Then::Asks(Ask::Expire(key, ttl), stage) <==> n == 1,
{
}

/// The store may fail. An error or a success that could not be counted, an open key that
/// could not be set and a marker that could not be deleted change no state: nobody is told
/// that the circuit opened or closed.
pub proof fn law_failed_commands_change_no_state(
    k: Keys,
    rule: TripRule,
    success: SuccessStage,
    error: ErrorStage,
)
    ensures
        circuit_breaker::success_step(k, SuccessStage::Count, Reply::Failed) == Then::<
            SuccessStage,
            bool,
        >::Done(false),
        circuit_breaker::error_step(k, rule, ErrorStage::Count, Reply::Failed) == Then::<
            ErrorStage,
            bool,
        >::Done(false),
        circuit_breaker::success_step(k, success, Reply::Failed) matches Then::Asks(
            ask,
            SuccessStage::Clear { closed },
        ) ==> !closed,
        circuit_breaker::error_step(k, rule, error, Reply::Failed) matches Then::Asks(
            ask,
            ErrorStage::Clear { opened },
        ) ==> opened == (error == ErrorStage::Arm),
{
}

/// A circuit that is open already is not opened again: the key keeps its lifetime, the marker
/// is left alone, and nobody is told.
pub proof fn law_open_circuit_is_not_reopened(store: Map<Seq<char>, int>, k: Keys, rule: TripRule)
    requires
        distinct(k),
        store.dom().contains(k.open),
        store.dom().contains(k.err) ==> 0 < store[k.err] < i64::MAX,
    ensures
        fail(store, k, rule) matches Some((after, opened)) && !opened && after.dom().contains(
            k.open,
        ) && after[k.open] == store[k.open] && after.dom().contains(k.half)
            == store.dom().contains(k.half) && (rule.was_probe ==> !after.dom().contains(k.probe)
            && !after.dom().contains(k.succ)) && (!rule.was_probe ==> after.dom().contains(k.probe)
            == store.dom().contains(k.probe)),
{
    reveal_with_fuel(run_error, 6);
    let own = seq![k.succ, k.probe];
    assert(own[0] == k.succ && own[1] == k.probe);
    assert(own.to_set().contains(k.succ));
    assert(own.to_set().contains(k.probe));
    assert(!own.to_set().contains(k.open));
    assert(!own.to_set().contains(k.half));
    let count = seq![k.err];
    assert(!count.to_set().contains(k.open));
    assert(!count.to_set().contains(k.half));
    assert(!count.to_set().contains(k.probe));
}

/// A probe success that is the second or a later one clears away all of the bookkeeping, and
/// reports that it closed the circuit exactly where it was the one to delete the marker.
pub proof fn law_circuit_is_closed_once(store: Map<Seq<char>, int>, k: Keys)
    requires
        distinct(k),
        store.dom().contains(k.succ),
        1 <= store[k.succ] < i64::MAX,
    ensures
        succeed(store, k) matches Some((after, closed)) && closed == store.dom().contains(k.half)
            && !after.dom().contains(k.half) && !after.dom().contains(k.succ)
            && !after.dom().contains(k.probe) && !after.dom().contains(k.err)
            && after.dom().contains(k.open) == store.dom().contains(k.open),
{
    reveal_with_fuel(run_success, 5);
    reveal_with_fuel(present, 2);
    let marker = seq![k.half];
    assert(marker[0] == k.half);
    assert(marker.to_set().contains(k.half));
    assert(marker.drop_last() =~= Seq::empty());
    assert(!marker.to_set().contains(k.open));
    let rest = seq![k.succ, k.probe, k.err];
    assert(rest[0] == k.succ && rest[1] == k.probe && rest[2] == k.err);
    assert(rest.to_set().contains(k.succ));
    assert(rest.to_set().contains(k.probe));
    assert(rest.to_set().contains(k.err));
    assert(!rest.to_set().contains(k.open));
    let counted = store.insert(k.succ, store[k.succ] + 1);
    let unmarked = counted.remove_keys(marker.to_set());
    let after = unmarked.remove_keys(rest.to_set());
    assert(present(counted, marker) == if store.dom().contains(k.half) {
        1int
    } else {
        0int
    });
    assert(succeed(store, k) == Some((after, store.dom().contains(k.half))));
}

/// A key says what it is for, then the group, the server and the model; requests without a
/// model share one circuit.
pub proof fn law_keys_name_their_circuit(group_id: u128, server_id: u128, model: Option<Seq<char>>)
    ensures
        ({
            let k = circuit_breaker::keys_of(group_id, server_id, model);
            let circuit = ids::uuid_text(group_id) + ":"@ + ids::uuid_text(server_id) + ":"@ + (
            match model {
                Some(model) => model,
                None => "_any"@,
            });
            &&& k.err =~= "cb:err:"@ + circuit
            &&& k.open =~= "cb:open:"@ + circuit
            &&& k.half =~= "cb:half:"@ + circuit
            &&& k.probe =~= "cb:probe:"@ + circuit
            &&& k.succ =~= "cb:succ:"@ + circuit
        }),
{
}

} // verus!
