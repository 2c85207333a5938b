//! Laws of the remap machine, stated over the step specifications and
//! proved once for all rule lists and key codes.

use vstd::prelude::*;

use crate::buffer::MAX_BUFFER;
use crate::machine::{
    spec_mapped_all, spec_mapped_emits, spec_plain_presses, spec_resolve, spec_run, spec_step,
    spec_timeout, Emit, KeyValue, State, KEY_SPACE,
};

verus! {

/// How many events of a seq carry this code and kind.
pub open spec fn spec_count(emits: Seq<Emit>, code: u16, value: KeyValue) -> nat
    decreases emits.len(),
{
    if emits.len() == 0 {
        0
    } else {
        (if emits[0].code == code && emits[0].value == value {
            1nat
        } else {
            0nat
        }) + spec_count(emits.drop_first(), code, value)
    }
}

/// Every code is pressed exactly as often as it is released.
pub open spec fn spec_balanced(emits: Seq<Emit>) -> bool {
    forall|c: u16|
        (#[trigger] spec_count(emits, c, KeyValue::Press)) == spec_count(
            emits,
            c,
            KeyValue::Release,
        )
}

/// Each event of a run, forwarded as it came in.
pub open spec fn spec_passthrough(events: Seq<(u16, KeyValue)>) -> Seq<Emit> {
    events.map_values(|ev: (u16, KeyValue)| Emit { code: ev.0, value: ev.1 })
}

/// Counting distributes over concatenation.
proof fn lemma_count_concat(a: Seq<Emit>, b: Seq<Emit>, code: u16, value: KeyValue)
    ensures
        spec_count(a + b, code, value) == spec_count(a, code, value) + spec_count(
            b,
            code,
            value,
        ),
    decreases a.len(),
{
    if a.len() == 0 {
        assert(a + b =~= b);
    } else {
        assert((a + b)[0] == a[0]);
        assert((a + b).drop_first() =~= a.drop_first() + b);
        lemma_count_concat(a.drop_first(), b, code, value);
    }
}

proof fn lemma_count_singleton(x: Emit, code: u16, value: KeyValue)
    ensures
        spec_count(seq![x], code, value) == if x.code == code && x.value == value {
            1nat
        } else {
            0nat
        },
{
    assert(seq![x].drop_first() =~= Seq::<Emit>::empty());
    assert(spec_count(Seq::<Emit>::empty(), code, value) == 0);
}

/// How often the mapped emissions for one event hit a given code: once
/// if it is the effective code, once more if it is the extended code.
pub open spec fn spec_mapped_hits(rules: Seq<[u32; 3]>, key: u16, code: u16) -> nat {
    let r = spec_resolve(rules, key);
    ((if r.0 == code {
        1nat
    } else {
        0nat
    }) + (if r.1 == Some(code) {
        1nat
    } else {
        0nat
    }))
}

/// The mapped emissions for one event all carry the event's own kind,
/// and hit each code as `spec_mapped_hits` says.
proof fn lemma_count_mapped(
    rules: Seq<[u32; 3]>,
    key: u16,
    value: KeyValue,
    code: u16,
    counted: KeyValue,
)
    ensures
        spec_count(spec_mapped_emits(rules, key, value), code, counted) == if counted == value {
            spec_mapped_hits(rules, key, code)
        } else {
            0nat
        },
{
    let r = spec_resolve(rules, key);
    let e = spec_mapped_emits(rules, key, value);
    match r.1 {
        Some(ext) => {
            assert(e == seq![Emit { code: ext, value }, Emit { code: r.0, value }]);
            assert(e.drop_first() =~= seq![Emit { code: r.0, value }]);
            lemma_count_singleton(Emit { code: r.0, value }, code, counted);
        },
        None => {
            lemma_count_singleton(Emit { code: r.0, value }, code, counted);
        },
    }
}

/// Pressing a whole buffer mapped, then releasing it mapped, hits every
/// code equally often in both kinds, and never with the other kind.
proof fn lemma_mapped_all_counts(rules: Seq<[u32; 3]>, buf: Seq<u16>, code: u16)
    ensures
        spec_count(spec_mapped_all(rules, buf, KeyValue::Press), code, KeyValue::Press)
            == spec_count(spec_mapped_all(rules, buf, KeyValue::Release), code, KeyValue::Release),
        spec_count(spec_mapped_all(rules, buf, KeyValue::Press), code, KeyValue::Release) == 0,
        spec_count(spec_mapped_all(rules, buf, KeyValue::Release), code, KeyValue::Press) == 0,
    decreases buf.len(),
{
    if buf.len() == 0 {
    } else {
        let head = buf[0];
        let rest = buf.drop_first();
        lemma_count_concat(
            spec_mapped_emits(rules, head, KeyValue::Press),
            spec_mapped_all(rules, rest, KeyValue::Press),
            code,
            KeyValue::Press,
        );
        lemma_count_concat(
            spec_mapped_emits(rules, head, KeyValue::Press),
            spec_mapped_all(rules, rest, KeyValue::Press),
            code,
            KeyValue::Release,
        );
        lemma_count_concat(
            spec_mapped_emits(rules, head, KeyValue::Release),
            spec_mapped_all(rules, rest, KeyValue::Release),
            code,
            KeyValue::Press,
        );
        lemma_count_concat(
            spec_mapped_emits(rules, head, KeyValue::Release),
            spec_mapped_all(rules, rest, KeyValue::Release),
            code,
            KeyValue::Release,
        );
        lemma_count_mapped(rules, head, KeyValue::Press, code, KeyValue::Press);
        lemma_count_mapped(rules, head, KeyValue::Press, code, KeyValue::Release);
        lemma_count_mapped(rules, head, KeyValue::Release, code, KeyValue::Press);
        lemma_count_mapped(rules, head, KeyValue::Release, code, KeyValue::Release);
        lemma_mapped_all_counts(rules, rest, code);
    }
}

/// While the machine is idle, a run of key events that never touches the
/// modifier code is forwarded unchanged and in its original order, and
/// neither the state nor the buffer moves.
pub proof fn lemma_idle_passthrough(
    buf: Seq<u16>,
    rules: Seq<[u32; 3]>,
    events: Seq<(u16, KeyValue)>,
)
    requires
        forall|i: int| 0 <= i < events.len() ==> (#[trigger] events[i]).0 != KEY_SPACE,
    ensures
        spec_run(State::Idle, buf, rules, events).0 == State::Idle,
        spec_run(State::Idle, buf, rules, events).1 == buf,
        spec_run(State::Idle, buf, rules, events).2 == spec_passthrough(events),
    decreases events.len(),
{
    if events.len() == 0 {
        assert(spec_passthrough(events) =~= Seq::<Emit>::empty());
    } else {
        let e0 = events[0];
        let rest = events.drop_first();
        assert(e0.0 != KEY_SPACE);
        assert forall|i: int| 0 <= i < rest.len() implies (#[trigger] rest[i]).0 != KEY_SPACE by {
            assert(rest[i] == events[i + 1]);
        }
        lemma_idle_passthrough(buf, rules, rest);
        assert(seq![Emit { code: e0.0, value: e0.1 }] + spec_passthrough(rest)
            =~= spec_passthrough(events));
    }
}

/// For a rule carrying both a replacement and an extended code, the
/// extended event is emitted strictly before the effective event,
/// whatever the event kind: the helper owes exactly those two events,
/// the extended one first.
pub proof fn lemma_extended_before_effective(
    rules: Seq<[u32; 3]>,
    code: u16,
    value: KeyValue,
    eff: u16,
    ext: u16,
)
    requires
        spec_resolve(rules, code) == (eff, Some(ext)),
    ensures
        spec_mapped_emits(rules, code, value) == seq![
            (Emit { code: ext, value }),
            (Emit { code: eff, value }),
        ],
{
}

/// The presses of a run of key codes, as events.
pub open spec fn spec_presses(ks: Seq<u16>) -> Seq<(u16, KeyValue)> {
    ks.map_values(|k: u16| (k, KeyValue::Press))
}

/// The releases of a run of key codes, as events.
pub open spec fn spec_releases(ks: Seq<u16>) -> Seq<(u16, KeyValue)> {
    ks.map_values(|k: u16| (k, KeyValue::Release))
}

/// A run over concatenated events is the first run followed by the
/// second, started where the first one left off.
proof fn lemma_run_concat(
    state: State,
    buf: Seq<u16>,
    rules: Seq<[u32; 3]>,
    e1: Seq<(u16, KeyValue)>,
    e2: Seq<(u16, KeyValue)>,
)
    ensures
        ({
            let whole = spec_run(state, buf, rules, e1 + e2);
            let r1 = spec_run(state, buf, rules, e1);
            let r2 = spec_run(r1.0, r1.1, rules, e2);
            whole.0 == r2.0 && whole.1 == r2.1 && whole.2 == r1.2 + r2.2
        }),
    decreases e1.len(),
{
    if e1.len() == 0 {
        assert(e1 + e2 =~= e2);
        let r2 = spec_run(state, buf, rules, e2);
        assert(Seq::<Emit>::empty() + r2.2 =~= r2.2);
    } else {
        assert((e1 + e2)[0] == e1[0]);
        assert((e1 + e2).drop_first() =~= e1.drop_first() + e2);
        let first = spec_step(state, buf, rules, e1[0].0, e1[0].1);
        lemma_run_concat(first.0, first.1, rules, e1.drop_first(), e2);
        let r1 = spec_run(state, buf, rules, e1);
        let rest = spec_run(first.0, first.1, rules, e1.drop_first());
        let r2 = spec_run(r1.0, r1.1, rules, e2);
        assert(first.2 + (rest.2 + r2.2) =~= (first.2 + rest.2) + r2.2);
    }
}

/// A run of presses of fresh, distinct codes inside the decision window
/// is withheld entirely: nothing is emitted, and the codes are claimed
/// in order.
proof fn lemma_decide_claims_presses(rules: Seq<[u32; 3]>, buf: Seq<u16>, ks: Seq<u16>)
    requires
        (buf + ks).no_duplicates(),
        buf.len() + ks.len() <= MAX_BUFFER,
    ensures
        spec_run(State::Decide, buf, rules, spec_presses(ks)).0 == State::Decide,
        spec_run(State::Decide, buf, rules, spec_presses(ks)).1 == buf + ks,
        spec_run(State::Decide, buf, rules, spec_presses(ks)).2 == Seq::<Emit>::empty(),
    decreases ks.len(),
{
    if ks.len() == 0 {
        assert(spec_presses(ks) =~= Seq::<(u16, KeyValue)>::empty());
        assert(buf + ks =~= buf);
    } else {
        let k0 = ks[0];
        let rest = ks.drop_first();
        assert(spec_presses(ks)[0] == (k0, KeyValue::Press));
        assert(spec_presses(ks).drop_first() =~= spec_presses(rest));
        assert(!buf.contains(k0)) by {
            if buf.contains(k0) {
                let i = choose|i: int| 0 <= i < buf.len() && buf[i] == k0;
                assert((buf + ks)[i] == k0);
                assert((buf + ks)[buf.len() as int] == k0);
            }
        }
        assert(crate::buffer::spec_append(buf, k0) == buf.push(k0));
        assert(buf.push(k0) + rest =~= buf + ks);
        lemma_decide_claims_presses(rules, buf.push(k0), rest);
        assert(Seq::<Emit>::empty() + Seq::<Emit>::empty() =~= Seq::<Emit>::empty());
    }
}

/// Pressing a run of codes plain and forwarding their releases hits
/// every code equally often in both kinds, never with the other kind.
proof fn lemma_plain_counts(ks: Seq<u16>, code: u16)
    ensures
        spec_count(spec_plain_presses(ks), code, KeyValue::Press) == spec_count(
            spec_passthrough(spec_releases(ks)),
            code,
            KeyValue::Release,
        ),
        spec_count(spec_plain_presses(ks), code, KeyValue::Release) == 0,
        spec_count(spec_passthrough(spec_releases(ks)), code, KeyValue::Press) == 0,
    decreases ks.len(),
{
    let presses = spec_plain_presses(ks);
    let releases = spec_passthrough(spec_releases(ks));
    if ks.len() == 0 {
        assert(presses =~= Seq::<Emit>::empty());
        assert(releases =~= Seq::<Emit>::empty());
    } else {
        let rest = ks.drop_first();
        assert(presses[0] == (Emit { code: ks[0], value: KeyValue::Press }));
        assert(releases[0] == (Emit { code: ks[0], value: KeyValue::Release }));
        assert(presses.drop_first() =~= spec_plain_presses(rest));
        assert(releases.drop_first() =~= spec_passthrough(spec_releases(rest)));
        lemma_plain_counts(rest, code);
    }
}

/// No stuck keys, tap outcome: the modifier tapped around any run of
/// distinct key presses that fits the buffer, each key released again
/// afterwards, leaves the machine idle with every emitted press matched
/// by exactly one release of the same code.
pub proof fn lemma_no_stuck_keys_tap(rules: Seq<[u32; 3]>, ks: Seq<u16>)
    requires
        ks.no_duplicates(),
        ks.len() <= MAX_BUFFER,
        forall|i: int| 0 <= i < ks.len() ==> (#[trigger] ks[i]) != KEY_SPACE,
    ensures
        ({
            let events = seq![(KEY_SPACE, KeyValue::Press)] + spec_presses(ks) + seq![
                (KEY_SPACE, KeyValue::Release),
            ] + spec_releases(ks);
            let r = spec_run(State::Idle, Seq::empty(), rules, events);
            r.0 == State::Idle && spec_balanced(r.2)
        }),
{
    reveal_with_fuel(spec_run, 2);
    let open = seq![(KEY_SPACE, KeyValue::Press)];
    let close = seq![(KEY_SPACE, KeyValue::Release)];
    let events = open + spec_presses(ks) + close + spec_releases(ks);
    let press57 = Emit { code: KEY_SPACE, value: KeyValue::Press };
    let release57 = Emit { code: KEY_SPACE, value: KeyValue::Release };

    // Opening the window: no emission, an empty buffer.
    assert(open.drop_first() =~= Seq::<(u16, KeyValue)>::empty());
    let r_open = spec_run(State::Idle, Seq::empty(), rules, open);
    assert(r_open.0 == State::Decide && r_open.1 =~= Seq::<u16>::empty() && r_open.2 =~= Seq::<
        Emit,
    >::empty());

    // The presses are withheld and claimed.
    assert(Seq::<u16>::empty() + ks =~= ks);
    lemma_decide_claims_presses(rules, Seq::empty(), ks);
    let r_presses = spec_run(State::Decide, Seq::empty(), rules, spec_presses(ks));
    assert(r_presses.1 == ks);

    // The tap itself: the synthetic modifier pair, then the flush.
    assert(close.drop_first() =~= Seq::<(u16, KeyValue)>::empty());
    let r_close = spec_run(State::Decide, ks, rules, close);
    let flushed = seq![press57, release57] + spec_plain_presses(ks);
    assert(r_close.0 == State::Idle && r_close.1 == ks);
    assert(r_close.2 =~= flushed);

    // Back in idle, the physical releases pass through.
    assert forall|i: int| 0 <= i < spec_releases(ks).len() implies (#[trigger] spec_releases(
        ks,
    )[i]).0 != KEY_SPACE by {
        assert(spec_releases(ks)[i].0 == ks[i]);
    }
    lemma_idle_passthrough(ks, rules, spec_releases(ks));
    let r_rel = spec_run(State::Idle, ks, rules, spec_releases(ks));

    // Stitch the four segments together.
    lemma_run_concat(State::Idle, Seq::empty(), rules, open + spec_presses(ks) + close, spec_releases(ks));
    lemma_run_concat(State::Idle, Seq::empty(), rules, open + spec_presses(ks), close);
    lemma_run_concat(State::Idle, Seq::empty(), rules, open, spec_presses(ks));
    let r = spec_run(State::Idle, Seq::empty(), rules, events);
    assert(r.0 == State::Idle);
    assert(r.2 =~= flushed + spec_passthrough(spec_releases(ks)));

    assert forall|c: u16|
        (#[trigger] spec_count(r.2, c, KeyValue::Press)) == spec_count(
            r.2,
            c,
            KeyValue::Release,
        ) by {
        lemma_count_concat(flushed, spec_passthrough(spec_releases(ks)), c, KeyValue::Press);
        lemma_count_concat(flushed, spec_passthrough(spec_releases(ks)), c, KeyValue::Release);
        assert(flushed =~= seq![press57] + (seq![release57] + spec_plain_presses(ks)));
        lemma_count_concat(
            seq![release57],
            spec_plain_presses(ks),
            c,
            KeyValue::Press,
        );
        lemma_count_concat(
            seq![release57],
            spec_plain_presses(ks),
            c,
            KeyValue::Release,
        );
        lemma_count_concat(
            seq![press57],
            seq![release57] + spec_plain_presses(ks),
            c,
            KeyValue::Press,
        );
        lemma_count_concat(
            seq![press57],
            seq![release57] + spec_plain_presses(ks),
            c,
            KeyValue::Release,
        );
        lemma_count_singleton(press57, c, KeyValue::Press);
        lemma_count_singleton(press57, c, KeyValue::Release);
        lemma_count_singleton(release57, c, KeyValue::Press);
        lemma_count_singleton(release57, c, KeyValue::Release);
        lemma_plain_counts(ks, c);
    }
}

/// No stuck keys, combo outcome: a key pressed and released inside the
/// decision window, with the modifier released afterwards, leaves the
/// machine idle with an empty buffer, and every emitted press matched by
/// exactly one release of the same code.
pub proof fn lemma_no_stuck_key_combo(rules: Seq<[u32; 3]>, k: u16)
    requires
        k != KEY_SPACE,
    ensures
        ({
            let events = seq![
                (KEY_SPACE, KeyValue::Press),
                (k, KeyValue::Press),
                (k, KeyValue::Release),
                (KEY_SPACE, KeyValue::Release),
            ];
            let r = spec_run(State::Idle, Seq::empty(), rules, events);
            r.0 == State::Idle && r.1.len() == 0 && spec_balanced(r.2)
        }),
{
    reveal_with_fuel(spec_run, 5);
    let events = seq![
        (KEY_SPACE, KeyValue::Press),
        (k, KeyValue::Press),
        (k, KeyValue::Release),
        (KEY_SPACE, KeyValue::Release),
    ];
    let r = spec_run(State::Idle, Seq::empty(), rules, events);
    assert(events.drop_first() =~= seq![
        (k, KeyValue::Press),
        (k, KeyValue::Release),
        (KEY_SPACE, KeyValue::Release),
    ]);
    assert(events.drop_first().drop_first() =~= seq![
        (k, KeyValue::Release),
        (KEY_SPACE, KeyValue::Release),
    ]);
    assert(events.drop_first().drop_first().drop_first() =~= seq![(
        KEY_SPACE,
        KeyValue::Release,
    )]);
    assert(events.drop_first().drop_first().drop_first().drop_first() =~= Seq::<(
        u16,
        KeyValue,
    )>::empty());
    assert(crate::buffer::spec_append(Seq::empty(), k) =~= seq![k]);
    assert(seq![k][0] == k);
    assert(seq![k].contains(k));
    assert(crate::buffer::spec_remove(seq![k], k) =~= Seq::<u16>::empty());
    assert(spec_mapped_all(rules, Seq::empty(), KeyValue::Release) =~= Seq::<Emit>::empty());
    let pressed = spec_mapped_emits(rules, k, KeyValue::Press);
    let released = spec_mapped_emits(rules, k, KeyValue::Release);
    assert(r.0 == State::Idle);
    assert(r.1.len() == 0);
    assert(r.2 =~= pressed + released);
    assert forall|c: u16|
        (#[trigger] spec_count(r.2, c, KeyValue::Press)) == spec_count(
            r.2,
            c,
            KeyValue::Release,
        ) by {
        lemma_count_concat(pressed, released, c, KeyValue::Press);
        lemma_count_concat(pressed, released, c, KeyValue::Release);
        lemma_count_mapped(rules, k, KeyValue::Press, c, KeyValue::Press);
        lemma_count_mapped(rules, k, KeyValue::Press, c, KeyValue::Release);
        lemma_count_mapped(rules, k, KeyValue::Release, c, KeyValue::Press);
        lemma_count_mapped(rules, k, KeyValue::Release, c, KeyValue::Release);
    }
}

/// No stuck keys, timeout outcome: whatever set of keys the decision
/// window has claimed when the deadline elapses, their mapped presses at
/// the timeout are matched one for one by the mapped releases emitted
/// when the modifier is finally released, and the machine returns to
/// idle with an empty buffer.
pub proof fn lemma_no_stuck_keys_timeout(rules: Seq<[u32; 3]>, buf: Seq<u16>)
    ensures
        ({
            let t = spec_timeout(buf, rules);
            let s = spec_step(t.0, t.1, rules, KEY_SPACE, KeyValue::Release);
            t.0 == State::Shift && t.1 == buf && s.0 == State::Idle && s.1.len() == 0
                && spec_balanced(t.2 + s.2)
        }),
{
    let t = spec_timeout(buf, rules);
    let s = spec_step(t.0, t.1, rules, KEY_SPACE, KeyValue::Release);
    let pressed = spec_mapped_all(rules, buf, KeyValue::Press);
    let released = spec_mapped_all(rules, buf, KeyValue::Release);
    assert(t.2 == pressed);
    assert(s.2 == released);
    assert forall|c: u16|
        (#[trigger] spec_count(t.2 + s.2, c, KeyValue::Press)) == spec_count(
            t.2 + s.2,
            c,
            KeyValue::Release,
        ) by {
        lemma_count_concat(pressed, released, c, KeyValue::Press);
        lemma_count_concat(pressed, released, c, KeyValue::Release);
        lemma_mapped_all_counts(rules, buf, c);
    }
}

} // verus!
