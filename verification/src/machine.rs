//! The remap state machine: three states, a decision window, and the
//! exact emissions owed for every incoming key event.
//!
//! The machine itself performs no input or output. Each handler takes a
//! decoded key event (or the elapse of the decision deadline) and returns
//! the batch of events to synthesize downstream; the caller owns the
//! devices, the clock and the channels.

use vstd::prelude::*;

use crate::buffer::{spec_append, spec_remove, KeyBuffer, MAX_BUFFER};
use crate::config::Config;

verus! {

/// Key code of the modifier key (space) that opens the decision window.
pub const KEY_SPACE: u16 = 57;

/// Length of the decision window in milliseconds.
pub const DECIDE_TIMEOUT_MS: u64 = 200;

/// The kind of a key event, in the device layer's wire order
/// (release, press, repeat are 0, 1, 2 on the wire).
#[derive(Clone, Copy, Debug, PartialEq, Eq, Structural)]
pub enum KeyValue {
    Release,
    Press,
    Repeat,
}

/// The event kind a raw wire value decodes to; anything unknown counts
/// as a release.
pub open spec fn spec_key_value_from(v: i32) -> KeyValue {
    if v == 1 {
        KeyValue::Press
    } else if v == 2 {
        KeyValue::Repeat
    } else {
        KeyValue::Release
    }
}

impl From<i32> for KeyValue {
    fn from(v: i32) -> (r: KeyValue) {
        match v {
            1 => KeyValue::Press,
            2 => KeyValue::Repeat,
            _ => KeyValue::Release,
        }
    }
}

impl vstd::std_specs::convert::FromSpecImpl<i32> for KeyValue {
    open spec fn obeys_from_spec() -> bool {
        true
    }

    open spec fn from_spec(v: i32) -> KeyValue {
        spec_key_value_from(v)
    }
}

/// The raw wire value of this event kind.
pub open spec fn spec_key_value_raw(v: KeyValue) -> i32 {
    match v {
        KeyValue::Release => 0,
        KeyValue::Press => 1,
        KeyValue::Repeat => 2,
    }
}

impl KeyValue {
    /// Encodes the kind back to the device layer's wire value.
    pub fn as_raw(self) -> (r: i32)
        ensures
            r == spec_key_value_raw(self),
    {
        match self {
            KeyValue::Release => 0,
            KeyValue::Press => 1,
            KeyValue::Repeat => 2,
        }
    }
}

/// The machine's state tag.
#[derive(Clone, Copy, Debug, PartialEq, Eq, Structural)]
pub enum State {
    Idle,
    Decide,
    Shift,
}

/// One key event owed to the synthetic device.
#[derive(Clone, Copy, Debug, PartialEq, Eq, Structural)]
pub struct Emit {
    pub code: u16,
    pub value: KeyValue,
}

/// A physical input device, for user-facing listing.
#[derive(Clone, Debug)]
pub struct InputDeviceInfo {
    pub path: String,
    pub name: String,
}

/// A notification sent from the machine's session to an observer.
#[derive(Clone, Debug)]
pub enum UiMessage {
    StateChanged(State),
    KeyPressed(u16),
    Error(String),
}

/// A command sent from an observer into the machine's session loop,
/// honored only between handler invocations.
#[derive(Clone, Copy, Debug, PartialEq, Eq, Structural)]
pub enum CoreCommand {
    ReloadConfig,
    Stop,
}

/// First-match resolution of a key code through the rule list: the
/// effective code, and the extended code if any. A replacement slot of 0
/// keeps the original; an extended slot of 0 means none; an unmatched
/// code passes through as itself.
pub open spec fn spec_resolve(rules: Seq<[u32; 3]>, original: u16) -> (u16, Option<u16>)
    decreases rules.len(),
{
    if rules.len() == 0 {
        (original, None)
    } else {
        let rule = rules[0];
        if rule[0] == original as u32 {
            (
                if rule[1] != 0 {
                    rule[1] as u16
                } else {
                    original
                },
                if rule[2] != 0 {
                    Some(rule[2] as u16)
                } else {
                    None
                },
            )
        } else {
            spec_resolve(rules.drop_first(), original)
        }
    }
}

/// Whether resolution actually substitutes the code.
pub open spec fn spec_remapped(rules: Seq<[u32; 3]>, code: u16) -> bool {
    spec_resolve(rules, code).0 != code
}

/// The emissions the mapped-emission helper owes for one event: the
/// extended code first, if present, then the effective code, both with
/// the event's own kind.
pub open spec fn spec_mapped_emits(rules: Seq<[u32; 3]>, code: u16, value: KeyValue) -> Seq<
    Emit,
> {
    let resolved = spec_resolve(rules, code);
    match resolved.1 {
        Some(ext) => seq![
            Emit { code: ext, value },
            Emit { code: resolved.0, value },
        ],
        None => seq![Emit { code: resolved.0, value }],
    }
}

/// Mapped emissions for every code of a buffer, in buffer order, all with
/// one event kind.
pub open spec fn spec_mapped_all(rules: Seq<[u32; 3]>, buf: Seq<u16>, value: KeyValue) -> Seq<
    Emit,
>
    decreases buf.len(),
{
    if buf.len() == 0 {
        Seq::empty()
    } else {
        spec_mapped_emits(rules, buf[0], value) + spec_mapped_all(rules, buf.drop_first(), value)
    }
}

/// A plain, unmapped press of every code of a buffer, in buffer order.
pub open spec fn spec_plain_presses(buf: Seq<u16>) -> Seq<Emit> {
    buf.map_values(|c: u16| Emit { code: c, value: KeyValue::Press })
}

/// One step of the machine on a key event: the next state, the buffer
/// afterwards, and the emissions owed, in order.
pub open spec fn spec_step(
    state: State,
    buf: Seq<u16>,
    rules: Seq<[u32; 3]>,
    code: u16,
    value: KeyValue,
) -> (State, Seq<u16>, Seq<Emit>) {
    match state {
        State::Idle => {
            if code == KEY_SPACE && value == KeyValue::Press {
                (State::Decide, Seq::empty(), Seq::empty())
            } else {
                (State::Idle, buf, seq![Emit { code, value }])
            }
        },
        State::Decide => {
            if code == KEY_SPACE && value == KeyValue::Release {
                // Tap: a synthetic modifier press and release, then every
                // buffered code as a plain press, in buffer order.
                (
                    State::Idle,
                    buf,
                    seq![
                        Emit { code: KEY_SPACE, value: KeyValue::Press },
                        Emit { code: KEY_SPACE, value: KeyValue::Release },
                    ] + spec_plain_presses(buf),
                )
            } else if value == KeyValue::Press {
                // Withhold the press and claim the code.
                (State::Decide, spec_append(buf, code), Seq::empty())
            } else if value == KeyValue::Release && buf.contains(code) {
                // Combo: the claimed key disambiguates towards the shift
                // layer; emit its mapped press and release back to back.
                (
                    State::Shift,
                    spec_remove(buf, code),
                    spec_mapped_emits(rules, code, KeyValue::Press) + spec_mapped_emits(
                        rules,
                        code,
                        KeyValue::Release,
                    ),
                )
            } else if value == KeyValue::Release {
                // The window never claimed this key: pass it through.
                (State::Decide, buf, seq![Emit { code, value }])
            } else {
                (State::Decide, buf, Seq::empty())
            }
        },
        State::Shift => {
            if code == KEY_SPACE && value == KeyValue::Release {
                // Leaving the layer: release every still-claimed key,
                // mapped, then forget them.
                (State::Idle, Seq::empty(), spec_mapped_all(rules, buf, KeyValue::Release))
            } else if code == KEY_SPACE {
                // Any other modifier event is swallowed.
                (State::Shift, buf, Seq::empty())
            } else {
                (
                    State::Shift,
                    if spec_remapped(rules, code) {
                        if value == KeyValue::Press {
                            spec_append(buf, code)
                        } else if value == KeyValue::Release {
                            spec_remove(buf, code)
                        } else {
                            buf
                        }
                    } else {
                        buf
                    },
                    spec_mapped_emits(rules, code, value),
                )
            }
        },
    }
}

/// The elapse of the decision deadline: every buffered code gets its
/// mapped press, and the buffer stays as the set of active shifted keys.
pub open spec fn spec_timeout(buf: Seq<u16>, rules: Seq<[u32; 3]>) -> (
    State,
    Seq<u16>,
    Seq<Emit>,
) {
    (State::Shift, buf, spec_mapped_all(rules, buf, KeyValue::Press))
}

/// The machine folded over a whole run of key events.
pub open spec fn spec_run(
    state: State,
    buf: Seq<u16>,
    rules: Seq<[u32; 3]>,
    events: Seq<(u16, KeyValue)>,
) -> (State, Seq<u16>, Seq<Emit>)
    decreases events.len(),
{
    if events.len() == 0 {
        (state, buf, Seq::empty())
    } else {
        let first = spec_step(state, buf, rules, events[0].0, events[0].1);
        let rest = spec_run(first.0, first.1, rules, events.drop_first());
        (rest.0, rest.1, first.2 + rest.2)
    }
}

/// Emitting for a buffer extended by one code appends that code's own
/// mapped emissions.
proof fn lemma_mapped_all_push(rules: Seq<[u32; 3]>, buf: Seq<u16>, c: u16, value: KeyValue)
    ensures
        spec_mapped_all(rules, buf.push(c), value) == spec_mapped_all(rules, buf, value)
            + spec_mapped_emits(rules, c, value),
    decreases buf.len(),
{
    if buf.len() == 0 {
        let e = spec_mapped_emits(rules, c, value);
        assert(buf.push(c)[0] == c);
        assert(buf.push(c).drop_first() =~= Seq::<u16>::empty());
        assert(spec_mapped_all(rules, Seq::<u16>::empty(), value) == Seq::<Emit>::empty());
        assert(spec_mapped_all(rules, buf.push(c), value) == e + Seq::<Emit>::empty());
        assert(spec_mapped_all(rules, buf, value) == Seq::<Emit>::empty());
        assert(e + Seq::<Emit>::empty() =~= Seq::<Emit>::empty() + e);
    } else {
        assert(buf.push(c)[0] == buf[0]);
        assert(buf.push(c).drop_first() =~= buf.drop_first().push(c));
        lemma_mapped_all_push(rules, buf.drop_first(), c, value);
        let a = spec_mapped_emits(rules, buf[0], value);
        let b = spec_mapped_all(rules, buf.drop_first(), value);
        let e = spec_mapped_emits(rules, c, value);
        assert(spec_mapped_all(rules, buf.push(c), value) == a + (b + e));
        assert(a + (b + e) =~= (a + b) + e);
    }
}

/// The remap state machine: state tag, claimed-key buffer, and the live
/// configuration snapshot.
pub struct StateMachine {
    pub state: State,
    pub buffer: KeyBuffer,
    pub config: Config,
}

impl StateMachine {
    pub open spec fn st(&self) -> State {
        self.state
    }

    pub open spec fn buf(&self) -> Seq<u16> {
        self.buffer@
    }

    pub open spec fn rules(&self) -> Seq<[u32; 3]> {
        self.config.keys_map@
    }

    /// The machine invariant: the claimed-key buffer is well formed.
    pub open spec fn wf(&self) -> bool {
        self.buf().no_duplicates() && self.buf().len() <= MAX_BUFFER
    }

    pub fn new(config: Config) -> (r: Self)
        ensures
            r.st() == State::Idle,
            r.buf() == Seq::<u16>::empty(),
            r.config == config,
            r.rules() == config.keys_map@,
            r.wf(),
    {
        StateMachine { state: State::Idle, buffer: KeyBuffer::new(), config }
    }

    pub fn state(&self) -> (r: State)
        ensures
            r == self.st(),
    {
        self.state
    }

    /// The claimed-key buffer, read-only.
    pub fn buffer(&self) -> (r: &KeyBuffer)
        ensures
            r@ == self.buf(),
    {
        &self.buffer
    }

    /// Resolves a key code through the configuration's rule list,
    /// first match wins.
    pub fn map_key(&self, original: u16) -> (r: (u16, Option<u16>))
        ensures
            r == spec_resolve(self.rules(), original),
    {
        let rules = &self.config.keys_map;
        let n = rules.len();
        let mut i: usize = 0;
        proof {
            assert(self.rules().skip(0) =~= self.rules());
        }
        while i < n
            invariant
                n == rules.len(),
                i <= n,
                rules@ == self.rules(),
                spec_resolve(self.rules().skip(i as int), original) == spec_resolve(
                    self.rules(),
                    original,
                ),
            decreases n - i,
        {
            proof {
                assert(self.rules().skip(i as int)[0] == self.rules()[i as int]);
                assert(self.rules().skip(i as int).drop_first() =~= self.rules().skip(
                    i as int + 1,
                ));
            }
            let rule = rules[i];
            if rule[0] == original as u32 {
                let mapped = if rule[1] != 0 {
                    #[verifier::truncate] (rule[1] as u16)
                } else {
                    original
                };
                let extended = if rule[2] != 0 {
                    Some(#[verifier::truncate] (rule[2] as u16))
                } else {
                    None
                };
                return (mapped, extended);
            }
            i += 1;
        }
        proof {
            assert(self.rules().skip(n as int) =~= Seq::<[u32; 3]>::empty());
        }
        (original, None)
    }

    /// Moves to a state; entering the decision window clears the buffer.
    pub fn set_state(&mut self, state: State)
        requires
            old(self).wf(),
        ensures
            final(self).wf(),
            final(self).st() == state,
            final(self).buf() == if state == State::Decide {
                Seq::<u16>::empty()
            } else {
                old(self).buf()
            },
            final(self).config == old(self).config,
    {
        self.state = state;
        if state == State::Decide {
            self.buffer.clear();
        }
    }

    /// The mapped-emission helper: the events owed for one key event
    /// (the extended code first, then the effective code), and whether
    /// an actual remap occurred.
    pub fn mapped_emissions(&self, code: u16, value: KeyValue) -> (r: (Vec<Emit>, bool))
        ensures
            r.0@ == spec_mapped_emits(self.rules(), code, value),
            r.1 == spec_remapped(self.rules(), code),
    {
        let (eff, ext) = self.map_key(code);
        let mut v: Vec<Emit> = Vec::new();
        if let Some(e) = ext {
            v.push(Emit { code: e, value });
        }
        v.push(Emit { code: eff, value });
        proof {
            if spec_resolve(self.rules(), code).1 is Some {
                assert(v@ =~= spec_mapped_emits(self.rules(), code, value));
            } else {
                assert(v@ =~= spec_mapped_emits(self.rules(), code, value));
            }
        }
        (v, eff != code)
    }

    /// One step of the machine on a decoded key event. The caller owes
    /// the returned events, in order, to the synthetic device.
    pub fn on_key(&mut self, code: u16, value: KeyValue) -> (emits: Vec<Emit>)
        requires
            old(self).wf(),
        ensures
            final(self).wf(),
            final(self).config == old(self).config,
            final(self).st() == spec_step(
                old(self).st(),
                old(self).buf(),
                old(self).rules(),
                code,
                value,
            ).0,
            final(self).buf() == spec_step(
                old(self).st(),
                old(self).buf(),
                old(self).rules(),
                code,
                value,
            ).1,
            emits@ == spec_step(old(self).st(), old(self).buf(), old(self).rules(), code, value).2,
    {
        let ghost rules = self.rules();
        let mut emits: Vec<Emit> = Vec::new();
        match self.state {
            State::Idle => {
                if code == KEY_SPACE && value == KeyValue::Press {
                    self.state = State::Decide;
                    self.buffer.clear();
                } else {
                    emits.push(Emit { code, value });
                    proof {
                        assert(emits@ =~= seq![Emit { code, value }]);
                    }
                }
            },
            State::Decide => {
                if code == KEY_SPACE && value == KeyValue::Release {
                    emits.push(Emit { code: KEY_SPACE, value: KeyValue::Press });
                    emits.push(Emit { code: KEY_SPACE, value: KeyValue::Release });
                    let ghost head = emits@;
                    let codes = self.buffer.iter();
                    let m = codes.len();
                    let mut i: usize = 0;
                    while i < m
                        invariant
                            m == codes@.len(),
                            i <= m,
                            emits@ == head + spec_plain_presses(codes@.take(i as int)),
                        decreases m - i,
                    {
                        emits.push(Emit { code: codes[i], value: KeyValue::Press });
                        proof {
                            assert(codes@.take(i as int + 1) =~= codes@.take(i as int).push(
                                codes@[i as int],
                            ));
                            assert(spec_plain_presses(codes@.take(i as int + 1))
                                =~= spec_plain_presses(codes@.take(i as int)).push(
                                (Emit { code: codes@[i as int], value: KeyValue::Press }),
                            ));
                            assert(emits@ =~= head + spec_plain_presses(
                                codes@.take(i as int + 1),
                            ));
                        }
                        i += 1;
                    }
                    proof {
                        assert(codes@.take(m as int) =~= codes@);
                    }
                    self.state = State::Idle;
                } else if value == KeyValue::Press {
                    let _ = self.buffer.append(code);
                } else if value == KeyValue::Release && self.buffer.contains(code) {
                    // A release of a claimed key: the combo outcome.
                    let _ = self.buffer.remove(code);
                    let (mut pressed, _) = self.mapped_emissions(code, KeyValue::Press);
                    let (mut released, _) = self.mapped_emissions(code, KeyValue::Release);
                    let ghost p = pressed@;
                    let ghost r = released@;
                    emits.append(&mut pressed);
                    emits.append(&mut released);
                    proof {
                        assert(emits@ =~= p + r);
                    }
                    self.state = State::Shift;
                } else if value == KeyValue::Release {
                    emits.push(Emit { code, value });
                    proof {
                        assert(emits@ =~= seq![Emit { code, value }]);
                    }
                }
            },
            State::Shift => {
                if code == KEY_SPACE && value == KeyValue::Release {
                    let codes = self.buffer.iter();
                    let m = codes.len();
                    let mut i: usize = 0;
                    while i < m
                        invariant
                            m == codes@.len(),
                            i <= m,
                            rules == self.rules(),
                            codes@ == old(self).buf(),
                            emits@ == spec_mapped_all(
                                rules,
                                codes@.take(i as int),
                                KeyValue::Release,
                            ),
                        decreases m - i,
                    {
                        let (mut e, _) = self.mapped_emissions(codes[i], KeyValue::Release);
                        emits.append(&mut e);
                        proof {
                            assert(codes@.take(i as int + 1) =~= codes@.take(i as int).push(
                                codes@[i as int],
                            ));
                            lemma_mapped_all_push(
                                rules,
                                codes@.take(i as int),
                                codes@[i as int],
                                KeyValue::Release,
                            );
                        }
                        i += 1;
                    }
                    proof {
                        assert(codes@.take(m as int) =~= codes@);
                    }
                    self.buffer.clear();
                    self.state = State::Idle;
                } else if code == KEY_SPACE {
                    // Swallowed: the held modifier repeats or re-presses.
                } else {
                    let (mut e, remapped) = self.mapped_emissions(code, value);
                    emits.append(&mut e);
                    proof {
                        assert(emits@ =~= spec_mapped_emits(rules, code, value));
                    }
                    if remapped {
                        if value == KeyValue::Press {
                            let _ = self.buffer.append(code);
                        } else if value == KeyValue::Release {
                            let _ = self.buffer.remove(code);
                        }
                    }
                }
            },
        }
        emits
    }

    /// The decision deadline has elapsed: every claimed code gets its
    /// mapped press, and the machine enters the shift layer with the
    /// buffer kept as the set of active shifted keys.
    pub fn on_timeout(&mut self) -> (emits: Vec<Emit>)
        requires
            old(self).wf(),
            old(self).st() == State::Decide,
        ensures
            final(self).wf(),
            final(self).config == old(self).config,
            final(self).st() == State::Shift,
            final(self).buf() == old(self).buf(),
            emits@ == spec_timeout(old(self).buf(), old(self).rules()).2,
    {
        let ghost rules = self.rules();
        let mut emits: Vec<Emit> = Vec::new();
        let codes = self.buffer.iter();
        let m = codes.len();
        let mut i: usize = 0;
        while i < m
            invariant
                m == codes@.len(),
                i <= m,
                rules == self.rules(),
                codes@ == old(self).buf(),
                emits@ == spec_mapped_all(rules, codes@.take(i as int), KeyValue::Press),
            decreases m - i,
        {
            let (mut e, _) = self.mapped_emissions(codes[i], KeyValue::Press);
            emits.append(&mut e);
            proof {
                assert(codes@.take(i as int + 1) =~= codes@.take(i as int).push(
                    codes@[i as int],
                ));
                lemma_mapped_all_push(
                    rules,
                    codes@.take(i as int),
                    codes@[i as int],
                    KeyValue::Press,
                );
            }
            i += 1;
        }
        proof {
            assert(codes@.take(m as int) =~= codes@);
        }
        self.state = State::Shift;
        emits
    }

    /// Replaces the configuration snapshot wholesale, between handler
    /// invocations.
    pub fn reload(&mut self, config: Config)
        ensures
            final(self).st() == old(self).st(),
            final(self).buf() == old(self).buf(),
            final(self).config == config,
            final(self).rules() == config.keys_map@,
    {
        self.config = config;
    }
}

} // verus!
