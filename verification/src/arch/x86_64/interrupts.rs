//! Interrupt vectors, the tick counter, and the sleepers that wait for a tick.
use vstd::prelude::*;

verus! {

pub const TIMER_VECTOR: u8 = 32;
pub const KEYBOARD_VECTOR: u8 = 33;

/// The hardware interrupts that the kernel routes.
#[derive(Debug, Clone, Copy, PartialEq, Eq, Structural)]
pub enum InterruptIndex {
    Timer,
    Keyboard,
}

/// The vector of an interrupt.
pub open spec fn vector_of(i: InterruptIndex) -> u8 {
    match i {
        InterruptIndex::Timer => TIMER_VECTOR,
        InterruptIndex::Keyboard => KEYBOARD_VECTOR,
    }
}

impl InterruptIndex {
    pub fn as_u8(self) -> (r: u8)
        ensures
            r == vector_of(self),
    {
        match self {
            InterruptIndex::Timer => TIMER_VECTOR,
            InterruptIndex::Keyboard => KEYBOARD_VECTOR,
        }
    }

    pub fn as_usize(self) -> (r: usize)
        ensures
            r == vector_of(self),
    {
        self.as_u8() as usize
    }
}

/// The handler that an external interrupt vector is given.
#[derive(Debug, Clone, Copy, PartialEq, Eq, Structural)]
pub enum IdtHandler {
    Timer,
    Keyboard,
    Ignore,
}

/// The handler of vector `v` (32 to 255): the timer and the keyboard at their vectors, the
/// catch-all everywhere else.
pub open spec fn idt_handler(v: int) -> IdtHandler {
    if v == TIMER_VECTOR {
        IdtHandler::Timer
    } else if v == KEYBOARD_VECTOR {
        IdtHandler::Keyboard
    } else {
        IdtHandler::Ignore
    }
}

/// The external-interrupt half of the descriptor table, vectors 32 to 255 in order, each with
/// its handler. (The exception entries are fixed and set where the table is loaded.)
pub fn init_idt() -> (r: Vec<(usize, IdtHandler)>)
    ensures
        r@.len() == 224,
        forall|i: int| 0 <= i < 224 ==> #[trigger] r@[i] == ((32 + i) as usize, idt_handler(32 + i)),
{
    let timer = InterruptIndex::Timer.as_usize();
    let keyboard = InterruptIndex::Keyboard.as_usize();
    let mut table: Vec<(usize, IdtHandler)> = Vec::new();
    let mut v: usize = 32;
    while v < 256
        invariant
            32 <= v <= 256,
            timer == TIMER_VECTOR,
            keyboard == KEYBOARD_VECTOR,
            table@.len() == v - 32,
            forall|i: int| 0 <= i < v - 32 ==> #[trigger] table@[i] == ((32 + i) as usize, idt_handler(32 + i)),
        decreases 256 - v,
    {
        let handler = if v == timer {
            IdtHandler::Timer
        } else if v == keyboard {
            IdtHandler::Keyboard
        } else {
            IdtHandler::Ignore
        };
        table.push((v, handler));
        v = v + 1;
    }
    table
}

/// Scancode of the Escape key, which freezes the system.
pub const ESCAPE_SCANCODE: u8 = 0x01;

/// What the keyboard interrupt does with a scancode.
#[derive(Debug, Clone, Copy, PartialEq, Eq, Structural)]
pub enum KeyAction {
    /// Escape: stop the system.
    EmergencyStop,
    /// Any other key: report its scancode and signal the end of the interrupt.
    Report(u8),
}

pub fn keyboard_action(scancode: u8) -> (r: KeyAction)
    ensures
        scancode == ESCAPE_SCANCODE ==> r == KeyAction::EmergencyStop,
        scancode != ESCAPE_SCANCODE ==> r == KeyAction::Report(scancode),
{
    if scancode == ESCAPE_SCANCODE {
        KeyAction::EmergencyStop
    } else {
        KeyAction::Report(scancode)
    }
}

/// A task waiting for a tick: the tick it waits for and its waker's identity.
#[derive(Debug, Clone, Copy, PartialEq, Eq, Structural)]
pub struct TimerWaiter {
    pub target_tick: u64,
    pub waker: u64,
}

/// No two waiters share a waker.
pub open spec fn unique_wakers(s: Seq<TimerWaiter>) -> bool {
    forall|i: int, j: int| 0 <= i < j < s.len() ==> s[i].waker != s[j].waker
}

/// Position of the waiter with waker `w`, or -1.
pub open spec fn waker_index(s: Seq<TimerWaiter>, w: u64) -> int
    decreases s.len(),
{
    if s.len() == 0 {
        -1
    } else if s.last().waker == w {
        s.len() - 1
    } else {
        waker_index(s.drop_last(), w)
    }
}

pub proof fn lemma_waker_index(s: Seq<TimerWaiter>, w: u64)
    ensures
        -1 <= waker_index(s, w) < s.len(),
        waker_index(s, w) >= 0 ==> s[waker_index(s, w)].waker == w,
        waker_index(s, w) == -1 ==> forall|k: int| 0 <= k < s.len() ==> s[k].waker != w,
    decreases s.len(),
{
    if s.len() > 0 && s.last().waker != w {
        lemma_waker_index(s.drop_last(), w);
        assert forall|k: int| 0 <= k < s.len() - 1 implies s.drop_last()[k] == s[k] by {}
        if waker_index(s, w) == -1 {
            assert forall|k: int| 0 <= k < s.len() implies s[k].waker != w by {
                if k < s.len() - 1 {
                    assert(s.drop_last()[k].waker != w);
                }
            }
        }
    }
}

/// The tick counter, whether the interrupt timer drives it, and the waiting tasks.
pub struct TimerState {
    ticks: u64,
    interrupt_timer_ready: bool,
    waiters: Vec<TimerWaiter>,
}

impl TimerState {
    pub closed spec fn ticks(&self) -> u64 {
        self.ticks
    }

    pub closed spec fn ready(&self) -> bool {
        self.interrupt_timer_ready
    }

    pub closed spec fn waiters(&self) -> Seq<TimerWaiter> {
        self.waiters@
    }

    pub open spec fn wf(&self) -> bool {
        unique_wakers(self.waiters())
    }

    /// Tick zero, the interrupt timer not yet routed, nobody waiting.
    pub fn new() -> (r: Self)
        ensures
            r.wf(),
            r.ticks() == 0,
            !r.ready(),
            r.waiters() == Seq::<TimerWaiter>::empty(),
    {
        TimerState { ticks: 0, interrupt_timer_ready: false, waiters: Vec::new() }
    }
}

pub fn current_tick(state: &TimerState) -> (r: u64)
    ensures
        r == state.ticks(),
{
    state.ticks
}

pub fn interrupt_timer_ready(state: &TimerState) -> (r: bool)
    ensures
        r == state.ready(),
{
    state.interrupt_timer_ready
}

pub fn set_interrupt_timer_ready(state: &mut TimerState, ready: bool)
    ensures
        final(state).ready() == ready,
        final(state).ticks() == old(state).ticks(),
        final(state).waiters() == old(state).waiters(),
{
    state.interrupt_timer_ready = ready;
}

/// Registers a waker for `target_tick`. Returns `true` when that tick has already come, and
/// the waker is to be woken now. Otherwise a waker already waiting keeps the earlier of its two
/// targets, and a new one joins the waiters.
pub fn register_timer_waker(state: &mut TimerState, target_tick: u64, waker: u64) -> (wake_now: bool)
    requires
        old(state).wf(),
    ensures
        final(state).wf(),
        final(state).ticks() == old(state).ticks(),
        final(state).ready() == old(state).ready(),
        wake_now == (old(state).ticks() >= target_tick),
        wake_now ==> final(state).waiters() == old(state).waiters(),
        !wake_now ==> ({
            let s = old(state).waiters();
            let i = waker_index(s, waker);
            if i >= 0 {
                final(state).waiters() == s.update(
                    i,
                    TimerWaiter {
                        target_tick: if s[i].target_tick <= target_tick {
                            s[i].target_tick
                        } else {
                            target_tick
                        },
                        waker,
                    },
                )
            } else {
                final(state).waiters() == s.push(TimerWaiter { target_tick, waker })
            }
        }),
{
    if state.ticks >= target_tick {
        return true;
    }
    let ghost s = state.waiters@;
    proof {
        lemma_waker_index(s, waker);
    }
    let mut k = state.waiters.len();
    assert(s.take(k as int) =~= s);
    while k > 0 && state.waiters[k - 1].waker != waker
        invariant
            state.waiters@ == s,
            k <= s.len(),
            waker_index(s, waker) == waker_index(s.take(k as int), waker),
        decreases k,
    {
        assert(s.take(k as int).drop_last() =~= s.take(k - 1));
        k -= 1;
    }
    if k > 0 {
        assert(s.take(k as int).last() == s[k - 1]);
        let existing = state.waiters[k - 1];
        let t = if existing.target_tick <= target_tick {
            existing.target_tick
        } else {
            target_tick
        };
        state.waiters.set(k - 1, TimerWaiter { target_tick: t, waker });
        assert forall|i: int, j: int| 0 <= i < j < state.waiters@.len() implies state.waiters@[i].waker
            != state.waiters@[j].waker by {
            assert(s[i].waker != s[j].waker);
        }
    } else {
        state.waiters.push(TimerWaiter { target_tick, waker });
        assert forall|i: int, j: int| 0 <= i < j < state.waiters@.len() implies state.waiters@[i].waker
            != state.waiters@[j].waker by {
            if j == s.len() {
                assert(s[i].waker != waker);
            }
        }
    }
    false
}

/// Removes the waiters whose tick has come and returns their wakers, each once; the others
/// stay.
pub fn wake_due_timer_waiters(state: &mut TimerState) -> (woken: Vec<u64>)
    requires
        old(state).wf(),
    ensures
        final(state).wf(),
        final(state).ticks() == old(state).ticks(),
        final(state).ready() == old(state).ready(),
        forall|w: TimerWaiter| #[trigger]
            final(state).waiters().contains(w) <==> old(state).waiters().contains(w) && w.target_tick
                > old(state).ticks(),
        forall|id: u64| #[trigger]
            woken@.contains(id) <==> exists|k: int|
                0 <= k < old(state).waiters().len() && old(state).waiters()[k].waker == id
                    && old(state).waiters()[k].target_tick <= old(state).ticks(),
        woken@.no_duplicates(),
{
    let current = state.ticks;
    let ghost s0 = state.waiters@;
    let mut ready: Vec<u64> = Vec::new();
    let ghost mut rem: Seq<TimerWaiter> = Seq::empty();
    let mut index = 0usize;
    while index < state.waiters.len()
        invariant
            state.ticks == current,
            state.interrupt_timer_ready == old(state).interrupt_timer_ready,
            s0 == old(state).waiters@,
            unique_wakers(s0),
            index <= state.waiters@.len(),
            forall|k: int| 0 <= k < index ==> state.waiters@[k].target_tick > current,
            forall|k: int| 0 <= k < rem.len() ==> rem[k].target_tick <= current,
            unique_wakers(state.waiters@ + rem),
            forall|w: TimerWaiter| s0.contains(w) <==> state.waiters@.contains(w) || rem.contains(w),
            ready@ == rem.map_values(|w: TimerWaiter| w.waker),
        decreases state.waiters.len() - index,
    {
        if state.waiters[index].target_tick <= current {
            let ghost s = state.waiters@;
            let ghost both = s + rem;
            let w = state.waiters.swap_remove(index);
            let ghost s2 = state.waiters@;
            proof {
                let last = s.len() - 1;
                let rem2 = rem.push(w);
                let both2 = s2 + rem2;
                // Each position of the new sequences comes from a distinct position of the old.
                let f = |p: int| if p < s2.len() {
                    if p == index && index < last {
                        last
                    } else {
                        p
                    }
                } else if p < s2.len() + rem.len() {
                    p + 1
                } else {
                    index as int
                };
                assert forall|p: int| 0 <= p < both2.len() implies 0 <= f(p) < both.len() && #[trigger] both2[p]
                    == both[f(p)] by {
                    if p < s2.len() {
                    } else if p < s2.len() + rem.len() {
                        assert(both2[p] == rem[p - s2.len()]);
                        assert(both[p + 1] == rem[p + 1 - s.len()]);
                    } else {
                        assert(both2[p] == w);
                    }
                }
                assert forall|i: int, j: int| 0 <= i < j < both2.len() implies both2[i].waker
                    != both2[j].waker by {
                    assert(both2[i] == both[f(i)]);
                    assert(both2[j] == both[f(j)]);
                    assert(f(i) != f(j));
                    if f(i) < f(j) {
                        assert(both[f(i)].waker != both[f(j)].waker);
                    } else {
                        assert(both[f(j)].waker != both[f(i)].waker);
                    }
                }
                assert forall|x: TimerWaiter| s.contains(x) || rem.contains(x) <==> s2.contains(x)
                    || rem2.contains(x) by {
                    if s.contains(x) {
                        let k = choose|k: int| 0 <= k < s.len() && s[k] == x;
                        if k == index {
                            assert(rem2[rem.len() as int] == x);
                        } else if k == last {
                            assert(s2[index as int] == x);
                        } else {
                            assert(s2[k] == x);
                        }
                    }
                    if rem.contains(x) {
                        let k = choose|k: int| 0 <= k < rem.len() && rem[k] == x;
                        assert(rem2[k] == x);
                    }
                    if s2.contains(x) {
                        let k = choose|k: int| 0 <= k < s2.len() && s2[k] == x;
                        if k == index && index < last {
                            assert(s[last] == x);
                        } else {
                            assert(s[k] == x);
                        }
                    }
                    if rem2.contains(x) {
                        let k = choose|k: int| 0 <= k < rem2.len() && rem2[k] == x;
                        if k < rem.len() {
                            assert(rem[k] == x);
                        } else {
                            assert(s[index as int] == x);
                        }
                    }
                }
                rem = rem2;
            }
            ready.push(w.waker);
            assert(ready@ =~= rem.map_values(|w: TimerWaiter| w.waker));
        } else {
            index += 1;
        }
    }
    proof {
        let s = state.waiters@;
        assert forall|id: u64| #[trigger] ready@.contains(id) <==> exists|k: int|
            0 <= k < s0.len() && s0[k].waker == id && s0[k].target_tick <= current by {
            if ready@.contains(id) {
                let k = choose|k: int| 0 <= k < ready@.len() && ready@[k] == id;
                assert(rem[k].waker == id);
                assert(rem.contains(rem[k]));
                assert(s0.contains(rem[k]));
            }
            if exists|k: int| 0 <= k < s0.len() && s0[k].waker == id && s0[k].target_tick <= current {
                let k = choose|k: int| 0 <= k < s0.len() && s0[k].waker == id && s0[k].target_tick <= current;
                assert(s0.contains(s0[k]));
                if s.contains(s0[k]) {
                    let j = choose|j: int| 0 <= j < s.len() && s[j] == s0[k];
                    assert(false);
                }
                let j = choose|j: int| 0 <= j < rem.len() && rem[j] == s0[k];
                assert(ready@[j] == id);
            }
        }
        assert forall|w: TimerWaiter| #[trigger] s.contains(w) <==> s0.contains(w) && w.target_tick > current by {
            if s.contains(w) {
                let j = choose|j: int| 0 <= j < s.len() && s[j] == w;
                assert(s[j].target_tick > current);
            }
            if s0.contains(w) && w.target_tick > current && !s.contains(w) {
                let j = choose|j: int| 0 <= j < rem.len() && rem[j] == w;
                assert(false);
            }
        }
        assert forall|i: int, j: int| 0 <= i < j < ready@.len() implies ready@[i] != ready@[j] by {
            assert((s + rem)[s.len() + i].waker != (s + rem)[s.len() + j].waker);
        }
        assert forall|i: int, j: int| 0 <= i < j < s.len() implies s[i].waker != s[j].waker by {
            assert((s + rem)[i].waker != (s + rem)[j].waker);
        }
    }
    ready
}

/// One cooperative tick: the counter advances by one, and the waiters whose tick has come
/// are woken. Returns the new tick and the woken wakers.
pub fn advance_cooperative_tick(state: &mut TimerState) -> (r: (u64, Vec<u64>))
    requires
        old(state).wf(),
        old(state).ticks() < u64::MAX,
    ensures
        final(state).wf(),
        r.0 == old(state).ticks() + 1,
        final(state).ticks() == r.0,
        final(state).ready() == old(state).ready(),
        tick_advanced(old(state).waiters(), final(state).waiters(), r.1@, r.0),
        r.1@.no_duplicates(),
{
    let ghost s0 = state.waiters();
    state.ticks = state.ticks + 1;
    let tick = state.ticks;
    assert(state.waiters() == s0);
    let woken = wake_due_timer_waiters(state);
    assert(s0 == old(state).waiters());
    (tick, woken)
}

/// The timer interrupt: the counter advances by one (wrapping), and the waiters whose tick has
/// come are woken.
pub fn timer_interrupt(state: &mut TimerState) -> (woken: Vec<u64>)
    requires
        old(state).wf(),
    ensures
        final(state).wf(),
        final(state).ticks() == (if old(state).ticks() == u64::MAX {
            0
        } else {
            old(state).ticks() + 1
        }),
        final(state).ready() == old(state).ready(),
        tick_advanced(old(state).waiters(), final(state).waiters(), woken@, final(state).ticks()),
        woken@.no_duplicates(),
{
    let ghost s0 = state.waiters();
    state.ticks = state.ticks.wrapping_add(1);
    assert(state.waiters() == s0);
    let woken = wake_due_timer_waiters(state);
    assert(s0 == old(state).waiters());
    woken
}

/// What an advance of the tick (cooperative or by interrupt) to `tick` does to the waiters,
/// as both state it: those whose target lies past `tick` stay, and the others' wakers are
/// the ones woken.
pub open spec fn tick_advanced(
    before: Seq<TimerWaiter>,
    after: Seq<TimerWaiter>,
    woken: Seq<u64>,
    tick: u64,
) -> bool {
    &&& forall|w: TimerWaiter| #[trigger]
        after.contains(w) <==> before.contains(w) && w.target_tick > tick
    &&& forall|id: u64| #[trigger]
        woken.contains(id) <==> exists|k: int|
            0 <= k < before.len() && before[k].waker == id && before[k].target_tick <= tick
}

/// A sleeping task is woken by the advance that reaches its target tick and by no earlier
/// one: over an advance to a tick before its target it stays waiting and its waker is not
/// woken; over the advance to its target (or past it) it leaves the waiters and its waker is
/// woken. Advancing one tick at a time, it is woken exactly once, at its target.
pub proof fn lemma_woken_at_target(
    before: Seq<TimerWaiter>,
    after: Seq<TimerWaiter>,
    woken: Seq<u64>,
    tick: u64,
    w: TimerWaiter,
)
    requires
        unique_wakers(before),
        before.contains(w),
        tick_advanced(before, after, woken, tick),
    ensures
        tick < w.target_tick ==> after.contains(w) && !woken.contains(w.waker),
        tick >= w.target_tick ==> !after.contains(w) && woken.contains(w.waker),
{
    let i = choose|i: int| 0 <= i < before.len() && before[i] == w;
    if tick < w.target_tick {
        if woken.contains(w.waker) {
            let k = choose|k: int|
                0 <= k < before.len() && before[k].waker == w.waker && before[k].target_tick <= tick;
            if k < i {
                assert(before[k].waker != before[i].waker);
            } else if k > i {
                assert(before[i].waker != before[k].waker);
            }
        }
    } else {
        assert(before[i].waker == w.waker && before[i].target_tick <= tick);
    }
}

/// Over a run of tick advances (`states[i]` the waiters before advance `i` to `ticks[i]`,
/// `wokens[i]` the wakers it woke, nothing registered in between): a waiter's task is woken
/// exactly once, by the first advance whose tick reaches its target.
pub proof fn lemma_woken_once(
    states: Seq<Seq<TimerWaiter>>,
    wokens: Seq<Seq<u64>>,
    ticks: Seq<u64>,
    w: TimerWaiter,
)
    requires
        states.len() == ticks.len() + 1,
        wokens.len() == ticks.len(),
        unique_wakers(states[0]),
        states[0].contains(w),
        forall|i: int|
            0 <= i < ticks.len() ==> #[trigger] tick_advanced(states[i], states[i + 1], wokens[i], ticks[i]),
    ensures
        forall|i: int|
            0 <= i < ticks.len() ==> (#[trigger] wokens[i].contains(w.waker) <==> ticks[i]
                >= w.target_tick && forall|j: int| 0 <= j < i ==> #[trigger] ticks[j] < w.target_tick),
{
    assert forall|i: int|
        0 <= i < ticks.len() implies (#[trigger] wokens[i].contains(w.waker) <==> ticks[i]
            >= w.target_tick && forall|j: int| 0 <= j < i ==> #[trigger] ticks[j] < w.target_tick) by {
        lemma_run_prefix(states, wokens, ticks, w, i);
        let s = states[i];
        assert(tick_advanced(s, states[i + 1], wokens[i], ticks[i]));
        if wokens[i].contains(w.waker) {
            let k = choose|k: int|
                0 <= k < s.len() && s[k].waker == w.waker && s[k].target_tick <= ticks[i];
            assert(s.contains(s[k]));
            assert(s[k] == w);
        } else {
            if s.contains(w) && ticks[i] >= w.target_tick {
                let k = choose|k: int| 0 <= k < s.len() && s[k] == w;
                assert(s[k].waker == w.waker && s[k].target_tick <= ticks[i]);
            }
        }
    }
}

/// Before advance `i`, the waiters are among the first ones, and `w` is still waiting exactly
/// while every earlier advance stayed below its target; any waiter with its waker is `w`.
proof fn lemma_run_prefix(
    states: Seq<Seq<TimerWaiter>>,
    wokens: Seq<Seq<u64>>,
    ticks: Seq<u64>,
    w: TimerWaiter,
    i: int,
)
    requires
        states.len() == ticks.len() + 1,
        wokens.len() == ticks.len(),
        unique_wakers(states[0]),
        states[0].contains(w),
        forall|i: int|
            0 <= i < ticks.len() ==> #[trigger] tick_advanced(states[i], states[i + 1], wokens[i], ticks[i]),
        0 <= i <= ticks.len(),
    ensures
        forall|x: TimerWaiter| #[trigger] states[i].contains(x) ==> states[0].contains(x),
        forall|x: TimerWaiter| #[trigger] states[i].contains(x) && x.waker == w.waker ==> x == w,
        states[i].contains(w) <==> forall|j: int| 0 <= j < i ==> #[trigger] ticks[j] < w.target_tick,
    decreases i,
{
    if i == 0 {
        assert forall|x: TimerWaiter| #[trigger] states[0].contains(x) && x.waker == w.waker implies x
            == w by {
            let a = choose|a: int| 0 <= a < states[0].len() && states[0][a] == x;
            let b = choose|b: int| 0 <= b < states[0].len() && states[0][b] == w;
            if a < b {
                assert(states[0][a].waker != states[0][b].waker);
            } else if b < a {
                assert(states[0][b].waker != states[0][a].waker);
            }
        }
    } else {
        lemma_run_prefix(states, wokens, ticks, w, i - 1);
        let k = i - 1;
        assert(tick_advanced(states[k], states[k + 1], wokens[k], ticks[k]));
        assert(states[k + 1] == states[i]);
        if forall|j: int| 0 <= j < i ==> #[trigger] ticks[j] < w.target_tick {
            assert(ticks[i - 1] < w.target_tick);
            assert forall|j: int| 0 <= j < i - 1 implies #[trigger] ticks[j] < w.target_tick by {
                assert(ticks[j] < w.target_tick);
            }
        } else {
            let j0 = choose|j: int| 0 <= j < i && !(#[trigger] ticks[j] < w.target_tick);
            if j0 < i - 1 {
                assert(!states[i - 1].contains(w));
            }
        }
    }
}

/// The tick that a sleep of `ticks` ticks started at tick `current` waits for.
pub fn sleep_target(current: u64, ticks: u64) -> (r: u64)
    requires
        current + ticks <= u64::MAX,
    ensures
        r == current + ticks,
{
    current + ticks
}

} // verus!
