//! A watcher keeps a connection to a mail server open, and opens it again
//! after a pause when it breaks.
use vstd::prelude::*;

verus! {

/// The first pause, in milliseconds.
pub const INITIAL_BACKOFF_MS: u64 = 2_000;

/// The longest pause, in milliseconds.
pub const MAX_BACKOFF_MS: u64 = 300_000;

/// The pause that follows a pause: twice as long, up to the longest.
pub open spec fn longer(ms: int) -> int {
    if 2 * ms > MAX_BACKOFF_MS {
        MAX_BACKOFF_MS as int
    } else {
        2 * ms
    }
}

/// The pause after `failures` failures before it.
pub open spec fn backoff_after(failures: nat) -> int
    decreases failures,
{
    if failures == 0 {
        INITIAL_BACKOFF_MS as int
    } else {
        longer(backoff_after((failures - 1) as nat))
    }
}

/// Pauses start at two seconds, never shrink, and never exceed five minutes.
pub proof fn law_backoff_grows_to_its_cap(failures: nat)
    ensures
        INITIAL_BACKOFF_MS <= backoff_after(failures) <= MAX_BACKOFF_MS,
        backoff_after(failures) <= backoff_after(failures + 1),
        failures >= 8 ==> backoff_after(failures) == MAX_BACKOFF_MS,
    decreases failures,
{
    if failures > 0 {
        law_backoff_grows_to_its_cap((failures - 1) as nat);
    }
    if failures == 8 {
        reveal_with_fuel(backoff_after, 9);
    }
}

/// `base` milliseconds, spread by a draw: `draw` makes of it anything from half
/// of `base` up to, but not including, one and a half times `base`. Parts of a
/// millisecond are dropped, unless less than half of `base` were left.
pub open spec fn spread(base: int, draw: int) -> int {
    let whole = (base * (0x8000_0000 + draw)) / 0x1_0000_0000;
    let half = (base + 1) / 2;
    if whole < half {
        half
    } else {
        whole
    }
}

/// Spread pauses lie between half of the pause and one and a half times it; no
/// pause stays none.
pub proof fn law_spread_stays_near(base: int, draw: int)
    requires
        0 <= base,
        0 <= draw < 0x1_0000_0000,
    ensures
        base <= 2 * spread(base, draw),
        base > 0 ==> 2 * spread(base, draw) < 3 * base,
        base == 0 ==> spread(base, draw) == 0,
{
    let n = base * (0x8000_0000 + draw);
    assert(n >= base * 0x8000_0000) by (nonlinear_arith)
        requires
            n == base * (0x8000_0000 + draw),
            base >= 0,
            draw >= 0,
    ;
    assert(base > 0 ==> n < base * 0x1_8000_0000) by (nonlinear_arith)
        requires
            n == base * (0x8000_0000 + draw),
            base >= 0,
            draw < 0x1_0000_0000,
    ;
    assert(base == 0 ==> n == 0) by (nonlinear_arith)
        requires
            n == base * (0x8000_0000 + draw),
    ;
}

/// See [`spread`].
pub fn spread_by(base_ms: u64, draw: u32) -> (r: u64)
    requires
        base_ms <= 0xaaaa_aaaa_aaaa_aaaa,
    ensures
        r == spread(base_ms as int, draw as int),
{
    proof {
        law_spread_stays_near(base_ms as int, draw as int);
        let b = base_ms as int;
        let d = draw as int;
        assert(0 <= b * (0x8000_0000 + d) <= 0xaaaa_aaaa_aaaa_aaaa * 0x1_8000_0000)
            by (nonlinear_arith)
            requires
                0 <= b <= 0xaaaa_aaaa_aaaa_aaaa,
                0 <= d < 0x1_0000_0000,
        ;
    }
    let wide: u128 = (base_ms as u128) * (0x8000_0000u128 + draw as u128);
    let whole: u64 = (wide / 0x1_0000_0000u128) as u64;
    let half: u64 = base_ms / 2 + base_ms % 2;
    if whole < half {
        half
    } else {
        whole
    }
}

/// `rand::random`: a number drawn from the thread's generator. Nothing is said
/// of it, for it depends on chance.
#[verifier::external_body]
fn random_draw() -> (r: u32) {
    rand::random::<u32>()
}

/// A pause of `base_ms` milliseconds, spread at random, so that connections
/// that broke together are not opened again together.
pub fn jittered(base_ms: u64) -> (r: u64)
    requires
        base_ms <= 0xaaaa_aaaa_aaaa_aaaa,
    ensures
        exists|draw: u32| r == #[trigger] spread(base_ms as int, draw as int),
        base_ms <= 2 * r,
        base_ms > 0 ==> 2 * r < 3 * base_ms,
        base_ms == 0 ==> r == 0,
{
    let draw: u32 = random_draw();
    proof {
        law_spread_stays_near(base_ms as int, draw as int);
    }
    spread_by(base_ms, draw)
}

/// What happened to a watcher.
#[derive(Debug, Clone, Copy, PartialEq, Eq, Structural)]
pub enum WatcherEvent {
    /// The watcher starts.
    Started,
    /// The session ended because no one listens any more.
    SessionEnded,
    /// The session could not be opened, or broke.
    SessionFailed,
    /// The loss was reported; whether someone listens.
    LossReported(bool),
    /// The pause is over.
    PauseOver,
    /// The recovery was reported; whether someone listens.
    RecoveryReported(bool),
}

/// What a watcher does next.
#[derive(Debug, Clone, Copy, PartialEq, Eq, Structural)]
pub enum WatcherAction {
    OpenSession,
    ReportLoss,
    /// Wait about this many milliseconds.
    Pause(u64),
    ReportRecovery,
    Stop,
}

/// A watcher's memory: the next pause.
#[derive(Debug, Clone, Copy, PartialEq, Eq, Structural)]
pub struct Watcher {
    pub backoff_ms: u64,
}

impl Watcher {
    /// The next pause is within its bounds.
    pub open spec fn well_formed(self) -> bool {
        INITIAL_BACKOFF_MS <= self.backoff_ms <= MAX_BACKOFF_MS
    }

    /// A watcher that has not failed yet.
    pub fn new() -> (r: Watcher)
        ensures
            r.well_formed(),
            r.backoff_ms == backoff_after(0),
    {
        Watcher { backoff_ms: INITIAL_BACKOFF_MS }
    }

    /// What to do after `event`. A failure is reported, waited out and reported
    /// as over before the next session; the watcher stops as soon as no one
    /// listens.
    pub fn step(&mut self, event: WatcherEvent) -> (r: WatcherAction)
        requires
            old(self).well_formed(),
        ensures
            final(self).well_formed(),
            r == match event {
                WatcherEvent::Started => WatcherAction::OpenSession,
                WatcherEvent::SessionEnded => WatcherAction::Stop,
                WatcherEvent::SessionFailed => WatcherAction::ReportLoss,
                WatcherEvent::LossReported(heard) => if heard {
                    WatcherAction::Pause(old(self).backoff_ms)
                } else {
                    WatcherAction::Stop
                },
                WatcherEvent::PauseOver => WatcherAction::ReportRecovery,
                WatcherEvent::RecoveryReported(heard) => if heard {
                    WatcherAction::OpenSession
                } else {
                    WatcherAction::Stop
                },
            },
            final(self).backoff_ms == if event == WatcherEvent::LossReported(true) {
                longer(old(self).backoff_ms as int)
            } else {
                old(self).backoff_ms as int
            },
    {
        match event {
            WatcherEvent::Started => WatcherAction::OpenSession,
            WatcherEvent::SessionEnded => WatcherAction::Stop,
            WatcherEvent::SessionFailed => WatcherAction::ReportLoss,
            WatcherEvent::LossReported(heard) => {
                if heard {
                    let pause: u64 = self.backoff_ms;
                    self.backoff_ms = if 2 * pause > MAX_BACKOFF_MS {
                        MAX_BACKOFF_MS
                    } else {
                        2 * pause
                    };
                    WatcherAction::Pause(pause)
                } else {
                    WatcherAction::Stop
                }
            },
            WatcherEvent::PauseOver => WatcherAction::ReportRecovery,
            WatcherEvent::RecoveryReported(heard) => {
                if heard {
                    WatcherAction::OpenSession
                } else {
                    WatcherAction::Stop
                }
            },
        }
    }
}

/// A pause is twice the one before, from two seconds up to five minutes.
pub proof fn law_pauses_double(ms: int, failures: nat)
    ensures
        ms <= 150_000 ==> longer(ms) == 2 * ms,
        ms > 150_000 ==> longer(ms) == 300_000,
        backoff_after(0) == 2_000,
        backoff_after(failures + 1) == longer(backoff_after(failures)),
{
}

/// The draw decides where within its range a pause falls: the least draw gives
/// half of it, a draw in the middle the pause itself, and a greater draw never a
/// shorter pause.
pub proof fn law_the_draw_decides(base: int, draw: int, greater: int)
    requires
        0 <= base,
        0 <= draw <= greater < 0x1_0000_0000,
    ensures
        spread(base, 0) == (base + 1) / 2,
        spread(base, 0x8000_0000) == base,
        spread(base, draw) <= spread(base, greater),
        spread(base, draw) * 0x1_0000_0000 <= base * (0x8000_0000 + draw) + 0x8000_0000,
        base * (0x8000_0000 + draw) < spread(base, draw) * 0x1_0000_0000 + 0x1_0000_0000,
{
    let a = base * (0x8000_0000 + draw);
    let b = base * (0x8000_0000 + greater);
    assert(a <= b) by (nonlinear_arith)
        requires
            a == base * (0x8000_0000 + draw),
            b == base * (0x8000_0000 + greater),
            0 <= base,
            draw <= greater,
    ;
    assert(a >= base * 0x8000_0000) by (nonlinear_arith)
        requires
            a == base * (0x8000_0000 + draw),
            0 <= base,
            0 <= draw,
    ;
    assert(base * (0x8000_0000 + 0) == base * 0x8000_0000);
    assert(base * (0x8000_0000 + 0x8000_0000int) == base * 0x1_0000_0000);
}

} // verus!
