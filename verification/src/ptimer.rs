//! Periodic countdown timer ("ptimer") with configurable policies.
//!
//! Where the timer would invoke its expiry callback, the methods here
//! return `true` and leave the call to the owner.
use vstd::prelude::*;

verus! {

pub const WRAP_AFTER_ONE_PERIOD: u8 = 0x01;
pub const CONTINUOUS_TRIGGER: u8 = 0x02;
pub const NO_IMMEDIATE_TRIGGER: u8 = 0x04;
pub const NO_IMMEDIATE_RELOAD: u8 = 0x08;
pub const NO_COUNTER_ROUND_DOWN: u8 = 0x10;
pub const TRIGGER_ONLY_ON_DECREMENT: u8 = 0x20;

/// Run mode of the timer.
#[derive(Debug, Clone, Copy, PartialEq, Eq, Structural)]
pub enum Enabled {
    Disabled,
    Periodic,
    OneShot,
}

/// The timer state.
pub struct Ptimer {
    pub enabled: Enabled,
    pub limit: u64,
    pub delta: u64,
    pub period_ns: u64,
    pub period_frac: u32,
    pub policy_mask: u8,
    pub in_transaction: bool,
    pub need_reload: bool,
}

/// Setting a zero count on a running timer schedules a reload, unless
/// the policy suppresses immediate triggers.
pub open spec fn reload_wanted(s: Ptimer) -> bool {
    s.enabled != Enabled::Disabled && s.policy_mask & NO_IMMEDIATE_TRIGGER == 0
}

/// The timer after one tick of its period, and whether it expired
/// (the callback fires).
pub open spec fn tick_spec(s: Ptimer) -> (Ptimer, bool) {
    if s.enabled == Enabled::Disabled || s.period_ns == 0 || s.delta == 0 {
        (s, false)
    } else if s.delta > 1 {
        (Ptimer { delta: (s.delta - 1) as u64, ..s }, false)
    } else if s.enabled == Enabled::OneShot {
        (Ptimer { delta: 0, enabled: Enabled::Disabled, ..s }, true)
    } else {
        (
            Ptimer {
                delta: s.limit,
                enabled: if s.limit == 0 && s.policy_mask & CONTINUOUS_TRIGGER == 0 {
                    Enabled::Disabled
                } else {
                    s.enabled
                },
                ..s
            },
            true,
        )
    }
}

/// The timer after up to `n` ticks (stopping once it is disabled), and
/// the number of expiries.
pub open spec fn step_spec(s: Ptimer, n: nat) -> (Ptimer, nat)
    decreases n,
{
    if n == 0 {
        (s, 0)
    } else {
        let (s1, fired) = tick_spec(s);
        let c = if fired {
            1nat
        } else {
            0nat
        };
        if s1.enabled == Enabled::Disabled {
            (s1, c)
        } else {
            let (s2, c2) = step_spec(s1, (n - 1) as nat);
            (s2, c + c2)
        }
    }
}

/// The timer after a reload with `delta_adjust`, and whether the
/// callback fires immediately.
pub open spec fn reload_spec(s: Ptimer, delta_adjust: i32) -> (Ptimer, bool) {
    let suppress = delta_adjust == 0 && s.policy_mask & TRIGGER_ONLY_ON_DECREMENT != 0;
    let fire = s.delta == 0 && s.policy_mask & NO_IMMEDIATE_TRIGGER == 0 && !suppress;
    let d0 = if s.delta == 0 && s.policy_mask & NO_IMMEDIATE_RELOAD == 0 {
        s.limit
    } else {
        s.delta
    };
    if s.period_ns == 0 && s.period_frac == 0 {
        (Ptimer { delta: d0, enabled: Enabled::Disabled, ..s }, fire)
    } else {
        let d1 = if s.policy_mask & WRAP_AFTER_ONE_PERIOD != 0 && delta_adjust >= 0 {
            (d0 + delta_adjust) as u64
        } else {
            d0
        };
        let d2 = if d1 == 0 && s.policy_mask & CONTINUOUS_TRIGGER != 0 && s.enabled
            == Enabled::Periodic && s.limit == 0 {
            1
        } else {
            d1
        };
        let d3 = if d2 == 0 && s.policy_mask & NO_IMMEDIATE_TRIGGER != 0 && delta_adjust >= 0 {
            1
        } else {
            d2
        };
        let d4 = if d3 == 0 && s.policy_mask & NO_IMMEDIATE_RELOAD != 0 && s.enabled
            == Enabled::Periodic && s.limit != 0 {
            1
        } else {
            d3
        };
        (
            Ptimer {
                delta: d4,
                enabled: if d4 == 0 {
                    Enabled::Disabled
                } else {
                    s.enabled
                },
                ..s
            },
            fire,
        )
    }
}

impl Ptimer {
    /// A stopped timer with the given policy.
    pub fn new(policy_mask: u8) -> (r: Self)
        ensures
            r == (Ptimer {
                enabled: Enabled::Disabled,
                limit: 0,
                delta: 0,
                period_ns: 0,
                period_frac: 0,
                policy_mask,
                in_transaction: false,
                need_reload: false,
            }),
    {
        Ptimer {
            enabled: Enabled::Disabled,
            limit: 0,
            delta: 0,
            period_ns: 0,
            period_frac: 0,
            policy_mask,
            in_transaction: false,
            need_reload: false,
        }
    }

    /// Start a transaction: reloads are deferred until `commit`.
    pub fn begin(&mut self)
        ensures
            *final(self) == (Ptimer { in_transaction: true, ..*old(self) }),
    {
        self.in_transaction = true;
    }

    /// End a transaction, performing a deferred reload. Returns whether
    /// the expiry callback fires.
    pub fn commit(&mut self) -> (r: bool)
        ensures
            !old(self).need_reload ==> *final(self) == (Ptimer { in_transaction: false, ..*old(self) })
                && !r,
            old(self).need_reload ==> (*final(self), r) == reload_spec(
                Ptimer { in_transaction: false, need_reload: false, ..*old(self) },
                0,
            ),
    {
        self.in_transaction = false;
        if self.need_reload {
            self.need_reload = false;
            self.reload(0)
        } else {
            false
        }
    }

    /// Set the period in nanoseconds.
    pub fn set_period(&mut self, period_ns: u64)
        ensures
            *final(self) == (Ptimer { period_ns, period_frac: 0, ..*old(self) }),
    {
        self.period_ns = period_ns;
        self.period_frac = 0;
    }

    /// Set the period from a frequency: the whole nanoseconds and the
    /// 32-bit binary fraction of a nanosecond; frequency 0 clears it.
    pub fn set_freq(&mut self, freq_hz: u32)
        ensures
            freq_hz == 0 ==> *final(self) == (Ptimer { period_ns: 0, period_frac: 0, ..*old(self) }),
            freq_hz != 0 ==> *final(self) == (Ptimer {
                period_ns: (1_000_000_000int / freq_hz as int) as u64,
                period_frac: ((1_000_000_000int % freq_hz as int) * 0x1_0000_0000 / freq_hz as int) as u32,
                ..*old(self)
            }),
    {
        if freq_hz == 0 {
            self.period_ns = 0;
            self.period_frac = 0;
        } else {
            let f = freq_hz as u64;
            self.period_ns = 1_000_000_000u64 / f;
            let rem = 1_000_000_000u64 % f;
            proof {
                assert(rem * 0x1_0000_0000 < 0x1_0000_0000_0000_0000) by (nonlinear_arith)
                    requires
                        rem < f,
                        f < 0x1_0000_0000,
                ;
                assert(rem * 0x1_0000_0000 / (f as int) < 0x1_0000_0000) by (nonlinear_arith)
                    requires
                        rem < f,
                        f > 0,
                ;
            }
            self.period_frac = ((rem * 0x1_0000_0000) / f) as u32;
        }
    }

    /// The reload value.
    pub fn get_limit(&self) -> (r: u64)
        ensures
            r == self.limit,
    {
        self.limit
    }

    /// Set the reload value, optionally also the current count.
    pub fn set_limit(&mut self, limit: u64, reload: bool)
        ensures
            ({
                let delta = if reload {
                    limit
                } else {
                    old(self).delta
                };
                let s1 = Ptimer { limit, delta, ..*old(self) };
                *final(self) == (Ptimer {
                    need_reload: if delta == 0 && reload_wanted(s1) {
                        true
                    } else {
                        old(self).need_reload
                    },
                    ..s1
                })
            }),
    {
        self.limit = limit;
        if reload {
            self.delta = limit;
        }
        if self.delta == 0 && self.need_reload_if_enabled() {
            self.need_reload = true;
        }
    }

    /// The visible count: one below the internal count while running,
    /// unless the policy disables rounding down.
    pub fn get_count(&self) -> (r: u64)
        ensures
            r == (if self.enabled != Enabled::Disabled && self.policy_mask & NO_COUNTER_ROUND_DOWN
                == 0 {
                if self.delta > 0 {
                    (self.delta - 1) as u64
                } else {
                    0
                }
            } else {
                self.delta
            }),
    {
        if self.enabled != Enabled::Disabled && self.policy_mask & NO_COUNTER_ROUND_DOWN == 0 {
            if self.delta > 0 {
                self.delta - 1
            } else {
                0
            }
        } else {
            self.delta
        }
    }

    /// Set the current count.
    pub fn set_count(&mut self, count: u64)
        ensures
            ({
                let s1 = Ptimer { delta: count, ..*old(self) };
                *final(self) == (Ptimer {
                    need_reload: if count == 0 && reload_wanted(s1) {
                        true
                    } else {
                        old(self).need_reload
                    },
                    ..s1
                })
            }),
    {
        self.delta = count;
        if self.delta == 0 && self.need_reload_if_enabled() {
            self.need_reload = true;
        }
    }

    /// Start the timer, periodic or one-shot.
    pub fn run(&mut self, oneshot: bool)
        ensures
            ({
                let s1 = Ptimer {
                    enabled: if oneshot {
                        Enabled::OneShot
                    } else {
                        Enabled::Periodic
                    },
                    ..*old(self)
                };
                *final(self) == (Ptimer {
                    need_reload: if s1.delta == 0 && reload_wanted(s1) {
                        true
                    } else {
                        old(self).need_reload
                    },
                    ..s1
                })
            }),
    {
        self.enabled = if oneshot {
            Enabled::OneShot
        } else {
            Enabled::Periodic
        };
        if self.delta == 0 && self.need_reload_if_enabled() {
            self.need_reload = true;
        }
    }

    /// Stop the timer.
    pub fn stop(&mut self)
        ensures
            *final(self) == (Ptimer { enabled: Enabled::Disabled, ..*old(self) }),
    {
        self.enabled = Enabled::Disabled;
    }

    /// Whether the timer runs.
    pub fn is_enabled(&self) -> (r: bool)
        ensures
            r == (self.enabled != Enabled::Disabled),
    {
        self.enabled != Enabled::Disabled
    }

    /// The period in nanoseconds.
    pub fn period_ns(&self) -> (r: u64)
        ensures
            r == self.period_ns,
    {
        self.period_ns
    }

    fn need_reload_if_enabled(&self) -> (r: bool)
        ensures
            r == reload_wanted(*self),
    {
        self.enabled != Enabled::Disabled && self.policy_mask & NO_IMMEDIATE_TRIGGER == 0
    }

    /// Count down one period; returns whether the timer expired.
    pub fn tick(&mut self) -> (r: bool)
        ensures
            (*final(self), r) == tick_spec(*old(self)),
    {
        if self.enabled == Enabled::Disabled || self.period_ns == 0 {
            return false;
        }
        if self.delta == 0 {
            return false;
        }
        self.delta = self.delta - 1;
        if self.delta == 0 {
            if self.enabled == Enabled::OneShot {
                self.enabled = Enabled::Disabled;
            } else {
                self.delta = self.limit;
                if self.delta == 0 && self.policy_mask & CONTINUOUS_TRIGGER == 0 {
                    self.enabled = Enabled::Disabled;
                }
            }
            return true;
        }
        false
    }

    /// Run up to `ticks` periods, stopping once the timer is disabled;
    /// returns the number of expiries.
    pub fn step(&mut self, ticks: u64) -> (r: u64)
        ensures
            (*final(self), r as nat) == step_spec(*old(self), ticks as nat),
    {
        let mut count: u64 = 0;
        let mut i: u64 = 0;
        while i < ticks
            invariant_except_break
                i <= ticks,
                count <= i,
                step_spec(*old(self), ticks as nat) == ({
                    let (s2, c2) = step_spec(*self, (ticks - i) as nat);
                    (s2, (count + c2) as nat)
                }),
            ensures
                (*self, count as nat) == step_spec(*old(self), ticks as nat),
            decreases ticks - i,
        {
            let ghost before = *self;
            let fired = self.tick();
            if fired {
                count = count + 1;
            }
            i = i + 1;
            if !self.is_enabled() {
                proof {
                    assert(step_spec(before, (ticks - i + 1) as nat) == (
                        *self,
                        if fired {
                            1nat
                        } else {
                            0nat
                        },
                    ));
                }
                break;
            }
        }
        count
    }

    /// Run the timer for `delta_ns` nanoseconds of guest time: the whole
    /// periods elapsed are stepped. Returns the number of expiries.
    pub fn drive(&mut self, delta_ns: i64) -> (r: u64)
        ensures
            ({
                let p = old(self).period_ns as i64;
                let e = crate::ds1338::tdiv(delta_ns as int, p as int);
                if p <= 0 || old(self).enabled == Enabled::Disabled || e <= 0 {
                    *final(self) == *old(self) && r == 0
                } else {
                    (*final(self), r as nat) == step_spec(*old(self), e as nat)
                }
            }),
    {
        let period_ns = self.period_ns as i64;
        if period_ns <= 0 || !self.is_enabled() {
            return 0;
        }
        let elapsed = delta_ns / period_ns;
        if elapsed <= 0 {
            return 0;
        }
        self.step(elapsed as u64)
    }

    /// Reload the count (`delta_adjust` is 0 for a plain reload); returns
    /// whether the expiry callback fires immediately.
    pub fn reload(&mut self, delta_adjust: i32) -> (r: bool)
        requires
            old(self).delta as int + delta_adjust <= u64::MAX,
            old(self).limit as int + delta_adjust <= u64::MAX,
        ensures
            (*final(self), r) == reload_spec(*old(self), delta_adjust),
    {
        let suppress_trigger = delta_adjust == 0 && self.policy_mask & TRIGGER_ONLY_ON_DECREMENT
            != 0;
        let fire = self.delta == 0 && self.policy_mask & NO_IMMEDIATE_TRIGGER == 0
            && !suppress_trigger;
        if self.delta == 0 && self.policy_mask & NO_IMMEDIATE_RELOAD == 0 {
            self.delta = self.limit;
        }
        if self.period_ns == 0 && self.period_frac == 0 {
            self.enabled = Enabled::Disabled;
            return fire;
        }
        if self.policy_mask & WRAP_AFTER_ONE_PERIOD != 0 && delta_adjust >= 0 {
            self.delta = self.delta + delta_adjust as u64;
        }
        if self.delta == 0 && self.policy_mask & CONTINUOUS_TRIGGER != 0 && self.enabled
            == Enabled::Periodic && self.limit == 0 {
            self.delta = 1;
        }
        if self.delta == 0 && self.policy_mask & NO_IMMEDIATE_TRIGGER != 0 && delta_adjust >= 0 {
            self.delta = 1;
        }
        if self.delta == 0 && self.policy_mask & NO_IMMEDIATE_RELOAD != 0 && self.enabled
            == Enabled::Periodic && self.limit != 0 {
            self.delta = 1;
        }
        if self.delta == 0 {
            self.enabled = Enabled::Disabled;
        }
        fire
    }
}

/// A one-shot timer expires at most once, however many periods it runs.
pub proof fn lemma_oneshot_fires_at_most_once(s: Ptimer, n: nat)
    requires
        s.enabled == Enabled::OneShot || s.enabled == Enabled::Disabled,
    ensures
        step_spec(s, n).1 <= 1,
    decreases n,
{
    if n > 0 {
        let (s1, fired) = tick_spec(s);
        if s1.enabled != Enabled::Disabled {
            lemma_oneshot_fires_at_most_once(s1, (n - 1) as nat);
        }
    }
}

} // verus!
