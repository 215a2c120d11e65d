//! Retry policies and the static configuration of one server instance.
//!
//! A [`RetryConfig`] is a pure backoff schedule: a bounded number of
//! attempts and a function from attempt number to wait duration.  All
//! durations are in milliseconds; the multiplication in the exponential
//! schedule saturates at `u64::MAX` rather than overflowing.

use vstd::prelude::*;

verus! {

/// How the wait between retries grows with the attempt number.
#[derive(Clone, Copy, PartialEq, Eq, Structural, Debug)]
pub enum BackoffType {
    Constant,
    Exponential,
}

/// Backoff schedule for one class of retried operation.
#[derive(Clone, Copy, PartialEq, Eq, Structural, Debug)]
pub struct RetryConfig {
    pub max_attempts: u32,
    pub backoff_type: BackoffType,
    pub backoff_base_ms: u64,
}

/// 2 to the power `n`.
pub open spec fn pow2(n: nat) -> nat
    decreases n,
{
    if n == 0 {
        1
    } else {
        2 * pow2((n - 1) as nat)
    }
}

/// The wait in milliseconds before retrying after attempt `attempt`:
/// the base duration under a constant schedule, base times 2^attempt
/// (saturating at `u64::MAX`) under an exponential one.
pub open spec fn backoff_ms(c: RetryConfig, attempt: nat) -> int {
    match c.backoff_type {
        BackoffType::Constant => c.backoff_base_ms as int,
        BackoffType::Exponential => {
            let full = (c.backoff_base_ms as nat) * pow2(attempt);
            if full > u64::MAX {
                u64::MAX as int
            } else {
                full as int
            }
        },
    }
}

impl RetryConfig {
    /// Builds a schedule, filling absent fields with the defaults:
    /// 5 attempts, exponential backoff, 100 ms base.
    pub fn new(
        max_attempts: Option<u32>,
        backoff_type: Option<BackoffType>,
        backoff_base_ms: Option<u64>,
    ) -> (r: RetryConfig)
        ensures
            r.max_attempts == (if max_attempts is Some {
                max_attempts->0
            } else {
                5u32
            }),
            r.backoff_type == (if backoff_type is Some {
                backoff_type->0
            } else {
                BackoffType::Exponential
            }),
            r.backoff_base_ms == (if backoff_base_ms is Some {
                backoff_base_ms->0
            } else {
                100u64
            }),
    {
        RetryConfig {
            max_attempts: match max_attempts {
                Some(m) => m,
                None => 5,
            },
            backoff_type: match backoff_type {
                Some(t) => t,
                None => BackoffType::Exponential,
            },
            backoff_base_ms: match backoff_base_ms {
                Some(b) => b,
                None => 100,
            },
        }
    }

    /// The default schedule: 5 attempts, exponential, 100 ms base.
    pub fn default() -> (r: RetryConfig)
        ensures
            r.max_attempts == 5,
            r.backoff_type == BackoffType::Exponential,
            r.backoff_base_ms == 100,
    {
        RetryConfig::new(None, None, None)
    }

    /// The wait in milliseconds before the retry that follows attempt
    /// `attempt_number`.  Pure; the exponential product saturates at
    /// `u64::MAX` instead of overflowing.
    pub fn sleep_for(&self, attempt_number: u32) -> (d: u64)
        ensures
            d as int == backoff_ms(*self, attempt_number as nat),
            self.backoff_type is Constant ==> d == self.backoff_base_ms,
            self.backoff_type is Exponential && (self.backoff_base_ms as nat) * pow2(
                attempt_number as nat,
            ) <= u64::MAX ==> d as nat == (self.backoff_base_ms as nat) * pow2(
                attempt_number as nat,
            ),
    {
        match self.backoff_type {
            BackoffType::Constant => self.backoff_base_ms,
            BackoffType::Exponential => {
                proof {
                    assert(pow2(0nat) == 1);
                }
                let mut d: u64 = self.backoff_base_ms;
                let mut i: u32 = 0;
                while i < attempt_number
                    invariant
                        i <= attempt_number,
                        d as int == backoff_ms(
                            RetryConfig {
                                backoff_type: BackoffType::Exponential,
                                ..*self
                            },
                            i as nat,
                        ),
                    decreases attempt_number - i,
                {
                    proof {
                        assert(pow2((i + 1) as nat) == 2 * pow2(i as nat));
                        assert((self.backoff_base_ms as nat) * (2 * pow2(i as nat)) == 2 * (
                        (self.backoff_base_ms as nat) * pow2(i as nat))) by (nonlinear_arith);
                    }
                    if d > u64::MAX / 2 {
                        d = u64::MAX;
                    } else {
                        d = d * 2;
                    }
                    i = i + 1;
                }
                d
            },
        }
    }
}

/// Static description of one server instance's retry behaviour: one
/// schedule for kill escalation, one for connection retry.
#[derive(Clone, Copy, PartialEq, Eq, Structural, Debug)]
pub struct Config {
    pub kill_server: RetryConfig,
    pub connect_server: RetryConfig,
}

impl Config {
    /// Builds a configuration, filling absent parts with the defaults:
    /// the standard schedule for killing, and a constant 10 ms schedule
    /// of 5 attempts for connecting.
    pub fn new(kill_server: Option<RetryConfig>, connect_server: Option<RetryConfig>) -> (r:
        Config)
        ensures
            r.kill_server == (if kill_server is Some {
                kill_server->0
            } else {
                RetryConfig {
                    max_attempts: 5u32,
                    backoff_type: BackoffType::Exponential,
                    backoff_base_ms: 100u64,
                }
            }),
            r.connect_server == (if connect_server is Some {
                connect_server->0
            } else {
                RetryConfig {
                    max_attempts: 5u32,
                    backoff_type: BackoffType::Constant,
                    backoff_base_ms: 10u64,
                }
            }),
    {
        Config {
            kill_server: match kill_server {
                Some(k) => k,
                None => RetryConfig::default(),
            },
            connect_server: match connect_server {
                Some(c) => c,
                None => RetryConfig::new(
                    None,
                    Some(BackoffType::Constant),
                    Some(10),
                ),
            },
        }
    }
}

} // verus!
