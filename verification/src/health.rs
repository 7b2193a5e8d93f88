//! Health bookkeeping for the registered collectors.
//!
//! Each collector is registered once and its status updated after every
//! run; the overall process is healthy exactly when every registered
//! collector's last run succeeded. Time and the reported version are
//! handed in by the caller.

use vstd::prelude::*;

verus! {

/// One collector's recorded condition.
#[derive(Clone, Copy, Debug, PartialEq, Eq, Structural)]
pub enum CollectorState {
    Starting,
    Healthy,
    Error,
}

/// The bookkeeping entry of one collector.
#[derive(Clone, Debug)]
pub struct CollectorStatus {
    pub name: String,
    pub status: CollectorState,
    pub last_update: Option<i64>,
    pub error_count: u32,
    pub last_error: Option<String>,
}

/// The overall verdict over all collectors.
#[derive(Clone, Copy, Debug, PartialEq, Eq, Structural)]
pub enum HealthLevel {
    Healthy,
    Degraded,
}

/// The health report handed to a caller.
#[derive(Clone, Debug)]
pub struct HealthStatus {
    pub status: HealthLevel,
    pub timestamp: i64,
    pub uptime_seconds: u64,
    pub version: String,
    pub collectors: Vec<CollectorStatus>,
}

/// The collector bookkeeping, keyed by collector name.
pub struct HealthMonitor {
    pub start_time: i64,
    pub collectors: Vec<CollectorStatus>,
}

/// The entry as it looks after one run's outcome is recorded: a
/// success only refreshes the status and update time, a failure also
/// counts up and keeps the error text.
pub open spec fn spec_recorded(
    c: CollectorStatus,
    success: bool,
    error: Option<String>,
    now: i64,
) -> CollectorStatus {
    CollectorStatus {
        name: c.name,
        status: if success {
            CollectorState::Healthy
        } else {
            CollectorState::Error
        },
        last_update: Some(now),
        error_count: if success {
            c.error_count
        } else if c.error_count < u32::MAX {
            (c.error_count + 1) as u32
        } else {
            u32::MAX
        },
        last_error: if success {
            c.last_error
        } else {
            error
        },
    }
}

/// The collector list after recording an outcome under `name`: the
/// first entry of that name is updated, everything else is untouched;
/// an unregistered name changes nothing.
pub open spec fn spec_update(
    s: Seq<CollectorStatus>,
    name: Seq<char>,
    success: bool,
    error: Option<String>,
    now: i64,
) -> Seq<CollectorStatus>
    decreases s.len(),
{
    if s.len() == 0 {
        Seq::empty()
    } else if s[0].name@ == name {
        seq![spec_recorded(s[0], success, error, now)] + s.skip(1)
    } else {
        seq![s[0]] + spec_update(s.skip(1), name, success, error, now)
    }
}

pub open spec fn spec_all_healthy(s: Seq<CollectorStatus>) -> bool {
    forall|i: int| 0 <= i < s.len() ==> (#[trigger] s[i]).status == CollectorState::Healthy
}

impl HealthMonitor {
    /// A monitor started at time `now`, with no collectors yet.
    pub fn new(now: i64) -> (r: Self)
        ensures
            r.start_time == now,
            r.collectors@.len() == 0,
    {
        HealthMonitor { start_time: now, collectors: Vec::new() }
    }

    /// Register a collector in the starting state.
    pub fn register_collector(&mut self, name: String)
        ensures
            final(self).start_time == old(self).start_time,
            final(self).collectors@ == old(self).collectors@.push(
                (CollectorStatus {
                    name,
                    status: CollectorState::Starting,
                    last_update: None,
                    error_count: 0,
                    last_error: None,
                }),
            ),
    {
        self.collectors.push(
            CollectorStatus {
                name,
                status: CollectorState::Starting,
                last_update: None,
                error_count: 0,
                last_error: None,
            },
        );
    }

    /// Record one run's outcome under the collector's name.
    pub fn update_collector_status(
        &mut self,
        name: &String,
        success: bool,
        error: Option<String>,
        now: i64,
    )
        ensures
            final(self).start_time == old(self).start_time,
            final(self).collectors@ == spec_update(
                old(self).collectors@,
                name@,
                success,
                error,
                now,
            ),
    {
        let ghost orig = self.collectors@;
        let ghost orig_err = error;
        let mut pending: Vec<CollectorStatus> = Vec::new();
        core::mem::swap(&mut self.collectors, &mut pending);
        let mut done = false;
        let mut err = error;
        while pending.len() > 0
            invariant
                self.start_time == old(self).start_time,
                pending@.len() <= orig.len(),
                orig.skip(orig.len() - pending@.len()) =~= pending@,
                !done ==> err == orig_err,
                spec_update(orig, name@, success, orig_err, now) == self.collectors@ + (if done {
                    pending@
                } else {
                    spec_update(pending@, name@, success, orig_err, now)
                }),
            decreases pending@.len(),
        {
            let ghost k = orig.len() - pending@.len();
            let c = pending.remove(0);
            proof {
                assert(orig.skip(k)[0] == orig[k]);
                assert(orig.skip(k).skip(1) =~= orig.skip(k + 1));
            }
            if !done && c.name == *name {
                let recorded = CollectorStatus {
                    name: c.name,
                    status: if success {
                        CollectorState::Healthy
                    } else {
                        CollectorState::Error
                    },
                    last_update: Some(now),
                    error_count: if success {
                        c.error_count
                    } else if c.error_count < u32::MAX {
                        c.error_count + 1
                    } else {
                        u32::MAX
                    },
                    last_error: if success {
                        c.last_error
                    } else {
                        let e = err;
                        err = None;
                        match e {
                            Some(t) => Some(t),
                            None => None,
                        }
                    },
                };
                self.collectors.push(recorded);
                done = true;
            } else {
                self.collectors.push(c);
            }
        }
    }

    /// The health report at time `now`: healthy exactly when every
    /// registered collector's last run succeeded (and trivially so with
    /// none registered), with the uptime since construction, never
    /// negative.
    pub fn get_health_status(&self, now: i64, version: String) -> (r: HealthStatus)
        ensures
            (r.status == HealthLevel::Healthy) <==> spec_all_healthy(self.collectors@),
            r.timestamp == now,
            r.uptime_seconds == (if now >= self.start_time {
                (now - self.start_time) as u64
            } else {
                0u64
            }),
            r.version == version,
            r.collectors@ == self.collectors@,
    {
        let mut all = true;
        let mut copies: Vec<CollectorStatus> = Vec::new();
        let mut k: usize = 0;
        while k < self.collectors.len()
            invariant
                k <= self.collectors@.len(),
                copies@ =~= self.collectors@.take(k as int),
                all == spec_all_healthy(self.collectors@.take(k as int)),
            decreases self.collectors@.len() - k,
        {
            let c = &self.collectors[k];
            let is_healthy = match c.status {
                CollectorState::Healthy => true,
                _ => false,
            };
            proof {
                let pre = self.collectors@.take(k as int);
                let post = self.collectors@.take(k + 1);
                assert(post.drop_last() =~= pre);
                assert(post.last() == self.collectors@[k as int]);
                if spec_all_healthy(pre) && self.collectors@[k as int].status
                    == CollectorState::Healthy {
                    assert forall|i: int| 0 <= i < post.len() implies (#[trigger] post[i]).status
                        == CollectorState::Healthy by {
                        if i < k {
                            assert(post[i] == pre[i]);
                        }
                    }
                }
                if !(spec_all_healthy(pre) && self.collectors@[k as int].status
                    == CollectorState::Healthy) {
                    if spec_all_healthy(post) {
                        assert(pre =~= post.take(k as int));
                        assert forall|i: int| 0 <= i < pre.len() implies (#[trigger] pre[i]).status
                            == CollectorState::Healthy by {
                            assert(pre[i] == post[i]);
                        }
                    }
                }
            }
            all = all && is_healthy;
            copies.push(clone_status(c));
            k = k + 1;
        }
        proof {
            assert(self.collectors@.take(self.collectors@.len() as int) =~= self.collectors@);
        }
        let uptime: u64 = if now >= self.start_time {
            let wide: i128 = now as i128 - self.start_time as i128;
            wide as u64
        } else {
            0
        };
        HealthStatus {
            status: if all {
                HealthLevel::Healthy
            } else {
                HealthLevel::Degraded
            },
            timestamp: now,
            uptime_seconds: uptime,
            version,
            collectors: copies,
        }
    }
}

/// A field-for-field copy of one bookkeeping entry.
fn clone_status(c: &CollectorStatus) -> (r: CollectorStatus)
    ensures
        r == *c,
{
    CollectorStatus {
        name: c.name.clone(),
        status: c.status,
        last_update: c.last_update,
        error_count: c.error_count,
        last_error: match &c.last_error {
            Some(e) => Some(e.clone()),
            None => None,
        },
    }
}

/// The label a collector state is reported under.
pub fn collector_state_label(s: CollectorState) -> (r: String)
    ensures
        match s {
            CollectorState::Starting => r@ == "starting"@,
            CollectorState::Healthy => r@ == "healthy"@,
            CollectorState::Error => r@ == "error"@,
        },
{
    match s {
        CollectorState::Starting => "starting".to_owned(),
        CollectorState::Healthy => "healthy".to_owned(),
        CollectorState::Error => "error".to_owned(),
    }
}

/// The label a health level is reported under.
pub fn health_level_label(l: HealthLevel) -> (r: String)
    ensures
        match l {
            HealthLevel::Healthy => r@ == "healthy"@,
            HealthLevel::Degraded => r@ == "degraded"@,
        },
{
    match l {
        HealthLevel::Healthy => "healthy".to_owned(),
        HealthLevel::Degraded => "degraded".to_owned(),
    }
}

} // verus!
