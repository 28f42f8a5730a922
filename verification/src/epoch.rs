//! Epochs: fixed-length time windows, and how one relates to the present.

use vstd::prelude::*;

verus! {

/// The length of every epoch, in seconds.
#[derive(Copy, Clone, Eq, PartialEq, Debug, Structural)]
pub struct EpochParameters(pub(crate) u64);

/// One time window: the `index`-th window of `params.duration()` seconds
/// counted from the Unix epoch.
#[derive(Copy, Clone, Eq, PartialEq, Debug, Structural)]
pub struct Epoch {
    pub(crate) index: i64,
    pub(crate) params: EpochParameters,
}

/// How an epoch relates to the present moment.
#[derive(Copy, Clone, Eq, PartialEq, Debug, Structural)]
pub enum EpochState {
    /// Accepted, but not the current epoch: one before or one after it.
    Active,
    /// The current epoch.
    Primary,
    /// Two epochs behind the current one: accepted only as the source of a
    /// rollover.
    Rollover,
    /// Anything else.
    Invalid,
}

/// The index of the epoch of length `duration` seconds that contains the
/// moment `unix_time`: the quotient rounded towards minus infinity.
pub open spec fn epoch_index(unix_time: int, duration: int) -> int
    recommends
        duration > 0,
{
    unix_time / duration
}

/// The state of an epoch that lies `delta` epochs behind the current one.
pub open spec fn state_of_delta(delta: int) -> EpochState {
    if delta == 0 {
        EpochState::Primary
    } else if delta == 1 || delta == -1 {
        EpochState::Active
    } else if delta == 2 {
        EpochState::Rollover
    } else {
        EpochState::Invalid
    }
}

impl EpochParameters {
    /// The length of an epoch in seconds.
    pub closed spec fn duration(self) -> int {
        self.0 as int
    }

    /// Epochs of `seconds` seconds each, as a value of the logic.
    pub closed spec fn of_seconds(seconds: u64) -> EpochParameters {
        EpochParameters(seconds)
    }

    /// Epochs of `seconds` seconds each.
    pub fn new(seconds: u64) -> (params: EpochParameters)
        ensures
            params == EpochParameters::of_seconds(seconds),
            params.duration() == seconds,
    {
        EpochParameters(seconds)
    }

    /// The length of an epoch in seconds.
    pub fn seconds(&self) -> (seconds: u64)
        ensures
            seconds == self.duration(),
    {
        self.0
    }

    /// The epoch that contains the moment `unix_time`, given in seconds since
    /// the Unix epoch.
    pub fn epoch_at(&self, unix_time: i64) -> (epoch: Epoch)
        requires
            self.duration() > 0,
        ensures
            epoch.spec_params() == *self,
            epoch.spec_index() == epoch_index(unix_time as int, self.duration()),
    {
        let index: i64 = if self.0 > i64::MAX as u64 {
            proof {
                lemma_small_quotient(unix_time as int, self.0 as int);
            }
            if unix_time >= 0 {
                0
            } else {
                -1
            }
        } else {
            let d: i64 = self.0 as i64;
            if unix_time >= 0 {
                unix_time / d
            } else {
                // -(unix_time + 1) is non-negative and cannot overflow.
                let below: i64 = -(unix_time + 1);
                proof {
                    lemma_floor_of_negative(unix_time as int, d as int);
                }
                -(below / d) - 1
            }
        };
        Epoch { index, params: *self }
    }
}

/// The whole seconds that a duration holds, as `Duration::as_secs` counts
/// them.
pub uninterp spec fn whole_seconds(duration: std::time::Duration) -> u64;

/// `Duration::as_secs` of std: the number of whole seconds in the duration.
#[verifier::external_body]
fn duration_as_secs(duration: &std::time::Duration) -> (seconds: u64)
    ensures
        seconds == whole_seconds(*duration),
{
    duration.as_secs()
}

impl From<std::time::Duration> for EpochParameters {
    /// Epochs that last the whole seconds of `duration`.
    fn from(duration: std::time::Duration) -> (params: EpochParameters) {
        EpochParameters(duration_as_secs(&duration))
    }
}

impl vstd::std_specs::convert::FromSpecImpl<std::time::Duration> for EpochParameters {
    open spec fn obeys_from_spec() -> bool {
        true
    }

    open spec fn from_spec(duration: std::time::Duration) -> EpochParameters {
        EpochParameters::of_seconds(whole_seconds(duration))
    }
}

impl Epoch {
    /// The position of this epoch in the sequence of epochs.
    pub closed spec fn spec_index(self) -> int {
        self.index as int
    }

    /// The parameters this epoch was computed with.
    pub closed spec fn spec_params(self) -> EpochParameters {
        self.params
    }

    /// The epoch with the position `index` among the epochs of `params`.
    pub fn new(index: i64, params: EpochParameters) -> (epoch: Epoch)
        ensures
            epoch.spec_index() == index,
            epoch.spec_params() == params,
    {
        Epoch { index, params }
    }

    /// The position of this epoch in the sequence of epochs.
    pub fn index(&self) -> (index: i64)
        ensures
            index == self.spec_index(),
    {
        self.index
    }

    /// The parameters this epoch was computed with.
    pub fn params(&self) -> (params: EpochParameters)
        ensures
            params == self.spec_params(),
    {
        self.params
    }

    /// The state of this epoch at the moment `unix_time`, given in seconds
    /// since the Unix epoch.
    pub fn state_at(&self, unix_time: i64) -> (state: EpochState)
        requires
            self.spec_params().duration() > 0,
        ensures
            state == state_of_delta(
                epoch_index(unix_time as int, self.spec_params().duration()) - self.spec_index(),
            ),
    {
        let current = self.params.epoch_at(unix_time);
        let delta: i128 = current.index as i128 - self.index as i128;
        if delta == 0 {
            EpochState::Primary
        } else if delta == 1 || delta == -1 {
            EpochState::Active
        } else if delta == 2 {
            EpochState::Rollover
        } else {
            EpochState::Invalid
        }
    }
}

/// With a divisor larger than every `i64`, the quotient of an `i64` is 0 or -1.
proof fn lemma_small_quotient(t: int, d: int)
    requires
        d > i64::MAX,
        i64::MIN <= t <= i64::MAX,
    ensures
        t >= 0 ==> t / d == 0,
        t < 0 ==> t / d == -1,
{
    if t >= 0 {
        assert(t / d == 0) by (nonlinear_arith)
            requires
                0 <= t < d,
        ;
    } else {
        assert(t / d == -1) by (nonlinear_arith)
            requires
                -d <= t < 0,
        ;
    }
}

/// Rounding down a negative quotient, computed on non-negative operands.
proof fn lemma_floor_of_negative(t: int, d: int)
    requires
        t < 0,
        d > 0,
    ensures
        t / d == -((-(t + 1)) / d) - 1,
{
    let q = (-(t + 1)) / d;
    let r = (-(t + 1)) % d;
    vstd::arithmetic::div_mod::lemma_fundamental_div_mod(-(t + 1), d);
    vstd::arithmetic::div_mod::lemma_mod_bound(-(t + 1), d);
    assert(t == (-q - 1) * d + (d - 1 - r)) by (nonlinear_arith)
        requires
            -(t + 1) == d * q + r,
    ;
    vstd::arithmetic::div_mod::lemma_fundamental_div_mod_converse(t, d, -q - 1, d - 1 - r);
}

} // verus!
