//! Phase-by-phase timing of one request, in milliseconds.

use vstd::prelude::*;

verus! {

/// Windows of at most this many milliseconds are reported without a connect share.
pub const INSTANT_WINDOW_MS: u128 = 10;

/// Share of a longer window that is attributed to connecting, in percent.
pub const CONNECT_PERCENT: u128 = 40;

/// The connect estimate for a window between send and response headers:
/// nothing for a window of at most ten milliseconds, forty percent of it
/// (rounded down) otherwise.
pub open spec fn connect_share(window: nat) -> nat {
    if window > 10 {
        (window * 40) / 100
    } else {
        0
    }
}

/// What remains of the window once the connect estimate is taken out.
pub open spec fn first_byte_share(window: nat) -> nat {
    (window - connect_share(window)) as nat
}

/// The connect estimate never exceeds the window, and the two shares add up to it.
pub proof fn lemma_shares_partition(window: nat)
    ensures
        connect_share(window) <= window,
        connect_share(window) + first_byte_share(window) == window,
{
    if window > 10 {
        assert((window * 40) / 100 <= window) by (nonlinear_arith)
            requires
                window >= 0,
        ;
    }
}

/// Computes the connect estimate of a window without overflow on any input.
pub fn estimate_connect(window: u128) -> (connect: u128)
    ensures
        connect == connect_share(window as nat),
        connect <= window,
{
    if window > INSTANT_WINDOW_MS {
        let hundreds: u128 = window / 100;
        let rest: u128 = window % 100;
        proof {
            let w = window as int;
            let q = hundreds as int;
            let r = rest as int;
            assert(w == 100 * q + r && 0 <= r < 100 && q >= 0) by (nonlinear_arith)
                requires
                    w >= 0,
                    q == w / 100,
                    r == w % 100,
            ;
            assert((w * 40) / 100 == q * 40 + (r * 40) / 100) by (nonlinear_arith)
                requires
                    w == 100 * q + r,
                    0 <= r < 100,
            ;
            assert(q * 40 + (r * 40) / 100 <= w) by (nonlinear_arith)
                requires
                    w == 100 * q + r,
                    0 <= r < 100,
                    q >= 0,
            ;
        }
        hundreds * CONNECT_PERCENT + (rest * CONNECT_PERCENT) / 100
    } else {
        0
    }
}

/// How long each phase of a request took. All four fields are always present
/// and are zero where a phase never happened.
#[derive(Debug, Clone, Copy, PartialEq, Eq, Structural)]
pub struct TimingBreakdown {
    /// Estimated time to establish the connection.
    pub connect: u128,
    /// Time to the first byte, less the connect estimate.
    pub ttfb: u128,
    /// Time to read the response body.
    pub download: u128,
    /// Total duration, from the start of the call to its end.
    pub total: u128,
}

impl TimingBreakdown {
    /// The breakdown of a request that was answered: `window` elapsed between
    /// send and response headers, `download` while the body was read.
    pub open spec fn spec_measured(window: u128, download: u128, total: u128) -> TimingBreakdown {
        TimingBreakdown {
            connect: connect_share(window as nat) as u128,
            ttfb: first_byte_share(window as nat) as u128,
            download,
            total,
        }
    }

    /// The breakdown of a request that got no answer: only the total is known.
    pub open spec fn spec_failed(total: u128) -> TimingBreakdown {
        TimingBreakdown { connect: 0, ttfb: 0, download: 0, total }
    }

    /// True when every phase is zero, the total aside.
    pub open spec fn phases_zero(&self) -> bool {
        self.connect == 0 && self.ttfb == 0 && self.download == 0
    }

    /// Splits the measured window into connect and first-byte shares and keeps
    /// the download and total durations as measured.
    pub fn measured(window: u128, download: u128, total: u128) -> (timing: TimingBreakdown)
        ensures
            timing == Self::spec_measured(window, download, total),
            timing.connect + timing.ttfb == window,
            window <= 10 ==> timing.connect == 0 && timing.ttfb == window,
    {
        let connect = estimate_connect(window);
        proof {
            lemma_shares_partition(window as nat);
        }
        TimingBreakdown { connect, ttfb: window - connect, download, total }
    }

    /// The breakdown reported when the request failed after `total` milliseconds.
    pub fn failed(total: u128) -> (timing: TimingBreakdown)
        ensures
            timing == Self::spec_failed(total),
            timing.phases_zero(),
            timing.total == total,
    {
        TimingBreakdown { connect: 0, ttfb: 0, download: 0, total }
    }
}

impl Default for TimingBreakdown {
    fn default() -> (timing: TimingBreakdown)
        ensures
            timing == TimingBreakdown::spec_failed(0),
    {
        TimingBreakdown { connect: 0, ttfb: 0, download: 0, total: 0 }
    }
}

} // verus!
