//! Windowing of conditioned samples, channel by channel, and assembly of
//! the feature vector that the classifier reads.

use vstd::arithmetic::div_mod::{
    lemma_fundamental_div_mod, lemma_fundamental_div_mod_converse, lemma_mod_bound,
};
use vstd::prelude::*;

verus! {

/// Whether `n` is a power of two.
pub open spec fn is_power_of_two(n: nat) -> bool
    decreases n,
{
    n == 1 || (n >= 2 && n % 2 == 0 && is_power_of_two(n / 2))
}

/// Tells whether `n` is a power of two.
pub fn power_of_two(n: usize) -> (r: bool)
    ensures
        r == is_power_of_two(n as nat),
{
    if n == 0 {
        return false;
    }
    let mut m: usize = n;
    while m % 2 == 0
        invariant
            m >= 1,
            is_power_of_two(m as nat) == is_power_of_two(n as nat),
        decreases m,
    {
        m = m / 2;
    }
    m == 1
}

/// One push into a window that holds `buffered` of its `capacity` samples:
/// the number of samples held afterwards, and whether the push completed the
/// window.
pub open spec fn window_step(buffered: nat, capacity: nat) -> (nat, bool) {
    if buffered + 1 == capacity {
        (0, true)
    } else {
        (buffered + 1, false)
    }
}

/// The state after `pushes` pushes in turn into an empty extractor whose
/// window holds `capacity` samples over all channels: the number of samples
/// held, and the number of windows completed.
pub open spec fn after_pushes(pushes: nat, capacity: nat) -> (nat, nat)
    decreases pushes,
{
    if pushes == 0 {
        (0, 0)
    } else {
        let before = after_pushes((pushes - 1) as nat, capacity);
        let step = window_step(before.0, capacity);
        (step.0, if step.1 { before.1 + 1 } else { before.1 })
    }
}

/// Windows neither overlap nor lose a sample: after any number of pushes
/// in turn, one window has been completed for every `capacity` pushes, and
/// the pushes beyond the last complete window are held for the next one. So
/// a full round of pushes completes exactly one window, and the push after
/// it is the first sample of the next.
pub proof fn lemma_windowing(pushes: nat, capacity: nat)
    requires
        capacity >= 1,
    ensures
        after_pushes(pushes, capacity) == (pushes % capacity, pushes / capacity),
        after_pushes(capacity, capacity) == (0nat, 1nat),
        capacity >= 2 ==> after_pushes(capacity + 1, capacity) == (1nat, 1nat),
    decreases pushes,
{
    lemma_after_pushes(pushes, capacity);
    lemma_after_pushes(capacity, capacity);
    lemma_after_pushes(capacity + 1, capacity);
    lemma_fundamental_div_mod_converse(capacity as int, capacity as int, 1, 0);
    if capacity >= 2 {
        lemma_fundamental_div_mod_converse(capacity as int + 1, capacity as int, 1, 1);
    }
}

proof fn lemma_after_pushes(pushes: nat, capacity: nat)
    requires
        capacity >= 1,
    ensures
        after_pushes(pushes, capacity) == (pushes % capacity, pushes / capacity),
    decreases pushes,
{
    let c = capacity as int;
    if pushes == 0 {
        lemma_fundamental_div_mod_converse(0, c, 0, 0);
    } else {
        let n = pushes - 1;
        lemma_after_pushes(n as nat, capacity);
        let q = n / c;
        let r = n % c;
        lemma_fundamental_div_mod(n, c);
        lemma_mod_bound(n, c);
        if r + 1 == c {
            assert(n + 1 == (q + 1) * c + 0) by (nonlinear_arith)
                requires
                    n == c * q + r,
                    r + 1 == c,
            ;
            lemma_fundamental_div_mod_converse(n + 1, c, q + 1, 0);
        } else {
            assert(n + 1 == q * c + (r + 1)) by (nonlinear_arith)
                requires
                    n == c * q + r,
            ;
            lemma_fundamental_div_mod_converse(n + 1, c, q, r + 1);
        }
    }
}

/// Why an extractor was not made.
#[derive(Clone, Copy, Debug, PartialEq, Eq, Structural)]
pub enum WindowError {
    /// There is no channel to sample.
    NoChannel,
    /// The window length is below 2 or no power of two.
    WindowLength,
    /// The feature vector does not have as many magnitudes as the
    /// classifier has inputs.
    ModelMismatch,
}

/// The length of the feature vector: half the window length for each
/// channel.
pub open spec fn feature_len(channels: nat, window_len: nat) -> nat {
    channels * (window_len / 2)
}

/// What is wrong with the sizes of the pipeline, if anything; the first
/// fault found counts.
pub open spec fn window_fault(channels: usize, window_len: usize, model_inputs: usize) -> Option<
    WindowError,
> {
    if channels == 0 {
        Some(WindowError::NoChannel)
    } else if window_len < 2 || !is_power_of_two(window_len as nat) {
        Some(WindowError::WindowLength)
    } else if feature_len(channels as nat, window_len as nat) != model_inputs {
        Some(WindowError::ModelMismatch)
    } else {
        None
    }
}

/// What to do about one reading of a sensor.
#[derive(Clone, Copy, Debug, PartialEq, Eq, Structural)]
pub enum ReadAction {
    /// Take this sample.
    Use(u16),
    /// The reading failed: read once more in this tick.
    Retry,
}

/// The last good sample of one channel. A reading that fails is tried once
/// more in the same tick; if that fails too, the last good sample stands in,
/// so that the arm does not jerk on a glitch.
pub struct SampleHold {
    last: u16,
    retried: bool,
}

/// What a sample hold stands for.
pub struct HoldState {
    /// The last good sample; 0 before the first.
    pub last: u16,
    /// Whether the reading of this tick has failed once already.
    pub retried: bool,
}

impl View for SampleHold {
    type V = HoldState;

    closed spec fn view(&self) -> HoldState {
        HoldState { last: self.last, retried: self.retried }
    }
}

/// The hold after a reading, and what to do about the reading. A good
/// reading is used and remembered. The first failure of a tick asks for one
/// more reading; the second uses the sample that was remembered.
pub open spec fn hold_step(state: HoldState, reading: Option<u16>) -> (HoldState, ReadAction) {
    match reading {
        Some(sample) => (HoldState { last: sample, retried: false }, ReadAction::Use(sample)),
        None => if state.retried {
            (HoldState { last: state.last, retried: false }, ReadAction::Use(state.last))
        } else {
            (HoldState { last: state.last, retried: true }, ReadAction::Retry)
        },
    }
}

impl SampleHold {
    /// A hold that remembers the sample 0.
    pub fn new() -> (r: Self)
        ensures
            r@ == (HoldState { last: 0, retried: false }),
    {
        SampleHold { last: 0, retried: false }
    }

    /// Takes in one reading, `None` for a failed one, and says what to do.
    pub fn accept(&mut self, reading: Option<u16>) -> (r: ReadAction)
        ensures
            (final(self)@, r) == hold_step(old(self)@, reading),
    {
        match reading {
            Some(sample) => {
                self.last = sample;
                self.retried = false;
                ReadAction::Use(sample)
            },
            None => {
                if self.retried {
                    self.retried = false;
                    ReadAction::Use(self.last)
                } else {
                    self.retried = true;
                    ReadAction::Retry
                }
            },
        }
    }
}

/// What became of a pushed sample.
pub enum PushOutcome<T> {
    /// The sample was stored; the window is not complete yet.
    Buffered,
    /// The sample completed the window. The windows are handed out, one per
    /// channel in channel order, and the extractor starts an empty window.
    Full(Vec<Vec<T>>),
    /// The sample was not stored, because another channel is due. It is
    /// handed back.
    OutOfTurn(T),
}

/// Collects one window of samples per channel. The channels fill in
/// lockstep: each tick brings one sample for channel 0, then one for
/// channel 1, and so on, so one write position serves them all. Windows do
/// not overlap.
pub struct SpectralFeatureExtractor<T> {
    windows: Vec<Vec<T>>,
    window_len: usize,
    next_channel: usize,
}

impl<T> SpectralFeatureExtractor<T> {
    /// The number of channels.
    pub closed spec fn channels(&self) -> nat {
        self.windows@.len()
    }

    /// The number of samples in a complete window of one channel.
    pub closed spec fn window_len(&self) -> nat {
        self.window_len as nat
    }

    /// The channel whose sample is due next.
    pub closed spec fn next_channel(&self) -> nat {
        self.next_channel as nat
    }

    /// The samples stored so far for channel `c`, oldest first.
    pub closed spec fn window(&self, c: int) -> Seq<T> {
        self.windows@[c]@
    }

    /// The shared write position: the number of ticks of the current window
    /// for which every channel has its sample.
    pub closed spec fn position(&self) -> nat {
        self.windows@[self.windows@.len() - 1]@.len()
    }

    /// The number of samples stored in the current window, all channels
    /// together.
    pub open spec fn buffered(&self) -> nat {
        self.position() * self.channels() + self.next_channel()
    }

    /// The invariant of the extractor: at least one channel, a window length
    /// that is a power of two and at least 2, a window that is not complete,
    /// and channels in lockstep.
    pub closed spec fn wf(&self) -> bool {
        &&& self.windows@.len() >= 1
        &&& self.window_len >= 2
        &&& is_power_of_two(self.window_len as nat)
        &&& self.next_channel < self.windows@.len()
        &&& self.position() < self.window_len
        &&& forall|c: int|
            0 <= c < self.windows@.len() ==> (#[trigger] self.windows@[c])@.len()
                == self.position() + if c < self.next_channel { 1nat } else { 0nat }
    }

    /// In a valid extractor the channel that is due exists, the write
    /// position is inside the window, and each channel holds as many samples
    /// as the position says, one more where its sample of the running tick
    /// has arrived.
    pub proof fn lemma_lockstep(&self)
        requires
            self.wf(),
        ensures
            self.channels() >= 1,
            self.window_len() >= 2,
            is_power_of_two(self.window_len()),
            self.next_channel() < self.channels(),
            self.position() < self.window_len(),
            self.buffered() < self.window_len() * self.channels(),
            forall|c: int|
                0 <= c < self.channels() ==> (#[trigger] self.window(c)).len() == self.position()
                    + if c < self.next_channel() { 1nat } else { 0nat },
    {
        let p = self.position() as int;
        let n = self.window_len() as int;
        let k = self.channels() as int;
        assert(p * k + k <= n * k) by (nonlinear_arith)
            requires
                p + 1 <= n,
                k >= 1,
        ;
    }

    /// An extractor for `channels` channels and windows of `window_len`
    /// samples, with nothing stored. There must be a channel, and the window
    /// length must be a power of two and at least 2.
    pub fn new(channels: usize, window_len: usize) -> (r: Option<Self>)
        ensures
            r is Some <==> channels >= 1 && window_len >= 2 && is_power_of_two(window_len as nat),
            r matches Some(e) ==> {
                &&& e.wf()
                &&& e.channels() == channels
                &&& e.window_len() == window_len
                &&& e.next_channel() == 0
                &&& e.position() == 0
                &&& e.buffered() == 0
                &&& forall|c: int| 0 <= c < channels ==> (#[trigger] e.window(c)).len() == 0
            },
    {
        if channels == 0 || window_len < 2 || !power_of_two(window_len) {
            return None;
        }
        let windows = Self::empty_windows(channels);
        Some(SpectralFeatureExtractor { windows, window_len, next_channel: 0 })
    }

    fn empty_windows(channels: usize) -> (windows: Vec<Vec<T>>)
        ensures
            windows@.len() == channels,
            forall|c: int| 0 <= c < channels ==> (#[trigger] windows@[c])@.len() == 0,
    {
        let mut windows: Vec<Vec<T>> = Vec::new();
        let mut c: usize = 0;
        while c < channels
            invariant
                c <= channels,
                windows@.len() == c,
                forall|d: int| 0 <= d < c ==> (#[trigger] windows@[d])@.len() == 0,
            decreases channels - c,
        {
            windows.push(Vec::new());
            c += 1;
        }
        windows
    }

    /// An extractor whose feature vectors fit a classifier of
    /// `model_inputs` inputs: half the window length for each channel. A
    /// number of channels, a window length or a number of inputs that do not
    /// go together are refused; the first fault found counts.
    pub fn for_model(channels: usize, window_len: usize, model_inputs: usize) -> (r: Result<
        Self,
        WindowError,
    >)
        ensures
            match r {
                Ok(e) => {
                    &&& window_fault(channels, window_len, model_inputs) is None
                    &&& e.wf()
                    &&& e.channels() == channels
                    &&& e.window_len() == window_len
                    &&& e.next_channel() == 0
                    &&& e.position() == 0
                    &&& e.buffered() == 0
                    &&& forall|c: int| 0 <= c < channels ==> (#[trigger] e.window(c)).len() == 0
                },
                Err(fault) => window_fault(channels, window_len, model_inputs) == Some(fault),
            },
    {
        if channels == 0 {
            return Err(WindowError::NoChannel);
        }
        if window_len < 2 || !power_of_two(window_len) {
            return Err(WindowError::WindowLength);
        }
        let bins: usize = window_len / 2;
        assert(0 <= channels as int * bins as int <= 0xffff_ffff_ffff_ffff * 0xffff_ffff_ffff_ffff)
            by (nonlinear_arith)
            requires
                0 <= channels <= 0xffff_ffff_ffff_ffff,
                0 <= bins <= 0xffff_ffff_ffff_ffff,
        ;
        let features: u128 = (channels as u128) * (bins as u128);
        if features != model_inputs as u128 {
            return Err(WindowError::ModelMismatch);
        }
        match Self::new(channels, window_len) {
            Some(e) => Ok(e),
            None => Err(WindowError::WindowLength),
        }
    }

    /// The number of channels.
    pub fn channel_count(&self) -> (r: usize)
        ensures
            r == self.channels(),
    {
        self.windows.len()
    }

    /// The number of samples in a complete window of one channel.
    pub fn window_size(&self) -> (r: usize)
        ensures
            r == self.window_len(),
    {
        self.window_len
    }

    /// The channel whose sample is due next.
    pub fn due_channel(&self) -> (r: usize)
        ensures
            r == self.next_channel(),
    {
        self.next_channel
    }

    /// Stores `sample` for `channel`.
    ///
    /// A sample for a channel that is not due is handed back and nothing
    /// changes. Otherwise the sample is appended to the channel's window.
    /// Where that completes the window (the last channel receives its last
    /// sample) the windows are handed out and the extractor is empty again;
    /// else one more sample is stored than before.
    pub fn push(&mut self, sample: T, channel: usize) -> (r: PushOutcome<T>)
        requires
            old(self).wf(),
        ensures
            final(self).wf(),
            final(self).channels() == old(self).channels(),
            final(self).window_len() == old(self).window_len(),
            channel != old(self).next_channel() ==> {
                &&& r == PushOutcome::OutOfTurn(sample)
                &&& *final(self) == *old(self)
            },
            channel == old(self).next_channel() ==> (final(self).buffered(), r is Full)
                == window_step(old(self).buffered(), old(self).window_len() * old(self).channels()),
            channel == old(self).next_channel() && old(self).buffered() + 1 < old(self).window_len()
                * old(self).channels() ==> {
                &&& r is Buffered
                &&& final(self).buffered() == old(self).buffered() + 1
                &&& final(self).next_channel() == if channel + 1 < old(self).channels() {
                    channel + 1
                } else {
                    0
                }
                &&& final(self).position() == if channel + 1 < old(self).channels() {
                    old(self).position()
                } else {
                    old(self).position() + 1
                }
                &&& forall|c: int|
                    0 <= c < old(self).channels() ==> #[trigger] final(self).window(c) == if c
                        == channel {
                        old(self).window(c).push(sample)
                    } else {
                        old(self).window(c)
                    }
            },
            channel == old(self).next_channel() && old(self).buffered() + 1 == old(self).window_len()
                * old(self).channels() ==> {
                &&& r matches PushOutcome::Full(ws)
                &&& ws@.len() == old(self).channels()
                &&& forall|c: int|
                    0 <= c < old(self).channels() ==> {
                        &&& (#[trigger] ws@[c])@.len() == old(self).window_len()
                        &&& ws@[c]@ == if c == channel {
                            old(self).window(c).push(sample)
                        } else {
                            old(self).window(c)
                        }
                    }
                &&& final(self).buffered() == 0
                &&& final(self).next_channel() == 0
                &&& final(self).position() == 0
                &&& forall|c: int|
                    0 <= c < old(self).channels() ==> (#[trigger] final(self).window(c)).len() == 0
            },
    {
        let ghost p = old(self).position() as int;
        let ghost n = old(self).window_len() as int;
        let ghost k = old(self).channels() as int;
        let ghost c = old(self).next_channel() as int;
        let ghost held = p * k + c;
        let ghost capacity = n * k;
        proof {
            self.lemma_lockstep();
            Self::lemma_complete(p, n, k, c);
            assert(old(self).buffered() == held);
            assert(old(self).window_len() * old(self).channels() == capacity);
        }
        if channel != self.next_channel {
            return PushOutcome::OutOfTurn(sample);
        }
        let count: usize = self.windows.len();
        let ghost before = self.windows@;
        self.windows[channel].push(sample);
        assert(self.windows@.len() == count);
        assert(self.windows@[channel as int]@ == before[channel as int]@.push(sample));
        assert(forall|d: int| 0 <= d < count && d != channel ==> self.windows@[d] == before[d]);
        if channel + 1 < count {
            self.next_channel = channel + 1;
            proof {
                assert(self.position() == p);
                assert(self.channels() == k);
                Self::lemma_held(self.position() as int, self.channels() as int, p, k);
                assert(self.buffered() == held + 1);
                assert(held + 1 < capacity);
            }
            return PushOutcome::Buffered;
        }
        self.next_channel = 0;
        if self.windows[channel].len() < self.window_len {
            proof {
                assert(self.position() == p + 1);
                assert(self.channels() == k);
                Self::lemma_held(self.position() as int, self.channels() as int, p + 1, k);
                assert((p + 1) * k == p * k + k) by (nonlinear_arith);
                assert(self.buffered() == held + 1);
                assert(held + 1 < capacity);
            }
            return PushOutcome::Buffered;
        }
        let mut full = Self::empty_windows(count);
        core::mem::swap(&mut self.windows, &mut full);
        proof {
            assert(p + 1 == n);
            assert(held + 1 == capacity);
            assert(self.position() == 0);
            assert(self.channels() == k);
            Self::lemma_held(self.position() as int, self.channels() as int, 0, k);
            assert(0 * k == 0) by (nonlinear_arith);
            assert(self.buffered() == 0);
        }
        PushOutcome::Full(full)
    }

    /// Equal factors give equal products.
    proof fn lemma_held(position: int, channels: int, p: int, k: int)
        requires
            position == p,
            channels == k,
        ensures
            position * channels == p * k,
    {
    }

    /// A push completes the window exactly when it brings the last sample
    /// of the last channel.
    proof fn lemma_complete(p: int, n: int, k: int, c: int)
        requires
            0 <= p < n,
            0 <= c < k,
        ensures
            (p * k + c + 1 == n * k) <==> (c == k - 1 && p + 1 == n),
            p * k + c + 1 <= n * k,
    {
        assert(p * k + k <= n * k) by (nonlinear_arith)
            requires
                p + 1 <= n,
                k >= 1,
        ;
        if p + 1 < n {
            assert(p * k + k + k <= n * k) by (nonlinear_arith)
                requires
                    p + 2 <= n,
                    k >= 1,
            ;
        } else {
            assert(p * k + k == n * k) by (nonlinear_arith)
                requires
                    p + 1 == n,
            ;
        }
    }
}

/// The feature vector made of the channels' magnitude spectra, in channel
/// order: the magnitude of bin `i` of channel `c` stands at `c * bins + i`.
pub open spec fn is_concatenation(features: Seq<u32>, spectra: Seq<Vec<u32>>, bins: nat) -> bool {
    &&& features.len() == spectra.len() * bins
    &&& forall|c: int, i: int|
        0 <= c < spectra.len() && 0 <= i < bins ==> features[c * bins + i] == #[trigger] spectra[c]@[i]
}

/// The feature vector of spectra of `bins` magnitudes each: the spectra
/// one after the other, in channel order.
pub open spec fn concatenation(spectra: Seq<Vec<u32>>, bins: nat) -> Seq<u32> {
    Seq::new(spectra.len() * bins, |k: int| spectra[k / bins as int]@[k % bins as int])
}

/// A sequence that holds each magnitude at its place is the feature
/// vector.
pub proof fn lemma_concatenation(features: Seq<u32>, spectra: Seq<Vec<u32>>, bins: nat)
    requires
        is_concatenation(features, spectra, bins),
    ensures
        features == concatenation(spectra, bins),
{
    let b = bins as int;
    let n = spectra.len() as int;
    assert forall|k: int| 0 <= k < n * b implies features[k] == concatenation(spectra, bins)[k] by {
        assert(b > 0) by (nonlinear_arith)
            requires
                0 <= k < n * b,
                n >= 0,
                b >= 0,
        ;
        lemma_fundamental_div_mod(k, b);
        lemma_mod_bound(k, b);
        let c = k / b;
        let i = k % b;
        assert(0 <= c < n) by (nonlinear_arith)
            requires
                k == b * c + i,
                0 <= i < b,
                0 <= k < n * b,
        ;
        assert(features[c * b + i] == spectra[c]@[i]);
        assert(c * b + i == k) by (nonlinear_arith)
            requires
                k == b * c + i,
        ;
    }
    assert(features =~= concatenation(spectra, bins));
}

/// Whether every spectrum has exactly `bins` magnitudes.
pub open spec fn all_of_length(spectra: Seq<Vec<u32>>, bins: nat) -> bool {
    forall|c: int| 0 <= c < spectra.len() ==> (#[trigger] spectra[c])@.len() == bins
}

/// Joins the magnitude spectra of the channels, in channel order, into one
/// feature vector. Each channel must bring exactly `bins` magnitudes (half
/// the window length); if one does not, there is no feature vector.
pub fn concat_spectra(spectra: &Vec<Vec<u32>>, bins: usize) -> (r: Option<Vec<u32>>)
    ensures
        r is Some <==> all_of_length(spectra@, bins as nat),
        r matches Some(features) ==> features@ == concatenation(spectra@, bins as nat),
{
    let count: usize = spectra.len();
    let mut c: usize = 0;
    while c < count
        invariant
            count == spectra@.len(),
            c <= count,
            forall|d: int| 0 <= d < c ==> (#[trigger] spectra@[d])@.len() == bins,
        decreases count - c,
    {
        if spectra[c].len() != bins {
            return None;
        }
        c += 1;
    }
    let mut features: Vec<u32> = Vec::new();
    c = 0;
    while c < count
        invariant
            count == spectra@.len(),
            c <= count,
            all_of_length(spectra@, bins as nat),
            is_concatenation(features@, spectra@.take(c as int), bins as nat),
        decreases count - c,
    {
        let ghost done = features@;
        let mut i: usize = 0;
        while i < bins
            invariant
                count == spectra@.len(),
                c < count,
                i <= bins,
                spectra@[c as int]@.len() == bins,
                done.len() == c * bins,
                features@.len() == done.len() + i,
                forall|j: int| 0 <= j < done.len() ==> features@[j] == done[j],
                forall|j: int| 0 <= j < i ==> features@[done.len() + j] == spectra@[c as int]@[j],
            decreases bins - i,
        {
            features.push(spectra[c][i]);
            i += 1;
        }
        proof {
            let k = c as int;
            let b = bins as int;
            assert((k + 1) * b == k * b + b) by (nonlinear_arith);
            assert forall|d: int, j: int| 0 <= d < k + 1 && 0 <= j < b implies features@[d * b + j]
                == #[trigger] spectra@.take(k + 1)[d]@[j] by {
                if d < k {
                    assert(d * b + b <= k * b) by (nonlinear_arith)
                        requires
                            d + 1 <= k,
                            b >= 0,
                    ;
                    assert(done[d * b + j] == spectra@.take(k)[d]@[j]);
                }
            }
        }
        c += 1;
    }
    proof {
        assert(spectra@.take(count as int) =~= spectra@);
        lemma_concatenation(features@, spectra@, bins as nat);
    }
    Some(features)
}

/// The least and the greatest value of `values`.
pub open spec fn is_range_of(values: Seq<u32>, low: u32, high: u32) -> bool {
    &&& forall|i: int| 0 <= i < values.len() ==> low <= #[trigger] values[i] <= high
    &&& exists|i: int| 0 <= i < values.len() && values[i] == low
    &&& exists|i: int| 0 <= i < values.len() && values[i] == high
}

/// The least and the greatest magnitude of a feature vector; none for an
/// empty one.
pub fn feature_range(features: &Vec<u32>) -> (r: Option<(u32, u32)>)
    ensures
        r is Some <==> features@.len() > 0,
        r matches Some((low, high)) ==> is_range_of(features@, low, high),
{
    if features.len() == 0 {
        return None;
    }
    let mut low: u32 = features[0];
    let mut high: u32 = features[0];
    let ghost mut at_low: int = 0;
    let ghost mut at_high: int = 0;
    let mut i: usize = 1;
    while i < features.len()
        invariant
            1 <= i <= features@.len(),
            0 <= at_low < i,
            0 <= at_high < i,
            features@[at_low] == low,
            features@[at_high] == high,
            forall|j: int| 0 <= j < i ==> low <= #[trigger] features@[j] <= high,
        decreases features@.len() - i,
    {
        let v: u32 = features[i];
        if v < low {
            low = v;
            proof {
                at_low = i as int;
            }
        }
        if v > high {
            high = v;
            proof {
                at_high = i as int;
            }
        }
        i += 1;
    }
    Some((low, high))
}

/// How a feature vector is brought into the range from 0 to 1 before it is
/// classified.
#[derive(Clone, Copy, Debug, PartialEq, Eq, Structural)]
pub enum Normalization {
    /// Every magnitude is the same, or there is none: the vector has no
    /// spread to scale by, and every normalised value is 0.
    Flat,
    /// Each magnitude `x` becomes `(x - min) / span`; `span` is not 0.
    Scale { min: u32, span: u32 },
}

/// The min-max normalisation of `features`: by its least value and the
/// distance to its greatest, or flat where that distance is 0.
pub open spec fn normalization_spec(features: Seq<u32>, plan: Normalization) -> bool {
    match plan {
        Normalization::Flat => forall|i: int, j: int|
            0 <= i < features.len() && 0 <= j < features.len() ==> features[i] == features[j],
        Normalization::Scale { min, span } => {
            &&& span > 0
            &&& min + span <= u32::MAX
            &&& is_range_of(features, min, (min + span) as u32)
        },
    }
}

/// Chooses the min-max normalisation of a feature vector. A vector without
/// spread, which would be divided by zero, is declared flat instead.
pub fn plan_normalization(features: &Vec<u32>) -> (plan: Normalization)
    ensures
        normalization_spec(features@, plan),
{
    match feature_range(features) {
        None => Normalization::Flat,
        Some((low, high)) => {
            if low == high {
                Normalization::Flat
            } else {
                Normalization::Scale { min: low, span: high - low }
            }
        },
    }
}

} // verus!
