//! Audio sources, the batching of their samples, and the debug recordings.

use vstd::prelude::*;
use vstd::string::*;

use crate::json::Json;
use crate::paths::Platform;
use crate::text::decimal_text;

verus! {

use crate::json::{JsonView, unsigned_number};
use crate::text::decimal;

/// The sample rate that sessions are fed with.
pub const TARGET_SAMPLE_RATE: u32 = 16_000;

/// The length of a batch of audio, in milliseconds.
pub const TARGET_BATCH_DURATION_MS: u64 = 40;

/// Nanoseconds in a second.
pub const NANOS_PER_SECOND: u64 = 1_000_000_000;

/// Where audio comes from.
#[derive(Debug, Clone, Copy, PartialEq, Eq, Hash, Structural)]
pub enum SourceKind {
    Microphone,
    SystemAudio,
}

/// The source in running text.
pub open spec fn source_title(source: SourceKind) -> Seq<char> {
    match source {
        SourceKind::Microphone => "microphone"@,
        SourceKind::SystemAudio => "system audio"@,
    }
}

/// The source in file names.
pub open spec fn source_slug(source: SourceKind) -> Seq<char> {
    match source {
        SourceKind::Microphone => "microphone"@,
        SourceKind::SystemAudio => "system-audio"@,
    }
}

impl SourceKind {
    /// The source in running text.
    pub fn title(self) -> (text: &'static str)
        ensures
            text@ == source_title(self),
    {
        match self {
            SourceKind::Microphone => "microphone",
            SourceKind::SystemAudio => "system audio",
        }
    }

    /// The source in a list to choose from.
    pub fn prompt_label(self) -> (text: &'static str)
        ensures
            text@ == match self {
                SourceKind::Microphone => "Microphone"@,
                SourceKind::SystemAudio => "System audio"@,
            },
    {
        match self {
            SourceKind::Microphone => "Microphone",
            SourceKind::SystemAudio => "System audio",
        }
    }

    /// The source in file names.
    pub fn debug_slug(self) -> (text: &'static str)
        ensures
            text@ == source_slug(self),
    {
        match self {
            SourceKind::Microphone => "microphone",
            SourceKind::SystemAudio => "system-audio",
        }
    }
}

/// Whether `source` is among `sources`.
pub fn has_source(sources: &Vec<SourceKind>, source: SourceKind) -> (found: bool)
    ensures
        found == sources@.contains(source),
{
    let mut i: usize = 0;
    while i < sources.len()
        invariant
            i <= sources@.len(),
            forall|k: int| 0 <= k < i ==> sources@[k] != source,
        decreases sources@.len() - i,
    {
        if sources[i] == source {
            assert(sources@[i as int] == source);
            return true;
        }
        i += 1;
    }
    false
}

/// The sources that can be captured on a platform.
pub open spec fn sources_on(platform: Platform) -> Seq<SourceKind> {
    match platform {
        Platform::MacOs => seq![SourceKind::Microphone, SourceKind::SystemAudio],
        _ => seq![SourceKind::Microphone],
    }
}

/// The sources that can be captured on `platform`.
pub fn available_sources(platform: Platform) -> (sources: Vec<SourceKind>)
    ensures
        sources@ == sources_on(platform),
{
    let mut sources: Vec<SourceKind> = Vec::new();
    sources.push(SourceKind::Microphone);
    match platform {
        Platform::MacOs => sources.push(SourceKind::SystemAudio),
        _ => {},
    }
    assert(sources@ == sources_on(platform));
    sources
}

/// What is said of a source that cannot be captured.
pub open spec fn unsupported_source_text(source: SourceKind) -> Seq<char> {
    match source {
        SourceKind::Microphone => "microphone capture is unavailable on this platform"@,
        SourceKind::SystemAudio => "system audio capture is only supported on macOS"@,
    }
}

/// What is said of a source that cannot be captured.
pub fn unsupported_source_message(source: SourceKind) -> (text: &'static str)
    ensures
        text@ == unsupported_source_text(source),
{
    match source {
        SourceKind::Microphone => "microphone capture is unavailable on this platform",
        SourceKind::SystemAudio => "system audio capture is only supported on macOS",
    }
}

/// A source that cannot be captured on the platform.
#[derive(Debug, Clone, Copy, PartialEq, Eq, Structural)]
pub struct UnsupportedSource {
    pub source: SourceKind,
}

impl UnsupportedSource {
    /// The error in words.
    pub fn message(&self) -> (text: String)
        ensures
            text@ == unsupported_source_text(self.source),
    {
        unsupported_source_message(self.source).to_owned()
    }
}

/// Whether every source can be captured on the platform, or else the first that cannot.
pub open spec fn support_error(platform: Platform, sources: Seq<SourceKind>) -> Option<SourceKind>
    decreases sources.len(),
{
    if sources.len() == 0 {
        None
    } else if !sources_on(platform).contains(sources[0]) {
        Some(sources[0])
    } else {
        support_error(platform, sources.drop_first())
    }
}

/// Fails on the first source that cannot be captured on `platform`.
pub fn ensure_sources_supported(platform: Platform, sources: &Vec<SourceKind>) -> (result: Result<
    (),
    UnsupportedSource,
>)
    ensures
        match result {
            Ok(()) => support_error(platform, sources@) is None,
            Err(error) => support_error(platform, sources@) == Some(error.source),
        },
{
    let available = available_sources(platform);
    let mut i: usize = 0;
    assert(sources@.skip(0) == sources@);
    while i < sources.len()
        invariant
            i <= sources@.len(),
            available@ == sources_on(platform),
            support_error(platform, sources@) == support_error(platform, sources@.skip(i as int)),
        decreases sources@.len() - i,
    {
        assert(sources@.skip(i as int).drop_first() == sources@.skip(i + 1));
        if !has_source(&available, sources[i]) {
            return Err(UnsupportedSource { source: sources[i] });
        }
        i += 1;
    }
    Ok(())
}

/// Sources are accepted exactly when each of them can be captured on the platform.
pub proof fn law_support_is_of_every_source(platform: Platform, sources: Seq<SourceKind>)
    ensures
        support_error(platform, sources) is None <==> forall|i: int|
            0 <= i < sources.len() ==> sources_on(platform).contains(#[trigger] sources[i]),
        support_error(platform, sources) matches Some(source) ==> sources.contains(source)
            && !sources_on(platform).contains(source),
    decreases sources.len(),
{
    if sources.len() > 0 {
        let rest = sources.drop_first();
        law_support_is_of_every_source(platform, rest);
        assert forall|i: int| 0 <= i < rest.len() implies rest[i] == sources[i + 1] by {}
        assert(forall|i: int| 0 < i < sources.len() ==> sources[i] == rest[i - 1]);
    }
}

/// The length of `count` samples at `rate`, in nanoseconds: rounded down, and cut off where
/// the product with the nanoseconds of a second leaves 64 bits.
pub open spec fn sample_nanos(count: u64, rate: u32) -> u64 {
    let product = if count * NANOS_PER_SECOND > u64::MAX {
        u64::MAX as int
    } else {
        count * NANOS_PER_SECOND
    };
    (product / (if rate == 0 {
        1int
    } else {
        rate as int
    })) as u64
}

/// The length of `sample_count` samples, in nanoseconds.
pub fn duration_from_samples(sample_count: u64, sample_rate: u32) -> (nanos: u64)
    ensures
        nanos == sample_nanos(sample_count, sample_rate),
{
    if sample_count == 0 {
        assert(0int / (if sample_rate == 0 { 1int } else { sample_rate as int }) == 0)
            by (nonlinear_arith);
        return 0;
    }
    let rate: u64 = if sample_rate == 0 {
        1
    } else {
        sample_rate as u64
    };
    let product: u64 = match sample_count.checked_mul(NANOS_PER_SECOND) {
        Some(product) => product,
        None => u64::MAX,
    };
    assert(0 <= product as int / rate as int <= product) by (nonlinear_arith)
        requires
            rate >= 1,
    ;
    product / rate
}

/// Samples that follow each other, with the time at which the first was heard.
///
/// Times are nanoseconds on a clock that the caller chooses.
#[derive(Debug)]
pub struct AudioBatch<S> {
    pub samples: Vec<S>,
    pub started_at: i128,
    pub duration: u64,
}

/// A batch, and whether anything was heard in it.
#[derive(Debug, Clone)]
pub struct AudioChunk<S> {
    pub samples: Vec<S>,
    pub started_at: i128,
    pub duration: u64,
    pub has_activity: bool,
}

impl<S> AudioBatch<S> {
    /// The batch with what was found of its loudness.
    pub fn with_activity(self, has_activity: bool) -> (chunk: AudioChunk<S>)
        ensures
            chunk.samples == self.samples,
            chunk.started_at == self.started_at,
            chunk.duration == self.duration,
            chunk.has_activity == has_activity,
    {
        AudioChunk {
            samples: self.samples,
            started_at: self.started_at,
            duration: self.duration,
            has_activity,
        }
    }
}

/// The samples of the batches, one after the other.
pub open spec fn batched_samples<S>(batches: Seq<AudioBatch<S>>) -> Seq<S>
    decreases batches.len(),
{
    if batches.len() == 0 {
        Seq::empty()
    } else {
        batched_samples(batches.drop_last()) + batches.last().samples@
    }
}

/// `count` more samples on a counter that stops at its largest value.
pub open spec fn counted(emitted: u64, count: nat) -> u64 {
    if emitted + count > u64::MAX {
        u64::MAX
    } else {
        (emitted + count) as u64
    }
}

/// The samples counted before each of several batches of `size` samples.
pub open spec fn counted_batches(emitted: u64, size: nat, batches: nat) -> u64
    decreases batches,
{
    if batches == 0 {
        emitted
    } else {
        counted(counted_batches(emitted, size, (batches - 1) as nat), size)
    }
}

/// Collects samples into batches of one size.
#[derive(Debug)]
pub struct AudioChunkBatcher<S> {
    sample_rate: u32,
    target_samples: usize,
    buffered: Vec<S>,
    stream_started_at: Option<i128>,
    emitted_samples: u64,
}

/// The number of samples in a batch: at least one.
pub open spec fn batch_size(sample_rate: u32, duration_ms: u64) -> int {
    let size = sample_rate * duration_ms / 1000;
    if size < 1 {
        1
    } else {
        size
    }
}

impl<S: Copy> AudioChunkBatcher<S> {
    /// The samples that wait for their batch to fill up.
    pub closed spec fn buffered(self) -> Seq<S> {
        self.buffered@
    }

    /// The number of samples in a batch.
    pub closed spec fn target(self) -> nat {
        self.target_samples as nat
    }

    /// The sample rate, which is never 0.
    pub closed spec fn rate(self) -> u32 {
        self.sample_rate
    }

    /// The number of samples that were handed out.
    pub closed spec fn emitted(self) -> u64 {
        self.emitted_samples
    }

    /// When the first sample was heard, once there was one.
    pub closed spec fn stream_start(self) -> Option<i128> {
        self.stream_started_at
    }

    /// Batches hold at least one sample, a full batch never waits, and where samples wait it
    /// is known when the stream began, on a clock of 64 bits.
    pub open spec fn wf(self) -> bool {
        &&& self.rate() > 0
        &&& self.target() > 0
        &&& self.buffered().len() < self.target()
        &&& self.buffered().len() > 0 ==> self.stream_start() is Some
        &&& self.stream_start() matches Some(start) ==> i64::MIN - u64::MAX <= start <= i64::MAX
    }

    /// Whether this is a batcher for batches of `duration_ms` milliseconds at `sample_rate` that
    /// has taken nothing in.
    pub open spec fn is_new(self, sample_rate: u32, duration_ms: u64) -> bool {
        &&& self.wf()
        &&& self.buffered() == Seq::<S>::empty()
        &&& self.target() == batch_size(sample_rate, duration_ms)
        &&& self.rate() == if sample_rate == 0 {
            1
        } else {
            sample_rate
        }
        &&& self.emitted() == 0
        &&& self.stream_start() is None
    }

    /// Whether taking in `input`, received by `received_at`, makes this batcher `after` and hands
    /// out `batches`: full ones, that with what then waits hold what waited and the input.
    pub open spec fn takes_in(
        self,
        input: Seq<S>,
        received_at: i64,
        batches: Seq<AudioBatch<S>>,
        after: Self,
    ) -> bool {
        &&& after.wf()
        &&& after.target() == self.target()
        &&& after.rate() == self.rate()
        &&& batched_samples(batches) + after.buffered() == self.buffered() + input
        &&& forall|i: int|
            0 <= i < batches.len() ==> (#[trigger] batches[i]).samples@.len() == self.target()
        &&& after.stream_start() == if self.stream_start() is None && input.len() > 0 {
            Some((received_at - sample_nanos(counted(0, input.len()), self.rate())) as i128)
        } else {
            self.stream_start()
        }
        &&& forall|i: int|
            0 <= i < batches.len() ==> after.is_next_batch(
                #[trigger] batches[i],
                counted_batches(self.emitted(), self.target(), i as nat),
            )
        &&& after.emitted() == counted_batches(self.emitted(), self.target(), batches.len())
    }

    /// Whether flushing makes this batcher `after` and hands out `batch`: what waited, if
    /// anything did.
    pub open spec fn flushes(self, batch: Option<AudioBatch<S>>, after: Self) -> bool {
        &&& after.wf()
        &&& after.buffered() == Seq::<S>::empty()
        &&& after.target() == self.target()
        &&& after.rate() == self.rate()
        &&& after.stream_start() == self.stream_start()
        &&& match batch {
            Some(batch) => {
                &&& self.buffered().len() > 0
                &&& batch.samples@ == self.buffered()
                &&& after.is_next_batch(batch, self.emitted())
                &&& after.emitted() == counted(self.emitted(), self.buffered().len())
            },
            None => {
                &&& self.buffered().len() == 0
                &&& after.emitted() == self.emitted()
            },
        }
    }

    /// A batcher for batches of `duration_ms` milliseconds at `sample_rate`.
    pub fn new(sample_rate: u32, duration_ms: u64) -> (batcher: Self)
        requires
            batch_size(sample_rate, duration_ms) <= usize::MAX,
        ensures
            batcher.is_new(sample_rate, duration_ms),
    {
        assert(0 <= sample_rate * duration_ms <= 0xffff_ffff * 0xffff_ffff_ffff_ffff)
            by (nonlinear_arith);
        let size: u128 = sample_rate as u128 * duration_ms as u128 / 1000;
        let target_samples: usize = if size < 1 {
            1
        } else {
            size as usize
        };
        AudioChunkBatcher {
            sample_rate: if sample_rate == 0 {
                1
            } else {
                sample_rate
            },
            target_samples,
            buffered: Vec::new(),
            stream_started_at: None,
            emitted_samples: 0,
        }
    }

    /// Whether `batch` is the next batch of a stream that began at `start`, after `emitted`
    /// samples: it starts where those end, and lasts as long as its samples do.
    pub open spec fn is_next_batch(self, batch: AudioBatch<S>, emitted: u64) -> bool {
        &&& self.stream_start() matches Some(start) && batch.started_at == start + sample_nanos(
            emitted,
            self.rate(),
        )
        &&& batch.duration == sample_nanos(counted(0, batch.samples@.len()), self.rate())
    }

    fn build_chunk(&mut self, samples: Vec<S>) -> (batch: AudioBatch<S>)
        requires
            old(self).stream_start() matches Some(start) && i64::MIN - u64::MAX <= start
                <= i64::MAX,
        ensures
            final(self).buffered() == old(self).buffered(),
            final(self).target() == old(self).target(),
            final(self).rate() == old(self).rate(),
            final(self).stream_start() == old(self).stream_start(),
            final(self).emitted() == counted(old(self).emitted(), samples@.len()),
            batch.samples@ == samples@,
            final(self).is_next_batch(batch, old(self).emitted()),
    {
        let start: i128 = match self.stream_started_at {
            Some(start) => start,
            None => 0,
        };
        let started_at: i128 = start + duration_from_samples(
            self.emitted_samples,
            self.sample_rate,
        ) as i128;
        let count: u64 = samples.len() as u64;
        let duration = duration_from_samples(count, self.sample_rate);
        self.emitted_samples = self.emitted_samples.saturating_add(count);
        AudioBatch { samples, started_at, duration }
    }

    /// Takes in samples that were all received by `received_at`, and hands out the batches
    /// that are now full.
    pub fn push(&mut self, input: &Vec<S>, received_at: i64) -> (batches: Vec<AudioBatch<S>>)
        requires
            old(self).wf(),
            old(self).buffered().len() + input@.len() <= usize::MAX,
        ensures
            old(self).takes_in(input@, received_at, batches@, *final(self)),
    {
        let mut batches: Vec<AudioBatch<S>> = Vec::new();
        if input.len() == 0 {
            assert(batched_samples(batches@) + self.buffered() == self.buffered() + input@);
            return batches;
        }
        if self.stream_started_at.is_none() {
            let length = duration_from_samples(input.len() as u64, self.sample_rate);
            self.stream_started_at = Some(received_at as i128 - length as i128);
        }
        let ghost all = self.buffered@ + input@;
        let mut i: usize = 0;
        while i < input.len()
            invariant
                i <= input@.len(),
                self.buffered@ == old(self).buffered() + input@.take(i as int),
                self.target() == old(self).target(),
                self.rate() == old(self).rate(),
                self.emitted() == old(self).emitted(),
                self.stream_start() is Some,
                self.stream_start() == if old(self).stream_start() is None {
                    Some(
                        (received_at - sample_nanos(
                            counted(0, input@.len()),
                            old(self).rate(),
                        )) as i128,
                    )
                } else {
                    old(self).stream_start()
                },
                old(self).wf(),
            decreases input@.len() - i,
        {
            assert(input@.take(i + 1) == input@.take(i as int).push(input@[i as int]));
            self.buffered.push(input[i]);
            i += 1;
        }
        assert(input@.take(input@.len() as int) == input@);
        assert(self.buffered@ == all);
        assert(batched_samples(batches@) + self.buffered@ == all);
        while self.buffered.len() >= self.target_samples
            invariant
                self.target() == old(self).target(),
                self.target() > 0,
                self.rate() == old(self).rate(),
                self.rate() > 0,
                self.stream_start() is Some,
                self.stream_start() == if old(self).stream_start() is None {
                    Some(
                        (received_at - sample_nanos(
                            counted(0, input@.len()),
                            old(self).rate(),
                        )) as i128,
                    )
                } else {
                    old(self).stream_start()
                },
                old(self).wf(),
                batched_samples(batches@) + self.buffered@ == all,
                self.emitted() == counted_batches(
                    old(self).emitted(),
                    old(self).target(),
                    batches@.len(),
                ),
                forall|k: int|
                    0 <= k < batches@.len() ==> (#[trigger] batches@[k]).samples@.len()
                        == old(self).target(),
                forall|k: int|
                    0 <= k < batches@.len() ==> self.is_next_batch(
                        #[trigger] batches@[k],
                        counted_batches(old(self).emitted(), old(self).target(), k as nat),
                    ),
            decreases self.buffered@.len(),
        {
            let ghost done = batches@;
            let ghost waiting = self.buffered@;
            let (samples, remainder) = split_samples(&self.buffered, self.target_samples);
            self.buffered = remainder;
            let batch = self.build_chunk(samples);
            batches.push(batch);
            proof {
                assert(batches@.drop_last() == done);
                assert(samples@ + self.buffered@ == waiting);
                assert(batched_samples(batches@) + self.buffered@ == batched_samples(done)
                    + waiting);
            }
        }
        batches
    }

    /// Hands out the samples that wait, as a last batch.
    pub fn flush_audio(&mut self) -> (batch: Option<AudioBatch<S>>)
        requires
            old(self).wf(),
        ensures
            old(self).flushes(batch, *final(self)),
    {
        if self.buffered.len() == 0 {
            assert(self.buffered@ == Seq::<S>::empty());
            return None;
        }
        let mut samples: Vec<S> = Vec::new();
        std::mem::swap(&mut samples, &mut self.buffered);
        let batch = self.build_chunk(samples);
        Some(batch)
    }
}

/// What several inputs hold, one after the other.
pub open spec fn strung<T>(parts: Seq<Seq<T>>) -> Seq<T>
    decreases parts.len(),
{
    if parts.len() == 0 {
        Seq::empty()
    } else {
        strung(parts.drop_last()) + parts.last()
    }
}

/// Whether the batcher `states[0]` takes the inputs in one after the other, passing through
/// `states` and handing out `batches`, a list for each input.
pub open spec fn takes_in_all<S: Copy>(
    states: Seq<AudioChunkBatcher<S>>,
    inputs: Seq<Seq<S>>,
    times: Seq<i64>,
    batches: Seq<Seq<AudioBatch<S>>>,
) -> bool {
    &&& states.len() == inputs.len() + 1
    &&& times.len() == inputs.len()
    &&& batches.len() == inputs.len()
    &&& forall|i: int|
        0 <= i < inputs.len() ==> (#[trigger] states[i]).takes_in(
            inputs[i],
            times[i],
            batches[i],
            states[i + 1],
        )
}

proof fn lemma_batched_samples_of_both<S>(first: Seq<AudioBatch<S>>, second: Seq<AudioBatch<S>>)
    ensures
        batched_samples(first + second) == batched_samples(first) + batched_samples(second),
    decreases second.len(),
{
    if second.len() == 0 {
        assert(first + second == first);
        assert(batched_samples(second) == Seq::<S>::empty());
    } else {
        lemma_batched_samples_of_both(first, second.drop_last());
        assert((first + second).drop_last() == first + second.drop_last());
        assert((first + second).last() == second.last());
    }
}

proof fn lemma_batched_length<S>(batches: Seq<AudioBatch<S>>, size: nat)
    requires
        forall|i: int| 0 <= i < batches.len() ==> (#[trigger] batches[i]).samples@.len() == size,
    ensures
        batched_samples(batches).len() == batches.len() * size,
    decreases batches.len(),
{
    if batches.len() > 0 {
        let before = batches.drop_last();
        assert forall|i: int| 0 <= i < before.len() implies (#[trigger] before[i]).samples@.len()
            == size by {
            assert(before[i] == batches[i]);
        }
        lemma_batched_length(before, size);
        assert(batches.last() == batches[batches.len() - 1]);
        assert(batches.len() * size == before.len() * size + size) by (nonlinear_arith)
            requires
                batches.len() == before.len() + 1,
        ;
    }
}

/// What holds once some inputs were taken in.
#[verifier::spinoff_prover]
#[verifier::rlimit(40)]
proof fn lemma_batching_so_far<S: Copy>(
    states: Seq<AudioChunkBatcher<S>>,
    inputs: Seq<Seq<S>>,
    times: Seq<i64>,
    batches: Seq<Seq<AudioBatch<S>>>,
)
    requires
        states.len() > 0,
        states[0].wf(),
        states[0].buffered() == Seq::<S>::empty(),
        takes_in_all(states, inputs, times, batches),
    ensures
        states.last().wf(),
        states.last().target() == states[0].target(),
        states.last().rate() == states[0].rate(),
        batched_samples(strung(batches)) + states.last().buffered() == strung(inputs),
        forall|i: int|
            0 <= i < strung(batches).len() ==> {
                &&& (#[trigger] strung(batches)[i]).samples@.len() == states[0].target()
                &&& strung(batches)[i].duration == sample_nanos(
                    counted(0, states[0].target()),
                    states[0].rate(),
                )
            },
    decreases inputs.len(),
{
    if inputs.len() == 0 {
        assert(batched_samples(strung(batches)) + states.last().buffered() == strung(inputs));
    } else {
        let n = inputs.len() - 1;
        let before = states.drop_last();
        assert forall|i: int| 0 <= i < n implies (#[trigger] before[i]).takes_in(
            inputs.drop_last()[i],
            times.drop_last()[i],
            batches.drop_last()[i],
            before[i + 1],
        ) by {
            assert(states[i].takes_in(inputs[i], times[i], batches[i], states[i + 1]));
        }
        lemma_batching_so_far(
            before,
            inputs.drop_last(),
            times.drop_last(),
            batches.drop_last(),
        );
        let earlier = strung(batches.drop_last());
        assert(states[n].takes_in(inputs[n], times[n], batches[n], states[n + 1]));
        assert(before.last() == states[n]);
        lemma_batched_samples_of_both(earlier, batches[n]);
        assert(batched_samples(strung(batches)) + states.last().buffered() == strung(inputs)) by {
            assert(batched_samples(earlier) + batched_samples(batches[n])
                + states.last().buffered() == batched_samples(earlier) + (batched_samples(
                batches[n],
            ) + states.last().buffered()));
            assert(batched_samples(earlier) + (states[n].buffered() + inputs[n])
                == batched_samples(earlier) + states[n].buffered() + inputs[n]);
        }
        assert forall|i: int| 0 <= i < strung(batches).len() implies {
            &&& (#[trigger] strung(batches)[i]).samples@.len() == states[0].target()
            &&& strung(batches)[i].duration == sample_nanos(
                counted(0, states[0].target()),
                states[0].rate(),
            )
        } by {
            if i < earlier.len() {
                assert(strung(batches)[i] == earlier[i]);
            } else {
                assert(strung(batches)[i] == batches[n][i - earlier.len()]);
            }
        }
    }
}

/// Batching loses, doubles and reorders nothing, however the audio comes in: every batch is full
/// and lasts as long as its samples do, what the batches hold and what is flushed at last is all
/// that came in, in order, the last batch holds what full batches leave over, and when that has
/// been flushed there is nothing left to flush.
pub proof fn law_batching_keeps_the_audio<S: Copy>(
    sample_rate: u32,
    duration_ms: u64,
    states: Seq<AudioChunkBatcher<S>>,
    inputs: Seq<Seq<S>>,
    times: Seq<i64>,
    batches: Seq<Seq<AudioBatch<S>>>,
    flushed: (Option<AudioBatch<S>>, AudioChunkBatcher<S>),
    again: (Option<AudioBatch<S>>, AudioChunkBatcher<S>),
)
    requires
        states.len() > 0,
        states[0].is_new(sample_rate, duration_ms),
        takes_in_all(states, inputs, times, batches),
        states.last().flushes(flushed.0, flushed.1),
        flushed.1.flushes(again.0, again.1),
    ensures
        ({
            let size = batch_size(sample_rate, duration_ms);
            let total = strung(inputs).len() as int;
            &&& forall|i: int|
                0 <= i < strung(batches).len() ==> {
                    &&& (#[trigger] strung(batches)[i]).samples@.len() == size
                    &&& strung(batches)[i].duration == sample_nanos(
                        counted(0, size as nat),
                        sample_rate,
                    )
                }
            &&& match flushed.0 {
                Some(last) => {
                    &&& batched_samples(strung(batches)) + last.samples@ == strung(inputs)
                    &&& last.samples@.len() == total % size
                    &&& total % size != 0
                },
                None => batched_samples(strung(batches)) == strung(inputs) && total % size == 0,
            }
            &&& again.0 is None
        }),
{
    lemma_batching_so_far(states, inputs, times, batches);
    let size = batch_size(sample_rate, duration_ms);
    let waiting = states.last().buffered();
    let count = strung(batches).len();
    lemma_batched_length(strung(batches), size as nat);
    vstd::arithmetic::div_mod::lemma_fundamental_div_mod_converse(
        strung(inputs).len() as int,
        size,
        count as int,
        waiting.len() as int,
    );
    if waiting.len() == 0 {
        assert(batched_samples(strung(batches)) + waiting == batched_samples(strung(batches)));
    }
}

fn split_samples<S: Copy>(samples: &Vec<S>, at: usize) -> (parts: (Vec<S>, Vec<S>))
    requires
        at <= samples@.len(),
    ensures
        parts.0@ == samples@.take(at as int),
        parts.1@ == samples@.skip(at as int),
{
    let mut head: Vec<S> = Vec::new();
    let mut tail: Vec<S> = Vec::new();
    let mut i: usize = 0;
    while i < at
        invariant
            i <= at <= samples@.len(),
            head@ == samples@.take(i as int),
        decreases at - i,
    {
        assert(samples@.take(i + 1) == samples@.take(i as int).push(samples@[i as int]));
        head.push(samples[i]);
        i += 1;
    }
    while i < samples.len()
        invariant
            at <= i <= samples@.len(),
            tail@ == samples@.subrange(at as int, i as int),
        decreases samples@.len() - i,
    {
        assert(samples@.subrange(at as int, i + 1) == samples@.subrange(at as int, i as int).push(
            samples@[i as int],
        ));
        tail.push(samples[i]);
        i += 1;
    }
    assert(tail@ == samples@.skip(at as int));
    (head, tail)
}

/// Which debug recordings to make: those of one session.
#[derive(Debug, Clone)]
pub struct DebugCaptureConfig {
    session_id: String,
}

impl DebugCaptureConfig {
    /// The session whose recordings are made.
    pub closed spec fn view(self) -> Seq<char> {
        self.session_id@
    }

    /// Recordings of the session `session_id`.
    pub fn new(session_id: String) -> (config: Self)
        ensures
            config@ == session_id@,
    {
        DebugCaptureConfig { session_id }
    }

    /// The session whose recordings are made.
    pub fn session_id(&self) -> (id: &str)
        ensures
            id@ == self@,
    {
        self.session_id.as_str()
    }
}

/// Why a recording could not be written.
#[derive(Debug, Clone, Copy, PartialEq, Eq, Structural)]
pub enum RecordingError {
    ByteRate,
    BlockAlign,
    RiffSize,
    TooLong,
}

impl RecordingError {
    /// The error in words.
    pub fn message(&self) -> (text: String)
        ensures
            text@ == match self {
                RecordingError::ByteRate => "compute wav byte rate"@,
                RecordingError::BlockAlign => "compute wav block align"@,
                RecordingError::RiffSize => "compute wav riff size"@,
                RecordingError::TooLong => "debug wav exceeded 4 GiB"@,
            },
    {
        match self {
            RecordingError::ByteRate => "compute wav byte rate".to_owned(),
            RecordingError::BlockAlign => "compute wav block align".to_owned(),
            RecordingError::RiffSize => "compute wav riff size".to_owned(),
            RecordingError::TooLong => "debug wav exceeded 4 GiB".to_owned(),
        }
    }
}

/// Two bytes, the low one first.
pub open spec fn le16(value: u16) -> Seq<u8> {
    seq![(value % 256) as u8, (value / 256) as u8]
}

/// Four bytes, the low one first.
pub open spec fn le32(value: u32) -> Seq<u8> {
    seq![
        (value % 256) as u8,
        (value / 256 % 256) as u8,
        (value / 65536 % 256) as u8,
        (value / 16777216) as u8,
    ]
}

/// The characters of a four-letter tag.
pub open spec fn tag(a: u8, b: u8, c: u8, d: u8) -> Seq<u8> {
    seq![a, b, c, d]
}

/// The header of a WAV file of 16-bit PCM up to the length of its data: `RIFF`, `WAVE`, the
/// `fmt ` chunk, and the tag of the `data` chunk.
pub open spec fn wav_prefix(sample_rate: u32, channels: u16, data_bytes: u32) -> Seq<u8> {
    tag(82, 73, 70, 70) + le32((36 + data_bytes) as u32) + tag(87, 65, 86, 69) + tag(
        102,
        109,
        116,
        32,
    ) + le32(16) + le16(1) + le16(channels) + le32(sample_rate) + le32(
        (sample_rate * channels * 2) as u32,
    ) + le16((channels * 2) as u16) + le16(16) + tag(100, 97, 116, 97)
}

/// The header of a WAV file of 16-bit PCM.
pub open spec fn wav_header(sample_rate: u32, channels: u16, data_bytes: u32) -> Seq<u8> {
    wav_prefix(sample_rate, channels, data_bytes) + le32(data_bytes)
}

/// Why there is no such header, if so: a field would not hold its value.
pub open spec fn wav_header_error(sample_rate: u32, channels: u16, data_bytes: u32) -> Option<
    RecordingError,
> {
    if sample_rate * channels * 2 > u32::MAX {
        Some(RecordingError::ByteRate)
    } else if channels * 2 > u16::MAX {
        Some(RecordingError::BlockAlign)
    } else if 36 + data_bytes > u32::MAX {
        Some(RecordingError::RiffSize)
    } else {
        None
    }
}

fn push_tag(bytes: &mut Vec<u8>, a: u8, b: u8, c: u8, d: u8)
    ensures
        final(bytes)@ == old(bytes)@ + tag(a, b, c, d),
{
    bytes.push(a);
    bytes.push(b);
    bytes.push(c);
    bytes.push(d);
    assert(bytes@ == old(bytes)@ + tag(a, b, c, d));
}

fn push_le16(bytes: &mut Vec<u8>, value: u16)
    ensures
        final(bytes)@ == old(bytes)@ + le16(value),
{
    bytes.push((value % 256) as u8);
    bytes.push((value / 256) as u8);
    assert(bytes@ == old(bytes)@ + le16(value));
}

fn push_le32(bytes: &mut Vec<u8>, value: u32)
    ensures
        final(bytes)@ == old(bytes)@ + le32(value),
{
    bytes.push((value % 256) as u8);
    bytes.push((value / 256 % 256) as u8);
    bytes.push((value / 65536 % 256) as u8);
    bytes.push((value / 16777216) as u8);
    assert(bytes@ == old(bytes)@ + le32(value));
}

/// The header of a WAV file of 16-bit PCM.
pub fn write_wav_header(sample_rate: u32, channels: u16, data_bytes: u32) -> (result: Result<
    Vec<u8>,
    RecordingError,
>)
    ensures
        match result {
            Ok(bytes) => wav_header_error(sample_rate, channels, data_bytes) is None && bytes@
                == wav_header(sample_rate, channels, data_bytes),
            Err(error) => wav_header_error(sample_rate, channels, data_bytes) == Some(error),
        },
{
    assert(0 <= sample_rate * channels <= 0xffff_ffff * 0xffff) by (nonlinear_arith);
    let byte_rate: u64 = sample_rate as u64 * channels as u64 * 2;
    if byte_rate > u32::MAX as u64 {
        return Err(RecordingError::ByteRate);
    }
    let block_align: u16 = match channels.checked_mul(2) {
        Some(value) => value,
        None => return Err(RecordingError::BlockAlign),
    };
    let riff_size: u32 = match 36u32.checked_add(data_bytes) {
        Some(value) => value,
        None => return Err(RecordingError::RiffSize),
    };
    let mut bytes: Vec<u8> = Vec::new();
    push_tag(&mut bytes, 82, 73, 70, 70);
    push_le32(&mut bytes, riff_size);
    push_tag(&mut bytes, 87, 65, 86, 69);
    push_tag(&mut bytes, 102, 109, 116, 32);
    push_le32(&mut bytes, 16);
    push_le16(&mut bytes, 1);
    push_le16(&mut bytes, channels);
    push_le32(&mut bytes, sample_rate);
    push_le32(&mut bytes, byte_rate as u32);
    push_le16(&mut bytes, block_align);
    push_le16(&mut bytes, 16);
    push_tag(&mut bytes, 100, 97, 116, 97);
    push_le32(&mut bytes, data_bytes);
    assert(bytes@ == wav_header(sample_rate, channels, data_bytes));
    Ok(bytes)
}

/// The header is as long whatever it says, so that a final header replaces the first one, and
/// the length of the data can be read from its last four bytes.
pub proof fn law_wav_header_is_replaceable(sample_rate: u32, channels: u16, data_bytes: u32)
    ensures
        wav_header(sample_rate, channels, data_bytes).len() == 44,
        ({
            let bytes = wav_header(sample_rate, channels, data_bytes);
            bytes[40] + 256 * bytes[41] + 65536 * bytes[42] + 16777216 * bytes[43] == data_bytes
        }),
{
    let prefix = wav_prefix(sample_rate, channels, data_bytes);
    let bytes = wav_header(sample_rate, channels, data_bytes);
    let length = le32(data_bytes);
    assert(prefix.len() == 40);
    assert(bytes[40] == length[0]);
    assert(bytes[41] == length[1]);
    assert(bytes[42] == length[2]);
    assert(bytes[43] == length[3]);
    assert(data_bytes % 256 + 256 * (data_bytes / 256 % 256) + 65536 * (data_bytes / 65536 % 256)
        + 16777216 * (data_bytes / 16777216) == data_bytes) by (bit_vector);
}

/// A debug recording: the number of bytes of audio written to it.
#[derive(Debug)]
pub struct DebugAudioDump {
    data_bytes: u32,
}

impl DebugAudioDump {
    /// The number of bytes of audio written.
    pub closed spec fn data_bytes(self) -> u32 {
        self.data_bytes
    }

    /// A recording without audio.
    pub fn new() -> (dump: Self)
        ensures
            dump.data_bytes() == 0,
    {
        DebugAudioDump { data_bytes: 0 }
    }

    /// Counts `byte_count` bytes of audio that were written. They are counted by the lowest
    /// 32 bits of their number.
    pub fn count_written(&mut self, byte_count: usize) -> (result: Result<(), RecordingError>)
        ensures
            match result {
                Ok(()) => final(self).data_bytes() == old(self).data_bytes() + byte_count as int
                    % 0x1_0000_0000,
                Err(error) => {
                    &&& error == RecordingError::TooLong
                    &&& old(self).data_bytes() + byte_count as int % 0x1_0000_0000 > u32::MAX
                    &&& final(self).data_bytes() == old(self).data_bytes()
                },
            },
    {
        let count: u32 = (byte_count as u64 % 0x1_0000_0000u64) as u32;
        match self.data_bytes.checked_add(count) {
            Some(total) => {
                self.data_bytes = total;
                Ok(())
            },
            None => Err(RecordingError::TooLong),
        }
    }

    /// The header of the recording as it stands.
    pub fn header(&self) -> (result: Result<Vec<u8>, RecordingError>)
        ensures
            match result {
                Ok(bytes) => self.data_bytes() <= u32::MAX - 36 && bytes@ == wav_header(
                    TARGET_SAMPLE_RATE,
                    1,
                    self.data_bytes(),
                ),
                Err(error) => self.data_bytes() > u32::MAX - 36 && error
                    == RecordingError::RiffSize,
            },
    {
        write_wav_header(TARGET_SAMPLE_RATE, 1, self.data_bytes)
    }
}

/// The name of a recording of `source` with the extension `extension`.
pub open spec fn recording_name(source: SourceKind, extension: Seq<char>) -> Seq<char> {
    source_slug(source) + "."@ + extension
}

/// The name of a recording's file.
pub fn recording_file_name(source: SourceKind, extension: &str) -> (name: String)
    ensures
        name@ == recording_name(source, extension@),
{
    source.debug_slug().to_owned().concat(".").concat(extension)
}

/// What is noted beside a recording.
pub open spec fn recording_metadata(
    session_id: Seq<char>,
    source: SourceKind,
    wav_path: Seq<char>,
) -> JsonView {
    JsonView::Object(
        map![
            "session_id"@ => JsonView::Text(session_id),
            "source"@ => JsonView::Text(source_slug(source)),
            "sample_rate_hz"@ => JsonView::Number(unsigned_number(TARGET_SAMPLE_RATE as u64)),
            "channels"@ => JsonView::Number(unsigned_number(1)),
            "sample_format"@ => JsonView::Text("pcm_s16le"@),
            "stage"@ => JsonView::Text("post-resample pre-gemini"@),
            "wav_path"@ => JsonView::Text(wav_path),
        ],
    )
}

/// What is noted beside a recording.
pub fn debug_metadata(session_id: &str, source: SourceKind, wav_path: &str) -> (metadata: Json)
    ensures
        metadata@ == recording_metadata(session_id@, source, wav_path@),
{
    Json::object().with("session_id", Json::text(session_id)).with(
        "source",
        Json::text(source.debug_slug()),
    ).with("sample_rate_hz", Json::unsigned(TARGET_SAMPLE_RATE as u64)).with(
        "channels",
        Json::unsigned(1),
    ).with("sample_format", Json::text("pcm_s16le")).with(
        "stage",
        Json::text("post-resample pre-gemini"),
    ).with("wav_path", Json::text(wav_path))
}

/// How the samples of a system audio buffer are coded.
#[derive(Debug, Clone, Copy, PartialEq, Eq, Structural)]
pub enum SampleCoding {
    Float32,
    Int32,
    Int24,
    Int16,
    Int8,
}

/// One buffer of system audio, as far as its layout goes.
#[derive(Debug, Clone, Copy, PartialEq, Eq, Structural)]
pub struct BufferShape {
    pub has_data: bool,
    pub channels: u32,
    pub byte_count: u32,
}

/// Why a system audio buffer could not be read.
#[derive(Debug, Clone, Copy, PartialEq, Eq, Structural)]
pub enum LayoutError {
    UnpackedInt24,
    ChannelMismatch { expected: usize, reported: u32 },
    FrameWidth,
    InterleavedSize(u32),
    BufferCount { buffers: usize, channels: usize },
    PlanarChannels(u32),
    PlanarSize(u32),
}

/// Such an error in words.
pub open spec fn layout_error_text(error: LayoutError) -> Seq<char> {
    match error {
        LayoutError::UnpackedInt24 =>
            "unsupported system audio sample layout: unpacked 24-bit PCM"@,
        LayoutError::ChannelMismatch { expected, reported } =>
            "system audio channel mismatch: format expects "@ + decimal(expected as nat)
                + ", buffer reported "@ + decimal(reported as nat),
        LayoutError::FrameWidth => "system audio frame width overflow"@,
        LayoutError::InterleavedSize(size) => "invalid interleaved system audio buffer size: "@
            + decimal(size as nat),
        LayoutError::BufferCount { buffers, channels } =>
            "unexpected planar system audio layout: "@ + decimal(buffers as nat) + " buffers for "@
                + decimal(channels as nat) + " channels"@,
        LayoutError::PlanarChannels(channels) =>
            "unexpected planar system audio channel count in buffer: "@ + decimal(channels as nat),
        LayoutError::PlanarSize(size) => "mismatched planar system audio buffer size: "@ + decimal(
            size as nat,
        ),
    }
}

impl LayoutError {
    /// The error in words.
    pub fn message(&self) -> (text: String)
        ensures
            text@ == layout_error_text(*self),
    {
        match *self {
            LayoutError::UnpackedInt24 => {
                "unsupported system audio sample layout: unpacked 24-bit PCM".to_owned()
            },
            LayoutError::ChannelMismatch { expected, reported } => {
                "system audio channel mismatch: format expects ".to_owned().concat(
                    decimal_text(expected as u128).as_str(),
                ).concat(", buffer reported ").concat(decimal_text(reported as u128).as_str())
            },
            LayoutError::FrameWidth => "system audio frame width overflow".to_owned(),
            LayoutError::InterleavedSize(size) => {
                "invalid interleaved system audio buffer size: ".to_owned().concat(
                    decimal_text(size as u128).as_str(),
                )
            },
            LayoutError::BufferCount { buffers, channels } => {
                "unexpected planar system audio layout: ".to_owned().concat(
                    decimal_text(buffers as u128).as_str(),
                ).concat(" buffers for ").concat(decimal_text(channels as u128).as_str()).concat(
                    " channels",
                )
            },
            LayoutError::PlanarChannels(channels) => {
                "unexpected planar system audio channel count in buffer: ".to_owned().concat(
                    decimal_text(channels as u128).as_str(),
                )
            },
            LayoutError::PlanarSize(size) => {
                "mismatched planar system audio buffer size: ".to_owned().concat(
                    decimal_text(size as u128).as_str(),
                )
            },
        }
    }
}

/// The number of bytes of one sample; 24-bit samples must be packed.
pub fn sample_width(coding: SampleCoding, packed: bool) -> (width: Result<usize, LayoutError>)
    ensures
        width == width_of(coding, packed),
{
    match coding {
        SampleCoding::Float32 | SampleCoding::Int32 => Ok(4),
        SampleCoding::Int16 => Ok(2),
        SampleCoding::Int8 => Ok(1),
        SampleCoding::Int24 => if packed {
            Ok(3)
        } else {
            Err(LayoutError::UnpackedInt24)
        },
    }
}

/// The number of frames in an interleaved buffer, or nothing where there is no audio in it.
pub open spec fn interleaved_layout(
    buffer: BufferShape,
    channel_count: usize,
    width: usize,
) -> Result<Option<usize>, LayoutError> {
    if !buffer.has_data || channel_count == 0 {
        Ok(None)
    } else if buffer.channels != channel_count {
        Err(LayoutError::ChannelMismatch { expected: channel_count, reported: buffer.channels })
    } else if channel_count * width > usize::MAX {
        Err(LayoutError::FrameWidth)
    } else if channel_count * width == 0 || buffer.byte_count as int % (channel_count * width)
        != 0 {
        Err(LayoutError::InterleavedSize(buffer.byte_count))
    } else {
        Ok(Some((buffer.byte_count as int / (channel_count * width)) as usize))
    }
}

/// The number of frames in an interleaved buffer, or nothing where there is no audio in it.
pub fn interleaved_frames(
    buffer: BufferShape,
    channel_count: usize,
    bytes_per_sample: usize,
) -> (frames: Result<Option<usize>, LayoutError>)
    ensures
        frames == interleaved_layout(buffer, channel_count, bytes_per_sample),
{
    if !buffer.has_data || channel_count == 0 {
        return Ok(None);
    }
    if buffer.channels as usize != channel_count {
        return Err(
            LayoutError::ChannelMismatch { expected: channel_count, reported: buffer.channels },
        );
    }
    let frame_width: usize = match channel_count.checked_mul(bytes_per_sample) {
        Some(width) => width,
        None => return Err(LayoutError::FrameWidth),
    };
    let size: usize = buffer.byte_count as usize;
    if frame_width == 0 || size % frame_width != 0 {
        return Err(LayoutError::InterleavedSize(buffer.byte_count));
    }
    assert(0 <= size as int / frame_width as int <= size) by (nonlinear_arith)
        requires
            frame_width >= 1,
    ;
    Ok(Some(size / frame_width))
}

/// What the planar buffers from `at` on come to, with `frames` frames in the first.
pub open spec fn planar_layout_from(
    buffers: Seq<BufferShape>,
    at: int,
    frames: usize,
    width: usize,
) -> Result<Option<usize>, LayoutError>
    decreases buffers.len() - at,
{
    if at < 0 || at >= buffers.len() {
        Ok(Some(frames))
    } else if !buffers[at].has_data {
        Ok(None)
    } else if buffers[at].channels != 1 {
        Err(LayoutError::PlanarChannels(buffers[at].channels))
    } else if buffers[at].byte_count != frames * width {
        Err(LayoutError::PlanarSize(buffers[at].byte_count))
    } else {
        planar_layout_from(buffers, at + 1, frames, width)
    }
}

/// The number of frames in planar buffers, one for each channel, or nothing where there is no
/// audio in them.
pub open spec fn planar_layout(
    buffers: Seq<BufferShape>,
    channel_count: usize,
    width: usize,
) -> Result<Option<usize>, LayoutError> {
    if channel_count == 0 {
        Ok(None)
    } else if buffers.len() != channel_count {
        Err(LayoutError::BufferCount { buffers: buffers.len() as usize, channels: channel_count })
    } else {
        planar_layout_from(
            buffers,
            0,
            (buffers[0].byte_count as int / width as int) as usize,
            width,
        )
    }
}

/// The number of frames in planar buffers, one for each channel, or nothing where there is no
/// audio in them.
pub fn planar_frames(
    buffers: &Vec<BufferShape>,
    channel_count: usize,
    bytes_per_sample: usize,
) -> (frames: Result<Option<usize>, LayoutError>)
    requires
        bytes_per_sample > 0,
    ensures
        frames == planar_layout(buffers@, channel_count, bytes_per_sample),
{
    if channel_count == 0 {
        return Ok(None);
    }
    if buffers.len() != channel_count {
        return Err(
            LayoutError::BufferCount { buffers: buffers.len(), channels: channel_count },
        );
    }
    let first: usize = buffers[0].byte_count as usize;
    let frames: usize = first / bytes_per_sample;
    assert(first as int / bytes_per_sample as int * bytes_per_sample <= first
        && 0 <= first as int / bytes_per_sample as int <= first) by (nonlinear_arith)
        requires
            bytes_per_sample >= 1,
    ;
    let size: usize = frames * bytes_per_sample;
    let mut i: usize = 0;
    while i < buffers.len()
        invariant
            i <= buffers@.len(),
            channel_count != 0,
            buffers@.len() == channel_count,
            frames == (buffers@[0].byte_count as int / bytes_per_sample as int) as usize,
            size == frames * bytes_per_sample,
            planar_layout_from(buffers@, 0, frames, bytes_per_sample) == planar_layout_from(
                buffers@,
                i as int,
                frames,
                bytes_per_sample,
            ),
        decreases buffers@.len() - i,
    {
        let buffer = buffers[i];
        if !buffer.has_data {
            return Ok(None);
        }
        if buffer.channels != 1 {
            return Err(LayoutError::PlanarChannels(buffer.channels));
        }
        if buffer.byte_count as usize != size {
            return Err(LayoutError::PlanarSize(buffer.byte_count));
        }
        i += 1;
    }
    Ok(Some(frames))
}

/// Where the sample of a channel begins in an interleaved buffer.
pub fn interleaved_offset(
    frame: usize,
    frame_count: usize,
    channel: usize,
    channel_count: usize,
    bytes_per_sample: usize,
) -> (offset: usize)
    requires
        frame < frame_count,
        channel < channel_count,
        frame_count * channel_count * bytes_per_sample <= usize::MAX,
        bytes_per_sample > 0,
    ensures
        offset == (frame * channel_count + channel) * bytes_per_sample,
        offset + bytes_per_sample <= frame_count * channel_count * bytes_per_sample,
{
    assert(frame * channel_count + channel < frame_count * channel_count) by (nonlinear_arith)
        requires
            frame < frame_count,
            channel < channel_count,
    ;
    let ghost at: int = frame * channel_count + channel;
    let ghost all: int = frame_count * channel_count;
    assert(at * bytes_per_sample + bytes_per_sample <= all * bytes_per_sample)
        by (nonlinear_arith)
        requires
            0 <= at < all,
            bytes_per_sample > 0,
    ;
    assert(all <= all * bytes_per_sample) by (nonlinear_arith)
        requires
            0 <= all,
            bytes_per_sample > 0,
    ;
    assert(frame * channel_count >= 0) by (nonlinear_arith);
    (frame * channel_count + channel) * bytes_per_sample
}

/// The number that `width` bytes spell, the low byte first or last.
pub open spec fn bytes_value(bytes: Seq<u8>, big_endian: bool) -> int
    decreases bytes.len(),
{
    if bytes.len() == 0 {
        0
    } else if big_endian {
        bytes_value(bytes.drop_last(), big_endian) * 256 + bytes.last()
    } else {
        bytes_value(bytes.drop_first(), big_endian) * 256 + bytes[0]
    }
}

/// The largest number that `count` bytes can spell, plus one.
pub open spec fn byte_range(count: nat) -> int
    decreases count,
{
    if count == 0 {
        1
    } else {
        256 * byte_range((count - 1) as nat)
    }
}

/// The two's complement reading of a number of `width` bytes.
pub open spec fn signed_value(value: int, width: nat) -> int {
    if 2 * value >= byte_range(width) {
        value - byte_range(width)
    } else {
        value
    }
}

proof fn lemma_bytes_value_bound(bytes: Seq<u8>, big_endian: bool)
    ensures
        0 <= bytes_value(bytes, big_endian) < byte_range(bytes.len()),
    decreases bytes.len(),
{
    if bytes.len() > 0 {
        if big_endian {
            lemma_bytes_value_bound(bytes.drop_last(), big_endian);
        } else {
            lemma_bytes_value_bound(bytes.drop_first(), big_endian);
        }
    }
}

/// The number that the `width` bytes at `offset` spell: the bits of a 32-bit float, or an
/// integer before its sign is taken.
pub fn raw_sample(data: &Vec<u8>, offset: usize, width: usize, big_endian: bool) -> (word: u32)
    requires
        1 <= width <= 4,
        offset + width <= data@.len(),
    ensures
        word == bytes_value(data@.subrange(offset as int, offset + width), big_endian),
        word < byte_range(width as nat),
{
    let ghost bytes = data@.subrange(offset as int, offset + width);
    proof {
        lemma_bytes_value_bound(bytes, big_endian);
        reveal_with_fuel(byte_range, 5);
    }
    let mut word: u64 = 0;
    let mut i: usize = 0;
    if big_endian {
        assert(bytes.take(0) == Seq::<u8>::empty());
        while i < width
            invariant
                i <= width <= 4,
                offset + width <= data.len(),
                bytes == data@.subrange(offset as int, offset + width),
                word == bytes_value(bytes.take(i as int), true),
            decreases width - i,
        {
            proof {
                lemma_bytes_value_bound(bytes.take(i as int), true);
                reveal_with_fuel(byte_range, 5);
                assert(bytes.take(i + 1).drop_last() == bytes.take(i as int));
                assert(bytes.take(i + 1).last() == data@[offset + i]);
            }
            word = word * 256 + data[offset + i] as u64;
            i += 1;
        }
        assert(bytes.take(width as int) == bytes);
    } else {
        assert(bytes.skip(width as int) == Seq::<u8>::empty());
        while i < width
            invariant
                i <= width <= 4,
                offset + width <= data.len(),
                bytes == data@.subrange(offset as int, offset + width),
                word == bytes_value(bytes.skip(width - i), false),
            decreases width - i,
        {
            proof {
                lemma_bytes_value_bound(bytes.skip(width - i), false);
                reveal_with_fuel(byte_range, 5);
                assert(bytes.skip(width - i - 1).drop_first() == bytes.skip(width - i));
                assert(bytes.skip(width - i - 1)[0] == data@[offset + width - i - 1]);
            }
            word = word * 256 + data[offset + (width - i - 1)] as u64;
            i += 1;
        }
        assert(bytes.skip(0) == bytes);
    }
    word as u32
}

/// The signed integer of `width` bytes that `word` stands for.
pub fn signed_sample(word: u32, width: usize) -> (value: i32)
    requires
        1 <= width <= 4,
        word < byte_range(width as nat),
    ensures
        value == signed_value(word as int, width as nat),
{
    proof {
        reveal_with_fuel(byte_range, 5);
    }
    let range: i64 = if width == 1 {
        256
    } else if width == 2 {
        65536
    } else if width == 3 {
        16777216
    } else {
        4294967296
    };
    if 2 * word as i64 >= range {
        (word as i64 - range) as i32
    } else {
        word as i32
    }
}

/// One buffer of system audio, with its bytes where it has any.
#[derive(Debug)]
pub struct CapturedBuffer {
    pub channels: u32,
    pub data: Option<Vec<u8>>,
}

impl CapturedBuffer {
    /// The bytes of the buffer.
    pub open spec fn bytes(self) -> Seq<u8> {
        match self.data {
            Some(data) => data@,
            None => Seq::empty(),
        }
    }

    /// The buffer as far as its layout goes.
    pub open spec fn shape(self) -> BufferShape {
        BufferShape {
            has_data: self.data is Some,
            channels: self.channels,
            byte_count: self.bytes().len() as u32,
        }
    }

    /// The number of bytes fits in 32 bits.
    pub open spec fn wf(self) -> bool {
        self.bytes().len() <= u32::MAX
    }

    fn read_shape(&self) -> (shape: BufferShape)
        requires
            self.wf(),
        ensures
            shape == self.shape(),
    {
        match &self.data {
            Some(data) => BufferShape {
                has_data: true,
                channels: self.channels,
                byte_count: data.len() as u32,
            },
            None => BufferShape { has_data: false, channels: self.channels, byte_count: 0 },
        }
    }
}

/// How the buffers of system audio are to be read.
#[derive(Debug, Clone, Copy, PartialEq, Eq, Structural)]
pub struct StreamLayout {
    pub coding: SampleCoding,
    pub interleaved: bool,
    pub packed: bool,
    pub big_endian: bool,
    pub channel_count: usize,
}

/// The sample of `width` bytes at `offset`, before it is taken as a float or an integer.
pub open spec fn word_at(bytes: Seq<u8>, offset: int, width: usize, big_endian: bool) -> u32 {
    bytes_value(bytes.subrange(offset, offset + width), big_endian) as u32
}

/// The samples of one frame of an interleaved buffer, by channel.
pub open spec fn interleaved_frame(
    bytes: Seq<u8>,
    frame: int,
    channel_count: usize,
    width: usize,
    big_endian: bool,
) -> Seq<u32> {
    Seq::new(
        channel_count as nat,
        |channel: int| word_at(bytes, (frame * channel_count + channel) * width, width, big_endian),
    )
}

/// The samples of one frame of planar buffers, by channel.
pub open spec fn planar_frame(
    buffers: Seq<CapturedBuffer>,
    frame: int,
    width: usize,
    big_endian: bool,
) -> Seq<u32> {
    Seq::new(
        buffers.len(),
        |channel: int| word_at(buffers[channel].bytes(), frame * width, width, big_endian),
    )
}

/// The frames of an interleaved buffer.
pub open spec fn interleaved_words(
    buffer: CapturedBuffer,
    channel_count: usize,
    width: usize,
    big_endian: bool,
) -> Result<Seq<Seq<u32>>, LayoutError> {
    match interleaved_layout(buffer.shape(), channel_count, width) {
        Err(error) => Err(error),
        Ok(None) => Ok(Seq::empty()),
        Ok(Some(frames)) => Ok(
            Seq::new(
                frames as nat,
                |frame: int|
                    interleaved_frame(buffer.bytes(), frame, channel_count, width, big_endian),
            ),
        ),
    }
}

/// The shapes of buffers.
pub open spec fn shapes(buffers: Seq<CapturedBuffer>) -> Seq<BufferShape> {
    buffers.map_values(|buffer: CapturedBuffer| buffer.shape())
}

/// The frames of planar buffers.
pub open spec fn planar_words(
    buffers: Seq<CapturedBuffer>,
    channel_count: usize,
    width: usize,
    big_endian: bool,
) -> Result<Seq<Seq<u32>>, LayoutError> {
    match planar_layout(shapes(buffers), channel_count, width) {
        Err(error) => Err(error),
        Ok(None) => Ok(Seq::empty()),
        Ok(Some(frames)) => Ok(
            Seq::new(
                frames as nat,
                |frame: int| planar_frame(buffers, frame, width, big_endian),
            ),
        ),
    }
}

/// The number of bytes of one sample, or why the samples cannot be read.
pub open spec fn width_of(coding: SampleCoding, packed: bool) -> Result<usize, LayoutError> {
    match coding {
        SampleCoding::Float32 | SampleCoding::Int32 => Ok(4),
        SampleCoding::Int16 => Ok(2),
        SampleCoding::Int8 => Ok(1),
        SampleCoding::Int24 => if packed {
            Ok(3)
        } else {
            Err(LayoutError::UnpackedInt24)
        },
    }
}

/// The frames of system audio: none without a buffer; of interleaved audio, those of the first
/// buffer.
pub open spec fn captured_words(buffers: Seq<CapturedBuffer>, layout: StreamLayout) -> Result<
    Seq<Seq<u32>>,
    LayoutError,
> {
    if buffers.len() == 0 {
        Ok(Seq::empty())
    } else {
        match width_of(layout.coding, layout.packed) {
            Err(error) => Err(error),
            Ok(width) => if layout.interleaved {
                interleaved_words(buffers[0], layout.channel_count, width, layout.big_endian)
            } else {
                planar_words(buffers, layout.channel_count, width, layout.big_endian)
            },
        }
    }
}

/// What frames say.
pub open spec fn frame_views(frames: Seq<Vec<u32>>) -> Seq<Seq<u32>> {
    frames.map_values(|frame: Vec<u32>| frame@)
}

/// Whether a result says what is expected of it.
pub open spec fn says_frames(
    result: Result<Vec<Vec<u32>>, LayoutError>,
    expected: Result<Seq<Seq<u32>>, LayoutError>,
) -> bool {
    match result {
        Ok(frames) => expected matches Ok(said) && frame_views(frames@) =~~= said,
        Err(error) => expected matches Err(said) && error == said,
    }
}

fn read_interleaved_frame(
    data: &Vec<u8>,
    frame: usize,
    frame_count: usize,
    channel_count: usize,
    width: usize,
    big_endian: bool,
) -> (words: Vec<u32>)
    requires
        frame < frame_count,
        1 <= width <= 4,
        frame_count * channel_count * width == data@.len(),
        data@.len() <= u32::MAX,
    ensures
        words@ == interleaved_frame(data@, frame as int, channel_count, width, big_endian),
{
    let mut words: Vec<u32> = Vec::new();
    let mut channel: usize = 0;
    while channel < channel_count
        invariant
            channel <= channel_count,
            frame < frame_count,
            1 <= width <= 4,
            frame_count * channel_count * width == data@.len(),
            data@.len() <= u32::MAX,
            words@.len() == channel,
            forall|c: int|
                0 <= c < channel ==> #[trigger] words@[c] == interleaved_frame(
                    data@,
                    frame as int,
                    channel_count,
                    width,
                    big_endian,
                )[c],
        decreases channel_count - channel,
    {
        let offset = interleaved_offset(frame, frame_count, channel, channel_count, width);
        words.push(raw_sample(data, offset, width, big_endian));
        channel += 1;
    }
    words
}

/// The frames of an interleaved buffer, each with its samples by channel: the bits of a 32-bit
/// float, or an integer before its sign is taken.
pub fn decode_interleaved_core_audio_samples(
    buffer: &CapturedBuffer,
    channel_count: usize,
    bytes_per_sample: usize,
    big_endian: bool,
) -> (result: Result<Vec<Vec<u32>>, LayoutError>)
    requires
        buffer.wf(),
        1 <= bytes_per_sample <= 4,
    ensures
        says_frames(
            result,
            interleaved_words(*buffer, channel_count, bytes_per_sample, big_endian),
        ),
{
    let mut frames: Vec<Vec<u32>> = Vec::new();
    let frame_count: usize = match interleaved_frames(
        buffer.read_shape(),
        channel_count,
        bytes_per_sample,
    ) {
        Ok(Some(count)) => count,
        Ok(None) => return Ok(frames),
        Err(error) => return Err(error),
    };
    let data = match &buffer.data {
        Some(data) => data,
        None => return Ok(frames),
    };
    let ghost frame_width: int = channel_count * bytes_per_sample;
    assert(frame_count * frame_width == data@.len()) by (nonlinear_arith)
        requires
            frame_width > 0,
            data@.len() as int % frame_width == 0,
            frame_count == data@.len() as int / frame_width,
    ;
    assert(frame_count * channel_count * bytes_per_sample == frame_count * (channel_count
        * bytes_per_sample)) by (nonlinear_arith);
    let mut frame: usize = 0;
    while frame < frame_count
        invariant
            frame <= frame_count,
            1 <= bytes_per_sample <= 4,
            frame_count * channel_count * bytes_per_sample == data@.len(),
            data@.len() <= u32::MAX,
            frames@.len() == frame,
            forall|f: int|
                0 <= f < frame ==> (#[trigger] frames@[f])@ == interleaved_frame(
                    data@,
                    f,
                    channel_count,
                    bytes_per_sample,
                    big_endian,
                ),
        decreases frame_count - frame,
    {
        frames.push(
            read_interleaved_frame(
                data,
                frame,
                frame_count,
                channel_count,
                bytes_per_sample,
                big_endian,
            ),
        );
        frame += 1;
    }
    Ok(frames)
}

/// Where planar buffers are accepted, each has a sample for every frame.
proof fn lemma_planar_accepted(buffers: Seq<BufferShape>, at: int, frames: usize, width: usize)
    requires
        0 <= at,
        planar_layout_from(buffers, at, frames, width) matches Ok(Some(_)),
    ensures
        planar_layout_from(buffers, at, frames, width) == Ok::<Option<usize>, LayoutError>(
            Some(frames),
        ),
        forall|i: int|
            at <= i < buffers.len() ==> (#[trigger] buffers[i]).has_data && buffers[i].byte_count
                == frames * width,
    decreases buffers.len() - at,
{
    if at < buffers.len() {
        lemma_planar_accepted(buffers, at + 1, frames, width);
    }
}

fn read_planar_frame(
    buffers: &Vec<CapturedBuffer>,
    frame: usize,
    frame_count: usize,
    width: usize,
    big_endian: bool,
) -> (words: Vec<u32>)
    requires
        frame < frame_count,
        1 <= width <= 4,
        frame_count * width <= u32::MAX,
        forall|i: int|
            0 <= i < buffers@.len() ==> (#[trigger] buffers@[i]).data is Some
                && buffers@[i].bytes().len() == frame_count * width,
    ensures
        words@ == planar_frame(buffers@, frame as int, width, big_endian),
{
    let mut words: Vec<u32> = Vec::new();
    let mut channel: usize = 0;
    assert(0 <= frame * width && frame * width + width <= frame_count * width)
        by (nonlinear_arith)
        requires
            frame < frame_count,
    ;
    while channel < buffers.len()
        invariant
            channel <= buffers@.len(),
            1 <= width <= 4,
            0 <= frame * width,
            frame * width + width <= frame_count * width <= u32::MAX,
            forall|i: int|
                0 <= i < buffers@.len() ==> (#[trigger] buffers@[i]).data is Some
                    && buffers@[i].bytes().len() == frame_count * width,
            words@.len() == channel,
            forall|c: int|
                0 <= c < channel ==> #[trigger] words@[c] == planar_frame(
                    buffers@,
                    frame as int,
                    width,
                    big_endian,
                )[c],
        decreases buffers@.len() - channel,
    {
        if let Some(data) = &buffers[channel].data {
            words.push(raw_sample(data, frame * width, width, big_endian));
        }
        channel += 1;
    }
    words
}

/// The frames of planar buffers, each with its samples by channel.
pub fn decode_planar_core_audio_samples(
    buffers: &Vec<CapturedBuffer>,
    channel_count: usize,
    bytes_per_sample: usize,
    big_endian: bool,
) -> (result: Result<Vec<Vec<u32>>, LayoutError>)
    requires
        forall|i: int| 0 <= i < buffers@.len() ==> (#[trigger] buffers@[i]).wf(),
        1 <= bytes_per_sample <= 4,
    ensures
        says_frames(
            result,
            planar_words(buffers@, channel_count, bytes_per_sample, big_endian),
        ),
{
    let mut frames: Vec<Vec<u32>> = Vec::new();
    let mut listed: Vec<BufferShape> = Vec::new();
    let mut i: usize = 0;
    while i < buffers.len()
        invariant
            i <= buffers@.len(),
            forall|k: int| 0 <= k < buffers@.len() ==> (#[trigger] buffers@[k]).wf(),
            listed@.len() == i,
            forall|k: int| 0 <= k < i ==> #[trigger] listed@[k] == buffers@[k].shape(),
        decreases buffers@.len() - i,
    {
        listed.push(buffers[i].read_shape());
        i += 1;
    }
    assert(listed@ == shapes(buffers@));
    let frame_count: usize = match planar_frames(&listed, channel_count, bytes_per_sample) {
        Ok(Some(count)) => count,
        Ok(None) => return Ok(frames),
        Err(error) => return Err(error),
    };
    proof {
        let first = (listed@[0].byte_count as int / bytes_per_sample as int) as usize;
        lemma_planar_accepted(listed@, 0, first, bytes_per_sample);
        assert(listed@[0].byte_count == frame_count * bytes_per_sample);
        assert forall|k: int| 0 <= k < buffers@.len() implies (#[trigger] buffers@[k]).data is Some
            && buffers@[k].bytes().len() == frame_count * bytes_per_sample by {
            assert(listed@[k] == buffers@[k].shape());
        }
    }
    let mut frame: usize = 0;
    while frame < frame_count
        invariant
            frame <= frame_count,
            1 <= bytes_per_sample <= 4,
            frame_count * bytes_per_sample <= u32::MAX,
            forall|k: int|
                0 <= k < buffers@.len() ==> (#[trigger] buffers@[k]).data is Some
                    && buffers@[k].bytes().len() == frame_count * bytes_per_sample,
            frames@.len() == frame,
            forall|f: int|
                0 <= f < frame ==> (#[trigger] frames@[f])@ == planar_frame(
                    buffers@,
                    f,
                    bytes_per_sample,
                    big_endian,
                ),
        decreases frame_count - frame,
    {
        frames.push(read_planar_frame(buffers, frame, frame_count, bytes_per_sample, big_endian));
        frame += 1;
    }
    Ok(frames)
}

/// The frames of system audio, each with its samples by channel.
pub fn decode_core_audio_samples(buffers: &Vec<CapturedBuffer>, layout: StreamLayout) -> (result:
    Result<Vec<Vec<u32>>, LayoutError>)
    requires
        forall|i: int| 0 <= i < buffers@.len() ==> (#[trigger] buffers@[i]).wf(),
    ensures
        says_frames(result, captured_words(buffers@, layout)),
{
    if buffers.len() == 0 {
        return Ok(Vec::new());
    }
    let width: usize = match sample_width(layout.coding, layout.packed) {
        Ok(width) => width,
        Err(error) => return Err(error),
    };
    if layout.interleaved {
        decode_interleaved_core_audio_samples(
            &buffers[0],
            layout.channel_count,
            width,
            layout.big_endian,
        )
    } else {
        decode_planar_core_audio_samples(buffers, layout.channel_count, width, layout.big_endian)
    }
}

/// The microphone can be captured everywhere, system audio on macOS alone; of sources that cannot
/// be captured the first is named.
pub proof fn law_system_audio_is_captured_on_macos(
    platform: Platform,
    supported: Seq<SourceKind>,
    rest: Seq<SourceKind>,
)
    requires
        forall|i: int|
            0 <= i < supported.len() ==> sources_on(platform).contains(#[trigger] supported[i]),
        rest.len() > 0,
        !sources_on(platform).contains(rest[0]),
    ensures
        sources_on(platform).contains(SourceKind::Microphone),
        sources_on(platform).contains(SourceKind::SystemAudio) <==> platform == Platform::MacOs,
        sources_on(platform).no_duplicates(),
        support_error(platform, supported + rest) == Some(rest[0]),
    decreases supported.len(),
{
    assert(sources_on(platform)[0] == SourceKind::Microphone);
    if platform == Platform::MacOs {
        assert(sources_on(platform)[1] == SourceKind::SystemAudio);
    }
    let all = supported + rest;
    if supported.len() > 0 {
        assert(sources_on(platform).contains(supported[0]));
        let fewer = supported.drop_first();
        assert forall|i: int| 0 <= i < fewer.len() implies sources_on(platform).contains(
            #[trigger] fewer[i],
        ) by {
            assert(fewer[i] == supported[i + 1]);
        }
        law_system_audio_is_captured_on_macos(platform, fewer, rest);
        assert(all.drop_first() == fewer + rest);
        assert(all[0] == supported[0]);
    } else {
        assert(all[0] == rest[0]);
    }
}

/// The length of samples is their number over their rate, rounded down to a nanosecond, where the
/// product with the nanoseconds of a second can be held.
pub proof fn law_samples_last_their_time(count: u64, rate: u32)
    requires
        rate > 0,
        count * 1_000_000_000 <= u64::MAX,
    ensures
        sample_nanos(count, rate) * rate <= count * 1_000_000_000 < (sample_nanos(count, rate) + 1)
            * rate,
{
    let product = count * 1_000_000_000;
    let d = rate as int;
    let q = product / d;
    assert(q * d <= product < (q + 1) * d && 0 <= q <= product) by (nonlinear_arith)
        requires
            q == product / d,
            d > 0,
            product >= 0,
    ;
}

/// A batch begins where the one before it ended, to the nanosecond that rounding may cost.
pub proof fn law_batches_follow_each_other<S: Copy>(
    batcher: AudioChunkBatcher<S>,
    earlier: AudioBatch<S>,
    later: AudioBatch<S>,
    emitted: u64,
)
    requires
        batcher.rate() > 0,
        batcher.is_next_batch(earlier, emitted),
        batcher.is_next_batch(later, counted(emitted, earlier.samples@.len())),
        (emitted + earlier.samples@.len()) * 1_000_000_000 <= u64::MAX,
    ensures
        0 <= later.started_at - (earlier.started_at + earlier.duration) <= 1,
        emitted == 0 ==> batcher.stream_start() == Some(earlier.started_at),
{
    let rate = batcher.rate();
    let count = earlier.samples@.len() as u64;
    let both = counted(emitted, earlier.samples@.len());
    assert(counted(0, earlier.samples@.len()) == count);
    assert(both == emitted + count);
    law_samples_last_their_time(emitted, rate);
    law_samples_last_their_time(count, rate);
    law_samples_last_their_time(both, rate);
    let a = sample_nanos(emitted, rate) as int;
    let b = sample_nanos(count, rate) as int;
    let c = sample_nanos(both, rate) as int;
    let x = emitted * 1_000_000_000;
    let y = count * 1_000_000_000;
    let d = rate as int;
    assert(0 <= c - (a + b) <= 1) by (nonlinear_arith)
        requires
            d > 0,
            a * d <= x < (a + 1) * d,
            b * d <= y < (b + 1) * d,
            c * d <= x + y < (c + 1) * d,
    ;
    if emitted == 0 {
        assert(a == 0) by (nonlinear_arith)
            requires
                a * d <= 0,
                d > 0,
                a >= 0,
        ;
    }
}

/// A stream begins as long before its first input was received as that input lasts, and is not
/// moved by what comes later.
pub proof fn law_streams_begin_with_their_first_input<S: Copy>(
    batcher: AudioChunkBatcher<S>,
    input: Seq<S>,
    received_at: i64,
    batches: Seq<AudioBatch<S>>,
    after: AudioChunkBatcher<S>,
)
    requires
        batcher.takes_in(input, received_at, batches, after),
        input.len() <= u64::MAX,
    ensures
        batcher.stream_start() is None && input.len() > 0 ==> (after.stream_start() matches Some(
            start,
        ) && start + sample_nanos(input.len() as u64, batcher.rate()) == received_at),
        batcher.stream_start() is Some ==> after.stream_start() == batcher.stream_start(),
{
}

/// A batch holds the samples of its duration, rounded down, and one at least.
pub proof fn law_batches_are_of_their_duration(sample_rate: u32, duration_ms: u64)
    ensures
        batch_size(sample_rate, duration_ms) >= 1,
        sample_rate * duration_ms >= 1000 ==> batch_size(sample_rate, duration_ms) * 1000
            <= sample_rate * duration_ms < (batch_size(sample_rate, duration_ms) + 1) * 1000,
        sample_rate * duration_ms < 1000 ==> batch_size(sample_rate, duration_ms) == 1,
{
}

/// The bytes of a number are its digits to the base 256: the lowest first in one order, and last
/// in the other.
pub proof fn law_bytes_are_digits(bytes: Seq<u8>, byte: u8)
    ensures
        bytes_value(seq![byte], false) == byte,
        bytes_value(seq![byte], true) == byte,
        bytes_value(seq![byte] + bytes, false) == byte + 256 * bytes_value(bytes, false),
        bytes_value(bytes.push(byte), true) == 256 * bytes_value(bytes, true) + byte,
        bytes_value(bytes, true) == bytes_value(bytes.reverse(), false),
{
    let one = seq![byte];
    assert(one.drop_first() == Seq::<u8>::empty());
    assert(one.drop_last() == Seq::<u8>::empty());
    assert(bytes_value(Seq::<u8>::empty(), false) == 0);
    assert(bytes_value(Seq::<u8>::empty(), true) == 0);
    assert((one + bytes).drop_first() == bytes);
    assert(bytes.push(byte).drop_last() == bytes);
    lemma_orders_mirror(bytes);
}

proof fn lemma_orders_mirror(bytes: Seq<u8>)
    ensures
        bytes_value(bytes, true) == bytes_value(bytes.reverse(), false),
    decreases bytes.len(),
{
    if bytes.len() > 0 {
        lemma_orders_mirror(bytes.drop_last());
        assert(bytes.reverse().drop_first() == bytes.drop_last().reverse());
        assert(bytes.reverse()[0] == bytes.last());
    }
}

/// The signed reading of a number of `width` bytes differs from the number by the whole range or
/// not at all, and lies as far below zero as above it.
pub proof fn law_signed_readings(value: int, width: nat)
    requires
        0 <= value < byte_range(width),
    ensures
        signed_value(value, width) == value || signed_value(value, width) == value - byte_range(
            width,
        ),
        -byte_range(width) <= 2 * signed_value(value, width) < byte_range(width),
        byte_range(1) == 256,
        byte_range(2) == 65536,
        byte_range(3) == 16777216,
        byte_range(4) == 4294967296,
{
    reveal_with_fuel(byte_range, 5);
}

proof fn lemma_le32_reads(value: u32)
    ensures
        bytes_value(le32(value), false) == value,
{
    let bytes = le32(value);
    reveal_with_fuel(bytes_value, 5);
    let b1 = bytes.drop_first();
    let b2 = b1.drop_first();
    let b3 = b2.drop_first();
    assert(b3.drop_first() == Seq::<u8>::empty());
    assert(value % 256 + 256 * (value / 256 % 256) + 65536 * (value / 65536 % 256) + 16777216 * (
    value / 16777216) == value) by (bit_vector);
}

proof fn lemma_le16_reads(value: u16)
    ensures
        bytes_value(le16(value), false) == value,
{
    let bytes = le16(value);
    reveal_with_fuel(bytes_value, 3);
    assert(bytes.drop_first().drop_first() == Seq::<u8>::empty());
}

/// The header of a WAV file says, at its fixed places and the low byte first: the length of what
/// follows, 16-bit PCM, the number of channels, the sample rate, the bytes of a second and of a
/// frame, and the length of the data.
#[verifier::rlimit(60)]
pub proof fn law_wav_header_describes_the_audio(sample_rate: u32, channels: u16, data_bytes: u32)
    requires
        wav_header_error(sample_rate, channels, data_bytes) is None,
    ensures
        ({
            let h = wav_header(sample_rate, channels, data_bytes);
            &&& h.subrange(0, 4) == seq![82u8, 73, 70, 70]
            &&& bytes_value(h.subrange(4, 8), false) == 36 + data_bytes
            &&& h.subrange(8, 16) == seq![87u8, 65, 86, 69, 102, 109, 116, 32]
            &&& bytes_value(h.subrange(16, 20), false) == 16
            &&& bytes_value(h.subrange(20, 22), false) == 1
            &&& bytes_value(h.subrange(22, 24), false) == channels
            &&& bytes_value(h.subrange(24, 28), false) == sample_rate
            &&& bytes_value(h.subrange(28, 32), false) == sample_rate * channels * 2
            &&& bytes_value(h.subrange(32, 34), false) == channels * 2
            &&& bytes_value(h.subrange(34, 36), false) == 16
            &&& h.subrange(36, 40) == seq![100u8, 97, 116, 97]
            &&& bytes_value(h.subrange(40, 44), false) == data_bytes
        }),
{
    let h = wav_header(sample_rate, channels, data_bytes);
    let riff = (36 + data_bytes) as u32;
    let rate = (sample_rate * channels * 2) as u32;
    let align = (channels * 2) as u16;
    assert(0 <= sample_rate * channels * 2) by (nonlinear_arith);
    lemma_le32_reads(riff);
    lemma_le32_reads(16);
    lemma_le16_reads(1);
    lemma_le16_reads(channels);
    lemma_le32_reads(sample_rate);
    lemma_le32_reads(rate);
    lemma_le16_reads(align);
    lemma_le16_reads(16);
    lemma_le32_reads(data_bytes);
    assert(h.subrange(4, 8) == le32(riff));
    assert(h.subrange(16, 20) == le32(16));
    assert(h.subrange(20, 22) == le16(1));
    assert(h.subrange(22, 24) == le16(channels));
    assert(h.subrange(24, 28) == le32(sample_rate));
    assert(h.subrange(28, 32) == le32(rate));
    assert(h.subrange(32, 34) == le16(align));
    assert(h.subrange(34, 36) == le16(16));
    assert(h.subrange(40, 44) == le32(data_bytes));
}

/// There is no header exactly where a field could not hold its value.
pub proof fn law_headers_fail_where_a_field_overflows(
    sample_rate: u32,
    channels: u16,
    data_bytes: u32,
)
    ensures
        wav_header_error(sample_rate, channels, data_bytes) is None <==> sample_rate * channels * 2
            <= 0xffff_ffff && channels * 2 <= 0xffff && data_bytes + 36 <= 0xffff_ffff,
        wav_header_error(sample_rate, channels, data_bytes) == Some(RecordingError::ByteRate)
            <==> sample_rate * channels * 2 > 0xffff_ffff,
        wav_header_error(sample_rate, channels, data_bytes) == Some(RecordingError::RiffSize)
            ==> data_bytes + 36 > 0xffff_ffff,
        wav_header_error(sample_rate, channels, data_bytes) == Some(RecordingError::BlockAlign)
            ==> channels * 2 > 0xffff,
{
}

/// A recording is named by its source, and what is noted beside it says the session, the source,
/// and how the audio is stored.
pub proof fn law_recordings_are_described(
    session_id: Seq<char>,
    source: SourceKind,
    wav_path: Seq<char>,
    extension: Seq<char>,
)
    ensures
        ({
            let note = recording_metadata(session_id, source, wav_path);
            let slug = if source == SourceKind::Microphone {
                "microphone"@
            } else {
                "system-audio"@
            };
            &&& recording_name(source, extension) == slug + "."@ + extension
            &&& note.member("session_id"@) == Some(JsonView::Text(session_id))
            &&& note.member("source"@) == Some(JsonView::Text(slug))
            &&& note.member("sample_rate_hz"@) == Some(JsonView::Number(unsigned_number(16_000)))
            &&& note.member("channels"@) == Some(JsonView::Number(unsigned_number(1)))
            &&& note.member("sample_format"@) == Some(JsonView::Text("pcm_s16le"@))
            &&& note.member("stage"@) == Some(JsonView::Text("post-resample pre-gemini"@))
            &&& note.member("wav_path"@) == Some(JsonView::Text(wav_path))
        }),
{
    reveal_strlit("session_id");
    reveal_strlit("source");
    reveal_strlit("sample_rate_hz");
    reveal_strlit("channels");
    reveal_strlit("sample_format");
    reveal_strlit("stage");
    reveal_strlit("wav_path");
    assert("session_id"@.len() == 10);
    assert("source"@.len() == 6);
    assert("sample_rate_hz"@.len() == 14);
    assert("channels"@.len() == 8);
    assert("sample_format"@.len() == 13);
    assert("stage"@.len() == 5);
    assert("wav_path"@.len() == 8);
    assert("channels"@[0] == 'c');
    assert("wav_path"@[0] == 'w');
}

/// An interleaved buffer is read exactly when it has data, of the channels expected, in whole
/// frames; then its frames come to all of its bytes. A buffer without data, or audio without
/// channels, has no frames.
pub proof fn law_interleaved_buffers_are_read_whole(
    buffer: BufferShape,
    channel_count: usize,
    width: usize,
)
    requires
        0 < channel_count * width <= usize::MAX,
    ensures
        interleaved_layout(buffer, channel_count, width) matches Ok(Some(frames)) ==> frames * (
        channel_count * width) == buffer.byte_count,
        interleaved_layout(buffer, channel_count, width) matches Ok(Some(_)) <==> buffer.has_data
            && buffer.channels == channel_count && buffer.byte_count as int % (channel_count
            * width) == 0,
        interleaved_layout(buffer, channel_count, width) matches Ok(None) <==> !buffer.has_data,
        interleaved_layout(buffer, channel_count, width) matches Err(
            LayoutError::ChannelMismatch { expected, reported },
        ) ==> expected == channel_count && reported == buffer.channels && expected != reported,
{
    let d = channel_count * width;
    let n = buffer.byte_count as int;
    assert(channel_count > 0) by (nonlinear_arith)
        requires
            channel_count * width > 0,
    ;
    assert(n % d == 0 ==> (n / d) * d == n && 0 <= n / d <= n) by (nonlinear_arith)
        requires
            d > 0,
            n >= 0,
    ;
}

/// The sample of a frame and a channel of interleaved audio is read behind all the frames before
/// it and the channels before it.
pub proof fn law_interleaved_samples_stand_by_frame_and_channel(
    buffer: CapturedBuffer,
    channel_count: usize,
    width: usize,
    big_endian: bool,
    frame: int,
    channel: int,
)
    ensures
        interleaved_words(buffer, channel_count, width, big_endian) matches Ok(frames) ==> 0
            <= frame < frames.len() && 0 <= channel < channel_count ==> frames[frame].len()
            == channel_count && frames[frame][channel] == bytes_value(
            buffer.bytes().subrange(
                (frame * channel_count + channel) * width,
                (frame * channel_count + channel) * width + width,
            ),
            big_endian,
        ) as u32,
{
}

proof fn lemma_planar_frames(buffers: Seq<BufferShape>, at: int, frames: usize, width: usize)
    requires
        0 <= at <= buffers.len(),
    ensures
        planar_layout_from(buffers, at, frames, width) matches Ok(Some(found)) ==> found == frames,
        planar_layout_from(buffers, at, frames, width) matches Ok(Some(_)) <==> forall|i: int|
            at <= i < buffers.len() ==> {
                &&& (#[trigger] buffers[i]).has_data
                &&& buffers[i].channels == 1
                &&& buffers[i].byte_count == frames * width
            },
    decreases buffers.len() - at,
{
    if at < buffers.len() {
        lemma_planar_frames(buffers, at + 1, frames, width);
    }
}

/// Planar buffers are read exactly when there is one for each channel, each with data, of one
/// channel, and of the same number of whole samples; that number is the number of frames.
pub proof fn law_planar_buffers_are_read_whole(
    buffers: Seq<BufferShape>,
    channel_count: usize,
    width: usize,
)
    requires
        channel_count > 0,
        width > 0,
        buffers.len() <= usize::MAX,
    ensures
        planar_layout(buffers, channel_count, width) matches Ok(Some(frames)) ==> {
            &&& buffers.len() == channel_count
            &&& forall|i: int|
                0 <= i < buffers.len() ==> {
                    &&& (#[trigger] buffers[i]).has_data
                    &&& buffers[i].channels == 1
                    &&& buffers[i].byte_count == frames * width
                }
        },
        buffers.len() == channel_count && buffers[0].byte_count as int % width as int == 0 && (
        forall|i: int|
            0 <= i < buffers.len() ==> {
                &&& (#[trigger] buffers[i]).has_data
                &&& buffers[i].channels == 1
                &&& buffers[i].byte_count == buffers[0].byte_count
            }) ==> (planar_layout(buffers, channel_count, width) matches Ok(Some(frames)) && frames
            * width == buffers[0].byte_count),
{
    if buffers.len() == channel_count {
        let n = buffers[0].byte_count as int;
        let w = width as int;
        let frames = n / w;
        assert(0 <= frames <= n && (n % w == 0 ==> frames * w == n)) by (nonlinear_arith)
            requires
                w > 0,
                n >= 0,
                frames == n / w,
        ;
        lemma_planar_frames(buffers, 0, frames as usize, width);
    }
}

/// The sample of a frame and a channel of planar audio is read from the buffer of the channel,
/// behind all the frames before it.
pub proof fn law_planar_samples_stand_by_channel_and_frame(
    buffers: Seq<CapturedBuffer>,
    channel_count: usize,
    width: usize,
    big_endian: bool,
    frame: int,
    channel: int,
)
    ensures
        planar_words(buffers, channel_count, width, big_endian) matches Ok(frames) ==> 0 <= frame
            < frames.len() && 0 <= channel < buffers.len() ==> frames[frame].len() == buffers.len()
            && frames[frame][channel] == bytes_value(
            buffers[channel].bytes().subrange(frame * width, frame * width + width),
            big_endian,
        ) as u32,
{
}

/// A sample is as wide as its coding says; 24-bit samples are read only where they are packed.
pub proof fn law_samples_have_their_width(packed: bool)
    ensures
        width_of(SampleCoding::Float32, packed) == Ok::<usize, LayoutError>(4),
        width_of(SampleCoding::Int32, packed) == Ok::<usize, LayoutError>(4),
        width_of(SampleCoding::Int16, packed) == Ok::<usize, LayoutError>(2),
        width_of(SampleCoding::Int8, packed) == Ok::<usize, LayoutError>(1),
        packed ==> width_of(SampleCoding::Int24, packed) == Ok::<usize, LayoutError>(3),
        !packed ==> width_of(SampleCoding::Int24, packed) is Err,
{
}

/// Sources are accepted exactly when each of them can be captured; otherwise one that cannot is
/// named.
pub proof fn law_unsupported_sources_are_named(
    platform: Platform,
    sources: &Vec<SourceKind>,
    result: Result<(), UnsupportedSource>,
)
    requires
        call_ensures(ensure_sources_supported, (platform, sources), result),
    ensures
        result is Ok <==> (sources@.contains(SourceKind::SystemAudio) ==> platform
            == Platform::MacOs),
        result matches Err(error) ==> error.source == SourceKind::SystemAudio,
{
    law_support_is_of_every_source(platform, sources@);
    assert(sources_on(platform)[0] == SourceKind::Microphone);
    if platform == Platform::MacOs {
        assert(sources_on(platform)[1] == SourceKind::SystemAudio);
    }
    if sources@.contains(SourceKind::SystemAudio) {
        let at = choose|at: int|
            0 <= at < sources@.len() && sources@[at] == SourceKind::SystemAudio;
        assert(sources@[at] == SourceKind::SystemAudio);
    }
    assert forall|i: int|
        0 <= i < sources@.len() && sources@[i] != SourceKind::SystemAudio implies sources_on(
        platform,
    ).contains(#[trigger] sources@[i]) by {
        assert(sources@[i] == SourceKind::Microphone);
    }
}

/// What comes in is batched whole: the batches that come out, each full, and what then waits are
/// what waited and what came in, in order; a flush hands out what waits, and leaves nothing.
pub proof fn law_audio_comes_out_as_it_came_in<S: Copy>(
    batcher: &mut AudioChunkBatcher<S>,
    input: &Vec<S>,
    received_at: i64,
    batches: Vec<AudioBatch<S>>,
    batch: Option<AudioBatch<S>>,
)
    ensures
        call_ensures(AudioChunkBatcher::<S>::push, (batcher, input, received_at), batches) ==> {
            &&& batched_samples(batches@) + final(batcher).buffered() == old(batcher).buffered()
                + input@
            &&& forall|i: int|
                0 <= i < batches@.len() ==> (#[trigger] batches@[i]).samples@.len()
                    == old(batcher).target()
            &&& final(batcher).buffered().len() < old(batcher).target()
        },
        call_ensures(AudioChunkBatcher::<S>::flush_audio, (batcher,), batch) ==> {
            &&& final(batcher).buffered().len() == 0
            &&& batch is Some <==> old(batcher).buffered().len() > 0
            &&& batch matches Some(last) ==> last.samples@ == old(batcher).buffered()
        },
{
}

/// A header is written exactly where its fields hold their values, and says the channels, the rate
/// and the length of the data. What is recorded is counted by its bytes.
pub proof fn law_recordings_are_counted(
    dump: &mut DebugAudioDump,
    byte_count: usize,
    counted: Result<(), RecordingError>,
    sample_rate: u32,
    channels: u16,
    data_bytes: u32,
    written: Result<Vec<u8>, RecordingError>,
)
    ensures
        call_ensures(write_wav_header, (sample_rate, channels, data_bytes), written) ==> {
            &&& written is Ok <==> sample_rate * channels * 2 <= 0xffff_ffff && channels * 2
                <= 0xffff && data_bytes + 36 <= 0xffff_ffff
            &&& written matches Ok(bytes) ==> {
                &&& bytes@.len() == 44
                &&& bytes_value(bytes@.subrange(22, 24), false) == channels
                &&& bytes_value(bytes@.subrange(24, 28), false) == sample_rate
                &&& bytes_value(bytes@.subrange(40, 44), false) == data_bytes
            }
        },
        call_ensures(DebugAudioDump::count_written, (dump, byte_count), counted) ==> {
            &&& byte_count < 0x1_0000_0000 ==> (counted is Ok <==> old(dump).data_bytes()
                + byte_count <= 0xffff_ffff)
            &&& byte_count < 0x1_0000_0000 && counted is Ok ==> final(dump).data_bytes()
                == old(dump).data_bytes() + byte_count
            &&& counted is Err ==> final(dump).data_bytes() == old(dump).data_bytes()
        },
{
    law_headers_fail_where_a_field_overflows(sample_rate, channels, data_bytes);
    law_wav_header_is_replaceable(sample_rate, channels, data_bytes);
    if wav_header_error(sample_rate, channels, data_bytes) is None {
        law_wav_header_describes_the_audio(sample_rate, channels, data_bytes);
    }
}

/// Captured audio is read by its layout: interleaved audio from its one buffer, planar audio from
/// a buffer for each channel, each sample of the bytes of its frame and channel.
pub proof fn law_captured_audio_is_read_by_its_layout(
    buffers: &Vec<CapturedBuffer>,
    layout: StreamLayout,
    result: Result<Vec<Vec<u32>>, LayoutError>,
    frame: int,
    channel: int,
)
    requires
        call_ensures(decode_core_audio_samples, (buffers, layout), result),
        0 <= frame,
        0 <= channel,
    ensures
        buffers@.len() == 0 ==> (result matches Ok(frames) && frames@.len() == 0),
        buffers@.len() > 0 && layout.interleaved ==> (result matches Ok(frames) ==> (
        width_of(layout.coding, layout.packed) matches Ok(width) && (frame < frames@.len()
            && channel < layout.channel_count ==> frames@[frame]@.len() == layout.channel_count
            && frames@[frame]@[channel] == bytes_value(
            buffers@[0].bytes().subrange(
                (frame * layout.channel_count + channel) * width,
                (frame * layout.channel_count + channel) * width + width,
            ),
            layout.big_endian,
        ) as u32))),
        buffers@.len() > 0 && !layout.interleaved ==> (result matches Ok(frames) ==> (
        width_of(layout.coding, layout.packed) matches Ok(width) && (frame < frames@.len()
            && channel < buffers@.len() ==> frames@[frame]@.len() == buffers@.len()
            && frames@[frame]@[channel] == bytes_value(
            buffers@[channel].bytes().subrange(frame * width, frame * width + width),
            layout.big_endian,
        ) as u32))),
        buffers@.len() > 0 && layout.coding == SampleCoding::Int24 && !layout.packed
            ==> result is Err,
{
    if let Ok(frames) = result {
        let said = captured_words(buffers@, layout)->Ok_0;
        assert(frame_views(frames@) == said);
        assert(frame_views(frames@).len() == frames@.len());
        if frame < frames@.len() {
            assert(frame_views(frames@)[frame] == frames@[frame]@);
        }
    }
}

} // verus!
