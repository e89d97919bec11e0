//! Configuration of a saver: batch size, flush interval, queue capacity, key
//! prefix and sanitizer pipeline, gathered by a fluent builder.

use vstd::prelude::*;

use std::time::Duration;

use crate::sanitizer::{stage_apply, Sanitizer, SanitizerPipeline, StageView};

verus! {

/// Items gathered before a flush, unless configured otherwise.
pub const DEFAULT_BATCH_SIZE: usize = 50;

/// Seconds between timed flushes, unless configured otherwise.
pub const DEFAULT_FLUSH_SECS: u64 = 5;

/// Capacity of the queue to the worker, unless configured otherwise.
pub const DEFAULT_CHANNEL_BUFFER: usize = 1000;

/// What `Duration::from_secs` returns for `secs`.
pub uninterp spec fn duration_of_secs(secs: u64) -> Duration;

/// Relies on `std::time::Duration::from_secs`: a span of whole seconds.
#[verifier::external_body]
fn seconds(secs: u64) -> (r: Duration)
    ensures
        r == duration_of_secs(secs),
{
    Duration::from_secs(secs)
}

/// The settings a worker is started with.
pub struct SaverConfig {
    /// Items gathered before a flush.
    pub batch_size: usize,
    /// Time after which a non-empty batch is flushed regardless of size.
    pub flush_interval: Duration,
    /// Capacity of the queue between producers and the worker.
    pub channel_buffer: usize,
    /// The stages each item's content goes through.
    pub sanitizers: SanitizerPipeline,
    /// Prepended to every storage key, with a `/`, when not empty.
    pub prefix: String,
}

/// Builder for the settings of a saver and its storage backend.
pub struct HtmlSaverBuilder<S> {
    storage: S,
    config: SaverConfig,
}

impl<S> HtmlSaverBuilder<S> {
    pub closed spec fn spec_storage(&self) -> S {
        self.storage
    }

    pub closed spec fn spec_config(&self) -> SaverConfig {
        self.config
    }

    /// A builder for `storage` with the defaults: batches of 50, a flush
    /// every 5 s, a queue of 1000, no sanitizer and no prefix.
    pub fn new(storage: S) -> (r: Self)
        ensures
            r.spec_storage() == storage,
            r.spec_config().batch_size == DEFAULT_BATCH_SIZE,
            r.spec_config().flush_interval == duration_of_secs(DEFAULT_FLUSH_SECS),
            r.spec_config().channel_buffer == DEFAULT_CHANNEL_BUFFER,
            r.spec_config().sanitizers@ == Seq::<StageView>::empty(),
            r.spec_config().prefix@ == Seq::<char>::empty(),
    {
        HtmlSaverBuilder {
            storage,
            config: SaverConfig {
                batch_size: DEFAULT_BATCH_SIZE,
                flush_interval: seconds(DEFAULT_FLUSH_SECS),
                channel_buffer: DEFAULT_CHANNEL_BUFFER,
                sanitizers: SanitizerPipeline::new(),
                prefix: String::new(),
            },
        }
    }

    /// Sets how many items are gathered before a flush.
    pub fn batch_size(self, size: usize) -> (r: Self)
        ensures
            r.spec_storage() == self.spec_storage(),
            r.spec_config() == (SaverConfig { batch_size: size, ..self.spec_config() }),
    {
        let HtmlSaverBuilder { storage, config } = self;
        HtmlSaverBuilder { storage, config: SaverConfig { batch_size: size, ..config } }
    }

    /// Sets the time after which a non-empty batch is flushed regardless of size.
    pub fn flush_interval(self, interval: Duration) -> (r: Self)
        ensures
            r.spec_storage() == self.spec_storage(),
            r.spec_config() == (SaverConfig { flush_interval: interval, ..self.spec_config() }),
    {
        let HtmlSaverBuilder { storage, config } = self;
        HtmlSaverBuilder { storage, config: SaverConfig { flush_interval: interval, ..config } }
    }

    /// Sets the capacity of the queue between producers and the worker.
    pub fn channel_buffer(self, size: usize) -> (r: Self)
        ensures
            r.spec_storage() == self.spec_storage(),
            r.spec_config() == (SaverConfig { channel_buffer: size, ..self.spec_config() }),
    {
        let HtmlSaverBuilder { storage, config } = self;
        HtmlSaverBuilder { storage, config: SaverConfig { channel_buffer: size, ..config } }
    }

    /// Appends a sanitizer to the pipeline. Sanitizers run in the order they
    /// were added, each on the output of the one before.
    pub fn add_sanitizer<T: Sanitizer>(self, sanitizer: T) -> (r: Self)
        ensures
            r.spec_storage() == self.spec_storage(),
            r.spec_config().batch_size == self.spec_config().batch_size,
            r.spec_config().flush_interval == self.spec_config().flush_interval,
            r.spec_config().channel_buffer == self.spec_config().channel_buffer,
            r.spec_config().prefix == self.spec_config().prefix,
            r.spec_config().sanitizers@.len() == self.spec_config().sanitizers@.len() + 1,
            r.spec_config().sanitizers@.drop_last() == self.spec_config().sanitizers@,
            forall|html: Seq<char>| #[trigger] stage_apply(r.spec_config().sanitizers@.last(), html)
                == sanitizer.spec_sanitize(html),
    {
        let HtmlSaverBuilder { storage, mut config } = self;
        config.sanitizers.add(sanitizer);
        HtmlSaverBuilder { storage, config }
    }

    /// Sets the prefix prepended to every storage key, separated by `/`.
    pub fn prefix(self, prefix: &str) -> (r: Self)
        ensures
            r.spec_storage() == self.spec_storage(),
            r.spec_config().batch_size == self.spec_config().batch_size,
            r.spec_config().flush_interval == self.spec_config().flush_interval,
            r.spec_config().channel_buffer == self.spec_config().channel_buffer,
            r.spec_config().sanitizers == self.spec_config().sanitizers,
            r.spec_config().prefix@ == prefix@,
    {
        let HtmlSaverBuilder { storage, config } = self;
        HtmlSaverBuilder { storage, config: SaverConfig { prefix: prefix.to_owned(), ..config } }
    }

    /// The storage backend and the settings, for starting the worker.
    pub fn into_parts(self) -> (r: (S, SaverConfig))
        ensures
            r.0 == self.spec_storage(),
            r.1 == self.spec_config(),
    {
        (self.storage, self.config)
    }
}

} // verus!
