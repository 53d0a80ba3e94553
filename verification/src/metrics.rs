//! The sequencer's metrics and their lines in the Telegraf line protocol.
use vstd::prelude::*;
use vstd::string::StringSliceAdditionalSpecFns;

use crate::text::{decimal_bytes, push_decimal, push_str};
use crate::time::Duration;

verus! {

#[verifier::external_type_specification]
#[verifier::external_body]
pub struct ExIoError(std::io::Error);

/// The whole milliseconds of a span.
pub open spec fn millis(d: Duration) -> nat {
    d.total_nanos() / 1_000_000
}

/// The whole microseconds of a span.
pub open spec fn micros(d: Duration) -> nat {
    d.total_nanos() / 1_000
}

/// `true` or `false`.
pub open spec fn bool_bytes(b: bool) -> Seq<u8> {
    if b {
        "true".spec_bytes()
    } else {
        "false".spec_bytes()
    }
}

fn push_bool(buf: &mut Vec<u8>, b: bool)
    ensures
        final(buf)@ == old(buf)@ + bool_bytes(b),
{
    if b {
        push_str(buf, "true");
    } else {
        push_str(buf, "false");
    }
}

/// Timings and counts of one state update.
#[derive(Debug)]
pub struct PreferredSequencerUpdateStateMetrics {
    pub duration: Duration,
    pub total_message_processing_duration: Duration,
    pub batches_count: u64,
    pub transactions_count: u64,
    pub in_progress_batch: bool,
    pub time_spent_fetching_batches: Duration,
}

impl PreferredSequencerUpdateStateMetrics {
    pub open spec fn spec_line(&self) -> Seq<u8> {
        "sov_rollup_preferred_sequencer_update_state".spec_bytes() + " duration_ms=".spec_bytes()
            + decimal_bytes(millis(self.duration)) + ",total_message_processing_duration_ms=".spec_bytes()
            + decimal_bytes(millis(self.total_message_processing_duration))
            + ",fetch_batches_duration_us=".spec_bytes() + decimal_bytes(
            micros(self.time_spent_fetching_batches),
        ) + ",batches_count=".spec_bytes() + decimal_bytes(self.batches_count as nat)
            + ",transactions_count=".spec_bytes() + decimal_bytes(self.transactions_count as nat)
            + ",in_progress_batch=".spec_bytes() + bool_bytes(self.in_progress_batch)
    }

    pub fn measurement_name(&self) -> (r: &'static str)
        ensures
            r@ == "sov_rollup_preferred_sequencer_update_state"@,
    {
        "sov_rollup_preferred_sequencer_update_state"
    }

    /// Appends the metric's line.
    pub fn serialize_for_telegraf(&self, buffer: &mut Vec<u8>) -> (r: Result<(), std::io::Error>)
        ensures
            r is Ok,
            final(buffer)@ == old(buffer)@ + self.spec_line(),
    {
        let ghost start = buffer@;
        push_str(buffer, "sov_rollup_preferred_sequencer_update_state");
        push_str(buffer, " duration_ms=");
        push_decimal(buffer, self.duration.as_millis());
        push_str(buffer, ",total_message_processing_duration_ms=");
        push_decimal(buffer, self.total_message_processing_duration.as_millis());
        push_str(buffer, ",fetch_batches_duration_us=");
        push_decimal(buffer, self.time_spent_fetching_batches.as_micros());
        push_str(buffer, ",batches_count=");
        push_decimal(buffer, self.batches_count as u128);
        push_str(buffer, ",transactions_count=");
        push_decimal(buffer, self.transactions_count as u128);
        push_str(buffer, ",in_progress_batch=");
        push_bool(buffer, self.in_progress_batch);
        proof {
            assert(buffer@ =~= start + self.spec_line());
        }
        Ok(())
    }
}

/// How long a message waited in the sequencer's channel, and why it was sent.
#[derive(Debug)]
pub struct PreferredSequencerChannelMetrics {
    pub duration: Duration,
    pub reason: &'static str,
    pub channel_size: u32,
}

impl PreferredSequencerChannelMetrics {
    pub open spec fn spec_line(&self) -> Seq<u8> {
        "sov_rollup_preferred_sequencer_channel".spec_bytes() + ",reason=".spec_bytes()
            + self.reason.spec_bytes() + " duration_us=".spec_bytes() + decimal_bytes(micros(self.duration))
            + ",channel_size=".spec_bytes() + decimal_bytes(self.channel_size as nat)
    }

    pub fn measurement_name(&self) -> (r: &'static str)
        ensures
            r@ == "sov_rollup_preferred_sequencer_channel"@,
    {
        "sov_rollup_preferred_sequencer_channel"
    }

    /// Appends the metric's line.
    pub fn serialize_for_telegraf(&self, buffer: &mut Vec<u8>) -> (r: Result<(), std::io::Error>)
        ensures
            r is Ok,
            final(buffer)@ == old(buffer)@ + self.spec_line(),
    {
        let ghost start = buffer@;
        push_str(buffer, "sov_rollup_preferred_sequencer_channel");
        push_str(buffer, ",reason=");
        push_str(buffer, self.reason);
        push_str(buffer, " duration_us=");
        push_decimal(buffer, self.duration.as_micros());
        push_str(buffer, ",channel_size=");
        push_decimal(buffer, self.channel_size as u128);
        proof {
            assert(buffer@ =~= start + self.spec_line());
        }
        Ok(())
    }
}

/// The lines of `ms`, separated by newlines.
pub open spec fn channel_lines(ms: Seq<PreferredSequencerChannelMetrics>) -> Seq<u8>
    decreases ms.len(),
{
    if ms.len() == 0 {
        Seq::empty()
    } else if ms.len() == 1 {
        ms[0].spec_line()
    } else {
        channel_lines(ms.drop_last()) + seq![10u8] + ms.last().spec_line()
    }
}

/// Several channel metrics sent together.
#[derive(Debug)]
pub struct PreferredSequencerChannelMetricsBatch {
    pub metrics: Vec<PreferredSequencerChannelMetrics>,
}

impl PreferredSequencerChannelMetricsBatch {
    pub fn measurement_name(&self) -> (r: &'static str)
        ensures
            r@ == "sov_rollup_preferred_sequencer_channel"@,
    {
        "sov_rollup_preferred_sequencer_channel"
    }

    /// Appends the lines of the metrics, one per line; nothing when there
    /// is none.
    pub fn serialize_for_telegraf(&self, buffer: &mut Vec<u8>) -> (r: Result<(), std::io::Error>)
        ensures
            r is Ok,
            final(buffer)@ == old(buffer)@ + channel_lines(self.metrics@),
    {
        let ghost start = buffer@;
        let n = self.metrics.len();
        let mut i: usize = 0;
        proof {
            assert(buffer@ =~= start + channel_lines(self.metrics@.take(0)));
        }
        while i < n
            invariant
                n == self.metrics@.len(),
                i <= n,
                buffer@ == start + channel_lines(self.metrics@.take(i as int)),
            decreases n - i,
        {
            let ghost before = buffer@;
            if i > 0 {
                buffer.push(10u8);
            }
            let _ = self.metrics[i].serialize_for_telegraf(buffer);
            proof {
                let ms = self.metrics@.take(i as int + 1);
                assert(ms.drop_last() =~= self.metrics@.take(i as int));
                assert(ms.last() == self.metrics@[i as int]);
                if i > 0 {
                    assert(buffer@ =~= start + channel_lines(ms));
                } else {
                    assert(ms.len() == 1);
                    assert(buffer@ =~= start + channel_lines(ms));
                }
            }
            i = i + 1;
        }
        proof {
            assert(self.metrics@.take(n as int) =~= self.metrics@);
        }
        Ok(())
    }
}

/// How long an executor event took, and for how big a batch.
#[derive(Debug)]
pub struct PreferredSequencerExecutorEventMetrics {
    pub event_type: &'static str,
    pub duration: Duration,
    pub batch_size: usize,
}

impl PreferredSequencerExecutorEventMetrics {
    pub open spec fn spec_line(&self) -> Seq<u8> {
        "sov_rollup_preferred_sequencer_executor_event".spec_bytes() + ",event_type=".spec_bytes()
            + self.event_type.spec_bytes() + " duration_us=".spec_bytes() + decimal_bytes(
            micros(self.duration),
        ) + ",batch_size=".spec_bytes() + decimal_bytes(self.batch_size as nat)
    }

    pub fn measurement_name(&self) -> (r: &'static str)
        ensures
            r@ == "sov_rollup_preferred_sequencer_executor_event"@,
    {
        "sov_rollup_preferred_sequencer_executor_event"
    }

    /// Appends the metric's line.
    pub fn serialize_for_telegraf(&self, buffer: &mut Vec<u8>) -> (r: Result<(), std::io::Error>)
        ensures
            r is Ok,
            final(buffer)@ == old(buffer)@ + self.spec_line(),
    {
        let ghost start = buffer@;
        push_str(buffer, "sov_rollup_preferred_sequencer_executor_event");
        push_str(buffer, ",event_type=");
        push_str(buffer, self.event_type);
        push_str(buffer, " duration_us=");
        push_decimal(buffer, self.duration.as_micros());
        push_str(buffer, ",batch_size=");
        push_decimal(buffer, self.batch_size as u128);
        proof {
            assert(buffer@ =~= start + self.spec_line());
        }
        Ok(())
    }
}

/// How long fetching the batches to replay took, and how much was fetched.
#[derive(Debug)]
pub struct PreferredSequencerFetchBatchesToReplayMetrics {
    pub duration: Duration,
    pub num_batches: u64,
    pub num_transactions: usize,
}

impl PreferredSequencerFetchBatchesToReplayMetrics {
    pub open spec fn spec_line(&self) -> Seq<u8> {
        "sov_rollup_preferred_sequencer_fetch_batches_to_replay".spec_bytes() + " duration_us=".spec_bytes()
            + decimal_bytes(micros(self.duration)) + ",num_batches=".spec_bytes() + decimal_bytes(
            self.num_batches as nat,
        ) + ",num_transactions=".spec_bytes() + decimal_bytes(self.num_transactions as nat)
    }

    pub fn measurement_name(&self) -> (r: &'static str)
        ensures
            r@ == "sov_rollup_preferred_sequencer_fetch_batches_to_replay"@,
    {
        "sov_rollup_preferred_sequencer_fetch_batches_to_replay"
    }

    /// Appends the metric's line.
    pub fn serialize_for_telegraf(&self, buffer: &mut Vec<u8>) -> (r: Result<(), std::io::Error>)
        ensures
            r is Ok,
            final(buffer)@ == old(buffer)@ + self.spec_line(),
    {
        let ghost start = buffer@;
        push_str(buffer, "sov_rollup_preferred_sequencer_fetch_batches_to_replay");
        push_str(buffer, " duration_us=");
        push_decimal(buffer, self.duration.as_micros());
        push_str(buffer, ",num_batches=");
        push_decimal(buffer, self.num_batches as u128);
        push_str(buffer, ",num_transactions=");
        push_decimal(buffer, self.num_transactions as u128);
        proof {
            assert(buffer@ =~= start + self.spec_line());
        }
        Ok(())
    }
}

/// How long pruning the sequencer's database took.
#[derive(Debug)]
pub struct PreferredSequencerPruneMetrics {
    pub duration_ms: u64,
}

impl PreferredSequencerPruneMetrics {
    pub open spec fn spec_line(&self) -> Seq<u8> {
        "sov_rollup_preferred_sequencer_prune".spec_bytes() + " duration_ms=".spec_bytes() + decimal_bytes(
            self.duration_ms as nat,
        )
    }

    pub fn measurement_name(&self) -> (r: &'static str)
        ensures
            r@ == "sov_rollup_preferred_sequencer_prune"@,
    {
        "sov_rollup_preferred_sequencer_prune"
    }

    /// Appends the metric's line.
    pub fn serialize_for_telegraf(&self, buffer: &mut Vec<u8>) -> (r: Result<(), std::io::Error>)
        ensures
            r is Ok,
            final(buffer)@ == old(buffer)@ + self.spec_line(),
    {
        let ghost start = buffer@;
        push_str(buffer, "sov_rollup_preferred_sequencer_prune");
        push_str(buffer, " duration_ms=");
        push_decimal(buffer, self.duration_ms as u128);
        proof {
            assert(buffer@ =~= start + self.spec_line());
        }
        Ok(())
    }
}

/// How long sending an executor event was blocked, and how deep its queue was.
#[derive(Debug)]
pub struct PreferredSequencerExecutorEventSendingMetrics {
    pub blocked_for_us: u64,
    pub queue_depth: usize,
}

impl Default for PreferredSequencerExecutorEventSendingMetrics {
    fn default() -> (r: Self)
        ensures
            r.blocked_for_us == 0,
            r.queue_depth == 0,
    {
        PreferredSequencerExecutorEventSendingMetrics { blocked_for_us: 0, queue_depth: 0 }
    }
}

impl PreferredSequencerExecutorEventSendingMetrics {
    pub open spec fn spec_line(&self) -> Seq<u8> {
        "sov_rollup_preferred_sequencer_executor_event_sending".spec_bytes() + " blocked_for_us=".spec_bytes()
            + decimal_bytes(self.blocked_for_us as nat) + ",queue_depth=".spec_bytes() + decimal_bytes(
            self.queue_depth as nat,
        )
    }

    pub fn measurement_name(&self) -> (r: &'static str)
        ensures
            r@ == "sov_rollup_preferred_sequencer_executor_event_sending"@,
    {
        "sov_rollup_preferred_sequencer_executor_event_sending"
    }

    /// Appends the metric's line.
    pub fn serialize_for_telegraf(&self, buffer: &mut Vec<u8>) -> (r: Result<(), std::io::Error>)
        ensures
            r is Ok,
            final(buffer)@ == old(buffer)@ + self.spec_line(),
    {
        let ghost start = buffer@;
        push_str(buffer, "sov_rollup_preferred_sequencer_executor_event_sending");
        push_str(buffer, " blocked_for_us=");
        push_decimal(buffer, self.blocked_for_us as u128);
        push_str(buffer, ",queue_depth=");
        push_decimal(buffer, self.queue_depth as u128);
        proof {
            assert(buffer@ =~= start + self.spec_line());
        }
        Ok(())
    }
}

/// The depth of the cache warm-up executor's transaction channel.
#[derive(Debug)]
pub struct CacheWarmUpMetrics {
    pub tx_channel_size: u64,
}

impl CacheWarmUpMetrics {
    pub open spec fn spec_line(&self) -> Seq<u8> {
        "sov_sequencer_cache_warmup_metrics".spec_bytes() + " tx_channel_size=".spec_bytes() + decimal_bytes(
            self.tx_channel_size as nat,
        )
    }

    pub fn measurement_name(&self) -> (r: &'static str)
        ensures
            r@ == "sov_sequencer_cache_warmup_metrics"@,
    {
        "sov_sequencer_cache_warmup_metrics"
    }

    /// Appends the metric's line.
    pub fn serialize_for_telegraf(&self, buffer: &mut Vec<u8>) -> (r: Result<(), std::io::Error>)
        ensures
            r is Ok,
            final(buffer)@ == old(buffer)@ + self.spec_line(),
    {
        let ghost start = buffer@;
        push_str(buffer, "sov_sequencer_cache_warmup_metrics");
        push_str(buffer, " tx_channel_size=");
        push_decimal(buffer, self.tx_channel_size as u128);
        proof {
            assert(buffer@ =~= start + self.spec_line());
        }
        Ok(())
    }
}

} // verus!
