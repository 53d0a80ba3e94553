use sov_sequencer::metrics::{
    PreferredSequencerChannelMetrics, PreferredSequencerChannelMetricsBatch, PreferredSequencerExecutorEventMetrics,
    PreferredSequencerExecutorEventSendingMetrics, PreferredSequencerFetchBatchesToReplayMetrics,
    PreferredSequencerPruneMetrics, PreferredSequencerUpdateStateMetrics,
};
use sov_sequencer::time::Duration;
use sov_sequencer::metrics::CacheWarmUpMetrics;

fn text(buffer: Vec<u8>) -> String {
    String::from_utf8(buffer).unwrap()
}

#[test]
fn update_state_line() {
    let m = PreferredSequencerUpdateStateMetrics {
        duration: Duration::from_micros(12_345),
        total_message_processing_duration: Duration::from_millis(7),
        batches_count: 3,
        transactions_count: 120,
        in_progress_batch: true,
        time_spent_fetching_batches: Duration::from_micros(250),
    };
    let mut buffer = Vec::new();
    m.serialize_for_telegraf(&mut buffer).unwrap();
    assert_eq!(
        text(buffer),
        "sov_rollup_preferred_sequencer_update_state duration_ms=12,total_message_processing_duration_ms=7,fetch_batches_duration_us=250,batches_count=3,transactions_count=120,in_progress_batch=true"
    );
    assert_eq!(m.measurement_name(), "sov_rollup_preferred_sequencer_update_state");
}

#[test]
fn channel_lines_are_joined_by_newlines() {
    let one = PreferredSequencerChannelMetrics {
        duration: Duration::from_micros(5),
        reason: "accept_tx",
        channel_size: 2,
    };
    let mut buffer = b"prefix:".to_vec();
    one.serialize_for_telegraf(&mut buffer).unwrap();
    assert_eq!(
        text(buffer),
        "prefix:sov_rollup_preferred_sequencer_channel,reason=accept_tx duration_us=5,channel_size=2"
    );

    let batch = PreferredSequencerChannelMetricsBatch {
        metrics: vec![
            PreferredSequencerChannelMetrics {
                duration: Duration::from_micros(5),
                reason: "a",
                channel_size: 0,
            },
            PreferredSequencerChannelMetrics {
                duration: Duration::from_millis(1),
                reason: "b",
                channel_size: 10,
            },
        ],
    };
    let mut buffer = Vec::new();
    batch.serialize_for_telegraf(&mut buffer).unwrap();
    assert_eq!(
        text(buffer),
        "sov_rollup_preferred_sequencer_channel,reason=a duration_us=5,channel_size=0\nsov_rollup_preferred_sequencer_channel,reason=b duration_us=1000,channel_size=10"
    );

    let empty = PreferredSequencerChannelMetricsBatch { metrics: Vec::new() };
    let mut buffer = Vec::new();
    empty.serialize_for_telegraf(&mut buffer).unwrap();
    assert!(buffer.is_empty());
}

#[test]
fn other_lines() {
    let mut buffer = Vec::new();
    PreferredSequencerExecutorEventMetrics {
        event_type: "close_batch",
        duration: Duration::from_micros(1001),
        batch_size: 0,
    }
    .serialize_for_telegraf(&mut buffer)
    .unwrap();
    assert_eq!(
        text(buffer),
        "sov_rollup_preferred_sequencer_executor_event,event_type=close_batch duration_us=1001,batch_size=0"
    );

    let mut buffer = Vec::new();
    PreferredSequencerFetchBatchesToReplayMetrics {
        duration: Duration::from_micros(99),
        num_batches: 18446744073709551615,
        num_transactions: 10,
    }
    .serialize_for_telegraf(&mut buffer)
    .unwrap();
    assert_eq!(
        text(buffer),
        "sov_rollup_preferred_sequencer_fetch_batches_to_replay duration_us=99,num_batches=18446744073709551615,num_transactions=10"
    );

    let mut buffer = Vec::new();
    PreferredSequencerPruneMetrics { duration_ms: 40 }
        .serialize_for_telegraf(&mut buffer)
        .unwrap();
    assert_eq!(text(buffer), "sov_rollup_preferred_sequencer_prune duration_ms=40");

    let mut buffer = Vec::new();
    let sending = PreferredSequencerExecutorEventSendingMetrics::default();
    sending.serialize_for_telegraf(&mut buffer).unwrap();
    assert_eq!(
        text(buffer),
        "sov_rollup_preferred_sequencer_executor_event_sending blocked_for_us=0,queue_depth=0"
    );
}

#[test]
fn cache_warm_up_line() {
    let mut buffer = Vec::new();
    CacheWarmUpMetrics { tx_channel_size: 31 }
        .serialize_for_telegraf(&mut buffer)
        .unwrap();
    assert_eq!(text(buffer), "sov_sequencer_cache_warmup_metrics tx_channel_size=31");
}
