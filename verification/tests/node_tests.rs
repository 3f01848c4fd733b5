use compute_node::channel::{FifoReceiver, FifoSender, Terminal};
use compute_node::node::{GenericComputeNode_1_1, RunOutcome};
use compute_node::transforms::{DoublingTransform, EvenFilter, IdentityTransform, SummingTransform};

#[test]
fn doubling_forwards_each_item_doubled_in_order() {
    let rx = FifoReceiver::new(vec![1u64, 2, 3], Terminal::Corked);
    let tx = FifoSender::new();
    let mut node =
        GenericComputeNode_1_1::new("double".to_owned(), rx, tx, DoublingTransform::new());
    let outcome = node.run();
    assert!(matches!(outcome, RunOutcome::Completed));
    let (_, _, tx, _) = node.into_parts();
    assert_eq!(*tx.sent_items(), vec![2u64, 4, 6]);
}

#[test]
fn empty_corked_input_emits_nothing_and_completes() {
    let rx = FifoReceiver::new(Vec::<u64>::new(), Terminal::Corked);
    let tx = FifoSender::new();
    let mut node =
        GenericComputeNode_1_1::new("double".to_owned(), rx, tx, DoublingTransform::new());
    let outcome = node.run();
    assert!(matches!(outcome, RunOutcome::Completed));
    let (_, _, tx, _) = node.into_parts();
    assert_eq!(*tx.sent_items(), Vec::<u64>::new());
}

#[test]
fn filtered_out_item_sends_nothing() {
    let rx = FifoReceiver::new(vec![5u64], Terminal::Corked);
    let tx = FifoSender::new();
    let mut node = GenericComputeNode_1_1::new("filter".to_owned(), rx, tx, EvenFilter::new());
    let outcome = node.run();
    assert!(matches!(outcome, RunOutcome::Completed));
    let (_, _, tx, _) = node.into_parts();
    assert_eq!(*tx.sent_items(), Vec::<u64>::new());
}

#[test]
fn filter_keeps_even_items_in_order() {
    let rx = FifoReceiver::new(vec![1u64, 2, 3, 4, 6, 7], Terminal::Corked);
    let tx = FifoSender::new();
    let mut node = GenericComputeNode_1_1::new("filter".to_owned(), rx, tx, EvenFilter::new());
    let outcome = node.run();
    assert!(matches!(outcome, RunOutcome::Completed));
    let (_, _, tx, _) = node.into_parts();
    assert_eq!(*tx.sent_items(), vec![2u64, 4, 6]);
}

#[test]
fn summing_emits_only_on_the_final_call() {
    let rx = FifoReceiver::new(vec![1u64, 2], Terminal::Corked);
    let tx = FifoSender::new();
    let mut node = GenericComputeNode_1_1::new("sum".to_owned(), rx, tx, SummingTransform::new());
    let outcome = node.run();
    assert!(matches!(outcome, RunOutcome::Completed));
    let (_, _, tx, _) = node.into_parts();
    assert_eq!(*tx.sent_items(), vec![3u64]);
}

#[test]
fn summing_over_empty_input_emits_zero() {
    let rx = FifoReceiver::new(Vec::<u64>::new(), Terminal::Corked);
    let tx = FifoSender::new();
    let mut node = GenericComputeNode_1_1::new("sum".to_owned(), rx, tx, SummingTransform::new());
    let outcome = node.run();
    assert!(matches!(outcome, RunOutcome::Completed));
    let (_, _, tx, _) = node.into_parts();
    assert_eq!(*tx.sent_items(), vec![0u64]);
}

#[test]
fn summing_clips_at_the_largest_value() {
    let rx = FifoReceiver::new(vec![u64::MAX, 1, 7], Terminal::Corked);
    let tx = FifoSender::new();
    let mut node = GenericComputeNode_1_1::new("sum".to_owned(), rx, tx, SummingTransform::new());
    let outcome = node.run();
    assert!(matches!(outcome, RunOutcome::Completed));
    let (_, _, tx, _) = node.into_parts();
    assert_eq!(*tx.sent_items(), vec![u64::MAX]);
}

#[test]
fn poisoned_channel_stops_the_node_after_the_delivered_items() {
    let rx = FifoReceiver::new(vec![1u64], Terminal::Poisoned);
    let tx = FifoSender::new();
    let mut node =
        GenericComputeNode_1_1::new("double".to_owned(), rx, tx, DoublingTransform::new());
    let outcome = node.run();
    assert!(matches!(outcome, RunOutcome::Fault));
    let (_, _, tx, _) = node.into_parts();
    assert_eq!(*tx.sent_items(), vec![2u64]);
}

#[test]
fn poisoned_channel_earns_the_summing_transform_no_flush() {
    let rx = FifoReceiver::new(vec![1u64, 2], Terminal::Poisoned);
    let tx = FifoSender::new();
    let mut node = GenericComputeNode_1_1::new("sum".to_owned(), rx, tx, SummingTransform::new());
    let outcome = node.run();
    assert!(matches!(outcome, RunOutcome::Fault));
    let (_, _, tx, _) = node.into_parts();
    assert_eq!(*tx.sent_items(), Vec::<u64>::new());
}

#[test]
fn identity_emits_the_input_sequence_unchanged() {
    let rx = FifoReceiver::new(vec![9u64, 4, 4, 0], Terminal::Corked);
    let tx = FifoSender::new();
    let mut node = GenericComputeNode_1_1::new("id".to_owned(), rx, tx, IdentityTransform::new());
    let outcome = node.run();
    assert!(matches!(outcome, RunOutcome::Completed));
    let (_, _, tx, _) = node.into_parts();
    assert_eq!(*tx.sent_items(), vec![9u64, 4, 4, 0]);
}

#[test]
fn doubling_suppresses_an_item_that_would_overflow() {
    let rx = FifoReceiver::new(vec![3u64, u64::MAX / 2 + 1, 5], Terminal::Corked);
    let tx = FifoSender::new();
    let mut node =
        GenericComputeNode_1_1::new("double".to_owned(), rx, tx, DoublingTransform::new());
    let outcome = node.run();
    assert!(matches!(outcome, RunOutcome::Completed));
    let (_, _, tx, _) = node.into_parts();
    assert_eq!(*tx.sent_items(), vec![6u64, 10]);
}

#[test]
fn a_fresh_node_reproduces_the_same_output_sequence() {
    let mut first_out: Vec<u64> = Vec::new();
    let mut second_out: Vec<u64> = Vec::new();
    for out in [&mut first_out, &mut second_out] {
        let rx = FifoReceiver::new(vec![8u64, 3, 2], Terminal::Corked);
        let tx = FifoSender::new();
        let mut node =
            GenericComputeNode_1_1::new("filter".to_owned(), rx, tx, EvenFilter::new());
        let outcome = node.run();
        assert!(matches!(outcome, RunOutcome::Completed));
        let (_, _, tx, _) = node.into_parts();
        *out = tx.sent_items().clone();
    }
    assert_eq!(first_out, second_out);
    assert_eq!(first_out, vec![8u64, 2]);
}

#[test]
fn name_returns_the_identity_given_at_construction() {
    let rx = FifoReceiver::new(Vec::<u64>::new(), Terminal::Corked);
    let tx = FifoSender::<u64>::new();
    let node = GenericComputeNode_1_1::new("stage-7".to_owned(), rx, tx, EvenFilter::new());
    assert_eq!(node.name(), "stage-7");
}

#[test]
fn into_parts_returns_the_bound_name() {
    let rx = FifoReceiver::new(Vec::<u64>::new(), Terminal::Corked);
    let tx = FifoSender::<u64>::new();
    let node = GenericComputeNode_1_1::new("stage-8".to_owned(), rx, tx, EvenFilter::new());
    let (name, _, tx, _) = node.into_parts();
    assert_eq!(name, "stage-8");
    assert_eq!(*tx.sent_items(), Vec::<u64>::new());
}
