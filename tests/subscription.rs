use std::time::Duration;

use orbit::bar;
use orbit::subscription::{flatten, Subscription};

#[test]
fn flatten_is_depth_first_and_drops_combinators() {
    let tree = Subscription::Batch(vec![
        Subscription::Interval { every: Duration::from_secs(1), message: 1u8 },
        Subscription::Empty,
        Subscription::Batch(vec![
            Subscription::Timeout { after: Duration::from_millis(5), message: 2u8 },
            Subscription::Batch(vec![]),
            Subscription::Interval { every: Duration::from_secs(60), message: 3u8 },
        ]),
    ]);
    let leaves = flatten(tree);
    assert_eq!(leaves.len(), 3);
    let messages: Vec<u8> = leaves
        .iter()
        .map(|s| match s {
            Subscription::Interval { message, .. } | Subscription::Timeout { message, .. } => *message,
            _ => panic!("combinator left in the flattened list"),
        })
        .collect();
    assert_eq!(messages, vec![1, 2, 3]);
    assert!(matches!(leaves[1], Subscription::Timeout { after, .. } if after == Duration::from_millis(5)));
}

#[test]
fn flatten_of_nothing_is_empty() {
    assert!(flatten(Subscription::<bar::Msg>::Empty).is_empty());
    assert_eq!(
        flatten(Subscription::Interval { every: Duration::from_secs(1), message: bar::Msg::Tick }).len(),
        1
    );
}
