use mqtt_session::packets::{QoS, RetainHandling, SubscriptionOptions};
use mqtt_session::subs::{Subs, filter_valid, topic_matches_filter};

fn opts() -> SubscriptionOptions {
    SubscriptionOptions {
        no_local: false,
        retain_as_published: false,
        retain_handling: RetainHandling::SendAtSubscribe,
    }
}

#[test]
fn wildcard_matching_basics() {
    // topic a/b/c matches both a/+/c and a/#
    assert!(topic_matches_filter(b"a/+/c", b"a/b/c"));
    assert!(topic_matches_filter(b"a/#", b"a/b/c"));
    // topic a/b matches only a/#
    assert!(!topic_matches_filter(b"a/+/c", b"a/b"));
    assert!(topic_matches_filter(b"a/#", b"a/b"));
}

#[test]
fn multi_level_wildcard_matches_parent() {
    assert!(topic_matches_filter(b"a/#", b"a"));
    assert!(!topic_matches_filter(b"a/#", b"b"));
    assert!(topic_matches_filter(b"#", b"a/b/c"));
}

#[test]
fn single_level_wildcard_is_one_segment() {
    assert!(topic_matches_filter(b"+", b"a"));
    assert!(!topic_matches_filter(b"+", b"a/b"));
    assert!(topic_matches_filter(b"a/+", b"a/b"));
    assert!(!topic_matches_filter(b"a/+", b"a"));
}

#[test]
fn matching_is_exact_on_literals() {
    assert!(topic_matches_filter(b"a/b", b"a/b"));
    assert!(!topic_matches_filter(b"a/b", b"a/B"));
    assert!(!topic_matches_filter(b"a/b", b"a/b/c"));
}

#[test]
fn empty_segments_are_real_segments() {
    assert!(topic_matches_filter(b"a//b", b"a//b"));
    assert!(topic_matches_filter(b"a/+/b", b"a//b"));
    assert!(!topic_matches_filter(b"a/b", b"a//b"));
    assert!(topic_matches_filter(b"/a", b"/a"));
}

#[test]
fn reserved_topics_need_explicit_filters() {
    assert!(!topic_matches_filter(b"#", b"$SYS/health"));
    assert!(!topic_matches_filter(b"+/health", b"$SYS/health"));
    assert!(topic_matches_filter(b"$SYS/#", b"$SYS/health"));
    assert!(topic_matches_filter(b"$SYS/health", b"$SYS/health"));
}

#[test]
fn filter_shapes() {
    assert!(filter_valid(b"a/+/c"));
    assert!(filter_valid(b"a/#"));
    assert!(filter_valid(b"#"));
    assert!(filter_valid(b"+"));
    assert!(filter_valid(b"a/b/c"));
    // multi-level wildcard only as the final segment
    assert!(!filter_valid(b"a/#/b"));
    assert!(!filter_valid(b"#/a"));
    // wildcards only as whole segments
    assert!(!filter_valid(b"a/b#"));
    assert!(!filter_valid(b"a/b+/c"));
}

#[test]
fn registry_rejects_malformed_filter() {
    let mut subs = Subs::new();
    let r = subs.add(b"a/#/b".to_vec(), QoS::AtLeastOnce, opts());
    assert!(r.is_err());
    assert_eq!(subs.len(), 0);
}

#[test]
fn registry_add_is_idempotent_replace() {
    let mut subs = Subs::new();
    assert!(subs.add(b"a/#".to_vec(), QoS::AtMostOnce, opts()).is_ok());
    assert!(subs.add(b"x/y".to_vec(), QoS::AtLeastOnce, opts()).is_ok());
    assert_eq!(subs.len(), 2);
    // re-subscribing the same filter replaces the entry, no duplicate
    assert!(subs.add(b"a/#".to_vec(), QoS::ExactlyOnce, opts()).is_ok());
    assert_eq!(subs.len(), 2);
    assert_eq!(subs.effective_qos(b"a/b"), Some(QoS::ExactlyOnce));
}

#[test]
fn registry_remove() {
    let mut subs = Subs::new();
    subs.add(b"a/#".to_vec(), QoS::AtMostOnce, opts()).unwrap();
    assert!(!subs.remove(b"a/b"));
    assert!(subs.remove(b"a/#"));
    assert!(!subs.remove(b"a/#"));
    assert_eq!(subs.len(), 0);
}

#[test]
fn matching_indices_in_registration_order() {
    let mut subs = Subs::new();
    subs.add(b"a/+/c".to_vec(), QoS::AtMostOnce, opts()).unwrap();
    subs.add(b"x/y".to_vec(), QoS::AtLeastOnce, opts()).unwrap();
    subs.add(b"a/#".to_vec(), QoS::ExactlyOnce, opts()).unwrap();
    assert_eq!(subs.matching_indices(b"a/b/c"), vec![0, 2]);
    assert_eq!(subs.matching_indices(b"a/b"), vec![2]);
    assert_eq!(subs.matching_indices(b"q"), Vec::<usize>::new());
}

#[test]
fn effective_qos_is_max_of_matches() {
    let mut subs = Subs::new();
    assert_eq!(subs.effective_qos(b"a/b/c"), None);
    subs.add(b"a/+/c".to_vec(), QoS::AtMostOnce, opts()).unwrap();
    assert_eq!(subs.effective_qos(b"a/b/c"), Some(QoS::AtMostOnce));
    subs.add(b"a/#".to_vec(), QoS::AtLeastOnce, opts()).unwrap();
    assert_eq!(subs.effective_qos(b"a/b/c"), Some(QoS::AtLeastOnce));
    subs.add(b"a/b/c".to_vec(), QoS::ExactlyOnce, opts()).unwrap();
    assert_eq!(subs.effective_qos(b"a/b/c"), Some(QoS::ExactlyOnce));
}
