use gnostr_query::collector::{collect, BoundedCollector, Inbound, ReceiveError, Step};

fn text(s: &str) -> Inbound {
    Inbound::Text(s.to_string())
}

#[test]
fn limit_stops_the_batch() {
    let link = vec![text("f1"), text("f2"), text("f3"), text("f4")];
    let (batch, reads) = collect(&link, 3);
    assert_eq!(batch, Ok(vec!["f1".to_string(), "f2".to_string(), "f3".to_string()]));
    assert_eq!(reads, 3);
}

#[test]
fn limit_zero_reads_nothing() {
    let link = vec![text("f1"), text("f2")];
    assert_eq!(collect(&link, 0), (Ok(vec![]), 0));
    assert_eq!(collect(&link, -1), (Ok(vec![]), 0));
    assert_eq!(collect(&link, i32::MIN), (Ok(vec![]), 0));
    assert_eq!(collect(&vec![Inbound::Failed], 0), (Ok(vec![]), 0));
}

#[test]
fn early_close_is_no_error() {
    let link = vec![text("f1"), text("f2"), Inbound::Closed];
    let (batch, reads) = collect(&link, 5);
    assert_eq!(batch, Ok(vec!["f1".to_string(), "f2".to_string()]));
    assert_eq!(reads, 3);

    let link = vec![text("f1"), text("f2")];
    let (batch, reads) = collect(&link, 5);
    assert_eq!(batch, Ok(vec!["f1".to_string(), "f2".to_string()]));
    assert_eq!(reads, 2);
}

#[test]
fn nothing_after_close_is_read() {
    let link = vec![text("f1"), Inbound::Closed, text("f2")];
    assert_eq!(collect(&link, 5), (Ok(vec!["f1".to_string()]), 2));
}

#[test]
fn failed_read_ends_the_run() {
    let link = vec![text("f1"), Inbound::Failed, text("f2")];
    assert_eq!(collect(&link, 5), (Err(ReceiveError), 2));
}

#[test]
fn failure_after_the_limit_is_not_seen() {
    let link = vec![text("f1"), Inbound::Failed];
    assert_eq!(collect(&link, 1), (Ok(vec!["f1".to_string()]), 1));
}

#[test]
fn other_messages_are_not_counted() {
    let link = vec![Inbound::Other, text("f1"), Inbound::Other, text("f2"), text("f3")];
    assert_eq!(
        collect(&link, 2),
        (Ok(vec!["f1".to_string(), "f2".to_string()]), 4)
    );
}

#[test]
fn end_of_stream_marker_counts_as_a_frame() {
    let link = vec![text("e1"), text("[\"EOSE\",\"gnostr-query\"]"), text("e2")];
    assert_eq!(
        collect(&link, 2),
        (
            Ok(vec!["e1".to_string(), "[\"EOSE\",\"gnostr-query\"]".to_string()]),
            2
        )
    );
}

#[test]
fn frames_are_kept_even_when_equal() {
    let link = vec![text("f"), text("f"), text("f")];
    assert_eq!(
        collect(&link, 10),
        (Ok(vec!["f".to_string(), "f".to_string(), "f".to_string()]), 3)
    );
}

#[test]
fn empty_link_gives_empty_batch() {
    assert_eq!(collect(&vec![], 5), (Ok(vec![]), 0));
}

#[test]
fn collector_step_by_step() {
    let mut collector = BoundedCollector::new(2);
    assert!(collector.wants_frame());
    assert_eq!(collector.accept(Inbound::Other), Step::Continue);
    assert_eq!(collector.accept(text("a")), Step::Continue);
    assert!(collector.wants_frame());
    assert_eq!(collector.accept(text("b")), Step::Done);
    assert!(!collector.wants_frame());
    assert_eq!(collector.into_batch(), vec!["a".to_string(), "b".to_string()]);
}

#[test]
fn frame_after_the_limit_is_not_appended() {
    let mut collector = BoundedCollector::new(1);
    assert_eq!(collector.accept(text("a")), Step::Done);
    assert_eq!(collector.accept(text("b")), Step::Done);
    assert_eq!(collector.accept(Inbound::Other), Step::Done);
    assert_eq!(collector.into_batch(), vec!["a".to_string()]);
}

#[test]
fn collector_without_limit_wants_nothing() {
    let mut collector = BoundedCollector::new(0);
    assert!(!collector.wants_frame());
    assert_eq!(collector.accept(text("a")), Step::Done);
    assert!(collector.into_batch().is_empty());
    assert!(!BoundedCollector::new(-3).wants_frame());
}

#[test]
fn collector_reports_failure_and_close() {
    let mut collector = BoundedCollector::new(3);
    assert_eq!(collector.accept(text("a")), Step::Continue);
    assert_eq!(collector.accept(Inbound::Failed), Step::Failed);
    let mut collector = BoundedCollector::new(3);
    assert_eq!(collector.accept(text("a")), Step::Continue);
    assert_eq!(collector.accept(Inbound::Closed), Step::Done);
    assert_eq!(collector.into_batch(), vec!["a".to_string()]);
}

#[test]
fn batch_never_exceeds_the_limit() {
    let link: Vec<Inbound> = (0..50).map(|i| text(&format!("f{i}"))).collect();
    for limit in [-1, 0, 1, 7, 49, 50, 51, 500] {
        let (batch, reads) = collect(&link, limit);
        let batch = batch.unwrap();
        let expected = limit.clamp(0, 50) as usize;
        assert_eq!(batch.len(), expected);
        assert_eq!(reads, expected);
        for (i, frame) in batch.iter().enumerate() {
            assert_eq!(frame, &format!("f{i}"));
        }
    }
}
