use margins::protocol::types::{AudioAcknowledgementV1, SequenceRangeV1};

#[test]
fn sequence_ranges_are_half_open() {
    let range = SequenceRangeV1 {
        start: 3,
        end_exclusive: 5,
    };
    assert!(!range.is_empty());
    assert!(!range.contains(2));
    assert!(range.contains(3));
    assert!(range.contains(4));
    assert!(!range.contains(5));
    assert!(SequenceRangeV1 {
        start: 5,
        end_exclusive: 5
    }
    .is_empty());
    let inverted = SequenceRangeV1 {
        start: 6,
        end_exclusive: 5,
    };
    assert!(!inverted.is_empty());
    assert!(!inverted.is_valid());
    assert!(inverted.validate().is_err());
}

#[test]
fn ack_validation_rejects_noncanonical_ranges_and_reports_coverage() {
    let valid = AudioAcknowledgementV1 {
        segment_id: "segment".into(),
        lane_id: "lane".into(),
        durable_through_sequence: 4,
        durable_out_of_order: vec![SequenceRangeV1 {
            start: 6,
            end_exclusive: 8,
        }],
    };
    assert!(valid.validate().is_ok());
    assert!(valid.covers(3));
    assert!(!valid.covers(4));
    assert!(valid.covers(7));

    let adjacent = AudioAcknowledgementV1 {
        durable_out_of_order: vec![SequenceRangeV1 {
            start: 4,
            end_exclusive: 5,
        }],
        ..valid
    };
    assert!(adjacent.validate().is_err());
}
