use metra::checkpoint::{new_checkpoint, CheckpointFault, LaneCheckpoint, TransferCheckpoint};
use metra::messages::RESUME_CHUNK_SIZE_BYTES;

const MIB: u64 = RESUME_CHUNK_SIZE_BYTES;

#[test]
fn fresh_checkpoints_cover_the_file() {
    let checkpoint = new_checkpoint(9, 10, 3);
    assert_eq!(checkpoint.transfer_id, 9);
    assert_eq!(checkpoint.file_size_bytes, 10);
    assert_eq!(checkpoint.total_lanes, 3);
    assert_eq!(
        checkpoint.lanes,
        vec![
            LaneCheckpoint { lane_index: 0, range_start: 0, range_end_exclusive: 4, offset: 0 },
            LaneCheckpoint { lane_index: 1, range_start: 4, range_end_exclusive: 7, offset: 4 },
            LaneCheckpoint { lane_index: 2, range_start: 7, range_end_exclusive: 10, offset: 7 },
        ]
    );
    assert_eq!(checkpoint.total_transferred(), 0);
    assert!(!checkpoint.all_lanes_complete());
    assert!(checkpoint.is_countable());
}

#[test]
fn lanes_advance_to_durable_offsets_and_never_back() {
    let mut checkpoint = new_checkpoint(1, 8 * MIB, 2);
    assert_eq!(checkpoint.advance_lane(0, MIB + 5), Ok(MIB));
    assert_eq!(checkpoint.lanes[0].offset, MIB);
    assert_eq!(checkpoint.advance_lane(0, 3), Ok(MIB));
    assert_eq!(checkpoint.advance_lane(1, 8 * MIB), Ok(5 * MIB));
    assert_eq!(checkpoint.advance_lane(0, u64::MAX), Ok(8 * MIB));
    assert!(checkpoint.all_lanes_complete());
    assert_eq!(
        checkpoint.advance_lane(2, 1),
        Err(CheckpointFault::LaneUnknown { lane_index: 2 })
    );
    assert_eq!(checkpoint.total_transferred(), 8 * MIB);
}

#[test]
fn lanes_resume_where_they_are_durable() {
    let mut checkpoint = new_checkpoint(1, 8 * MIB, 2);
    checkpoint.lanes[1].offset = 6 * MIB + 77;
    assert_eq!(
        checkpoint.resume_lane(8 * MIB, 2, 4 * MIB, 8 * MIB, 1),
        Ok((6 * MIB, 2 * MIB))
    );
    assert_eq!(checkpoint.lanes[1].offset, 6 * MIB);
    assert_eq!(checkpoint.resume_lane(8 * MIB, 2, 0, 4 * MIB, 0), Ok((0, 2 * MIB)));
}

#[test]
fn checkpoints_of_other_layouts_are_refused() {
    let mut checkpoint = new_checkpoint(1, 100, 2);
    let faults = [
        (checkpoint.resume_lane(99, 2, 0, 50, 0), "checkpoint file size mismatch: 100 != 99"),
        (checkpoint.resume_lane(100, 3, 0, 50, 0), "checkpoint lane count mismatch: 2 != 3"),
        (checkpoint.resume_lane(100, 2, 0, 50, 5), "checkpoint missing lane 5"),
        (
            checkpoint.resume_lane(100, 2, 0, 49, 0),
            "checkpoint lane range mismatch: lane 0 expected 0..49 found 0..50",
        ),
    ];
    for (result, words) in faults {
        let fault = result.expect_err("a fault");
        assert_eq!(fault.message(), words);
    }
    assert_eq!(
        CheckpointFault::LaneUnknown { lane_index: 4 }.message(),
        "missing lane 4 in checkpoint"
    );
    assert_eq!(
        checkpoint.validate_layout(100, 2, 50, 100, 1),
        Ok(())
    );
}

#[test]
fn the_first_lane_with_an_index_counts() {
    let lane = |lane_index, range_start, range_end_exclusive, offset| LaneCheckpoint {
        lane_index,
        range_start,
        range_end_exclusive,
        offset,
    };
    let checkpoint = TransferCheckpoint {
        transfer_id: 1,
        file_size_bytes: 10,
        total_lanes: 2,
        lanes: vec![lane(7, 0, 5, 2), lane(7, 5, 10, 3), lane(8, 0, 1, 1)],
    };
    assert_eq!(checkpoint.find_lane(7), Some(0));
    assert_eq!(checkpoint.find_lane(8), Some(2));
    assert_eq!(checkpoint.find_lane(9), None);
    assert_eq!(checkpoint.total_transferred(), 3);
}

#[test]
fn uncountable_checkpoints_are_noticed() {
    let mut checkpoint = new_checkpoint(1, u64::MAX, 2);
    assert!(checkpoint.is_countable());
    checkpoint.lanes[0].offset = u64::MAX;
    assert!(!checkpoint.is_countable());
}

#[test]
fn an_inverted_lane_is_not_in_the_way_of_another() {
    let mut checkpoint = new_checkpoint(1, 100, 2);
    checkpoint.lanes[1].range_start = 101;
    checkpoint.lanes[1].offset = 101;
    assert!(checkpoint.is_countable());
    assert_eq!(checkpoint.resume_lane(100, 2, 0, 50, 0).expect("fits"), (0, 0));
    assert_eq!(checkpoint.advance_lane(0, 50).expect("known lane"), 50);
    assert!(checkpoint.is_countable());
    assert!(checkpoint.resume_lane(100, 2, 50, 100, 1).is_err());
}
