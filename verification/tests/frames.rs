use live_data_processor::exporter::{frame_guids, guid_fields, read_u32, read_u64, replace_guids, write_u64, GuidFields};

fn frame(message_type: u8, len: usize) -> Vec<u8> {
    let mut frame: Vec<u8> = (0..len).map(|i| (i as u8).wrapping_mul(3).wrapping_add(1)).collect();
    frame[0] = 0;
    frame[1] = message_type;
    frame
}

fn put(frame: &mut Vec<u8>, at: usize, value: u64) {
    frame[at..at + 8].copy_from_slice(&value.to_le_bytes());
}

#[test]
fn numbers_are_little_endian() {
    let mut bytes = vec![0u8; 12];
    write_u64(&mut bytes, 2, 0x0102_0304_0506_0708);
    assert_eq!(bytes, vec![0, 0, 8, 7, 6, 5, 4, 3, 2, 1, 0, 0]);
    assert_eq!(read_u64(&bytes, 2), 0x0102_0304_0506_0708);
    assert_eq!(read_u32(&bytes, 2), 0x0506_0708);
    assert_eq!(read_u32(&bytes, 6), 0x0102_0304);
}

#[test]
fn guid_fields_by_message_type() {
    for message_type in [9u8, 10, 11, 14, 7] {
        assert_eq!(guid_fields(message_type), Some(GuidFields::One));
    }
    for message_type in [0u8, 1, 2, 3, 12, 13, 15, 4] {
        assert_eq!(guid_fields(message_type), Some(GuidFields::Two));
    }
    for message_type in [5u8, 6] {
        assert_eq!(guid_fields(message_type), Some(GuidFields::Three));
    }
    assert_eq!(guid_fields(8), Some(GuidFields::Position));
    assert_eq!(guid_fields(20), Some(GuidFields::TeamIds));
    for message_type in [16u8, 17, 18, 19, 21, 22, 255] {
        assert_eq!(guid_fields(message_type), None);
    }
}

#[test]
fn frame_with_one_guid() {
    let mut msg = frame(11, 22);
    put(&mut msg, 10, 0xAABB);
    assert_eq!(frame_guids(&msg), Some(vec![0xAABB]));
    let before = msg.clone();
    assert!(replace_guids(&mut msg, &vec![0x1122_3344_5566_7788]));
    assert_eq!(read_u64(&msg, 10), 0x1122_3344_5566_7788);
    assert_eq!(msg[..10], before[..10]);
    assert_eq!(msg[18..], before[18..]);
}

#[test]
fn frame_with_three_guids() {
    let mut msg = frame(5, 40);
    put(&mut msg, 10, 1);
    put(&mut msg, 18, 2);
    put(&mut msg, 26, 3);
    assert_eq!(frame_guids(&msg), Some(vec![1, 2, 3]));
    let before = msg.clone();
    assert!(replace_guids(&mut msg, &vec![11, 12, 13]));
    assert_eq!(frame_guids(&msg), Some(vec![11, 12, 13]));
    assert_eq!(msg[34..], before[34..]);
    assert_eq!(msg.len(), 40);
}

#[test]
fn position_frame_has_its_guid_behind_the_place() {
    let mut msg = frame(8, 43);
    put(&mut msg, 19, 77);
    assert_eq!(frame_guids(&msg), Some(vec![77]));
    assert!(replace_guids(&mut msg, &vec![78]));
    assert_eq!(read_u64(&msg, 19), 78);
}

#[test]
fn team_ids_are_widened() {
    let mut msg = frame(20, 30);
    msg[19..23].copy_from_slice(&0x0A0B_0C0Du32.to_le_bytes());
    msg[23..27].copy_from_slice(&0x0102_0304u32.to_le_bytes());
    // both ids are read from the four bytes of the first
    assert_eq!(frame_guids(&msg), Some(vec![0x0A0B_0C0D, 0x0A0B_0C0D]));
    let before = msg.clone();
    assert!(replace_guids(&mut msg, &vec![5, 6]));
    assert_eq!(msg.len(), 38);
    assert_eq!(msg[..19], before[..19]);
    assert_eq!(read_u64(&msg, 19), 5);
    assert_eq!(read_u64(&msg, 27), 6);
    assert_eq!(msg[35..], before[27..]);
}

#[test]
fn frame_of_another_version_has_no_guids() {
    let mut msg = frame(11, 22);
    msg[0] = 1;
    assert_eq!(frame_guids(&msg), None);
    let before = msg.clone();
    assert!(!replace_guids(&mut msg, &vec![1]));
    assert_eq!(msg, before);
}

#[test]
fn short_or_unknown_frames_have_no_guids() {
    assert_eq!(frame_guids(&vec![]), None);
    assert_eq!(frame_guids(&vec![0]), None);
    assert_eq!(frame_guids(&frame(11, 17)), None);
    assert!(frame_guids(&frame(11, 18)).is_some());
    assert_eq!(frame_guids(&frame(0, 25)), None);
    assert!(frame_guids(&frame(0, 26)).is_some());
    assert_eq!(frame_guids(&frame(6, 33)), None);
    assert_eq!(frame_guids(&frame(8, 26)), None);
    assert_eq!(frame_guids(&frame(20, 26)), None);
    assert!(frame_guids(&frame(20, 27)).is_some());
    assert_eq!(frame_guids(&frame(16, 40)), None);
}

#[test]
fn wrong_number_of_salted_guids_changes_nothing() {
    let mut msg = frame(0, 30);
    let before = msg.clone();
    assert!(!replace_guids(&mut msg, &vec![1]));
    assert!(!replace_guids(&mut msg, &vec![1, 2, 3]));
    assert_eq!(msg, before);
}
