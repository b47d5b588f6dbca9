use rsu::pose::{CurrentPose, Orientation, PoseError, Position};

/// A status message with a frame id of the given bytes and the seven
/// coordinates.
fn message(frame_id: &[u8], declared: i32, coordinates: [f64; 7]) -> Vec<u8> {
    let mut buf = vec![0xAAu8; 12];
    buf.extend_from_slice(&declared.to_le_bytes());
    buf.extend_from_slice(frame_id);
    while (buf.len() - 12) % 8 != 0 {
        buf.push(0);
    }
    for c in coordinates {
        buf.extend_from_slice(&c.to_le_bytes());
    }
    buf
}

const COORDINATES: [f64; 7] = [1.5, -2.25, 3.0, 0.0, 0.5, -0.5, 1.0];

fn expected() -> CurrentPose {
    CurrentPose {
        position: Position { x: 1.5f64.to_bits(), y: (-2.25f64).to_bits(), z: 3.0f64.to_bits() },
        orientation: Orientation {
            x: 0.0f64.to_bits(),
            y: 0.5f64.to_bits(),
            z: (-0.5f64).to_bits(),
            w: 1.0f64.to_bits(),
        },
    }
}

#[test]
fn pose_behind_a_frame_id_of_four_bytes() {
    let buf = message(b"map\0", 4, COORDINATES);
    assert_eq!(buf.len(), 12 + 8 + 56);
    let pose = CurrentPose::new(&buf).unwrap();
    assert_eq!(pose, expected());
    assert_eq!(f64::from_bits(pose.position.y), -2.25);
    assert_eq!(f64::from_bits(pose.orientation.w), 1.0);
}

#[test]
fn pose_behind_a_padded_frame_id() {
    let buf = message(b"world", 5, COORDINATES);
    assert_eq!(buf.len(), 12 + 16 + 56);
    assert_eq!(CurrentPose::new(&buf), Ok(expected()));
}

#[test]
fn pose_behind_an_empty_frame_id() {
    let buf = message(b"", 0, COORDINATES);
    assert_eq!(buf.len(), 12 + 8 + 56);
    assert_eq!(CurrentPose::new(&buf), Ok(expected()));
}

#[test]
fn pose_behind_a_frame_id_that_fills_its_blocks() {
    let buf = message(b"base_link\0\0\0", 12, COORDINATES);
    assert_eq!(buf.len(), 12 + 16 + 56);
    assert_eq!(CurrentPose::new(&buf), Ok(expected()));
}

#[test]
fn bytes_behind_the_pose_are_left_alone() {
    let mut buf = message(b"map\0", 4, COORDINATES);
    buf.extend_from_slice(&[7, 7, 7]);
    assert_eq!(CurrentPose::new(&buf), Ok(expected()));
}

#[test]
fn message_shorter_than_its_header() {
    assert_eq!(CurrentPose::new(&Vec::new()), Err(PoseError::Truncated));
    assert_eq!(CurrentPose::new(&vec![0u8; 15]), Err(PoseError::Truncated));
}

#[test]
fn message_that_ends_before_the_pose() {
    let mut buf = message(b"map\0", 4, COORDINATES);
    buf.pop();
    assert_eq!(CurrentPose::new(&buf), Err(PoseError::Truncated));
    assert_eq!(CurrentPose::new(&vec![0u8; 16]), Err(PoseError::Truncated));
    let far = message(b"", i32::MAX, COORDINATES);
    assert_eq!(CurrentPose::new(&far), Err(PoseError::Truncated));
}

#[test]
fn frame_id_of_negative_length() {
    let buf = message(b"map\0", -1, COORDINATES);
    assert_eq!(CurrentPose::new(&buf), Err(PoseError::BadFrameLength));
    let buf = message(b"map\0", i32::MIN, COORDINATES);
    assert_eq!(CurrentPose::new(&buf), Err(PoseError::BadFrameLength));
}

#[test]
fn coordinates_are_read_lowest_byte_first() {
    let mut buf = vec![0u8; 12];
    buf.extend_from_slice(&[0, 0, 0, 0]);
    buf.extend_from_slice(&[0, 0, 0, 0]);
    buf.extend_from_slice(&[1, 2, 3, 4, 5, 6, 7, 8]);
    buf.extend_from_slice(&[0u8; 48]);
    let pose = CurrentPose::new(&buf).unwrap();
    assert_eq!(pose.position.x, 0x0807060504030201);
    assert_eq!(pose.position.y, 0);
}
