//! The pose of a vehicle as it arrives in a status message.
//!
//! A message starts with a header of twelve bytes and the length of the
//! frame id, a signed number of four bytes. The frame id follows, padded
//! so that, together with its length, it fills whole blocks of eight bytes.
//! Then come the three coordinates of the position and the four of the
//! orientation, eight bytes each. All numbers are little-endian. The
//! library leaves the coordinates as the bits it read; whoever needs them
//! as numbers with a fraction converts them.

use bincode::ErrorKind;
use vstd::prelude::*;
use vstd::slice::slice_subrange;

verus! {

/// The number that the first four of `bytes` spell, lowest byte first.
pub open spec fn le_u32(bytes: Seq<u8>) -> int {
    bytes[0] + bytes[1] * 0x100 + bytes[2] * 0x1_0000 + bytes[3] * 0x100_0000
}

/// The signed number that the first four of `bytes` spell, lowest byte
/// first, in two's complement.
pub open spec fn le_i32(bytes: Seq<u8>) -> int {
    if le_u32(bytes) >= 0x8000_0000 {
        le_u32(bytes) - 0x1_0000_0000
    } else {
        le_u32(bytes)
    }
}

/// The number that the first eight of `bytes` spell, lowest byte first.
pub open spec fn le_u64(bytes: Seq<u8>) -> int {
    le_u32(bytes) + le_u32(bytes.skip(4)) * 0x1_0000_0000
}

/// `bincode::ErrorKind`, carried through as it is.
#[verifier::external_type_specification]
#[verifier::external_body]
pub struct ExErrorKind(ErrorKind);

/// `bincode::deserialize` for an `i32`: with the settings of that
/// function a number takes four bytes, lowest first, and bytes behind it
/// are left alone. The call fails exactly where fewer than four bytes are
/// there.
#[verifier::external_body]
fn decode_i32(bytes: &[u8]) -> (decoded: Result<i32, Box<ErrorKind>>)
    ensures
        match decoded {
            Ok(number) => bytes@.len() >= 4 && number == le_i32(bytes@),
            Err(_) => bytes@.len() < 4,
        },
{
    bincode::deserialize::<i32>(bytes)
}

/// `bincode::deserialize` for a `u64`: with the settings of that function
/// a number takes eight bytes, lowest first, and bytes behind it are left
/// alone. The call fails exactly where fewer than eight bytes are there.
#[verifier::external_body]
fn decode_u64(bytes: &[u8]) -> (decoded: Result<u64, Box<ErrorKind>>)
    ensures
        match decoded {
            Ok(number) => bytes@.len() >= 8 && number == le_u64(bytes@),
            Err(_) => bytes@.len() < 8,
        },
{
    bincode::deserialize::<u64>(bytes)
}

/// Where a vehicle is: the bits of its three coordinates.
#[derive(Clone, Copy, Debug, PartialEq, Eq, Structural)]
pub struct Position {
    pub x: u64,
    pub y: u64,
    pub z: u64,
}

/// How a vehicle is turned: the bits of the four coordinates of a
/// quaternion.
#[derive(Clone, Copy, Debug, PartialEq, Eq, Structural)]
pub struct Orientation {
    pub x: u64,
    pub y: u64,
    pub z: u64,
    pub w: u64,
}

/// The pose of a vehicle.
#[derive(Clone, Copy, Debug, PartialEq, Eq, Structural)]
pub struct CurrentPose {
    pub position: Position,
    pub orientation: Orientation,
}

/// Why a status message holds no pose.
#[derive(Clone, Copy, Debug, PartialEq, Eq, Structural)]
pub enum PoseError {
    /// The message ends before the pose does.
    Truncated,
    /// The length of the frame id is below zero.
    BadFrameLength,
}

/// Where the position starts in a message whose frame id is
/// `frame_id_len` bytes long: behind the header of twelve bytes and the
/// blocks of eight bytes that the length and the frame id take.
pub open spec fn position_start(frame_id_len: int) -> int {
    12 + 8 * ((frame_id_len + 4 + 7) / 8)
}

/// The number that the eight bytes of `buf` from `at` on spell.
pub open spec fn field_at(buf: Seq<u8>, at: int) -> int {
    le_u64(buf.subrange(at, at + 8))
}

/// The pose that a status message holds.
pub open spec fn pose_of(buf: Seq<u8>) -> Result<CurrentPose, PoseError> {
    if buf.len() < 16 {
        Err(PoseError::Truncated)
    } else {
        let frame_id_len = le_i32(buf.subrange(12, 16));
        let start = position_start(frame_id_len);
        if frame_id_len < 0 {
            Err(PoseError::BadFrameLength)
        } else if buf.len() < start + 56 {
            Err(PoseError::Truncated)
        } else {
            Ok(
                CurrentPose {
                    position: Position {
                        x: field_at(buf, start) as u64,
                        y: field_at(buf, start + 8) as u64,
                        z: field_at(buf, start + 16) as u64,
                    },
                    orientation: Orientation {
                        x: field_at(buf, start + 24) as u64,
                        y: field_at(buf, start + 32) as u64,
                        z: field_at(buf, start + 40) as u64,
                        w: field_at(buf, start + 48) as u64,
                    },
                },
            )
        }
    }
}

/// The eight bytes of `buf` from `at` on, as a number.
fn read_field(buf: &Vec<u8>, at: usize) -> (field: Option<u64>)
    requires
        at + 8 <= buf.len(),
    ensures
        field == Some(field_at(buf@, at as int) as u64),
{
    match decode_u64(slice_subrange(buf.as_slice(), at, at + 8)) {
        Ok(field) => Some(field),
        Err(_) => None,
    }
}

impl CurrentPose {
    /// Reads the pose out of a status message. Fails where the message is
    /// shorter than its header, where the length of the frame id is below
    /// zero, and where the message ends before the pose does.
    pub fn new(buf_vec: &Vec<u8>) -> (read: Result<CurrentPose, PoseError>)
        ensures
            read == pose_of(buf_vec@),
    {
        if buf_vec.len() < 16 {
            return Err(PoseError::Truncated);
        }
        let frame_id_len = match decode_i32(slice_subrange(buf_vec.as_slice(), 12, 16)) {
            Ok(length) => length,
            Err(_) => return Err(PoseError::Truncated),
        };
        if frame_id_len < 0 {
            return Err(PoseError::BadFrameLength);
        }
        let blocks: u64 = (frame_id_len as u64 + 4 + 7) / 8;
        let start: u64 = 12 + 8 * blocks;
        assert(start == position_start(frame_id_len as int));
        if (buf_vec.len() as u64) < start + 56 {
            return Err(PoseError::Truncated);
        }
        let start: usize = start as usize;
        match (
            read_field(buf_vec, start),
            read_field(buf_vec, start + 8),
            read_field(buf_vec, start + 16),
            read_field(buf_vec, start + 24),
            read_field(buf_vec, start + 32),
            read_field(buf_vec, start + 40),
            read_field(buf_vec, start + 48),
        ) {
            (Some(px), Some(py), Some(pz), Some(ox), Some(oy), Some(oz), Some(ow)) => Ok(
                CurrentPose {
                    position: Position { x: px, y: py, z: pz },
                    orientation: Orientation { x: ox, y: oy, z: oz, w: ow },
                },
            ),
            _ => Err(PoseError::Truncated),
        }
    }
}

} // verus!
