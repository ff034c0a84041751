//! Source side of a one-way audio link: picks a capture device, frames
//! 16-bit PCM for sending, validates volume-control datagrams and keeps the
//! shared volume within its domain.

mod control;
mod device;
mod pcm;
mod volume;

pub use control::{decode_control, CONTROL_FRAME_LEN};
pub use device::{find_loopback_device, is_loopback_name_lower, select_device, DeviceInfo};
pub use pcm::encode_pcm;
pub use volume::Volume;
