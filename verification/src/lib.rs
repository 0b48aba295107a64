//! Protocol core for flashing a device that waits in Mi Assistant mode:
//! the packet codec, the handshake and stream exchanges, the sideload
//! session and the validation request, each as verified functions on plain
//! values. Reading and writing the wire is left to the caller.

pub mod adb;
pub mod download;
pub mod flash;
pub mod json;
pub mod mi;
pub mod sideload;
pub mod text;
pub mod usb;
pub mod util;
pub mod validate;
