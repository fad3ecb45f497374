//! Byte-exact encoders for the Microsoft OS 2.0 USB descriptor mechanism.
//!
//! A descriptor set is declared as a tree of plain values (device-, configuration-
//! and function-level feature descriptors), its encoded length is computed ahead
//! of any byte being written, and the encoder is proved to produce exactly that
//! many bytes in the published wire layout. A companion encoder produces the
//! platform-capability block that advertises one or more descriptor sets, and a
//! pair of stateless request handlers decides how each vendor control transfer
//! is answered.

pub mod dispatch;
pub mod os_20;
pub mod windows_version;

pub use windows_version::WindowsVersion;
