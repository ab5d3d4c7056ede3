//! Core of a dynamic module loader for NRO plugin images.
//!
//! The crate prepares images, hashes them, builds the registration record
//! that the module-loading service validates, and decides every step of
//! registering and mounting a batch of images. It performs no I/O and calls
//! no service itself: a driver carries out each requested action and reports
//! back what the service answered.

pub mod batch;
pub mod bytes;
pub mod descriptor;
pub mod digest;
pub mod error;
pub mod image;
pub mod mount;

pub use crate::batch::{mount_from_directory, Batch, BatchAction, BatchEvent, Candidate, MountInfo};
pub use crate::digest::Sha256Hash;
pub use crate::error::LoaderError;
pub use crate::image::NroFile;
pub use crate::mount::{MountAction, MountEvent, MountSession};
