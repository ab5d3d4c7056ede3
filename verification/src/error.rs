//! The failures that loading a batch of modules can end in.

use vstd::prelude::*;

verus! {

/// `std::io::Error`, carried through unread.
#[verifier::external_type_specification]
#[verifier::external_body]
pub struct ExIoError(std::io::Error);

/// Why a batch, or one image of it, could not be loaded.
#[derive(Debug)]
pub enum LoaderError {
    /// A file could not be read.
    IO(std::io::Error),
    /// The service rejected the registration record, with this status.
    RegistrationError(u32),
    /// The service refused to mount an image, with this status.
    MountError(u32),
    /// The service could not size the scratch segment of an image, with this
    /// status.
    InvalidModuleBuffer(u32),
}

impl LoaderError {
    /// The status that the service reported, where the failure came from the
    /// service.
    pub open spec fn spec_status(&self) -> Option<u32> {
        match *self {
            LoaderError::IO(_) => None,
            LoaderError::RegistrationError(rc) => Some(rc),
            LoaderError::MountError(rc) => Some(rc),
            LoaderError::InvalidModuleBuffer(rc) => Some(rc),
        }
    }

    /// The status that the service reported, where the failure came from the
    /// service.
    #[verifier::when_used_as_spec(spec_status)]
    pub fn status(&self) -> (rc: Option<u32>)
        ensures
            rc == self.spec_status(),
    {
        match self {
            LoaderError::IO(_) => None,
            LoaderError::RegistrationError(rc) => Some(*rc),
            LoaderError::MountError(rc) => Some(*rc),
            LoaderError::InvalidModuleBuffer(rc) => Some(*rc),
        }
    }
}

impl From<std::io::Error> for LoaderError {
    fn from(error: std::io::Error) -> (r: LoaderError) {
        LoaderError::IO(error)
    }
}

impl vstd::std_specs::convert::FromSpecImpl<std::io::Error> for LoaderError {
    open spec fn obeys_from_spec() -> bool {
        true
    }

    open spec fn from_spec(error: std::io::Error) -> LoaderError {
        LoaderError::IO(error)
    }
}

} // verus!
