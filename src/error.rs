use vstd::prelude::*;

verus! {

/// Every failure that crosses the boundary between the capture core and a
/// backend.
#[derive(Debug, Clone)]
pub enum CameraError {
    /// No backend is compiled in for this target.
    NoDriver,
    /// The backend does not apply to this target or configuration.
    NotApplicable,
    /// No capture device was found or could be opened.
    NoCamera,
    /// The driver was used before its required setup.
    NotConfigured,
    Unsupported(String),
    InvalidConfig(String),
    /// The pipeline has been torn down.
    Closed,
    /// A backend failure, with what was being done and the backend's own
    /// description of the cause.
    DriverError { context: String, source: String },
    Other(String),
}

impl CameraError {
    pub fn driver(context: &str, source: &str) -> (r: Self)
        ensures
            r matches CameraError::DriverError { context: c, source: s } && c@ == context@ && s@
                == source@,
    {
        CameraError::DriverError { context: String::from_str(context), source: String::from_str(source) }
    }

    pub fn unsupported(msg: &str) -> (r: Self)
        ensures
            r matches CameraError::Unsupported(m) && m@ == msg@,
    {
        CameraError::Unsupported(String::from_str(msg))
    }

    pub fn invalid_config(msg: &str) -> (r: Self)
        ensures
            r matches CameraError::InvalidConfig(m) && m@ == msg@,
    {
        CameraError::InvalidConfig(String::from_str(msg))
    }

    pub fn other(msg: &str) -> (r: Self)
        ensures
            r matches CameraError::Other(m) && m@ == msg@,
    {
        CameraError::Other(String::from_str(msg))
    }
}

/// Status codes of the embedding interface.
#[derive(Debug, Clone, Copy, PartialEq, Eq, Structural)]
pub enum AsimovCameraErrorCode {
    Success,
    NoDriver,
    NoCamera,
    DriverError,
    InvalidArgument,
}

impl AsimovCameraErrorCode {
    pub open spec fn spec_code(self) -> i32 {
        match self {
            AsimovCameraErrorCode::Success => 0,
            AsimovCameraErrorCode::NoDriver => 1,
            AsimovCameraErrorCode::NoCamera => 2,
            AsimovCameraErrorCode::DriverError => 3,
            AsimovCameraErrorCode::InvalidArgument => 4,
        }
    }

    /// The number that stands for this status at the embedding interface.
    pub fn code(self) -> (r: i32)
        ensures
            r == self.spec_code(),
    {
        match self {
            AsimovCameraErrorCode::Success => 0,
            AsimovCameraErrorCode::NoDriver => 1,
            AsimovCameraErrorCode::NoCamera => 2,
            AsimovCameraErrorCode::DriverError => 3,
            AsimovCameraErrorCode::InvalidArgument => 4,
        }
    }
}

/// The status that reports a failure: the two setup failures keep their
/// own code, every other failure is a driver error.
pub open spec fn status_of(err: CameraError) -> AsimovCameraErrorCode {
    match err {
        CameraError::NoDriver => AsimovCameraErrorCode::NoDriver,
        CameraError::NoCamera => AsimovCameraErrorCode::NoCamera,
        _ => AsimovCameraErrorCode::DriverError,
    }
}

impl From<CameraError> for AsimovCameraErrorCode {
    fn from(err: CameraError) -> (r: Self) {
        match err {
            CameraError::NoDriver => AsimovCameraErrorCode::NoDriver,
            CameraError::NoCamera => AsimovCameraErrorCode::NoCamera,
            _ => AsimovCameraErrorCode::DriverError,
        }
    }
}

impl vstd::std_specs::convert::FromSpecImpl<CameraError> for AsimovCameraErrorCode {
    open spec fn obeys_from_spec() -> bool {
        true
    }

    open spec fn from_spec(err: CameraError) -> Self {
        status_of(err)
    }
}

} // verus!
