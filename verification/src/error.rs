//! The errors a request can end in, and what a client is shown for each.
use vstd::prelude::*;
use vstd::string::*;

verus! {

/// Why a request failed.
#[derive(Debug, PartialEq, Eq)]
pub enum ServerError {
    /// The uploader's token is missing or not on the whitelist.
    Unauthorized,
    /// Anything else; `info` says what went wrong.
    InternalError { info: String },
}

/// What a failed request is answered with.
#[derive(Debug, PartialEq, Eq)]
pub struct ErrorResponse {
    /// The HTTP status code.
    pub status: u16,
    /// The HTML body.
    pub body: String,
}

impl ServerError {
    /// The short name of the error, as the error is displayed.
    pub open spec fn spec_display(&self) -> Seq<char> {
        match self {
            ServerError::Unauthorized => "Unauthorized"@,
            ServerError::InternalError { .. } => "Internal Error"@,
        }
    }

    /// The HTTP status code: 401 for a refused upload, 500 otherwise.
    pub open spec fn spec_status_code(&self) -> u16 {
        match self {
            ServerError::Unauthorized => 401,
            ServerError::InternalError { .. } => 500,
        }
    }

    /// The body shown to the client: the display text, followed for an
    /// internal error by a space and the error's information.
    pub open spec fn spec_body(&self) -> Seq<char> {
        match self {
            ServerError::Unauthorized => "Unauthorized"@,
            ServerError::InternalError { info } => "Internal Error"@ + " "@ + info@,
        }
    }

    /// The short name of the error.
    pub fn display_text(&self) -> (res: String)
        ensures
            res@ == self.spec_display(),
    {
        match self {
            ServerError::Unauthorized => String::from_str("Unauthorized"),
            ServerError::InternalError { .. } => String::from_str("Internal Error"),
        }
    }

    /// The HTTP status code of the error.
    pub fn status_code(&self) -> (res: u16)
        ensures
            res == self.spec_status_code(),
    {
        match self {
            ServerError::Unauthorized => 401,
            ServerError::InternalError { .. } => 500,
        }
    }

    /// The response to a request that failed with this error.
    pub fn error_response(&self) -> (res: ErrorResponse)
        ensures
            res.status == self.spec_status_code(),
            res.body@ == self.spec_body(),
    {
        let body = match self {
            ServerError::InternalError { info } => {
                let mut text = self.display_text();
                text.append(" ");
                text.append(info.as_str());
                text
            },
            _ => self.display_text(),
        };
        ErrorResponse { status: self.status_code(), body }
    }
}

impl ServerError {
    /// The answer to an upload: refused unless it is authorized.
    pub fn require_authorized(authorized: bool) -> (res: Result<(), ServerError>)
        ensures
            authorized ==> res is Ok,
            !authorized ==> res matches Err(ServerError::Unauthorized),
    {
        if authorized {
            Ok(())
        } else {
            Err(ServerError::Unauthorized)
        }
    }

    /// The error for a metadata path that leaves the media directory.
    pub fn broken_path(path: &str) -> (res: ServerError)
        ensures
            res matches ServerError::InternalError { info } && info@ == "Broken path at '"@
                + path@ + "'"@,
    {
        let mut info = String::from_str("Broken path at '");
        info.append(path);
        info.append("'");
        ServerError::InternalError { info }
    }

    /// The error for a requested file that is not stored.
    pub fn missing_file(hash: &str) -> (res: ServerError)
        ensures
            res matches ServerError::InternalError { info } && info@
                == "No file exists here! Shoo! (hash="@ + hash@ + ")"@,
    {
        let mut info = String::from_str("No file exists here! Shoo! (hash=");
        info.append(hash);
        info.append(")");
        ServerError::InternalError { info }
    }

    /// The error for a metadata file that could not be written, with the
    /// failure's message.
    pub fn metadata_write_failed(message: &str) -> (res: ServerError)
        ensures
            res matches ServerError::InternalError { info } && info@
                == "Failed to write metadata file: "@ + message@,
    {
        let mut info = String::from_str("Failed to write metadata file: ");
        info.append(message);
        ServerError::InternalError { info }
    }

    /// The error for metadata that could not be serialized, with the
    /// failure's message.
    pub fn metadata_serialize_failed(message: &str) -> (res: ServerError)
        ensures
            res matches ServerError::InternalError { info } && info@
                == "Failed to serialize metadata file: "@ + message@,
    {
        let mut info = String::from_str("Failed to serialize metadata file: ");
        info.append(message);
        ServerError::InternalError { info }
    }

    /// The error for an upload whose temporary file could not be named
    /// because the system's random source failed.
    pub fn no_random_source() -> (res: ServerError)
        ensures
            res matches ServerError::InternalError { info } && info@
                == "Failed to read the system's random source"@,
    {
        ServerError::InternalError { info: String::from_str("Failed to read the system's random source") }
    }
}

/// Turning the error of a `Result` into a [`ServerError`].
pub trait MapServerErrorTrait<T> {
    fn server_err(self) -> Result<T, ServerError>;
}

impl<V, E: core::fmt::Display> MapServerErrorTrait<V> for Result<V, E> {
    /// Keeps a success as it is; turns a failure into an internal error whose
    /// information is the failure's displayed text.
    fn server_err(self) -> (res: Result<V, ServerError>)
        ensures
            self is Ok <==> res is Ok,
            self is Ok ==> res == Ok::<V, ServerError>(self->Ok_0),
            self is Err ==> (res matches Err(ServerError::InternalError { info })
                && to_string_from_display_ensures::<E>(&self->Err_0, info)),
    {
        match self {
            Ok(v) => Ok(v),
            Err(e) => Err(ServerError::InternalError { info: e.to_string() }),
        }
    }
}

} // verus!
