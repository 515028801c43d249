use vstd::prelude::*;

verus! {

/// What can go wrong while serving a request.
#[derive(Debug, Clone, Copy, PartialEq, Eq, Structural)]
pub enum AppError {
    NotFound,
    InternalError,
    /// A database query failed.
    Sqlx,
    /// Bytes were not valid UTF-8.
    Utf8Error,
    /// A step failed that has no error of its own.
    Anyhow,
    /// A category or entry type name is none of the known ones.
    StrumError,
    /// A streaming-service id holds characters it may not hold.
    RSpotifyIdError,
    /// The streaming-service client failed.
    RSpotifyClientError,
    /// A URL could not be parsed.
    UrlParseError,
    /// A header value could not be built.
    HeaderError,
    /// A page could not be rendered.
    AskamaError,
    /// An id is not a UUID.
    UuidError,
    /// A header value was not visible ASCII.
    ToStrError,
    /// A URL has no path.
    NoPath,
    /// A URL names neither an album nor a playlist.
    UnsupportedUrl,
    /// None of an item's images has one of the sizes that the pages show.
    NoImage,
}

pub open spec fn status_of(e: AppError) -> u16 {
    match e {
        AppError::NotFound => 404,
        _ => 500,
    }
}

impl AppError {
    /// The HTTP status that answers a request that failed with this error.
    pub fn status_code(&self) -> (r: u16)
        ensures
            r == status_of(*self),
            r == 404 <==> *self == AppError::NotFound,
    {
        match self {
            AppError::NotFound => 404,
            _ => 500,
        }
    }
}

} // verus!
