//! The errors that the shortener's API answers with.
use vstd::prelude::*;

verus! {

/// Every error that an API call of the shortener can answer with.
#[derive(Debug, Clone, Copy, PartialEq, Eq, Structural)]
pub enum ApiError {
    /// The long URL does not parse, or has no host.
    InvalidUrl,
    /// The long URL's host is on the domain blocklist.
    UrlBlocked,
    /// Hashing the link's password failed.
    PasswordHashFailed,
    /// The custom slug has fewer than the minimum number of characters.
    SlugTooShort,
    /// The custom slug has more than the maximum number of characters.
    SlugTooLong,
    /// The custom slug holds a character other than a letter, digit or dash.
    SlugInvalidCharacters,
    /// The custom slug is on the slug blocklist.
    SlugBanned,
    /// A link with the custom slug exists already.
    SlugTaken,
    /// Storing a generated link failed.
    LinkCreationFailed,
    /// No link has the slug.
    LinkNotFound,
    /// The link has no password to check.
    LinkNotProtected,
    /// The password does not unlock the link.
    LinkPasswordInvalid,
    /// The admin password is wrong.
    AdminPasswordInvalid,
    /// The caller holds no valid admin session.
    StatsNotAuthorized,
    /// Reading the click records failed.
    StatsFetchFailed,
}

/// The HTTP status code of each error.
pub open spec fn status_of(e: ApiError) -> u16 {
    match e {
        ApiError::InvalidUrl => 400,
        ApiError::UrlBlocked => 403,
        ApiError::PasswordHashFailed => 500,
        ApiError::SlugTooShort => 400,
        ApiError::SlugTooLong => 400,
        ApiError::SlugInvalidCharacters => 400,
        ApiError::SlugBanned => 400,
        ApiError::SlugTaken => 403,
        ApiError::LinkCreationFailed => 500,
        ApiError::LinkNotFound => 404,
        ApiError::LinkNotProtected => 400,
        ApiError::LinkPasswordInvalid => 403,
        ApiError::AdminPasswordInvalid => 403,
        ApiError::StatsNotAuthorized => 401,
        ApiError::StatsFetchFailed => 500,
    }
}

/// The message of each error, as the `error` field of the JSON answer.
pub open spec fn message_of(e: ApiError) -> Seq<char> {
    match e {
        ApiError::InvalidUrl => "Invalid URL format."@,
        ApiError::UrlBlocked => "This URL is blocked."@,
        ApiError::PasswordHashFailed => "Failed to hash password."@,
        ApiError::SlugTooShort => "Custom slug must be at least 7 characters long."@,
        ApiError::SlugTooLong => "Custom slug must be at most 20 characters long."@,
        ApiError::SlugInvalidCharacters => "Custom slug can only contain alphanumeric characters and dashes."@,
        ApiError::SlugBanned => "This custom slug is banned from using it."@,
        ApiError::SlugTaken => "Custom slug is already taken."@,
        ApiError::LinkCreationFailed => "Failed to create short link."@,
        ApiError::LinkNotFound => "Short link not found."@,
        ApiError::LinkNotProtected => "This link is not password protected."@,
        ApiError::LinkPasswordInvalid => "Invalid password."@,
        ApiError::AdminPasswordInvalid => "Invalid password"@,
        ApiError::StatsNotAuthorized => "Not authorized to view stats."@,
        ApiError::StatsFetchFailed => "Failed to fetch click stats."@,
    }
}

impl ApiError {
    /// The HTTP status code that answers this error.
    pub fn status(&self) -> (code: u16)
        ensures
            code == status_of(*self),
    {
        match self {
            ApiError::InvalidUrl => 400,
            ApiError::UrlBlocked => 403,
            ApiError::PasswordHashFailed => 500,
            ApiError::SlugTooShort => 400,
            ApiError::SlugTooLong => 400,
            ApiError::SlugInvalidCharacters => 400,
            ApiError::SlugBanned => 400,
            ApiError::SlugTaken => 403,
            ApiError::LinkCreationFailed => 500,
            ApiError::LinkNotFound => 404,
            ApiError::LinkNotProtected => 400,
            ApiError::LinkPasswordInvalid => 403,
            ApiError::AdminPasswordInvalid => 403,
            ApiError::StatsNotAuthorized => 401,
            ApiError::StatsFetchFailed => 500,
        }
    }

    /// The message that answers this error.
    pub fn message(&self) -> (m: String)
        ensures
            m@ == message_of(*self),
    {
        let text: &str = match self {
            ApiError::InvalidUrl => "Invalid URL format.",
            ApiError::UrlBlocked => "This URL is blocked.",
            ApiError::PasswordHashFailed => "Failed to hash password.",
            ApiError::SlugTooShort => "Custom slug must be at least 7 characters long.",
            ApiError::SlugTooLong => "Custom slug must be at most 20 characters long.",
            ApiError::SlugInvalidCharacters => "Custom slug can only contain alphanumeric characters and dashes.",
            ApiError::SlugBanned => "This custom slug is banned from using it.",
            ApiError::SlugTaken => "Custom slug is already taken.",
            ApiError::LinkCreationFailed => "Failed to create short link.",
            ApiError::LinkNotFound => "Short link not found.",
            ApiError::LinkNotProtected => "This link is not password protected.",
            ApiError::LinkPasswordInvalid => "Invalid password.",
            ApiError::AdminPasswordInvalid => "Invalid password",
            ApiError::StatsNotAuthorized => "Not authorized to view stats.",
            ApiError::StatsFetchFailed => "Failed to fetch click stats.",
        };
        text.to_owned()
    }
}

} // verus!
