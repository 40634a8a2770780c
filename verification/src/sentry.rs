//! The rules by which error reporting is set up: which settings must come
//! together, and which requests are traced less often than the rest.
//!
//! Reading the settings from the environment and starting the reporting
//! client are left to the program; what is decided here is decided on plain
//! values. Whether a text names a destination for reports is Sentry's own
//! parser's to say.

use vstd::prelude::*;
use vstd::utf8::encode_utf8;

verus! {

/// By how much the share of traced requests is cut for the download
/// endpoint, which gets far more traffic than the rest.
pub const DOWNLOAD_SAMPLE_DIVISOR: u32 = 10;

/// The settings of the reporting client.
pub struct SentryConfig {
    /// Where reports are sent. Without it nothing is reported.
    pub dsn: Option<String>,
    /// The deployment that reports are marked with.
    pub environment: Option<String>,
    /// The release that reports are marked with.
    pub release: Option<String>,
}

/// Why the settings found cannot be used.
#[derive(Clone, Copy, Debug, PartialEq, Eq, Structural)]
pub enum ConfigError {
    /// The destination for reports is set to what is no destination.
    InvalidDsn,
    /// A destination for reports is set but the deployment is not named.
    MissingEnvironment,
}

/// What a text that is to name the destination for reports amounts to.
#[derive(Clone, Copy, Debug, PartialEq, Eq, Structural)]
pub enum DsnReading {
    /// The text names no destination and asks for none: reporting is off.
    Unset,
    /// The text names a destination.
    Valid,
    /// The text is meant to name a destination and does not.
    Invalid,
}

/// What Sentry's parser makes of a text that is to name the destination
/// for reports.
pub uninterp spec fn dsn_reading(text: Seq<char>) -> DsnReading;

/// What the setting for the destination amounts to: nothing where it is
/// missing, else what the parser makes of it.
pub open spec fn reading_of(dsn: Option<String>) -> DsnReading {
    match dsn {
        None => DsnReading::Unset,
        Some(text) => dsn_reading(text@),
    }
}

/// Asks `sentry::IntoDsn::into_dsn` what a text amounts to as the
/// destination for reports: nothing, a destination, or an error. The
/// contract only names the answer.
#[verifier::external_body]
fn read_dsn(text: &str) -> (reading: DsnReading)
    ensures
        reading == dsn_reading(text@),
{
    match sentry::IntoDsn::into_dsn(text) {
        Ok(Some(_)) => DsnReading::Valid,
        Ok(None) => DsnReading::Unset,
        Err(_) => DsnReading::Invalid,
    }
}

/// The text of an optional setting.
pub open spec fn setting_view(setting: Option<String>) -> Option<Seq<char>> {
    match setting {
        Some(text) => Some(text@),
        None => None,
    }
}

/// The start of the path of every endpoint that is about one crate.
pub open spec fn crates_prefix() -> Seq<u8> {
    encode_utf8("/api/v1/crates/"@)
}

/// The end of the path of the download endpoint.
pub open spec fn download_suffix() -> Seq<u8> {
    encode_utf8("/download"@)
}

/// Whether a byte string ends with another.
pub open spec fn ends_with(text: Seq<u8>, suffix: Seq<u8>) -> bool {
    suffix.len() <= text.len() && text.subrange(text.len() - suffix.len(), text.len() as int)
        == suffix
}

/// Whether a transaction of this name is a download of a crate.
pub open spec fn is_download(name: Seq<u8>) -> bool {
    crates_prefix().is_prefix_of(name) && ends_with(name, download_suffix())
}

/// Puts the settings together, given what the setting for the destination
/// amounts to. A destination for reports needs the name of the deployment;
/// without a destination neither the text of the setting nor the name of
/// the deployment is kept.
pub fn configure_with(
    reading: DsnReading,
    dsn: Option<String>,
    environment: Option<String>,
    release: Option<String>,
) -> (config: Result<SentryConfig, ConfigError>)
    ensures
        config matches Err(ConfigError::InvalidDsn) <==> reading == DsnReading::Invalid,
        config matches Err(ConfigError::MissingEnvironment) <==> reading == DsnReading::Valid
            && environment is None,
        config matches Ok(c) ==> {
            &&& setting_view(c.dsn) == (if reading == DsnReading::Valid {
                setting_view(dsn)
            } else {
                None
            })
            &&& setting_view(c.environment) == (if reading == DsnReading::Valid {
                setting_view(environment)
            } else {
                None
            })
            &&& setting_view(c.release) == setting_view(release)
        },
{
    match reading {
        DsnReading::Invalid => Err(ConfigError::InvalidDsn),
        DsnReading::Unset => Ok(SentryConfig { dsn: None, environment: None, release }),
        DsnReading::Valid => match environment {
            None => Err(ConfigError::MissingEnvironment),
            Some(deployment) => Ok(SentryConfig { dsn, environment: Some(deployment), release }),
        },
    }
}

/// Puts the settings together as they were found. The setting for the
/// destination must be missing, empty or a destination; a destination needs
/// the name of the deployment.
pub fn configure(dsn: Option<String>, environment: Option<String>, release: Option<String>) -> (config:
    Result<SentryConfig, ConfigError>)
    ensures
        config matches Err(ConfigError::InvalidDsn) <==> reading_of(dsn) == DsnReading::Invalid,
        config matches Err(ConfigError::MissingEnvironment) <==> reading_of(dsn)
            == DsnReading::Valid && environment is None,
        config matches Ok(c) ==> {
            &&& setting_view(c.dsn) == (if reading_of(dsn) == DsnReading::Valid {
                setting_view(dsn)
            } else {
                None
            })
            &&& setting_view(c.environment) == (if reading_of(dsn) == DsnReading::Valid {
                setting_view(environment)
            } else {
                None
            })
            &&& setting_view(c.release) == setting_view(release)
        },
{
    let reading = match &dsn {
        None => DsnReading::Unset,
        Some(text) => read_dsn(text.as_str()),
    };
    configure_with(reading, dsn, environment, release)
}

/// Whether the bytes start with the prefix.
#[verifier::loop_isolation(false)]
pub fn bytes_start_with(text: &[u8], prefix: &[u8]) -> (starts: bool)
    ensures
        starts == prefix@.is_prefix_of(text@),
{
    if prefix.len() > text.len() {
        return false;
    }
    let mut i: usize = 0;
    while i < prefix.len()
        invariant
            i <= prefix@.len(),
            forall|j: int| 0 <= j < i ==> prefix@[j] == text@[j],
        decreases prefix@.len() - i,
    {
        if prefix[i] != text[i] {
            assert(text@.subrange(0, prefix@.len() as int)[i as int] != prefix@[i as int]);
            return false;
        }
        i = i + 1;
    }
    assert(prefix@ =~= text@.subrange(0, prefix@.len() as int));
    true
}

/// Whether the bytes end with the suffix.
#[verifier::loop_isolation(false)]
pub fn bytes_end_with(text: &[u8], suffix: &[u8]) -> (ends: bool)
    ensures
        ends == ends_with(text@, suffix@),
{
    if suffix.len() > text.len() {
        return false;
    }
    let offset: usize = text.len() - suffix.len();
    let ghost tail = text@.subrange(offset as int, text@.len() as int);
    let mut i: usize = 0;
    while i < suffix.len()
        invariant
            i <= suffix@.len(),
            forall|j: int| 0 <= j < i ==> suffix@[j] == text@[offset + j],
        decreases suffix@.len() - i,
    {
        if suffix[i] != text[offset + i] {
            assert(tail[i as int] != suffix@[i as int]);
            return false;
        }
        i = i + 1;
    }
    assert(tail =~= suffix@);
    true
}

/// Whether a transaction of this name is a download of a crate.
pub fn is_download_endpoint(name: &str) -> (download: bool)
    ensures
        download == is_download(encode_utf8(name@)),
{
    let bytes = name.as_bytes();
    bytes_start_with(bytes, "/api/v1/crates/".as_bytes()) && bytes_end_with(
        bytes,
        "/download".as_bytes(),
    )
}

/// The number by which the configured share of traced requests is divided
/// for a transaction of this name: `DOWNLOAD_SAMPLE_DIVISOR` for a download
/// of a crate, one for everything else.
pub fn sample_rate_divisor(name: &str) -> (divisor: u32)
    ensures
        divisor == (if is_download(encode_utf8(name@)) {
            DOWNLOAD_SAMPLE_DIVISOR
        } else {
            1u32
        }),
{
    if is_download_endpoint(name) {
        DOWNLOAD_SAMPLE_DIVISOR
    } else {
        1
    }
}

} // verus!
