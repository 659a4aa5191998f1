use vstd::prelude::*;

verus! {

/// What can go wrong in the service. Each variant carries its detail text.
#[derive(Clone, Debug)]
pub enum PegasusError {
    ConfigError(String),
    WebServerError(String),
    YtDlpError(String),
    DownloadError(String),
    ProcessingError(String),
    TransferError(String),
    IoError(String),
    ExternalServiceError(String),
    ExternalCommandError(String),
    Unknown(String),
}

/// The label that introduces each variant's detail text.
pub open spec fn error_prefix(e: PegasusError) -> Seq<char> {
    match e {
        PegasusError::ConfigError(_) => "Configuration error: "@,
        PegasusError::WebServerError(_) => "Web server error: "@,
        PegasusError::YtDlpError(_) => "Download error (yt-dlp): "@,
        PegasusError::DownloadError(_) => "Download error (general): "@,
        PegasusError::ProcessingError(_) => "Processing failed: "@,
        PegasusError::TransferError(_) => "Transfer failed: "@,
        PegasusError::IoError(_) => "I/O error: "@,
        PegasusError::ExternalServiceError(_) => "External service error: "@,
        PegasusError::ExternalCommandError(_) => "External command error: "@,
        PegasusError::Unknown(_) => "Unknown error: "@,
    }
}

pub open spec fn error_detail(e: PegasusError) -> Seq<char> {
    match e {
        PegasusError::ConfigError(s) => s@,
        PegasusError::WebServerError(s) => s@,
        PegasusError::YtDlpError(s) => s@,
        PegasusError::DownloadError(s) => s@,
        PegasusError::ProcessingError(s) => s@,
        PegasusError::TransferError(s) => s@,
        PegasusError::IoError(s) => s@,
        PegasusError::ExternalServiceError(s) => s@,
        PegasusError::ExternalCommandError(s) => s@,
        PegasusError::Unknown(s) => s@,
    }
}

/// The human-readable text of an error.
pub open spec fn error_text(e: PegasusError) -> Seq<char> {
    error_prefix(e) + error_detail(e)
}

impl PegasusError {
    /// The error as text, its label followed by its detail.
    pub fn describe(&self) -> (r: String)
        ensures
            r@ == error_text(*self),
    {
        let (prefix, detail) = match self {
            PegasusError::ConfigError(s) => ("Configuration error: ", s),
            PegasusError::WebServerError(s) => ("Web server error: ", s),
            PegasusError::YtDlpError(s) => ("Download error (yt-dlp): ", s),
            PegasusError::DownloadError(s) => ("Download error (general): ", s),
            PegasusError::ProcessingError(s) => ("Processing failed: ", s),
            PegasusError::TransferError(s) => ("Transfer failed: ", s),
            PegasusError::IoError(s) => ("I/O error: ", s),
            PegasusError::ExternalServiceError(s) => ("External service error: ", s),
            PegasusError::ExternalCommandError(s) => ("External command error: ", s),
            PegasusError::Unknown(s) => ("Unknown error: ", s),
        };
        let mut r = String::from_str(prefix);
        r.append(detail.as_str());
        r
    }
}

} // verus!
