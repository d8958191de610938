//! The error type that the decoder shares with the transport around it.

use crate::config::ConfigError;
use crate::number::{decimal, to_decimal};
use vstd::prelude::*;
use vstd::string::StringExecFns;

verus! {

/// What can go wrong between a request and its decoded answer.
///
/// The decoder itself returns only [`Error::ParsingWifiStatus`] and
/// [`Error::ParsingWifiConfig`], each with the cause and the whole response.
/// The other kinds belong to the transport, which reports them in the same
/// type. Kinds that carry a value of the operating system or of a channel
/// are not among them: the transport keeps those in a type of its own.
#[derive(Debug, PartialEq, Eq)]
pub enum Error {
    StartupAborted,
    ParsingWifiStatus { e: ConfigError, s: String },
    ParsingWifiConfig { e: ConfigError, s: String },
    UnexpectedWifiApRepsonse(String),
    Timeout,
    DidNotWriteAllBytes(usize, usize),
    WifiStationRequestChannelClosed,
    WifiStationEventChannelClosed,
    WifiApRequestChannelClosed,
    WifiApEventChannelClosed,
    TimeoutOpeningSocket(String),
    PermissionDeniedOpeningSocket(String),
}

impl Clone for Error {
    fn clone(&self) -> (res: Self)
        ensures
            res == *self,
    {
        match self {
            Error::StartupAborted => Error::StartupAborted,
            Error::ParsingWifiStatus { e, s } => Error::ParsingWifiStatus {
                e: e.clone(),
                s: s.clone(),
            },
            Error::ParsingWifiConfig { e, s } => Error::ParsingWifiConfig {
                e: e.clone(),
                s: s.clone(),
            },
            Error::UnexpectedWifiApRepsonse(s) => Error::UnexpectedWifiApRepsonse(s.clone()),
            Error::Timeout => Error::Timeout,
            Error::DidNotWriteAllBytes(got, expected) => Error::DidNotWriteAllBytes(
                *got,
                *expected,
            ),
            Error::WifiStationRequestChannelClosed => Error::WifiStationRequestChannelClosed,
            Error::WifiStationEventChannelClosed => Error::WifiStationEventChannelClosed,
            Error::WifiApRequestChannelClosed => Error::WifiApRequestChannelClosed,
            Error::WifiApEventChannelClosed => Error::WifiApEventChannelClosed,
            Error::TimeoutOpeningSocket(path) => Error::TimeoutOpeningSocket(path.clone()),
            Error::PermissionDeniedOpeningSocket(path) => Error::PermissionDeniedOpeningSocket(
                path.clone(),
            ),
        }
    }
}

impl Error {
    /// The text that describes this error.
    pub open spec fn message_text(self) -> Seq<char> {
        match self {
            Error::StartupAborted => "start-up aborted"@,
            Error::ParsingWifiStatus { e, s } => "error parsing wifi status "@ + e.message_text()
                + ": \n"@ + s@,
            Error::ParsingWifiConfig { e, s } => "error parsing wifi config "@ + e.message_text()
                + ": \n"@ + s@,
            Error::UnexpectedWifiApRepsonse(s) => "unexpected wifi ap response: "@ + s@,
            Error::Timeout => "timeout waiting for response"@,
            Error::DidNotWriteAllBytes(got, expected) => "did not write all bytes "@ + decimal(
                got as nat,
            ) + "/"@ + decimal(expected as nat),
            Error::WifiStationRequestChannelClosed => "wifi_ctrl::station internal request channel unexpectedly closed"@,
            Error::WifiStationEventChannelClosed => "wifi_ctrl::station internal event channel unexpectedly closed"@,
            Error::WifiApRequestChannelClosed => "wifi_ctrl::ap internal request channel unexpectedly closed"@,
            Error::WifiApEventChannelClosed => "wifi_ctrl::ap internal event channel unexpectedly closed"@,
            Error::TimeoutOpeningSocket(path) => "timeout opening socket "@ + path@,
            Error::PermissionDeniedOpeningSocket(path) => "permission denied opening socket "@
                + path@,
        }
    }

    /// The text that describes this error.
    pub fn message(&self) -> (text: String)
        ensures
            text@ == self.message_text(),
    {
        match self {
            Error::StartupAborted => "start-up aborted".to_owned(),
            Error::ParsingWifiStatus { e, s } => {
                let mut text = "error parsing wifi status ".to_owned();
                text.append(e.message().as_str());
                text.append(": \n");
                text.append(s.as_str());
                text
            },
            Error::ParsingWifiConfig { e, s } => {
                let mut text = "error parsing wifi config ".to_owned();
                text.append(e.message().as_str());
                text.append(": \n");
                text.append(s.as_str());
                text
            },
            Error::UnexpectedWifiApRepsonse(s) => {
                let mut text = "unexpected wifi ap response: ".to_owned();
                text.append(s.as_str());
                text
            },
            Error::Timeout => "timeout waiting for response".to_owned(),
            Error::DidNotWriteAllBytes(got, expected) => {
                let mut text = "did not write all bytes ".to_owned();
                text.append(to_decimal(*got).as_str());
                text.append("/");
                text.append(to_decimal(*expected).as_str());
                text
            },
            Error::WifiStationRequestChannelClosed => {
                "wifi_ctrl::station internal request channel unexpectedly closed".to_owned()
            },
            Error::WifiStationEventChannelClosed => {
                "wifi_ctrl::station internal event channel unexpectedly closed".to_owned()
            },
            Error::WifiApRequestChannelClosed => {
                "wifi_ctrl::ap internal request channel unexpectedly closed".to_owned()
            },
            Error::WifiApEventChannelClosed => {
                "wifi_ctrl::ap internal event channel unexpectedly closed".to_owned()
            },
            Error::TimeoutOpeningSocket(path) => {
                let mut text = "timeout opening socket ".to_owned();
                text.append(path.as_str());
                text
            },
            Error::PermissionDeniedOpeningSocket(path) => {
                let mut text = "permission denied opening socket ".to_owned();
                text.append(path.as_str());
                text
            },
        }
    }
}

} // verus!
