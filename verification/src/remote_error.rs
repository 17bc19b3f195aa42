//! Why a remote session could not be attached to.

use vstd::prelude::*;

verus! {

#[derive(Debug)]
pub enum RemoteClientError {
    /// The server does not know the token.
    InvalidAuthToken,
    /// The server does not know the saved session any more.
    SessionTokenExpired,
    /// The server took the token and then refused the session.
    Unauthorized,
    ConnectionFailed(String),
    /// The address is none.
    UrlParseError(String),
    /// Nothing could be asked of the user.
    IoError(String),
    Other(String),
}

#[verifier::ext_equal]
pub enum RemoteErrorView {
    InvalidAuthToken,
    SessionTokenExpired,
    Unauthorized,
    ConnectionFailed(Seq<char>),
    UrlParseError(Seq<char>),
    IoError(Seq<char>),
    Other(Seq<char>),
}

impl View for RemoteClientError {
    type V = RemoteErrorView;

    open spec fn view(&self) -> RemoteErrorView {
        match *self {
            RemoteClientError::InvalidAuthToken => RemoteErrorView::InvalidAuthToken,
            RemoteClientError::SessionTokenExpired => RemoteErrorView::SessionTokenExpired,
            RemoteClientError::Unauthorized => RemoteErrorView::Unauthorized,
            RemoteClientError::ConnectionFailed(t) => RemoteErrorView::ConnectionFailed(t@),
            RemoteClientError::UrlParseError(t) => RemoteErrorView::UrlParseError(t@),
            RemoteClientError::IoError(t) => RemoteErrorView::IoError(t@),
            RemoteClientError::Other(t) => RemoteErrorView::Other(t@),
        }
    }
}

} // verus!
