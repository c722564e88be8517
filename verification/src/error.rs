//! The failures that the inspector reports.

use vstd::prelude::*;
use vstd::string::*;
use crate::text::{text_of, NumberError};

verus! {

/// Why an inspector operation did not produce its result.
#[derive(Debug, Clone, PartialEq, Eq)]
pub enum InspectorError {
    /// No project carries the identifier.
    ProjectNotFound(String),
    /// No configuration source yielded credentials.
    CredentialsNotFound,
    /// No configuration source yielded credentials when only the engine was
    /// asked for.
    EngineNotFound,
    /// The engine could not be reached, or the database file at `path` could
    /// not be opened; `detail` is what the engine said.
    ConnectionFailed { path: Option<String>, detail: String },
    /// A table or column name holds a character outside the allow-list.
    InvalidIdentifier,
    /// The engine rejected a statement or answered out of shape; the text is
    /// what it said.
    QueryFailed(String),
    /// Credentials could not be written out; the text says why.
    SerializationError(String),
    /// The credentials name this connection, which is no engine that the
    /// inspector knows.
    UnsupportedConnection(String),
    /// The port of a client/server connection is no number below 65536.
    InvalidPort(NumberError),
    /// A file that should hold a JSON document holds none; the text says why.
    MalformedDocument(String),
    /// No supported editor goes by this name.
    UnsupportedEditor(String),
}

/// The mathematical value of an [`InspectorError`].
pub ghost enum ErrorView {
    ProjectNotFound(Seq<char>),
    CredentialsNotFound,
    EngineNotFound,
    ConnectionFailed { path: Option<Seq<char>>, detail: Seq<char> },
    InvalidIdentifier,
    QueryFailed(Seq<char>),
    SerializationError(Seq<char>),
    UnsupportedConnection(Seq<char>),
    InvalidPort(NumberError),
    MalformedDocument(Seq<char>),
    UnsupportedEditor(Seq<char>),
}

impl View for InspectorError {
    type V = ErrorView;

    open spec fn view(&self) -> ErrorView {
        match self {
            InspectorError::ProjectNotFound(id) => ErrorView::ProjectNotFound(id@),
            InspectorError::CredentialsNotFound => ErrorView::CredentialsNotFound,
            InspectorError::EngineNotFound => ErrorView::EngineNotFound,
            InspectorError::ConnectionFailed { path, detail } => ErrorView::ConnectionFailed {
                path: text_of(*path),
                detail: detail@,
            },
            InspectorError::InvalidIdentifier => ErrorView::InvalidIdentifier,
            InspectorError::QueryFailed(detail) => ErrorView::QueryFailed(detail@),
            InspectorError::SerializationError(detail) => ErrorView::SerializationError(detail@),
            InspectorError::UnsupportedConnection(connection) => ErrorView::UnsupportedConnection(
                connection@,
            ),
            InspectorError::InvalidPort(reason) => ErrorView::InvalidPort(*reason),
            InspectorError::MalformedDocument(detail) => ErrorView::MalformedDocument(detail@),
            InspectorError::UnsupportedEditor(editor) => ErrorView::UnsupportedEditor(editor@),
        }
    }
}

impl ErrorView {
    /// The message shown to the user.
    pub open spec fn message(self) -> Seq<char> {
        match self {
            ErrorView::ProjectNotFound(id) => "Project with ID '"@ + id
                + "' not found in database"@,
            ErrorView::CredentialsNotFound => "Database configuration not found. Please ensure either a .env file with DB credentials exists or configure the database settings."@,
            ErrorView::EngineNotFound => "Database configuration not found"@,
            ErrorView::ConnectionFailed { path: None, detail } => "Failed to connect to MySQL database: "@
                + detail,
            ErrorView::ConnectionFailed { path: Some(path), detail } => "Failed to open SQLite database at "@
                + path + ": "@ + detail,
            ErrorView::InvalidIdentifier => "Invalid identifier"@,
            ErrorView::QueryFailed(detail) => detail,
            ErrorView::SerializationError(detail) => "Failed to serialize credentials: "@ + detail,
            ErrorView::UnsupportedConnection(connection) => "Unsupported database connection type: "@
                + connection,
            ErrorView::InvalidPort(reason) => "Invalid port number: "@ + reason.reason(),
            ErrorView::MalformedDocument(detail) => detail,
            ErrorView::UnsupportedEditor(editor) => "Unsupported editor: "@ + editor,
        }
    }
}

impl InspectorError {
    /// Writes the message shown to the user.
    pub fn message(&self) -> (r: String)
        ensures
            r@ == self@.message(),
    {
        match self {
            InspectorError::ProjectNotFound(id) => {
                let mut out = String::from_str("Project with ID '");
                out.append(id.as_str());
                out.append("' not found in database");
                out
            },
            InspectorError::CredentialsNotFound => String::from_str(
                "Database configuration not found. Please ensure either a .env file with DB credentials exists or configure the database settings.",
            ),
            InspectorError::EngineNotFound => String::from_str("Database configuration not found"),
            InspectorError::ConnectionFailed { path, detail } => {
                match path {
                    Some(p) => {
                        let mut out = String::from_str("Failed to open SQLite database at ");
                        out.append(p.as_str());
                        out.append(": ");
                        out.append(detail.as_str());
                        out
                    },
                    None => {
                        let mut out = String::from_str("Failed to connect to MySQL database: ");
                        out.append(detail.as_str());
                        out
                    },
                }
            },
            InspectorError::InvalidIdentifier => String::from_str("Invalid identifier"),
            InspectorError::QueryFailed(detail) => detail.clone(),
            InspectorError::SerializationError(detail) => {
                let mut out = String::from_str("Failed to serialize credentials: ");
                out.append(detail.as_str());
                out
            },
            InspectorError::UnsupportedConnection(connection) => {
                let mut out = String::from_str("Unsupported database connection type: ");
                out.append(connection.as_str());
                out
            },
            InspectorError::InvalidPort(reason) => {
                let mut out = String::from_str("Invalid port number: ");
                out.append(reason.text());
                out
            },
            InspectorError::MalformedDocument(detail) => detail.clone(),
            InspectorError::UnsupportedEditor(editor) => {
                let mut out = String::from_str("Unsupported editor: ");
                out.append(editor.as_str());
                out
            },
        }
    }
}

} // verus!
