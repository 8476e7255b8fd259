use vstd::prelude::*;

verus! {

/// Failures that are the server's fault.
#[derive(Debug, Clone, Copy, PartialEq, Eq, Structural)]
pub enum ServerError {
    Internal,
    NotImplemented,
}

/// Failures that are the client's fault.
#[derive(Debug, Clone, Copy, PartialEq, Eq, Structural)]
pub enum ClientError {
    NotFound,
    BadRequest,
}

/// Every error that handling one connection can run into.
#[derive(Debug, Clone, Copy, PartialEq, Eq, Structural)]
pub enum AppError {
    Client(ClientError),
    Server(ServerError),
}

impl ServerError {
    /// The status line text, `"<code> <reason>"`.
    pub fn reason(&self) -> (r: &'static str)
        ensures
            r@ == match *self {
                ServerError::Internal => "500 Internal Server Error"@,
                ServerError::NotImplemented => "501 Not Implemented"@,
            },
    {
        match self {
            ServerError::Internal => "500 Internal Server Error",
            ServerError::NotImplemented => "501 Not Implemented",
        }
    }
}

impl ClientError {
    /// The status line text, `"<code> <reason>"`.
    pub fn reason(&self) -> (r: &'static str)
        ensures
            r@ == match *self {
                ClientError::NotFound => "404 Not Found"@,
                ClientError::BadRequest => "400 Bad Request"@,
            },
    {
        match self {
            ClientError::NotFound => "404 Not Found",
            ClientError::BadRequest => "400 Bad Request",
        }
    }
}

impl From<ClientError> for AppError {
    fn from(error: ClientError) -> (r: AppError)
        ensures
            r == AppError::Client(error),
    {
        AppError::Client(error)
    }
}

impl vstd::std_specs::convert::FromSpecImpl<ClientError> for AppError {
    open spec fn obeys_from_spec() -> bool {
        true
    }

    open spec fn from_spec(v: ClientError) -> AppError {
        AppError::Client(v)
    }
}

impl From<ServerError> for AppError {
    fn from(error: ServerError) -> (r: AppError)
        ensures
            r == AppError::Server(error),
    {
        AppError::Server(error)
    }
}

impl vstd::std_specs::convert::FromSpecImpl<ServerError> for AppError {
    open spec fn obeys_from_spec() -> bool {
        true
    }

    open spec fn from_spec(v: ServerError) -> AppError {
        AppError::Server(v)
    }
}

} // verus!
