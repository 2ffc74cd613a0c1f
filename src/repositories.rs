//! Metadata storage: its error taxonomy and its row types.
use vstd::prelude::*;

pub mod comment;
pub mod post;

verus! {

/// What can go wrong inside a metadata store.
#[derive(Debug)]
pub enum ReponsitoryError {
    NotFound,
    PoolError(String),
    DataBaseError(String),
    InternalError,
}

/// `ReponsitoryError` as a value, text as characters.
pub enum ReponsitoryErrorView {
    NotFound,
    PoolError(Seq<char>),
    DataBaseError(Seq<char>),
    InternalError,
}

impl View for ReponsitoryError {
    type V = ReponsitoryErrorView;

    open spec fn view(&self) -> ReponsitoryErrorView {
        match self {
            ReponsitoryError::NotFound => ReponsitoryErrorView::NotFound,
            ReponsitoryError::PoolError(m) => ReponsitoryErrorView::PoolError(m@),
            ReponsitoryError::DataBaseError(m) => ReponsitoryErrorView::DataBaseError(m@),
            ReponsitoryError::InternalError => ReponsitoryErrorView::InternalError,
        }
    }
}

/// A failure as a database driver reports it, before it is classified.
#[derive(Debug)]
pub enum DriverFault {
    RowNotFound,
    PoolTimedOut,
    PoolClosed,
    Database(String),
    Tls(String),
    Io(String),
    Other,
}

/// The text an error reads as.
pub open spec fn repository_message(e: ReponsitoryErrorView) -> Seq<char> {
    match e {
        ReponsitoryErrorView::NotFound => "Not Found"@,
        ReponsitoryErrorView::PoolError(m) => "Pool Error: "@ + m,
        ReponsitoryErrorView::DataBaseError(m) => "Database Error: "@ + m,
        ReponsitoryErrorView::InternalError => "Internal Error"@,
    }
}

impl ReponsitoryError {
    /// Classifies a driver failure: a missing row is `NotFound`, pool trouble is
    /// `PoolError`, database, TLS and I/O failures carry their text as
    /// `DataBaseError`, and anything else is `InternalError`.
    pub fn from_fault(fault: DriverFault) -> (r: ReponsitoryError)
        ensures
            r@ == match fault {
                DriverFault::RowNotFound => ReponsitoryErrorView::NotFound,
                DriverFault::PoolTimedOut => ReponsitoryErrorView::PoolError("Timed Out"@),
                DriverFault::PoolClosed => ReponsitoryErrorView::PoolError("Closed"@),
                DriverFault::Database(m) => ReponsitoryErrorView::DataBaseError(m@),
                DriverFault::Tls(m) => ReponsitoryErrorView::DataBaseError(m@),
                DriverFault::Io(m) => ReponsitoryErrorView::DataBaseError(m@),
                DriverFault::Other => ReponsitoryErrorView::InternalError,
            },
    {
        match fault {
            DriverFault::RowNotFound => ReponsitoryError::NotFound,
            DriverFault::PoolTimedOut => ReponsitoryError::PoolError(String::from_str("Timed Out")),
            DriverFault::PoolClosed => ReponsitoryError::PoolError(String::from_str("Closed")),
            DriverFault::Database(m) => ReponsitoryError::DataBaseError(m),
            DriverFault::Tls(m) => ReponsitoryError::DataBaseError(m),
            DriverFault::Io(m) => ReponsitoryError::DataBaseError(m),
            DriverFault::Other => ReponsitoryError::InternalError,
        }
    }

    /// The text this error reads as.
    pub fn message(&self) -> (r: String)
        ensures
            r@ == repository_message(self@),
    {
        match self {
            ReponsitoryError::NotFound => String::from_str("Not Found"),
            ReponsitoryError::PoolError(m) => {
                let mut s = String::from_str("Pool Error: ");
                s.append(m.as_str());
                s
            },
            ReponsitoryError::DataBaseError(m) => {
                let mut s = String::from_str("Database Error: ");
                s.append(m.as_str());
                s
            },
            ReponsitoryError::InternalError => String::from_str("Internal Error"),
        }
    }
}

} // verus!
