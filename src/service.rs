//! The post service and its error taxonomy as callers see it.
use crate::repositories::{repository_message, ReponsitoryError, ReponsitoryErrorView};
use vstd::prelude::*;

pub mod comment;
pub mod post;

verus! {

/// Why content could not be stored or read.
#[derive(Debug)]
pub enum FileFault {
    /// Content already stands at the path; content is written once.
    AlreadyExists,
    /// Any other failure of the blob storage, with its text.
    Io(String),
}

/// `FileFault` as a value, text as characters.
pub enum FileFaultView {
    AlreadyExists,
    Io(Seq<char>),
}

impl View for FileFault {
    type V = FileFaultView;

    open spec fn view(&self) -> FileFaultView {
        match self {
            FileFault::AlreadyExists => FileFaultView::AlreadyExists,
            FileFault::Io(m) => FileFaultView::Io(m@),
        }
    }
}

/// What a caller of the post service can be told went wrong.
#[derive(Debug)]
pub enum ServiceError {
    NotFound,
    BadArugment(String),
    InternalError(String),
    FileError(FileFault),
}

/// `ServiceError` as a value, text as characters.
pub enum ServiceErrorView {
    NotFound,
    BadArugment(Seq<char>),
    InternalError(Seq<char>),
    FileError(FileFaultView),
}

impl View for ServiceError {
    type V = ServiceErrorView;

    open spec fn view(&self) -> ServiceErrorView {
        match self {
            ServiceError::NotFound => ServiceErrorView::NotFound,
            ServiceError::BadArugment(m) => ServiceErrorView::BadArugment(m@),
            ServiceError::InternalError(m) => ServiceErrorView::InternalError(m@),
            ServiceError::FileError(f) => ServiceErrorView::FileError(f@),
        }
    }
}

/// How a store error reaches callers: a missing row stays `NotFound`, any
/// other failure becomes an internal error carrying its text.
pub open spec fn service_view_of(e: ReponsitoryErrorView) -> ServiceErrorView {
    match e {
        ReponsitoryErrorView::NotFound => ServiceErrorView::NotFound,
        _ => ServiceErrorView::InternalError(repository_message(e)),
    }
}

/// The HTTP status an error answers with.
pub open spec fn status_of(e: ServiceErrorView) -> u16 {
    match e {
        ServiceErrorView::NotFound => 404,
        ServiceErrorView::BadArugment(_) => 400,
        ServiceErrorView::InternalError(_) => 500,
        ServiceErrorView::FileError(_) => 500,
    }
}

/// The text an error answers with.
pub open spec fn answer_of(e: ServiceErrorView) -> Seq<char> {
    match e {
        ServiceErrorView::NotFound => "Not Found"@,
        ServiceErrorView::BadArugment(m) => m,
        ServiceErrorView::InternalError(m) => m,
        ServiceErrorView::FileError(FileFaultView::AlreadyExists) => "entity already exists"@,
        ServiceErrorView::FileError(FileFaultView::Io(m)) => m,
    }
}

impl ServiceError {
    /// Translates a store error once, at the service boundary.
    pub fn from_repository(e: ReponsitoryError) -> (r: ServiceError)
        ensures
            r@ == service_view_of(e@),
    {
        match e {
            ReponsitoryError::NotFound => ServiceError::NotFound,
            _ => ServiceError::InternalError(e.message()),
        }
    }

    /// The HTTP status this error answers with.
    pub fn status_code(&self) -> (r: u16)
        ensures
            r == status_of(self@),
    {
        match self {
            ServiceError::NotFound => 404,
            ServiceError::BadArugment(_) => 400,
            ServiceError::InternalError(_) => 500,
            ServiceError::FileError(_) => 500,
        }
    }

    /// The text this error answers with.
    pub fn answer(&self) -> (r: String)
        ensures
            r@ == answer_of(self@),
    {
        match self {
            ServiceError::NotFound => String::from_str("Not Found"),
            ServiceError::BadArugment(m) => m.clone(),
            ServiceError::InternalError(m) => m.clone(),
            ServiceError::FileError(FileFault::AlreadyExists) => String::from_str(
                "entity already exists",
            ),
            ServiceError::FileError(FileFault::Io(m)) => m.clone(),
        }
    }
}

} // verus!
