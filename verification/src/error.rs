use vstd::prelude::*;

verus! {

/// The ways in which an operation of the store fails.
#[derive(Clone, Copy, Debug, PartialEq, Eq, Structural)]
pub enum StoreErrorKind {
    /// The local part of a store id is an absolute path.
    StoreIdLocalPartAbsolute,
    /// A key on the path into the header does not exist.
    HeaderKeyNotFound,
    /// A value on the path into the header is not a table.
    HeaderPathTypeFailure,
    /// An entry is created that already exists.
    EntryAlreadyExists,
    /// An entry is asked for that does not exist.
    EntryNotFound,
}

/// The ways in which linking entries fails. A store id always has a string
/// form here, so turning a link into the string that the header stores
/// cannot fail, and there is no kind for that failure.
#[derive(Clone, Copy, Debug, PartialEq, Eq, Structural)]
pub enum LinkErrorKind {
    /// Reading or writing the links in an entry's header failed.
    EntryHeaderReadError,
    /// The links in an entry's header are not an array of strings.
    ExistingLinkTypeWrong,
    /// A link is not a valid store id.
    StoreIdError,
    /// Reading from the store failed.
    StoreReadError,
    /// Writing to the store failed.
    StoreWriteError,
}

impl LinkErrorKind {
    /// A short text that says what went wrong.
    pub open spec fn spec_description(self) -> Seq<char> {
        match self {
            LinkErrorKind::EntryHeaderReadError => "Error while reading an entry header"@,
            LinkErrorKind::ExistingLinkTypeWrong => "Existing link entry has wrong type"@,
            LinkErrorKind::StoreIdError => "StoreId handling error"@,
            LinkErrorKind::StoreReadError => "Store read error"@,
            LinkErrorKind::StoreWriteError => "Store write error"@,
        }
    }

    /// A short text that says what went wrong.
    pub fn description(&self) -> (r: &'static str)
        ensures
            r@ == self.spec_description(),
    {
        match self {
            LinkErrorKind::EntryHeaderReadError => "Error while reading an entry header",
            LinkErrorKind::ExistingLinkTypeWrong => "Existing link entry has wrong type",
            LinkErrorKind::StoreIdError => "StoreId handling error",
            LinkErrorKind::StoreReadError => "Store read error",
            LinkErrorKind::StoreWriteError => "Store write error",
        }
    }
}

/// What caused a link error: an error of the store, or another link error.
#[derive(Debug)]
pub enum ErrorCause {
    Store(StoreErrorKind),
    Link(Box<LinkError>),
}

/// An error of the linking operations, with the error that caused it.
#[derive(Debug)]
pub struct LinkError {
    pub kind: LinkErrorKind,
    pub cause: Option<ErrorCause>,
}

impl LinkError {
    /// An error of the given kind with no cause.
    pub open spec fn spec_new(kind: LinkErrorKind) -> LinkError {
        LinkError { kind, cause: None }
    }

    /// An error of the given kind caused by an error of the store.
    pub open spec fn spec_from_store(kind: LinkErrorKind, e: StoreErrorKind) -> LinkError {
        LinkError { kind, cause: Some(ErrorCause::Store(e)) }
    }

    /// An error of the given kind caused by another link error.
    pub open spec fn spec_wrap(kind: LinkErrorKind, e: LinkError) -> LinkError {
        LinkError { kind, cause: Some(ErrorCause::Link(Box::new(e))) }
    }

    /// Makes an error of the given kind with no cause.
    pub fn new(kind: LinkErrorKind) -> (r: LinkError)
        ensures
            r == LinkError::spec_new(kind),
    {
        LinkError { kind, cause: None }
    }

    /// Makes an error of the given kind caused by an error of the store.
    pub fn from_store(kind: LinkErrorKind, e: StoreErrorKind) -> (r: LinkError)
        ensures
            r == LinkError::spec_from_store(kind, e),
    {
        LinkError { kind, cause: Some(ErrorCause::Store(e)) }
    }

    /// Makes an error of the given kind caused by another link error.
    pub fn wrap(kind: LinkErrorKind, e: LinkError) -> (r: LinkError)
        ensures
            r == LinkError::spec_wrap(kind, e),
    {
        LinkError { kind, cause: Some(ErrorCause::Link(Box::new(e))) }
    }

    /// The kind of this error.
    pub fn kind(&self) -> (r: LinkErrorKind)
        ensures
            r == self.kind,
    {
        self.kind
    }
}

/// The ways in which the counter module fails.
#[derive(Clone, Copy, Debug, PartialEq, Eq, Structural)]
pub enum CounterErrorKind {
    StoreReadError,
    StoreWriteError,
    HeaderTypeError,
    HeaderFieldMissingError,
}

impl CounterErrorKind {
    /// A short text that says what went wrong.
    pub open spec fn spec_description(self) -> Seq<char> {
        match self {
            CounterErrorKind::StoreReadError => "Store read error"@,
            CounterErrorKind::StoreWriteError => "Store write error"@,
            CounterErrorKind::HeaderTypeError => "Header type error"@,
            CounterErrorKind::HeaderFieldMissingError => "Header field missing error"@,
        }
    }

    /// A short text that says what went wrong.
    pub fn description(&self) -> (r: &'static str)
        ensures
            r@ == self.spec_description(),
    {
        match self {
            CounterErrorKind::StoreReadError => "Store read error",
            CounterErrorKind::StoreWriteError => "Store write error",
            CounterErrorKind::HeaderTypeError => "Header type error",
            CounterErrorKind::HeaderFieldMissingError => "Header field missing error",
        }
    }
}

} // verus!
