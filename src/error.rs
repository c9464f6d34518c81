//! Errors raised by provider operations.

use vstd::prelude::*;

verus! {

/// Kinds of failure of a provider operation.
#[derive(Clone, Copy, Debug, PartialEq, Eq, Structural)]
pub enum ProvidersErrorType {
    QueryDomainRecordsError,
    DeleteSubdomainRecordsError,
    NoRecordFound,
    TooManyRecords,
    DeleteDomainRecordsError,
    NotInitialized,
    KeyError,
    NetworkError,
    OtherError,
}

impl ProvidersErrorType {
    /// The name of the kind, as it is logged.
    pub fn as_str(&self) -> (r: &'static str)
        ensures
            *self == ProvidersErrorType::NoRecordFound ==> r@ == "NoRecordFound"@,
            *self == ProvidersErrorType::TooManyRecords ==> r@ == "TooManyRecords"@,
            *self == ProvidersErrorType::QueryDomainRecordsError ==> r@
                == "QueryDomainRecordsError"@,
            *self == ProvidersErrorType::DeleteSubdomainRecordsError ==> r@
                == "DeleteSubdomainRecordsError"@,
            *self == ProvidersErrorType::DeleteDomainRecordsError ==> r@
                == "DeleteDomainRecordsError"@,
            *self == ProvidersErrorType::NotInitialized ==> r@ == "NotInitialized"@,
            *self == ProvidersErrorType::KeyError ==> r@ == "KeyError"@,
            *self == ProvidersErrorType::NetworkError ==> r@ == "NetworkError"@,
            *self == ProvidersErrorType::OtherError ==> r@ == "OtherError"@,
    {
        match self {
            ProvidersErrorType::QueryDomainRecordsError => "QueryDomainRecordsError",
            ProvidersErrorType::DeleteSubdomainRecordsError => "DeleteSubdomainRecordsError",
            ProvidersErrorType::NoRecordFound => "NoRecordFound",
            ProvidersErrorType::TooManyRecords => "TooManyRecords",
            ProvidersErrorType::DeleteDomainRecordsError => "DeleteDomainRecordsError",
            ProvidersErrorType::NotInitialized => "NotInitialized",
            ProvidersErrorType::KeyError => "KeyError",
            ProvidersErrorType::NetworkError => "NetworkError",
            ProvidersErrorType::OtherError => "OtherError",
        }
    }
}

} // verus!
