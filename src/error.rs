use vstd::prelude::*;

verus! {

/// Why a submission was not applied.
#[derive(Debug, Clone)]
pub enum IngestError {
    /// The body could not be read as a submission.
    MalformedIngestionPayload(String),
    /// No store connection could be had in time.
    ConnectionAcquisitionTimeout(String),
    /// The store refused a write or a query, or an aggregate would leave the
    /// 64-bit range of its columns.
    PersistenceFailure(String),
}

impl IngestError {
    /// The HTTP status this error is reported with.
    pub open spec fn status_spec(&self) -> u16 {
        match self {
            IngestError::MalformedIngestionPayload(_) => 400,
            IngestError::ConnectionAcquisitionTimeout(_) => 408,
            IngestError::PersistenceFailure(_) => 500,
        }
    }

    /// The HTTP status this error is reported with.
    pub fn status_code(&self) -> (r: u16)
        ensures
            r == self.status_spec(),
    {
        match self {
            IngestError::MalformedIngestionPayload(_) => 400,
            IngestError::ConnectionAcquisitionTimeout(_) => 408,
            IngestError::PersistenceFailure(_) => 500,
        }
    }

    /// The diagnostic text carried by the error.
    pub open spec fn detail_spec(&self) -> Seq<char> {
        match self {
            IngestError::MalformedIngestionPayload(d) => d@,
            IngestError::ConnectionAcquisitionTimeout(d) => d@,
            IngestError::PersistenceFailure(d) => d@,
        }
    }

    /// The diagnostic text carried by the error.
    pub fn detail(&self) -> (r: String)
        ensures
            r@ == self.detail_spec(),
    {
        match self {
            IngestError::MalformedIngestionPayload(d) => d.clone(),
            IngestError::ConnectionAcquisitionTimeout(d) => d.clone(),
            IngestError::PersistenceFailure(d) => d.clone(),
        }
    }
}

} // verus!
