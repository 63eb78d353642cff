//! What can go wrong, and how it is told.
use vstd::prelude::*;

verus! {

/// A request that the service did not answer, or answered with an error.
#[derive(Clone, Debug)]
pub struct ClientError {
    /// The status of the response, where there was one.
    pub status: Option<u16>,
    pub detail: String,
}

/// A failure of the table of mappings.
#[derive(Debug)]
pub enum DatabaseError {
    Query(String),
    Serialize(String),
}

impl Clone for DatabaseError {
    fn clone(&self) -> (copy: Self)
        ensures
            copy == *self,
    {
        match self {
            DatabaseError::Query(detail) => DatabaseError::Query(detail.clone()),
            DatabaseError::Serialize(detail) => DatabaseError::Serialize(detail.clone()),
        }
    }
}

/// What performing an operation can fail with.
#[derive(Clone, Debug)]
pub enum Failure {
    ClientSend(ClientError),
    ClientSerde(String),
    ClientValidation(String),
    ClientChannelValidation(String),
    ClientMessageValidation(String),
    ReqwestError(String),
    Pool(String),
    Interact(String),
    Database(DatabaseError),
}

/// A failure while guilds are being set up.
#[derive(Clone, Debug)]
pub enum MappingsError {
    ClientSend(ClientError),
    ClientSerde(String),
    Pool(String),
    Interact(String),
    Database(DatabaseError),
    ChannelCreateValidation(String),
}

/// A failure while an event is being handled.
#[derive(Clone, Debug)]
pub enum HandlerError {
    ClientSend(ClientError),
    ClientSerde(String),
    ClientValidation(String),
    ClientChannelValidation(String),
    ClientMessageValidation(String),
    ReqwestError(String),
    Pool(String),
    Interact(String),
    Database(DatabaseError),
    Mapping(MappingsError),
}

impl Failure {
    /// Whether the failure is one that setting up guilds can meet.
    pub open spec fn concerns_mappings(self) -> bool {
        !(self is ClientValidation) && !(self is ClientMessageValidation) && !(self is ReqwestError)
    }

    /// Whether the failure is one that setting up guilds can meet.
    pub fn may_concern_mappings(&self) -> (res: bool)
        ensures
            res == self.concerns_mappings(),
    {
        match self {
            Failure::ClientValidation(_) => false,
            Failure::ClientMessageValidation(_) => false,
            Failure::ReqwestError(_) => false,
            _ => true,
        }
    }

    /// Whether the service answered with the given status.
    pub open spec fn has_status(self, status: u16) -> bool {
        self matches Failure::ClientSend(e) && e.status == Some(status)
    }

    /// Whether the service answered that there is no such thing.
    pub fn is_not_found(&self) -> (res: bool)
        ensures
            res == self.has_status(404),
    {
        match self {
            Failure::ClientSend(e) => match e.status {
                Some(status) => status == 404,
                None => false,
            },
            _ => false,
        }
    }
}

impl DatabaseError {
    /// The failure in words.
    pub open spec fn told(self) -> Seq<char> {
        match self {
            DatabaseError::Query(d) => "Query did not execute properly. "@ + d@,
            DatabaseError::Serialize(d) => "Failed serializing data. "@ + d@,
        }
    }

    /// The failure in words.
    pub fn to_string(&self) -> (text: String)
        ensures
            text@ == self.told(),
    {
        match self {
            DatabaseError::Query(d) => "Query did not execute properly. ".to_string().concat(
                d.as_str(),
            ),
            DatabaseError::Serialize(d) => "Failed serializing data. ".to_string().concat(
                d.as_str(),
            ),
        }
    }
}

impl MappingsError {
    /// The error that a failure amounts to while guilds are being set up.
    pub open spec fn of(failure: Failure) -> MappingsError
        recommends
            failure.concerns_mappings(),
    {
        match failure {
            Failure::ClientSend(e) => MappingsError::ClientSend(e),
            Failure::ClientSerde(d) => MappingsError::ClientSerde(d),
            Failure::Pool(d) => MappingsError::Pool(d),
            Failure::Interact(d) => MappingsError::Interact(d),
            Failure::Database(e) => MappingsError::Database(e),
            Failure::ClientChannelValidation(d) => MappingsError::ChannelCreateValidation(d),
            _ => arbitrary(),
        }
    }

    /// The error that a failure amounts to while guilds are being set up.
    pub fn from_failure(failure: Failure) -> (error: MappingsError)
        requires
            failure.concerns_mappings(),
        ensures
            error == MappingsError::of(failure),
    {
        match failure {
            Failure::ClientSend(e) => MappingsError::ClientSend(e),
            Failure::ClientSerde(d) => MappingsError::ClientSerde(d),
            Failure::Pool(d) => MappingsError::Pool(d),
            Failure::Interact(d) => MappingsError::Interact(d),
            Failure::Database(e) => MappingsError::Database(e),
            Failure::ClientChannelValidation(d) => MappingsError::ChannelCreateValidation(d),
            _ => vstd::pervasive::unreached(),
        }
    }

    /// The failure in words.
    pub open spec fn told(self) -> Seq<char> {
        match self {
            MappingsError::ClientSend(e) => "Client request failed. "@ + e.detail@,
            MappingsError::ClientSerde(d) => "Deserializing server response failed. "@ + d@,
            MappingsError::Pool(d) => "Couldn't fetch database pool. "@ + d@,
            MappingsError::Interact(d) => "Pool interaction failed. "@ + d@,
            MappingsError::Database(e) => "Database action failed. "@ + e.told(),
            MappingsError::ChannelCreateValidation(d) =>
                "Could not validate channel when creating. "@ + d@,
        }
    }

    /// The failure in words.
    pub fn to_string(&self) -> (text: String)
        ensures
            text@ == self.told(),
    {
        match self {
            MappingsError::ClientSend(e) => "Client request failed. ".to_string().concat(
                e.detail.as_str(),
            ),
            MappingsError::ClientSerde(
                d,
            ) => "Deserializing server response failed. ".to_string().concat(d.as_str()),
            MappingsError::Pool(d) => "Couldn't fetch database pool. ".to_string().concat(
                d.as_str(),
            ),
            MappingsError::Interact(d) => "Pool interaction failed. ".to_string().concat(
                d.as_str(),
            ),
            MappingsError::Database(e) => "Database action failed. ".to_string().concat(
                e.to_string().as_str(),
            ),
            MappingsError::ChannelCreateValidation(
                d,
            ) => "Could not validate channel when creating. ".to_string().concat(d.as_str()),
        }
    }
}

impl HandlerError {
    /// The error that a failure amounts to while an event is being handled.
    pub open spec fn of(failure: Failure) -> HandlerError {
        match failure {
            Failure::ClientSend(e) => HandlerError::ClientSend(e),
            Failure::ClientSerde(d) => HandlerError::ClientSerde(d),
            Failure::ClientValidation(d) => HandlerError::ClientValidation(d),
            Failure::ClientChannelValidation(d) => HandlerError::ClientChannelValidation(d),
            Failure::ClientMessageValidation(d) => HandlerError::ClientMessageValidation(d),
            Failure::ReqwestError(d) => HandlerError::ReqwestError(d),
            Failure::Pool(d) => HandlerError::Pool(d),
            Failure::Interact(d) => HandlerError::Interact(d),
            Failure::Database(e) => HandlerError::Database(e),
        }
    }

    /// The error that a failure amounts to while an event is being handled.
    pub fn from_failure(failure: Failure) -> (error: HandlerError)
        ensures
            error == HandlerError::of(failure),
    {
        match failure {
            Failure::ClientSend(e) => HandlerError::ClientSend(e),
            Failure::ClientSerde(d) => HandlerError::ClientSerde(d),
            Failure::ClientValidation(d) => HandlerError::ClientValidation(d),
            Failure::ClientChannelValidation(d) => HandlerError::ClientChannelValidation(d),
            Failure::ClientMessageValidation(d) => HandlerError::ClientMessageValidation(d),
            Failure::ReqwestError(d) => HandlerError::ReqwestError(d),
            Failure::Pool(d) => HandlerError::Pool(d),
            Failure::Interact(d) => HandlerError::Interact(d),
            Failure::Database(e) => HandlerError::Database(e),
        }
    }

    /// The failure in words.
    pub open spec fn told(self) -> Seq<char> {
        match self {
            HandlerError::ClientSend(e) => "Client request failed. "@ + e.detail@,
            HandlerError::ClientSerde(d) => "Client deserializing server response failed. "@ + d@,
            HandlerError::ClientValidation(d) => "Client request validation failed. "@ + d@,
            HandlerError::ClientChannelValidation(d) =>
                "Could not validate channel when creating. "@ + d@,
            HandlerError::ClientMessageValidation(d) =>
                "Could not validate message when creating. "@ + d@,
            HandlerError::ReqwestError(d) => "Reqwest error. "@ + d@,
            HandlerError::Pool(d) => "Couldn't fetch database pool. "@ + d@,
            HandlerError::Interact(d) => "Pool interaction failed. "@ + d@,
            HandlerError::Database(e) => "Database action failed. "@ + e.told(),
            HandlerError::Mapping(e) => "An error occurred while mapping channels. "@ + e.told(),
        }
    }

    /// The failure in words.
    pub fn to_string(&self) -> (text: String)
        ensures
            text@ == self.told(),
    {
        match self {
            HandlerError::ClientSend(e) => "Client request failed. ".to_string().concat(
                e.detail.as_str(),
            ),
            HandlerError::ClientSerde(
                d,
            ) => "Client deserializing server response failed. ".to_string().concat(d.as_str()),
            HandlerError::ClientValidation(
                d,
            ) => "Client request validation failed. ".to_string().concat(d.as_str()),
            HandlerError::ClientChannelValidation(
                d,
            ) => "Could not validate channel when creating. ".to_string().concat(d.as_str()),
            HandlerError::ClientMessageValidation(
                d,
            ) => "Could not validate message when creating. ".to_string().concat(d.as_str()),
            HandlerError::ReqwestError(d) => "Reqwest error. ".to_string().concat(d.as_str()),
            HandlerError::Pool(d) => "Couldn't fetch database pool. ".to_string().concat(
                d.as_str(),
            ),
            HandlerError::Interact(d) => "Pool interaction failed. ".to_string().concat(
                d.as_str(),
            ),
            HandlerError::Database(e) => "Database action failed. ".to_string().concat(
                e.to_string().as_str(),
            ),
            HandlerError::Mapping(
                e,
            ) => "An error occurred while mapping channels. ".to_string().concat(
                e.to_string().as_str(),
            ),
        }
    }
}

} // verus!
