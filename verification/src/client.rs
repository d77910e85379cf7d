//! The client's view of the protocol: judging the messages read from the
//! server during the handshake and while collecting a query's result rows.
//! The socket itself lives outside the library.

use vstd::prelude::*;

use crate::data::{Column, MData};
use crate::protocol_error::MicrobatProtocolError;
use crate::server_messages::MicrobatServerMessage;

verus! {

/// A client-side failure, as one human-readable message.
#[derive(Debug)]
pub struct MicroBatClientError {
    pub msg: String,
}

impl MicroBatClientError {
    /// Carries a protocol failure into the client's error space.
    pub fn from_protocol(error: MicrobatProtocolError) -> (r: Self)
        ensures
            r.msg@ == error.msg@,
    {
        MicroBatClientError { msg: error.msg }
    }
}

/// Options of a client instance: the host and port to connect to.
pub struct MicrobatClientOpts {
    pub host: String,
    pub port: u32,
}

/// Judges the message read while waiting for the server's handshake: only a
/// handshake is accepted; a server error carries its own message.
pub fn read_handshake(message: MicrobatServerMessage) -> (r: Result<(), MicroBatClientError>)
    ensures
        r is Ok <==> message is Handshake,
        (match message {
            MicrobatServerMessage::Error(e) => r matches Err(err) && err.msg@ == e@,
            _ => true,
        }),
{
    match message {
        MicrobatServerMessage::Handshake => Ok(()),
        MicrobatServerMessage::Error(error) => Err(MicroBatClientError { msg: error }),
        _ => Err(
            MicroBatClientError {
                msg: "Expecting 'Handshake' from server but got another message".to_owned(),
            },
        ),
    }
}

/// Judges the message read while waiting for a ready barrier: only `Ready`
/// is accepted; a server error carries its own message.
pub fn read_ready(message: MicrobatServerMessage) -> (r: Result<(), MicroBatClientError>)
    ensures
        r is Ok <==> message is Ready,
        (match message {
            MicrobatServerMessage::Error(e) => r matches Err(err) && err.msg@ == e@,
            _ => true,
        }),
{
    match message {
        MicrobatServerMessage::Ready => Ok(()),
        MicrobatServerMessage::Error(error) => Err(MicroBatClientError { msg: error }),
        _ => Err(
            MicroBatClientError {
                msg: "Expecting 'Ready' from server but got another message".to_owned(),
            },
        ),
    }
}

/// One step of collecting result rows: another row, the ready barrier that
/// ends the result, or a failure.
pub enum DataRowsStep {
    Row(Vec<MData>),
    Finished,
    Failed(MicroBatClientError),
}

/// Judges one message read while collecting the rows of a result: a data row
/// carries its values, `Ready` finishes the result, anything else fails.
pub fn read_data_rows_step(message: MicrobatServerMessage) -> (r: DataRowsStep)
    ensures
        (match message {
            MicrobatServerMessage::DataRow(row) => r matches DataRowsStep::Row(values) && values
                == row.columns,
            MicrobatServerMessage::Ready => r is Finished,
            MicrobatServerMessage::Error(e) => r matches DataRowsStep::Failed(err) && err.msg@
                == e@,
            _ => r is Failed,
        }),
{
    match message {
        MicrobatServerMessage::DataRow(row) => DataRowsStep::Row(row.columns),
        MicrobatServerMessage::Ready => DataRowsStep::Finished,
        MicrobatServerMessage::Error(error) => DataRowsStep::Failed(
            MicroBatClientError { msg: error },
        ),
        _ => DataRowsStep::Failed(
            MicroBatClientError {
                msg: "Expecting 'DataRow' from server but got another message".to_owned(),
            },
        ),
    }
}

/// How a query's first response frame is classified: the start of a rowset,
/// an insert count, or a failure.
pub enum QueryResponse {
    Rowset(Vec<Column>),
    Mutation(u32),
    Failed(MicroBatClientError),
}

/// Judges the first message of a query's response: a data description opens
/// a rowset, an insert result reports a mutation, a server error carries its
/// own message, and anything else fails.
pub fn classify_query_response(message: MicrobatServerMessage) -> (r: QueryResponse)
    ensures
        (match message {
            MicrobatServerMessage::DataDescription(d) => r matches QueryResponse::Rowset(columns)
                && columns == d.columns,
            MicrobatServerMessage::InsertResult(n) => r matches QueryResponse::Mutation(count)
                && count == n,
            MicrobatServerMessage::Error(e) => r matches QueryResponse::Failed(err) && err.msg@
                == e@,
            _ => r is Failed,
        }),
{
    match message {
        MicrobatServerMessage::DataDescription(description) => QueryResponse::Rowset(
            description.columns,
        ),
        MicrobatServerMessage::InsertResult(rows) => QueryResponse::Mutation(rows),
        MicrobatServerMessage::Error(error) => QueryResponse::Failed(
            MicroBatClientError { msg: error },
        ),
        _ => QueryResponse::Failed(
            MicroBatClientError {
                msg: "Expecting 'DataDescription' from server but got another message".to_owned(),
            },
        ),
    }
}

/// What the prompt loop observed: a line of input, an interrupt, the end of
/// input, or a terminal failure.
pub enum ReplEvent {
    Line(String),
    Interrupted,
    EndOfInput,
    Failed(String),
}

/// What the prompt loop does next: run a line as a query, disconnect and
/// exit, try the handshake again, or exit.
pub enum ReplAction {
    RunQuery(String),
    DisconnectAndExit,
    RetryHandshake,
    Quit,
}

/// The prompt's rules: a line is sent as one query; an interrupt disconnects
/// and exits; the end of input retries the handshake; a terminal failure
/// exits.
pub fn repl_step(event: ReplEvent) -> (r: ReplAction)
    ensures
        (match event {
            ReplEvent::Line(line) => r matches ReplAction::RunQuery(q) && q@ == line@,
            ReplEvent::Interrupted => r is DisconnectAndExit,
            ReplEvent::EndOfInput => r is RetryHandshake,
            ReplEvent::Failed(_) => r is Quit,
        }),
{
    match event {
        ReplEvent::Line(line) => ReplAction::RunQuery(line),
        ReplEvent::Interrupted => ReplAction::DisconnectAndExit,
        ReplEvent::EndOfInput => ReplAction::RetryHandshake,
        ReplEvent::Failed(_) => ReplAction::Quit,
    }
}

} // verus!
