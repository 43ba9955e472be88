//! Ambient light from a socket that someone else writes lines to.

use super::Scale;
use crate::text::chars::chars;
use crate::text::space::{is_white, lemma_trimmed_push, trim, trimmed};
use vstd::prelude::*;

verus! {

/// How often the source is asked, in nanoseconds.
pub const POLL_INTERVAL: u128 = 100_000_000;

/// How long a line may take, in milliseconds.
pub const READ_TIMEOUT_MS: u64 = 3000;

/// How many bytes of a line are read.
pub const MAX_LINE_LENGTH: u64 = 64;

/// A source of ambient light.
#[derive(Clone, Copy, Debug, PartialEq, Eq, Structural)]
pub struct Als {
    pub scale: Scale,
    pub connected: bool,
}

/// Why there is no reading.
#[derive(Clone, Copy, Debug, PartialEq, Eq, Structural)]
pub enum ExternalError {
    Closed,
    NotTerminated,
    /// The line could not be read, or not in time.
    Failed,
}

impl ExternalError {
    /// What the error says.
    pub open spec fn spec_message(self) -> Seq<char> {
        match self {
            ExternalError::Closed => "External ALS connection closed"@,
            ExternalError::NotTerminated => "External ALS value is not newline-terminated"@,
            ExternalError::Failed => "Unable to read external ALS value"@,
        }
    }

    pub fn message(&self) -> (r: &'static str)
        ensures
            r@ == self.spec_message(),
            self is Closed ==> r@ == "External ALS connection closed"@,
            self is NotTerminated ==> r@ == "External ALS value is not newline-terminated"@,
            self is Failed ==> r@ == "Unable to read external ALS value"@,
    {
        match self {
            ExternalError::Closed => "External ALS connection closed",
            ExternalError::NotTerminated => "External ALS value is not newline-terminated",
            ExternalError::Failed => "Unable to read external ALS value",
        }
    }
}

/// What a line from the source is: the text of a number, or an error. Without a line,
/// reading failed; an empty one means that the source is gone.
pub open spec fn received_text(line: Option<Seq<char>>) -> Result<Seq<char>, ExternalError> {
    match line {
        None => Err(ExternalError::Failed),
        Some(line) => if line.len() == 0 {
            Err(ExternalError::Closed)
        } else if line.last() != '\n' {
            Err(ExternalError::NotTerminated)
        } else {
            Ok(trimmed(line))
        },
    }
}

impl Als {
    pub fn new(scale: Scale) -> (r: Als)
        ensures
            r == (Als { scale, connected: false }),
    {
        Als { scale, connected: false }
    }

    /// Whether to connect before a line is read.
    pub fn needs_connection(&self) -> (r: bool)
        ensures
            r == !self.connected,
    {
        !self.connected
    }

    /// Takes note of a connection.
    pub fn connect(&mut self)
        ensures
            *final(self) == (Als { connected: true, ..*old(self) }),
    {
        self.connected = true;
    }

    /// The text of the number that a line holds. With any other line the connection is
    /// given up, to be made again next time.
    pub fn receive(&mut self, line: Option<&str>) -> (r: Result<String, ExternalError>)
        ensures
            ({
                let given = match line {
                    Some(line) => Some(line@),
                    None => None,
                };
                &&& r is Ok <==> received_text(given) is Ok
                &&& r matches Ok(text) ==> received_text(given) == Ok::<Seq<char>, ExternalError>(
                    text@,
                )
                &&& r matches Err(error) ==> received_text(given) == Err::<
                    Seq<char>,
                    ExternalError,
                >(error)
                &&& *final(self) == if r is Ok {
                    *old(self)
                } else {
                    Als { connected: false, ..*old(self) }
                }
            }),
            r is Ok <==> line is Some && line->0@.len() > 0 && line->0@.last() == '\n',
            r matches Ok(text) ==> text@ == trimmed(line->0@),
            r matches Err(error) ==> (error is Failed <==> line is None) && (error is Closed <==> line
                is Some && line->0@.len() == 0),
            final(self).connected == (r is Ok && old(self).connected),
            final(self).scale == old(self).scale,
    {
        match line {
            None => {
                self.connected = false;
                Err(ExternalError::Failed)
            },
            Some(line) => {
                let v = chars(line);
                if v.len() == 0 {
                    self.connected = false;
                    Err(ExternalError::Closed)
                } else if v[v.len() - 1] != '\n' {
                    self.connected = false;
                    Err(ExternalError::NotTerminated)
                } else {
                    Ok(trim(line))
                }
            },
        }
    }

    /// How often the source is asked, in nanoseconds.
    pub fn poll_interval(&self) -> (r: u128)
        ensures
            r == POLL_INTERVAL,
            r == 100_000_000,
    {
        POLL_INTERVAL
    }

    pub fn scale(&self) -> (r: Scale)
        ensures
            r == self.scale,
    {
        self.scale
    }
}

/// A number reaches the daemon: what a source writes on a line of its own is read as it is, unless it
/// begins or ends with white space or there is nothing. A line without an end is never taken for a
/// number.
pub proof fn line_of_source_is_read(text: Seq<char>)
    requires
        text.len() > 0,
        !is_white(text[0]),
        !is_white(text.last()),
    ensures
        received_text(Some(text.push('\n'))) == Ok::<Seq<char>, ExternalError>(text),
        received_text(Some(text)) == Err::<Seq<char>, ExternalError>(ExternalError::NotTerminated),
        received_text(Some(Seq::empty())) == Err::<Seq<char>, ExternalError>(ExternalError::Closed),
        received_text(None) == Err::<Seq<char>, ExternalError>(ExternalError::Failed),
{
    lemma_trimmed_push(text, '\n');
    assert(is_white('\n'));
}

} // verus!
