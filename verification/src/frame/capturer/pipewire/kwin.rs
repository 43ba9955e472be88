//! Which output of a compositor is meant, and the stream of it.

use crate::text::search::{contains, holds};
use vstd::prelude::*;

verus! {

/// The highest version of the protocols that is spoken.
pub const PROTOCOL_VERSION: u32 = 4;

/// The output that was found.
#[derive(Debug)]
pub struct Found {
    /// The number of the output at the compositor.
    pub output: Option<u32>,
    /// The connector of the output.
    pub output_name: Option<String>,
}

/// What the name or the description of an output means.
#[derive(Clone, Copy, Debug, PartialEq, Eq, Structural)]
pub enum Matched {
    /// It is another output.
    Other,
    /// It is the wanted output.
    Wanted,
    /// It is another output that is meant as well as the one that was found first, which stays.
    Ambiguous,
}

/// A name that may be known.
pub open spec fn name_view(name: Option<String>) -> Option<Seq<char>> {
    match name {
        Some(name) => Some(name@),
        None => None,
    }
}

/// What is found after an output turns out to match, or not.
pub open spec fn found_after(
    output: Option<u32>,
    name: Option<Seq<char>>,
    id: u32,
    id_name: Option<Seq<char>>,
    matches: bool,
) -> (Option<u32>, Option<Seq<char>>, Matched) {
    if !matches {
        (output, name, Matched::Other)
    } else {
        match output {
            None => (Some(id), id_name, Matched::Wanted),
            Some(selected) => if selected == id {
                (output, name, Matched::Wanted)
            } else {
                (output, name, Matched::Ambiguous)
            },
        }
    }
}

impl Found {
    pub fn new() -> (r: Found)
        ensures
            r.output is None,
            r.output_name is None,
    {
        Found { output: None, output_name: None }
    }

    /// Takes note of the name of an output. Outputs whose name holds the wanted text are meant.
    pub fn named(&mut self, id: u32, name: &str, wanted: &str) -> (r: Matched)
        ensures
            ({
                let before = if old(self).output == Some(id) {
                    Some(name@)
                } else {
                    name_view(old(self).output_name)
                };
                (final(self).output, name_view(final(self).output_name), r) == found_after(
                    old(self).output,
                    before,
                    id,
                    Some(name@),
                    holds(name@, wanted@),
                )
            }),
    {
        let selected = match self.output {
            Some(output) => output == id,
            None => false,
        };
        if selected {
            self.output_name = Some(name.to_string());
        }
        if !contains(name, wanted) {
            return Matched::Other;
        }
        match self.output {
            None => {
                self.output = Some(id);
                self.output_name = Some(name.to_string());
                Matched::Wanted
            },
            Some(output) => if output == id {
                Matched::Wanted
            } else {
                Matched::Ambiguous
            },
        }
    }

    /// Takes note of the description of an output, whose name may be known. Outputs whose description
    /// holds the wanted text are meant.
    pub fn described(&mut self, id: u32, name: Option<String>, description: &str, wanted: &str) -> (r:
        Matched)
        ensures
            (final(self).output, name_view(final(self).output_name), r) == found_after(
                old(self).output,
                name_view(old(self).output_name),
                id,
                name_view(name),
                holds(description@, wanted@),
            ),
    {
        if !contains(description, wanted) {
            return Matched::Other;
        }
        match self.output {
            None => {
                self.output = Some(id);
                self.output_name = name;
                Matched::Wanted
            },
            Some(output) => if output == id {
                Matched::Wanted
            } else {
                Matched::Ambiguous
            },
        }
    }
}

/// The output that was found first stays, whatever else is meant as well.
pub proof fn first_match_stays(
    output: u32,
    name: Option<Seq<char>>,
    id: u32,
    id_name: Option<Seq<char>>,
    matches: bool,
)
    ensures
        found_after(Some(output), name, id, id_name, matches).0 == Some(output),
        found_after(Some(output), name, id, id_name, matches).1 == name,
        found_after(Some(output), name, id, id_name, matches).2 is Ambiguous <==> matches && id
            != output,
{
}

/// What to do once the outputs are known.
#[derive(Clone, Copy, Debug, PartialEq, Eq, Structural)]
pub enum Plan {
    /// No output is meant.
    NoOutput,
    /// Only the connector was asked for, or there is no way to a stream.
    ConnectorOnly,
    /// Ask for a stream.
    CreateStream,
}

/// What to do once the outputs are known.
pub fn plan(found: bool, create_stream: bool, has_manager: bool) -> (r: Plan)
    ensures
        r is NoOutput <==> !found,
        r is CreateStream <==> found && create_stream && has_manager,
{
    if !found {
        Plan::NoOutput
    } else if create_stream && has_manager {
        Plan::CreateStream
    } else {
        Plan::ConnectorOnly
    }
}

/// What is known of a stream that was asked for.
#[derive(Debug)]
pub struct Stream {
    pub node: Option<u32>,
    pub failure: Option<String>,
}

/// What becomes of a stream that was asked for.
#[derive(Debug)]
pub enum StreamEvent {
    Created { node: u32 },
    Failed { error: String },
    Closed,
    Other,
}

impl Stream {
    pub fn new() -> (r: Stream)
        ensures
            r.node is None,
            r.failure is None,
    {
        Stream { node: None, failure: None }
    }

    /// Takes note of what becomes of the stream.
    pub fn update(&mut self, event: StreamEvent)
        ensures
            final(self).node == match event {
                StreamEvent::Created { node } => Some(node),
                _ => old(self).node,
            },
            name_view(final(self).failure) == match event {
                StreamEvent::Failed { error } => Some(error@),
                StreamEvent::Closed => Some("KDE closed the screen stream"@),
                _ => name_view(old(self).failure),
            },
    {
        match event {
            StreamEvent::Created { node } => {
                self.node = Some(node);
            },
            StreamEvent::Failed { error } => {
                self.failure = Some(error);
            },
            StreamEvent::Closed => {
                self.failure = Some("KDE closed the screen stream".to_string());
            },
            StreamEvent::Other => {},
        }
    }

    /// The node of the stream or why there is none, once that is known. A failure counts more than a
    /// node.
    pub fn outcome(&self) -> (r: Option<Result<u32, String>>)
        ensures
            r is None <==> self.node is None && self.failure is None,
            r matches Some(Ok(node)) ==> self.failure is None && self.node == Some(node),
            r matches Some(Err(error)) ==> name_view(self.failure) == Some(error@),
    {
        if let Some(error) = &self.failure {
            return Some(Err(error.clone()));
        }
        match self.node {
            Some(node) => Some(Ok(node)),
            None => None,
        }
    }
}

/// An output is found exactly when one was found before or this one matches, and what is found is one
/// of the two, with its own name.
pub proof fn found_output_matches(
    output: Option<u32>,
    name: Option<Seq<char>>,
    id: u32,
    id_name: Option<Seq<char>>,
    matches: bool,
)
    ensures
        ({
            let (after, after_name, matched) = found_after(output, name, id, id_name, matches);
            &&& after is Some <==> output is Some || matches
            &&& after == output ==> after_name == name
            &&& after != output ==> after == Some(id) && after_name == id_name
            &&& matched is Other <==> !matches
            &&& matched is Wanted <==> matches && after == Some(id)
        }),
{
}

/// A name that is known is told as it is.
pub proof fn known_name_is_told(name: String)
    ensures
        name_view(Some(name)) == Some(name@),
        name_view(None) is None,
{
}

} // verus!
