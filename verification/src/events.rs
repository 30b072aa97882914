//! Decoding of the build tool's event stream.
//!
//! The build tool emits one framed record per line.  [`next_event`] turns one
//! record into a [`BuildEvent`]; a record that does not decode poisons the
//! framing of everything after it, so decoding it is reported as a fault that
//! the caller must treat as fatal for the whole build.  [`read_events`]
//! decodes a whole recorded stream in exactly the order received and stops at
//! the first fault.

use vstd::prelude::*;

verus! {

/// An artifact notice: the build tool produced output files for one target.
#[derive(Debug, PartialEq, Eq)]
pub struct ArtifactInfo {
    /// Opaque identifier of the package the target belongs to.
    pub package_id: Vec<u8>,
    /// The kinds of the target (executable, shared library, ...).
    pub target_kinds: Vec<Vec<u8>>,
    /// The target's name.
    pub target_name: Vec<u8>,
    /// The produced files, in the order the tool lists them.
    pub output_paths: Vec<Vec<u8>>,
}

/// A diagnostic notice, forwarded to the operator as received.
#[derive(Debug, PartialEq, Eq)]
pub struct DiagnosticInfo {
    /// The pre-rendered text, when the tool supplies one.
    pub rendered: Option<Vec<u8>>,
}

/// One record of the build-event stream.
#[derive(Debug, PartialEq, Eq)]
pub enum BuildEvent {
    /// Output files were produced.
    Artifact(ArtifactInfo),
    /// The tool wants text shown to the operator.
    Diagnostic(DiagnosticInfo),
    /// Any other record; packaging ignores it.
    Other,
}

/// The element views of a sequence of byte strings.
pub open spec fn views_of(v: Seq<Vec<u8>>) -> Seq<Seq<u8>> {
    v.map_values(|k: Vec<u8>| k@)
}

/// The mathematical shadow of [`ArtifactInfo`].
pub struct ArtifactV {
    /// See [`ArtifactInfo::package_id`].
    pub package_id: Seq<u8>,
    /// See [`ArtifactInfo::target_kinds`].
    pub target_kinds: Seq<Seq<u8>>,
    /// See [`ArtifactInfo::target_name`].
    pub target_name: Seq<u8>,
    /// See [`ArtifactInfo::output_paths`].
    pub output_paths: Seq<Seq<u8>>,
}

/// The mathematical shadow of [`BuildEvent`].
pub enum EventV {
    /// See [`BuildEvent::Artifact`].
    Artifact(ArtifactV),
    /// See [`BuildEvent::Diagnostic`].
    Diagnostic(Option<Seq<u8>>),
    /// See [`BuildEvent::Other`].
    Other,
}

impl View for BuildEvent {
    type V = EventV;

    open spec fn view(&self) -> EventV {
        match self {
            BuildEvent::Artifact(a) => EventV::Artifact(
                ArtifactV {
                    package_id: a.package_id@,
                    target_kinds: views_of(a.target_kinds@),
                    target_name: a.target_name@,
                    output_paths: views_of(a.output_paths@),
                },
            ),
            BuildEvent::Diagnostic(d) => EventV::Diagnostic(
                match &d.rendered {
                    Some(t) => Some(t@),
                    None => None,
                },
            ),
            BuildEvent::Other => EventV::Other,
        }
    }
}

/// The event encoded by one framed record, or `None` when the record is
/// malformed.  The record format is the build tool's; only the decoder
/// relied on below defines this function's value.
pub uninterp spec fn decoded_event(line: Seq<u8>) -> Option<EventV>;

/// Relies on `serde_json::from_slice::<cargo_metadata::Message>`: decoding a
/// framed build-tool record is a function of the record's bytes alone; the
/// artifact and diagnostic fields are moved over one for one, every other
/// record that decodes reads as `Other`, and a slice that does not decode —
/// malformed, or a record shape the decoder does not know — is `None`.
#[verifier::external_body]
fn decode_line(line: &Vec<u8>) -> (r: Option<BuildEvent>)
    ensures
        match r {
            Some(ev) => decoded_event(line@) == Some(ev@),
            None => decoded_event(line@) is None,
        },
{
    match serde_json::from_slice::<cargo_metadata::Message>(line) {
        Ok(cargo_metadata::Message::CompilerArtifact(a)) => Some(BuildEvent::Artifact(ArtifactInfo {
            package_id: a.package_id.repr.into_bytes(),
            target_kinds: a.target.kind.iter().map(|k| k.to_string().into_bytes()).collect(),
            target_name: a.target.name.into_bytes(),
            output_paths: a.filenames.into_iter().map(|f| f.into_string().into_bytes()).collect(),
        })),
        Ok(cargo_metadata::Message::CompilerMessage(m)) => Some(BuildEvent::Diagnostic(
            DiagnosticInfo { rendered: m.message.rendered.map(|s| s.into_bytes()) },
        )),
        Ok(_) => Some(BuildEvent::Other),
        Err(_) => None,
    }
}

/// A record that could not be decoded; everything after it is untrusted.
#[derive(Debug, Clone, Copy, PartialEq, Eq, Structural)]
pub enum StreamError {
    /// The framed record does not decode to any event.
    MalformedRecord,
}

/// Decodes one framed record.  Succeeds exactly on the records that decode;
/// a malformed record is build-fatal for the caller.
pub fn next_event(line: &Vec<u8>) -> (r: Result<BuildEvent, StreamError>)
    ensures
        r matches Ok(ev) ==> decoded_event(line@) == Some(ev@),
        r is Err <==> decoded_event(line@) is None,
{
    match decode_line(line) {
        Some(ev) => Ok(ev),
        None => Err(StreamError::MalformedRecord),
    }
}

/// The position of the first malformed record of a stream.
#[derive(Debug, PartialEq, Eq)]
pub struct StreamFault {
    /// Index of the offending record.
    pub position: usize,
}

/// Decodes a recorded stream, delivering the events in exactly the order the
/// records came in, and stopping at the first malformed record.
pub fn read_events(lines: &Vec<Vec<u8>>) -> (r: Result<Vec<BuildEvent>, StreamFault>)
    ensures
        r matches Ok(evs) ==> {
            &&& evs.len() == lines.len()
            &&& forall|i: int|
                0 <= i < evs.len() ==> decoded_event(lines@[i]@) == Some(#[trigger] evs@[i]@)
        },
        r is Ok <==> (forall|i: int|
            0 <= i < lines.len() ==> !(decoded_event(#[trigger] lines@[i]@) is None)),
        r matches Err(f) ==> {
            &&& f.position < lines.len()
            &&& decoded_event(lines@[f.position as int]@) is None
            &&& forall|i: int|
                0 <= i < f.position ==> !(decoded_event(#[trigger] lines@[i]@) is None)
        },
{
    let mut evs: Vec<BuildEvent> = Vec::new();
    let mut i: usize = 0;
    while i < lines.len()
        invariant
            i <= lines.len(),
            evs.len() == i,
            forall|j: int|
                0 <= j < i ==> decoded_event(lines@[j]@) == Some(#[trigger] evs@[j]@),
            forall|j: int| 0 <= j < i ==> !(decoded_event(#[trigger] lines@[j]@) is None),
        decreases lines.len() - i,
    {
        match next_event(&lines[i]) {
            Ok(ev) => {
                evs.push(ev);
            },
            Err(_) => {
                return Err(StreamFault { position: i });
            },
        }
        i = i + 1;
    }
    Ok(evs)
}

} // verus!
