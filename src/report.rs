//! The violations that validation reports.

use vstd::prelude::*;

verus! {

/// What is wrong, and at which level of the schema.
#[derive(Clone, Copy, Debug, PartialEq, Eq, Structural)]
pub enum ErrorKind {
    /// The root does not exist or is not a directory.
    RootInvalid,
    /// A talk-type folder names neither single nor double talk.
    TalkTypeName,
    /// A single-talk folder carries no dynamic/static marker.
    SingleMissingMarker,
    /// A single-talk folder holds no audio file.
    SingleMissingAudio,
    /// A channel folder starts with neither the APK nor the full-track marker.
    ChannelName,
    /// A channel folder carries no dynamic/static marker.
    ChannelMissingMarker,
    /// A seat folder has a name outside the four seat names.
    SeatName,
    /// A full-track seat folder holds no audio file.
    TrackMissingAudio,
    /// An APK seat folder has no manifest file.
    ApkMissingManifest,
    /// An APK seat folder has no test-results subdirectory.
    ApkMissingSubdir,
    /// The test-results subdirectory of an APK seat folder holds no audio file.
    ApkSubdirMissingAudio,
}

/// The broad class of a violation.
#[derive(Clone, Copy, Debug, PartialEq, Eq, Structural)]
pub enum ErrorClass {
    RootInvalid,
    NamingViolation,
    MissingMarker,
    ContentMissingAudio,
    ContentMissingManifest,
    ContentMissingSubdir,
    ContentMissingAudioInSubdir,
}

pub open spec fn class_of(kind: ErrorKind) -> ErrorClass {
    match kind {
        ErrorKind::RootInvalid => ErrorClass::RootInvalid,
        ErrorKind::TalkTypeName | ErrorKind::ChannelName | ErrorKind::SeatName => ErrorClass::NamingViolation,
        ErrorKind::SingleMissingMarker | ErrorKind::ChannelMissingMarker => ErrorClass::MissingMarker,
        ErrorKind::SingleMissingAudio | ErrorKind::TrackMissingAudio => ErrorClass::ContentMissingAudio,
        ErrorKind::ApkMissingManifest => ErrorClass::ContentMissingManifest,
        ErrorKind::ApkMissingSubdir => ErrorClass::ContentMissingSubdir,
        ErrorKind::ApkSubdirMissingAudio => ErrorClass::ContentMissingAudioInSubdir,
    }
}

impl ErrorKind {
    /// The class this kind belongs to.
    pub fn class(&self) -> (r: ErrorClass)
        ensures
            r == class_of(*self),
    {
        match self {
            ErrorKind::RootInvalid => ErrorClass::RootInvalid,
            ErrorKind::TalkTypeName | ErrorKind::ChannelName | ErrorKind::SeatName => ErrorClass::NamingViolation,
            ErrorKind::SingleMissingMarker | ErrorKind::ChannelMissingMarker => ErrorClass::MissingMarker,
            ErrorKind::SingleMissingAudio | ErrorKind::TrackMissingAudio => ErrorClass::ContentMissingAudio,
            ErrorKind::ApkMissingManifest => ErrorClass::ContentMissingManifest,
            ErrorKind::ApkMissingSubdir => ErrorClass::ContentMissingSubdir,
            ErrorKind::ApkSubdirMissingAudio => ErrorClass::ContentMissingAudioInSubdir,
        }
    }
}

/// One violation: its kind and the directory it concerns, as the names from
/// the root path down to that directory.
pub struct ValidationError {
    pub kind: ErrorKind,
    pub path: Vec<String>,
}

/// The mathematical value of a [`ValidationError`].
pub struct Violation {
    pub kind: ErrorKind,
    pub path: Seq<String>,
}

impl View for ValidationError {
    type V = Violation;

    open spec fn view(&self) -> Violation {
        Violation { kind: self.kind, path: self.path@ }
    }
}

pub open spec fn violation(kind: ErrorKind, path: Seq<String>) -> Violation {
    Violation { kind, path }
}

/// The values of a list of reported errors.
pub open spec fn violations(errs: Seq<ValidationError>) -> Seq<Violation> {
    errs.map_values(|e: ValidationError| e@)
}

/// Appends one error to `errs`.
pub fn report(errs: &mut Vec<ValidationError>, kind: ErrorKind, path: Vec<String>)
    ensures
        violations(final(errs)@) == violations(old(errs)@).push(violation(kind, path@)),
{
    let e = ValidationError { kind, path };
    errs.push(e);
    assert(violations(final(errs)@) =~= violations(old(errs)@).push(violation(kind, e.path@)));
}

/// `p` with `name` appended.
pub fn child_path(p: &Vec<String>, name: &String) -> (q: Vec<String>)
    ensures
        q@ == p@.push(*name),
{
    let mut q: Vec<String> = Vec::new();
    let mut i: usize = 0;
    while i < p.len()
        invariant
            i <= p@.len(),
            q@ == p@.subrange(0, i as int),
        decreases p@.len() - i,
    {
        q.push(p[i].clone());
        i = i + 1;
        assert(q@ =~= p@.subrange(0, i as int));
    }
    q.push(name.clone());
    assert(q@ =~= p@.push(*name));
    q
}

} // verus!
