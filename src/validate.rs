//! The level-by-level rules of the recording tree.
//!
//! Level 1 is the root, level 2 a session folder, level 3 a talk-type folder.
//! A single-talk folder is a leaf; a double-talk folder holds person folders
//! (level 4), which hold channel folders (level 5), which hold seat folders
//! (level 6), whose content (level 7) depends on the channel.

use vstd::prelude::*;
use crate::names::{
    channel_type, channel_type_of, dynamic_static_tag, is_audio_file_name, is_audio_name,
    same_text, seat_position, seat_position_of, tag_of, talk_type, talk_type_of, ChannelType,
    DynamicStaticTag, TalkType,
};
use crate::report::{child_path, report, violation, violations, ErrorKind, ValidationError, Violation};
use crate::tree::{first_dir_named, has_file_named, lemma_first_dir_named, DirNode, RootCheck, RootEntry};

verus! {

/// The name of the manifest file of an APK seat folder.
pub open spec fn manifest_name() -> Seq<char> {
    seq!['l', 'i', 's', 't', '.', 't', 'x', 't']
}

/// The name of the test-results subdirectory of an APK seat folder.
pub open spec fn results_dir_name() -> Seq<char> {
    seq!['s', 'i', 'x', 'T', 'e', 's', 't']
}

/// Some regular file directly inside `node` is an audio file.
pub open spec fn has_audio_file(node: DirNode) -> bool {
    exists|i: int| 0 <= i < node.files@.len() && is_audio_name((#[trigger] node.files@[i])@)
}

/// The errors of each directory of `ds` under `f`, concatenated in order.
pub open spec fn flat_errors(ds: Seq<DirNode>, f: spec_fn(DirNode) -> Seq<Violation>) -> Seq<Violation>
    decreases ds.len(),
{
    if ds.len() == 0 {
        seq![]
    } else {
        flat_errors(ds.drop_last(), f) + f(ds.last())
    }
}

/// Errors of a seat folder (level 6) under a channel of type `channel`,
/// where `p` is the path of the channel folder.
pub open spec fn seat_errors(seat: DirNode, channel: ChannelType, p: Seq<String>) -> Seq<Violation> {
    let q = p.push(seat.name);
    if seat_position_of(seat.name@) is None {
        seq![violation(ErrorKind::SeatName, q)]
    } else if channel == ChannelType::FullTrack {
        if has_audio_file(seat) {
            seq![]
        } else {
            seq![violation(ErrorKind::TrackMissingAudio, q)]
        }
    } else {
        let manifest = if has_file_named(seat, manifest_name()) {
            seq![]
        } else {
            seq![violation(ErrorKind::ApkMissingManifest, q)]
        };
        let results = match first_dir_named(seat.dirs@, results_dir_name()) {
            None => seq![violation(ErrorKind::ApkMissingSubdir, q)],
            Some(j) => if has_audio_file(seat.dirs@[j]) {
                seq![]
            } else {
                seq![violation(ErrorKind::ApkSubdirMissingAudio, q.push(seat.dirs@[j].name))]
            },
        };
        manifest + results
    }
}

/// Errors of a channel folder (level 5) and everything below it.
pub open spec fn channel_errors(c: DirNode, p: Seq<String>) -> Seq<Violation> {
    let q = p.push(c.name);
    match channel_type_of(c.name@) {
        None => seq![violation(ErrorKind::ChannelName, q)],
        Some(ch) => {
            let marker = if tag_of(c.name@) == DynamicStaticTag::Unspecified {
                seq![violation(ErrorKind::ChannelMissingMarker, q)]
            } else {
                seq![]
            };
            marker + flat_errors(c.dirs@, |s: DirNode| seat_errors(s, ch, q))
        },
    }
}

/// Errors of a person folder (level 4) and everything below it.
pub open spec fn person_errors(n: DirNode, p: Seq<String>) -> Seq<Violation> {
    let q = p.push(n.name);
    flat_errors(n.dirs@, |c: DirNode| channel_errors(c, q))
}

/// Errors of a talk-type folder (level 3) and everything below it.
pub open spec fn talk_errors(t: DirNode, p: Seq<String>) -> Seq<Violation> {
    let q = p.push(t.name);
    match talk_type_of(t.name@) {
        None => seq![violation(ErrorKind::TalkTypeName, q)],
        Some(TalkType::Single) => {
            let marker = if tag_of(t.name@) == DynamicStaticTag::Unspecified {
                seq![violation(ErrorKind::SingleMissingMarker, q)]
            } else {
                seq![]
            };
            let audio = if has_audio_file(t) {
                seq![]
            } else {
                seq![violation(ErrorKind::SingleMissingAudio, q)]
            };
            marker + audio
        },
        Some(TalkType::Double) => flat_errors(t.dirs@, |n: DirNode| person_errors(n, q)),
    }
}

/// Errors of a session folder (level 2) and everything below it.
pub open spec fn session_errors(s: DirNode, p: Seq<String>) -> Seq<Violation> {
    let q = p.push(s.name);
    flat_errors(s.dirs@, |t: DirNode| talk_errors(t, q))
}

/// Errors of a root directory: paths start with the root's own name.
pub open spec fn tree_errors(root: DirNode) -> Seq<Violation> {
    flat_errors(root.dirs@, |s: DirNode| session_errors(s, seq![root.name]))
}

/// Everything that validation reports for a root.
pub open spec fn validation_errors(root: RootEntry) -> Seq<Violation> {
    match root {
        RootEntry::Directory(d) => tree_errors(d),
        RootEntry::Invalid(path) => seq![violation(ErrorKind::RootInvalid, seq![path])],
    }
}

proof fn lemma_flat_step(ds: Seq<DirNode>, i: int, f: spec_fn(DirNode) -> Seq<Violation>)
    requires
        0 <= i < ds.len(),
    ensures
        flat_errors(ds.take(i + 1), f) == flat_errors(ds.take(i), f) + f(ds[i]),
{
    assert(ds.take(i + 1).drop_last() =~= ds.take(i));
}

/// Whether some regular file directly inside `node` is an audio file.
pub fn check_pcm_files(node: &DirNode) -> (r: bool)
    ensures
        r == has_audio_file(*node),
{
    let mut i: usize = 0;
    while i < node.files.len()
        invariant
            i <= node.files@.len(),
            forall|t: int| 0 <= t < i ==> !is_audio_name((#[trigger] node.files@[t])@),
        decreases node.files@.len() - i,
    {
        if is_audio_file_name(&node.files[i]) {
            return true;
        }
        i = i + 1;
    }
    false
}

/// Whether a regular file named "list.txt" stands directly inside `node`.
fn has_manifest(node: &DirNode) -> (r: bool)
    ensures
        r == has_file_named(*node, manifest_name()),
{
    proof {
        reveal_strlit("list.txt");
        assert("list.txt"@ =~= manifest_name());
    }
    let mut i: usize = 0;
    while i < node.files.len()
        invariant
            i <= node.files@.len(),
            "list.txt"@ == manifest_name(),
            forall|t: int| 0 <= t < i ==> (#[trigger] node.files@[t])@ != manifest_name(),
        decreases node.files@.len() - i,
    {
        if same_text(node.files[i].as_str(), "list.txt") {
            return true;
        }
        i = i + 1;
    }
    false
}

/// The index of the first subdirectory of `node` named "sixTest".
fn find_results_dir(node: &DirNode) -> (r: Option<usize>)
    ensures
        r matches Some(j) ==> j < node.dirs@.len(),
        r matches Some(j) ==> first_dir_named(node.dirs@, results_dir_name()) == Some(j as int),
        r is None ==> first_dir_named(node.dirs@, results_dir_name()) is None,
{
    proof {
        reveal_strlit("sixTest");
        assert("sixTest"@ =~= results_dir_name());
        lemma_first_dir_named(node.dirs@, results_dir_name());
    }
    let mut i: usize = 0;
    while i < node.dirs.len()
        invariant
            i <= node.dirs@.len(),
            "sixTest"@ == results_dir_name(),
            forall|t: int| 0 <= t < i ==> (#[trigger] node.dirs@[t]).name@ != results_dir_name(),
            match first_dir_named(node.dirs@, results_dir_name()) {
                Some(k) => 0 <= k < node.dirs@.len() && node.dirs@[k].name@ == results_dir_name()
                    && forall|j: int| 0 <= j < k ==> node.dirs@[j].name@ != results_dir_name(),
                None => forall|j: int| 0 <= j < node.dirs@.len() ==> node.dirs@[j].name@ != results_dir_name(),
            },
        decreases node.dirs@.len() - i,
    {
        if same_text(node.dirs[i].name.as_str(), "sixTest") {
            return Some(i);
        }
        i = i + 1;
    }
    None
}

/// Checks a seat folder under a channel of type `channel`; `p` is the path of
/// the channel folder.
fn check_seat(
    seat: &DirNode,
    channel: ChannelType,
    p: &Vec<String>,
    errs: &mut Vec<ValidationError>,
)
    ensures
        violations(final(errs)@) == violations(old(errs)@) + seat_errors(*seat, channel, p@),
{
    let q = child_path(p, &seat.name);
    if seat_position(&seat.name).is_none() {
        report(errs, ErrorKind::SeatName, q);
        return;
    }
    match channel {
        ChannelType::FullTrack => {
            if !check_pcm_files(seat) {
                report(errs, ErrorKind::TrackMissingAudio, q);
            }
            assert(violations(final(errs)@) =~= violations(old(errs)@) + seat_errors(*seat, channel, p@));
        },
        ChannelType::Apk => {
            if !has_manifest(seat) {
                report(errs, ErrorKind::ApkMissingManifest, child_path(p, &seat.name));
            }
            match find_results_dir(seat) {
                None => {
                    report(errs, ErrorKind::ApkMissingSubdir, q);
                },
                Some(j) => {
                    if !check_pcm_files(&seat.dirs[j]) {
                        report(errs, ErrorKind::ApkSubdirMissingAudio, child_path(&q, &seat.dirs[j].name));
                    }
                },
            }
            assert(violations(final(errs)@) =~= violations(old(errs)@) + seat_errors(*seat, channel, p@));
        },
    }
}

/// Checks a channel folder and its seat folders; `p` is the path of the
/// person folder.
fn check_channel(c: &DirNode, p: &Vec<String>, errs: &mut Vec<ValidationError>)
    ensures
        violations(final(errs)@) == violations(old(errs)@) + channel_errors(*c, p@),
{
    let q = child_path(p, &c.name);
    let ch = match channel_type(&c.name) {
        None => {
            report(errs, ErrorKind::ChannelName, q);
            assert(violations(final(errs)@) =~= violations(old(errs)@) + channel_errors(*c, p@));
            return;
        },
        Some(ch) => ch,
    };
    if dynamic_static_tag(&c.name) == DynamicStaticTag::Unspecified {
        report(errs, ErrorKind::ChannelMissingMarker, child_path(p, &c.name));
    }
    let ghost start = violations(errs@);
    let ghost f = |s: DirNode| seat_errors(s, ch, q@);
    let mut i: usize = 0;
    while i < c.dirs.len()
        invariant
            i <= c.dirs@.len(),
            f == (|s: DirNode| seat_errors(s, ch, q@)),
            violations(errs@) == start + flat_errors(c.dirs@.take(i as int), f),
        decreases c.dirs@.len() - i,
    {
        check_seat(&c.dirs[i], ch, &q, errs);
        proof {
            lemma_flat_step(c.dirs@, i as int, f);
        }
        i = i + 1;
    }
    assert(c.dirs@.take(c.dirs@.len() as int) =~= c.dirs@);
    assert(violations(final(errs)@) =~= violations(old(errs)@) + channel_errors(*c, p@));
}

/// Checks a person folder and its channel folders; `p` is the path of the
/// talk-type folder.
fn check_person(n: &DirNode, p: &Vec<String>, errs: &mut Vec<ValidationError>)
    ensures
        violations(final(errs)@) == violations(old(errs)@) + person_errors(*n, p@),
{
    let q = child_path(p, &n.name);
    let ghost start = violations(errs@);
    let ghost f = |c: DirNode| channel_errors(c, q@);
    let mut i: usize = 0;
    while i < n.dirs.len()
        invariant
            i <= n.dirs@.len(),
            f == (|c: DirNode| channel_errors(c, q@)),
            violations(errs@) == start + flat_errors(n.dirs@.take(i as int), f),
        decreases n.dirs@.len() - i,
    {
        check_channel(&n.dirs[i], &q, errs);
        proof {
            lemma_flat_step(n.dirs@, i as int, f);
        }
        i = i + 1;
    }
    assert(n.dirs@.take(n.dirs@.len() as int) =~= n.dirs@);
    assert(violations(final(errs)@) =~= violations(old(errs)@) + person_errors(*n, p@));
}

/// Checks a talk-type folder and, for double talk, everything below it; `p`
/// is the path of the session folder.
fn check_talk(t: &DirNode, p: &Vec<String>, errs: &mut Vec<ValidationError>)
    ensures
        violations(final(errs)@) == violations(old(errs)@) + talk_errors(*t, p@),
{
    let q = child_path(p, &t.name);
    match talk_type(&t.name) {
        None => {
            report(errs, ErrorKind::TalkTypeName, q);
            assert(violations(final(errs)@) =~= violations(old(errs)@) + talk_errors(*t, p@));
        },
        Some(TalkType::Single) => {
            if dynamic_static_tag(&t.name) == DynamicStaticTag::Unspecified {
                report(errs, ErrorKind::SingleMissingMarker, child_path(p, &t.name));
            }
            if !check_pcm_files(t) {
                report(errs, ErrorKind::SingleMissingAudio, q);
            }
            assert(violations(final(errs)@) =~= violations(old(errs)@) + talk_errors(*t, p@));
        },
        Some(TalkType::Double) => {
            let ghost start = violations(errs@);
            let ghost f = |n: DirNode| person_errors(n, q@);
            let mut i: usize = 0;
            while i < t.dirs.len()
                invariant
                    i <= t.dirs@.len(),
                    f == (|n: DirNode| person_errors(n, q@)),
                    violations(errs@) == start + flat_errors(t.dirs@.take(i as int), f),
                decreases t.dirs@.len() - i,
            {
                check_person(&t.dirs[i], &q, errs);
                proof {
                    lemma_flat_step(t.dirs@, i as int, f);
                }
                i = i + 1;
            }
            assert(t.dirs@.take(t.dirs@.len() as int) =~= t.dirs@);
            assert(violations(final(errs)@) =~= violations(old(errs)@) + talk_errors(*t, p@));
        },
    }
}

/// Checks a session folder and everything below it; `p` is the root's path.
fn check_session(s: &DirNode, p: &Vec<String>, errs: &mut Vec<ValidationError>)
    ensures
        violations(final(errs)@) == violations(old(errs)@) + session_errors(*s, p@),
{
    let q = child_path(p, &s.name);
    let ghost start = violations(errs@);
    let ghost f = |t: DirNode| talk_errors(t, q@);
    let mut i: usize = 0;
    while i < s.dirs.len()
        invariant
            i <= s.dirs@.len(),
            f == (|t: DirNode| talk_errors(t, q@)),
            violations(errs@) == start + flat_errors(s.dirs@.take(i as int), f),
        decreases s.dirs@.len() - i,
    {
        check_talk(&s.dirs[i], &q, errs);
        proof {
            lemma_flat_step(s.dirs@, i as int, f);
        }
        i = i + 1;
    }
    assert(s.dirs@.take(s.dirs@.len() as int) =~= s.dirs@);
    assert(violations(final(errs)@) =~= violations(old(errs)@) + session_errors(*s, p@));
}

/// Validates a whole tree and returns every violation, in depth-first order
/// of the snapshot.
pub fn validate_directory_structure(root: &RootEntry) -> (r: Vec<ValidationError>)
    ensures
        violations(r@) == validation_errors(*root),
{
    let mut errs: Vec<ValidationError> = Vec::new();
    assert(violations(errs@) =~= seq![]);
    match root {
        RootEntry::Invalid(path) => {
            let mut q: Vec<String> = Vec::new();
            q.push(path.clone());
            report(&mut errs, ErrorKind::RootInvalid, q);
            assert(violations(errs@) =~= validation_errors(*root));
        },
        RootEntry::Directory(d) => {
            let mut p: Vec<String> = Vec::new();
            p.push(d.name.clone());
            assert(p@ =~= seq![d.name]);
            let ghost f = |s: DirNode| session_errors(s, seq![d.name]);
            let mut i: usize = 0;
            while i < d.dirs.len()
                invariant
                    i <= d.dirs@.len(),
                    p@ == seq![d.name],
                    f == (|s: DirNode| session_errors(s, seq![d.name])),
                    violations(errs@) == flat_errors(d.dirs@.take(i as int), f),
                decreases d.dirs@.len() - i,
            {
                check_session(&d.dirs[i], &p, &mut errs);
                proof {
                    lemma_flat_step(d.dirs@, i as int, f);
                }
                i = i + 1;
            }
            assert(d.dirs@.take(d.dirs@.len() as int) =~= d.dirs@);
        },
    }
    errs
}

/// What to do with a root path, given whether it exists and whether it is a
/// directory: only a directory is validated.
pub fn classify_root(exists: bool, is_dir: bool) -> (r: RootCheck)
    ensures
        r == RootCheck::Ready <==> exists && is_dir,
        r == RootCheck::NotFound <==> !exists,
        r == RootCheck::NotADirectory <==> exists && !is_dir,
{
    if !exists {
        RootCheck::NotFound
    } else if !is_dir {
        RootCheck::NotADirectory
    } else {
        RootCheck::Ready
    }
}

/// A root directory with no subdirectories is conformant.
pub proof fn empty_root_is_conformant(root: DirNode)
    requires
        root.dirs@.len() == 0,
    ensures
        validation_errors(RootEntry::Directory(root)) == Seq::<Violation>::empty(),
{
}

/// Two runs of validation on the same tree report the same errors in the
/// same order.
pub proof fn validation_is_repeatable(
    root: RootEntry,
    first: Seq<ValidationError>,
    second: Seq<ValidationError>,
)
    requires
        violations(first) == validation_errors(root),
        violations(second) == validation_errors(root),
    ensures
        violations(first) == violations(second),
{
}

/// A single-talk folder that carries a dynamic/static marker but holds no
/// audio file yields exactly one error, for missing audio.
pub proof fn single_leaf_without_audio(t: DirNode, p: Seq<String>)
    requires
        talk_type_of(t.name@) == Some(TalkType::Single),
        tag_of(t.name@) != DynamicStaticTag::Unspecified,
        !has_audio_file(t),
    ensures
        talk_errors(t, p) == seq![violation(ErrorKind::SingleMissingAudio, p.push(t.name))],
{
    assert(talk_errors(t, p) =~= seq![violation(ErrorKind::SingleMissingAudio, p.push(t.name))]);
}

/// A full-track seat folder with a legal name and an audio file is conformant.
pub proof fn full_track_seat_with_audio(seat: DirNode, p: Seq<String>)
    requires
        seat_position_of(seat.name@) is Some,
        has_audio_file(seat),
    ensures
        seat_errors(seat, ChannelType::FullTrack, p) == Seq::<Violation>::empty(),
{
}

/// An APK seat folder with a legal name whose test-results subdirectory holds
/// audio, but which has no manifest, yields exactly one error, for the
/// missing manifest.
pub proof fn apk_seat_without_manifest(seat: DirNode, p: Seq<String>)
    requires
        seat_position_of(seat.name@) is Some,
        !has_file_named(seat, manifest_name()),
        first_dir_named(seat.dirs@, results_dir_name()) matches Some(j) && has_audio_file(
            seat.dirs@[j],
        ),
    ensures
        seat_errors(seat, ChannelType::Apk, p) == seq![violation(ErrorKind::ApkMissingManifest, p.push(seat.name))],
{
    assert(seat_errors(seat, ChannelType::Apk, p) =~= seq![violation(ErrorKind::ApkMissingManifest, p.push(seat.name))]);
}

/// A seat folder whose name is not one of the four seat names yields exactly
/// one naming error, and its content is not looked at.
pub proof fn unknown_seat_name(seat: DirNode, channel: ChannelType, p: Seq<String>)
    requires
        seat_position_of(seat.name@) is None,
    ensures
        seat_errors(seat, channel, p) == seq![violation(ErrorKind::SeatName, p.push(seat.name))],
{
}

/// `a` and `b` are the same seat folder, or two seat folders of one name that
/// is not a seat name, whatever they hold.
pub open spec fn seats_agree(a: DirNode, b: DirNode) -> bool {
    a == b || (a.name == b.name && seat_position_of(a.name@) is None)
}

pub open spec fn channels_agree(a: DirNode, b: DirNode) -> bool {
    &&& a.name == b.name
    &&& a.dirs@.len() == b.dirs@.len()
    &&& forall|i: int| 0 <= i < a.dirs@.len() ==> seats_agree(#[trigger] a.dirs@[i], b.dirs@[i])
}

pub open spec fn persons_agree(a: DirNode, b: DirNode) -> bool {
    &&& a.name == b.name
    &&& a.dirs@.len() == b.dirs@.len()
    &&& forall|i: int| 0 <= i < a.dirs@.len() ==> channels_agree(#[trigger] a.dirs@[i], b.dirs@[i])
}

/// Talk-type folders agree when equal, or when they are double-talk folders
/// of one name whose person folders agree.
pub open spec fn talks_agree(a: DirNode, b: DirNode) -> bool {
    ||| a == b
    ||| {
        &&& a.name == b.name
        &&& talk_type_of(a.name@) == Some(TalkType::Double)
        &&& a.dirs@.len() == b.dirs@.len()
        &&& forall|i: int| 0 <= i < a.dirs@.len() ==> persons_agree(#[trigger] a.dirs@[i], b.dirs@[i])
    }
}

pub open spec fn sessions_agree(a: DirNode, b: DirNode) -> bool {
    &&& a.name == b.name
    &&& a.dirs@.len() == b.dirs@.len()
    &&& forall|i: int| 0 <= i < a.dirs@.len() ==> talks_agree(#[trigger] a.dirs@[i], b.dirs@[i])
}

/// Two root directories that differ at most in what lies inside seat folders
/// whose names are not seat names.
pub open spec fn roots_agree(a: DirNode, b: DirNode) -> bool {
    &&& a.name == b.name
    &&& a.dirs@.len() == b.dirs@.len()
    &&& forall|i: int| 0 <= i < a.dirs@.len() ==> sessions_agree(#[trigger] a.dirs@[i], b.dirs@[i])
}

proof fn lemma_flat_congruent(
    a: Seq<DirNode>,
    b: Seq<DirNode>,
    f: spec_fn(DirNode) -> Seq<Violation>,
    g: spec_fn(DirNode) -> Seq<Violation>,
)
    requires
        a.len() == b.len(),
        forall|i: int| 0 <= i < a.len() ==> f(#[trigger] a[i]) == g(b[i]),
    ensures
        flat_errors(a, f) == flat_errors(b, g),
    decreases a.len(),
{
    if a.len() > 0 {
        let (a1, b1) = (a.drop_last(), b.drop_last());
        assert forall|i: int| 0 <= i < a1.len() implies f(#[trigger] a1[i]) == g(b1[i]) by {
            assert(a1[i] == a[i] && b1[i] == b[i]);
        }
        lemma_flat_congruent(a1, b1, f, g);
        assert(f(a[a.len() - 1]) == g(b[b.len() - 1]));
    }
}

proof fn lemma_channels_agree(a: DirNode, b: DirNode, p: Seq<String>)
    requires
        channels_agree(a, b),
    ensures
        channel_errors(a, p) == channel_errors(b, p),
{
    let q = p.push(a.name);
    if let Some(ch) = channel_type_of(a.name@) {
        let f = |s: DirNode| seat_errors(s, ch, q);
        assert forall|i: int| 0 <= i < a.dirs@.len() implies f(#[trigger] a.dirs@[i]) == f(b.dirs@[i]) by {
            assert(seats_agree(a.dirs@[i], b.dirs@[i]));
        }
        lemma_flat_congruent(a.dirs@, b.dirs@, f, f);
    }
}

proof fn lemma_persons_agree(a: DirNode, b: DirNode, p: Seq<String>)
    requires
        persons_agree(a, b),
    ensures
        person_errors(a, p) == person_errors(b, p),
{
    let q = p.push(a.name);
    let f = |c: DirNode| channel_errors(c, q);
    assert forall|i: int| 0 <= i < a.dirs@.len() implies f(#[trigger] a.dirs@[i]) == f(b.dirs@[i]) by {
        lemma_channels_agree(a.dirs@[i], b.dirs@[i], q);
    }
    lemma_flat_congruent(a.dirs@, b.dirs@, f, f);
}

proof fn lemma_talks_agree(a: DirNode, b: DirNode, p: Seq<String>)
    requires
        talks_agree(a, b),
    ensures
        talk_errors(a, p) == talk_errors(b, p),
{
    if a != b {
        let q = p.push(a.name);
        let f = |n: DirNode| person_errors(n, q);
        assert forall|i: int| 0 <= i < a.dirs@.len() implies f(#[trigger] a.dirs@[i]) == f(b.dirs@[i]) by {
            lemma_persons_agree(a.dirs@[i], b.dirs@[i], q);
        }
        lemma_flat_congruent(a.dirs@, b.dirs@, f, f);
    }
}

proof fn lemma_sessions_agree(a: DirNode, b: DirNode, p: Seq<String>)
    requires
        sessions_agree(a, b),
    ensures
        session_errors(a, p) == session_errors(b, p),
{
    let q = p.push(a.name);
    let f = |t: DirNode| talk_errors(t, q);
    assert forall|i: int| 0 <= i < a.dirs@.len() implies f(#[trigger] a.dirs@[i]) == f(b.dirs@[i]) by {
        lemma_talks_agree(a.dirs@[i], b.dirs@[i], q);
    }
    lemma_flat_congruent(a.dirs@, b.dirs@, f, f);
}

/// What lies inside a seat folder whose name is not a seat name never changes
/// what validation reports: two trees that differ only there get the same
/// errors. (By `unknown_seat_name`, such a folder gets exactly one naming
/// error.)
pub proof fn badly_named_seat_content_is_ignored(a: DirNode, b: DirNode)
    requires
        roots_agree(a, b),
    ensures
        validation_errors(RootEntry::Directory(a)) == validation_errors(RootEntry::Directory(b)),
{
    let f = |s: DirNode| session_errors(s, seq![a.name]);
    assert forall|i: int| 0 <= i < a.dirs@.len() implies f(#[trigger] a.dirs@[i]) == f(b.dirs@[i]) by {
        lemma_sessions_agree(a.dirs@[i], b.dirs@[i], seq![a.name]);
    }
    lemma_flat_congruent(a.dirs@, b.dirs@, f, f);
}

} // verus!
