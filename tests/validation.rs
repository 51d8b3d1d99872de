use validate_doubletalk_farend_testdata::{
    channel_type, check_pcm_files, classify_root, dynamic_static_tag, is_audio_file_name,
    seat_position, talk_type, validate_directory_structure, ChannelType, DirNode,
    DynamicStaticTag, ErrorClass, ErrorKind, RootCheck, RootEntry, SeatPosition, TalkType, ValidationError,
};

fn dir(name: &str, files: &[&str], dirs: Vec<DirNode>) -> DirNode {
    DirNode {
        name: name.to_string(),
        files: files.iter().map(|f| f.to_string()).collect(),
        dirs,
    }
}

fn validate(root: DirNode) -> Vec<ValidationError> {
    validate_directory_structure(&RootEntry::Directory(root))
}

fn summary(errs: &[ValidationError]) -> Vec<(ErrorKind, String)> {
    errs.iter().map(|e| (e.kind, e.path.join("/"))).collect()
}

/// root/d/双讲/personA/<channel>/<seats...>
fn double_tree(channel: DirNode) -> DirNode {
    dir(
        "root",
        &[],
        vec![dir("d", &[], vec![dir("双讲", &[], vec![dir("personA", &[], vec![channel])])])],
    )
}

#[test]
fn missing_or_file_root_is_not_validated() {
    assert_eq!(classify_root(false, false), RootCheck::NotFound);
    assert_eq!(classify_root(true, false), RootCheck::NotADirectory);
    assert_eq!(classify_root(true, true), RootCheck::Ready);
}

#[test]
fn invalid_root_gives_one_root_error() {
    let errs = validate_directory_structure(&RootEntry::Invalid("nowhere".to_string()));
    assert_eq!(summary(&errs), vec![(ErrorKind::RootInvalid, "nowhere".to_string())]);
}

#[test]
fn empty_root_is_conformant() {
    assert!(validate(dir("root", &["stray.pcm"], vec![])).is_empty());
}

#[test]
fn empty_session_is_conformant() {
    assert!(validate(dir("root", &[], vec![dir("2024-01-01", &[], vec![])])).is_empty());
}

#[test]
fn validation_twice_gives_same_errors() {
    let tree = dir(
        "root",
        &[],
        vec![
            dir("s1", &[], vec![dir("misc", &[], vec![]), dir("单讲", &[], vec![])]),
            dir("s2", &[], vec![dir("双讲", &[], vec![dir("p", &[], vec![dir("x", &[], vec![])])])]),
        ],
    );
    let root = RootEntry::Directory(tree);
    let a = summary(&validate_directory_structure(&root));
    let b = summary(&validate_directory_structure(&root));
    assert_eq!(a.len(), 4);
    assert_eq!(a, b);
}

#[test]
fn single_leaf_missing_audio() {
    let tree = dir(
        "root",
        &[],
        vec![dir("2024-01-01", &[], vec![dir("单讲_动态", &["take.wav"], vec![])])],
    );
    assert_eq!(
        summary(&validate(tree)),
        vec![(ErrorKind::SingleMissingAudio, "root/2024-01-01/单讲_动态".to_string())]
    );
}

#[test]
fn single_leaf_with_audio_is_conformant() {
    let tree = dir(
        "root",
        &[],
        vec![dir("2024-01-01", &[], vec![dir("单讲_静态", &["a.txt", "b.PCM"], vec![])])],
    );
    assert!(validate(tree).is_empty());
}

#[test]
fn single_leaf_missing_marker_and_audio() {
    let tree = dir("root", &[], vec![dir("s", &[], vec![dir("单讲", &[], vec![dir("x.pcm", &[], vec![])])])]);
    assert_eq!(
        summary(&validate(tree)),
        vec![
            (ErrorKind::SingleMissingMarker, "root/s/单讲".to_string()),
            (ErrorKind::SingleMissingAudio, "root/s/单讲".to_string()),
        ]
    );
}

#[test]
fn talk_type_name_violation_stops_descent() {
    let tree = dir(
        "root",
        &[],
        vec![dir("s", &[], vec![dir("三讲", &[], vec![dir("整轨", &[], vec![])])])],
    );
    assert_eq!(summary(&validate(tree)), vec![(ErrorKind::TalkTypeName, "root/s/三讲".to_string())]);
}

#[test]
fn double_full_track_happy_path() {
    let tree = double_tree(dir("整轨_静态", &[], vec![dir("主驾", &["take1.pcm"], vec![])]));
    assert!(validate(tree).is_empty());
}

#[test]
fn double_full_track_missing_audio() {
    let tree = double_tree(dir("整轨_动态", &[], vec![dir("左后", &["take1.wav"], vec![])]));
    assert_eq!(
        summary(&validate(tree)),
        vec![(ErrorKind::TrackMissingAudio, "root/d/双讲/personA/整轨_动态/左后".to_string())]
    );
}

#[test]
fn double_apk_missing_manifest() {
    let seat = dir("副驾", &[], vec![dir("sixTest", &["r.pcm"], vec![])]);
    let tree = double_tree(dir("APK_动态", &[], vec![seat]));
    assert_eq!(
        summary(&validate(tree)),
        vec![(ErrorKind::ApkMissingManifest, "root/d/双讲/personA/APK_动态/副驾".to_string())]
    );
}

#[test]
fn double_apk_complete_is_conformant() {
    let seat = dir("右后", &["list.txt"], vec![dir("other", &[], vec![]), dir("sixTest", &["r.Pcm"], vec![])]);
    let tree = double_tree(dir("apk静态", &[], vec![seat]));
    assert!(validate(tree).is_empty());
}

#[test]
fn mixed_case_apk_channel_is_conformant() {
    let seat = dir("主驾", &["list.txt"], vec![dir("sixTest", &["a.pcm"], vec![])]);
    let tree = double_tree(dir("Apk_动态", &[], vec![seat]));
    assert!(validate(tree).is_empty());
}

#[test]
fn double_apk_missing_subdir() {
    // A file named like the results directory does not count, nor does a
    // directory named like the manifest.
    let seat = dir("主驾", &["sixTest"], vec![dir("list.txt", &[], vec![])]);
    let tree = double_tree(dir("APK_静态", &[], vec![seat]));
    let p = "root/d/双讲/personA/APK_静态/主驾".to_string();
    assert_eq!(
        summary(&validate(tree)),
        vec![(ErrorKind::ApkMissingManifest, p.clone()), (ErrorKind::ApkMissingSubdir, p)]
    );
}

#[test]
fn double_apk_subdir_missing_audio() {
    let seat = dir("主驾", &["list.txt"], vec![dir("sixTest", &["r.wav"], vec![])]);
    let tree = double_tree(dir("APK_静态", &[], vec![seat]));
    assert_eq!(
        summary(&validate(tree)),
        vec![(
            ErrorKind::ApkSubdirMissingAudio,
            "root/d/双讲/personA/APK_静态/主驾/sixTest".to_string()
        )]
    );
}

#[test]
fn unknown_seat_name_skips_content_checks() {
    let tree = double_tree(dir("APK_动态", &[], vec![dir("主驾X", &[], vec![])]));
    assert_eq!(
        summary(&validate(tree)),
        vec![(ErrorKind::SeatName, "root/d/双讲/personA/APK_动态/主驾X".to_string())]
    );
}

#[test]
fn channel_name_violation_stops_descent() {
    let tree = double_tree(dir("x_动态", &[], vec![dir("主驾X", &[], vec![])]));
    assert_eq!(
        summary(&validate(tree)),
        vec![(ErrorKind::ChannelName, "root/d/双讲/personA/x_动态".to_string())]
    );
}

#[test]
fn channel_missing_marker_still_descends() {
    let tree = double_tree(dir("整轨", &[], vec![dir("副驾", &[], vec![])]));
    assert_eq!(
        summary(&validate(tree)),
        vec![
            (ErrorKind::ChannelMissingMarker, "root/d/双讲/personA/整轨".to_string()),
            (ErrorKind::TrackMissingAudio, "root/d/双讲/personA/整轨/副驾".to_string()),
        ]
    );
}

#[test]
fn errors_come_in_depth_first_order() {
    let tree = dir(
        "r",
        &[],
        vec![
            dir("a", &[], vec![dir("x", &[], vec![]), dir("单讲动态", &[], vec![])]),
            dir("b", &[], vec![dir("双讲", &[], vec![dir("p", &[], vec![dir("整轨静态", &[], vec![dir("q", &[], vec![])])])])]),
        ],
    );
    assert_eq!(
        summary(&validate(tree)),
        vec![
            (ErrorKind::TalkTypeName, "r/a/x".to_string()),
            (ErrorKind::SingleMissingAudio, "r/a/单讲动态".to_string()),
            (ErrorKind::SeatName, "r/b/双讲/p/整轨静态/q".to_string()),
        ]
    );
}

#[test]
fn audio_extension_ignores_case() {
    for name in ["FILE.PCM", "file.Pcm", "file.pcm", "a.b.pCm", "..pcm"] {
        assert!(is_audio_file_name(&name.to_string()), "{}", name);
        assert!(check_pcm_files(&dir("d", &[name], vec![])), "{}", name);
    }
}

#[test]
fn non_audio_names() {
    for name in [".pcm", "pcm", "file.pcm.bak", "file.pcmx", "file.wav", "file_pcm", "file.", ""] {
        assert!(!is_audio_file_name(&name.to_string()), "{}", name);
    }
    assert!(!check_pcm_files(&dir("d", &[], vec![dir("x.pcm", &[], vec![])])));
}

#[test]
fn talk_type_prefers_single() {
    assert_eq!(talk_type(&"双讲_单讲".to_string()), Some(TalkType::Single));
    assert_eq!(talk_type(&"x双讲y".to_string()), Some(TalkType::Double));
    assert_eq!(talk_type(&"讲".to_string()), None);
}

#[test]
fn tag_classification() {
    assert_eq!(dynamic_static_tag(&"单讲_动态".to_string()), DynamicStaticTag::Dynamic);
    assert_eq!(dynamic_static_tag(&"静态".to_string()), DynamicStaticTag::Static);
    assert_eq!(dynamic_static_tag(&"动静".to_string()), DynamicStaticTag::Unspecified);
}

#[test]
fn channel_classification() {
    assert_eq!(channel_type(&"APK".to_string()), Some(ChannelType::Apk));
    assert_eq!(channel_type(&"apk_x".to_string()), Some(ChannelType::Apk));
    assert_eq!(channel_type(&"整轨_静态".to_string()), Some(ChannelType::FullTrack));
    assert_eq!(channel_type(&"x整轨".to_string()), None);
    assert_eq!(channel_type(&"aPK".to_string()), Some(ChannelType::Apk));
    assert_eq!(channel_type(&"Apk_动态".to_string()), Some(ChannelType::Apk));
    assert_eq!(channel_type(&"ap".to_string()), None);
    assert_eq!(channel_type(&"_apk".to_string()), None);
}

#[test]
fn seat_classification() {
    assert_eq!(seat_position(&"主驾".to_string()), Some(SeatPosition::Driver));
    assert_eq!(seat_position(&"副驾".to_string()), Some(SeatPosition::Passenger));
    assert_eq!(seat_position(&"左后".to_string()), Some(SeatPosition::RearLeft));
    assert_eq!(seat_position(&"右后".to_string()), Some(SeatPosition::RearRight));
    assert_eq!(seat_position(&"主驾X".to_string()), None);
    assert_eq!(seat_position(&"主".to_string()), None);
}


#[test]
fn error_classes() {
    assert_eq!(ErrorKind::RootInvalid.class(), ErrorClass::RootInvalid);
    assert_eq!(ErrorKind::TalkTypeName.class(), ErrorClass::NamingViolation);
    assert_eq!(ErrorKind::ChannelName.class(), ErrorClass::NamingViolation);
    assert_eq!(ErrorKind::SeatName.class(), ErrorClass::NamingViolation);
    assert_eq!(ErrorKind::SingleMissingMarker.class(), ErrorClass::MissingMarker);
    assert_eq!(ErrorKind::ChannelMissingMarker.class(), ErrorClass::MissingMarker);
    assert_eq!(ErrorKind::SingleMissingAudio.class(), ErrorClass::ContentMissingAudio);
    assert_eq!(ErrorKind::TrackMissingAudio.class(), ErrorClass::ContentMissingAudio);
    assert_eq!(ErrorKind::ApkMissingManifest.class(), ErrorClass::ContentMissingManifest);
    assert_eq!(ErrorKind::ApkMissingSubdir.class(), ErrorClass::ContentMissingSubdir);
    assert_eq!(ErrorKind::ApkSubdirMissingAudio.class(), ErrorClass::ContentMissingAudioInSubdir);
}

#[test]
fn content_of_badly_named_seat_is_ignored() {
    let empty = double_tree(dir("整轨_动态", &[], vec![dir("主驾X", &[], vec![])]));
    let full = double_tree(dir(
        "整轨_动态",
        &[],
        vec![dir("主驾X", &["a.pcm", "list.txt"], vec![dir("sixTest", &["b.wav"], vec![])])],
    ));
    let expected = vec![(ErrorKind::SeatName, "root/d/双讲/personA/整轨_动态/主驾X".to_string())];
    assert_eq!(summary(&validate(empty)), expected);
    assert_eq!(summary(&validate(full)), expected);
}
