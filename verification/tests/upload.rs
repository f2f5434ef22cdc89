use chat_hub::ids::random_token;
use chat_hub::models::HubError;
use chat_hub::route::upload::{
    file_extension, init, name_upload, save_files, saved_upload, sort_field, FieldPlan,
    FieldVerdict, UploadInfo, UploadKind, UploadPlan, SALT_LENGTH,
};

#[test]
fn upload_is_named_by_digest_and_lowercase_extension() {
    assert_eq!(
        name_upload(Some("img"), Some("Photo.PNG"), "abcdefghij"),
        FieldPlan::Save(UploadPlan {
            info: UploadInfo {
                filename: "Photo.PNG".to_string(),
                saved_filename:
                    "d03279030ba5128c6d820ec8bde37cd052aaff509b8d2735abe360b54e83631e.png"
                        .to_string(),
                kind: "img".to_string(),
            },
            sorted: UploadKind::Img,
        })
    );
}

#[test]
fn extension_is_what_follows_the_last_dot() {
    match name_upload(Some("file"), Some("archive.tar.GZ"), "0123456789") {
        FieldPlan::Save(plan) => assert_eq!(
            plan.info.saved_filename,
            "c18cefeee454d08d07ef4328ba415819ab3d9c7608a643904a3a6308f0c1cc37.gz"
        ),
        other => panic!("unexpected plan {:?}", other),
    }
}

#[test]
fn name_without_a_dot_is_its_own_extension() {
    match name_upload(Some("file"), Some("README"), "abcdefghij") {
        FieldPlan::Save(plan) => assert_eq!(
            plan.info.saved_filename,
            "11811f10f71ca8c46d82763d9cfa2f5eccdaf1ef85cb9682c548340a4c9f3e48.readme"
        ),
        other => panic!("unexpected plan {:?}", other),
    }
}

#[test]
fn name_that_ends_in_a_dot_has_an_empty_extension() {
    match name_upload(Some("video"), Some("clip."), "abcdefghij") {
        FieldPlan::Save(plan) => {
            assert!(plan.info.saved_filename.ends_with('.'));
            assert_eq!(plan.info.saved_filename.len(), 65);
            assert_eq!(plan.sorted, UploadKind::Video);
        }
        other => panic!("unexpected plan {:?}", other),
    }
}

#[test]
fn field_without_a_file_is_skipped() {
    assert_eq!(name_upload(None, Some("a.png"), "abcdefghij"), FieldPlan::Skip);
    assert_eq!(name_upload(Some("img"), None, "abcdefghij"), FieldPlan::Skip);
    assert_eq!(name_upload(Some("img"), Some(""), "abcdefghij"), FieldPlan::Skip);
    assert_eq!(name_upload(Some("img"), Some(" \t\n "), "abcdefghij"), FieldPlan::Skip);
    assert_eq!(name_upload(Some("nonsense"), Some("  "), "abcdefghij"), FieldPlan::Skip);
}

#[test]
fn unknown_field_is_a_bad_request() {
    assert_eq!(
        name_upload(Some("document"), Some("a.pdf"), "abcdefghij"),
        FieldPlan::Reject(HubError::BadRequest)
    );
    assert_eq!(save_files(Some("IMG"), Some("a.png")), FieldPlan::Reject(HubError::BadRequest));
}

#[test]
fn kinds_have_their_fields_and_directories() {
    assert_eq!(UploadKind::from_field("pp"), Some(UploadKind::Pp));
    assert_eq!(UploadKind::from_field("img"), Some(UploadKind::Img));
    assert_eq!(UploadKind::from_field("video"), Some(UploadKind::Video));
    assert_eq!(UploadKind::from_field("file"), Some(UploadKind::File));
    assert_eq!(UploadKind::from_field(""), None);
    assert_eq!(UploadKind::Pp.key(), "pp");
    assert_eq!(UploadKind::Img.key(), "img");
    assert_eq!(UploadKind::Video.key(), "video");
    assert_eq!(UploadKind::File.key(), "file");
    assert_eq!(UploadKind::Pp.dir(), "./uploads/profile_pictures");
    assert_eq!(UploadKind::Img.dir(), "./uploads/images");
    assert_eq!(UploadKind::Video.dir(), "./uploads/videos");
    assert_eq!(UploadKind::File.dir(), "./uploads/files");
    assert_eq!(
        init(),
        vec![UploadKind::Img, UploadKind::Pp, UploadKind::Video, UploadKind::File]
    );
}

#[test]
fn saved_name_draws_a_fresh_salt() {
    assert_eq!(SALT_LENGTH, 10);
    let name_of = |plan: FieldPlan| match plan {
        FieldPlan::Save(plan) => plan.info.saved_filename,
        other => panic!("unexpected plan {:?}", other),
    };
    let first = name_of(save_files(Some("pp"), Some("me.JPG")));
    assert_eq!(first.len(), 64 + 4);
    assert!(first.ends_with(".jpg"));
    assert!(first[..64].chars().all(|c| c.is_ascii_hexdigit() && !c.is_ascii_uppercase()));
    assert!((0..20).any(|_| name_of(save_files(Some("pp"), Some("me.JPG"))) != first));
}

#[test]
fn non_ascii_names_are_handled_by_character() {
    match name_upload(Some("img"), Some("żółw.ŻÓŁ"), "abcdefghij") {
        FieldPlan::Save(plan) => {
            assert_eq!(plan.info.filename, "żółw.ŻÓŁ");
            assert!(plan.info.saved_filename.ends_with(".żół"));
        }
        other => panic!("unexpected plan {:?}", other),
    }
}

#[test]
fn random_token_has_the_length_asked_for() {
    assert_eq!(random_token(0), "");
    let token = random_token(32);
    assert_eq!(token.len(), 32);
    assert!(token.chars().all(|c| c.is_ascii_alphanumeric()));
}

#[test]
fn extension_of_a_file_name() {
    assert_eq!(file_extension("a.b.c"), "c");
    assert_eq!(file_extension("Photo.PNG"), "PNG");
    assert_eq!(file_extension("README"), "README");
    assert_eq!(file_extension("clip."), "");
    assert_eq!(file_extension(".profile"), "profile");
    assert_eq!(file_extension(""), "");
}

#[test]
fn field_is_sorted_by_its_name() {
    assert_eq!(sort_field(Some("pp"), Some("me.jpg"), false), FieldVerdict::Sort(UploadKind::Pp));
    assert_eq!(
        sort_field(Some("video"), Some("clip.mp4"), false),
        FieldVerdict::Sort(UploadKind::Video)
    );
    assert_eq!(sort_field(Some("pp"), Some("me.jpg"), true), FieldVerdict::Skip);
    assert_eq!(sort_field(None, Some("me.jpg"), false), FieldVerdict::Skip);
    assert_eq!(sort_field(Some("pp"), None, false), FieldVerdict::Skip);
    assert_eq!(sort_field(Some("other"), Some("me.jpg"), true), FieldVerdict::Skip);
    assert_eq!(
        sort_field(Some("other"), Some("me.jpg"), false),
        FieldVerdict::Reject(HubError::BadRequest)
    );
}

#[test]
fn saved_name_is_digest_dot_extension() {
    assert_eq!(
        saved_upload(UploadKind::File, "Notes.TXT", "abc123".to_string(), "txt"),
        UploadPlan {
            info: UploadInfo {
                filename: "Notes.TXT".to_string(),
                saved_filename: "abc123.txt".to_string(),
                kind: "file".to_string(),
            },
            sorted: UploadKind::File,
        }
    );
}

fn has_white_space_property(c: char) -> bool {
    matches!(
        c as u32,
        0x09..=0x0D
            | 0x20
            | 0x85
            | 0xA0
            | 0x1680
            | 0x2000..=0x200A
            | 0x2028
            | 0x2029
            | 0x202F
            | 0x205F
            | 0x3000
    )
}

#[test]
fn file_name_of_white_space_alone_is_blank() {
    let far = ['\u{FEFF}', '\u{FFFD}', '\u{1F600}', '\u{E0020}', '\u{10FFFF}'];
    for c in (0..=0x3100u32).filter_map(char::from_u32).chain(far) {
        let name = format!("{}{}", c, c);
        let skipped = name_upload(Some("file"), Some(&name), "abcdefghij") == FieldPlan::Skip;
        assert_eq!(skipped, has_white_space_property(c), "U+{:04X}", c as u32);
    }
}

#[test]
fn white_space_is_trimmed_at_both_ends_only() {
    match name_upload(Some("file"), Some("\u{2003} a b.TXT \u{3000}\n"), "abcdefghij") {
        FieldPlan::Save(plan) => {
            assert_eq!(plan.info.filename, "\u{2003} a b.TXT \u{3000}\n");
            assert!(plan.info.saved_filename.ends_with(".txt \u{3000}\n"));
        }
        other => panic!("unexpected plan {:?}", other),
    }
}
