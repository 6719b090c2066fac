//! Attachments, file names and byte sizes.
use qsl_desktop::attachments::{
    attachment_part, body_missing, candidate_name, dir_not_made, file_not_opened,
    file_not_written, next_name, part_missing, sanitize_attachment_filename, unique_path, NameStep,
};
use qsl_desktop::display::{format_bytes, humanize_bytes};
use qsl_desktop::model::{AttachmentRef, IpcErrorKind, MessageId};
use qsl_desktop::picker::{compose_pick_attachments, PickedFile};

#[test]
fn an_attachment_id_names_a_part() {
    assert_eq!(attachment_part(&AttachmentRef("part/12".into())), Ok(12));
    assert_eq!(attachment_part(&AttachmentRef("part/+1".into())), Ok(1));
    for bad in ["part/", "part/x", "12", "part/99999999999999999999999"] {
        let e = attachment_part(&AttachmentRef(bad.to_string())).unwrap_err();
        assert_eq!(e.kind, IpcErrorKind::Internal);
        assert_eq!(
            e.message,
            format!("messages_open_attachment: unrecognized attachment id `{bad}`")
        );
    }
}

#[test]
fn missing_attachments_are_reported() {
    let e = body_missing(&MessageId("m".into()));
    assert_eq!(e.kind, IpcErrorKind::NotFound);
    assert_eq!(e.message, "messages_open_attachment: could not load body for m");
    let e = part_missing(3);
    assert_eq!(e.message, "messages_open_attachment: no binary part at index 3");
    let e = dir_not_made("/d", "denied");
    assert_eq!(e.kind, IpcErrorKind::Storage);
    assert_eq!(e.message, "messages_open_attachment: create /d: denied");
    let e = file_not_written("/d/a", "full");
    assert_eq!(e.message, "messages_open_attachment: write /d/a: full");
    let e = file_not_opened("/d/a", "no viewer");
    assert_eq!(e.kind, IpcErrorKind::Internal);
    assert_eq!(e.message, "saved to /d/a but failed to open: no viewer");
}

#[test]
fn a_safe_name_never_leaves_its_directory() {
    for raw in ["..", "/etc/passwd", "a/../b", "\u{7}x", " . ", "C:\\x", ".hidden."] {
        let name = sanitize_attachment_filename(raw);
        assert!(!name.is_empty());
        assert!(!name.contains('/') && !name.contains('\\') && !name.contains(':'));
        assert!(!name.starts_with('.') && !name.ends_with('.'));
    }
}

#[test]
fn numbered_names_keep_the_extension() {
    assert_eq!(candidate_name("a.tar.gz", 0), "a.tar.gz");
    assert_eq!(candidate_name("a.tar.gz", 2), "a.tar (2).gz");
    assert_eq!(candidate_name("README", 1), "README (1)");
    assert_eq!(candidate_name(".profile", 1), ".profile (1)");
    assert_eq!(next_name(0, false), NameStep::Use(0));
    assert_eq!(next_name(0, true), NameStep::Try(1));
    assert_eq!(next_name(999, true), NameStep::Use(0));
}

#[test]
fn no_file_is_overwritten_while_a_number_is_free() {
    let mut existing = vec!["a.txt".to_string()];
    for n in 1..999 {
        existing.push(format!("a ({n}).txt"));
    }
    assert_eq!(unique_path(&existing, "a.txt"), "a (999).txt");
    existing.push("a (999).txt".to_string());
    assert_eq!(unique_path(&existing, "a.txt"), "a.txt");
}

#[test]
fn sizes_are_shown_in_binary_units() {
    assert_eq!(format_bytes(0), "0 B");
    assert_eq!(format_bytes(1_023), "1023 B");
    assert_eq!(format_bytes(1_024), "1.0 KiB");
    assert_eq!(format_bytes(1_536), "1.5 KiB");
    assert_eq!(format_bytes(1_048_576), "1.0 MiB");
    assert_eq!(format_bytes(10 * 1_048_576 - 1), "10.0 MiB");
    assert_eq!(format_bytes(10 * 1_048_576 + 700_000), "10 MiB");
    assert_eq!(format_bytes(1_073_741_824), "1 GiB");
    assert_eq!(format_bytes(5 * 1_073_741_824 - 1), "4 GiB");
}

#[test]
fn sizes_below_ten_mebibytes_have_one_decimal() {
    for bytes in [1_024u64, 1_075, 1_076, 1_126, 1_300, 51_251, 999_999, 1_048_575] {
        assert_eq!(format_bytes(bytes), format!("{:.1} KiB", bytes as f64 / 1024.0));
    }
    for bytes in [1_048_576u64, 1_100_000, 3_333_333, 7_654_321, 10_485_759] {
        assert_eq!(format_bytes(bytes), format!("{:.1} MiB", bytes as f64 / 1_048_576.0));
    }
}

#[test]
fn picked_files_show_a_rough_size() {
    let kb = 1024u64;
    let mb = kb * 1024;
    let gb = mb * 1024;
    let float = |n: u64| {
        if n >= gb {
            format!("{:.1} GB", n as f64 / gb as f64)
        } else if n >= mb {
            format!("{:.1} MB", n as f64 / mb as f64)
        } else if n >= kb {
            format!("{:.0} KB", n as f64 / kb as f64)
        } else {
            format!("{n} B")
        }
    };
    assert_eq!(humanize_bytes(2_560), "2 KB");
    assert_eq!(humanize_bytes(3_584), "4 KB");
    for n in [
        0,
        1_023,
        1_024,
        1_535,
        1_536,
        1_537,
        mb - 1,
        mb,
        mb + mb / 20,
        7_654_321,
        gb - 1,
        gb,
        gb + gb / 20,
        987_654_321_987,
        (1 << 53) + 1,
        u64::MAX - 1,
        u64::MAX,
    ] {
        assert_eq!(humanize_bytes(n), float(n));
    }
}

fn picked(path: Option<&str>, name: Option<&str>, extension: &str) -> PickedFile {
    PickedFile {
        path: path.map(str::to_string),
        name: name.map(str::to_string),
        extension: extension.to_string(),
        size: Ok(10),
    }
}

#[test]
fn picked_files_get_a_media_type() {
    let all = compose_pick_attachments(&vec![
        picked(Some("/d/a.png"), Some("a.png"), "png"),
        picked(None, Some("lost"), ""),
        picked(Some("/d/notes"), None, ""),
        picked(Some("/d/x.unheardof"), Some("x.unheardof"), "unheardof"),
    ])
    .unwrap();
    assert_eq!(all.len(), 3);
    assert_eq!(all[0].mime_type, "image/png");
    assert_eq!(all[0].filename, "a.png");
    assert_eq!(all[0].size_bytes, 10);
    assert!(!all[0].inline);
    assert_eq!(all[1].filename, "/d/notes");
    assert_eq!(all[1].mime_type, "application/octet-stream");
    assert_eq!(all[2].mime_type, "application/octet-stream");
}

#[test]
fn an_unreadable_pick_fails() {
    let mut bad = picked(Some("/d/a.png"), Some("a.png"), "png");
    bad.size = Err("denied".into());
    let e = compose_pick_attachments(&vec![picked(Some("/d/b"), Some("b"), ""), bad]).unwrap_err();
    assert_eq!(e.kind, IpcErrorKind::Internal);
    assert_eq!(e.message, "compose_pick_attachments: stat a.png: denied");
}
