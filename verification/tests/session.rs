use wolfcut::model::DocumentSettings;
use wolfcut::session::{adopt_document_size, apply_saved_settings};

fn settings() -> DocumentSettings {
    DocumentSettings { name: "Test".to_owned(), width: 1920, height: 1080, rate_num: 30, rate_den: 1 }
}

#[test]
fn a_save_takes_a_trimmed_name_and_real_dimensions() {
    let mut session = settings();
    apply_saved_settings(&mut session, Some("  Holiday cut \n"), Some(1280), Some(720));
    assert_eq!(session.name, "Holiday cut");
    assert_eq!((session.width, session.height), (1280, 720));
    assert_eq!((session.rate_num, session.rate_den), (30, 1));
}

#[test]
fn a_save_ignores_a_blank_name_and_zero_dimensions() {
    let mut session = settings();
    apply_saved_settings(&mut session, Some("   "), Some(0), None);
    assert_eq!(session.name, "Test");
    assert_eq!((session.width, session.height), (1920, 1080));
}

#[test]
fn the_documents_frame_wins_only_when_whole() {
    let mut session = settings();
    adopt_document_size(&mut session, Some(3840), None);
    assert_eq!((session.width, session.height), (1920, 1080));
    adopt_document_size(&mut session, Some(3840), Some(0));
    assert_eq!((session.width, session.height), (1920, 1080));
    adopt_document_size(&mut session, Some(3840), Some(2160));
    assert_eq!((session.width, session.height), (3840, 2160));
    adopt_document_size(&mut session, Some((1u64 << 32) + 640), Some(480));
    assert_eq!(session.width, 640, "narrowed the way `as u32` narrows");
}
