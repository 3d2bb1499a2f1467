use rover::catalog::{check_new_root, file_cascade_steps, root_cascade_steps, CascadeStep};
use rover::error::Error;
use rover::events::Event;
use rover::preprocessing::{tokenize, tokenize_batch, CONTEXT_LENGTH};
use rover::uuid::UUID;

#[test]
fn event_names() {
    assert_eq!(Event::TaskStatus.event_name(), "task-status");
    assert_eq!(Event::TaskEnd.event_name(), "task-end");
}

#[test]
fn root_registration_rules() {
    assert_eq!(check_new_root(false, false), Err(Error::NotADirectory));
    assert_eq!(check_new_root(false, true), Err(Error::NotADirectory));
    assert_eq!(check_new_root(true, true), Err(Error::DirectoryAlreadyExistsInDb));
    assert_eq!(check_new_root(true, false), Ok(()));
}

#[test]
fn error_messages() {
    assert_eq!(Error::NotADirectory.message(), "The path is not a directory.");
    assert_eq!(Error::DirectoryAlreadyExistsInDb.message(), "The directory already exists in the database");
    assert_eq!(
        Error::PathBufToString.message(),
        "Error converting PathBuf to String. Path is likely not valid UTF-8."
    );
    assert_eq!(Error::Io("disk full".to_string()).message(), "disk full");
}

#[test]
fn cascade_order() {
    assert_eq!(
        file_cascade_steps(),
        vec![
            CascadeStep::FileTags,
            CascadeStep::FailedEncodings,
            CascadeStep::FeatureVectors,
            CascadeStep::ThumbnailFiles,
            CascadeStep::ThumbnailRows,
            CascadeStep::Files,
        ]
    );
    let root = root_cascade_steps();
    assert_eq!(root.len(), 7);
    assert_eq!(root[6], CascadeStep::WatchedRoots);
}

#[test]
fn tokenize_empty_text_gives_one_row() {
    let tokenizer = instant_clip_tokenizer::Tokenizer::new();
    let r = tokenize("", &tokenizer);
    assert_eq!(r.len(), 1);
    assert!(r[0][0] >= 512);
    assert_eq!(r[0][1], r[0][0] + 1);
    assert_eq!(r[0].len(), CONTEXT_LENGTH);
    assert_eq!(r[0][0], 49406);
    assert_eq!(r[0][1], 49407);
    assert!(r[0][2..].iter().all(|t| *t == 0));
}

#[test]
fn tokenize_batch_rows() {
    let tokenizer = instant_clip_tokenizer::Tokenizer::new();
    let r = tokenize_batch(&vec!["A photo of a duck", "A photo of a cat."], &tokenizer);
    assert_eq!(r.len(), 2);
    assert!(r.iter().all(|row| row.len() == CONTEXT_LENGTH && row[0] == 49406));
    assert_ne!(r[0], r[1]);
    for row in &r {
        let e = row.iter().rposition(|t| *t != 0).unwrap();
        assert!(e > 1);
        assert_eq!(row[e], row[0] + 1);
    }
}

#[test]
fn uuid_bits() {
    let id = UUID::from_u128(0x1234);
    assert_eq!(id.as_u128(), 0x1234);
    assert_eq!(id, UUID(0x1234));
}

#[test]
fn tokenize_long_text_keeps_end_marker() {
    let tokenizer = instant_clip_tokenizer::Tokenizer::new();
    let text = "duck ".repeat(200);
    let r = tokenize(&text, &tokenizer);
    assert_eq!(r[0].len(), CONTEXT_LENGTH);
    assert_eq!(r[0][CONTEXT_LENGTH - 1], r[0][0] + 1);
}
