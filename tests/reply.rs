use clipcat_client::entry::{sort_entries, ClipEntry};
use clipcat_client::error::{
    BatchRemoveClipError, ClearClipError, GetClipError, GetCurrentClipError, GetLengthError,
    InsertClipError, ListClipError, MarkClipError, RemoveClipError, UpdateClipError,
};
use clipcat_client::mode::ClipboardMode;
use clipcat_client::reply::{
    batch_remove_reply, clear_reply, get_current_clip_reply, get_reply, insert_reply,
    length_reply, list_reply, mark_reply, remove_reply, update_reply,
};

fn entry(id: u64, stamp: u64) -> ClipEntry {
    ClipEntry::new(id, vec![id as u8], "text/plain".to_string(), stamp)
}

fn down() -> tonic::Status {
    tonic::Status::unavailable("daemon down")
}

#[test]
fn get_reply_cases() {
    let e = get_reply(7, Ok(Some(entry(7, 1)))).unwrap();
    assert_eq!(e.id, 7);
    assert_eq!(e.data, vec![7]);
    assert!(matches!(get_reply(7, Ok(None)), Err(GetClipError::Empty)));
    match get_reply(7, Err(down())) {
        Err(GetClipError::Status { source, id }) => {
            assert_eq!(id, 7);
            assert_eq!(source.code(), tonic::Code::Unavailable);
        }
        other => panic!("unexpected {:?}", other),
    }
}

#[test]
fn get_current_clip_reply_cases() {
    let e = get_current_clip_reply(ClipboardMode::Selection, Ok(Some(entry(3, 1)))).unwrap();
    assert_eq!(e.id, 3);
    assert!(matches!(
        get_current_clip_reply(ClipboardMode::Selection, Ok(None)),
        Err(GetCurrentClipError::Empty)
    ));
    assert!(matches!(
        get_current_clip_reply(ClipboardMode::Selection, Err(down())),
        Err(GetCurrentClipError::Status { mode: ClipboardMode::Selection, .. })
    ));
}

#[test]
fn simple_reply_cases() {
    assert_eq!(update_reply(Ok((false, 9))).unwrap(), (false, 9));
    assert!(matches!(update_reply(Err(down())), Err(UpdateClipError::Status { .. })));
    assert!(mark_reply(4, ClipboardMode::Clipboard, Ok(true)).unwrap());
    assert!(matches!(
        mark_reply(4, ClipboardMode::Clipboard, Err(down())),
        Err(MarkClipError::Status { id: 4, mode: ClipboardMode::Clipboard, .. })
    ));
    assert_eq!(insert_reply(Ok(12)).unwrap(), 12);
    assert!(matches!(insert_reply(Err(down())), Err(InsertClipError::Status { .. })));
    assert!(!remove_reply(Ok(false)).unwrap());
    assert!(matches!(remove_reply(Err(down())), Err(RemoveClipError::Status { .. })));
    assert_eq!(batch_remove_reply(Ok(vec![1, 3])).unwrap(), vec![1, 3]);
    assert!(matches!(batch_remove_reply(Err(down())), Err(BatchRemoveClipError::Status { .. })));
    assert!(clear_reply(Ok(())).is_ok());
    assert!(matches!(clear_reply(Err(down())), Err(ClearClipError::Status { .. })));
}

#[test]
fn length_reply_coerces_invalid_counts_to_zero() {
    assert_eq!(length_reply(Ok(5)).unwrap(), 5);
    assert_eq!(length_reply(Ok(0)).unwrap(), 0);
    assert_eq!(length_reply(Ok(-1)).unwrap(), 0);
    assert_eq!(length_reply(Ok(i64::MIN)).unwrap(), 0);
    assert_eq!(length_reply(Ok(i64::MAX)).unwrap(), i64::MAX as usize);
    assert!(matches!(length_reply(Err(down())), Err(GetLengthError::Status { .. })));
}

#[test]
fn list_reply_sorts_entries() {
    let got = list_reply(Ok(vec![entry(1, 10), entry(2, 30), entry(3, 20), entry(4, 30)])).unwrap();
    let ids: Vec<u64> = got.iter().map(|e| e.id).collect();
    assert_eq!(ids, vec![2, 4, 3, 1]);
    assert!(list_reply(Ok(vec![])).unwrap().is_empty());
    assert!(matches!(list_reply(Err(down())), Err(ListClipError::Status { .. })));
}

#[test]
fn sort_entries_keeps_every_entry() {
    let sorted = sort_entries(vec![entry(5, 1), entry(6, 1), entry(7, 2)]);
    let ids: Vec<u64> = sorted.iter().map(|e| e.id).collect();
    assert_eq!(ids, vec![7, 5, 6]);
}

#[test]
fn duplicate_copies_entry() {
    let e = entry(9, 4);
    let d = e.duplicate();
    assert_eq!((d.id, d.data.clone(), d.mime.clone(), d.timestamp), (9, vec![9], "text/plain".to_string(), 4));
}

#[test]
fn mode_codes_round_trip() {
    assert_eq!(ClipboardMode::Clipboard.code(), 0);
    assert_eq!(ClipboardMode::Selection.code(), 1);
    assert_eq!(ClipboardMode::from_code(0), Some(ClipboardMode::Clipboard));
    assert_eq!(ClipboardMode::from_code(1), Some(ClipboardMode::Selection));
    assert_eq!(ClipboardMode::from_code(2), None);
    assert_eq!(ClipboardMode::from_code(-1), None);
}
