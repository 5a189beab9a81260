use clipcat_client::entry::ClipEntry;
use clipcat_client::error::{GetClipError, GetCurrentClipError};
use clipcat_client::manager::Manager;
use clipcat_client::memory::MemoryManager;
use clipcat_client::mode::ClipboardMode;

fn ids_of(list: &[ClipEntry]) -> Vec<u64> {
    list.iter().map(|e| e.id).collect()
}

#[test]
fn insert_get_mark_remove_scenario() {
    let mut m = MemoryManager::new();
    let id = m.insert(b"hello", "text/plain", ClipboardMode::Clipboard).unwrap();
    let e = m.get(id).unwrap();
    assert_eq!(e.id, id);
    assert_eq!(e.data, b"hello".to_vec());
    assert_eq!(e.mime, "text/plain");
    assert!(m.mark(id, ClipboardMode::Selection).unwrap());
    assert_eq!(m.get_current_clip(ClipboardMode::Selection).unwrap().id, id);
    assert!(m.remove(id).unwrap());
    assert!(matches!(m.get(id), Err(GetClipError::Empty)));
}

#[test]
fn insert_then_get_returns_payload() {
    let mut m = MemoryManager::new();
    let a = m.insert(b"", "application/octet-stream", ClipboardMode::Selection).unwrap();
    let b = m.insert(&[0, 255, 7], "image/png", ClipboardMode::Clipboard).unwrap();
    assert_ne!(a, b);
    let ea = m.get(a).unwrap();
    assert_eq!(ea.data, Vec::<u8>::new());
    assert_eq!(ea.mime, "application/octet-stream");
    let eb = m.get(b).unwrap();
    assert_eq!(eb.data, vec![0, 255, 7]);
    assert_eq!(eb.mime, "image/png");
}

#[test]
fn list_is_ordered_and_repeatable() {
    let mut m = MemoryManager::new();
    let a = m.insert(b"a", "text/plain", ClipboardMode::Clipboard).unwrap();
    let b = m.insert(b"b", "text/plain", ClipboardMode::Clipboard).unwrap();
    let c = m.insert(b"c", "text/plain", ClipboardMode::Selection).unwrap();
    let first = m.list().unwrap();
    assert_eq!(ids_of(&first), vec![c, b, a]);
    for w in first.windows(2) {
        assert!(w[0].precedes(&w[1]));
    }
    let second = m.list().unwrap();
    assert_eq!(ids_of(&first), ids_of(&second));
    assert!(m.mark(a, ClipboardMode::Clipboard).unwrap());
    assert_eq!(ids_of(&m.list().unwrap()), vec![a, c, b]);
}

#[test]
fn remove_is_true_once() {
    let mut m = MemoryManager::new();
    let id = m.insert(b"x", "text/plain", ClipboardMode::Clipboard).unwrap();
    assert!(!m.remove(id + 100).unwrap());
    assert!(m.remove(id).unwrap());
    assert!(!m.remove(id).unwrap());
    assert_eq!(m.length().unwrap(), 0);
}

#[test]
fn batch_remove_reports_present_ids() {
    let mut m = MemoryManager::new();
    let a = m.insert(b"a", "text/plain", ClipboardMode::Clipboard).unwrap();
    let b = m.insert(b"b", "text/plain", ClipboardMode::Clipboard).unwrap();
    let c = m.insert(b"c", "text/plain", ClipboardMode::Clipboard).unwrap();
    let gone = 1000;
    let removed = m.batch_remove(&[c, gone, a]).unwrap();
    assert_eq!(removed, vec![c, a]);
    assert_eq!(ids_of(&m.list().unwrap()), vec![b]);
    assert_eq!(m.batch_remove(&[a, c]).unwrap(), Vec::<u64>::new());
}

#[test]
fn batch_remove_of_nothing() {
    let mut m = MemoryManager::new();
    m.insert(b"a", "text/plain", ClipboardMode::Clipboard).unwrap();
    assert_eq!(m.batch_remove(&[]).unwrap(), Vec::<u64>::new());
    assert_eq!(m.length().unwrap(), 1);
}

#[test]
fn clear_empties_history() {
    let mut m = MemoryManager::new();
    m.insert(b"a", "text/plain", ClipboardMode::Clipboard).unwrap();
    m.insert(b"b", "text/plain", ClipboardMode::Selection).unwrap();
    assert_eq!(m.length().unwrap(), 2);
    m.clear().unwrap();
    assert_eq!(m.length().unwrap(), 0);
    assert!(m.list().unwrap().is_empty());
    assert!(matches!(m.get_current_clip(ClipboardMode::Clipboard), Err(GetCurrentClipError::Empty)));
}

#[test]
fn insert_clipboard_and_primary_pick_buffers() {
    let mut m = MemoryManager::new();
    let c = m.insert_clipboard(b"c", "text/plain").unwrap();
    let p = m.insert_primary(b"p", "text/html").unwrap();
    assert_eq!(m.get_current_clip(ClipboardMode::Clipboard).unwrap().id, c);
    let sel = m.get_current_clip(ClipboardMode::Selection).unwrap();
    assert_eq!(sel.id, p);
    assert_eq!(sel.data, b"p".to_vec());
    assert_eq!(sel.mime, "text/html");
}

#[test]
fn current_clip_of_empty_buffer_is_empty() {
    let mut m = MemoryManager::new();
    assert!(matches!(m.get_current_clip(ClipboardMode::Selection), Err(GetCurrentClipError::Empty)));
    m.insert(b"a", "text/plain", ClipboardMode::Clipboard).unwrap();
    assert!(matches!(m.get_current_clip(ClipboardMode::Selection), Err(GetCurrentClipError::Empty)));
}

#[test]
fn removing_current_entry_empties_buffer() {
    let mut m = MemoryManager::new();
    let id = m.insert(b"a", "text/plain", ClipboardMode::Clipboard).unwrap();
    assert!(m.remove(id).unwrap());
    assert!(matches!(m.get_current_clip(ClipboardMode::Clipboard), Err(GetCurrentClipError::Empty)));
}

#[test]
fn mark_unknown_id_is_false() {
    let mut m = MemoryManager::new();
    assert!(!m.mark(42, ClipboardMode::Clipboard).unwrap());
    assert!(matches!(m.get_current_clip(ClipboardMode::Clipboard), Err(GetCurrentClipError::Empty)));
}

#[test]
fn update_keeps_id_of_stored_entry() {
    let mut m = MemoryManager::new();
    let id = m.insert(b"old", "text/plain", ClipboardMode::Clipboard).unwrap();
    let (same, new_id) = m.update(id, b"new", "text/html").unwrap();
    assert!(same);
    assert_eq!(new_id, id);
    let e = m.get(id).unwrap();
    assert_eq!(e.data, b"new".to_vec());
    assert_eq!(e.mime, "text/html");
    assert_eq!(m.length().unwrap(), 1);
    assert_eq!(m.get_current_clip(ClipboardMode::Clipboard).unwrap().data, b"new".to_vec());
}

#[test]
fn update_of_unknown_id_stores_new_entry() {
    let mut m = MemoryManager::new();
    let id = m.insert(b"a", "text/plain", ClipboardMode::Clipboard).unwrap();
    let (same, new_id) = m.update(id + 50, b"b", "text/plain").unwrap();
    assert!(!same);
    assert_ne!(new_id, id);
    assert_eq!(m.get(new_id).unwrap().data, b"b".to_vec());
    assert_eq!(m.length().unwrap(), 2);
}
