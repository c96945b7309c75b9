use audio_recorder::handles::{HandleList, Ptr};
use audio_recorder::state::RecordState;

#[test]
fn push_front_returns_ids_that_dereference() {
    let mut list: HandleList<u32> = HandleList::new();
    let a = list.push_front(10).unwrap();
    let b = list.push_front(20).unwrap();
    assert_ne!(a, b);
    assert_eq!(list.get(a), Some(&10));
    assert_eq!(list.get(b), Some(&20));
    assert_eq!(list.front(), Some(b));
    assert_eq!(list.len(), 2);
}

#[test]
fn removing_one_id_keeps_the_others() {
    let mut list: HandleList<&str> = HandleList::new();
    let a = list.push_front("a").unwrap();
    let b = list.push_front("b").unwrap();
    let c = list.push_front("c").unwrap();
    assert_eq!(list.remove_at(b), Some("b"));
    assert_eq!(list.get(a), Some(&"a"));
    assert_eq!(list.get(c), Some(&"c"));
    assert_eq!(list.get(b), None);
    assert_eq!(list.len(), 2);
    assert_eq!(list.front(), Some(c));
}

#[test]
fn removed_id_is_not_reused() {
    let mut list: HandleList<u8> = HandleList::new();
    let a = list.push_front(1).unwrap();
    assert_eq!(list.remove_at(a), Some(1));
    let b = list.push_front(2).unwrap();
    assert_ne!(a, b);
    assert_eq!(list.get(a), None);
    assert_eq!(list.remove_at(a), None);
    assert_eq!(list.get(b), Some(&2));
}

#[test]
fn empty_list_has_no_front() {
    let list: HandleList<u8> = HandleList::new();
    assert_eq!(list.front(), None);
    assert_eq!(list.len(), 0);
    assert_eq!(list.get(Ptr { id: 0 }), None);
}

#[test]
fn push_then_remove_restores_length() {
    let mut list: HandleList<u8> = HandleList::new();
    list.push_front(7).unwrap();
    let before = list.len();
    let p = list.push_front(8).unwrap();
    list.remove_at(p);
    assert_eq!(list.len(), before);
}

#[test]
fn token_of_front_reads_back_to_pushed_handle() {
    let mut list: HandleList<u32> = HandleList::new();
    list.push_front(1).unwrap();
    list.push_front(42).unwrap();
    let p = list.front().unwrap();
    let s = RecordState { is_recording: true, processing_node: p }.to_string();
    let back = RecordState::from_string(&s).unwrap();
    assert!(back.is_recording);
    assert_eq!(back.processing_node, p);
    assert_eq!(list.get(back.processing_node), Some(&42));
}
