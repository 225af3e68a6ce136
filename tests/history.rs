use terminal_async::history::{History, HISTORY_SIZE_MAX};
use terminal_async::middleware::AsyncMiddlewareVec;
use terminal_async::pause_buffer::PauseBuffer;

fn entries(h: &History) -> Vec<String> {
    h.entries.iter().cloned().collect()
}

#[test]
fn history_is_bounded_and_drops_the_oldest() {
    let mut h = History::new();
    assert_eq!(h.max_size, HISTORY_SIZE_MAX);
    h.set_max_size(3);
    for i in 0..10 {
        h.append(format!("e{}", i));
        assert!(h.entries.len() <= 3);
    }
    assert_eq!(entries(&h), vec!["e7", "e8", "e9"]);
}

#[test]
fn set_max_size_keeps_the_newest() {
    let mut h = History::new();
    for s in ["a", "b", "c", "d"] {
        h.append(s.to_string());
    }
    h.set_max_size(2);
    assert_eq!(entries(&h), vec!["c", "d"]);
    h.set_max_size(0);
    assert_eq!(h.entries.len(), 0);
    h.append("x".to_string());
    assert_eq!(h.entries.len(), 0);
}

#[test]
fn recall_walks_from_the_newest() {
    let mut h = History::new();
    h.append("one".to_string());
    h.append("two".to_string());
    assert_eq!(h.recall_prev(), Some("two".to_string()));
    assert_eq!(h.recall_prev(), Some("one".to_string()));
    assert_eq!(h.recall_prev(), None);
    assert_eq!(h.recall_next(), Some("two".to_string()));
    assert_eq!(h.recall_next(), None);
    assert_eq!(h.cursor, 0);
    h.recall_prev();
    h.reset_cursor();
    assert_eq!(h.cursor, 0);
}

#[test]
fn update_appends_what_came_over_the_channel() {
    let mut h = History::new();
    h.update(Some("x".to_string()));
    h.update(None);
    assert_eq!(entries(&h), vec!["x"]);
}

#[test]
fn pause_buffer_is_fifo() {
    let mut b = PauseBuffer::new();
    assert_eq!(b.pop_front(), None);
    b.push_back(b"1".to_vec());
    b.push_back(b"2".to_vec());
    assert_eq!(b.len(), 2);
    assert_eq!(b.get(1), &b"2".to_vec());
    assert_eq!(b.pop_front(), Some(b"1".to_vec()));
    b.clear();
    assert_eq!(b.len(), 0);
}

#[test]
fn middleware_vec_push_and_clear() {
    let mut v: AsyncMiddlewareVec<u32> = AsyncMiddlewareVec::new();
    v.push(1);
    v.push(2);
    assert_eq!(v.vec, vec![1, 2]);
    v.clear();
    assert!(v.vec.is_empty());
}
