use postflop_pipeline::mutex_like::MutexLike;

#[test]
fn new_holds_the_value() {
    let cell = MutexLike::new(7);
    assert_eq!(*cell.read(), 7);
    assert_eq!(cell.into_inner(), 7);
}

#[test]
fn write_through_the_guard_is_seen_by_the_next_lock() {
    let mut mutex_like = MutexLike::new(0);
    *mutex_like.lock() = 10;
    assert_eq!(*mutex_like.lock(), 10);
    assert_eq!(*mutex_like.read(), 10);
}

#[test]
fn guard_reads_and_writes_as_the_value_does() {
    let mut cell = MutexLike::new(String::from("before"));
    {
        let mut guard = cell.lock();
        assert_eq!(guard.len(), 6);
        assert_eq!(*guard, "before");
        guard.push_str(" and after");
        assert_eq!(*guard, "before and after");
        *guard = String::from("after");
    }
    assert_eq!(cell.read(), "after");
    assert_eq!(cell.into_inner(), "after");
}

#[test]
fn guard_field_is_the_value() {
    let mut cell = MutexLike::new(vec![1, 2, 3]);
    cell.lock().data.push(4);
    assert_eq!(*cell.lock().data, vec![1, 2, 3, 4]);
}

#[test]
fn default_holds_the_default_value() {
    let cell: MutexLike<u32> = Default::default();
    assert_eq!(*cell.read(), 0);
    let text: MutexLike<String> = MutexLike::default();
    assert_eq!(text.into_inner(), String::new());
}
