use arrow_buffer::Buffer;
use miniextendr_api::r_buffers::RBuffers;
use miniextendr_api::sexp::{Sexp, SEXPTYPE};

#[test]
fn unregistered_exact_capacity_buffer_is_not_recovered() {
    let buffer = Buffer::from(vec![0u8; 8]);
    assert_eq!(buffer.ptr_offset(), 0);
    assert_eq!(buffer.capacity(), 8);
    assert!(RBuffers::default().lookup(&buffer, SEXPTYPE::REALSXP, 1).is_none());
}

#[test]
fn registrations_follow_independent_owners_and_reject_changed_views() {
    let buffer = Buffer::from(vec![0u8; 16]);
    let key = buffer.as_ptr().addr();
    // A sentinel object is enough: ownership lookup never reads it.
    let source = Sexp::nil();
    let mut state = RBuffers::default();
    state.register(key, Sexp::nil(), SEXPTYPE::REALSXP, 2);
    state.register(key, Sexp::nil(), SEXPTYPE::REALSXP, 2);
    assert_eq!(state.lookup(&buffer.clone(), SEXPTYPE::REALSXP, 2), Some(&source));
    assert!(state.lookup(&buffer, SEXPTYPE::INTSXP, 2).is_none());
    assert!(state
        .lookup(&buffer.slice_with_length(0, 8), SEXPTYPE::REALSXP, 1)
        .is_none());
    assert!(state.lookup(&buffer.slice(8), SEXPTYPE::REALSXP, 1).is_none());
    state.unregister(key);
    assert_eq!(state.lookup(&buffer, SEXPTYPE::REALSXP, 2), Some(&source));
    state.unregister(key);
    assert!(state.lookup(&buffer, SEXPTYPE::REALSXP, 2).is_none());
}

#[test]
fn lookup_key_needs_complete_nonempty_view_of_same_type_and_length() {
    let mut state = RBuffers::new();
    state.register(64, Sexp::integer(vec![1, 2, 3]), SEXPTYPE::INTSXP, 3);
    assert_eq!(
        state.lookup_key(64, 0, SEXPTYPE::INTSXP, 3),
        Some(&Sexp::integer(vec![1, 2, 3]))
    );
    assert!(state.lookup_key(64, 4, SEXPTYPE::INTSXP, 3).is_none());
    assert!(state.lookup_key(64, 0, SEXPTYPE::INTSXP, 2).is_none());
    assert!(state.lookup_key(64, 0, SEXPTYPE::REALSXP, 3).is_none());
    assert!(state.lookup_key(64, 0, SEXPTYPE::INTSXP, 0).is_none());
    assert!(state.lookup_key(72, 0, SEXPTYPE::INTSXP, 3).is_none());
}

#[test]
fn second_registration_keeps_the_first_record() {
    let mut state = RBuffers::new();
    state.register(8, Sexp::integer(vec![7]), SEXPTYPE::INTSXP, 1);
    state.register(8, Sexp::nil(), SEXPTYPE::REALSXP, 5);
    assert_eq!(
        state.lookup_key(8, 0, SEXPTYPE::INTSXP, 1),
        Some(&Sexp::integer(vec![7]))
    );
    assert!(state.lookup_key(8, 0, SEXPTYPE::REALSXP, 5).is_none());
}

#[test]
fn register_source_skips_altrep_and_records_length() {
    let mut state = RBuffers::new();
    assert_eq!(
        state.register_source(Sexp::integer(vec![1, 2]), true, 16, SEXPTYPE::INTSXP),
        None
    );
    assert!(state.lookup_key(16, 0, SEXPTYPE::INTSXP, 2).is_none());
    assert_eq!(
        state.register_source(Sexp::integer(vec![1, 2]), false, 16, SEXPTYPE::INTSXP),
        Some(16)
    );
    assert_eq!(
        state.lookup_key(16, 0, SEXPTYPE::INTSXP, 2),
        Some(&Sexp::integer(vec![1, 2]))
    );
}

#[test]
fn release_owner_off_main_thread_queues_until_taken() {
    let mut state = RBuffers::new();
    state.register(32, Sexp::raw(vec![1]), SEXPTYPE::RAWSXP, 1);
    assert_eq!(state.release_owner(Some(32), Sexp::raw(vec![1]), false), None);
    assert!(state.lookup_key(32, 0, SEXPTYPE::RAWSXP, 1).is_none());
    assert_eq!(
        state.release_owner(None, Sexp::raw(vec![2]), true),
        Some(Sexp::raw(vec![2]))
    );
    let pending = state.take_pending();
    assert_eq!(pending, vec![Sexp::raw(vec![1])]);
    assert!(state.take_pending().is_empty());
}
