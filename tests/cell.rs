use std::sync::Arc;

use arc_cell::packed::{
    add_one_strong, pack_word, ptr_bits, strong_bits, sub_one_strong, with_ptr, with_strong,
    MASK_PTR, MASK_STRONG, ONE_STRONG,
};
use arc_cell::state::{CellState, Op};
use arc_cell::{ArcCell, ArcRef};

fn text(r: &ArcRef<String>) -> String {
    (*r.value()).clone()
}

#[test]
fn pack_word_places_count_high_and_tag_low() {
    let w = pack_word(3, 0xABCD);
    assert_eq!(w, (3u128 << 64) | 0xABCD);
    assert_eq!(strong_bits(w), 3);
    assert_eq!(ptr_bits(w), 0xABCD);
    assert_eq!(w & MASK_STRONG, 3u128 << 64);
    assert_eq!(w & MASK_PTR, 0xABCD);
}

#[test]
fn pack_word_extremes() {
    let w = pack_word(u64::MAX, u64::MAX);
    assert_eq!(w, u128::MAX);
    assert_eq!(strong_bits(w), u64::MAX);
    assert_eq!(ptr_bits(w), u64::MAX);
    assert_eq!(pack_word(0, 0), 0);
    assert_eq!(pack_word(1, 0), ONE_STRONG);
}

#[test]
fn with_ptr_and_with_strong_keep_other_half() {
    let w = pack_word(7, 9);
    assert_eq!(with_ptr(w, 0), pack_word(7, 0));
    assert_eq!(with_ptr(w, 42), pack_word(7, 42));
    assert_eq!(with_strong(w, 1), pack_word(1, 9));
}

#[test]
fn add_one_strong_matches_wide_fetch_add() {
    let w = pack_word(5, 77);
    assert_eq!(add_one_strong(w), w + ONE_STRONG);
    assert_eq!(add_one_strong(pack_word(u64::MAX - 1, 77)), pack_word(u64::MAX, 77));
    assert_eq!(sub_one_strong(w), pack_word(4, 77));
}

#[test]
fn state_replace_three_times_returns_previous_values() {
    let mut s = CellState::new(Arc::new(0u32));
    assert_eq!(s.strong_count(), 1);
    assert_eq!(s.ptr_tag(), 1);
    let r = s.apply(Op::Replace(Arc::new(10)));
    assert_eq!(r.as_deref(), Some(&0));
    let r = s.apply(Op::Replace(Arc::new(20)));
    assert_eq!(r.as_deref(), Some(&10));
    let r = s.apply(Op::Replace(Arc::new(30)));
    assert_eq!(r.as_deref(), Some(&20));
    assert_eq!(s.ptr_tag(), 4);
    let r = s.apply(Op::Release);
    assert_eq!(r.as_deref(), Some(&30));
    assert_eq!(s.strong_count(), 0);
    assert_eq!(s.ptr_tag(), 0);
    assert!(s.apply(Op::Release).is_none());
    assert!(s.apply(Op::Acquire).is_none());
    assert_eq!(s.strong_count(), 0);
}

#[test]
fn state_counts_handles_and_reclaims_at_zero() {
    let mut s = CellState::new(Arc::new("v"));
    for _ in 0..4 {
        assert!(s.apply(Op::Acquire).is_none());
    }
    assert_eq!(s.strong_count(), 5);
    for left in (1..5).rev() {
        assert!(s.apply(Op::Release).is_none());
        assert_eq!(s.strong_count(), left);
    }
    assert_eq!(s.apply(Op::Release).as_deref(), Some(&"v"));
    assert!(s.apply(Op::Acquire).is_none());
    assert_eq!(s.strong_count(), 0);
}

#[test]
fn state_read_returns_installed_value() {
    let mut s = CellState::new(Arc::new(1i64));
    assert_eq!(s.apply(Op::Read).as_deref(), Some(&1));
    s.apply(Op::Replace(Arc::new(2)));
    assert_eq!(s.apply(Op::Read).as_deref(), Some(&2));
    assert_eq!(s.strong_count(), 1);
}

#[test]
fn state_tag_wraps_past_zero() {
    let mut s = CellState { word: pack_word(1, u64::MAX), value: Arc::new(1u8) };
    s.apply(Op::Replace(Arc::new(2)));
    assert_eq!(s.ptr_tag(), 1);
    assert_eq!(s.strong_count(), 1);
}

#[test]
fn cell_set_sequence_returns_previous_values() {
    let c = ArcCell::new(Box::new("init".to_string()));
    let a = c.set(Box::new("A".to_string()));
    assert_eq!(a.as_str(), "init");
    let b = c.set(Box::new("B".to_string()));
    assert_eq!(b.as_str(), "A");
    let d = c.set(Box::new("C".to_string()));
    assert_eq!(d.as_str(), "B");
    let last = c.release();
    assert_eq!(last.as_deref().map(|s| s.as_str()), Some("C"));
}

#[test]
fn cell_clone_drop_pairs_restore_count() {
    let c = ArcCell::new(Box::new(5u32));
    for _ in 0..8 {
        let h = c.clone();
        assert_eq!(c.strong_count(), 2);
        assert!(h.release().is_none());
        assert_eq!(c.strong_count(), 1);
    }
    assert_eq!(c.release().as_deref(), Some(&5));
}

#[test]
fn cell_reclaims_once_when_last_handle_goes() {
    let c = ArcCell::new(Box::new(9u32));
    let handles: Vec<ArcCell<u32>> = (0..6).map(|_| c.clone()).collect();
    assert_eq!(c.strong_count(), 7);
    let mut reclaimed = 0;
    for h in handles {
        if h.release().is_some() {
            reclaimed += 1;
        }
    }
    assert_eq!(reclaimed, 0);
    assert_eq!(c.strong_count(), 1);
    assert_eq!(c.release().as_deref(), Some(&9));
}

#[test]
fn guard_keeps_value_across_set() {
    let c = ArcCell::new(Box::new("Something horrible".to_string()));
    let g = c.get();
    assert_eq!(c.strong_count(), 2);
    let old = c.set(Box::new("Some other value".to_string()));
    assert_eq!(old.as_str(), "Something horrible");
    assert_eq!(text(&g), "Something horrible");
    assert_eq!(text(&c.get()), "Some other value");
}

#[test]
fn guard_holds_off_reclamation() {
    let c = ArcCell::new(Box::new(3u8));
    let g = c.get();
    assert!(c.release().is_none());
    assert_eq!(*g.value(), 3);
    assert_eq!(g.release().as_deref(), Some(&3));
}

fn shareable<X: Send + Sync>() {}

#[test]
fn handles_and_guards_cross_threads() {
    shareable::<ArcCell<String>>();
    shareable::<ArcRef<String>>();
}

#[test]
fn state_borrow_counts_and_reads_in_one_step() {
    let mut s = CellState::new(Arc::new('x'));
    assert_eq!(s.apply(Op::Borrow).as_deref(), Some(&'x'));
    assert_eq!(s.strong_count(), 2);
    assert_eq!(s.apply(Op::Release), None);
    assert_eq!(s.apply(Op::Release).as_deref(), Some(&'x'));
    assert_eq!(s.apply(Op::Borrow).as_deref(), Some(&'x'));
    assert_eq!(s.strong_count(), 0);
}

#[test]
fn state_count_stops_at_its_maximum() {
    let mut s = CellState { word: pack_word(u64::MAX, 3), value: Arc::new(0u8) };
    assert!(s.apply(Op::Acquire).is_none());
    assert_eq!(s.strong_count(), u64::MAX);
    assert_eq!(s.apply(Op::Borrow).as_deref(), Some(&0));
    assert_eq!(s.strong_count(), u64::MAX);
    assert_eq!(s.ptr_tag(), 3);
}
