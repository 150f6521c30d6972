use sysinfo_core::limits::FileCounter;
use sysinfo_core::limits::FileLimit;

#[test]
fn budget_of_two_admits_two_guards() {
    let mut limit = FileLimit::new(2);
    let g1 = FileCounter::new("first handle", &mut limit);
    let g2 = FileCounter::new("second handle", &mut limit);
    let g3 = FileCounter::new("third handle", &mut limit);
    assert!(g1.is_some());
    assert!(g2.is_some());
    assert!(g3.is_none());
    assert_eq!(limit.remaining(), 0);

    // releasing one slot lets a fourth acquisition through
    let handle = g1.unwrap().release(&mut limit);
    assert_eq!(handle, "first handle");
    assert_eq!(limit.remaining(), 1);
    let g4 = FileCounter::new("fourth handle", &mut limit);
    assert!(g4.is_some());
    assert_eq!(limit.remaining(), 0);
}

#[test]
fn zero_budget_rejects_immediately() {
    let mut limit = FileLimit::new(0);
    assert!(FileCounter::new(1u32, &mut limit).is_none());
    assert_eq!(limit.remaining(), 0);
}

#[test]
fn guard_keeps_its_handle() {
    let mut limit = FileLimit::new(1);
    let g = FileCounter::new(vec![1u8, 2, 3], &mut limit).unwrap();
    assert_eq!(g.handle, vec![1u8, 2, 3]);
    assert_eq!(g.release(&mut limit), vec![1u8, 2, 3]);
    assert_eq!(limit.remaining(), 1);
}
