use file_store::limit::Limited;

#[test]
fn test_pool_bounds_outstanding_guards() {
    let mut pool: Limited<String> = Limited::new("conn".to_owned(), 2);
    let g1 = pool.try_take().unwrap();
    let g2 = pool.try_take().unwrap();
    assert_eq!(g1.get(), "conn");
    assert_eq!(g2.get(), "conn");
    // The capacity is exhausted: a third taker must wait.
    assert!(pool.try_take().is_none());
    pool.release(g1);
    let g3 = pool.try_take().unwrap();
    assert_eq!(g3.get(), "conn");
    assert!(pool.try_take().is_none());
    pool.release(g2);
    pool.release(g3);
    // All permits back: two takers fit again.
    let a = pool.try_take().unwrap();
    let b = pool.try_take().unwrap();
    pool.release(a);
    pool.release(b);
}

#[test]
fn test_guard_owns_its_own_clone() {
    let mut pool: Limited<Vec<u8>> = Limited::new(vec![1, 2], 1);
    let mut g = pool.try_take().unwrap();
    g.get_mut().push(3);
    assert_eq!(g.get(), &vec![1, 2, 3]);
    pool.release(g);
    // The template is untouched by what a guard did to its clone.
    let g2 = pool.try_take().unwrap();
    assert_eq!(g2.get(), &vec![1, 2]);
    pool.release(g2);
}

#[test]
fn test_zero_capacity_pool() {
    let mut pool: Limited<u8> = Limited::new(0, 0);
    assert!(pool.try_take().is_none());
}
