use synarion::{LinearAllocator, PoolAllocator, StackAllocator};

#[test]
fn linear_allocator_remaining_is_capacity() {
    let mut a = LinearAllocator::new(64);
    assert_eq!(a.remaining(), 64);
    a.reset();
    assert_eq!(a.remaining(), 64);
    assert_eq!(LinearAllocator::new(0).remaining(), 0);
}

#[test]
fn linear_allocator_default_is_one_mebibyte() {
    assert_eq!(LinearAllocator::default().remaining(), 1024 * 1024);
}

#[test]
fn pool_allocator_block_size_reads_back() {
    assert_eq!(PoolAllocator::new(32).block_size(), 32);
    assert_eq!(PoolAllocator::new(0).block_size(), 0);
}

#[test]
fn stack_allocator_scopes_nest() {
    let mut a = StackAllocator::new(16);
    a.pop_scope();
    a.push_scope();
    a.push_scope();
    a.pop_scope();
    a.pop_scope();
    a.pop_scope();
}
