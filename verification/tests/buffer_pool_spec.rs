use digimorse::buffer_pool::buffer_pool::BufferPool;
use std::sync::{Arc, RwLock};

fn buffer_pool(buffer_size: usize, number_of_buffers: usize) -> BufferPool<RwLock<Vec<f32>>> {
    let buffers = (0..number_of_buffers)
        .map(|_| Arc::new(RwLock::new(vec![0_f32; buffer_size])))
        .collect();
    BufferPool::new(buffers)
}

#[test]
pub fn allocate_first() {
    let mut pool = buffer_pool(16, 4);
    let maybe_allocated = pool.allocate();
    assert!(maybe_allocated.is_some());
    assert_eq!(maybe_allocated.unwrap().0, 0);
}

#[test]
pub fn allocate_second() {
    let mut pool = buffer_pool(16, 4);
    pool.allocate();
    assert_eq!(pool.allocate().unwrap().0, 1);
}

#[test]
pub fn allocate_last() {
    let mut pool = buffer_pool(16, 4);
    pool.allocate();
    pool.allocate();
    pool.allocate();
    assert_eq!(pool.allocate().unwrap().0, 3);
}

#[test]
pub fn allocate_exhaust() {
    let mut pool = buffer_pool(16, 4);
    pool.allocate();
    pool.allocate();
    pool.allocate();
    pool.allocate();
    assert!(pool.allocate().is_none());
}

#[test]
pub fn free_first() {
    let mut pool = buffer_pool(16, 4);
    let tuple = pool.allocate().unwrap();
    assert_eq!(pool.free(tuple.0), true);
}

#[test]
pub fn free_first_then_re_allocate() {
    let mut pool = buffer_pool(16, 4);
    let tuple_1 = pool.allocate().unwrap();
    assert_eq!(tuple_1.0, 0);
    assert_eq!(pool.free(tuple_1.0), true);
    let tuple_2 = pool.allocate().unwrap();
    assert_eq!(tuple_2.0, 0);
    assert_eq!(pool.free(tuple_2.0), true);
}

#[test]
pub fn double_free() {
    let mut pool = buffer_pool(16, 4);
    let tuple_1 = pool.allocate().unwrap();
    assert_eq!(pool.free(tuple_1.0), true);
    assert_eq!(pool.free(tuple_1.0), false);
}

#[test]
pub fn buffers_are_shared_with_the_pool() {
    let mut pool = buffer_pool(16, 2);
    let (index, buffer) = pool.allocate().unwrap();
    buffer.write().unwrap()[3] = 0.5;
    pool.free(index);
    let (again, buffer_again) = pool.allocate().unwrap();
    assert_eq!(again, index);
    assert_eq!(buffer_again.read().unwrap()[3], 0.5);
}
