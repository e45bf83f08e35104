//! A demonstration routine that exercises ordinary heap-backed containers.

use vstd::prelude::*;

verus! {

/// A singly linked list node, built box by box in `allocate_example`.
#[derive(Debug)]
struct Node {
    value: u32,
    next: Option<Box<Node>>,
}

/// Builds a vector, a few boxed values, an owned string and a small linked
/// list, exercising whatever allocator the surrounding program installed.
#[allow(unused_variables)]
pub fn allocate_example() {
    let mut numbers: Vec<i32> = Vec::new();

    numbers.push(1);
    numbers.push(2);
    numbers.push(3);

    let boxed_value = Box::new(42i32);
    let greeting = "Hello, world!".to_owned();
    let boxed_array = Box::new([10i32, 20, 30, 40, 50]);

    let node3 = Box::new(Node { value: 3, next: None });
    let node2 = Box::new(Node { value: 2, next: Some(node3) });
    let node1 = Box::new(Node { value: 1, next: Some(node2) });
}

} // verus!
