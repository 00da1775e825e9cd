use std::ops::{Add, Mul};
use svers::device::is_uart_access;

#[test]
fn main_it_works() {
    assert_eq!(2 + 2, 4);
}

fn dot<N>(v1: &[N], v2: &[N]) -> N
where
    N: Add<Output = N> + Mul<Output = N> + Default + Copy,
{
    let mut total = N::default();
    for i in 0..v1.len() {
        total = total + v1[i] * v2[i];
    }
    total
}

#[test]
fn test_dot() {
    assert_eq!(dot(&[1, 2, 3, 4], &[1, 1, 1, 1]), 10);
}

#[test]
fn uart_window_edges() {
    assert!(is_uart_access(0x1000_0000));
    assert!(is_uart_access(0x1000_00ff));
    assert!(!is_uart_access(0x1000_0100));
    assert!(!is_uart_access(0x0fff_ffff));
}
