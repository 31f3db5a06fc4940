use vstd::prelude::*;

verus! {

/// Wraps any value in `Some`.
pub trait ToSome: Sized {
    fn some(self) -> (r: Option<Self>)
        ensures
            r == Some(self),
    ;
}

impl<T> ToSome for T {
    fn some(self) -> (r: Option<T>) {
        Some(self)
    }
}

/// Hands out a running number used to tell log lines of different tasks
/// apart: returns the counter and advances it by one, wrapping around.
pub fn next_thread_id(counter: &mut usize) -> (id: usize)
    ensures
        id == *old(counter),
        *final(counter) == (if *old(counter) == usize::MAX {
            0
        } else {
            *old(counter) + 1
        }),
{
    let id = *counter;
    *counter = counter.wrapping_add(1);
    id
}

} // verus!
