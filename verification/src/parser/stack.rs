//! A stack of fixed capacity for the end offsets of the open containers.

use vstd::prelude::*;

verus! {

/// The number of frames that a [`FixedStack`] can hold.
pub const MAX_DEPTH: usize = 10;

/// The end offsets of the constructed tokens that are currently open,
/// outermost first.  It never allocates and never holds more than
/// [`MAX_DEPTH`] frames.
#[derive(Debug, Clone, Copy)]
pub struct FixedStack {
    data: [usize; 10],
    i: Option<u8>,
}

impl View for FixedStack {
    type V = Seq<usize>;

    /// The frames, outermost first.
    closed spec fn view(&self) -> Seq<usize> {
        match self.i {
            Some(top) => self.data@.take(top + 1),
            None => Seq::empty(),
        }
    }
}

impl FixedStack {
    #[verifier::type_invariant]
    spec fn in_bounds(&self) -> bool {
        match self.i {
            Some(top) => top < MAX_DEPTH,
            None => true,
        }
    }

    /// An empty stack.
    pub fn new() -> (stack: FixedStack)
        ensures
            stack@ == Seq::<usize>::empty(),
    {
        FixedStack { data: [0; 10], i: None }
    }

    /// The number of open frames.
    pub fn depth(&self) -> (depth: u8)
        ensures
            depth == self@.len(),
            depth <= MAX_DEPTH,
    {
        proof {
            use_type_invariant(self);
        }
        match self.i {
            Some(n) => n + 1,
            None => 0,
        }
    }

    /// The innermost frame, if any is open.
    pub fn peek(&self) -> (top: Option<usize>)
        ensures
            top == if self@.len() > 0 {
                Some(self@.last())
            } else {
                None
            },
    {
        proof {
            use_type_invariant(self);
        }
        match self.i {
            Some(i) => Some(self.data[i as usize]),
            _ => None,
        }
    }

    /// Closes the innermost frame.  An empty stack stays empty.
    pub fn discard(&mut self)
        ensures
            final(self)@ == if old(self)@.len() > 0 {
                old(self)@.drop_last()
            } else {
                old(self)@
            },
    {
        proof {
            use_type_invariant(&*self);
        }
        if let Some(i) = self.i {
            self.i = i.checked_sub(1);
            assert(final(self)@ =~= old(self)@.drop_last());
        }
    }

    /// Opens a frame, unless the stack is full: then the stack stays as it
    /// is and the frame is refused.
    pub fn push(&mut self, val: usize) -> (pushed: Result<(), ()>)
        ensures
            old(self)@.len() < MAX_DEPTH ==> pushed is Ok && final(self)@ == old(self)@.push(val),
            old(self)@.len() >= MAX_DEPTH ==> pushed is Err && final(self)@ == old(self)@,
    {
        proof {
            use_type_invariant(&*self);
        }
        let i = match self.i {
            None => Some(0u8),
            Some(i) => i.checked_add(1),
        };

        if let Some(i) = i {
            if i as usize >= self.data.len() {
                return Err(());
            }
            self.data[i as usize] = val;
            self.i = Some(i);
            assert(final(self)@ =~= old(self)@.push(val));
            return Ok(());
        }
        Err(())
    }
}

} // verus!
