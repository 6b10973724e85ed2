//! A packet as a stack of headers: each layer puts its header on top when
//! the packet goes down, and reads its header from the top when the packet
//! comes up.

use vstd::prelude::*;

verus! {

#[derive(Debug)]
pub struct Packet<H> {
    /// The headers, the innermost first.
    pub stack: Vec<H>,
    /// The position of the header that is read next, if any is left.
    pub next_header: Option<usize>,
}

impl<H> Packet<H> {
    /// The reading position, where there is one, is that of a header.
    pub open spec fn wf(&self) -> bool {
        match self.next_header {
            Some(k) => k < self.stack@.len(),
            None => true,
        }
    }

    /// The reading position after the header at `at` has been read.
    pub open spec fn below(at: usize) -> Option<usize> {
        if at > 0 {
            Some((at - 1) as usize)
        } else {
            None
        }
    }

    pub fn new_box() -> (r: Box<Self>)
        ensures
            r.stack@.len() == 0,
            r.next_header is None,
    {
        Box::new(Packet { stack: Vec::new(), next_header: None })
    }

    /// A packet that holds `packet` and nothing else.
    pub fn create_and_wrap(packet: H) -> (r: Box<Self>)
        ensures
            r.stack@ == seq![packet],
            r.next_header is None,
    {
        let mut b = Packet { stack: Vec::new(), next_header: None };
        b.add_packet(packet);
        Box::new(b)
    }

    /// Put `packet` on top.
    pub fn add_packet(&mut self, packet: H)
        ensures
            final(self).stack@ == old(self).stack@.push(packet),
            final(self).next_header == old(self).next_header,
    {
        self.stack.push(packet);
    }

    /// Start reading: return the top header and move the reading position
    /// below it. The packet must not be empty.
    pub fn unwrap_first(&mut self) -> (r: &H)
        requires
            old(self).stack@.len() >= 1,
        ensures
            *r == old(self).stack@.last(),
            final(self).stack@ == old(self).stack@,
            final(self).next_header == if old(self).stack@.len() >= 2 {
                Some((old(self).stack@.len() - 2) as usize)
            } else {
                old(self).next_header
            },
    {
        if self.stack.len() >= 2 {
            self.next_header = Some(self.stack.len() - 2);
        }
        &self.stack[self.stack.len() - 1]
    }

    /// The top header. The packet must not be empty.
    pub fn first(&self) -> (r: &H)
        requires
            self.stack@.len() >= 1,
        ensures
            *r == self.stack@.last(),
    {
        &self.stack[self.stack.len() - 1]
    }

    pub fn has_next(&self) -> (r: bool)
        ensures
            r == (self.next_header is Some),
    {
        self.next_header.is_some()
    }

    /// Return the header at the reading position, if one is left, and
    /// move the reading position one header down.
    pub fn unwrap_next(&mut self) -> (r: Option<&H>)
        requires
            old(self).wf(),
        ensures
            final(self).wf(),
            final(self).stack@ == old(self).stack@,
            match old(self).next_header {
                Some(k) => r is Some && *r.unwrap() == old(self).stack@[k as int] && final(self).next_header == Self::below(k),
                None => r is None && final(self).next_header is None,
            },
    {
        match self.next_header {
            None => None,
            Some(next_header) => {
                if next_header > 0 {
                    self.next_header = Some(next_header - 1);
                } else {
                    self.next_header = None;
                }
                Some(&self.stack[next_header])
            },
        }
    }

    /// Whether the packet has a top header that `is_type` accepts.
    pub fn is_first_of_type<F: Fn(&H) -> bool>(&self, is_type: F) -> (r: bool)
        requires
            self.stack@.len() > 0 ==> call_requires(is_type, (&self.stack@.last(),)),
        ensures
            self.stack@.len() == 0 ==> !r,
            self.stack@.len() > 0 ==> call_ensures(is_type, (&self.stack@.last(),), r),
    {
        if self.stack.len() == 0 {
            return false;
        }
        is_type(&self.stack[self.stack.len() - 1])
    }
}

} // verus!
