use vstd::prelude::*;

verus! {

/// A run of consecutive I/O ports, `start ..= end`.
pub struct PortRange {
    start: u16,
    end: u16,
}

/// A byte to send to an I/O port.
#[derive(Copy, Clone, PartialEq, Eq, Structural, Debug)]
pub struct PortWrite {
    pub port: u16,
    pub value: u8,
}

impl PortRange {
    /// First port of the run.
    pub closed spec fn first(&self) -> u16 {
        self.start
    }

    /// Last port of the run.
    pub closed spec fn last(&self) -> u16 {
        self.end
    }

    pub fn new(start: u16, end: u16) -> (r: Self)
        ensures
            r.first() == start,
            r.last() == end,
    {
        PortRange { start, end }
    }

    /// Port `index` of the run; the run must reach that far.
    pub fn get(&self, index: u16) -> (r: u16)
        requires
            self.first() <= self.last(),
            index <= self.last() - self.first(),
        ensures
            r == self.first() + index,
    {
        self.start + index
    }
}

} // verus!
