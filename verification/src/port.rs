use vstd::prelude::*;

verus! {

/// An I/O port and the access sizes, in bits, that it allows.
pub struct Port {
    pub port: u16,
    pub read_sizes: Vec<u8>,
    pub write_sizes: Vec<u8>,
}

impl Port {
    /// Whether the port may be read with an access of `size` bits; the size
    /// must fit in a byte.
    pub fn can_read_size(&self, size: usize) -> (r: bool)
        requires
            size < 256,
        ensures
            r == self.read_sizes@.contains(size as u8),
    {
        contains_size(&self.read_sizes, size as u8)
    }

    /// Whether the port may be written with an access of `size` bits; the
    /// size must fit in a byte.
    pub fn can_write_size(&self, size: usize) -> (r: bool)
        requires
            size < 256,
        ensures
            r == self.write_sizes@.contains(size as u8),
    {
        contains_size(&self.write_sizes, size as u8)
    }
}

fn contains_size(sizes: &Vec<u8>, size: u8) -> (r: bool)
    ensures
        r == sizes@.contains(size),
{
    let mut i: usize = 0;
    while i < sizes.len()
        invariant
            i <= sizes@.len(),
            forall|k: int| 0 <= k < i ==> sizes@[k] != size,
        decreases sizes@.len() - i,
    {
        if sizes[i] == size {
            assert(sizes@[i as int] == size);
            return true;
        }
        i = i + 1;
    }
    false
}

/// Builds a [`Port`] by listing the access sizes it allows.
pub struct PortBuilder {
    pub port: Port,
}

impl PortBuilder {
    /// A port that allows no access yet.
    pub fn port(port_num: u16) -> (r: PortBuilder)
        ensures
            r.port.port == port_num,
            r.port.read_sizes@ == Seq::<u8>::empty(),
            r.port.write_sizes@ == Seq::<u8>::empty(),
    {
        PortBuilder { port: Port { port: port_num, read_sizes: Vec::new(), write_sizes: Vec::new() } }
    }

    /// Allows both reads and writes of `size` bits.
    pub fn size(self, size: u8) -> (r: PortBuilder)
        ensures
            r.port.port == self.port.port,
            r.port.read_sizes@ == self.port.read_sizes@.push(size),
            r.port.write_sizes@ == self.port.write_sizes@.push(size),
    {
        self.read_size(size).write_size(size)
    }

    /// Allows reads of `size` bits.
    pub fn read_size(self, size: u8) -> (r: PortBuilder)
        ensures
            r.port.port == self.port.port,
            r.port.read_sizes@ == self.port.read_sizes@.push(size),
            r.port.write_sizes@ == self.port.write_sizes@,
    {
        let mut b = self;
        b.port.read_sizes.push(size);
        b
    }

    /// Allows writes of `size` bits.
    pub fn write_size(self, size: u8) -> (r: PortBuilder)
        ensures
            r.port.port == self.port.port,
            r.port.read_sizes@ == self.port.read_sizes@,
            r.port.write_sizes@ == self.port.write_sizes@.push(size),
    {
        let mut b = self;
        b.port.write_sizes.push(size);
        b
    }

    /// The port that was described.
    pub fn done(self) -> (r: Port)
        ensures
            r.port == self.port.port,
            r.read_sizes@ == self.port.read_sizes@,
            r.write_sizes@ == self.port.write_sizes@,
    {
        self.port
    }
}

} // verus!
