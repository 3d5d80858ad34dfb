use vstd::prelude::*;

verus! {

/// Why a character device could not be read.
#[derive(Clone, Copy, Debug, PartialEq, Eq, Structural)]
pub enum ReadErr {
    NotReadable,
    InvalidLen,
    Block,
}

/// Why a character device could not be written.
#[derive(Clone, Copy, Debug, PartialEq, Eq, Structural)]
pub enum WriteErr {
    NotWritable,
}

/// What a failed read of a character device means for the file it is open
/// as.
pub fn read_file_err(e: ReadErr) -> (r: crate::fs::ReadFileErr)
    ensures
        r == match e {
            ReadErr::NotReadable => crate::fs::ReadFileErr::NotReadable,
            ReadErr::InvalidLen => crate::fs::ReadFileErr::InvalidOffsetOrLength,
            ReadErr::Block => crate::fs::ReadFileErr::Block,
        },
{
    match e {
        ReadErr::NotReadable => crate::fs::ReadFileErr::NotReadable,
        ReadErr::InvalidLen => crate::fs::ReadFileErr::InvalidOffsetOrLength,
        ReadErr::Block => crate::fs::ReadFileErr::Block,
    }
}

/// A device that reads and writes a byte at a time.
pub trait CharDevice {
    /// The device is in a state in which it can be used.
    spec fn ready(&self) -> bool;

    /// `len` bytes can be read at once.
    spec fn readable_len(&self, len: usize) -> bool;

    fn read(&mut self) -> (r: Result<u8, ReadErr>)
        requires
            old(self).ready(),
        ensures
            final(self).ready(),
    ;

    fn read_many(&mut self, len: usize) -> (r: Result<Vec<u8>, ReadErr>)
        requires
            old(self).ready(),
            old(self).readable_len(len),
        ensures
            final(self).ready(),
    ;

    fn write(&mut self, byte: u8) -> (r: Result<(), WriteErr>)
        requires
            old(self).ready(),
        ensures
            final(self).ready(),
    ;

    fn write_many(&mut self, bytes: &[u8]) -> (r: Result<(), WriteErr>)
        requires
            old(self).ready(),
        ensures
            final(self).ready(),
    ;
}

} // verus!
