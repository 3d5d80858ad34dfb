use vstd::prelude::*;

use vstd::slice::slice_to_vec;
use vstd::utf8::{decode_utf8, valid_utf8};

verus! {

/// A C string: its bytes up to and including the terminating zero, which
/// is the only zero among them.
pub struct CStr {
    bytes: Vec<u8>,
}

/// Why no C string was found.
#[derive(Clone, Copy, Debug, PartialEq, Eq, Structural)]
pub enum FromPtrErr {
    MaxLenExceeded,
}

/// The bytes are not UTF-8.
#[derive(Clone, Copy, Debug, PartialEq, Eq, Structural)]
pub struct Utf8Error;

/// The bytes of a C string: one terminating zero, and no zero before it.
pub open spec fn is_c_string(b: Seq<u8>) -> bool {
    &&& b.len() >= 1
    &&& b[b.len() - 1] == 0
    &&& forall|i: int| 0 <= i < b.len() - 1 ==> b[i] != 0
}

/// `core::str::from_utf8`: the string that `b` encodes in UTF-8; as its
/// documentation states, it fails exactly when `b` is not valid UTF-8.
#[verifier::external_body]
pub(crate) fn str_from_utf8(b: &[u8]) -> (r: Option<&str>)
    ensures
        r is Some <==> valid_utf8(b@),
        r matches Some(s) ==> s@ == decode_utf8(b@),
{
    core::str::from_utf8(b).ok()
}

impl CStr {
    pub closed spec fn view(&self) -> Seq<u8> {
        self.bytes@
    }

    #[verifier::type_invariant]
    closed spec fn inv(&self) -> bool {
        is_c_string(self.bytes@)
    }

    /// The C string that starts memory `mem`: its bytes up to the first zero
    /// among the first `max_len` bytes.
    pub fn from_ptr(mem: &[u8], max_len: usize) -> (r: Result<CStr, FromPtrErr>)
        requires
            max_len <= mem@.len(),
        ensures
            match r {
                Ok(s) => exists|n: int|
                    0 <= n < max_len && mem@[n] == 0 && (forall|i: int| 0 <= i < n ==> mem@[i] != 0)
                        && s@ == mem@.subrange(0, n + 1),
                Err(e) => e == FromPtrErr::MaxLenExceeded && forall|i: int| 0 <= i < max_len ==> mem@[i] != 0,
            },
    {
        let mut i: usize = 0;
        while i < max_len
            invariant
                i <= max_len <= mem@.len(),
                forall|k: int| 0 <= k < i ==> mem@[k] != 0,
            decreases max_len - i,
        {
            if mem[i] == 0 {
                let bytes = slice_to_vec(&mem[0..i + 1]);
                assert(is_c_string(bytes@));
                return Ok(CStr { bytes });
            }
            i = i + 1;
        }
        Err(FromPtrErr::MaxLenExceeded)
    }

    /// The string without its terminating zero, if it is UTF-8.
    pub fn to_str(&self) -> (r: Result<&str, Utf8Error>)
        ensures
            match r {
                Ok(s) => valid_utf8(self@.drop_last()) && s@ == decode_utf8(self@.drop_last()),
                Err(_) => !valid_utf8(self@.drop_last()),
            },
    {
        proof {
            use_type_invariant(self);
        }
        let n = self.bytes.len() - 1;
        let body = &self.bytes.as_slice()[0..n];
        assert(body@ =~= self@.drop_last());
        match str_from_utf8(body) {
            Some(s) => Ok(s),
            None => Err(Utf8Error),
        }
    }

    /// All its bytes, the terminating zero included.
    pub fn to_bytes_with_nul(&self) -> (r: &[u8])
        ensures
            r@ == self@,
            is_c_string(r@),
    {
        proof {
            use_type_invariant(self);
        }
        self.bytes.as_slice()
    }

    /// A C string of `bytes`, which hold exactly one zero, at the end.
    pub fn from_bytes_with_nul(bytes: Vec<u8>) -> (r: CStr)
        requires
            is_c_string(bytes@),
        ensures
            r@ == bytes@,
    {
        CStr { bytes }
    }
}

impl CStr {
    /// An owned copy of the C string.
    pub fn to_owned(&self) -> (r: crate::ffi::cstring::CString)
        ensures
            r@ == self@,
    {
        crate::ffi::cstring::CString::from_cstr(self)
    }
}

} // verus!
