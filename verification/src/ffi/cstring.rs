use vstd::prelude::*;

use super::cstr::{is_c_string, CStr};

verus! {

/// An owned C string: bytes without a zero, followed by a terminating zero.
pub struct CString {
    bytes: Vec<u8>,
}

/// The bytes given for a C string hold a zero, first at this position.
#[derive(Clone, Copy, Debug, PartialEq, Eq, Structural)]
pub struct NulError(pub usize);

impl CString {
    pub closed spec fn view(&self) -> Seq<u8> {
        self.bytes@
    }

    #[verifier::type_invariant]
    closed spec fn inv(&self) -> bool {
        is_c_string(self.bytes@)
    }

    /// The C string of `t` and a terminating zero; fails, naming the first
    /// zero, when `t` holds a zero.
    pub fn new(t: Vec<u8>) -> (r: Result<CString, NulError>)
        ensures
            match r {
                Ok(s) => (forall|i: int| 0 <= i < t@.len() ==> t@[i] != 0) && s@ == t@.push(0),
                Err(NulError(pos)) => pos < t@.len() && t@[pos as int] == 0 && forall|i: int|
                    0 <= i < pos ==> t@[i] != 0,
            },
    {
        let mut bytes = t;
        let mut i: usize = 0;
        while i < bytes.len()
            invariant
                i <= bytes@.len(),
                bytes@ == t@,
                forall|k: int| 0 <= k < i ==> bytes@[k] != 0,
            decreases bytes@.len() - i,
        {
            if bytes[i] == 0 {
                return Err(NulError(i));
            }
            i = i + 1;
        }
        bytes.push(0);
        Ok(CString { bytes })
    }

    /// All its bytes, the terminating zero included.
    pub fn as_bytes_with_nul(&self) -> (r: &[u8])
        ensures
            r@ == self@,
            is_c_string(r@),
    {
        proof {
            use_type_invariant(self);
        }
        self.bytes.as_slice()
    }

    /// The string as a borrowed-style C string.
    pub fn as_cstr(&self) -> (r: CStr)
        ensures
            r@ == self@,
    {
        proof {
            use_type_invariant(self);
        }
        CStr::from_bytes_with_nul(self.bytes.clone())
    }

    /// An owned copy of a C string.
    pub fn from_cstr(s: &CStr) -> (r: CString)
        ensures
            r@ == s@,
    {
        let b = s.to_bytes_with_nul();
        let bytes = vstd::slice::slice_to_vec(b);
        CString { bytes }
    }
}

} // verus!
