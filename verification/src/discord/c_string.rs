use vstd::prelude::*;
use vstd::utf8::encode_utf8;

verus! {

/// A string that cannot become a C string: it holds a NUL byte.
pub struct NulError {
    /// The index of the first NUL byte.
    pub nul_position: usize,
    /// All the bytes of the string.
    pub bytes: Vec<u8>,
}

/// The bytes of `s` in UTF-8.
pub open spec fn utf8_bytes(s: Seq<char>) -> Seq<u8> {
    encode_utf8(s)
}

/// `b` holds a NUL byte.
pub open spec fn has_nul(b: Seq<u8>) -> bool {
    exists|i: int| 0 <= i < b.len() && b[i] == 0
}

/// `p` is the index of the first NUL byte of `b`.
pub open spec fn is_first_nul(b: Seq<u8>, p: int) -> bool {
    &&& 0 <= p < b.len()
    &&& b[p] == 0
    &&& forall|j: int| 0 <= j < p ==> b[j] != 0
}

/// `e` is the error that the C string conversion of the bytes `b` reports.
pub open spec fn is_nul_error_of(b: Seq<u8>, e: NulError) -> bool {
    &&& e.bytes@ == b
    &&& is_first_nul(b, e.nul_position as int)
}

/// Checks that `s` can be handed to C as a NUL-terminated string, as
/// `CString::new` does: it fails on the first NUL byte.
pub fn check_c_str(s: &str) -> (r: Result<(), NulError>)
    ensures
        r is Ok <==> !has_nul(utf8_bytes(s@)),
        r matches Err(e) ==> is_nul_error_of(utf8_bytes(s@), e),
{
    let b: &[u8] = s.as_bytes();
    let n: usize = b.len();
    let mut i: usize = 0;
    while i < n
        invariant
            n == b@.len(),
            b@ == utf8_bytes(s@),
            i <= n,
            forall|j: int| 0 <= j < i ==> b@[j] != 0,
        decreases n - i,
    {
        if b[i] == 0 {
            let bytes = vstd::slice::slice_to_vec(b);
            return Err(NulError { nul_position: i, bytes });
        }
        i = i + 1;
    }
    Ok(())
}

/// Hands `s` back when it can become a C string, else the error of `check_c_str`.
pub fn to_c_string(s: String) -> (r: Result<String, NulError>)
    ensures
        r is Ok <==> !has_nul(utf8_bytes(s@)),
        r matches Ok(t) ==> t == s,
        r matches Err(e) ==> is_nul_error_of(utf8_bytes(s@), e),
{
    match check_c_str(s.as_str()) {
        Ok(()) => Ok(s),
        Err(e) => Err(e),
    }
}

/// Bytes hold a NUL byte exactly when they have a first one, and the first
/// one is unique: the error of a C string conversion is determined by the bytes.
pub proof fn lemma_first_nul_unique(b: Seq<u8>, p: int, q: int)
    ensures
        is_first_nul(b, p) && is_first_nul(b, q) ==> p == q,
        is_first_nul(b, p) ==> has_nul(b),
        has_nul(b) ==> exists|k: int| is_first_nul(b, k),
{
    if has_nul(b) {
        let w = choose|i: int| 0 <= i < b.len() && b[i] == 0;
        lemma_first_nul_below(b, w);
    }
}

proof fn lemma_first_nul_below(b: Seq<u8>, w: int)
    requires
        0 <= w < b.len(),
        b[w] == 0,
    ensures
        exists|k: int| is_first_nul(b, k),
    decreases w,
{
    if forall|j: int| 0 <= j < w ==> b[j] != 0 {
        assert(is_first_nul(b, w));
    } else {
        let v = choose|j: int| 0 <= j < w && b[j] == 0;
        lemma_first_nul_below(b, v);
    }
}

} // verus!
