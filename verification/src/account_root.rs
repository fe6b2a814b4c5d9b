use vstd::prelude::*;
use vstd::string::*;

verus! {

/// A byte of lowercase hexadecimal: `0`..`9` or `a`..`f`.
pub open spec fn is_lower_hex_byte(b: u8) -> bool {
    (0x30 <= b <= 0x39) || (0x61 <= b <= 0x66)
}

/// The shape of an account root public key, as bytes: a SEC1 point in lowercase hex, that is
/// the prefix `02`, `03` or `04` followed by 64 to 128 lowercase hex digits.
pub open spec fn account_root_bytes(b: Seq<u8>) -> bool {
    &&& 66 <= b.len() <= 130
    &&& b[0] == 0x30u8
    &&& 0x32 <= b[1] <= 0x34
    &&& forall|i: int| 2 <= i < b.len() ==> is_lower_hex_byte(#[trigger] b[i])
}

/// Whether `root` has the shape of an account root public key: a SEC1 point in lowercase
/// hex, compressed or uncompressed.
pub fn is_account_root(root: &str) -> (r: bool)
    ensures
        r == account_root_bytes(root.spec_bytes()),
{
    let bytes = root.as_bytes();
    let n = bytes.len();
    if n < 66 || n > 130 {
        return false;
    }
    if bytes[0] != 0x30u8 || bytes[1] < 0x32u8 || bytes[1] > 0x34u8 {
        return false;
    }
    let mut i: usize = 2;
    while i < n
        invariant
            2 <= i <= n,
            n == bytes@.len(),
            bytes@ == root.spec_bytes(),
            forall|j: int| 2 <= j < i ==> is_lower_hex_byte(#[trigger] bytes@[j]),
        decreases n - i,
    {
        let b = bytes[i];
        if !((0x30u8 <= b && b <= 0x39u8) || (0x61u8 <= b && b <= 0x66u8)) {
            return false;
        }
        i = i + 1;
    }
    true
}

} // verus!
