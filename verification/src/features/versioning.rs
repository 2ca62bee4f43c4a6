use vstd::prelude::*;
use vstd::utf8::{decode_utf8, valid_utf8};

verus! {

/// Signature of the instruction that loads the address of the game's version strings.
pub const VERSION_SIG: &'static str = "48 8D 2D ?? ?? ?? ?? 48 85 C0 0F 84 70 01 00 00";

/// Offsets that lead from the signature's match to the version strings.
pub const VERSION_OFFSETS: [usize; 2] = [3, 7];

/// Size of each version string buffer; the version, raw version and online version follow each
/// other.
pub const VERSION_SIZE: usize = 32;

/// What `String::from_utf8_lossy` makes of `bytes`.
pub uninterp spec fn utf8_lossy(bytes: Seq<u8>) -> Seq<char>;

/// `String::from_utf8_lossy(bytes)`, owned. Claims: the result is `utf8_lossy(bytes)`, and valid
/// UTF-8 is decoded as it stands (the documentation: invalid sequences are replaced, nothing else
/// changes).
#[verifier::external_body]
fn from_utf8_lossy(bytes: &[u8]) -> (res: String)
    ensures
        res@ == utf8_lossy(bytes@),
        valid_utf8(bytes@) ==> res@ == decode_utf8(bytes@),
{
    String::from_utf8_lossy(bytes).into_owned()
}

/// The address of version string `index` (0: version, 1: raw version, 2: online version) for
/// version strings at `base`; `None` when it leaves `usize`.
pub fn version_string_address(base: usize, index: usize) -> (res: Option<usize>)
    ensures
        res == if base + index * VERSION_SIZE <= usize::MAX {
            Some((base + index * VERSION_SIZE) as usize)
        } else {
            None::<usize>
        },
{
    match index.checked_mul(VERSION_SIZE) {
        None => None,
        Some(off) => base.checked_add(off),
    }
}

/// The C string at the start of `raw`: the bytes before the first NUL, decoded lossily as UTF-8
/// (`CStr::from_bytes_until_nul(raw)?.to_string_lossy()`); `None` when `raw` holds no NUL.
pub fn version_from_raw(raw: &[u8]) -> (res: Option<String>)
    ensures
        match res {
            Some(s) => exists|n: int|
                0 <= n < raw@.len() && raw@[n] == 0 && (forall|j: int| 0 <= j < n ==> raw@[j] != 0)
                    && s@ == utf8_lossy(raw@.take(n)),
            None => forall|j: int| 0 <= j < raw@.len() ==> raw@[j] != 0,
        },
{
    let mut n: usize = 0;
    while n < raw.len()
        invariant
            n <= raw@.len(),
            forall|j: int| 0 <= j < n ==> raw@[j] != 0,
        decreases raw@.len() - n,
    {
        if raw[n] == 0 {
            let mut prefix: Vec<u8> = Vec::new();
            let mut k: usize = 0;
            while k < n
                invariant
                    k <= n < raw@.len(),
                    prefix@ == raw@.take(k as int),
                decreases n - k,
            {
                prefix.push(raw[k]);
                k = k + 1;
                assert(prefix@ =~= raw@.take(k as int));
            }
            let s = from_utf8_lossy(prefix.as_slice());
            return Some(s);
        }
        n = n + 1;
    }
    None
}

} // verus!
