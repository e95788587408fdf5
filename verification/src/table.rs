//! Per-table pieces that are independent of the async runtime: the
//! cancellation token shared by a table's tasks and table-id hashing.

use std::sync::atomic::{AtomicBool, Ordering};
use std::sync::Arc;

use vstd::prelude::*;
use vstd::string::StringSliceAdditionalSpecFns;

use crate::text::{decimal_digits, hex_digits, push_decimal, push_hex, string_from_chars};

verus! {

/// A cancellation flag shared by all clones of the token.
#[derive(Clone)]
pub struct CancelToken(Arc<AtomicBool>);

impl CancelToken {
    /// A token that is not cancelled.
    pub fn new() -> CancelToken {
        CancelToken(Arc::new(AtomicBool::new(false)))
    }

    /// Raises the flag for this token and every clone of it.
    pub fn cancel(&self) {
        self.0.store(true, Ordering::SeqCst);
    }

    /// Whether this token or any clone of it was cancelled.
    pub fn is_cancelled(&self) -> bool {
        self.0.load(Ordering::SeqCst)
    }
}

impl Default for CancelToken {
    fn default() -> CancelToken {
        CancelToken::new()
    }
}

/// Finding poker windows; the window scan itself belongs to the platform layer.
pub struct TableDiscovery;

/// The djb2 hash (start at 5381, then `h * 33 + byte` for each byte, modulo 2^64).
pub open spec fn djb2(bytes: Seq<u8>) -> u64
    decreases bytes.len(),
{
    if bytes.len() == 0 {
        5381
    } else {
        djb2(bytes.drop_last()).wrapping_mul(33).wrapping_add(bytes.last() as u64)
    }
}

/// Hash of a window title, used in table ids.
pub fn simple_hash(s: &str) -> (h: u64)
    ensures
        h == djb2(s.spec_bytes()),
{
    let bytes = s.as_bytes();
    let mut hash: u64 = 5381;
    let n = bytes.len();
    for i in 0..n
        invariant
            n == bytes@.len(),
            bytes@ == s.spec_bytes(),
            hash == djb2(bytes@.take(i as int)),
    {
        proof {
            assert(bytes@.take(i + 1).drop_last() =~= bytes@.take(i as int));
        }
        hash = hash.wrapping_mul(33).wrapping_add(bytes[i] as u64);
    }
    proof {
        assert(bytes@.take(n as int) =~= bytes@);
    }
    hash
}

/// The id of a table found in a window: the window handle in hexadecimal, a
/// dash, and the hash of the window title in decimal.
pub open spec fn table_id_text(handle: u64, title: Seq<u8>) -> Seq<char> {
    hex_digits(handle as nat) + seq!['-'] + decimal_digits(djb2(title) as nat)
}

/// The table id for a window with this handle and title.
pub fn table_id_for(handle: u64, title: &str) -> (id: String)
    ensures
        id@ == table_id_text(handle, title.spec_bytes()),
{
    let mut out: Vec<char> = Vec::new();
    push_hex(&mut out, handle);
    out.push('-');
    push_decimal(&mut out, simple_hash(title));
    proof {
        assert(out@ =~= table_id_text(handle, title.spec_bytes()));
    }
    string_from_chars(&out)
}

} // verus!
