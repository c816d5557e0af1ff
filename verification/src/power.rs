//! IOKit power assertions: the messages for a refused assertion.
use vstd::prelude::*;

use crate::text::{hexadecimal, push_hexadecimal};

verus! {

/// `IOReturn` success.
pub const K_IO_RETURN_SUCCESS: i32 = 0;

/// The message for a failed `IOPMAssertionCreateWithName`: which assertion
/// (`display` or `idle`) and the return code in `{:#x}` form, i.e. the
/// code's 32 bits in lower-case hexadecimal after `0x`.
pub open spec fn assertion_error_text(display: bool, ret: i32) -> Seq<char> {
    (if display {
        "IOPMAssertionCreateWithName(display) error: 0x"@
    } else {
        "IOPMAssertionCreateWithName(idle) error: 0x"@
    }) + hexadecimal((ret as u32) as nat)
}

pub fn assertion_error(display: bool, ret: i32) -> (r: String)
    ensures
        r@ == assertion_error_text(display, ret),
{
    let mut out = if display {
        String::from_str("IOPMAssertionCreateWithName(display) error: 0x")
    } else {
        String::from_str("IOPMAssertionCreateWithName(idle) error: 0x")
    };
    push_hexadecimal(&mut out, (ret as u32) as u128);
    out
}

} // verus!
