//! USB device inspector with chip-level board probing: everything that decides or
//! computes. Reading the bus, starting tools and printing are left to the program
//! around the library.
pub mod boards;
pub mod cli;
pub mod cmd;
pub mod fields;
pub mod installer;
pub mod number;
pub mod page;
pub mod pieces;
pub mod probe;
pub mod stlink;
pub mod stm32;
pub mod swd;
pub mod text;
pub mod tool;
pub mod usb;
pub mod windows;

use vstd::prelude::*;

verus! {

pub open spec fn dash_if_empty(value: Seq<char>) -> Seq<char> {
    if value.len() == 0 {
        "-"@
    } else {
        value
    }
}

/// The value itself, or a single dash where there is nothing to show.
pub fn value_or_dash(value: &str) -> (shown: &str)
    ensures
        shown@ == dash_if_empty(value@),
{
    if value.is_empty() {
        "-"
    } else {
        value
    }
}

} // verus!
