//! A minimal console-style port: something that can emit its state and hand
//! back a line of text. No component of the library consumes it; it is part
//! of the public surface for callers that want to plug in their own
//! diagnostics.

use vstd::prelude::*;

verus! {

pub trait InputOutput {
    fn write(&self);

    fn read(&self) -> String;
}

} // verus!
