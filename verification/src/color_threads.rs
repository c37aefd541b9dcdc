//! Reference color records: an identifier, a display name and a hex color
//! string, as read from a tabular source of thread colors. Reading the
//! source itself is the caller's business; this module only holds the
//! already-parsed records.

use vstd::prelude::*;

verus! {

/// The view of a reference color record: the three fields as character
/// sequences.
pub struct ColorThreadView {
    pub floss: Seq<char>,
    pub name: Seq<char>,
    pub hex: Seq<char>,
}

/// One reference color record: a catalog identifier, a display name and a
/// hex color string such as `#FFFFFF`.
pub struct ColorThread {
    floss: String,
    name: String,
    hex: String,
}

impl View for ColorThread {
    type V = ColorThreadView;

    closed spec fn view(&self) -> ColorThreadView {
        ColorThreadView { floss: self.floss@, name: self.name@, hex: self.hex@ }
    }
}

impl ColorThread {
    /// Builds a record from its three fields.
    pub fn new(floss: String, name: String, hex: String) -> (t: ColorThread)
        ensures
            t@.floss == floss@,
            t@.name == name@,
            t@.hex == hex@,
    {
        ColorThread { floss, name, hex }
    }

    /// The catalog identifier.
    pub fn get_floss(&self) -> (r: &String)
        ensures
            r@ == self@.floss,
    {
        &self.floss
    }

    /// The display name.
    pub fn get_name(&self) -> (r: &String)
        ensures
            r@ == self@.name,
    {
        &self.name
    }

    /// The hex color string.
    pub fn get_hex(&self) -> (r: &String)
        ensures
            r@ == self@.hex,
    {
        &self.hex
    }
}

} // verus!
