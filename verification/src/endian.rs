use vstd::prelude::*;

verus! {

/// The byte order under which a magic signature matched and under which the
/// fixed-width superblock fields are read.
#[derive(Clone, Copy, Debug, PartialEq, Eq, Structural)]
pub enum Endian {
    Little,
    Big,
}

/// The textual label used when a hit line reports the byte order.
pub open spec fn endian_label(e: Endian) -> Seq<char> {
    match e {
        Endian::Little => "little"@,
        Endian::Big => "big"@,
    }
}

impl Endian {
    /// The textual label used when a hit line reports the byte order.
    pub fn label(&self) -> (s: String)
        ensures
            s@ == endian_label(*self),
    {
        match self {
            Endian::Little => String::from_str("little"),
            Endian::Big => String::from_str("big"),
        }
    }
}

} // verus!
