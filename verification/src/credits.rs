//! Who plays in a production.

use vstd::prelude::*;

verus! {

/// The cast of a production.
#[derive(Debug)]
pub struct Credits {
    pub id: u32,
    pub cast: Vec<Actor>,
}

/// One member of the cast.
#[derive(Debug)]
pub struct Actor {
    pub character: String,
    pub name: String,
    pub original_name: String,
    pub credit_id: u32,
    pub gender: u32,
    pub adult: bool,
}

/// The name of the gender that the catalog writes as a number.
pub open spec fn gender_name(gender: u32) -> Seq<char> {
    if gender == 0 {
        "Unset"@
    } else if gender == 1 {
        "Female"@
    } else if gender == 2 {
        "Male"@
    } else if gender == 3 {
        "Non-binary"@
    } else {
        "Unreachable"@
    }
}

impl Actor {
    /// The name of the actor's gender.
    pub fn get_gender(&self) -> (name: &'static str)
        ensures
            name@ == gender_name(self.gender),
    {
        match self.gender {
            0 => "Unset",
            1 => "Female",
            2 => "Male",
            3 => "Non-binary",
            _ => "Unreachable",
        }
    }
}

} // verus!
