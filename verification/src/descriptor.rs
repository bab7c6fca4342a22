//! What an event's outcomes look like, as announcements state it.
use vstd::prelude::*;
use crate::text::str_eq;

verus! {

#[derive(Clone, Debug, PartialEq)]
pub enum Descriptor {
    Enum { outcomes: Vec<String> },
    DigitDecomposition { is_signed: bool, n_digits: u8, unit: Option<String> },
    /// If the DLC spec doesn't support this
    MissingDescriptor,
}

impl Descriptor {
    /// The outcome names of an `Enum` descriptor.
    pub open spec fn outcomes_view(&self) -> Option<Seq<Seq<char>>> {
        match self {
            Descriptor::Enum { outcomes } => Some(outcomes@.map_values(|o: String| o@)),
            _ => None,
        }
    }

    /// Whether both are `Enum` descriptors listing the same names.
    #[verifier::loop_isolation(false)]
    pub fn same_enum_outcomes(&self, other: &Descriptor) -> (b: bool)
        ensures
            b == (self.outcomes_view() is Some && self.outcomes_view() == other.outcomes_view()),
    {
        match (self, other) {
            (Descriptor::Enum { outcomes: a }, Descriptor::Enum { outcomes: b }) => {
                if a.len() != b.len() {
                    assert(a@.map_values(|o: String| o@).len() != b@.map_values(|o: String| o@).len());
                    return false;
                }
                let mut i: usize = 0;
                while i < a.len()
                    invariant
                        i <= a.len(),
                        a.len() == b.len(),
                        forall|j: int| 0 <= j < i ==> a@[j]@ == b@[j]@,
                    decreases a.len() - i,
                {
                    if !str_eq(a[i].as_str(), b[i].as_str()) {
                        assert(a@.map_values(|o: String| o@)[i as int] != b@.map_values(|o: String| o@)[i as int]);
                        return false;
                    }
                    i = i + 1;
                }
                assert(a@.map_values(|o: String| o@) =~= b@.map_values(|o: String| o@));
                true
            },
            _ => false,
        }
    }
}

} // verus!
