//! Which registry each id belongs to.

use vstd::prelude::*;

use crate::discord::DiscordError;
use crate::model::arg::Target;

verus! {

/// The ids this front end knows, each with the registry it belongs to.
pub struct Transferer {
    ids: Vec<(u128, Target)>,
}

impl Transferer {
    /// The known ids with their registries, in order.
    pub closed spec fn entries(&self) -> Seq<(u128, Target)> {
        self.ids@
    }

    /// Some entry has this id.
    pub open spec fn knows(&self, id: u128) -> bool {
        exists|i: int| 0 <= i < self.entries().len() && self.entries()[i].0 == id
    }

    /// A transferer that knows no id.
    pub fn new() -> (r: Self)
        ensures
            r.entries() == Seq::<(u128, Target)>::empty(),
    {
        Transferer { ids: Vec::new() }
    }

    /// The registry of `id`. The size check that follows the search admits
    /// only an empty list of matches (its pattern is the range `0..1`), so an
    /// id that is known makes it panic: it must not be known, and the answer
    /// is `NotFound`.
    pub fn which_is(&self, id: u128) -> (r: Result<Target, DiscordError>)
        requires
            !self.knows(id),
        ensures
            r == Err::<Target, DiscordError>(DiscordError::NotFound),
    {
        let mut found: Vec<Target> = Vec::new();
        let mut i: usize = 0;
        while i < self.ids.len()
            invariant
                i <= self.ids.len(),
                !self.knows(id),
                found@.len() == 0,
            decreases self.ids.len() - i,
        {
            proof {
                assert(self.entries()[i as int] == self.ids@[i as int]);
            }
            if self.ids[i].0 == id {
                found.push(self.ids[i].1);
            }
            i += 1;
        }
        if found.len() == 0 {
            Err(DiscordError::NotFound)
        } else {
            Ok(found[0])
        }
    }

    /// Whether `which_is` answers `Ok` for `id`; under the same condition, it never does.
    pub fn contains(&self, id: u128) -> (b: bool)
        requires
            !self.knows(id),
        ensures
            !b,
    {
        self.which_is(id).is_ok()
    }
}

} // verus!
