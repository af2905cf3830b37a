//! The answers the HTTP service gives users.

use vstd::prelude::*;
use crate::common::sudo::{Sudo, grant_views};
use crate::text::{seq_join, views, join};

verus! {

/// The listing of `sudos`: each grant in words, one per line.
pub fn get_sudoers(sudos: &Vec<Sudo>) -> (res: String)
    requires
        forall|i: int| 0 <= i < sudos@.len() ==> (#[trigger] sudos@[i]).hostnames is Some,
    ensures
        res@ == seq_join(grant_views(sudos@).map_values(|g: crate::common::sudo::SudoView| g.description()), "\n"@),
{
    let mut lines: Vec<String> = Vec::new();
    let mut i: usize = 0;
    while i < sudos.len()
        invariant
            i <= sudos.len(),
            forall|j: int| 0 <= j < sudos@.len() ==> (#[trigger] sudos@[j]).hostnames is Some,
            lines@.len() == i,
            forall|j: int| 0 <= j < i ==> (#[trigger] lines@[j])@ == sudos@[j]@.description(),
        decreases sudos.len() - i,
    {
        lines.push(sudos[i].to_string());
        i = i + 1;
    }
    assert(views(lines@) =~= grant_views(sudos@).map_values(
        |g: crate::common::sudo::SudoView| g.description(),
    ));
    join(&lines, "\n")
}

} // verus!
