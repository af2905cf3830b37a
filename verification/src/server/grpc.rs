//! The answer the gRPC service gives an agent.

use vstd::prelude::*;
use crate::common::models;
use crate::common::db::concerns_host;
use crate::common::sudo::{get_sudoers_for_hostname, grant_views, grants_of};
use crate::text::views;

verus! {

/// The service that tells agents which users are granted on their host.
#[derive(Debug, Default)]
pub struct SudoingService {}

impl SudoingService {
    /// The users granted on `hostname`, out of all stored records `rows`:
    /// the user names of the records whose host-name field holds
    /// `hostname`, in their order.
    pub fn sudo(&self, rows: Vec<models::Sudo>, hostname: &str) -> (res: Vec<String>)
        ensures
            views(res@) == rows@.filter(|row: models::Sudo| concerns_host(row, hostname@)).map_values(
                |row: models::Sudo| row.username@,
            ),
    {
        let sudos = get_sudoers_for_hostname(rows, hostname);
        let ghost kept = rows@.filter(|row: models::Sudo| concerns_host(row, hostname@));
        assert(grant_views(sudos@).len() == grants_of(kept).len());
        assert forall|j: int| 0 <= j < sudos@.len() implies (#[trigger] sudos@[j])@ == kept[j].grant() by {
            assert(grant_views(sudos@)[j] == grants_of(kept)[j]);
        }
        let mut res: Vec<String> = Vec::new();
        let mut i: usize = 0;
        while i < sudos.len()
            invariant
                i <= sudos.len(),
                sudos@.len() == kept.len(),
                forall|j: int| 0 <= j < sudos@.len() ==> (#[trigger] sudos@[j])@ == kept[j].grant(),
                res@.len() == i,
                forall|j: int| 0 <= j < i ==> (#[trigger] res@[j])@ == kept[j].username@,
            decreases sudos.len() - i,
        {
            res.push(sudos[i].username.clone());
            i = i + 1;
        }
        assert(views(res@) =~= kept.map_values(|row: models::Sudo| row.username@));
        res
    }
}

} // verus!
