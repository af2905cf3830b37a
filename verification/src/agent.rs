//! The agent that keeps a host's sudoers files in line with the grants the
//! server reports for that host.
//!
//! Each poll compares the users the agent has files for with the users the
//! server reports: files are written for reported users the agent does not
//! know yet, files are removed for known users the server no longer reports,
//! and the reported users become the known ones.

use vstd::prelude::*;
use vstd::string::*;
use crate::text::{views, decimal, decimal_string};

verus! {

broadcast use vstd::seq_lib::group_filter_ensures;

/// The users this agent has written sudoers files for.
#[derive(Debug)]
pub struct State {
    users: Vec<String>,
}

/// One user that the server reports as granted on this host.
#[derive(Debug)]
pub struct SudoResponse {
    pub username: String,
}

/// What a poll does: the users whose files are written, then the users whose
/// files are removed, each in order.
pub struct PollPlan {
    pub create: Vec<String>,
    pub delete: Vec<String>,
}

/// The user names in a server's answer.
pub open spec fn reported(resp: Seq<SudoResponse>) -> Seq<Seq<char>> {
    resp.map_values(|r: SudoResponse| r.username@)
}

/// The reported users that are not known yet, in the order reported (a user
/// reported twice is named twice).
pub open spec fn to_create(known: Seq<Seq<char>>, incoming: Seq<Seq<char>>) -> Seq<Seq<char>> {
    incoming.filter(|u: Seq<char>| !known.contains(u))
}

/// The known users that are no longer reported, in the order they are known.
pub open spec fn to_delete(known: Seq<Seq<char>>, incoming: Seq<Seq<char>>) -> Seq<Seq<char>> {
    known.filter(|u: Seq<char>| !incoming.contains(u))
}

impl View for State {
    type V = Seq<Seq<char>>;

    closed spec fn view(&self) -> Seq<Seq<char>> {
        views(self.users@)
    }
}

/// Whether some string in `list` equals `name`.
fn holds_name(list: &Vec<String>, name: &String) -> (res: bool)
    ensures
        res == views(list@).contains(name@),
{
    let mut i: usize = 0;
    while i < list.len()
        invariant
            i <= list.len(),
            forall|j: int| 0 <= j < i ==> views(list@)[j] != name@,
        decreases list.len() - i,
    {
        if list[i] == *name {
            assert(views(list@)[i as int] == name@);
            return true;
        }
        i = i + 1;
    }
    false
}

/// The strings of `candidates` that do not occur in `present`, in order.
fn missing_from(candidates: &Vec<String>, present: &Vec<String>) -> (res: Vec<String>)
    ensures
        views(res@) == views(candidates@).filter(|u: Seq<char>| !views(present@).contains(u)),
{
    let ghost all = views(candidates@);
    let ghost keep = |u: Seq<char>| !views(present@).contains(u);
    let mut res: Vec<String> = Vec::new();
    let mut i: usize = 0;
    while i < candidates.len()
        invariant
            i <= candidates.len(),
            all == views(candidates@),
            keep == (|u: Seq<char>| !views(present@).contains(u)),
            views(res@) == all.take(i as int).filter(keep),
        decreases candidates.len() - i,
    {
        let ghost before = res@;
        assert(all.take(i + 1) =~= all.take(i as int).push(all[i as int]));
        proof {
            all.take(i as int).lemma_filter_push(all[i as int], keep);
        }
        if !holds_name(present, &candidates[i]) {
            res.push(candidates[i].clone());
            assert(views(res@) =~= views(before).push(all[i as int]));
        }
        i = i + 1;
    }
    assert(all.take(candidates.len() as int) =~= all);
    res
}

/// The user names in `resp`, in order.
fn names_of(resp: &Vec<SudoResponse>) -> (res: Vec<String>)
    ensures
        views(res@) == reported(resp@),
{
    let mut res: Vec<String> = Vec::new();
    let mut i: usize = 0;
    while i < resp.len()
        invariant
            i <= resp.len(),
            res@.len() == i,
            forall|j: int| 0 <= j < i ==> (#[trigger] res@[j])@ == resp@[j].username@,
        decreases resp.len() - i,
    {
        res.push(resp[i].username.clone());
        i = i + 1;
    }
    assert(views(res@) =~= reported(resp@));
    res
}

impl State {
    /// An agent that knows no users yet.
    pub fn new() -> (res: State)
        ensures
            res@ == Seq::<Seq<char>>::empty(),
    {
        let res = State { users: Vec::new() };
        assert(res@ =~= Seq::<Seq<char>>::empty());
        res
    }

    /// The users this agent has written files for.
    pub fn users(&self) -> (res: &Vec<String>)
        ensures
            views(res@) == self@,
    {
        &self.users
    }

    /// What a poll that got `resp` from the server does: write files for
    /// the reported users not known yet, and remove the files of known users
    /// that are not reported.
    pub fn plan(&self, resp: &Vec<SudoResponse>) -> (res: PollPlan)
        ensures
            views(res.create@) == to_create(self@, reported(resp@)),
            views(res.delete@) == to_delete(self@, reported(resp@)),
    {
        let incoming = names_of(resp);
        let create = missing_from(&incoming, &self.users);
        let delete = missing_from(&self.users, &incoming);
        PollPlan { create, delete }
    }

    /// Once the poll's files are written and removed, the reported users are
    /// the known ones.
    pub fn commit(&mut self, resp: &Vec<SudoResponse>)
        ensures
            final(self)@ == reported(resp@),
    {
        self.users = names_of(resp);
    }
}

/// The server an agent polls: `http://<server>:<port>`.
pub fn server_url(server: &str, port: u16) -> (res: String)
    ensures
        res@ == "http://"@ + server@ + ":"@ + decimal(port as nat),
{
    let mut res = String::from_str("http://");
    res.append(server);
    res.append(":");
    let p = decimal_string(port as u64);
    res.append(p.as_str());
    res
}

/// After a poll, the users with files are exactly the reported ones: the
/// known users, with those written added and those removed taken away, are
/// the reported users.
pub proof fn lemma_poll_converges(known: Seq<Seq<char>>, incoming: Seq<Seq<char>>)
    ensures
        known.to_set().union(to_create(known, incoming).to_set()).difference(
            to_delete(known, incoming).to_set(),
        ) == incoming.to_set(),
{
    let create = to_create(known, incoming);
    let delete = to_delete(known, incoming);
    let lhs = known.to_set().union(create.to_set()).difference(delete.to_set());
    assert forall|u: Seq<char>| lhs.contains(u) == incoming.to_set().contains(u) by {
        let pc = |x: Seq<char>| !known.contains(x);
        let pd = |x: Seq<char>| !incoming.contains(x);
        if create.contains(u) {
            incoming.lemma_filter_contains_rev(pc, u);
        }
        if delete.contains(u) {
            known.lemma_filter_contains_rev(pd, u);
            let k = choose|k: int| 0 <= k < delete.len() && delete[k] == u;
            assert(pd(delete[k]));
        }
        if create.contains(u) {
            let k = choose|k: int| 0 <= k < create.len() && create[k] == u;
            assert(pc(create[k]));
        }
        if incoming.contains(u) && !known.contains(u) {
            let k = choose|k: int| 0 <= k < incoming.len() && incoming[k] == u;
            assert(create.contains(incoming[k]));
        }
        if known.contains(u) && !incoming.contains(u) {
            let k = choose|k: int| 0 <= k < known.len() && known[k] == u;
            assert(delete.contains(known[k]));
        }
    }
    assert(lhs =~= incoming.to_set());
}

/// A poll works from every user name of the server's answer, in order.
pub proof fn lemma_reported_is_every_username(resp: Seq<SudoResponse>)
    ensures
        reported(resp).len() == resp.len(),
        forall|i: int| 0 <= i < resp.len() ==> #[trigger] reported(resp)[i] == resp[i].username@,
{
}

/// A poll writes a file exactly for the users of the answer that are not
/// known yet.
pub proof fn lemma_created_exactly_new_users(
    known: Seq<Seq<char>>,
    resp: Seq<SudoResponse>,
    u: Seq<char>,
)
    ensures
        to_create(known, reported(resp)).contains(u) <==> (!known.contains(u) && exists|i: int|
            0 <= i < resp.len() && #[trigger] resp[i].username@ == u),
{
    let incoming = reported(resp);
    let p = |x: Seq<char>| !known.contains(x);
    if to_create(known, incoming).contains(u) {
        incoming.lemma_filter_contains_rev(p, u);
        let k = choose|k: int| 0 <= k < to_create(known, incoming).len() && to_create(
            known,
            incoming,
        )[k] == u;
        assert(p(to_create(known, incoming)[k]));
        let i = choose|i: int| 0 <= i < incoming.len() && incoming[i] == u;
        assert(resp[i].username@ == u);
    }
    if !known.contains(u) && exists|i: int| 0 <= i < resp.len() && #[trigger] resp[i].username@ == u {
        let i = choose|i: int| 0 <= i < resp.len() && #[trigger] resp[i].username@ == u;
        assert(incoming[i] == u);
        assert(to_create(known, incoming).contains(incoming[i]));
    }
}

/// A poll removes the file exactly of the known users that are not in the
/// answer.
pub proof fn lemma_deleted_exactly_unreported_users(
    known: Seq<Seq<char>>,
    resp: Seq<SudoResponse>,
    u: Seq<char>,
)
    ensures
        to_delete(known, reported(resp)).contains(u) <==> (known.contains(u) && forall|i: int|
            0 <= i < resp.len() ==> #[trigger] resp[i].username@ != u),
{
    let incoming = reported(resp);
    let p = |x: Seq<char>| !incoming.contains(x);
    if to_delete(known, incoming).contains(u) {
        known.lemma_filter_contains_rev(p, u);
        let k = choose|k: int| 0 <= k < to_delete(known, incoming).len() && to_delete(
            known,
            incoming,
        )[k] == u;
        assert(p(to_delete(known, incoming)[k]));
        assert forall|i: int| 0 <= i < resp.len() implies #[trigger] resp[i].username@ != u by {
            assert(incoming[i] == resp[i].username@);
        }
    }
    if known.contains(u) && forall|i: int| 0 <= i < resp.len() ==> #[trigger] resp[i].username@ != u {
        assert(!incoming.contains(u)) by {
            if incoming.contains(u) {
                let i = choose|i: int| 0 <= i < incoming.len() && incoming[i] == u;
                assert(resp[i].username@ == u);
            }
        }
        let j = choose|j: int| 0 <= j < known.len() && known[j] == u;
        assert(to_delete(known, incoming).contains(known[j]));
    }
}

/// A poll that gets the same answer as the one before it changes nothing.
pub proof fn lemma_repeated_poll_is_quiet(incoming: Seq<Seq<char>>)
    ensures
        to_create(incoming, incoming).len() == 0,
        to_delete(incoming, incoming).len() == 0,
{
    let p = |x: Seq<char>| !incoming.contains(x);
    assert(incoming.all(|x: Seq<char>| !p(x))) by {
        assert forall|i: int| 0 <= i < incoming.len() implies !p(incoming[i]) by {
            assert(incoming.contains(incoming[i]));
        }
    }
    incoming.lemma_all_neg_filter_empty(p);
}

} // verus!
