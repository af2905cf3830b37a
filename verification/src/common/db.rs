//! Decisions about the stored grants: what a new grant replaces, and which
//! stored grants concern a host.

use vstd::prelude::*;
use crate::text::{contains_text, contains, views, lemma_join_holds_part};
use crate::common::models::{Sudo, NewSudo, hostnames_field, hostnames_text, lemma_hostnames_read_back};
use crate::common::sudo::SudoView;

verus! {

/// What storing a grant takes: whether the user's earlier records go first,
/// and the record to insert.
pub struct CreateSudo {
    pub delete_existing: bool,
    pub new_sudo: NewSudo,
}

/// Storing a grant for `username` on `hostnames`, where `existing` are the
/// records already stored for that user: those are deleted first, if there
/// are any, and one record is inserted with the host names joined by `;`.
pub fn create_sudo(username: &str, hostnames: Option<Vec<String>>, existing: &Vec<Sudo>) -> (res:
    CreateSudo)
    ensures
        res.delete_existing == (existing@.len() > 0),
        res.new_sudo.username@ == username@,
        res.new_sudo.hostnames@ == hostnames_field(
            match hostnames {
                Some(h) => Some(views(h@)),
                None => None,
            },
        ),
{
    let field = hostnames_text(&hostnames);
    CreateSudo {
        delete_existing: existing.len() > 0,
        new_sudo: NewSudo { username: String::from_str(username), hostnames: field },
    }
}

/// Whether a stored record concerns `host`: its host-name field holds `host`
/// as a piece of text (a part of a name is enough).
pub open spec fn concerns_host(row: Sudo, host: Seq<char>) -> bool {
    contains_text(row.hostnames@, host)
}

/// A grant stored for a list of hosts concerns every host of that list: each
/// host stands whole in the stored field.
pub proof fn lemma_every_listed_host_concerned(row: Sudo, hosts: Seq<Seq<char>>, i: int)
    requires
        row.hostnames@ == hostnames_field(Some(hosts)),
        0 <= i < hosts.len(),
    ensures
        concerns_host(row, hosts[i]),
        exists|o: int|
            0 <= o && o + hosts[i].len() <= row.hostnames@.len() && #[trigger] row.hostnames@.subrange(
                o,
                o + hosts[i].len(),
            ) == hosts[i],
{
    let o = lemma_join_holds_part(hosts, seq![';'], i);
    assert(row.hostnames@.subrange(o, o + hosts[i].len()) == hosts[i]);
}

/// The records among `rows` whose host-name field holds `host_name`, in
/// their order.
pub fn get_sudo_for_hostname(rows: Vec<Sudo>, host_name: &str) -> (res: Vec<Sudo>)
    ensures
        res@ == rows@.filter(|row: Sudo| concerns_host(row, host_name@)),
{
    let n = rows.len();
    let ghost all = rows@;
    let ghost keep = |row: Sudo| concerns_host(row, host_name@);
    let mut rest = rows;
    let mut res: Vec<Sudo> = Vec::new();
    let mut i: usize = 0;
    while rest.len() > 0
        invariant
            n == all.len(),
            i <= n,
            keep == (|row: Sudo| concerns_host(row, host_name@)),
            rest@ == all.skip(i as int),
            res@ == all.take(i as int).filter(keep),
        decreases rest@.len(),
    {
        let row = rest.remove(0);
        let ghost next = all.take(i + 1);
        proof {
            assert(row == all[i as int]);
            assert(next.drop_last() =~= all.take(i as int));
            assert(next.last() == all[i as int]);
            reveal(Seq::filter);
            assert(next.filter(keep) == if keep(row) {
                all.take(i as int).filter(keep).push(row)
            } else {
                all.take(i as int).filter(keep)
            });
        }
        let text = row.hostnames.as_str();
        let found = contains(text, host_name);
        assert(found == keep(row));
        if found {
            res.push(row);
        }
        i = i + 1;
        assert(rest@ =~= all.skip(i as int));
    }
    assert(all.take(i as int) =~= all);
    res
}

/// A grant stored as `create_sudo` plans it is read back, from the record
/// that holds what was inserted, with its user and its list of host names,
/// when that list has at least one name and no name holds `;`.
pub proof fn lemma_stored_grant_read_back(
    username: Seq<char>,
    hosts: Seq<Seq<char>>,
    inserted: NewSudo,
    row: Sudo,
)
    requires
        hosts.len() >= 1,
        forall|i: int| 0 <= i < hosts.len() ==> !(#[trigger] hosts[i]).contains(';'),
        inserted.username@ == username,
        inserted.hostnames@ == hostnames_field(Some(hosts)),
        row.username@ == inserted.username@,
        row.hostnames@ == inserted.hostnames@,
    ensures
        row.grant() == (SudoView { username, duration: 0, hostnames: Some(hosts) }),
{
    lemma_hostnames_read_back(hosts);
}

/// A stored record as the store compares it: its user and its host-name
/// field.
pub open spec fn record(row: Sudo) -> (Seq<char>, Seq<char>) {
    (row.username@, row.hostnames@)
}

/// Whether a record is `username`'s.
pub open spec fn owned_by(username: Seq<char>) -> spec_fn((Seq<char>, Seq<char>)) -> bool {
    |r: (Seq<char>, Seq<char>)| r.0 == username
}

/// Whether a record is someone else's than `username`'s.
pub open spec fn not_owned_by(username: Seq<char>) -> spec_fn((Seq<char>, Seq<char>)) -> bool {
    |r: (Seq<char>, Seq<char>)| r.0 != username
}

/// The store's records after `plan` was carried out for `username`: the
/// user's records deleted if the plan says so, then the new record added.
pub open spec fn records_after(
    table: Seq<(Seq<char>, Seq<char>)>,
    username: Seq<char>,
    plan: CreateSudo,
) -> Seq<(Seq<char>, Seq<char>)> {
    let kept = if plan.delete_existing {
        table.filter(not_owned_by(username))
    } else {
        table
    };
    kept.push((plan.new_sudo.username@, plan.new_sudo.hostnames@))
}

/// Storing a grant replaces the user's earlier grants: when the plan was
/// made from the user's records as they stood, the user has exactly one
/// record afterwards, the new one.
pub proof fn lemma_create_replaces(
    table: Seq<(Seq<char>, Seq<char>)>,
    username: Seq<char>,
    existing: Seq<Sudo>,
    plan: CreateSudo,
)
    requires
        existing.map_values(|row: Sudo| record(row)) == table.filter(owned_by(username)),
        plan.delete_existing == (existing.len() > 0),
        plan.new_sudo.username@ == username,
    ensures
        records_after(table, username, plan).filter(owned_by(username)) == seq![
            (username, plan.new_sudo.hostnames@),
        ],
{
    let mine = owned_by(username);
    let new_record = (plan.new_sudo.username@, plan.new_sudo.hostnames@);
    if plan.delete_existing {
        let kept = table.filter(not_owned_by(username));
        assert(kept.all(|r: (Seq<char>, Seq<char>)| !mine(r))) by {
            assert forall|i: int| 0 <= i < kept.len() implies !mine(kept[i]) by {
                table.lemma_filter_pred(not_owned_by(username), i);
            }
        }
        kept.lemma_all_neg_filter_empty(mine);
        kept.lemma_filter_push(new_record, mine);
        assert(kept.filter(mine).push(new_record) =~= seq![(username, plan.new_sudo.hostnames@)]);
    } else {
        assert(existing.map_values(|row: Sudo| record(row)).len() == 0);
        table.lemma_filter_push(new_record, mine);
        assert(table.filter(mine).push(new_record) =~= seq![(username, plan.new_sudo.hostnames@)]);
    }
}

/// The store's records after `username`'s records are deleted, as revoking
/// a grant deletes them.
pub open spec fn records_after_revoke(
    table: Seq<(Seq<char>, Seq<char>)>,
    username: Seq<char>,
) -> Seq<(Seq<char>, Seq<char>)> {
    table.filter(not_owned_by(username))
}

/// Every user has at most one record.
pub open spec fn one_record_each(table: Seq<(Seq<char>, Seq<char>)>) -> bool {
    forall|v: Seq<char>| #[trigger] table.filter(owned_by(v)).len() <= 1
}

/// Taking away one user's records leaves every other user's records as
/// they were.
proof fn lemma_others_untouched(table: Seq<(Seq<char>, Seq<char>)>, u: Seq<char>, v: Seq<char>)
    requires
        u != v,
    ensures
        table.filter(not_owned_by(u)).filter(owned_by(v)) == table.filter(owned_by(v)),
    decreases table.len(),
{
    if table.len() == 0 {
        reveal(Seq::filter);
        assert(table.filter(not_owned_by(u)) =~= table);
    } else {
        let front = table.drop_last();
        let x = table.last();
        lemma_others_untouched(front, u, v);
        assert(front.push(x) =~= table);
        front.lemma_filter_push(x, not_owned_by(u));
        front.lemma_filter_push(x, owned_by(v));
        if x.0 != u {
            front.filter(not_owned_by(u)).lemma_filter_push(x, owned_by(v));
        }
    }
}

/// Filtering twice by the same test is filtering once.
proof fn lemma_filter_twice(table: Seq<(Seq<char>, Seq<char>)>, p: spec_fn((Seq<char>, Seq<char>)) -> bool)
    ensures
        table.filter(p).filter(p) == table.filter(p),
    decreases table.len(),
{
    if table.len() == 0 {
        reveal(Seq::filter);
        assert(table.filter(p) =~= table);
    } else {
        let front = table.drop_last();
        let x = table.last();
        lemma_filter_twice(front, p);
        assert(front.push(x) =~= table);
        front.lemma_filter_push(x, p);
        if p(x) {
            front.filter(p).lemma_filter_push(x, p);
        }
    }
}

/// Storing a grant keeps every user at one record at most, when the plan
/// was made from the user's records as they stood.
pub proof fn lemma_create_keeps_one_record_each(
    table: Seq<(Seq<char>, Seq<char>)>,
    username: Seq<char>,
    existing: Seq<Sudo>,
    plan: CreateSudo,
)
    requires
        one_record_each(table),
        existing.map_values(|row: Sudo| record(row)) == table.filter(owned_by(username)),
        plan.delete_existing == (existing.len() > 0),
        plan.new_sudo.username@ == username,
    ensures
        one_record_each(records_after(table, username, plan)),
{
    let after = records_after(table, username, plan);
    let new_record = (plan.new_sudo.username@, plan.new_sudo.hostnames@);
    lemma_create_replaces(table, username, existing, plan);
    assert forall|v: Seq<char>| #[trigger] after.filter(owned_by(v)).len() <= 1 by {
        if v != username {
            let kept = if plan.delete_existing {
                table.filter(not_owned_by(username))
            } else {
                table
            };
            kept.lemma_filter_push(new_record, owned_by(v));
            assert(after.filter(owned_by(v)) == kept.filter(owned_by(v)));
            if plan.delete_existing {
                lemma_others_untouched(table, username, v);
            }
            assert(table.filter(owned_by(v)).len() <= 1);
        }
    }
}

/// Revoking a second time changes nothing.
pub proof fn lemma_revoke_twice(table: Seq<(Seq<char>, Seq<char>)>, username: Seq<char>)
    ensures
        records_after_revoke(records_after_revoke(table, username), username)
            == records_after_revoke(table, username),
{
    lemma_filter_twice(table, not_owned_by(username));
}

/// Revoking leaves every other user's records as they were.
pub proof fn lemma_revoke_leaves_others(
    table: Seq<(Seq<char>, Seq<char>)>,
    username: Seq<char>,
    other: Seq<char>,
)
    requires
        other != username,
    ensures
        records_after_revoke(table, username).filter(owned_by(other)) == table.filter(
            owned_by(other),
        ),
{
    lemma_others_untouched(table, username, other);
}

/// Revoking undoes storing a grant: the records are those the store held
/// before, less the user's earlier records.
pub proof fn lemma_revoke_undoes_create(
    table: Seq<(Seq<char>, Seq<char>)>,
    username: Seq<char>,
    plan: CreateSudo,
)
    requires
        plan.new_sudo.username@ == username,
    ensures
        records_after_revoke(records_after(table, username, plan), username)
            == records_after_revoke(table, username),
{
    let new_record = (plan.new_sudo.username@, plan.new_sudo.hostnames@);
    let p = not_owned_by(username);
    if plan.delete_existing {
        let kept = table.filter(p);
        kept.lemma_filter_push(new_record, p);
        lemma_filter_twice(table, p);
    } else {
        table.lemma_filter_push(new_record, p);
    }
}

} // verus!
