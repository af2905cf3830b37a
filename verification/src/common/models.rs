//! The records in which grants are stored: one row per user, with the
//! user's host names kept in a single text field, separated by `;`.

use vstd::prelude::*;
use vstd::string::*;
use crate::text::{seq_join, split, split_on, views, join, lemma_join_split, lemma_split_join};
use crate::common::sudo::SudoView;

verus! {

/// The text stored for a grant's list of host names: the names joined with
/// `;`, or the empty text where the grant names no list.
pub open spec fn hostnames_field(hosts: Option<Seq<Seq<char>>>) -> Seq<char> {
    match hosts {
        Some(h) => seq_join(h, seq![';']),
        None => Seq::empty(),
    }
}

/// The host names read back from a stored field: its pieces between `;`.
pub open spec fn hostnames_of_field(field: Seq<char>) -> Seq<Seq<char>> {
    split_on(field, ';')
}

/// A stored grant, as the database gives it back.
pub struct Sudo {
    pub id: i32,
    pub username: String,
    pub hostnames: String,
}

/// A grant about to be stored.
pub struct NewSudo {
    pub username: String,
    pub hostnames: String,
}

impl Sudo {
    /// The grant that this record stands for: the user, no duration, and
    /// the host names read back from the field.
    pub open spec fn grant(self) -> SudoView {
        SudoView {
            username: self.username@,
            duration: 0,
            hostnames: Some(hostnames_of_field(self.hostnames@)),
        }
    }

    /// The grant that this record stands for.
    pub fn to_sudo(&self) -> (res: crate::common::sudo::Sudo)
        ensures
            res@ == self.grant(),
    {
        crate::common::sudo::Sudo {
            username: self.username.clone(),
            duration: 0,
            hostnames: Some(split(self.hostnames.as_str(), ';')),
        }
    }
}

/// The text to store for a grant's host names.
pub fn hostnames_text(hostnames: &Option<Vec<String>>) -> (res: String)
    ensures
        res@ == hostnames_field(
            match hostnames {
                Some(h) => Some(views(h@)),
                None => None,
            },
        ),
{
    match hostnames {
        Some(hosts) => {
            proof {
                reveal_strlit(";");
                assert(";"@ =~= seq![';']);
            }
            join(hosts, ";")
        },
        None => String::new(),
    }
}

/// A list of at least one host name, none of which holds `;`, is stored so
/// that reading the record back gives exactly that list.
pub proof fn lemma_hostnames_read_back(hosts: Seq<Seq<char>>)
    requires
        hosts.len() >= 1,
        forall|i: int| 0 <= i < hosts.len() ==> !(#[trigger] hosts[i]).contains(';'),
    ensures
        hostnames_of_field(hostnames_field(Some(hosts))) == hosts,
{
    lemma_split_join(hosts, ';');
}

/// Storing the host names read from a field writes that same field again.
pub proof fn lemma_field_stored_back(field: Seq<char>)
    ensures
        hostnames_field(Some(hostnames_of_field(field))) == field,
{
    lemma_join_split(field, ';');
}

} // verus!
