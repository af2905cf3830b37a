//! Grants of temporary sudo rights, and the sudoers files that carry them
//! out on a host.

use vstd::prelude::*;
use vstd::string::*;
use crate::text::{seq_join, views, join, decimal, decimal_string, copy_strings, lemma_join_holds_part};
use crate::common::templates::{render_template, is_plain_template, plain_template, fill_template};
use crate::common::models;
use crate::common::db;

verus! {

/// A user's grant: who, for how many seconds, and on which hosts.
#[derive(Debug, Clone)]
pub struct Sudo {
    pub username: String,
    pub duration: u64,
    pub hostnames: Option<Vec<String>>,
}

/// The value of a [`Sudo`].
pub struct SudoView {
    pub username: Seq<char>,
    pub duration: u64,
    pub hostnames: Option<Seq<Seq<char>>>,
}

impl View for Sudo {
    type V = SudoView;

    open spec fn view(&self) -> SudoView {
        SudoView {
            username: self.username@,
            duration: self.duration,
            hostnames: match self.hostnames {
                Some(h) => Some(views(h@)),
                None => None,
            },
        }
    }
}

impl SudoView {
    /// "User <name> has access to <hosts, joined by commas> for <duration>".
    pub open spec fn description(self) -> Seq<char> {
        "User "@ + self.username + " has access to "@ + seq_join(self.hostnames->0, ","@)
            + " for "@ + decimal(self.duration as nat)
    }
}

impl Sudo {
    /// The grant in words, as it is shown to users; a grant that names no
    /// hosts has no such text.
    pub fn to_string(&self) -> (res: String)
        requires
            self.hostnames is Some,
        ensures
            res@ == self@.description(),
    {
        let mut res = String::from_str("User ");
        res.append(self.username.as_str());
        res.append(" has access to ");
        match &self.hostnames {
            Some(hosts) => {
                let joined = join(hosts, ",");
                res.append(joined.as_str());
            },
            None => {},
        }
        res.append(" for ");
        let d = decimal_string(self.duration);
        res.append(d.as_str());
        res
    }
}

/// What can go wrong in making a sudoers file.
#[derive(Debug)]
pub enum SudoError {
    /// The sudoers template is not plain (see [`plain_template`]): this
    /// library does not render it, since the template engine can panic or
    /// recurse without end on templates beyond that form. The caller renders
    /// it and makes the file with [`SudoConfig::sudoer_file`].
    UnsupportedTemplate,
    /// The template engine could not render the sudoers template.
    Template(tera::Error),
}

/// Where the sudoers files of this host live.
pub struct SudoConfig {
    pub location: String,
}

/// A sudoers file to write: where, what, and the report to give once it is
/// written.
pub struct SudoerFile {
    pub path: String,
    pub content: String,
    pub message: String,
}

/// A sudoers file that is to be removed again once `lifetime_secs` seconds
/// have passed after it was written.
pub struct TemporarySudoer {
    pub file: SudoerFile,
    pub lifetime_secs: u64,
}

/// Something to remove, and the report to give once it is gone.
pub struct Removal {
    pub target: String,
    pub message: String,
}

/// A grant to store, to be revoked once `lifetime_secs` seconds have passed,
/// and the report to give once it is stored.
pub struct Registration {
    pub username: String,
    pub hostnames: Option<Vec<String>>,
    pub lifetime_secs: u64,
    pub message: String,
}

/// "File has been created for <user>".
pub open spec fn created_message(username: Seq<char>) -> Seq<char> {
    "File has been created for "@ + username
}

impl SudoConfig {
    /// The path of `username`'s sudoers file: `<location>/<username>`.
    pub open spec fn sudoer_path(self, username: Seq<char>) -> Seq<char> {
        self.location@ + seq!['/'] + username
    }

    fn path_for(&self, username: &str) -> (res: String)
        ensures
            res@ == self.sudoer_path(username@),
    {
        let mut path = self.location.clone();
        proof {
            reveal_strlit("/");
            assert("/"@ =~= seq!['/']);
        }
        path.append("/");
        path.append(username);
        path
    }

    /// The sudoers file of `username`, given what rendering the sudoers
    /// template for that user gave.
    pub fn sudoer_file(&self, username: &str, rendered: Result<String, tera::Error>) -> (res: Result<SudoerFile, SudoError>)
        ensures
            match rendered {
                Ok(content) => res matches Ok(f) && f.path@ == self.sudoer_path(username@)
                    && f.content == content && f.message@ == created_message(username@),
                Err(e) => res == Err::<SudoerFile, SudoError>(SudoError::Template(e)),
            },
    {
        match rendered {
            Ok(content) => {
                let path = self.path_for(username);
                let mut message = String::from_str("File has been created for ");
                message.append(username);
                Ok(SudoerFile { path, content, message })
            },
            Err(e) => Err(SudoError::Template(e)),
        }
    }

    /// The sudoers file of `username`, made from `template`: `template` with
    /// every tag `{{ username }}` replaced by the user's name and every
    /// comment left out, written to `<location>/<username>`. A template that
    /// is not plain (see [`plain_template`]) is left to the caller to render
    /// (see [`SudoError::UnsupportedTemplate`]).
    pub fn create_sudoer_file(&self, template: &str, username: &str) -> (res: Result<SudoerFile, SudoError>)
        ensures
            plain_template(template@) ==> (res matches Ok(f) && f.path@ == self.sudoer_path(username@)
                && f.content@ == fill_template(template@, username@) && f.message@
                == created_message(username@)),
            !plain_template(template@) ==> res matches Err(SudoError::UnsupportedTemplate),
    {
        if !is_plain_template(template) {
            return Err(SudoError::UnsupportedTemplate);
        }
        proof {
            reveal_strlit("sudoers.j2");
            reveal_strlit("username");
        }
        let rendered = render_template("sudoers.j2", template, "username", username);
        self.sudoer_file(username, rendered)
    }

    /// The sudoers file for a temporary grant: the file of the grant's user,
    /// made as [`SudoConfig::create_sudoer_file`] makes it, to be removed
    /// after the grant's duration.
    pub fn create_temporary_sudoer(&self, template: &str, data: &Sudo) -> (res: Result<TemporarySudoer, SudoError>)
        ensures
            plain_template(template@) ==> (res matches Ok(t) && t.file.path@ == self.sudoer_path(
                data.username@,
            ) && t.file.content@ == fill_template(template@, data.username@) && t.file.message@
                == created_message(data.username@) && t.lifetime_secs == data.duration),
            !plain_template(template@) ==> res matches Err(SudoError::UnsupportedTemplate),
    {
        match self.create_sudoer_file(template, data.username.as_str()) {
            Ok(file) => Ok(TemporarySudoer { file, lifetime_secs: data.duration }),
            Err(e) => Err(e),
        }
    }

    /// Removing every sudoers file: the whole location goes.
    pub fn delete_all_sudoers(&self) -> (res: Removal)
        ensures
            res.target@ == self.location@,
            res.message@ == "All files have been deleted at "@ + self.location@,
    {
        let mut message = String::from_str("All files have been deleted at ");
        message.append(self.location.as_str());
        Removal { target: self.location.clone(), message }
    }

    /// Removing `user`'s sudoers file.
    pub fn delete_sudoer(&self, user: &str) -> (res: Removal)
        ensures
            res.target@ == self.sudoer_path(user@),
            res.message@ == "File has been deleted at "@ + self.sudoer_path(user@),
    {
        let target = self.path_for(user);
        let mut message = String::from_str("File has been deleted at ");
        message.append(target.as_str());
        Removal { target, message }
    }
}

/// A sudoers path is the location, `/`, and the whole user name.
pub proof fn lemma_sudoer_path_parts(config: SudoConfig, username: Seq<char>)
    ensures
        config.sudoer_path(username).len() == config.location@.len() + 1 + username.len(),
        config.sudoer_path(username).take(config.location@.len() as int) == config.location@,
        config.sudoer_path(username)[config.location@.len() as int] == '/',
        config.sudoer_path(username).skip(config.location@.len() as int + 1) == username,
{
    let p = config.sudoer_path(username);
    let l = config.location@.len() as int;
    assert(p.take(l) =~= config.location@);
    assert(p.skip(l + 1) =~= username);
}

/// Different users have different sudoers files.
pub proof fn lemma_distinct_users_distinct_paths(
    config: SudoConfig,
    first: Seq<char>,
    second: Seq<char>,
)
    requires
        first != second,
    ensures
        config.sudoer_path(first) != config.sudoer_path(second),
{
    lemma_sudoer_path_parts(config, first);
    lemma_sudoer_path_parts(config, second);
}

/// A grant in words names its user right after "User ", and holds every one
/// of its hosts whole.
pub proof fn lemma_description_names_user_and_hosts(grant: SudoView, i: int)
    requires
        grant.hostnames is Some,
        0 <= i < grant.hostnames->0.len(),
    ensures
        grant.description().subrange(5, 5 + grant.username.len() as int) == grant.username,
        exists|o: int|
            0 <= o && o + grant.hostnames->0[i].len() <= grant.description().len()
                && #[trigger] grant.description().subrange(o, o + grant.hostnames->0[i].len())
                == grant.hostnames->0[i],
{
    reveal_strlit("User ");
    reveal_strlit(" has access to ");
    let hosts = grant.hostnames->0;
    let head = "User "@ + grant.username + " has access to "@;
    let joined = seq_join(hosts, ","@);
    let d = grant.description();
    assert(d == head + joined + " for "@ + decimal(grant.duration as nat));
    assert(d.subrange(5, 5 + grant.username.len() as int) =~= grant.username);
    let o = lemma_join_holds_part(hosts, ","@, i);
    let at = head.len() + o;
    assert(d.subrange(at, at + hosts[i].len()) =~= joined.subrange(o, o + hosts[i].len()));
}

/// The values of a sequence of grants.
pub open spec fn grant_views(grants: Seq<Sudo>) -> Seq<SudoView> {
    grants.map_values(|g: Sudo| g@)
}

/// The grants that stored records stand for.
pub open spec fn grants_of(rows: Seq<models::Sudo>) -> Seq<SudoView> {
    rows.map_values(|row: models::Sudo| row.grant())
}

/// The grants that `rows`, a user's stored records, stand for, in their
/// order.
pub fn get_sudoers(rows: &Vec<models::Sudo>) -> (res: Vec<Sudo>)
    ensures
        grant_views(res@) == grants_of(rows@),
{
    let mut res: Vec<Sudo> = Vec::new();
    let mut i: usize = 0;
    while i < rows.len()
        invariant
            i <= rows.len(),
            res@.len() == i,
            forall|j: int| 0 <= j < i ==> (#[trigger] res@[j])@ == rows@[j].grant(),
        decreases rows.len() - i,
    {
        res.push(rows[i].to_sudo());
        i = i + 1;
    }
    assert(grant_views(res@) =~= grants_of(rows@));
    res
}

/// The grants of the stored records whose host-name field holds
/// `hostname`, in their order.
pub fn get_sudoers_for_hostname(rows: Vec<models::Sudo>, hostname: &str) -> (res: Vec<Sudo>)
    ensures
        grant_views(res@) == grants_of(
            rows@.filter(|row: models::Sudo| db::concerns_host(row, hostname@)),
        ),
{
    let kept = db::get_sudo_for_hostname(rows, hostname);
    get_sudoers(&kept)
}

/// Reading a user's records right after storing a grant for that user
/// gives back exactly that grant: one grant, with the user and the list of
/// host names (at least one, none holding `;`), and no duration.
pub proof fn lemma_register_then_read(
    table: Seq<(Seq<char>, Seq<char>)>,
    username: Seq<char>,
    hosts: Seq<Seq<char>>,
    existing: Seq<models::Sudo>,
    plan: db::CreateSudo,
    read: Seq<models::Sudo>,
)
    requires
        hosts.len() >= 1,
        forall|i: int| 0 <= i < hosts.len() ==> !(#[trigger] hosts[i]).contains(';'),
        existing.map_values(|row: models::Sudo| db::record(row)) == table.filter(
            db::owned_by(username),
        ),
        plan.delete_existing == (existing.len() > 0),
        plan.new_sudo.username@ == username,
        plan.new_sudo.hostnames@ == models::hostnames_field(Some(hosts)),
        read.map_values(|row: models::Sudo| db::record(row)) == db::records_after(
            table,
            username,
            plan,
        ).filter(db::owned_by(username)),
    ensures
        grants_of(read) == seq![SudoView { username, duration: 0, hostnames: Some(hosts) }],
{
    db::lemma_create_replaces(table, username, existing, plan);
    let recs = read.map_values(|row: models::Sudo| db::record(row));
    assert(recs.len() == 1);
    assert(recs[0] == db::record(read[0]));
    models::lemma_hostnames_read_back(hosts);
    assert(grants_of(read) =~= seq![SudoView { username, duration: 0, hostnames: Some(hosts) }]);
}

/// Registering a grant: it is stored with its user and hosts, and revoked
/// again after its duration.
pub fn register_sudoer(data: &Sudo) -> (res: Registration)
    ensures
        res.username@ == data.username@,
        (match res.hostnames {
            Some(h) => Some(views(h@)),
            None => None,
        }) == data@.hostnames,
        res.lifetime_secs == data.duration,
        res.message@ == "User "@ + data.username@ + " has been registered"@,
{
    let mut message = String::from_str("User ");
    message.append(data.username.as_str());
    message.append(" has been registered");
    Registration {
        username: data.username.clone(),
        hostnames: match &data.hostnames {
            Some(h) => Some(copy_strings(h)),
            None => None,
        },
        lifetime_secs: data.duration,
        message,
    }
}

/// The answer to revoking `username`'s grant, given how deleting its
/// records went: the report on success, the deletion's error otherwise.
pub fn revoke_sudoer<E>(username: &str, deleted: Result<usize, E>) -> (res: Result<String, E>)
    ensures
        match deleted {
            Ok(_) => res matches Ok(m) && m@ == "User "@ + username@ + " has been revoked"@,
            Err(e) => res == Err::<String, E>(e),
        },
{
    match deleted {
        Ok(_) => {
            let mut message = String::from_str("User ");
            message.append(username);
            message.append(" has been revoked");
            Ok(message)
        },
        Err(e) => Err(e),
    }
}

} // verus!
