use sudoors::common::db::{create_sudo, get_sudo_for_hostname};
use sudoors::common::models::{hostnames_text, Sudo as Row};
use sudoors::common::sudo::{
    get_sudoers, get_sudoers_for_hostname, register_sudoer, revoke_sudoer, Sudo, SudoConfig,
    SudoError,
};
use sudoors::common::templates::is_plain_template;
use sudoors::text::{contains, decimal_string, join, split};

fn strings(items: &[&str]) -> Vec<String> {
    items.iter().map(|s| s.to_string()).collect()
}

fn row(id: i32, username: &str, hostnames: &str) -> Row {
    Row { id, username: username.to_string(), hostnames: hostnames.to_string() }
}

#[test]
fn join_puts_separator_between_parts() {
    assert_eq!(join(&strings(&["a", "b", "c"]), ";"), "a;b;c");
    assert_eq!(join(&strings(&["only"]), ";"), "only");
    assert_eq!(join(&Vec::new(), ";"), "");
}

#[test]
fn split_keeps_empty_pieces() {
    assert_eq!(split("a;b", ';'), strings(&["a", "b"]));
    assert_eq!(split("", ';'), strings(&[""]));
    assert_eq!(split("a;", ';'), strings(&["a", ""]));
    assert_eq!(split(";;", ';'), strings(&["", "", ""]));
    assert_eq!(split("héllo;wörld", ';'), strings(&["héllo", "wörld"]));
}

#[test]
fn contains_finds_pieces_of_text() {
    assert!(contains("webserver;db", "web"));
    assert!(contains("webserver;db", "r;d"));
    assert!(contains("abc", ""));
    assert!(!contains("abc", "abcd"));
    assert!(!contains("abc", "ac"));
}

#[test]
fn decimal_string_matches_to_string() {
    for n in [0u64, 7, 10, 99, 100, 12345, u64::MAX] {
        assert_eq!(decimal_string(n), n.to_string());
    }
}

#[test]
fn stored_hostnames_are_joined_by_semicolons() {
    assert_eq!(hostnames_text(&Some(strings(&["web", "db"]))), "web;db");
    assert_eq!(hostnames_text(&None), "");
    assert_eq!(hostnames_text(&Some(Vec::new())), "");
}

#[test]
fn record_reads_back_as_grant_without_duration() {
    let grant = row(4, "alice", "web;db").to_sudo();
    assert_eq!(grant.username, "alice");
    assert_eq!(grant.duration, 0);
    assert_eq!(grant.hostnames, Some(strings(&["web", "db"])));
}

#[test]
fn stored_hosts_read_back_unchanged() {
    let hosts = strings(&["web", "db", "cache"]);
    let plan = create_sudo("alice", Some(hosts.clone()), &Vec::new());
    let stored = row(1, &plan.new_sudo.username, &plan.new_sudo.hostnames);
    let grant = stored.to_sudo();
    assert_eq!(grant.username, "alice");
    assert_eq!(grant.hostnames, Some(hosts));
}

#[test]
fn empty_host_list_reads_back_as_one_empty_name() {
    let plan = create_sudo("alice", None, &Vec::new());
    let grant = row(1, "alice", &plan.new_sudo.hostnames).to_sudo();
    assert_eq!(grant.hostnames, Some(strings(&[""])));
}

#[test]
fn field_read_and_stored_again_is_unchanged() {
    for field in ["", "a", "a;b", ";x;", "one;;two"] {
        let hosts = row(1, "u", field).to_sudo().hostnames;
        assert_eq!(hostnames_text(&hosts), field);
    }
}

#[test]
fn create_replaces_existing_records() {
    let existing = vec![row(1, "alice", "old")];
    let plan = create_sudo("alice", Some(strings(&["new"])), &existing);
    assert!(plan.delete_existing);
    assert_eq!(plan.new_sudo.username, "alice");
    assert_eq!(plan.new_sudo.hostnames, "new");
    let fresh = create_sudo("bob", Some(strings(&["a", "b"])), &Vec::new());
    assert!(!fresh.delete_existing);
    assert_eq!(fresh.new_sudo.hostnames, "a;b");
}

#[test]
fn hostname_filter_matches_part_of_field() {
    let rows = vec![row(1, "alice", "webserver;db"), row(2, "bob", "cache"), row(3, "carol", "web")];
    let kept = get_sudo_for_hostname(rows, "web");
    let names: Vec<&str> = kept.iter().map(|r| r.username.as_str()).collect();
    assert_eq!(names, vec!["alice", "carol"]);
    assert_eq!(kept[0].id, 1);
    assert_eq!(kept[1].id, 3);
}

#[test]
fn hostname_filter_can_keep_nothing() {
    let rows = vec![row(1, "alice", "db")];
    assert!(get_sudo_for_hostname(rows, "web").is_empty());
}

#[test]
fn grants_of_records_keep_order() {
    let rows = vec![row(1, "alice", "a"), row(2, "alice", "b;c")];
    let grants = get_sudoers(&rows);
    assert_eq!(grants.len(), 2);
    assert_eq!(grants[0].hostnames, Some(strings(&["a"])));
    assert_eq!(grants[1].hostnames, Some(strings(&["b", "c"])));
}

#[test]
fn grants_for_hostname() {
    let rows = vec![row(1, "alice", "web"), row(2, "bob", "db")];
    let grants = get_sudoers_for_hostname(rows, "db");
    assert_eq!(grants.len(), 1);
    assert_eq!(grants[0].username, "bob");
    assert_eq!(grants[0].duration, 0);
}

#[test]
fn grant_in_words() {
    let grant = Sudo { username: "thomas".to_string(), duration: 10, hostnames: Some(strings(&["a", "b"])) };
    assert_eq!(grant.to_string(), "User thomas has access to a,b for 10");
    let nowhere = Sudo { username: "x".to_string(), duration: 0, hostnames: Some(Vec::new()) };
    assert_eq!(nowhere.to_string(), "User x has access to  for 0");
}


#[test]
fn register_reports_and_keeps_the_grant() {
    let grant = Sudo { username: "thomas".to_string(), duration: 10, hostnames: Some(strings(&["h"])) };
    let reg = register_sudoer(&grant);
    assert_eq!(reg.username, "thomas");
    assert_eq!(reg.hostnames, Some(strings(&["h"])));
    assert_eq!(reg.lifetime_secs, 10);
    assert_eq!(reg.message, "User thomas has been registered");
}

#[test]
fn revoke_reports_or_passes_error_on() {
    let ok: Result<String, String> = revoke_sudoer("bob", Ok(2));
    assert_eq!(ok, Ok("User bob has been revoked".to_string()));
    let none_deleted: Result<String, String> = revoke_sudoer("bob", Ok(0));
    assert_eq!(none_deleted, Ok("User bob has been revoked".to_string()));
    let err: Result<String, String> = revoke_sudoer("bob", Err("db down".to_string()));
    assert_eq!(err, Err("db down".to_string()));
}

fn config() -> SudoConfig {
    SudoConfig { location: "/etc/sudoers.d/sudoors".to_string() }
}

const TEMPLATE: &str = "{{ username }} ALL=(ALL) NOPASSWD:ALL\n";

#[test]
fn plain_templates_hold_only_the_username_tag() {
    assert!(is_plain_template(TEMPLATE));
    assert!(is_plain_template(""));
    assert!(is_plain_template("no tags at all } }}"));
    assert!(is_plain_template("{{ username }}{{ username }}"));
    assert!(is_plain_template("{{username}}"));
    assert!(is_plain_template("{{\tusername\n}}"));
    assert!(is_plain_template("{# note #}{{ username }}"));
    assert!(is_plain_template("{# a } b #}"));
    assert!(!is_plain_template("{{ user }}"));
    assert!(!is_plain_template("{{ usernames }}"));
    assert!(!is_plain_template("{{- username }}"));
    assert!(!is_plain_template("{{ username -}}"));
    assert!(!is_plain_template("{% if true %}x{% endif %}"));
    assert!(!is_plain_template("{{ 1e400 }}"));
    assert!(!is_plain_template("{#- note #}"));
    assert!(!is_plain_template("{# note -#}"));
    assert!(!is_plain_template("{##}"));
    assert!(!is_plain_template("{# open"));
    assert!(!is_plain_template("{{ username "));
}

#[test]
fn comments_and_spacing_render_as_tera_does() {
    for template in ["{# note #}{{ username }} x", "{{username}} x", "{{  username\t}} x"] {
        let file = config().create_sudoer_file(template, "eve").unwrap();
        let mut t = tera::Tera::default();
        t.add_raw_template("sudoers.j2", template).unwrap();
        let mut ctx = tera::Context::new();
        ctx.insert("username", "eve");
        assert_eq!(file.content, t.render("sudoers.j2", &ctx).unwrap());
        assert_eq!(file.content, "eve x");
    }
}

#[test]
fn sudoer_file_from_rendered_text() {
    let file = config().sudoer_file("alice", Ok("content".to_string())).unwrap();
    assert_eq!(file.path, "/etc/sudoers.d/sudoors/alice");
    assert_eq!(file.content, "content");
    assert_eq!(file.message, "File has been created for alice");
}

#[test]
fn sudoer_file_reports_render_error() {
    match config().sudoer_file("alice", Err(tera::Error::msg("broken"))) {
        Err(SudoError::Template(e)) => assert_eq!(e.to_string(), "broken"),
        _ => panic!("expected a render error"),
    }
}

#[test]
fn create_sudoer_file_renders_the_template() {
    let file = config().create_sudoer_file(TEMPLATE, "alice").unwrap();
    assert_eq!(file.path, "/etc/sudoers.d/sudoors/alice");
    assert_eq!(file.content, "alice ALL=(ALL) NOPASSWD:ALL\n");
    assert_eq!(file.message, "File has been created for alice");
}

#[test]
fn create_sudoer_file_fills_every_tag() {
    let file = config().create_sudoer_file("{{ username }}:{{ username }}", "bob").unwrap();
    assert_eq!(file.content, "bob:bob");
    let plain = config().create_sudoer_file("Defaults !lecture\n", "bob").unwrap();
    assert_eq!(plain.content, "Defaults !lecture\n");
}

#[test]
fn create_sudoer_file_refuses_other_templates() {
    let res = config().create_sudoer_file("{% for x in range(end=3) %}{{ x }}{% endfor %}", "alice");
    assert!(matches!(res, Err(SudoError::UnsupportedTemplate)));
    let float = config().create_sudoer_file("{{ 1.5 + 2.5 }}", "alice");
    assert!(matches!(float, Err(SudoError::UnsupportedTemplate)));
}

#[test]
fn temporary_sudoer_is_removed_after_its_duration() {
    let grant = Sudo { username: "bob".to_string(), duration: 30, hostnames: None };
    let t = config().create_temporary_sudoer(TEMPLATE, &grant).unwrap();
    assert_eq!(t.file.path, "/etc/sudoers.d/sudoors/bob");
    assert_eq!(t.file.content, "bob ALL=(ALL) NOPASSWD:ALL\n");
    assert_eq!(t.file.message, "File has been created for bob");
    assert_eq!(t.lifetime_secs, 30);
}

#[test]
fn temporary_sudoer_refuses_other_templates() {
    let grant = Sudo { username: "bob".to_string(), duration: 30, hostnames: None };
    let res = config().create_temporary_sudoer("{{ username | upper }}", &grant);
    assert!(matches!(res, Err(SudoError::UnsupportedTemplate)));
}

#[test]
fn standalone_request_from_readme() {
    let grant = Sudo { username: "thomas".to_string(), duration: 10, hostnames: None };
    let t = config().create_temporary_sudoer(TEMPLATE, &grant).unwrap();
    assert_eq!(t.file.path, "/etc/sudoers.d/sudoors/thomas");
    assert_eq!(t.file.content, "thomas ALL=(ALL) NOPASSWD:ALL\n");
    assert_eq!(t.file.message, "File has been created for thomas");
    assert_eq!(t.lifetime_secs, 10);
}

#[test]
fn removals_name_their_target() {
    let all = config().delete_all_sudoers();
    assert_eq!(all.target, "/etc/sudoers.d/sudoors");
    assert_eq!(all.message, "All files have been deleted at /etc/sudoers.d/sudoors");
    let one = config().delete_sudoer("bob");
    assert_eq!(one.target, "/etc/sudoers.d/sudoors/bob");
    assert_eq!(one.message, "File has been deleted at /etc/sudoers.d/sudoors/bob");
}
