use sudoors::agent::{server_url, State, SudoResponse};
use sudoors::cli::SudoClient;
use sudoors::common::models::Sudo as Row;
use sudoors::common::sudo::Sudo;
use sudoors::server::grpc::SudoingService;
use sudoors::server::http::get_sudoers;

fn answer(names: &[&str]) -> Vec<SudoResponse> {
    names.iter().map(|n| SudoResponse { username: n.to_string() }).collect()
}

fn strings(items: &[&str]) -> Vec<String> {
    items.iter().map(|s| s.to_string()).collect()
}

#[test]
fn first_poll_creates_every_reported_user() {
    let state = State::new();
    assert!(state.users().is_empty());
    let plan = state.plan(&answer(&["a", "b"]));
    assert_eq!(plan.create, strings(&["a", "b"]));
    assert!(plan.delete.is_empty());
}

#[test]
fn poll_creates_new_and_deletes_gone_users() {
    let mut state = State::new();
    state.commit(&answer(&["a", "b", "c"]));
    let resp = answer(&["c", "d", "a"]);
    let plan = state.plan(&resp);
    assert_eq!(plan.create, strings(&["d"]));
    assert_eq!(plan.delete, strings(&["b"]));
    state.commit(&resp);
    assert_eq!(state.users(), &strings(&["c", "d", "a"]));
}

#[test]
fn repeated_poll_changes_nothing() {
    let mut state = State::new();
    let resp = answer(&["x", "y", "x"]);
    state.commit(&resp);
    let plan = state.plan(&resp);
    assert!(plan.create.is_empty());
    assert!(plan.delete.is_empty());
}

#[test]
fn user_reported_twice_is_created_twice() {
    let state = State::new();
    let plan = state.plan(&answer(&["x", "x"]));
    assert_eq!(plan.create, strings(&["x", "x"]));
}

#[test]
fn empty_answer_deletes_everyone() {
    let mut state = State::new();
    state.commit(&answer(&["a", "b"]));
    let plan = state.plan(&Vec::new());
    assert!(plan.create.is_empty());
    assert_eq!(plan.delete, strings(&["a", "b"]));
    state.commit(&Vec::new());
    assert!(state.users().is_empty());
}

#[test]
fn agent_polls_http_url() {
    assert_eq!(server_url("10.0.0.1", 50051), "http://10.0.0.1:50051");
    assert_eq!(server_url("host", 0), "http://host:0");
}

#[test]
fn client_posts_grant_to_sudo_endpoint() {
    let client = SudoClient::new("http://localhost:8000");
    let req = client.register_sudoer("thomas", 10, strings(&["a", "b"]));
    assert_eq!(req.url, "http://localhost:8000/sudo");
    assert_eq!(req.data.username, "thomas");
    assert_eq!(req.data.duration, 10);
    assert_eq!(req.data.hostnames, Some(strings(&["a", "b"])));
}

#[test]
fn grpc_answer_names_users_on_host() {
    let rows = vec![
        Row { id: 1, username: "alice".to_string(), hostnames: "Tonic;db".to_string() },
        Row { id: 2, username: "bob".to_string(), hostnames: "db".to_string() },
        Row { id: 3, username: "carol".to_string(), hostnames: "Tonic".to_string() },
    ];
    let names = SudoingService {}.sudo(rows, "Tonic");
    assert_eq!(names, strings(&["alice", "carol"]));
}

#[test]
fn http_listing_is_one_line_per_grant() {
    let sudos = vec![
        Sudo { username: "a".to_string(), duration: 0, hostnames: Some(strings(&["h1", "h2"])) },
        Sudo { username: "b".to_string(), duration: 5, hostnames: Some(strings(&["h3"])) },
    ];
    assert_eq!(
        get_sudoers(&sudos),
        "User a has access to h1,h2 for 0\nUser b has access to h3 for 5"
    );
    assert_eq!(get_sudoers(&Vec::new()), "");
}
