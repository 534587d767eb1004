use sshrs::completer::Completer;
use sshrs::configstore::{ConfigStore, SshItem};
use sshrs::controller::{first_token, App, Key, Mode, Step};
use sshrs::searcher::Searcher;
use sshrs::text::{contains, starts_with};

fn item(host: &str) -> SshItem {
    SshItem::resolve(host.to_string(), None, None, None, None, "me")
}

fn store(hosts: &[&str]) -> ConfigStore {
    ConfigStore::new(hosts.iter().map(|h| item(h)).collect())
}

fn hosts_of(v: &[&SshItem]) -> Vec<String> {
    v.iter().map(|i| i.host.clone()).collect()
}

#[test]
fn substring_and_prefix_tests() {
    assert!(contains("gamma", "mm"));
    assert!(contains("gamma", ""));
    assert!(!contains("beta", "a b"));
    assert!(!contains("ab", "abc"));
    assert!(contains("héllo", "él"));
    assert!(starts_with("web1", "w"));
    assert!(starts_with("web1", "web1"));
    assert!(!starts_with("web1", "eb"));
    assert!(!starts_with("w", "web"));
}

#[test]
fn resolve_fills_defaults() {
    let it = item("alpha");
    assert_eq!(it.host, "alpha");
    assert_eq!(it.user, "me");
    assert_eq!(it.target, "alpha");
    assert_eq!(it.port, "22");
    assert_eq!(it.jump, "");
    let it = SshItem::resolve(
        "db".to_string(),
        Some("root".to_string()),
        Some("10.0.0.5".to_string()),
        Some("2222".to_string()),
        Some("bastion".to_string()),
        "me",
    );
    assert_eq!(it.user, "root");
    assert_eq!(it.target, "10.0.0.5");
    assert_eq!(it.port, "2222");
    assert_eq!(it.jump, "bastion");
}

#[test]
fn all_hosts_in_order() {
    let s = store(&["c", "a", "b"]);
    assert_eq!(hosts_of(&s.get_all_hosts()), vec!["c", "a", "b"]);
}

#[test]
fn empty_query_returns_catalog() {
    let s = store(&["alpha", "beta", "gamma"]);
    let q = Searcher::new("");
    assert_eq!(hosts_of(&q.get_filtered_hosts(&s)), vec!["alpha", "beta", "gamma"]);
}

#[test]
fn query_keeps_matching_in_order() {
    let s = store(&["alpha", "beta", "gamma"]);
    let q = Searcher::new("a");
    assert_eq!(hosts_of(&q.get_filtered_hosts(&s)), vec!["alpha", "beta", "gamma"]);
    let q = Searcher::new("mm");
    assert_eq!(hosts_of(&q.get_filtered_hosts(&s)), vec!["gamma"]);
    let q = Searcher::new("Alpha");
    assert!(q.get_filtered_hosts(&s).is_empty());
}

#[test]
fn filtering_twice_is_filtering_once() {
    let s = store(&["web1", "db", "web2", "cache"]);
    let q = Searcher::new("eb");
    let once: Vec<SshItem> = q.get_filtered_hosts(&s).into_iter().cloned().collect();
    let again_store = ConfigStore::new(once.clone());
    let twice = q.get_filtered_hosts(&again_store);
    assert_eq!(hosts_of(&twice), vec!["web1", "web2"]);
    assert_eq!(once.len(), twice.len());
}

#[test]
fn searcher_edits() {
    let mut q = Searcher::new("");
    q.del_char();
    assert_eq!(q.search_string, "");
    q.add_char('a');
    q.add_char('b');
    assert_eq!(q.search_string, "ab");
    q.del_char();
    assert_eq!(q.search_string, "a");
}

#[test]
fn rotation_wraps_both_ways() {
    let mut app = App::new(store(&["a1", "a2", "a3"]), "");
    assert_eq!(app.selected, Some(0));
    app.change_selected_item(false);
    assert_eq!(app.selected, Some(2));
    app.change_selected_item(true);
    assert_eq!(app.selected, Some(0));
    app.change_selected_item(true);
    app.change_selected_item(true);
    assert_eq!(app.selected, Some(2));
    app.change_selected_item(true);
    assert_eq!(app.selected, Some(0));
}

#[test]
fn rotation_on_empty_list_is_noop() {
    let mut app = App::new(store(&["a1", "a2"]), "zzz");
    app.change_selected_item(true);
    assert_eq!(app.selected, Some(0));
    app.selected = None;
    app.change_selected_item(false);
    assert_eq!(app.selected, None);
}

#[test]
fn rotation_after_refilter_stays_in_range() {
    let mut app = App::new(store(&["a1", "b1", "a2", "b2", "a3"]), "");
    app.selected = Some(4);
    app.add_char('b');
    assert!(app.get_selected_item().is_none());
    app.change_selected_item(true);
    assert_eq!(app.selected, Some(1));
    assert_eq!(app.get_selected_item().unwrap().host, "b2");
}

#[test]
fn completion_cycles_through_candidates() {
    let s = store(&["web1", "db", "web2", "web3"]);
    let mut c = Completer::new();
    c.add_char('w');
    c.complete(&s);
    assert_eq!(c.display_string, "web1,");
    c.complete(&s);
    assert_eq!(c.display_string, "web2,");
    c.complete(&s);
    assert_eq!(c.display_string, "web3,");
    c.complete(&s);
    assert_eq!(c.display_string, "web1,");
}

#[test]
fn completion_builds_chain() {
    let s = store(&["h1", "web1", "db"]);
    let mut c = Completer::new();
    for ch in "h1,w".chars() {
        c.add_char(ch);
    }
    c.complete(&s);
    assert_eq!(c.jumpers_string, "h1");
    assert_eq!(c.search_string, "w");
    assert_eq!(c.display_string, "h1,web1,");
    assert_eq!(c.jump_chain(), "h1,web1");
}

#[test]
fn completion_after_trailing_comma_offers_all_hosts() {
    let s = store(&["h1", "web1"]);
    let mut c = Completer::new();
    for ch in "h1,".chars() {
        c.add_char(ch);
    }
    c.complete(&s);
    assert_eq!(c.display_string, "h1,h1,");
    c.complete(&s);
    assert_eq!(c.display_string, "h1,web1,");
}

#[test]
fn completion_without_candidates_is_noop() {
    let s = store(&["web1"]);
    let mut c = Completer::new();
    c.add_char('x');
    c.complete(&s);
    assert_eq!(c.display_string, "x");
    assert!(c.has_popup_input);
    let empty = store(&[]);
    let mut c = Completer::new();
    c.complete(&empty);
    assert_eq!(c.display_string, "");
}

#[test]
fn finalizability_of_chains() {
    let s = store(&["h1", "web1"]);
    let mut c = Completer::new();
    assert!(c.is_finalizable());
    for ch in "h1,w".chars() {
        c.add_char(ch);
    }
    assert_eq!(c.display_string, "h1,w");
    assert!(!c.is_finalizable());
    c.complete(&s);
    assert_eq!(c.display_string, "h1,web1,");
    assert!(c.is_finalizable());
    c.clear();
    assert_eq!(c.display_string, "");
    assert_eq!(c.jumpers_string, "");
    assert!(c.is_finalizable());
}

#[test]
fn deleting_reopens_edit() {
    let s = store(&["web1"]);
    let mut c = Completer::new();
    c.del_char();
    assert_eq!(c.display_string, "");
    c.add_char('w');
    c.complete(&s);
    c.del_char();
    assert_eq!(c.display_string, "web1");
    assert!(!c.is_finalizable());
    assert_eq!(c.jump_chain(), "web1");
}

#[test]
fn trailing_commas_are_trimmed() {
    let mut c = Completer::new();
    for ch in "a,b,,".chars() {
        c.add_char(ch);
    }
    assert_eq!(c.jump_chain(), "a,b");
}

#[test]
fn first_token_of_annotated_host() {
    assert_eq!(first_token("web1 production"), "web1");
    assert_eq!(first_token("web1"), "web1");
    assert_eq!(first_token(""), "");
    assert_eq!(first_token(" x"), "");
}

#[test]
fn end_to_end_selection() {
    let mut app = App::new(store(&["alpha", "beta", "gamma"]), "");
    assert_eq!(app.handle_key(Key::Char('a')), Step::Continue);
    let shown: Vec<String> = hosts_of(&app.get_filtered_items());
    assert_eq!(shown, vec!["alpha", "beta", "gamma"]);
    assert_eq!(app.selected, Some(0));
    assert_eq!(app.handle_key(Key::Down), Step::Continue);
    assert_eq!(app.selected, Some(1));
    assert_eq!(app.get_selected_item().unwrap().host, "beta");
    assert_eq!(app.handle_key(Key::Confirm), Step::Continue);
    assert_eq!(app.mode, Mode::ComposingJumps);
    assert_eq!(app.launch_target(), None);
    assert_eq!(app.handle_key(Key::Confirm), Step::Launch);
    assert!(app.should_spawn_ssh);
    assert_eq!(app.launch_target(), Some(("beta".to_string(), String::new())));
}

#[test]
fn end_to_end_with_gamma() {
    let mut app = App::new(store(&["alpha", "beta", "gamma"]), "");
    app.handle_key(Key::Char('m'));
    assert_eq!(hosts_of(&app.get_filtered_items()), vec!["gamma"]);
    app.handle_key(Key::Confirm);
    assert_eq!(app.handle_key(Key::Confirm), Step::Launch);
    assert_eq!(app.launch_target(), Some(("gamma".to_string(), String::new())));
}

#[test]
fn cancel_closes_editor_then_quits() {
    let mut app = App::new(store(&["alpha", "web1"]), "");
    app.handle_key(Key::Confirm);
    assert_eq!(app.mode, Mode::ComposingJumps);
    app.handle_key(Key::Char('w'));
    assert_eq!(app.completer.display_string, "w");
    assert_eq!(app.searcher.search_string, "");
    assert_eq!(app.handle_key(Key::Confirm), Step::Continue);
    assert!(!app.should_spawn_ssh);
    assert_eq!(app.handle_key(Key::Cancel), Step::Continue);
    assert_eq!(app.mode, Mode::Searching);
    assert_eq!(app.completer.display_string, "");
    assert_eq!(app.handle_key(Key::Cancel), Step::Quit);
}

#[test]
fn confirm_without_selection_is_absorbed() {
    let mut app = App::new(store(&["alpha"]), "zzz");
    assert_eq!(app.handle_key(Key::Confirm), Step::Continue);
    assert_eq!(app.mode, Mode::Searching);
    app.handle_key(Key::Delete);
    app.handle_key(Key::Delete);
    app.handle_key(Key::Delete);
    assert_eq!(app.searcher.search_string, "");
    app.handle_key(Key::Delete);
    assert_eq!(app.searcher.search_string, "");
    assert_eq!(app.handle_key(Key::Confirm), Step::Continue);
    assert_eq!(app.mode, Mode::ComposingJumps);
}

#[test]
fn jump_chain_through_keys() {
    let mut app = App::new(store(&["target", "h1", "web1"]), "");
    app.handle_key(Key::Confirm);
    for ch in "h1,w".chars() {
        app.handle_key(Key::Char(ch));
    }
    assert_eq!(app.handle_key(Key::Confirm), Step::Continue);
    assert_eq!(app.handle_key(Key::Completion), Step::Continue);
    assert_eq!(app.completer.display_string, "h1,web1,");
    assert_eq!(app.handle_key(Key::Confirm), Step::Launch);
    assert_eq!(
        app.launch_target(),
        Some(("target".to_string(), "h1,web1".to_string()))
    );
}

#[test]
fn navigation_ignored_while_composing_and_completion_while_searching() {
    let mut app = App::new(store(&["a1", "a2"]), "");
    app.handle_key(Key::Completion);
    assert_eq!(app.completer.display_string, "");
    app.handle_key(Key::Confirm);
    app.handle_key(Key::Down);
    assert_eq!(app.selected, Some(0));
    app.handle_key(Key::Other);
    assert_eq!(app.mode, Mode::ComposingJumps);
}

#[test]
fn repeated_completion_increments_index() {
    let s = store(&["web1", "db"]);
    let mut c = Completer::new();
    c.add_char('w');
    c.complete(&s);
    assert_eq!(c.idx, 1);
    assert_eq!(c.display_string, "web1,");
    c.complete(&s);
    assert_eq!(c.idx, 2);
    assert_eq!(c.display_string, "web1,");
    c.add_char('x');
    assert_eq!(c.idx, 2);
    assert_eq!(c.match_jumpers, vec!["web1".to_string()]);
    assert_eq!(c.search_string, "w");
}

#[test]
fn new_app_has_empty_composer() {
    let app = App::new(store(&["a"]), "q");
    assert_eq!(app.completer.display_string, "");
    assert_eq!(app.completer.jumpers_string, "");
    assert_eq!(app.completer.search_string, "");
    assert!(app.completer.match_jumpers.is_empty());
    assert_eq!(app.completer.idx, 0);
    assert_eq!(app.mode, Mode::Searching);
    assert!(!app.should_spawn_ssh);
}
