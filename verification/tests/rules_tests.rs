use dnsnet_core::controller::VpnController;
use dnsnet_core::rules::HostnameAction;
use dnsnet_core::rules::LoadedHost;
use dnsnet_core::rules::NativeHost;
use dnsnet_core::rules::NativeHostState;
use dnsnet_core::rules::RuleDatabase;
use dnsnet_core::rules::RuleDatabaseError;
use dnsnet_core::rules::RuleMap;

fn controller() -> VpnController {
    VpnController::new(-1)
}

fn single(data: &str, state: NativeHostState) -> LoadedHost {
    LoadedHost {
        host: NativeHost {
            title: String::from(data),
            data: String::from(data),
            state,
        },
        lines: None,
    }
}

fn db_with(items: Vec<LoadedHost>, exceptions: Vec<NativeHost>) -> RuleDatabase {
    let mut db = RuleDatabase::new();
    db.initialize(&controller(), items, exceptions)
        .map_err(|_| ())
        .expect("build was not cancelled");
    db
}

#[test]
fn parse_line_strips_address_and_comment() {
    assert_eq!(
        RuleDatabase::parse_line("127.0.0.1 ads.example.com # comment"),
        Some(String::from("ads.example.com"))
    );
}

#[test]
fn parse_line_rejects_empty_and_blank() {
    assert_eq!(RuleDatabase::parse_line(""), None);
    assert_eq!(RuleDatabase::parse_line("   \t "), None);
}

#[test]
fn parse_line_rejects_double_hash() {
    assert_eq!(RuleDatabase::parse_line("127.0.0.1 x.com ## cosmetic rule"), None);
    assert_eq!(RuleDatabase::parse_line("##"), None);
}

#[test]
fn parse_line_other_address_literals() {
    assert_eq!(
        RuleDatabase::parse_line("0.0.0.0 tracker.example.net"),
        Some(String::from("tracker.example.net"))
    );
    assert_eq!(
        RuleDatabase::parse_line("::1 local.alias"),
        Some(String::from("local.alias"))
    );
}

#[test]
fn parse_line_lowercases() {
    assert_eq!(
        RuleDatabase::parse_line("127.0.0.1 ADS.Example.COM"),
        Some(String::from("ads.example.com"))
    );
}

#[test]
fn parse_line_plain_hostname() {
    assert_eq!(
        RuleDatabase::parse_line("ads.example.com"),
        Some(String::from("ads.example.com"))
    );
}

#[test]
fn parse_line_rejects_inner_whitespace() {
    assert_eq!(RuleDatabase::parse_line("127.0.0.1 a b"), None);
}

#[test]
fn parse_line_comment_only_after_address() {
    assert_eq!(RuleDatabase::parse_line("127.0.0.1 # nothing here"), None);
}

#[test]
fn add_host_accepts_both_wildcard_forms() {
    let c = controller();
    for form in ["*.ads.example.com", "||ads.example.com^"] {
        let mut hosts = RuleMap::new();
        let mut patterns = RuleMap::new();
        let r = RuleDatabase::add_host(
            &c,
            &mut hosts,
            &mut patterns,
            &NativeHostState::DENY,
            String::from(form),
        );
        assert!(r.is_ok());
        assert_eq!(patterns.get("ads.example.com"), Some(HostnameAction::Deny));
        assert_eq!(hosts.get("ads.example.com"), None);
    }
}

#[test]
fn add_host_rejects_bad_formats() {
    let c = controller();
    let mut hosts = RuleMap::new();
    let mut patterns = RuleMap::new();
    for bad in ["", "a", "||no-caret", "b@d.example.com", "sp ace.com"] {
        let r = RuleDatabase::add_host(
            &c,
            &mut hosts,
            &mut patterns,
            &NativeHostState::DENY,
            String::from(bad),
        );
        assert_eq!(r, Err(RuleDatabaseError::BadHostFormat), "input {:?}", bad);
    }
}

#[test]
fn add_host_observes_cancellation() {
    let c = controller();
    c.stop();
    let mut hosts = RuleMap::new();
    let mut patterns = RuleMap::new();
    let r = RuleDatabase::add_host(
        &c,
        &mut hosts,
        &mut patterns,
        &NativeHostState::DENY,
        String::from("ads.example.com"),
    );
    assert_eq!(r, Err(RuleDatabaseError::Interrupted));
}

#[test]
fn initialize_observes_cancellation() {
    let c = controller();
    c.stop();
    let mut db = RuleDatabase::new();
    let r = db.initialize(&c, vec![single("ads.example.com", NativeHostState::DENY)], vec![]);
    assert!(r.is_err());
    assert!(!db.is_blocked("ads.example.com"));
}

#[test]
fn exception_allow_overrides_item_deny() {
    let db = db_with(
        vec![single("ads.example.com", NativeHostState::DENY)],
        vec![NativeHost {
            title: String::from("exception"),
            data: String::from("ads.example.com"),
            state: NativeHostState::ALLOW,
        }],
    );
    assert!(!db.is_blocked("ads.example.com"));
}

#[test]
fn same_tier_allow_beats_deny() {
    let db = db_with(
        vec![
            single("ads.example.com", NativeHostState::ALLOW),
            single("ads.example.com", NativeHostState::DENY),
        ],
        vec![],
    );
    assert!(!db.is_blocked("ads.example.com"));
}

#[test]
fn ignored_sources_contribute_nothing() {
    let db = db_with(vec![single("ads.example.com", NativeHostState::IGNORE)], vec![]);
    assert!(!db.is_blocked("ads.example.com"));
}

#[test]
fn file_lines_are_parsed() {
    let db = db_with(
        vec![LoadedHost {
            host: NativeHost {
                title: String::from("list"),
                data: String::from("hosts.txt"),
                state: NativeHostState::DENY,
            },
            lines: Some(vec![
                String::from("# a comment"),
                String::from(""),
                String::from("127.0.0.1 ads.example.com # tracked"),
                String::from("0.0.0.0 tracker.example.net"),
                String::from("not a valid line at all"),
            ]),
        }],
        vec![],
    );
    assert!(db.is_blocked("ads.example.com"));
    assert!(db.is_blocked("tracker.example.net"));
    assert!(!db.is_blocked("safe.example.com"));
}

#[test]
fn pattern_matches_subdomains() {
    let db = db_with(vec![single("*.example.com", NativeHostState::DENY)], vec![]);
    assert!(db.is_blocked("a.b.example.com"));
    assert!(db.is_blocked("c.example.com"));
    assert!(db.is_blocked("example.com"));
    assert!(!db.is_blocked("example.org"));
}

#[test]
fn exact_allow_overrides_pattern_deny() {
    let db = db_with(
        vec![
            single("*.example.com", NativeHostState::DENY),
            single("a.b.example.com", NativeHostState::ALLOW),
        ],
        vec![],
    );
    assert!(!db.is_blocked("a.b.example.com"));
    assert!(db.is_blocked("b.example.com"));
}

#[test]
fn bare_top_level_pattern_needs_full_match() {
    let db = db_with(vec![single("*.com", NativeHostState::DENY)], vec![]);
    assert!(!db.is_blocked("foo.com"));
    assert!(db.is_blocked("com"));
}

#[test]
fn empty_database_blocks_nothing() {
    let db = RuleDatabase::new();
    assert!(!db.is_blocked("anything.example.com"));
}
