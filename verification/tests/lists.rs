use pihole_api::env::{Config, Env, PiholeFile};
use pihole_api::routes::dns::common::{is_valid_domain, is_valid_regex};
use pihole_api::routes::dns::list::List;
use pihole_api::services::lists::{
    check_absent, check_present, ignore_not_found, reload_option, ListRepository, ListService,
    ListServiceImpl, ListUpdate, RECOMPILE_REGEX,
};
use pihole_api::util::{Error, ErrorKind};

/// Populate the list file with the initial data (if it exists), read the
/// list, and assert that we got back the expected data.
fn get_test(list: List, expected: Vec<String>, initial_data: Option<&str>) {
    let env = if let Some(initial_data) = initial_data {
        Env::test(Config::default()).file(list.file(), initial_data)
    } else {
        Env::test(Config::default())
    };

    let actual = list.get(&env).unwrap();

    assert_eq!(actual, expected);
}

/// The whitelist is retrieved when it exists
#[test]
fn get_whitelist() {
    get_test(
        List::White,
        vec!["example.com".to_owned(), "example.net".to_owned()],
        Some("example.com\nexample.net\n"),
    );
}

/// The whitelist is empty when the file does not exist
#[test]
fn get_whitelist_empty() {
    get_test(List::White, Vec::new(), None);
}

/// The blacklist is retrieved when it exists
#[test]
fn get_blacklist() {
    get_test(
        List::Black,
        vec!["example.com".to_owned(), "example.net".to_owned()],
        Some("example.com\nexample.net\n"),
    );
}

/// The blacklist is empty when the file does not exist
#[test]
fn get_blacklist_empty() {
    get_test(List::Black, Vec::new(), None);
}

/// The regexlist is retrieved when it exists
#[test]
fn get_regexlist() {
    get_test(
        List::Regex,
        vec!["^.*example.com$".to_owned(), "example.net".to_owned()],
        Some("^.*example.com$\nexample.net\n"),
    );
}

/// The regexlist is empty when the file does not exist
#[test]
fn get_regexlist_empty() {
    get_test(List::Regex, Vec::new(), None);
}

/// Empty lines name no domain
#[test]
fn get_skips_empty_lines() {
    get_test(
        List::White,
        vec!["example.com".to_owned(), "example.net".to_owned()],
        Some("\nexample.com\n\n\nexample.net"),
    );
}

/// The files of the lists
#[test]
fn list_files() {
    assert_eq!(List::White.file(), PiholeFile::Whitelist);
    assert_eq!(List::Black.file(), PiholeFile::Blacklist);
    assert_eq!(List::Regex.file(), PiholeFile::Regexlist);
}

/// Adding to a list puts the domain at the end of its file
#[test]
fn add_to_list_file() {
    let mut env = Env::test(Config::default()).file(PiholeFile::Whitelist, "example.com\n");
    List::White.add("example.net", &mut env).unwrap();
    assert_eq!(
        env.read_file_lines(PiholeFile::Whitelist).unwrap(),
        &vec!["example.com".to_owned(), "example.net".to_owned()]
    );
    assert_eq!(
        List::White.add("example.net", &mut env).unwrap_err().kind(),
        ErrorKind::AlreadyExists
    );
    assert_eq!(
        List::White.add("not a domain", &mut env).unwrap_err().kind(),
        ErrorKind::InvalidDomain
    );
    assert_eq!(
        env.read_file_lines(PiholeFile::Whitelist).unwrap(),
        &vec!["example.com".to_owned(), "example.net".to_owned()]
    );

    // The file is made where it does not exist
    List::Black.add("example.org", &mut env).unwrap();
    assert_eq!(env.read_file_lines(PiholeFile::Blacklist).unwrap(), &vec!["example.org".to_owned()]);
}

/// Removing from a list takes the domain out of its file
#[test]
fn remove_from_list_file() {
    let mut env =
        Env::test(Config::default()).file(PiholeFile::Blacklist, "a.com\n\nb.com\na.com\nc.com\n");
    List::Black.remove("a.com", &mut env).unwrap();
    assert_eq!(
        env.read_file_lines(PiholeFile::Blacklist).unwrap(),
        &vec!["b.com".to_owned(), "c.com".to_owned()]
    );
    assert_eq!(List::Black.remove("a.com", &mut env).unwrap_err().kind(), ErrorKind::NotFound);
    assert_eq!(
        List::Black.remove("a com", &mut env).unwrap_err().kind(),
        ErrorKind::InvalidDomain
    );
    // It is no error to try to remove what is not there
    List::Black.try_remove("a.com", &mut env).unwrap();
    List::Black.try_remove("b.com", &mut env).unwrap();
    assert_eq!(
        List::Black.try_remove("b com", &mut env).unwrap_err().kind(),
        ErrorKind::InvalidDomain
    );
    assert_eq!(env.read_file_lines(PiholeFile::Blacklist).unwrap(), &vec!["c.com".to_owned()]);
}

/// Valid and invalid domains
#[test]
fn domain_validity() {
    assert!(is_valid_domain("example.com"));
    assert!(is_valid_domain("a"));
    assert!(is_valid_domain("sub-domain.example_1.com"));
    assert!(is_valid_domain("-a-.b"));
    assert!(!is_valid_domain(""));
    assert!(!is_valid_domain("Example.com"));
    assert!(!is_valid_domain("example..com"));
    assert!(!is_valid_domain(".example.com"));
    assert!(!is_valid_domain("example.com."));
    assert!(!is_valid_domain("exam ple.com"));
    assert!(!is_valid_domain("a.b-"));
    assert!(!is_valid_domain("---"));
    // A label holds 63 characters at most
    assert!(is_valid_domain(&"a".repeat(63)));
    assert!(!is_valid_domain(&"a".repeat(64)));
    // A domain holds 253 characters at most
    let label = "a".repeat(63);
    let long = format!("{}.{}.{}.{}", label, label, label, "a".repeat(61));
    assert_eq!(long.len(), 253);
    assert!(is_valid_domain(&long));
    assert!(!is_valid_domain(&format!("{}a", long)));
}

/// Valid and invalid regular expressions
#[test]
fn regex_validity() {
    assert!(is_valid_regex("^.*example.com$"));
    assert!(is_valid_regex(""));
    assert!(!is_valid_regex("foo(bar"));
    assert!(!is_valid_regex("[a-"));
    assert!(List::Regex.accepts("^.*example.com$"));
    assert!(!List::Regex.accepts("foo(bar"));
    assert!(List::White.accepts("example.com"));
    assert!(!List::White.accepts("^.*example.com$"));
    assert!(!List::Black.accepts("^.*example.com$"));
}

fn service(env: Env) -> ListServiceImpl<Env> {
    ListServiceImpl::new(env)
}

/// Test getting the domains for a list
fn service_get_test(list: List, domain: &str) {
    let env = Env::test(Config::default()).file(list.file(), domain);
    let service = service(env);

    assert_eq!(service.get(list).unwrap(), vec![domain.to_owned()]);
}

/// Test successfully deleting a domain from a list
fn delete_test(list: List, domain: &'static str) {
    let env = Env::test(Config::default()).file(list.file(), domain);
    let mut service = service(env);

    assert_eq!(service.remove(list, domain).unwrap(), ListUpdate::for_list(list));
    assert_eq!(service.get(list).unwrap(), Vec::<String>::new());
}

/// The lists are retrieved correctly
#[test]
fn get() {
    service_get_test(List::White, "whitelist.com");
    service_get_test(List::Black, "blacklist.com");
    service_get_test(List::Regex, "regex.com");
}

/// Adding a domain to the whitelist works when the domain does not exist
/// in either the whitelist or blacklist
#[test]
fn service_add_whitelist() {
    let mut service = service(Env::test(Config::default()));

    assert_eq!(
        service.add(List::White, "example.com").unwrap(),
        ListUpdate::ReloadGravity(List::White)
    );
    assert_eq!(service.get(List::White).unwrap(), vec!["example.com".to_owned()]);
    assert_eq!(service.get(List::Black).unwrap(), Vec::<String>::new());
}

/// Adding a domain to the blacklist works when the domain does not exist
/// in either the whitelist or blacklist
#[test]
fn service_add_blacklist() {
    let mut service = service(Env::test(Config::default()));

    assert_eq!(
        service.add(List::Black, "example.com").unwrap(),
        ListUpdate::ReloadGravity(List::Black)
    );
    assert_eq!(service.get(List::Black).unwrap(), vec!["example.com".to_owned()]);
    assert_eq!(service.get(List::White).unwrap(), Vec::<String>::new());
}

/// Adding a domain to the regex list works when the domain does not already
/// exist in the regex list
#[test]
fn add_regexlist() {
    let mut service = service(Env::test(Config::default()));

    assert_eq!(service.add(List::Regex, "example.com").unwrap(), ListUpdate::RecompileRegex);
    assert_eq!(service.get(List::Regex).unwrap(), vec!["example.com".to_owned()]);
}

#[test]
fn delete_whitelist() {
    delete_test(List::White, "whitelist.com");
}

#[test]
fn delete_blacklist() {
    delete_test(List::Black, "blacklist.com");
}

#[test]
fn delete_regexlist() {
    delete_test(List::Regex, "regex.com");
}

/// Adding to the whitelist takes the domain out of the blacklist, and the
/// other way round
#[test]
fn add_moves_between_lists() {
    let env = Env::test(Config::default())
        .file(PiholeFile::Blacklist, "example.com\nexample.net\n")
        .file(PiholeFile::Regexlist, "example.com\n");
    let mut service = service(env);
    service.add(List::White, "example.com").unwrap();
    assert_eq!(service.get(List::White).unwrap(), vec!["example.com".to_owned()]);
    assert_eq!(service.get(List::Black).unwrap(), vec!["example.net".to_owned()]);
    assert_eq!(service.get(List::Regex).unwrap(), vec!["example.com".to_owned()]);

    service.add(List::Black, "example.com").unwrap();
    assert_eq!(service.get(List::White).unwrap(), Vec::<String>::new());
    assert_eq!(
        service.get(List::Black).unwrap(),
        vec!["example.net".to_owned(), "example.com".to_owned()]
    );
}

/// The service refuses what the list does not accept, what is there already
/// and what is not there
#[test]
fn service_errors() {
    let env = Env::test(Config::default()).file(PiholeFile::Whitelist, "example.com\n");
    let mut service = service(env);
    assert_eq!(
        service.add(List::White, "example.com").unwrap_err().kind(),
        ErrorKind::AlreadyExists
    );
    assert_eq!(
        service.add(List::White, "exa mple.com").unwrap_err().kind(),
        ErrorKind::InvalidDomain
    );
    assert_eq!(service.add(List::Regex, "foo(").unwrap_err().kind(), ErrorKind::InvalidDomain);
    assert_eq!(
        service.remove(List::White, "example.net").unwrap_err().kind(),
        ErrorKind::NotFound
    );
    assert_eq!(
        service.remove(List::Black, "exa mple.com").unwrap_err().kind(),
        ErrorKind::InvalidDomain
    );
    assert_eq!(service.add_raw(List::White, "a b").unwrap_err().kind(), ErrorKind::InvalidDomain);
    assert_eq!(
        service.remove_raw(List::White, "example.net").unwrap_err().kind(),
        ErrorKind::NotFound
    );
    service.try_remove_raw(List::White, "example.net").unwrap();
    service.try_remove_raw(List::White, "example.com").unwrap();
    assert_eq!(service.get(List::White).unwrap(), Vec::<String>::new());
}

/// The store of the lists in their files
#[test]
fn file_repository() {
    let mut env = Env::test(Config::default());
    assert!(!ListRepository::contains(&env, List::White, "example.com").unwrap());
    ListRepository::add(&mut env, List::White, "example.com").unwrap();
    assert!(ListRepository::contains(&env, List::White, "example.com").unwrap());
    assert_eq!(
        ListRepository::add(&mut env, List::White, "").unwrap_err().kind(),
        ErrorKind::InvalidDomain
    );
    ListRepository::remove(&mut env, List::White, "example.com").unwrap();
    assert_eq!(ListRepository::get(&env, List::White).unwrap(), Vec::<String>::new());
}

/// What a look into a list means for adding and removing
#[test]
fn list_decisions() {
    let failed = || Err(Error::from(ErrorKind::GravityDatabase));
    assert_eq!(check_absent(Ok(false)), Ok(()));
    assert_eq!(check_absent(Ok(true)).unwrap_err().kind(), ErrorKind::AlreadyExists);
    assert_eq!(check_absent(failed()).unwrap_err().kind(), ErrorKind::GravityDatabase);
    assert_eq!(check_present(Ok(true)), Ok(()));
    assert_eq!(check_present(Ok(false)).unwrap_err().kind(), ErrorKind::NotFound);
    assert_eq!(check_present(failed()).unwrap_err().kind(), ErrorKind::GravityDatabase);
    assert_eq!(ignore_not_found(Ok(())), Ok(()));
    assert_eq!(ignore_not_found(Err(Error::from(ErrorKind::NotFound))), Ok(()));
    assert_eq!(
        ignore_not_found(Err(Error::from(ErrorKind::InvalidDomain))).unwrap_err().kind(),
        ErrorKind::InvalidDomain
    );
}

/// What is due after a change of a list
#[test]
fn list_updates() {
    assert_eq!(ListUpdate::for_list(List::White), ListUpdate::ReloadGravity(List::White));
    assert_eq!(ListUpdate::for_list(List::Black), ListUpdate::ReloadGravity(List::Black));
    assert_eq!(ListUpdate::for_list(List::Regex), ListUpdate::RecompileRegex);
    assert_eq!(reload_option(List::White).unwrap(), "--whitelist-only");
    assert_eq!(reload_option(List::Black).unwrap(), "--blacklist-only");
    assert_eq!(reload_option(List::Regex).unwrap_err().kind(), ErrorKind::Unknown);
    assert_eq!(RECOMPILE_REGEX, "recompile-regex");
}

/// Test that the domains are returned correctly
fn endpoint_get_test(list: List, domains: Vec<String>) {
    let env = Env::test(Config::default()).file(list.file(), &domains.join("\n"));
    let service = service(env);

    assert_eq!(service.get(list).unwrap(), domains);
}

#[test]
fn test_get_whitelist() {
    endpoint_get_test(List::White, vec!["example.com".to_owned(), "example.net".to_owned()]);
}

#[test]
fn test_get_blacklist() {
    endpoint_get_test(List::Black, vec!["example.com".to_owned(), "example.net".to_owned()]);
}

#[test]
fn test_get_regexlist() {
    endpoint_get_test(List::Regex, vec!["^.*example.com$".to_owned(), "example.net".to_owned()]);
}

/// Test that a successful add returns success
fn endpoint_add_test(list: List, domain: &'static str) {
    let mut service = service(Env::test(Config::default()));

    assert_eq!(service.add(list, domain), Ok(ListUpdate::for_list(list)));
    assert_eq!(service.get(list).unwrap(), vec![domain.to_owned()]);
}

#[test]
fn add_list_add_whitelist() {
    endpoint_add_test(List::White, "example.com");
}

/// A successful add returns success
#[test]
fn add_list_add_blacklist() {
    endpoint_add_test(List::Black, "example.com");
}

/// A successful add returns success
#[test]
fn test_add_regexlist() {
    endpoint_add_test(List::Regex, "^.*example.com$");
}

/// Test that a successful delete returns success
fn endpoint_delete_test(list: List, domain: &'static str) {
    let env = Env::test(Config::default()).file(list.file(), domain);
    let mut service = service(env);

    assert_eq!(service.remove(list, domain), Ok(ListUpdate::for_list(list)));
    assert_eq!(service.get(list).unwrap(), Vec::<String>::new());
}

#[test]
fn test_delete_whitelist() {
    endpoint_delete_test(List::White, "example.com");
}

#[test]
fn test_delete_blacklist() {
    endpoint_delete_test(List::Black, "example.com");
}

#[test]
fn test_delete_regexlist() {
    endpoint_delete_test(List::Regex, "^.*example.com$");
}
