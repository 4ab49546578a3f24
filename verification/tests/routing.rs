use ipset_dns::config::{
    create_setname_matcher, parse_ipsetconfig, to_setname_matchers, Arguments, Config, Family,
    is_port_valid, parse_port, IntoConfig, IpsetConfig, PatternMap, RoutingTable, SocketAddress,
    DEFAULT_DNS_IP, DEFAULT_LISTEN_PORT, DNS_PORT, LISTEN_IP,
};
use ipset_dns::errors::ErrorKind;
use ipset_dns::ipset::IpAddress;
use ipset_dns::pattern::DomainPattern;
use ipset_dns::routing::{find_setnames, SetnameMatcher};

fn set<'a>(name: &'a str, patterns: &[&'a str]) -> (&'a str, Vec<&'a str>) {
    (name, patterns.to_vec())
}

fn strings(patterns: &[&str]) -> Vec<String> {
    patterns.iter().map(|pattern| pattern.to_string()).collect()
}

fn map(sets: &[(&str, Vec<&str>)]) -> PatternMap {
    let mut map = PatternMap::new();
    for (name, patterns) in sets {
        map.insert(name.to_string(), strings(patterns));
    }
    map
}

fn rules(sets: &[(&str, Vec<&str>)]) -> Vec<SetnameMatcher> {
    to_setname_matchers(&map(sets)).unwrap()
}

fn sorted(mut names: Vec<&str>) -> Vec<&str> {
    names.sort();
    names
}

#[test]
fn exact_rule_resolves_its_own_domain_only() {
    let rules = rules(&[set("media", &["cdn.example.com"])]);
    assert_eq!(find_setnames(&rules, "cdn.example.com"), vec!["media"]);
    assert!(find_setnames(&rules, "cdn.example.org").is_empty());
    assert!(find_setnames(&rules, "www.cdn.example.com").is_empty());
    assert!(find_setnames(&rules, "CDN.example.com").is_empty());
    assert!(find_setnames(&rules, "cdn.example.com.").is_empty());
}

#[test]
fn exact_rule_name_may_come_from_another_rule() {
    let rules = rules(&[set("media", &["cdn.example.com", "g:*.example.org"])]);
    assert_eq!(find_setnames(&rules, "cdn.example.com"), vec!["media"]);
    assert_eq!(find_setnames(&rules, "x.example.org"), vec!["media"]);
    assert!(find_setnames(&rules, "x.example.net").is_empty());
}

#[test]
fn resolve_twice_gives_the_same() {
    let rules = rules(&[
        set("a", &["g:*.example.com", "r:^cdn"]),
        set("b", &["cdn.example.com"]),
    ]);
    let first = find_setnames(&rules, "cdn.example.com");
    let second = find_setnames(&rules, "cdn.example.com");
    assert_eq!(first, second);
    assert_eq!(first, vec!["a", "b"]);
    // the rules are as they were
    assert_eq!(rules.len(), 3);
    assert_eq!(rules[0].setname(), "a");
    assert_eq!(rules[0].pattern().source(), "*.example.com");
    assert_eq!(rules[2].setname(), "b");
}

#[test]
fn overlapping_rules_give_both_names_once() {
    let rules = rules(&[
        set("media", &["g:*.example.com", "g:cdn.*", "cdn.example.com"]),
        set("video", &["r:example", "g:*.com"]),
    ]);
    let found = find_setnames(&rules, "cdn.example.com");
    assert_eq!(sorted(found), vec!["media", "video"]);
}

#[test]
fn names_come_in_ascending_order_whatever_the_order_of_the_rules() {
    let rules = vec![
        SetnameMatcher::new("zeta", DomainPattern::parse("g:*").unwrap()),
        SetnameMatcher::new("alpha", DomainPattern::parse("g:*").unwrap()),
        SetnameMatcher::new("zeta", DomainPattern::parse("r:.").unwrap()),
        SetnameMatcher::new("beta", DomainPattern::parse("example.org").unwrap()),
        SetnameMatcher::new("Zeta", DomainPattern::parse("r:example").unwrap()),
        SetnameMatcher::new("alphabet", DomainPattern::parse("r:com$").unwrap()),
        SetnameMatcher::new("", DomainPattern::parse("example.com").unwrap()),
        SetnameMatcher::new("é", DomainPattern::parse("g:*.com").unwrap()),
    ];
    assert_eq!(
        find_setnames(&rules, "example.com"),
        vec!["", "Zeta", "alpha", "alphabet", "zeta", "é"]
    );
    assert_eq!(find_setnames(&rules, "example.org"), vec!["Zeta", "alpha", "beta", "zeta"]);
}

#[test]
fn no_rule_gives_no_name() {
    let none: Vec<SetnameMatcher> = Vec::new();
    assert!(find_setnames(&none, "example.com").is_empty());
    let rules = rules(&[set("media", &["g:*.example.com"])]);
    assert!(find_setnames(&rules, "example.com").is_empty());
}

#[test]
fn matcher_keeps_name_and_pattern() {
    let rule = SetnameMatcher::new("media", DomainPattern::parse("g:*.example.com").unwrap());
    assert_eq!(rule.setname(), "media");
    assert_eq!(rule.pattern().source(), "*.example.com");
    assert!(rule.matches("a.example.com"));
    assert!(!rule.matches("example.com"));
}

#[test]
fn matcher_kinds_follow_the_prefix() {
    let glob = create_setname_matcher("s", "g:*.example.com").unwrap();
    assert!(matches!(glob.pattern(), DomainPattern::Glob(_)));
    let regex = create_setname_matcher("s", "r:^ads\\.").unwrap();
    assert!(matches!(regex.pattern(), DomainPattern::Regex(_)));
    let exact = create_setname_matcher("s", "ads.example.com").unwrap();
    assert!(matches!(exact.pattern(), DomainPattern::Exact(_)));
    assert_eq!(exact.setname(), "s");
}

#[test]
fn set_name_of_31_bytes_is_accepted_and_32_refused() {
    let fits = "s".repeat(31);
    let rule = create_setname_matcher(&fits, "example.com").unwrap();
    assert_eq!(rule.setname(), fits);
    let over = "s".repeat(32);
    let error = create_setname_matcher(&over, "example.com").unwrap_err();
    match error.kind() {
        ErrorKind::Msg(text) => {
            assert_eq!(text, &format!("setname '{}' >= 32 characters", over))
        }
        other => panic!("unexpected error: {:?}", other),
    }
    assert!(to_setname_matchers(&map(&[set(&fits, &["a", "g:b*"])])).is_ok());
    assert!(to_setname_matchers(&map(&[set(&over, &["a"])])).is_err());
}

#[test]
fn set_name_with_nul_is_refused_when_rules_are_built() {
    let error = create_setname_matcher("a\0b", "example.com").unwrap_err();
    assert!(matches!(
        error.kind(),
        ErrorKind::Msg(text) if text == "setname 'a\0b' contains a NUL byte"
    ));
}

#[test]
fn set_name_is_judged_before_the_pattern() {
    let over = "s".repeat(40);
    let error = create_setname_matcher(&over, "g:[").unwrap_err();
    assert!(matches!(error.kind(), ErrorKind::Msg(_)));
}

#[test]
fn bad_patterns_are_refused_with_their_own_error() {
    let error = create_setname_matcher("s", "g:[").unwrap_err();
    assert!(matches!(error.kind(), ErrorKind::GlobPattern(_)));
    let error = create_setname_matcher("s", "r:(").unwrap_err();
    assert!(matches!(error.kind(), ErrorKind::Regex(_)));
}

#[test]
fn rules_come_set_after_set_and_pattern_after_pattern() {
    let rules = rules(&[
        set("a", &["one", "g:two*"]),
        set("b", &[]),
        set("c", &["r:three"]),
    ]);
    let listed: Vec<(&str, &str)> = rules
        .iter()
        .map(|rule| (rule.setname(), rule.pattern().source()))
        .collect();
    assert_eq!(listed, vec![("a", "one"), ("a", "two*"), ("c", "three")]);
}

#[test]
fn first_refused_pattern_ends_the_building() {
    let sets = map(&[set("a", &["fine", "r:(", "g:["]), set("b", &["g:["])]);
    let error = to_setname_matchers(&sets).unwrap_err();
    assert!(matches!(error.kind(), ErrorKind::Regex(_)));
    let sets = map(&[set("a", &["fine"]), set("b", &["g:[", "r:("])]);
    let error = to_setname_matchers(&sets).unwrap_err();
    assert!(matches!(error.kind(), ErrorKind::GlobPattern(_)));
}

#[test]
fn set_without_patterns_gives_no_rule_but_its_name_is_judged() {
    let rules = to_setname_matchers(&map(&[set("empty", &[])])).unwrap();
    assert!(rules.is_empty());
    let over = "s".repeat(40);
    let error = to_setname_matchers(&map(&[set(&over, &[])])).unwrap_err();
    assert!(matches!(error.kind(), ErrorKind::Msg(_)));
}

#[test]
fn both_families_are_built_ipv4_first() {
    let config = IpsetConfig {
        ipv4: map(&[set("four", &["g:*.example.com"])]),
        ipv6: map(&[set("six", &["r:example", "example.org"])]),
    };
    let (v4, v6) = parse_ipsetconfig(config).unwrap();
    assert_eq!(v4.len(), 1);
    assert_eq!(v6.len(), 2);
    assert_eq!(v4[0].setname(), "four");
    assert_eq!(v6[1].setname(), "six");

    let broken = IpsetConfig {
        ipv4: map(&[set("four", &["g:["])]),
        ipv6: map(&[set("six", &["r:("])]),
    };
    let error = parse_ipsetconfig(broken).unwrap_err();
    assert!(matches!(error.kind(), ErrorKind::GlobPattern(_)));

    let broken = IpsetConfig {
        ipv4: map(&[set("four", &["fine"])]),
        ipv6: map(&[set("six", &["r:("])]),
    };
    let error = parse_ipsetconfig(broken).unwrap_err();
    assert!(matches!(error.kind(), ErrorKind::Regex(_)));
}

#[test]
fn table_keeps_the_families_apart() {
    let table = RoutingTable::new(IpsetConfig {
        ipv4: map(&[set("four", &["g:*.example.com"])]),
        ipv6: map(&[set("six", &["g:*.example.com"]), set("both", &["a.example.com"])]),
    })
    .unwrap();
    assert_eq!(table.resolve(Family::V4, "a.example.com"), vec!["four"]);
    assert_eq!(table.resolve(Family::V6, "a.example.com"), vec!["both", "six"]);
    assert!(table.resolve(Family::V4, "example.com").is_empty());
    assert_eq!(table.find_setnames_ipv4("a.example.com"), vec!["four"]);
    assert_eq!(table.find_setnames_ipv6("a.example.com"), vec!["both", "six"]);
    assert!(table.find_setnames_ipv4("example.com").is_empty());
    assert!(table.find_setnames_ipv6("example.com").is_empty());
}

#[test]
fn table_is_not_built_from_a_refused_name() {
    let built = RoutingTable::new(IpsetConfig {
        ipv4: map(&[]),
        ipv6: map(&[set(&"x".repeat(32), &["a"])]),
    });
    assert!(matches!(built.unwrap_err().kind(), ErrorKind::Msg(_)));
}

fn arguments(ipset: IpsetConfig) -> Arguments {
    Arguments { daemon: false, reuse: false, port: None, dns: None, ipset }
}

#[test]
fn defaults_are_filled_in() {
    let config: Config = arguments(IpsetConfig { ipv4: map(&[]), ipv6: map(&[]) })
        .into_config()
        .unwrap();
    assert_eq!(DEFAULT_LISTEN_PORT, 1919);
    assert_eq!(DNS_PORT, 53);
    assert_eq!(LISTEN_IP, [127, 0, 0, 1]);
    assert_eq!(DEFAULT_DNS_IP, [8, 8, 8, 8]);
    assert_eq!(
        config.listen_addr,
        SocketAddress { ip: IpAddress::V4([127, 0, 0, 1]), port: 1919 }
    );
    assert_eq!(config.dns_addr, SocketAddress { ip: IpAddress::V4([8, 8, 8, 8]), port: 53 });
    assert!(!config.daemon_mode);
    assert!(!config.reuse_port);
    assert!(config.find_setnames_ipv4("example.com").is_empty());
    assert!(config.find_setnames_ipv6("example.com").is_empty());
}

#[test]
fn given_arguments_are_kept() {
    let config = Arguments {
        daemon: true,
        reuse: true,
        port: Some("5353".to_string()),
        dns: Some([9, 9, 9, 9]),
        ipset: IpsetConfig {
            ipv4: map(&[set("media", &["g:*.example.com"])]),
            ipv6: map(&[set("media6", &["g:*.example.com"])]),
        },
    }
    .into_config()
    .unwrap();
    assert_eq!(
        config.listen_addr,
        SocketAddress { ip: IpAddress::V4([127, 0, 0, 1]), port: 5353 }
    );
    assert_eq!(config.dns_addr, SocketAddress { ip: IpAddress::V4([9, 9, 9, 9]), port: 53 });
    assert!(config.daemon_mode);
    assert!(config.reuse_port);
    assert_eq!(config.find_setnames_ipv4("cdn.example.com"), vec!["media"]);
    assert_eq!(config.find_setnames_ipv6("cdn.example.com"), vec!["media6"]);
}

#[test]
fn configuration_is_not_built_from_a_refused_pattern() {
    let built = arguments(IpsetConfig { ipv4: map(&[set("media", &["r:["])]), ipv6: map(&[]) })
        .into_config();
    assert!(matches!(built.unwrap_err().kind(), ErrorKind::Regex(_)));
}

#[test]
fn map_holds_each_set_once() {
    let mut sets = PatternMap::new();
    assert_eq!(sets.len(), 0);
    assert_eq!(sets.get("media"), None);
    assert_eq!(sets.insert("media".to_string(), strings(&["a", "g:b"])), None);
    assert_eq!(sets.insert("video".to_string(), strings(&["c"])), None);
    assert_eq!(sets.len(), 2);
    assert_eq!(sets.get("media"), Some(&strings(&["a", "g:b"])));
    assert_eq!(sets.get("video"), Some(&strings(&["c"])));
    assert_eq!(sets.get("audio"), None);

    // a second insert replaces the patterns and keeps the place
    assert_eq!(sets.insert("media".to_string(), strings(&["d"])), Some(strings(&["a", "g:b"])));
    assert_eq!(sets.len(), 2);
    assert_eq!(sets.get("media"), Some(&strings(&["d"])));
    let rules = to_setname_matchers(&sets).unwrap();
    let listed: Vec<(&str, &str)> = rules
        .iter()
        .map(|rule| (rule.setname(), rule.pattern().source()))
        .collect();
    assert_eq!(listed, vec![("media", "d"), ("video", "c")]);
}

#[test]
fn ports_are_decimal_numbers_up_to_65535() {
    for valid in ["0", "53", "1919", "65535", "+80", "00080", "+0"] {
        assert_eq!(is_port_valid(valid.to_string()), Ok(()), "{:?}", valid);
    }
    for invalid in
        ["", "+", "-1", "65536", "99999999999999999999", "80 ", " 80", "8_0", "0x50", "++1", "٣"]
    {
        assert_eq!(
            is_port_valid(invalid.to_string()),
            Err("Invalid port number".to_string()),
            "{:?}",
            invalid
        );
    }
}

#[test]
fn given_port_is_read_as_a_number() {
    let mut arguments = arguments(IpsetConfig { ipv4: map(&[]), ipv6: map(&[]) });
    arguments.port = Some("+00080".to_string());
    assert_eq!(arguments.into_config().unwrap().listen_addr.port, 80);
}

#[test]
fn configuration_is_not_built_from_a_bad_port() {
    // the port is judged before the patterns
    let mut arguments = arguments(IpsetConfig {
        ipv4: map(&[set("media", &["r:["])]),
        ipv6: map(&[]),
    });
    arguments.port = Some("65536".to_string());
    let error = arguments.into_config().unwrap_err();
    assert!(matches!(error.kind(), ErrorKind::Msg(text) if text == "Invalid port number"));
}

#[test]
fn table_resolves_the_same_each_time() {
    let table = RoutingTable::new(IpsetConfig {
        ipv4: map(&[set("b", &["g:*.example.com"]), set("a", &["r:cdn", "cdn.example.com"])]),
        ipv6: map(&[]),
    })
    .unwrap();
    let first = table.resolve(Family::V4, "cdn.example.com");
    let second = table.resolve(Family::V4, "cdn.example.com");
    assert_eq!(first, vec!["a", "b"]);
    assert_eq!(first, second);
    assert_eq!(table.resolve(Family::V4, "www.example.com"), vec!["b"]);
    assert_eq!(table.resolve(Family::V4, "cdn.example.com"), first);
}

#[test]
fn sets_are_kept_in_ascending_order_of_their_names() {
    let mut sets = PatternMap::new();
    for name in ["video", "audio", "media", "Video", "", "audiobook", "étude", "media"] {
        sets.insert(name.to_string(), strings(&[name]));
    }
    let names: Vec<&str> = sets.sets().iter().map(|set| set.setname.as_str()).collect();
    assert_eq!(names, vec!["", "Video", "audio", "audiobook", "media", "video", "étude"]);
    let mut sorted = names.clone();
    sorted.sort();
    assert_eq!(names, sorted);
}

#[test]
fn rules_come_in_ascending_order_of_their_set_names() {
    let sets = map(&[
        set("video", &["v1", "g:v2*"]),
        set("audio", &["a1"]),
        set("media", &[]),
        set("books", &["r:b1", "b2", "g:b3"]),
    ]);
    let rules = to_setname_matchers(&sets).unwrap();
    let listed: Vec<(&str, &str)> = rules
        .iter()
        .map(|rule| (rule.setname(), rule.pattern().source()))
        .collect();
    assert_eq!(
        listed,
        vec![
            ("audio", "a1"),
            ("books", "b1"),
            ("books", "b2"),
            ("books", "b3"),
            ("video", "v1"),
            ("video", "v2*"),
        ]
    );
}

#[test]
fn first_refused_is_the_first_in_ascending_order() {
    let sets = map(&[set("b", &["r:("]), set("a", &["g:["])]);
    let error = to_setname_matchers(&sets).unwrap_err();
    assert!(matches!(error.kind(), ErrorKind::GlobPattern(_)));
}

#[test]
fn port_is_read_digit_by_digit() {
    assert_eq!(parse_port("0"), Some(0));
    assert_eq!(parse_port("65535"), Some(65535));
    assert_eq!(parse_port("+080"), Some(80));
    assert_eq!(parse_port("1919"), Some(1919));
    assert_eq!(parse_port("65536"), None);
    assert_eq!(parse_port("655350"), None);
    assert_eq!(parse_port("12a"), None);
    assert_eq!(parse_port("1+2"), None);
    assert_eq!(parse_port("+"), None);
    assert_eq!(parse_port(""), None);
    assert_eq!(parse_port("１２"), None);
    for port in [1u32, 9, 10, 99, 100, 4096, 9999, 10000, 65534] {
        assert_eq!(parse_port(&port.to_string()), Some(port as u16));
        assert_eq!(parse_port(&port.to_string()), port.to_string().parse::<u16>().ok());
    }
    for text in ["", "+", "-", "-0", "+-1", "00", "+00065535", "065536", " 1", "1 ", "٣", "0x1"] {
        assert_eq!(parse_port(text), text.parse::<u16>().ok(), "{:?}", text);
    }
}
