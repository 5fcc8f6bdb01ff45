use tf2_query::api::{IpAddress, RawServer, Server};
use tf2_query::filter::{filter_from_args, Args, FilterBuilder};
use tf2_query::{keep_matching, parse_servers, should_fetch_players};

fn server(name: &str, gametype: &str, players: i32) -> Server {
    Server::from_raw(
        RawServer {
            addr: "169.254.1.2:27015".to_string(),
            gameport: 27015,
            steamid: "1".to_string(),
            name: name.to_string(),
            appid: 440,
            gamedir: "tf".to_string(),
            version: "1".to_string(),
            product: "tf".to_string(),
            region: 255,
            players,
            max_players: 24,
            bots: 0,
            map: "ctf_2fort".to_string(),
            secure: true,
            dedicated: true,
            os: "l".to_string(),
            gametype: gametype.to_string(),
        },
        Some(IpAddress::V4([169, 254, 1, 2])),
    )
    .unwrap()
}

fn args() -> Args {
    Args {
        get_players: false,
        has_players: false,
        no_mvm: false,
        valve: false,
        valve_location: None,
        filter_name: None,
    }
}

#[test]
fn default_filter_expression() {
    let f = FilterBuilder::new().build();
    assert_eq!(f.build_api_filter_expression(), "\\appid\\440");
    let f = FilterBuilder::default().build();
    assert_eq!(f.build_api_filter_expression(), "\\appid\\440");
}

#[test]
fn full_filter_expression() {
    let f = FilterBuilder::new()
        .only_valve(true)
        .valve_location(Some("syd".to_string()))
        .min_players(1)
        .forbidden_tags(vec!["mvm".to_string(), "x".to_string()])
        .required_tags(vec!["a".to_string(), "b".to_string()])
        .name_filter_pattern(Some("foo*".to_string()))
        .build();
    assert_eq!(
        f.build_api_filter_expression(),
        "\\appid\\440\\secure\\1\\linux\\1\\name_match\\Valve Matchmaking Server (*srcds*-syd* #*)\\empty\\1\\nor\\1\\gametype\\mvm,x\\gametype\\a\\gametype\\b\\name_match\\foo*"
    );
}

#[test]
fn valve_filter_expression_without_location() {
    let f = FilterBuilder::new().only_valve(true).build();
    assert_eq!(
        f.build_api_filter_expression(),
        "\\appid\\440\\secure\\1\\linux\\1\\name_match\\Valve Matchmaking Server (*srcds*-* #*)"
    );
}

#[test]
fn location_implies_valve_in_expression() {
    let a = FilterBuilder::new()
        .valve_location(Some("fra".to_string()))
        .build();
    let b = FilterBuilder::new()
        .only_valve(true)
        .valve_location(Some("fra".to_string()))
        .build();
    assert_eq!(a.build_api_filter_expression(), b.build_api_filter_expression());
}

#[test]
fn negative_min_players_adds_nothing() {
    let f = FilterBuilder::new().min_players(-3).build();
    assert_eq!(f.build_api_filter_expression(), "\\appid\\440");
}

#[test]
fn filter_server_on_players() {
    let f = FilterBuilder::new().min_players(1).build();
    assert!(!f.filter_server(&server("A", "", 0)));
    assert!(f.filter_server(&server("A", "", 1)));
    let all = FilterBuilder::new().build();
    assert!(all.filter_server(&server("A", "", 0)));
    assert!(!all.filter_server(&server("A", "", -1)));
}

#[test]
fn filter_server_on_tags() {
    let f = FilterBuilder::new()
        .forbidden_tags(vec!["mvm".to_string()])
        .required_tags(vec!["payload".to_string(), "valve".to_string()])
        .build();
    assert!(f.filter_server(&server("A", "payload,valve", 0)));
    assert!(f.filter_server(&server("A", "valve,cp,payload", 0)));
    assert!(!f.filter_server(&server("A", "payload,valve,mvm", 0)));
    assert!(!f.filter_server(&server("A", "payload", 0)));
    assert!(!f.filter_server(&server("A", "payloads,valve", 0)));
}

#[test]
fn filter_server_on_locations() {
    let syd = server("Valve Matchmaking Server (Sydney srcds1013-syd1 #327)", "", 0);
    let dfw = server("Valve Matchmaking Server (srcds2020-dfw2 #225)", "", 0);
    let community = server("My Server", "", 0);
    let valve = FilterBuilder::new().only_valve(true).build();
    assert!(valve.filter_server(&syd));
    assert!(valve.filter_server(&dfw));
    assert!(!valve.filter_server(&community));
    let sydney = FilterBuilder::new()
        .only_valve(true)
        .valve_location(Some("syd".to_string()))
        .build();
    assert!(sydney.filter_server(&syd));
    assert!(!sydney.filter_server(&dfw));
    assert!(!sydney.filter_server(&community));
    // without only_valve the location is left to the API
    let location_only = FilterBuilder::new()
        .valve_location(Some("syd".to_string()))
        .build();
    assert!(location_only.filter_server(&dfw));
}

#[test]
fn filter_from_default_args() {
    let f = filter_from_args(&args());
    assert_eq!(f.build_api_filter_expression(), "\\appid\\440");
}

#[test]
fn filter_from_args_has_players_and_no_mvm() {
    let f = filter_from_args(&Args {
        has_players: true,
        no_mvm: true,
        ..args()
    });
    assert_eq!(
        f.build_api_filter_expression(),
        "\\appid\\440\\empty\\1\\nor\\1\\gametype\\mvm"
    );
    assert!(!f.filter_server(&server("A", "mvm", 5)));
    assert!(!f.filter_server(&server("A", "cp", 0)));
    assert!(f.filter_server(&server("A", "cp", 5)));
}

#[test]
fn filter_from_args_location_implies_valve() {
    let f = filter_from_args(&Args {
        valve_location: Some("syd".to_string()),
        ..args()
    });
    assert_eq!(
        f.build_api_filter_expression(),
        "\\appid\\440\\secure\\1\\linux\\1\\name_match\\Valve Matchmaking Server (*srcds*-syd* #*)"
    );
    assert!(f.filter_server(&server(
        "Valve Matchmaking Server (Sydney srcds1013-syd1 #327)",
        "",
        0
    )));
    assert!(!f.filter_server(&server("Valve Matchmaking Server (srcds2020-dfw2 #225)", "", 0)));
}

#[test]
fn filter_from_args_name_pattern() {
    let f = filter_from_args(&Args {
        filter_name: Some("*2fort*".to_string()),
        ..args()
    });
    assert_eq!(
        f.build_api_filter_expression(),
        "\\appid\\440\\name_match\\*2fort*"
    );
    // ignored where official servers are asked for
    let f = filter_from_args(&Args {
        valve: true,
        filter_name: Some("*2fort*".to_string()),
        ..args()
    });
    assert_eq!(
        f.build_api_filter_expression(),
        "\\appid\\440\\secure\\1\\linux\\1\\name_match\\Valve Matchmaking Server (*srcds*-* #*)"
    );
}

#[test]
fn servers_are_parsed_then_filtered() {
    let raw = |name: &str, players: i32| RawServer {
        addr: String::new(),
        gameport: 1,
        steamid: String::new(),
        name: name.to_string(),
        appid: 440,
        gamedir: String::new(),
        version: String::new(),
        product: String::new(),
        region: 0,
        players,
        max_players: 24,
        bots: 0,
        map: String::new(),
        secure: false,
        dedicated: true,
        os: String::new(),
        gametype: String::new(),
    };
    let servers = parse_servers(vec![
        (raw("first", 1), Some(IpAddress::V4([1, 1, 1, 1]))),
        (raw("unreadable", 5), None),
        (raw("second", 0), Some(IpAddress::V4([2, 2, 2, 2]))),
        (raw("third", 3), Some(IpAddress::V4([3, 3, 3, 3]))),
    ]);
    let names: Vec<&str> = servers.iter().map(|s| s.name.as_str()).collect();
    assert_eq!(names, vec!["first", "second", "third"]);
    let f = FilterBuilder::new().min_players(1).build();
    let kept = keep_matching(&f, servers);
    let names: Vec<&str> = kept.iter().map(|s| s.name.as_str()).collect();
    assert_eq!(names, vec!["first", "third"]);
    assert!(should_fetch_players(true, &kept[0]));
    assert!(!should_fetch_players(false, &kept[0]));
}

#[test]
fn servers_without_players_are_not_queried() {
    assert!(!should_fetch_players(true, &server("A", "", 0)));
    assert!(!should_fetch_players(true, &server("A", "", -2)));
    assert!(should_fetch_players(true, &server("A", "", 2)));
}
