use tf2_query::api::{
    fakeip_to_int, ApiQuery, IpAddress, Player, PlayerFetch, PlayerFetchError, RawServer, Region, Server,
    ServerParseError,
};
use tf2_query::location::ValveServerLocation;

fn raw_server(name: &str, gametype: &str, players: i32) -> RawServer {
    RawServer {
        addr: "169.254.125.252:31312".to_string(),
        gameport: 27015,
        steamid: "90000000000000000".to_string(),
        name: name.to_string(),
        appid: 440,
        gamedir: "tf".to_string(),
        version: "8835751".to_string(),
        product: "tf".to_string(),
        region: 5,
        players,
        max_players: 24,
        bots: 0,
        map: "cp_process_final".to_string(),
        secure: true,
        dedicated: true,
        os: "l".to_string(),
        gametype: gametype.to_string(),
    }
}

#[test]
#[allow(clippy::unreadable_literal)]
fn test_fakeip_to_int() {
    assert_eq!(
        fakeip_to_int([127, 0, 0, 1]),
        0b01111111_00000000_00000000_00000001
    );
}

#[test]
fn fakeip_is_the_big_endian_number() {
    assert_eq!(fakeip_to_int([169, 254, 125, 252]), 0xa9fe7dfc);
    assert_eq!(fakeip_to_int([0, 0, 0, 0]), 0);
    assert_eq!(fakeip_to_int([255, 255, 255, 255]), u32::MAX);
}

#[test]
fn test_server_location_from_str() {
    assert_eq!(
        ValveServerLocation::parse("Valve Matchmaking Server (Sydney srcds1013-syd1 #327)")
            .unwrap(),
        ValveServerLocation("syd1".into())
    );
    assert_eq!(
        ValveServerLocation::parse("Valve Matchmaking Server (srcds2020-dfw2 #225)").unwrap(),
        ValveServerLocation("dfw2".into())
    );
    assert_eq!(
        ValveServerLocation::parse("Valve Matchmaking Server (srcds1009-fsn-hetz #72)").unwrap(),
        ValveServerLocation("fsn-hetz".into())
    );
}

#[test]
fn server_location_with_longer_datacentre_names() {
    assert_eq!(
        ValveServerLocation::parse("Valve Matchmaking Server (Sao Paulo srcds1001-gru1 #12)"),
        Some(ValveServerLocation("gru1".into()))
    );
    assert_eq!(
        ValveServerLocation::parse("Valve Matchmaking Server (Sydney srcds1012-syd1 #7)"),
        Some(ValveServerLocation("syd1".into()))
    );
}

#[test]
fn server_location_rejects_other_names() {
    for name in [
        "",
        "My Community Server",
        "Valve Matchmaking Server (srcds2020-dfw #225)",
        "Valve Matchmaking Server (srcds2020-df2x #225)",
        "Valve Matchmaking Server (srcds2020-Dfw2 #225)",
        "Valve Matchmaking Server (srcds-dfw2 #225)",
        "Valve Matchmaking Server (srcds2020-dfw2 #)",
        "Valve Matchmaking Server (srcds2020-dfw2 #225",
        "Valve Matchmaking Server (srcds2020-dfw2 #225) ",
        "Valve Matchmaking Server (srcds2020-dfw2 225)",
        "Valve Matchmaking Server (Sydneysrcds1013-syd1 #327)",
        "Valve Matchmaking Server ( srcds1013-syd1 #327)",
        "Valve Matchmaking Server (Sydney1 srcds1013-syd1 #327)",
        "valve Matchmaking Server (srcds2020-dfw2 #225)",
        "Valve Matchmaking Server (srcds2020-dfw2 #22a)",
    ] {
        assert_eq!(ValveServerLocation::parse(name), None, "{name}");
    }
}

/// The grammar that `ValveServerLocation::parse` follows is the one of this regular
/// expression; check both on a set of names.
#[test]
fn server_location_agrees_with_regex() {
    let re = regex::Regex::new(
        r"^Valve Matchmaking Server \((?:[[:alpha:] ]+ )?srcds[[:digit:]]+-([[:lower:]]{3}[[:digit:][:lower:]-]+) #[[:digit:]]+\)$",
    )
    .unwrap();
    let datacentres = ["", "Sydney ", "A ", "Sao Paulo ", " ", "x", "Sydney", "1 ", "é "];
    let numbers = ["1012", "", "1a", "0"];
    let locations = ["syd1", "fsn-hetz", "dfw", "ab1c", "abc-", "abcd9-z", "Abcd", "ab cd", "abc#1"];
    let instances = ["7", "", "12x", "007"];
    for dc in datacentres {
        for n in numbers {
            for loc in locations {
                for inst in instances {
                    let name = format!("Valve Matchmaking Server ({dc}srcds{n}-{loc} #{inst})");
                    let expected = re
                        .captures(&name)
                        .map(|c| ValveServerLocation(c.get(1).unwrap().as_str().to_string()));
                    assert_eq!(ValveServerLocation::parse(&name), expected, "{name}");
                }
            }
        }
    }
}

#[test]
fn region_codes() {
    assert_eq!(Region::from(255), Region::World);
    assert_eq!(Region::from(0), Region::USEast);
    assert_eq!(Region::from(1), Region::USWest);
    assert_eq!(Region::from(2), Region::SouthAmerica);
    assert_eq!(Region::from(3), Region::Europe);
    assert_eq!(Region::from(4), Region::Asia);
    assert_eq!(Region::from(5), Region::Australia);
    assert_eq!(Region::from(6), Region::MiddleEast);
    assert_eq!(Region::from(7), Region::Africa);
    assert_eq!(Region::from(8), Region::Other(8));
    assert_eq!(Region::from(-1), Region::Other(-1));
}

#[test]
fn server_from_raw_data() {
    let raw = raw_server(
        "Valve Matchmaking Server (Sydney srcds1013-syd1 #327)",
        "hidden,increased_maxplayers,payload,valve",
        20,
    );
    let server = Server::from_raw(raw, Some(IpAddress::V4([169, 254, 125, 252]))).unwrap();
    assert_eq!(server.port, 27015);
    assert_eq!(server.region, Region::Australia);
    assert_eq!(server.num_players, 20);
    assert_eq!(server.max_players, 24);
    assert_eq!(server.map, "cp_process_final");
    assert!(server.players.is_none());
    assert_eq!(
        server.tags,
        vec!["hidden", "increased_maxplayers", "payload", "valve"]
    );
    assert_eq!(server.valve_location, Some(ValveServerLocation("syd1".into())));
}

#[test]
fn server_tags_split_at_every_comma() {
    let server = Server::from_raw(
        raw_server("A server", "a,,b,", 0),
        Some(IpAddress::V4([1, 2, 3, 4])),
    )
    .unwrap();
    assert_eq!(server.tags, vec!["a", "", "b", ""]);
    assert_eq!(server.valve_location, None);
    let server = Server::from_raw(raw_server("A server", "", 0), Some(IpAddress::V6(1))).unwrap();
    assert_eq!(server.tags, vec![""]);
}

#[test]
fn server_with_unreadable_address() {
    let res = Server::from_raw(raw_server("A server", "", 0), None);
    assert_eq!(res.err(), Some(ServerParseError::InvalidAddress));
    assert_eq!(
        ServerParseError::InvalidAddress.message(),
        "Failed to parse server address"
    );
}

#[test]
fn player_fetch_decisions() {
    let mut sdr = Server::from_raw(
        raw_server("A server", "", 3),
        Some(IpAddress::V4([169, 254, 125, 252])),
    )
    .unwrap();
    assert_eq!(
        sdr.player_fetch(),
        Ok(PlayerFetch::QueryByFakeIp {
            fake_ip: 0xa9fe7dfc,
            port: 27015
        })
    );
    sdr.set_players(vec![Player {
        name: "someone".to_string(),
        score: 3,
        time_played: 60,
    }]);
    assert_eq!(sdr.player_fetch(), Ok(PlayerFetch::AlreadyFetched));
    assert_eq!(sdr.players.as_ref().unwrap()[0].name, "someone");

    let direct = Server::from_raw(raw_server("A server", "", 3), Some(IpAddress::V4([1, 2, 3, 4])))
        .unwrap();
    assert_eq!(direct.player_fetch(), Err(PlayerFetchError::NotBehindSdr));
    let v6 = Server::from_raw(raw_server("A server", "", 3), Some(IpAddress::V6(1))).unwrap();
    assert_eq!(v6.player_fetch(), Err(PlayerFetchError::Ipv6NotSupported));
    assert_eq!(
        PlayerFetchError::NotBehindSdr.message(),
        "We can only query players for servers behind Steam Datagram Relay (SDR)"
    );
    assert_eq!(
        PlayerFetchError::Ipv6NotSupported.message(),
        "IPv6 not supported yet - we can only query players for servers behind Steam Datagram Relay (SDR)"
    );
}

#[test]
fn player_shows_as_its_name() {
    let p = Player {
        name: "someone".to_string(),
        score: -1,
        time_played: 0,
    };
    assert_eq!(p.into_name(), "someone");
}

#[test]
fn fakeip_octets_read_back() {
    let n = fakeip_to_int([169, 254, 7, 42]);
    assert_eq!(n >> 24, 169);
    assert_eq!((n >> 16) & 0xff, 254);
    assert_eq!((n >> 8) & 0xff, 7);
    assert_eq!(n & 0xff, 42);
}

#[test]
fn api_queries() {
    let q = ApiQuery::server_list("\\appid\\440".to_string());
    assert_eq!(
        q,
        ApiQuery::ServerList {
            filter: "\\appid\\440".to_string(),
            limit: 100_000
        }
    );
    assert_eq!(q.path(), "/IGameServersService/GetServerList/v1");
    let q = ApiQuery::players_by_fake_ip(0xa9fe7dfc, 31312);
    assert_eq!(
        q,
        ApiQuery::PlayersByFakeIp {
            fake_ip: 0xa9fe7dfc,
            fake_port: 31312,
            app_id: 440,
            query_type: 2
        }
    );
    assert_eq!(q.path(), "/IGameServersService/QueryByFakeIP/v1");
}
