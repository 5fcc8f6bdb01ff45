//! The data that the Steam API returns about servers, and what is decided from it.
use vstd::prelude::*;
use vstd::std_specs::convert::FromSpecImpl;

use crate::location::{location_of, ValveServerLocation};
use crate::text::{law_split_of_join, seq_join, split_char, split_on, views};

verus! {

/// An IP address: version 4 by its four octets, version 6 by its 128 bits.
#[derive(Clone, Copy, Debug)]
pub enum IpAddress {
    V4([u8; 4]),
    V6(u128),
}

/// The integer that the Steam API takes for an IPv4 address: its octets read as a big-endian
/// number.
pub open spec fn fakeip_value(octets: [u8; 4]) -> int {
    octets@[0] * 0x1000000 + octets@[1] * 0x10000 + octets@[2] * 0x100 + octets@[3]
}

/// Converts an IPv4 address, given by its octets, to an integer, ready to be passed to Steam's
/// API.
pub fn fakeip_to_int(octets: [u8; 4]) -> (res: u32)
    ensures
        res == fakeip_value(octets),
{
    let a = octets[0];
    let b = octets[1];
    let c = octets[2];
    let d = octets[3];
    let res = (a as u32) << 24u32 | (b as u32) << 16u32 | (c as u32) << 8u32 | d as u32;
    assert(res == a * 0x1000000 + b * 0x10000 + c * 0x100 + d) by (bit_vector)
        requires
            res == (a as u32) << 24u32 | (b as u32) << 16u32 | (c as u32) << 8u32 | d as u32,
    ;
    res
}

/// Distinct addresses give distinct integers: each octet can be read back from the integer.
pub proof fn law_fakeip_octets_recoverable(octets: [u8; 4])
    ensures
        fakeip_value(octets) / 0x1000000 == octets@[0],
        (fakeip_value(octets) / 0x10000) % 0x100 == octets@[1],
        (fakeip_value(octets) / 0x100) % 0x100 == octets@[2],
        fakeip_value(octets) % 0x100 == octets@[3],
{
    let a = octets@[0] as int;
    let b = octets@[1] as int;
    let c = octets@[2] as int;
    let d = octets@[3] as int;
    assert(0 <= a < 256 && 0 <= b < 256 && 0 <= c < 256 && 0 <= d < 256);
    assert((a * 0x1000000 + b * 0x10000 + c * 0x100 + d) / 0x1000000 == a) by (nonlinear_arith)
        requires
            0 <= a < 256 && 0 <= b < 256 && 0 <= c < 256 && 0 <= d < 256,
    ;
    assert((a * 0x1000000 + b * 0x10000 + c * 0x100 + d) / 0x10000 == a * 0x100 + b) by (
    nonlinear_arith)
        requires
            0 <= a < 256 && 0 <= b < 256 && 0 <= c < 256 && 0 <= d < 256,
    ;
    assert((a * 0x100 + b) % 0x100 == b) by (nonlinear_arith)
        requires
            0 <= b < 256,
    ;
    assert((a * 0x1000000 + b * 0x10000 + c * 0x100 + d) / 0x100 == a * 0x10000 + b * 0x100
        + c) by (nonlinear_arith)
        requires
            0 <= a < 256 && 0 <= b < 256 && 0 <= c < 256 && 0 <= d < 256,
    ;
    assert((a * 0x10000 + b * 0x100 + c) % 0x100 == c) by (nonlinear_arith)
        requires
            0 <= c < 256,
    ;
    assert((a * 0x1000000 + b * 0x10000 + c * 0x100 + d) % 0x100 == d) by (nonlinear_arith)
        requires
            0 <= d < 256,
    ;
}

/// An IPv4 address in the link-local block 169.254.0.0/16, where the addresses of servers
/// behind Steam Datagram Relay lie.
pub open spec fn is_link_local(octets: [u8; 4]) -> bool {
    octets@[0] == 169 && octets@[1] == 254
}

/// A server region. See <https://developer.valvesoftware.com/wiki/Sv_region>.
/// Not the same as Valve's matchmaking regions for official servers.
#[derive(Clone, Copy, Debug, PartialEq, Eq, Structural)]
pub enum Region {
    World,
    USEast,
    USWest,
    SouthAmerica,
    Europe,
    Asia,
    Australia,
    MiddleEast,
    Africa,
    Other(i32),
}

/// The region that the API's region code stands for.
pub open spec fn region_of(code: i32) -> Region {
    if code == 255 {
        Region::World
    } else if code == 0 {
        Region::USEast
    } else if code == 1 {
        Region::USWest
    } else if code == 2 {
        Region::SouthAmerica
    } else if code == 3 {
        Region::Europe
    } else if code == 4 {
        Region::Asia
    } else if code == 5 {
        Region::Australia
    } else if code == 6 {
        Region::MiddleEast
    } else if code == 7 {
        Region::Africa
    } else {
        Region::Other(code)
    }
}

impl From<i32> for Region {
    fn from(region: i32) -> (r: Region) {
        match region {
            255 => Region::World,
            0 => Region::USEast,
            1 => Region::USWest,
            2 => Region::SouthAmerica,
            3 => Region::Europe,
            4 => Region::Asia,
            5 => Region::Australia,
            6 => Region::MiddleEast,
            7 => Region::Africa,
            _ => Region::Other(region),
        }
    }
}

impl FromSpecImpl<i32> for Region {
    open spec fn obeys_from_spec() -> bool {
        true
    }

    open spec fn from_spec(v: i32) -> Region {
        region_of(v)
    }
}

/// A player on a server, as the Steam API reports it.
pub struct Player {
    pub name: String,
    pub score: i32,
    pub time_played: u32,
}

pub struct PlayerView {
    pub name: Seq<char>,
    pub score: i32,
    pub time_played: u32,
}

impl View for Player {
    type V = PlayerView;

    open spec fn view(&self) -> PlayerView {
        PlayerView { name: self.name@, score: self.score, time_played: self.time_played }
    }
}

impl Player {
    /// The player's name, which is how a player is shown.
    pub fn into_name(self) -> (name: String)
        ensures
            name@ == self.name@,
    {
        self.name
    }
}

/// A server as returned by `IGameServersService/GetServerList/v1`: typed, but only as much as
/// the JSON is, so mostly strings.
pub struct RawServer {
    pub addr: String,
    pub gameport: u16,
    pub steamid: String,
    pub name: String,
    pub appid: i32,
    pub gamedir: String,
    pub version: String,
    pub product: String,
    pub region: i32,
    pub players: i32,
    pub max_players: i32,
    pub bots: i32,
    pub map: String,
    pub secure: bool,
    pub dedicated: bool,
    pub os: String,
    pub gametype: String,
}

/// What the conversion to a `Server` reads of a `RawServer`.
pub struct RawServerView {
    pub gameport: u16,
    pub name: Seq<char>,
    pub region: i32,
    pub players: i32,
    pub max_players: i32,
    pub bots: i32,
    pub map: Seq<char>,
    pub gametype: Seq<char>,
}

impl View for RawServer {
    type V = RawServerView;

    open spec fn view(&self) -> RawServerView {
        RawServerView {
            gameport: self.gameport,
            name: self.name@,
            region: self.region,
            players: self.players,
            max_players: self.max_players,
            bots: self.bots,
            map: self.map@,
            gametype: self.gametype@,
        }
    }
}

/// The server data that is used, with better types.
pub struct Server {
    pub ip: IpAddress,
    pub port: u16,
    pub name: String,
    pub region: Region,
    pub players: Option<Vec<Player>>,
    pub num_players: i32,
    pub max_players: i32,
    pub bots: i32,
    pub map: String,
    pub tags: Vec<String>,
    pub valve_location: Option<ValveServerLocation>,
}

pub struct ServerView {
    pub ip: IpAddress,
    pub port: u16,
    pub name: Seq<char>,
    pub region: Region,
    pub players: Option<Seq<PlayerView>>,
    pub num_players: i32,
    pub max_players: i32,
    pub bots: i32,
    pub map: Seq<char>,
    pub tags: Seq<Seq<char>>,
    pub valve_location: Option<Seq<char>>,
}

pub open spec fn players_view(players: Option<Vec<Player>>) -> Option<Seq<PlayerView>> {
    match players {
        Some(v) => Some(v@.map_values(|p: Player| p@)),
        None => None,
    }
}

impl View for Server {
    type V = ServerView;

    open spec fn view(&self) -> ServerView {
        ServerView {
            ip: self.ip,
            port: self.port,
            name: self.name@,
            region: self.region,
            players: players_view(self.players),
            num_players: self.num_players,
            max_players: self.max_players,
            bots: self.bots,
            map: self.map@,
            tags: views(self.tags@),
            valve_location: match self.valve_location {
                Some(l) => Some(l@),
                None => None,
            },
        }
    }
}

/// The server that a `RawServer` with the IP address `ip` describes: its tags are its game
/// type split at commas, its location is read from its name, and its players are not known
/// yet.
pub open spec fn server_from_raw(raw: RawServerView, ip: IpAddress) -> ServerView {
    ServerView {
        ip: ip,
        port: raw.gameport,
        name: raw.name,
        region: region_of(raw.region),
        players: None,
        num_players: raw.players,
        max_players: raw.max_players,
        bots: raw.bots,
        map: raw.map,
        tags: split_on(raw.gametype, ','),
        valve_location: location_of(raw.name),
    }
}

/// Why a `RawServer` could not be converted to a `Server`.
#[derive(Clone, Copy, Debug, PartialEq, Eq, Structural)]
pub enum ServerParseError {
    InvalidAddress,
}

impl ServerParseError {
    /// The error's description.
    pub fn message(&self) -> (m: String)
        ensures
            m@ == "Failed to parse server address"@,
    {
        match self {
            ServerParseError::InvalidAddress => String::from_str("Failed to parse server address"),
        }
    }
}

impl Server {
    /// Converts the server data returned by the API, where `ip` is the IP address of
    /// `raw.addr` read as a socket address (`None` where it does not read as one).
    pub fn from_raw(raw: RawServer, ip: Option<IpAddress>) -> (res: Result<Server, ServerParseError>)
        ensures
            match ip {
                None => res == Err::<Server, ServerParseError>(ServerParseError::InvalidAddress),
                Some(a) => res matches Ok(s) && s@ == server_from_raw(raw@, a),
            },
            res matches Ok(s) ==> {
                &&& ip == Some(s.ip)
                &&& s.port == raw.gameport
                &&& s.name@ == raw.name@
                &&& s.num_players == raw.players
                &&& s.max_players == raw.max_players
                &&& s.bots == raw.bots
                &&& s.map@ == raw.map@
                &&& s.players is None
            },
    {
        let ip = match ip {
            Some(ip) => ip,
            None => return Err(ServerParseError::InvalidAddress),
        };
        let valve_location = ValveServerLocation::parse(raw.name.as_str());
        let region = Region::from(raw.region);
        let tags = split_char(raw.gametype.as_str(), ',');
        Ok(Server {
            ip,
            port: raw.gameport,
            name: raw.name,
            region,
            players: None,
            num_players: raw.players,
            max_players: raw.max_players,
            bots: raw.bots,
            map: raw.map,
            tags,
            valve_location,
        })
    }
}

/// What fetching a server's players takes.
#[derive(Clone, Copy, Debug, PartialEq, Eq, Structural)]
pub enum PlayerFetch {
    /// The players are known already: nothing is to be fetched.
    AlreadyFetched,
    /// The players are to be queried through `IGameServersService/QueryByFakeIP/v1` with this
    /// fake IP and port.
    QueryByFakeIp { fake_ip: u32, port: u16 },
}

/// Why a server's players cannot be fetched.
#[derive(Clone, Copy, Debug, PartialEq, Eq, Structural)]
pub enum PlayerFetchError {
    /// Only servers behind Steam Datagram Relay can be queried.
    NotBehindSdr,
    /// IPv6 addresses are not supported.
    Ipv6NotSupported,
}

impl PlayerFetchError {
    /// The error's description.
    pub fn message(&self) -> (m: String)
        ensures
            m@ == match self {
                PlayerFetchError::NotBehindSdr =>
                    "We can only query players for servers behind Steam Datagram Relay (SDR)"@,
                PlayerFetchError::Ipv6NotSupported =>
                    "IPv6 not supported yet - we can only query players for servers behind Steam Datagram Relay (SDR)"@,
            },
    {
        match self {
            PlayerFetchError::NotBehindSdr => String::from_str(
                "We can only query players for servers behind Steam Datagram Relay (SDR)",
            ),
            PlayerFetchError::Ipv6NotSupported => String::from_str(
                "IPv6 not supported yet - we can only query players for servers behind Steam Datagram Relay (SDR)",
            ),
        }
    }
}

/// How the players of `s` are fetched: not at all where they are known already; through the
/// fake-IP query where the server is behind Steam Datagram Relay (a link-local IPv4 address);
/// otherwise they cannot be.
pub open spec fn player_fetch_of(s: ServerView) -> Result<PlayerFetch, PlayerFetchError> {
    if s.players is Some {
        Ok(PlayerFetch::AlreadyFetched)
    } else {
        match s.ip {
            IpAddress::V4(octets) => if is_link_local(octets) {
                Ok(PlayerFetch::QueryByFakeIp { fake_ip: fakeip_value(octets) as u32, port: s.port })
            } else {
                Err(PlayerFetchError::NotBehindSdr)
            },
            IpAddress::V6(_) => Err(PlayerFetchError::Ipv6NotSupported),
        }
    }
}

impl Server {
    /// Decides how this server's players are fetched, if they have not been already.
    pub fn player_fetch(&self) -> (res: Result<PlayerFetch, PlayerFetchError>)
        ensures
            res == player_fetch_of(self@),
            (res == Ok::<PlayerFetch, PlayerFetchError>(PlayerFetch::AlreadyFetched)) == (
            self.players is Some),
            res matches Ok(PlayerFetch::QueryByFakeIp { fake_ip, port }) ==> {
                &&& port == self.port
                &&& self.ip matches IpAddress::V4(o) && is_link_local(o) && fake_ip
                    == fakeip_value(o)
            },
    {
        if self.players.is_some() {
            return Ok(PlayerFetch::AlreadyFetched);
        }
        match self.ip {
            IpAddress::V4(octets) => {
                if octets[0] == 169 && octets[1] == 254 {
                    Ok(PlayerFetch::QueryByFakeIp { fake_ip: fakeip_to_int(octets), port: self.port })
                } else {
                    Err(PlayerFetchError::NotBehindSdr)
                }
            },
            IpAddress::V6(_) => Err(PlayerFetchError::Ipv6NotSupported),
        }
    }

    /// Records the fetched players of this server; nothing else changes.
    pub fn set_players(&mut self, players: Vec<Player>)
        ensures
            final(self)@ == (ServerView { players: Some(players@.map_values(|p: Player| p@)), ..old(self)@ }),
    {
        self.players = Some(players);
    }
}

/// Players are fetched at most once: once a server's players are recorded, fetching them
/// again does nothing.
pub proof fn law_players_fetched_once(s: ServerView, players: Seq<PlayerView>)
    ensures
        player_fetch_of(ServerView { players: Some(players), ..s }) == Ok::<
            PlayerFetch,
            PlayerFetchError,
        >(PlayerFetch::AlreadyFetched),
{
}

/// A server's tags are the comma-separated parts of its game type: a game type made by joining
/// tags without commas gives back exactly those tags.
pub proof fn law_tags_from_joined_game_type(raw: RawServerView, ip: IpAddress, tags: Seq<Seq<char>>)
    requires
        tags.len() >= 1,
        forall|i: int| 0 <= i < tags.len() ==> !(#[trigger] tags[i]).contains(','),
        raw.gametype == seq_join(tags, seq![',']),
    ensures
        server_from_raw(raw, ip).tags == tags,
{
    law_split_of_join(tags, ',');
}

/// TF2's app id.
pub const TF2_APP_ID: u32 = 440;

/// The largest number of servers asked for in one server-list request; the API does not
/// paginate.
pub const SERVER_LIST_LIMIT: u32 = 100_000;

/// The query type of a player-list query (the API's equivalent of `A2S_PLAYER`).
pub const PLAYER_LIST_QUERY_TYPE: u32 = 2;

/// A request to the Steam API's game-servers service, by its parameters.
#[derive(Debug, PartialEq, Eq)]
pub enum ApiQuery {
    /// The servers that match a filter expression.
    ServerList { filter: String, limit: u32 },
    /// The players of a server behind Steam Datagram Relay.
    PlayersByFakeIp { fake_ip: u32, fake_port: u16, app_id: u32, query_type: u32 },
}

impl ApiQuery {
    /// The request for the servers that match a filter expression.
    pub fn server_list(filter: String) -> (q: ApiQuery)
        ensures
            q matches ApiQuery::ServerList { filter: f, limit } && f@ == filter@ && limit
                == SERVER_LIST_LIMIT && limit == 100_000,
    {
        ApiQuery::ServerList { filter, limit: SERVER_LIST_LIMIT }
    }

    /// The request for the players of the TF2 server behind Steam Datagram Relay with this fake
    /// IP and port.
    pub fn players_by_fake_ip(fake_ip: u32, fake_port: u16) -> (q: ApiQuery)
        ensures
            q == (ApiQuery::PlayersByFakeIp {
                fake_ip,
                fake_port,
                app_id: TF2_APP_ID,
                query_type: PLAYER_LIST_QUERY_TYPE,
            }),
            q == (ApiQuery::PlayersByFakeIp { fake_ip, fake_port, app_id: 440, query_type: 2 }),
    {
        ApiQuery::PlayersByFakeIp {
            fake_ip,
            fake_port,
            app_id: TF2_APP_ID,
            query_type: PLAYER_LIST_QUERY_TYPE,
        }
    }

    /// The path of the API method, below the API's base URL.
    pub fn path(&self) -> (p: String)
        ensures
            p@ == match self {
                ApiQuery::ServerList { .. } => "/IGameServersService/GetServerList/v1"@,
                ApiQuery::PlayersByFakeIp { .. } => "/IGameServersService/QueryByFakeIP/v1"@,
            },
    {
        match self {
            ApiQuery::ServerList { .. } => String::from_str("/IGameServersService/GetServerList/v1"),
            ApiQuery::PlayersByFakeIp { .. } => String::from_str(
                "/IGameServersService/QueryByFakeIP/v1",
            ),
        }
    }
}

/// The converted server carries the raw server's data unchanged: its port, name, player
/// count, player limit, bot count and map, the address it was given, and no players yet.
pub proof fn law_from_raw_carries_the_raw_data(raw: RawServerView, ip: IpAddress)
    ensures
        server_from_raw(raw, ip).ip == ip,
        server_from_raw(raw, ip).port == raw.gameport,
        server_from_raw(raw, ip).name == raw.name,
        server_from_raw(raw, ip).num_players == raw.players,
        server_from_raw(raw, ip).max_players == raw.max_players,
        server_from_raw(raw, ip).bots == raw.bots,
        server_from_raw(raw, ip).map == raw.map,
        server_from_raw(raw, ip).players is None,
        server_from_raw(raw, ip).valve_location == location_of(raw.name),
{
}

/// Distinct region codes give distinct regions, and every code outside the known ones is kept
/// as it is.
pub proof fn law_region_codes_are_kept_apart(c1: i32, c2: i32)
    ensures
        region_of(c1) == region_of(c2) ==> c1 == c2,
        (c1 < 0 || (7 < c1 && c1 != 255)) ==> region_of(c1) == Region::Other(c1),
{
}

/// How a server's players are fetched: a fake-IP query is made only for a server whose players
/// are unknown and whose address is link-local IPv4, and it is addressed to that server's own
/// address and port; the fake IP then lies in 169.254.0.0/16. Already fetched players are
/// never fetched again, and other servers give the matching error.
pub proof fn law_player_fetch_targets_the_server(s: ServerView)
    ensures
        match player_fetch_of(s) {
            Ok(PlayerFetch::QueryByFakeIp { fake_ip, port }) => {
                &&& port == s.port
                &&& s.players is None
                &&& s.ip matches IpAddress::V4(o) && is_link_local(o) && fake_ip == fakeip_value(o)
                &&& 0xa9fe0000 <= fake_ip <= 0xa9feffff
            },
            Ok(PlayerFetch::AlreadyFetched) => s.players is Some,
            Err(PlayerFetchError::NotBehindSdr) => {
                &&& s.players is None
                &&& s.ip matches IpAddress::V4(o) && !is_link_local(o)
            },
            Err(PlayerFetchError::Ipv6NotSupported) => s.players is None && s.ip is V6,
        },
{
    if let IpAddress::V4(o) = s.ip {
        let v = fakeip_value(o);
        assert(0 <= o@[2] < 256 && 0 <= o@[3] < 256);
        assert(0 <= o@[2] * 0x100 + o@[3] <= 0xffff) by (nonlinear_arith)
            requires
                0 <= o@[2] < 256 && 0 <= o@[3] < 256,
        ;
    }
}

} // verus!
