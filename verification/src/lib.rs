//! Querying data about online Team Fortress 2 servers: the filter language sent to the
//! Steam API, the parsing of the server data that it returns, and the additional filtering
//! done on those servers.
use vstd::prelude::*;

pub mod api;
pub mod filter;
pub mod location;
pub mod text;

use crate::api::{IpAddress, RawServer, RawServerView, Server, ServerView, server_from_raw};
use crate::filter::{Filter, FilterView, server_matches};

verus! {

/// The views of a list of servers.
pub open spec fn server_views(v: Seq<Server>) -> Seq<ServerView> {
    v.map_values(|s: Server| s@)
}

/// The views of a list of raw servers, each with the IP address read from its address.
pub open spec fn raw_views(v: Seq<(RawServer, Option<IpAddress>)>) -> Seq<(RawServerView, Option<IpAddress>)> {
    v.map_values(|r: (RawServer, Option<IpAddress>)| (r.0@, r.1))
}

/// The servers that a list of raw servers converts to, in order: those whose address does not
/// read as a socket address are left out.
pub open spec fn parsed_servers(raws: Seq<(RawServerView, Option<IpAddress>)>) -> Seq<ServerView>
    decreases raws.len(),
{
    if raws.len() == 0 {
        Seq::empty()
    } else {
        let prev = parsed_servers(raws.drop_last());
        match raws.last().1 {
            Some(ip) => prev.push(server_from_raw(raws.last().0, ip)),
            None => prev,
        }
    }
}

/// The servers of a list that a filter keeps, in order.
pub open spec fn kept_servers(f: FilterView, servers: Seq<ServerView>) -> Seq<ServerView>
    decreases servers.len(),
{
    if servers.len() == 0 {
        Seq::empty()
    } else {
        let prev = kept_servers(f, servers.drop_last());
        if server_matches(f, servers.last()) {
            prev.push(servers.last())
        } else {
            prev
        }
    }
}

/// Converts the servers returned by the API, each with the IP address read from its address,
/// leaving out those whose address does not read as a socket address.
pub fn parse_servers(raws: Vec<(RawServer, Option<IpAddress>)>) -> (servers: Vec<Server>)
    ensures
        server_views(servers@) == parsed_servers(raw_views(raws@)),
{
    let ghost rs = raw_views(raws@);
    let mut servers: Vec<Server> = Vec::new();
    for raw in iter: raws
        invariant
            rs == raw_views(iter.seq()),
            server_views(servers@) == parsed_servers(rs.take(iter.index() as int)),
    {
        let ghost k = iter.index() as int;
        proof {
            assert(rs.take(k + 1).drop_last() =~= rs.take(k));
            assert(rs.take(k + 1).last() == rs[k]);
        }
        let ghost before = server_views(servers@);
        match Server::from_raw(raw.0, raw.1) {
            Ok(server) => {
                servers.push(server);
                assert(server_views(servers@) =~= before.push(server@));
            },
            Err(_) => {},
        }
    }
    proof {
        assert(rs.take(rs.len() as int) =~= rs);
    }
    servers
}

/// The servers of a list that the filter keeps, in order.
pub fn keep_matching(filter: &Filter, servers: Vec<Server>) -> (kept: Vec<Server>)
    ensures
        server_views(kept@) == kept_servers(filter@, server_views(servers@)),
{
    let ghost ss = server_views(servers@);
    let mut kept: Vec<Server> = Vec::new();
    for server in iter: servers
        invariant
            ss == server_views(iter.seq()),
            server_views(kept@) == kept_servers(filter@, ss.take(iter.index() as int)),
    {
        let ghost k = iter.index() as int;
        proof {
            assert(ss.take(k + 1).drop_last() =~= ss.take(k));
            assert(ss.take(k + 1).last() == ss[k]);
        }
        let ghost before = server_views(kept@);
        if filter.filter_server(&server) {
            kept.push(server);
            assert(server_views(kept@) =~= before.push(ss[k]));
        }
    }
    proof {
        assert(ss.take(ss.len() as int) =~= ss);
    }
    kept
}

/// Whether the players of a kept server are fetched: where players were asked for and the
/// server has some.
pub fn should_fetch_players(fetch_players: bool, server: &Server) -> (res: bool)
    ensures
        res == (fetch_players && server.num_players > 0),
{
    fetch_players && server.num_players > 0
}

/// Filtering keeps only servers that match, and every server that matches, in their order: the
/// kept servers are those of the list that the filter accepts.
pub proof fn law_kept_servers_are_the_matching_ones(f: FilterView, servers: Seq<ServerView>)
    ensures
        kept_servers(f, servers) == servers.filter(|s: ServerView| server_matches(f, s)),
        forall|i: int|
            0 <= i < kept_servers(f, servers).len() ==> server_matches(
                f,
                #[trigger] kept_servers(f, servers)[i],
            ),
    decreases servers.len(),
{
    reveal(Seq::filter);
    let pred = |s: ServerView| server_matches(f, s);
    if servers.len() > 0 {
        law_kept_servers_are_the_matching_ones(f, servers.drop_last());
    }
    assert forall|i: int| 0 <= i < kept_servers(f, servers).len() implies server_matches(
        f,
        #[trigger] kept_servers(f, servers)[i],
    ) by {
        servers.lemma_filter_pred(pred, i);
    }
}

/// Each raw server with a readable address adds its converted server at the end of the list,
/// and one without adds nothing; so when every address reads, there are as many servers as raw
/// servers.
pub proof fn law_parsed_servers_follow_the_raw_list(
    raws: Seq<(RawServerView, Option<IpAddress>)>,
    raw: RawServerView,
    ip: Option<IpAddress>,
)
    ensures
        parsed_servers(raws.push((raw, ip))) == match ip {
            Some(a) => parsed_servers(raws).push(server_from_raw(raw, a)),
            None => parsed_servers(raws),
        },
        parsed_servers(raws).len() <= raws.len(),
        (forall|i: int| 0 <= i < raws.len() ==> (#[trigger] raws[i]).1 is Some) ==> parsed_servers(
            raws,
        ).len() == raws.len(),
    decreases raws.len(),
{
    assert(raws.push((raw, ip)).drop_last() =~= raws);
    if raws.len() > 0 {
        let init = raws.drop_last();
        law_parsed_servers_follow_the_raw_list(init, raws.last().0, raws.last().1);
        assert(init.push(raws.last()) =~= raws);
        if forall|i: int| 0 <= i < raws.len() ==> (#[trigger] raws[i]).1 is Some {
            assert forall|i: int| 0 <= i < init.len() implies (#[trigger] init[i]).1 is Some by {
                assert(init[i] == raws[i]);
            }
            assert(raws[raws.len() - 1] == raws.last());
        }
    }
}

} // verus!
