//! Which servers to ask the Steam API for, and which of those it returns to keep.
use vstd::prelude::*;

use crate::api::{Server, ServerView};
use crate::text::{contains_string, has_prefix, push_joined, seq_join, starts_with, views};

verus! {

/// A server filter: part of it is sent to the Steam API as a filter expression, and all of it
/// is checked again on the servers that come back.
pub struct Filter {
    only_valve: bool,
    valve_location: Option<String>,
    name_filter_pattern: Option<String>,
    required_tags: Vec<String>,
    forbidden_tags: Vec<String>,
    min_players: i32,
}

/// What a filter holds.
pub struct FilterView {
    pub only_valve: bool,
    pub valve_location: Option<Seq<char>>,
    pub name_filter_pattern: Option<Seq<char>>,
    pub required_tags: Seq<Seq<char>>,
    pub forbidden_tags: Seq<Seq<char>>,
    pub min_players: i32,
}

pub open spec fn opt_view(o: Option<String>) -> Option<Seq<char>> {
    match o {
        Some(s) => Some(s@),
        None => None,
    }
}

impl View for Filter {
    type V = FilterView;

    closed spec fn view(&self) -> FilterView {
        FilterView {
            only_valve: self.only_valve,
            valve_location: opt_view(self.valve_location),
            name_filter_pattern: opt_view(self.name_filter_pattern),
            required_tags: views(self.required_tags@),
            forbidden_tags: views(self.forbidden_tags@),
            min_players: self.min_players,
        }
    }
}

/// The part of the filter expression that asks for official (Valve-hosted) servers, at the
/// given location if there is one.
pub open spec fn valve_expression(location: Option<Seq<char>>) -> Seq<char> {
    "\\secure\\1\\linux\\1"@ + "\\name_match\\Valve Matchmaking Server (*srcds*-"@ + (
    match location {
        Some(l) => l,
        None => Seq::empty(),
    }) + "* #*)"@
}

/// The filter expression sent to the Steam API for a filter: always TF2's app id; the
/// official-server clauses when official servers or a location are asked for; `\empty\1`
/// (which excludes empty servers) when a minimum of players is set; a negated `gametype` with
/// all the forbidden tags, comma-separated; one `gametype` per required tag; and the name
/// pattern.
pub open spec fn api_filter_expression(f: FilterView) -> Seq<char> {
    "\\appid\\440"@ + (if f.only_valve || f.valve_location is Some {
        valve_expression(f.valve_location)
    } else {
        Seq::empty()
    }) + (if f.min_players > 0 {
        "\\empty\\1"@
    } else {
        Seq::empty()
    }) + (if f.forbidden_tags.len() > 0 {
        "\\nor\\1\\gametype\\"@ + seq_join(f.forbidden_tags, ","@)
    } else {
        Seq::empty()
    }) + (if f.required_tags.len() > 0 {
        "\\gametype\\"@ + seq_join(f.required_tags, "\\gametype\\"@)
    } else {
        Seq::empty()
    }) + (match f.name_filter_pattern {
        Some(p) => "\\name_match\\"@ + p,
        None => Seq::empty(),
    })
}

/// Whether a server is kept by a filter: it has at least the minimum of players, none of the
/// forbidden tags and all the required ones; and, where only official servers are asked for,
/// it is one (its name gives a location), at a location that starts with the filter's
/// location if the filter has one.
pub open spec fn server_matches(f: FilterView, s: ServerView) -> bool {
    &&& s.num_players >= f.min_players
    &&& forall|i: int| 0 <= i < f.forbidden_tags.len() ==> !s.tags.contains(#[trigger] f.forbidden_tags[i])
    &&& forall|i: int| 0 <= i < f.required_tags.len() ==> s.tags.contains(#[trigger] f.required_tags[i])
    &&& f.only_valve ==> match s.valve_location {
        None => false,
        Some(l) => match f.valve_location {
            None => true,
            Some(code) => starts_with(l, code),
        },
    }
}

impl Filter {
    /// Builds the filter expression that the Steam API's server list takes.
    pub fn build_api_filter_expression(&self) -> (res: String)
        ensures
            res@ == api_filter_expression(self@),
    {
        let ghost f = self@;
        let mut out = String::from_str("\\appid\\440");
        let ghost e0 = out@;
        if self.only_valve || self.valve_location.is_some() {
            out.append("\\secure\\1\\linux\\1");
            out.append("\\name_match\\Valve Matchmaking Server (*srcds*-");
            match &self.valve_location {
                Some(l) => out.append(l.as_str()),
                None => {},
            }
            out.append("* #*)");
            assert(out@ =~= e0 + valve_expression(f.valve_location));
        }
        let ghost e1 = out@;
        if self.min_players > 0 {
            out.append("\\empty\\1");
        }
        let ghost e2 = out@;
        if self.forbidden_tags.len() > 0 {
            out.append("\\nor\\1\\gametype\\");
            push_joined(&mut out, &self.forbidden_tags, ",");
            assert(out@ =~= e2 + ("\\nor\\1\\gametype\\"@ + seq_join(f.forbidden_tags, ","@)));
        }
        let ghost e3 = out@;
        if self.required_tags.len() > 0 {
            out.append("\\gametype\\");
            push_joined(&mut out, &self.required_tags, "\\gametype\\");
            assert(out@ =~= e3 + ("\\gametype\\"@ + seq_join(
                f.required_tags,
                "\\gametype\\"@,
            )));
        }
        let ghost e4 = out@;
        match &self.name_filter_pattern {
            Some(p) => {
                out.append("\\name_match\\");
                out.append(p.as_str());
                assert(out@ =~= e4 + ("\\name_match\\"@ + p@));
            },
            None => {},
        }
        assert(out@ =~= api_filter_expression(f));
        out
    }

    /// Determines whether a server returned by the API for this filter's expression is kept.
    pub fn filter_server(&self, server: &Server) -> (res: bool)
        ensures
            res == server_matches(self@, server@),
    {
        if server.num_players < self.min_players {
            return false;
        }
        let n = self.forbidden_tags.len();
        let mut i: usize = 0;
        while i < n
            invariant
                n == self.forbidden_tags@.len(),
                i <= n,
                forall|k: int|
                    0 <= k < i ==> !server@.tags.contains(#[trigger] self@.forbidden_tags[k]),
            decreases n - i,
        {
            if contains_string(&server.tags, &self.forbidden_tags[i]) {
                assert(self@.forbidden_tags[i as int] == self.forbidden_tags@[i as int]@);
                return false;
            }
            assert(self@.forbidden_tags[i as int] == self.forbidden_tags@[i as int]@);
            i = i + 1;
        }
        let m = self.required_tags.len();
        let mut j: usize = 0;
        while j < m
            invariant
                m == self.required_tags@.len(),
                j <= m,
                forall|k: int|
                    0 <= k < j ==> server@.tags.contains(#[trigger] self@.required_tags[k]),
            decreases m - j,
        {
            if !contains_string(&server.tags, &self.required_tags[j]) {
                assert(self@.required_tags[j as int] == self.required_tags@[j as int]@);
                return false;
            }
            assert(self@.required_tags[j as int] == self.required_tags@[j as int]@);
            j = j + 1;
        }
        if self.only_valve {
            match &server.valve_location {
                None => {
                    return false;
                },
                Some(location) => {
                    match &self.valve_location {
                        Some(code) => {
                            if !has_prefix(location.0.as_str(), code.as_str()) {
                                return false;
                            }
                        },
                        None => {},
                    }
                },
            }
        }
        true
    }
}

/// Builds a `Filter` one setting at a time, starting from the filter that keeps every server.
pub struct FilterBuilder {
    only_valve: bool,
    valve_location: Option<String>,
    name_filter_pattern: Option<String>,
    required_tags: Vec<String>,
    forbidden_tags: Vec<String>,
    min_players: i32,
}

impl View for FilterBuilder {
    type V = FilterView;

    closed spec fn view(&self) -> FilterView {
        FilterView {
            only_valve: self.only_valve,
            valve_location: opt_view(self.valve_location),
            name_filter_pattern: opt_view(self.name_filter_pattern),
            required_tags: views(self.required_tags@),
            forbidden_tags: views(self.forbidden_tags@),
            min_players: self.min_players,
        }
    }
}

/// The filter that a new builder holds: no restriction of any kind.
pub open spec fn default_filter() -> FilterView {
    FilterView {
        only_valve: false,
        valve_location: None,
        name_filter_pattern: None,
        required_tags: Seq::empty(),
        forbidden_tags: Seq::empty(),
        min_players: 0,
    }
}

impl FilterBuilder {
    /// The filter built so far.
    pub fn build(self) -> (f: Filter)
        ensures
            f@ == self@,
    {
        Filter {
            only_valve: self.only_valve,
            valve_location: self.valve_location,
            name_filter_pattern: self.name_filter_pattern,
            required_tags: self.required_tags,
            forbidden_tags: self.forbidden_tags,
            min_players: self.min_players,
        }
    }

    /// Whether only official (Valve-hosted) servers are kept.
    pub fn only_valve(self, only_valve: bool) -> (b: Self)
        ensures
            b@ == (FilterView { only_valve: only_valve, ..self@ }),
    {
        let mut b = self;
        b.only_valve = only_valve;
        b
    }

    /// The location (the start of it, such as an airport code) of the official servers to
    /// keep.
    pub fn valve_location(self, valve_location: Option<String>) -> (b: Self)
        ensures
            b@ == (FilterView { valve_location: opt_view(valve_location), ..self@ }),
    {
        let mut b = self;
        b.valve_location = valve_location;
        b
    }

    /// The pattern that the API matches server names against (`*` is a wildcard).
    pub fn name_filter_pattern(self, name_filter_pattern: Option<String>) -> (b: Self)
        ensures
            b@ == (FilterView { name_filter_pattern: opt_view(name_filter_pattern), ..self@ }),
    {
        let mut b = self;
        b.name_filter_pattern = name_filter_pattern;
        b
    }

    /// The tags that a kept server has, all of them.
    pub fn required_tags(self, required_tags: Vec<String>) -> (b: Self)
        ensures
            b@ == (FilterView { required_tags: views(required_tags@), ..self@ }),
    {
        let mut b = self;
        b.required_tags = required_tags;
        b
    }

    /// The tags that a kept server has none of.
    pub fn forbidden_tags(self, forbidden_tags: Vec<String>) -> (b: Self)
        ensures
            b@ == (FilterView { forbidden_tags: views(forbidden_tags@), ..self@ }),
    {
        let mut b = self;
        b.forbidden_tags = forbidden_tags;
        b
    }

    /// The least number of players that a kept server has.
    pub fn min_players(self, min_players: i32) -> (b: Self)
        ensures
            b@ == (FilterView { min_players: min_players, ..self@ }),
    {
        let mut b = self;
        b.min_players = min_players;
        b
    }

    /// A builder that holds the filter with no restriction.
    pub fn new() -> (b: Self)
        ensures
            b@ == default_filter(),
    {
        let b = FilterBuilder {
            only_valve: false,
            valve_location: None,
            name_filter_pattern: None,
            required_tags: Vec::new(),
            forbidden_tags: Vec::new(),
            min_players: 0,
        };
        assert(views(b.required_tags@) =~= Seq::<Seq<char>>::empty());
        assert(views(b.forbidden_tags@) =~= Seq::<Seq<char>>::empty());
        b
    }
}

impl Default for FilterBuilder {
    fn default() -> (b: Self)
        ensures
            b@ == default_filter(),
    {
        FilterBuilder::new()
    }
}

/// The filter without restriction keeps every server with a player count that is not
/// negative, and asks the API for every TF2 server.
pub proof fn law_default_filter_keeps_all(s: ServerView)
    requires
        s.num_players >= 0,
    ensures
        server_matches(default_filter(), s),
        api_filter_expression(default_filter()) == "\\appid\\440"@,
{
    assert(api_filter_expression(default_filter()) =~= "\\appid\\440"@);
}

/// Asking for a location asks the API for official servers, whether or not official servers
/// were asked for on their own.
pub proof fn law_location_implies_official(f: FilterView)
    requires
        f.valve_location is Some,
    ensures
        api_filter_expression(FilterView { only_valve: false, ..f }) == api_filter_expression(
            FilterView { only_valve: true, ..f },
        ),
{
}

/// The command-line options that decide the filter.
pub struct Args {
    /// Query each server for its online players.
    pub get_players: bool,
    /// Only servers with online players.
    pub has_players: bool,
    /// Exclude Mann vs. Machine servers.
    pub no_mvm: bool,
    /// Only official (Valve-hosted) servers.
    pub valve: bool,
    /// Only official servers at this location, e.g. `syd`; implies `valve`.
    pub valve_location: Option<String>,
    /// Only servers whose name matches this pattern (`*` is a wildcard); ignored where `valve`
    /// or `valve_location` is given.
    pub filter_name: Option<String>,
}

/// The filter that the command-line options ask for.
pub open spec fn filter_of_args(
    has_players: bool,
    no_mvm: bool,
    valve: bool,
    valve_location: Option<Seq<char>>,
    filter_name: Option<Seq<char>>,
) -> FilterView {
    let official = valve || valve_location is Some;
    FilterView {
        only_valve: official,
        valve_location: valve_location,
        name_filter_pattern: if official {
            None
        } else {
            filter_name
        },
        required_tags: Seq::empty(),
        forbidden_tags: if no_mvm {
            seq!["mvm"@]
        } else {
            Seq::empty()
        },
        min_players: if has_players {
            1
        } else {
            0
        },
    }
}

fn clone_opt(o: &Option<String>) -> (r: Option<String>)
    ensures
        opt_view(r) == opt_view(*o),
{
    match o {
        Some(s) => Some(s.clone()),
        None => None,
    }
}

/// Builds the filter that the command-line options ask for.
pub fn filter_from_args(args: &Args) -> (f: Filter)
    ensures
        f@ == filter_of_args(
            args.has_players,
            args.no_mvm,
            args.valve,
            opt_view(args.valve_location),
            opt_view(args.filter_name),
        ),
{
    let mut forbidden_tags: Vec<String> = Vec::new();
    let mut min_players: i32 = 0;
    if args.no_mvm {
        forbidden_tags.push(String::from_str("mvm"));
        assert(views(forbidden_tags@) =~= seq!["mvm"@]);
    } else {
        assert(views(forbidden_tags@) =~= Seq::<Seq<char>>::empty());
    }
    if args.has_players {
        min_players = 1;
    }
    let official = args.valve || args.valve_location.is_some();
    let name_filter_pattern = if official {
        None
    } else {
        clone_opt(&args.filter_name)
    };
    let f = FilterBuilder::new().only_valve(official).valve_location(clone_opt(&args.valve_location)).name_filter_pattern(
        name_filter_pattern,
    ).forbidden_tags(forbidden_tags).min_players(min_players).build();
    assert(f@ =~= filter_of_args(
        args.has_players,
        args.no_mvm,
        args.valve,
        opt_view(args.valve_location),
        opt_view(args.filter_name),
    ));
    f
}

/// With a location given on the command line, a server is kept only where it is an official
/// server whose location starts with the one given.
pub proof fn law_location_option_keeps_matching_locations(
    has_players: bool,
    no_mvm: bool,
    valve: bool,
    code: Seq<char>,
    filter_name: Option<Seq<char>>,
    s: ServerView,
)
    requires
        server_matches(filter_of_args(has_players, no_mvm, valve, Some(code), filter_name), s),
    ensures
        s.valve_location matches Some(l) && starts_with(l, code),
{
}

/// The filter expression always asks for TF2 first.
pub proof fn law_expression_starts_with_app_id(f: FilterView)
    ensures
        starts_with(api_filter_expression(f), "\\appid\\440"@),
{
    let e = api_filter_expression(f);
    let a = "\\appid\\440"@;
    assert(e.subrange(0, a.len() as int) =~= a);
}

/// Any positive minimum of players asks the API to exclude empty servers (`\empty\1`, eight
/// characters), whatever the minimum is; a minimum that is not positive adds nothing.
pub proof fn law_empty_clause_follows_sign_of_min_players(f: FilterView, m: i32)
    ensures
        m >= 1 ==> api_filter_expression(FilterView { min_players: m, ..f })
            == api_filter_expression(FilterView { min_players: 1, ..f }),
        m <= 0 ==> api_filter_expression(FilterView { min_players: m, ..f })
            == api_filter_expression(FilterView { min_players: 0, ..f }),
        api_filter_expression(FilterView { min_players: 1, ..f }).len() == api_filter_expression(
            FilterView { min_players: 0, ..f },
        ).len() + 8,
        m >= 1 ==> api_filter_expression(FilterView { min_players: m, ..default_filter() })
            == "\\appid\\440\\empty\\1"@,
{
    reveal_strlit("\\empty\\1");
    reveal_strlit("\\appid\\440");
    reveal_strlit("\\appid\\440\\empty\\1");
    assert("\\appid\\440"@ + "\\empty\\1"@ =~= "\\appid\\440\\empty\\1"@);
    if m >= 1 {
        assert(api_filter_expression(FilterView { min_players: m, ..default_filter() })
            =~= "\\appid\\440"@ + "\\empty\\1"@);
    }
}

/// The official-server clauses, alone: they ask for secure Linux servers whose name matches
/// the official naming with the given location (any location where there is none).
pub proof fn law_official_clauses(only_valve: bool, location: Option<Seq<char>>)
    ensures
        api_filter_expression(
            FilterView { only_valve: only_valve, valve_location: location, ..default_filter() },
        ) == if only_valve || location is Some {
            "\\appid\\440\\secure\\1\\linux\\1\\name_match\\Valve Matchmaking Server (*srcds*-"@
                + match location {
                Some(l) => l,
                None => Seq::empty(),
            } + "* #*)"@
        } else {
            "\\appid\\440"@
        },
{
    reveal_strlit("\\appid\\440");
    reveal_strlit("\\secure\\1\\linux\\1");
    reveal_strlit("\\name_match\\Valve Matchmaking Server (*srcds*-");
    reveal_strlit("\\appid\\440\\secure\\1\\linux\\1\\name_match\\Valve Matchmaking Server (*srcds*-");
    assert("\\appid\\440"@ + "\\secure\\1\\linux\\1"@ + "\\name_match\\Valve Matchmaking Server (*srcds*-"@
        =~= "\\appid\\440\\secure\\1\\linux\\1\\name_match\\Valve Matchmaking Server (*srcds*-"@);
    let e = api_filter_expression(
        FilterView { only_valve: only_valve, valve_location: location, ..default_filter() },
    );
    if only_valve || location is Some {
        assert(e =~= "\\appid\\440\\secure\\1\\linux\\1\\name_match\\Valve Matchmaking Server (*srcds*-"@
            + match location {
            Some(l) => l,
            None => Seq::empty(),
        } + "* #*)"@);
    } else {
        assert(e =~= "\\appid\\440"@);
    }
}

/// A single forbidden tag adds `\nor\1\gametype\` and the tag; each further forbidden tag adds
/// a comma and the tag (where no required tag or name pattern follows).
pub proof fn law_forbidden_tags_in_expression(f: FilterView, tags: Seq<Seq<char>>, t: Seq<char>)
    requires
        f.required_tags.len() == 0,
        f.name_filter_pattern is None,
    ensures
        api_filter_expression(FilterView { forbidden_tags: seq![t], ..f }) == api_filter_expression(
            FilterView { forbidden_tags: Seq::empty(), ..f },
        ) + "\\nor\\1\\gametype\\"@ + t,
        tags.len() > 0 ==> api_filter_expression(FilterView { forbidden_tags: tags.push(t), ..f })
            == api_filter_expression(FilterView { forbidden_tags: tags, ..f }) + ","@ + t,
{
    assert(api_filter_expression(FilterView { forbidden_tags: seq![t], ..f }) =~= api_filter_expression(
        FilterView { forbidden_tags: Seq::empty(), ..f },
    ) + "\\nor\\1\\gametype\\"@ + t);
    if tags.len() > 0 {
        assert(tags.push(t).drop_last() =~= tags);
        assert(api_filter_expression(FilterView { forbidden_tags: tags.push(t), ..f })
            =~= api_filter_expression(FilterView { forbidden_tags: tags, ..f }) + ","@ + t);
    }
}

/// Each required tag adds its own `\gametype\` clause (where no name pattern follows).
pub proof fn law_required_tags_in_expression(f: FilterView, tags: Seq<Seq<char>>, t: Seq<char>)
    requires
        f.name_filter_pattern is None,
    ensures
        api_filter_expression(FilterView { required_tags: seq![t], ..f }) == api_filter_expression(
            FilterView { required_tags: Seq::empty(), ..f },
        ) + "\\gametype\\"@ + t,
        tags.len() > 0 ==> api_filter_expression(FilterView { required_tags: tags.push(t), ..f })
            == api_filter_expression(FilterView { required_tags: tags, ..f }) + "\\gametype\\"@ + t,
{
    assert(api_filter_expression(FilterView { required_tags: seq![t], ..f }) =~= api_filter_expression(
        FilterView { required_tags: Seq::empty(), ..f },
    ) + "\\gametype\\"@ + t);
    if tags.len() > 0 {
        assert(tags.push(t).drop_last() =~= tags);
        assert(api_filter_expression(FilterView { required_tags: tags.push(t), ..f })
            =~= api_filter_expression(FilterView { required_tags: tags, ..f }) + "\\gametype\\"@
            + t);
    }
}

/// A name pattern is appended as a last `\name_match\` clause.
pub proof fn law_name_pattern_in_expression(f: FilterView, p: Seq<char>)
    ensures
        api_filter_expression(FilterView { name_filter_pattern: Some(p), ..f })
            == api_filter_expression(FilterView { name_filter_pattern: None, ..f })
            + "\\name_match\\"@ + p,
{
    assert(api_filter_expression(FilterView { name_filter_pattern: Some(p), ..f })
        =~= api_filter_expression(FilterView { name_filter_pattern: None, ..f }) + "\\name_match\\"@
        + p);
}

/// A kept server has at least the minimum of players.
pub proof fn law_kept_servers_have_enough_players(f: FilterView, s: ServerView)
    requires
        server_matches(f, s),
    ensures
        s.num_players >= f.min_players,
{
}

/// A kept server has none of the forbidden tags, at any position in the list.
pub proof fn law_kept_servers_have_no_forbidden_tag(f: FilterView, s: ServerView, i: int)
    requires
        server_matches(f, s),
        0 <= i < f.forbidden_tags.len(),
    ensures
        !s.tags.contains(f.forbidden_tags[i]),
{
}

/// A kept server has every required tag, at any position in the list.
pub proof fn law_kept_servers_have_every_required_tag(f: FilterView, s: ServerView, i: int)
    requires
        server_matches(f, s),
        0 <= i < f.required_tags.len(),
    ensures
        s.tags.contains(f.required_tags[i]),
{
}

/// Where only official servers are kept, a kept server has a location, which starts with the
/// filter's location if there is one.
pub proof fn law_kept_official_servers(f: FilterView, s: ServerView)
    requires
        server_matches(f, s),
        f.only_valve,
    ensures
        s.valve_location is Some,
        f.valve_location matches Some(code) ==> starts_with(s.valve_location->0, code),
{
}

/// A server that meets every restriction of the filter is kept.
pub proof fn law_servers_meeting_the_filter_are_kept(f: FilterView, s: ServerView)
    requires
        s.num_players >= f.min_players,
        forall|i: int| 0 <= i < f.forbidden_tags.len() ==> !s.tags.contains(#[trigger] f.forbidden_tags[i]),
        forall|i: int| 0 <= i < f.required_tags.len() ==> s.tags.contains(#[trigger] f.required_tags[i]),
        f.only_valve ==> s.valve_location is Some,
        f.only_valve && f.valve_location is Some ==> (s.valve_location matches Some(l)
            && starts_with(l, f.valve_location->0)),
    ensures
        server_matches(f, s),
{
}

/// `--has-players` keeps every server with at least one player (that no other option drops),
/// and drops every server without players.
pub proof fn law_has_players_option(
    no_mvm: bool,
    valve: bool,
    location: Option<Seq<char>>,
    name: Option<Seq<char>>,
    s: ServerView,
)
    ensures
        s.num_players >= 1 && (no_mvm ==> !s.tags.contains("mvm"@)) ==> server_matches(
            filter_of_args(true, no_mvm, false, None, name),
            s,
        ),
        s.num_players < 1 ==> !server_matches(filter_of_args(true, no_mvm, valve, location, name), s),
{
    if s.num_players >= 1 && (no_mvm ==> !s.tags.contains("mvm"@)) {
        let f = filter_of_args(true, no_mvm, false, None, name);
        if no_mvm {
            assert(f.forbidden_tags[0] == "mvm"@);
        }
    }
}

/// Without `--has-players`, servers are not dropped for having no players.
pub proof fn law_no_has_players_option(no_mvm: bool, name: Option<Seq<char>>, s: ServerView)
    requires
        s.num_players >= 0,
        no_mvm ==> !s.tags.contains("mvm"@),
    ensures
        server_matches(filter_of_args(false, no_mvm, false, None, name), s),
{
    let f = filter_of_args(false, no_mvm, false, None, name);
    if no_mvm {
        assert(f.forbidden_tags[0] == "mvm"@);
    }
}

/// `--no-mvm` drops every server tagged `mvm`.
pub proof fn law_no_mvm_option(
    has_players: bool,
    valve: bool,
    location: Option<Seq<char>>,
    name: Option<Seq<char>>,
    s: ServerView,
)
    requires
        s.tags.contains("mvm"@),
    ensures
        !server_matches(filter_of_args(has_players, true, valve, location, name), s),
{
    let f = filter_of_args(has_players, true, valve, location, name);
    assert(f.forbidden_tags[0] == "mvm"@);
}

/// `--valve` (or a location) keeps only official servers, and then the name pattern is not
/// used; otherwise the name pattern is sent as given.
pub proof fn law_valve_option(
    has_players: bool,
    no_mvm: bool,
    valve: bool,
    location: Option<Seq<char>>,
    name: Option<Seq<char>>,
    s: ServerView,
)
    ensures
        (valve || location is Some) && server_matches(
            filter_of_args(has_players, no_mvm, valve, location, name),
            s,
        ) ==> s.valve_location is Some,
        (valve || location is Some) ==> filter_of_args(
            has_players,
            no_mvm,
            valve,
            location,
            name,
        ).name_filter_pattern is None,
        !(valve || location is Some) ==> filter_of_args(
            has_players,
            no_mvm,
            valve,
            location,
            name,
        ).name_filter_pattern == name && !filter_of_args(
            has_players,
            no_mvm,
            valve,
            location,
            name,
        ).only_valve,
{
}

} // verus!
