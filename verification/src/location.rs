//! The location of an official (Valve-hosted) server, read from the server's name.
//!
//! Official servers are named like `Valve Matchmaking Server (Sydney srcds1012-syd1 #7)`,
//! `Valve Matchmaking Server (srcds2020-dfw2 #225)` or
//! `Valve Matchmaking Server (srcds1009-fsn-hetz #72)`; the location is the part after the
//! dash (`syd1`, `dfw2`, `fsn-hetz`), which starts with the datacentre's airport code.
//!
//! The names follow this grammar (POSIX classes are ASCII):
//! `^Valve Matchmaking Server \((?:[[:alpha:] ]+ )?srcds[[:digit:]]+-([[:lower:]]{3}[[:digit:][:lower:]-]+) #[[:digit:]]+\)$`
//! where the location is the captured group.
use vstd::prelude::*;
use crate::text::starts_with;

verus! {

/// `[[:alpha:]]`
pub open spec fn is_alpha(c: char) -> bool {
    ('a' <= c && c <= 'z') || ('A' <= c && c <= 'Z')
}

/// `[[:digit:]]`
pub open spec fn is_digit(c: char) -> bool {
    '0' <= c && c <= '9'
}

/// `[[:lower:]]`
pub open spec fn is_lower(c: char) -> bool {
    'a' <= c && c <= 'z'
}

/// `[[:alpha:] ]`
pub open spec fn is_word_char(c: char) -> bool {
    is_alpha(c) || c == ' '
}

/// `[[:digit:][:lower:]-]`
pub open spec fn is_code_char(c: char) -> bool {
    is_digit(c) || is_lower(c) || c == '-'
}

/// The fixed start of every official server's name.
pub open spec fn name_prefix() -> Seq<char> {
    "Valve Matchmaking Server ("@
}

/// The fixed text before the server number.
pub open spec fn srcds() -> Seq<char> {
    "srcds"@
}

/// `(?:[[:alpha:] ]+ )?`: nothing, or letters and spaces ending in a space.
pub open spec fn is_datacentre_name(a: Seq<char>) -> bool {
    a.len() == 0 || (a.len() >= 2 && a.last() == ' ' && forall|i: int|
        0 <= i < a.len() ==> is_word_char(#[trigger] a[i]))
}

/// `[[:digit:]]+`
pub open spec fn is_number(d: Seq<char>) -> bool {
    d.len() >= 1 && forall|i: int| 0 <= i < d.len() ==> is_digit(#[trigger] d[i])
}

/// `[[:lower:]]{3}[[:digit:][:lower:]-]+`
pub open spec fn is_location_code(l: Seq<char>) -> bool {
    &&& l.len() >= 4
    &&& forall|i: int| 0 <= i < 3 ==> is_lower(#[trigger] l[i])
    &&& forall|i: int| 0 <= i < l.len() ==> is_code_char(#[trigger] l[i])
}

/// The name made of a datacentre name `a`, a server number `d`, a location `loc` and an
/// instance number `num`.
pub open spec fn official_name(a: Seq<char>, d: Seq<char>, loc: Seq<char>, num: Seq<char>) -> Seq<
    char,
> {
    name_prefix() + a + srcds() + d + seq!['-'] + loc + seq![' ', '#'] + num + seq![')']
}

/// `name` is an official server's name whose location is `loc`.
pub open spec fn has_location(name: Seq<char>, loc: Seq<char>) -> bool {
    exists|a: Seq<char>, d: Seq<char>, num: Seq<char>|
        #![trigger official_name(a, d, loc, num)]
        is_datacentre_name(a) && is_number(d) && is_location_code(loc) && is_number(num) && name
            == official_name(a, d, loc, num)
}

/// The location read from `name`, if it is an official server's name.
pub open spec fn location_of(name: Seq<char>) -> Option<Seq<char>> {
    if exists|loc: Seq<char>| has_location(name, loc) {
        Some(choose|loc: Seq<char>| has_location(name, loc))
    } else {
        None
    }
}

/// Where the parts of an official name stand.
proof fn lemma_official_name_positions(
    a: Seq<char>,
    d: Seq<char>,
    loc: Seq<char>,
    num: Seq<char>,
)
    requires
        is_datacentre_name(a),
        is_number(d),
        is_location_code(loc),
        is_number(num),
    ensures
        ({
            let name = official_name(a, d, loc, num);
            let p = name_prefix().len() as int;
            let i0 = p + a.len() + 5;
            let j0 = i0 + d.len();
            let k0 = j0 + 1 + loc.len();
            &&& name.len() == k0 + 3 + num.len()
            &&& name.subrange(0, p) == name_prefix()
            &&& name.subrange(p, i0 - 5) == a
            &&& name.subrange(i0 - 5, i0) == srcds()
            &&& name.subrange(i0, j0) == d
            &&& name.subrange(j0 + 1, k0) == loc
            &&& name.subrange(k0 + 2, name.len() - 1) == num
            &&& (forall|t: int| p <= t < i0 ==> is_word_char(#[trigger] name[t]))
            &&& is_digit(name[i0])
            &&& (forall|t: int| i0 <= t < j0 ==> is_digit(#[trigger] name[t]))
            &&& name[j0] == '-'
            &&& (forall|t: int| j0 + 1 <= t < k0 ==> is_code_char(#[trigger] name[t]))
            &&& name[k0] == ' '
            &&& name[k0 + 1] == '#'
            &&& (forall|t: int| k0 + 2 <= t < name.len() - 1 ==> is_digit(#[trigger] name[t]))
            &&& name[name.len() - 1] == ')'
        }),
{
    reveal_strlit("Valve Matchmaking Server (");
    reveal_strlit("srcds");
    let name = official_name(a, d, loc, num);
    let p = name_prefix().len() as int;
    let i0 = p + a.len() + 5;
    let j0 = i0 + d.len();
    let k0 = j0 + 1 + loc.len();
    assert(name.subrange(0, p) =~= name_prefix());
    assert(name.subrange(p, i0 - 5) =~= a);
    assert(name.subrange(i0 - 5, i0) =~= srcds());
    assert(name.subrange(i0, j0) =~= d);
    assert(name.subrange(j0 + 1, k0) =~= loc);
    assert(name.subrange(k0 + 2, name.len() - 1) =~= num);
    assert forall|t: int| p <= t < i0 implies is_word_char(#[trigger] name[t]) by {
        if t < i0 - 5 {
            assert(name[t] == a[t - p]);
        } else {
            assert(name[t] == srcds()[t - (i0 - 5)]);
        }
    }
    assert(name[i0] == d[0]);
    assert forall|t: int| i0 <= t < j0 implies is_digit(#[trigger] name[t]) by {
        assert(name[t] == d[t - i0]);
    }
    assert forall|t: int| j0 + 1 <= t < k0 implies is_code_char(#[trigger] name[t]) by {
        assert(name[t] == loc[t - (j0 + 1)]);
    }
    assert forall|t: int| k0 + 2 <= t < name.len() - 1 implies is_digit(#[trigger] name[t]) by {
        assert(name[t] == num[t - (k0 + 2)]);
    }
}

/// A name holds at most one location: the grammar leaves no choice of where its parts start
/// and end.
pub proof fn law_location_is_unique(name: Seq<char>, l1: Seq<char>, l2: Seq<char>)
    requires
        has_location(name, l1),
        has_location(name, l2),
    ensures
        l1 == l2,
{
    let (a1, d1, n1) = choose|a: Seq<char>, d: Seq<char>, num: Seq<char>|
        #![trigger official_name(a, d, l1, num)]
        is_datacentre_name(a) && is_number(d) && is_location_code(l1) && is_number(num) && name
            == official_name(a, d, l1, num);
    let (a2, d2, n2) = choose|a: Seq<char>, d: Seq<char>, num: Seq<char>|
        #![trigger official_name(a, d, l2, num)]
        is_datacentre_name(a) && is_number(d) && is_location_code(l2) && is_number(num) && name
            == official_name(a, d, l2, num);
    lemma_official_name_positions(a1, d1, l1, n1);
    lemma_official_name_positions(a2, d2, l2, n2);
    let p = name_prefix().len() as int;
    let i1 = p + a1.len() + 5;
    let i2 = p + a2.len() + 5;
    // the first digit after the prefix starts the server number
    if i1 < i2 {
        assert(is_word_char(name[i1]));
    } else if i2 < i1 {
        assert(is_word_char(name[i2]));
    }
    assert(i1 == i2);
    let j1 = i1 + d1.len();
    let j2 = i2 + d2.len();
    // the server number ends at the dash
    if j1 < j2 {
        assert(is_digit(name[j1]));
    } else if j2 < j1 {
        assert(is_digit(name[j2]));
    }
    assert(j1 == j2);
    let k1 = j1 + 1 + l1.len();
    let k2 = j2 + 1 + l2.len();
    // the location ends at the space
    if k1 < k2 {
        assert(is_code_char(name[k1]));
    } else if k2 < k1 {
        assert(is_code_char(name[k2]));
    }
    assert(k1 == k2);
}

/// The parts of an official name, by position: after the prefix, letters and spaces up to
/// `srcds` ending at `i0`; digits from `i0` up to the dash at `j0`; the location `loc` from
/// `j0 + 1` up to the space at `k0`; then `#`, digits, and the closing parenthesis.
#[verifier::opaque]
pub open spec fn located_at(name: Seq<char>, loc: Seq<char>, i0: int, j0: int, k0: int) -> bool {
    let p = name_prefix().len() as int;
    &&& p + 5 <= i0 < j0
    &&& k0 == j0 + 1 + loc.len()
    &&& k0 + 3 < name.len()
    &&& name.subrange(0, p) == name_prefix()
    &&& is_datacentre_name(name.subrange(p, i0 - 5))
    &&& name.subrange(i0 - 5, i0) == srcds()
    &&& (forall|t: int| p <= t < i0 ==> is_word_char(#[trigger] name[t]))
    &&& (forall|t: int| i0 <= t < j0 ==> is_digit(#[trigger] name[t]))
    &&& name[j0] == '-'
    &&& name.subrange(j0 + 1, k0) == loc
    &&& is_location_code(loc)
    &&& (forall|t: int| j0 + 1 <= t < k0 ==> is_code_char(#[trigger] name[t]))
    &&& name[k0] == ' '
    &&& name[k0 + 1] == '#'
    &&& (forall|t: int| k0 + 2 <= t < name.len() - 1 ==> is_digit(#[trigger] name[t]))
    &&& name[name.len() - 1] == ')'
}

/// An official name has its parts at definite positions.
proof fn lemma_location_positions(name: Seq<char>, loc: Seq<char>) -> (r: (int, int, int))
    requires
        has_location(name, loc),
    ensures
        located_at(name, loc, r.0, r.1, r.2),
{
    let (a, d, num) = choose|a: Seq<char>, d: Seq<char>, num: Seq<char>|
        #![trigger official_name(a, d, loc, num)]
        is_datacentre_name(a) && is_number(d) && is_location_code(loc) && is_number(num) && name
            == official_name(a, d, loc, num);
    lemma_official_name_positions(a, d, loc, num);
    let p = name_prefix().len() as int;
    let i0 = p + a.len() + 5;
    let j0 = i0 + d.len();
    let k0 = j0 + 1 + loc.len();
    reveal(located_at);
    (i0, j0, k0)
}

/// Parts at the positions that `located_at` describes make an official name.
proof fn lemma_located_at_has_location(name: Seq<char>, loc: Seq<char>, i0: int, j0: int, k0: int)
    requires
        located_at(name, loc, i0, j0, k0),
    ensures
        has_location(name, loc),
{
    reveal(located_at);
    let p = name_prefix().len() as int;
    let a = name.subrange(p, i0 - 5);
    let d = name.subrange(i0, j0);
    let num = name.subrange(k0 + 2, name.len() - 1);
    assert forall|t: int| 0 <= t < d.len() implies is_digit(#[trigger] d[t]) by {
        assert(d[t] == name[i0 + t]);
    }
    assert forall|t: int| 0 <= t < num.len() implies is_digit(#[trigger] num[t]) by {
        assert(num[t] == name[k0 + 2 + t]);
    }
    let whole = official_name(a, d, loc, num);
    assert(name.subrange(0, p) + a =~= name.subrange(0, i0 - 5));
    assert(name.subrange(0, i0 - 5) + srcds() =~= name.subrange(0, i0));
    assert(name.subrange(0, i0) + d =~= name.subrange(0, j0));
    assert(name.subrange(0, j0) + seq!['-'] =~= name.subrange(0, j0 + 1));
    assert(name.subrange(0, j0 + 1) + loc =~= name.subrange(0, k0));
    assert(name.subrange(0, k0) + seq![' ', '#'] =~= name.subrange(0, k0 + 2));
    assert(name.subrange(0, k0 + 2) + num =~= name.subrange(0, name.len() - 1));
    assert(name.subrange(0, name.len() - 1) + seq![')'] =~= name);
    assert(whole == name);
}

fn char_is_word(c: char) -> (b: bool)
    ensures
        b == is_word_char(c),
{
    ('a' <= c && c <= 'z') || ('A' <= c && c <= 'Z') || c == ' '
}

fn char_is_digit(c: char) -> (b: bool)
    ensures
        b == is_digit(c),
{
    '0' <= c && c <= '9'
}

fn char_is_lower(c: char) -> (b: bool)
    ensures
        b == is_lower(c),
{
    'a' <= c && c <= 'z'
}

fn char_is_code(c: char) -> (b: bool)
    ensures
        b == is_code_char(c),
{
    char_is_digit(c) || char_is_lower(c) || c == '-'
}

/// The end of the run of characters of one class that starts at `from`.
#[verifier::opaque]
pub open spec fn is_run_end(name: Seq<char>, class: spec_fn(char) -> bool, from: int, r: int) -> bool {
    &&& from <= r <= name.len()
    &&& forall|t: int| from <= t < r ==> class(#[trigger] name[t])
    &&& r < name.len() ==> !class(name[r])
}

/// A run has only one end.
proof fn lemma_run_end_unique(name: Seq<char>, class: spec_fn(char) -> bool, from: int, r1: int, r2: int)
    requires
        is_run_end(name, class, from, r1),
        is_run_end(name, class, from, r2),
    ensures
        r1 == r2,
{
    reveal(is_run_end);
    if r1 < r2 {
        assert(class(name[r1]));
    } else if r2 < r1 {
        assert(class(name[r2]));
    }
}

/// Where the run of letters and spaces starting at `from` ends.
fn scan_words(s: &str, n: usize, from: usize) -> (r: usize)
    requires
        n == s@.len(),
        from <= n,
    ensures
        from <= r <= n,
        is_run_end(s@, |c: char| is_word_char(c), from as int, r as int),
{
    let mut i = from;
    while i < n && char_is_word(s.get_char(i))
        invariant
            n == s@.len(),
            from <= i <= n,
            forall|t: int| from <= t < i ==> is_word_char(#[trigger] s@[t]),
        decreases n - i,
    {
        i = i + 1;
    }
    proof {
        reveal(is_run_end);
    }
    i
}

/// Where the run of digits starting at `from` ends.
fn scan_digits(s: &str, n: usize, from: usize) -> (r: usize)
    requires
        n == s@.len(),
        from <= n,
    ensures
        from <= r <= n,
        is_run_end(s@, |c: char| is_digit(c), from as int, r as int),
{
    let mut i = from;
    while i < n && char_is_digit(s.get_char(i))
        invariant
            n == s@.len(),
            from <= i <= n,
            forall|t: int| from <= t < i ==> is_digit(#[trigger] s@[t]),
        decreases n - i,
    {
        i = i + 1;
    }
    proof {
        reveal(is_run_end);
    }
    i
}

/// Where the run of location characters starting at `from` ends.
fn scan_code(s: &str, n: usize, from: usize) -> (r: usize)
    requires
        n == s@.len(),
        from <= n,
    ensures
        from <= r <= n,
        is_run_end(s@, |c: char| is_code_char(c), from as int, r as int),
{
    let mut i = from;
    while i < n && char_is_code(s.get_char(i))
        invariant
            n == s@.len(),
            from <= i <= n,
            forall|t: int| from <= t < i ==> is_code_char(#[trigger] s@[t]),
        decreases n - i,
    {
        i = i + 1;
    }
    proof {
        reveal(is_run_end);
    }
    i
}

/// The checks that `ValveServerLocation::parse` makes of a name, with the prefix ending at
/// `p`, the server number starting at `i`, the dash at `j` and the space after the location
/// at `k`.
pub open spec fn passes_checks(name: Seq<char>, p: int, i: int, j: int, k: int) -> bool {
    &&& p == name_prefix().len()
    &&& name.subrange(0, p) == name_prefix()
    &&& is_run_end(name, |c: char| is_word_char(c), p, i)
    &&& i < name.len()
    &&& is_digit(name[i])
    &&& i - p >= 5
    &&& name[i - 5] == 's' && name[i - 4] == 'r' && name[i - 3] == 'c' && name[i - 2] == 'd'
        && name[i - 1] == 's'
    &&& (i - 5 - p == 0 || (i - 5 - p >= 2 && name[i - 6] == ' '))
    &&& is_run_end(name, |c: char| is_digit(c), i, j)
    &&& j < name.len()
    &&& name[j] == '-'
    &&& is_run_end(name, |c: char| is_code_char(c), j + 1, k)
    &&& k - (j + 1) >= 4
    &&& is_lower(name[j + 1]) && is_lower(name[j + 2]) && is_lower(name[j + 3])
    &&& k + 1 < name.len()
    &&& name[k] == ' '
    &&& name[k + 1] == '#'
    &&& is_run_end(name, |c: char| is_digit(c), k + 2, name.len() - 1)
    &&& name.len() - 1 > k + 2
    &&& name[name.len() - 1] == ')'
}

/// An official name passes the checks at the positions of its parts.
proof fn lemma_located_at_passes_checks(name: Seq<char>, loc: Seq<char>, i: int, j: int, k: int)
    requires
        located_at(name, loc, i, j, k),
    ensures
        passes_checks(name, name_prefix().len() as int, i, j, k),
        name.subrange(j + 1, k) == loc,
{
    reveal(located_at);
    reveal(is_run_end);
    reveal_strlit("srcds");
    let p = name_prefix().len() as int;
    assert(name.subrange(i - 5, i)[0] == name[i - 5]);
    assert(name.subrange(i - 5, i)[1] == name[i - 4]);
    assert(name.subrange(i - 5, i)[2] == name[i - 3]);
    assert(name.subrange(i - 5, i)[3] == name[i - 2]);
    assert(name.subrange(i - 5, i)[4] == name[i - 1]);
    let a = name.subrange(p, i - 5);
    if a.len() > 0 {
        assert(a.last() == name[i - 6]);
    }
    assert(loc[0] == name[j + 1]);
    assert(loc[1] == name[j + 2]);
    assert(loc[2] == name[j + 3]);
    assert(is_digit(name[i])) by {
        assert(i <= i < j);
    }
}

/// A name that passes the checks of `ValveServerLocation::parse` holds the location that
/// it reads, and no other.
proof fn lemma_checked_name_has_location(name: Seq<char>, p: int, i: int, j: int, k: int)
    requires
        passes_checks(name, p, i, j, k),
    ensures
        has_location(name, name.subrange(j + 1, k)),
        location_of(name) == Some(name.subrange(j + 1, k)),
{
    reveal(is_run_end);
    reveal_strlit("srcds");
    let loc = name.subrange(j + 1, k);
    assert(name.subrange(i - 5, i) =~= srcds());
    let a = name.subrange(p, i - 5);
    assert forall|t: int| 0 <= t < a.len() implies is_word_char(#[trigger] a[t]) by {
        assert(a[t] == name[p + t]);
    }
    if a.len() > 0 {
        assert(a.last() == name[i - 6]);
    }
    assert forall|t: int| 0 <= t < loc.len() implies is_code_char(#[trigger] loc[t]) by {
        assert(loc[t] == name[j + 1 + t]);
    }
    assert(loc[0] == name[j + 1]);
    assert(loc[1] == name[j + 2]);
    assert(loc[2] == name[j + 3]);
    assert(located_at(name, loc, i, j, k)) by {
        reveal(located_at);
    }
    lemma_located_at_has_location(name, loc, i, j, k);
    let chosen = choose|l: Seq<char>| has_location(name, l);
    law_location_is_unique(name, chosen, loc);
}

/// Information about an official (Valve-hosted) server, read from its name: the server's
/// location, which starts with the datacentre's airport code.
#[derive(Debug, PartialEq, Eq)]
pub struct ValveServerLocation(pub String);

impl View for ValveServerLocation {
    type V = Seq<char>;

    open spec fn view(&self) -> Seq<char> {
        self.0@
    }
}

impl ValveServerLocation {
    /// Reads the location from a server's name; `None` where the name is not an official
    /// server's name.
    pub fn parse(s: &str) -> (res: Option<ValveServerLocation>)
        ensures
            match res {
                Some(l) => has_location(s@, l@) && location_of(s@) == Some(l@),
                None => location_of(s@) is None,
            },
    {
        let prefix = "Valve Matchmaking Server (";
        proof {
            reveal_strlit("Valve Matchmaking Server (");
        }
        let p = prefix.unicode_len();
        // the positions of the parts, where the name is an official server's name
        let ghost mut pos: Option<(int, int, int)> = None;
        proof {
            if exists|l: Seq<char>| has_location(s@, l) {
                let l = choose|l: Seq<char>| has_location(s@, l);
                let r = lemma_location_positions(s@, l);
                lemma_located_at_passes_checks(s@, l, r.0, r.1, r.2);
                pos = Some(r);
            }
        }
        assert(pos is None ==> location_of(s@) is None);
        assert(pos matches Some(q) ==> passes_checks(s@, p as int, q.0, q.1, q.2));
        let n = s.unicode_len();
        if !crate::text::has_prefix(s, prefix) {
            return None;
        }
        // letters and spaces, up to the first digit
        let i = scan_words(s, n, p);
        proof {
            if let Some(q) = pos {
                lemma_run_end_unique(s@, |c: char| is_word_char(c), p as int, i as int, q.0);
            }
        }
        if i == n || !char_is_digit(s.get_char(i)) || i - p < 5 {
            return None;
        }
        if !(s.get_char(i - 5) == 's' && s.get_char(i - 4) == 'r' && s.get_char(i - 3) == 'c'
            && s.get_char(i - 2) == 'd' && s.get_char(i - 1) == 's') {
            return None;
        }
        let datacentre_len = i - 5 - p;
        if datacentre_len != 0 && (datacentre_len < 2 || s.get_char(i - 6) != ' ') {
            return None;
        }
        // the server number
        let j = scan_digits(s, n, i);
        proof {
            if let Some(q) = pos {
                lemma_run_end_unique(s@, |c: char| is_digit(c), i as int, j as int, q.1);
            }
        }
        if j == n || s.get_char(j) != '-' {
            return None;
        }
        // the location
        let k = scan_code(s, n, j + 1);
        proof {
            if let Some(q) = pos {
                lemma_run_end_unique(s@, |c: char| is_code_char(c), j + 1, k as int, q.2);
            }
        }
        if k - (j + 1) < 4 || !char_is_lower(s.get_char(j + 1)) || !char_is_lower(
            s.get_char(j + 2),
        ) || !char_is_lower(s.get_char(j + 3)) {
            return None;
        }
        // the instance number
        if k >= n || k + 1 >= n || s.get_char(k) != ' ' || s.get_char(k + 1) != '#' {
            return None;
        }
        let m = scan_digits(s, n, k + 2);
        proof {
            if let Some(q) = pos {
                lemma_run_end_unique(s@, |c: char| is_digit(c), k + 2, m as int, n - 1);
            }
        }
        if m == k + 2 || n - m != 1 || s.get_char(m) != ')' {
            return None;
        }
        let code = s.substring_char(j + 1, k).to_owned();
        proof {
            lemma_checked_name_has_location(s@, p as int, i as int, j as int, k as int);
        }
        Some(ValveServerLocation(code))
    }
}

/// The location is read back from any official name: whatever the datacentre name and the
/// numbers, the name built around a location gives that location.
pub proof fn law_location_of_official_name(a: Seq<char>, d: Seq<char>, loc: Seq<char>, num: Seq<char>)
    requires
        is_datacentre_name(a),
        is_number(d),
        is_location_code(loc),
        is_number(num),
    ensures
        location_of(official_name(a, d, loc, num)) == Some(loc),
{
    let name = official_name(a, d, loc, num);
    assert(has_location(name, loc));
    let chosen = choose|l: Seq<char>| has_location(name, l);
    law_location_is_unique(name, chosen, loc);
}

/// A location read from a name is a part of it: it starts after a dash and ends before
/// ` #`, has at least four characters of which the first three are lowercase ASCII letters, and
/// the name starts with `Valve Matchmaking Server (` and ends with `)`.
pub proof fn law_location_is_part_of_the_name(name: Seq<char>, loc: Seq<char>)
    requires
        has_location(name, loc),
    ensures
        starts_with(name, "Valve Matchmaking Server ("@),
        name.last() == ')',
        loc.len() >= 4,
        forall|i: int| 0 <= i < 3 ==> 'a' <= #[trigger] loc[i] <= 'z',
        exists|k: int|
            1 <= k && k + loc.len() + 1 < name.len() && name[k - 1] == '-' && #[trigger] name.subrange(
                k,
                k + loc.len(),
            ) == loc && name[k + loc.len()] == ' ' && name[k + loc.len() + 1] == '#',
{
    let (i0, j0, k0) = lemma_location_positions(name, loc);
    reveal(located_at);
    assert(name.subrange(j0 + 1, k0) == loc);
}

} // verus!
