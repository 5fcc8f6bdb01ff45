//! Text helpers on `String`s, each with a specification over `Seq<char>`.
use vstd::prelude::*;

verus! {

/// The views of a sequence of strings.
pub open spec fn views(v: Seq<String>) -> Seq<Seq<char>> {
    v.map_values(|s: String| s@)
}

/// `list` joined with `sep` between consecutive elements (as `[T]::join` does).
pub open spec fn seq_join(list: Seq<Seq<char>>, sep: Seq<char>) -> Seq<char>
    decreases list.len(),
{
    if list.len() == 0 {
        Seq::empty()
    } else if list.len() == 1 {
        list[0]
    } else {
        seq_join(list.drop_last(), sep) + sep + list.last()
    }
}

/// The pieces of `s` between occurrences of `c` (as `str::split` with a `char` pattern does):
/// there is always one more piece than there are occurrences of `c`.
pub open spec fn split_on(s: Seq<char>, c: char) -> Seq<Seq<char>>
    decreases s.len(),
{
    if s.len() == 0 {
        seq![Seq::<char>::empty()]
    } else {
        let rest = split_on(s.drop_last(), c);
        if s.last() == c {
            rest.push(Seq::<char>::empty())
        } else {
            rest.update(rest.len() - 1, rest.last().push(s.last()))
        }
    }
}

/// `prefix` is a prefix of `s`.
pub open spec fn starts_with(s: Seq<char>, prefix: Seq<char>) -> bool {
    prefix.len() <= s.len() && s.subrange(0, prefix.len() as int) == prefix
}

/// Appends `list`, joined with `sep`, to `out`.
pub fn push_joined(out: &mut String, list: &Vec<String>, sep: &str)
    ensures
        final(out)@ == old(out)@ + seq_join(views(list@), sep@),
{
    let ghost start = out@;
    let ghost vs = views(list@);
    let n = list.len();
    let mut i: usize = 0;
    while i < n
        invariant
            n == list@.len(),
            vs == views(list@),
            i <= n,
            out@ == start + seq_join(vs.take(i as int), sep@),
        decreases n - i,
    {
        proof {
            assert(vs.take(i + 1).drop_last() =~= vs.take(i as int));
            assert(vs.take(i + 1).last() == list@[i as int]@);
        }
        if i == 0 {
            assert(vs.take(0) =~= Seq::<Seq<char>>::empty());
            out.append(list[i].as_str());
            assert(out@ =~= start + seq_join(vs.take(1), sep@));
        } else {
            out.append(sep);
            out.append(list[i].as_str());
            assert(out@ =~= start + seq_join(vs.take(i + 1), sep@));
        }
        i = i + 1;
    }
    assert(vs.take(n as int) =~= vs);
}

/// Splits `s` at every occurrence of `c`.
pub fn split_char(s: &str, c: char) -> (pieces: Vec<String>)
    ensures
        views(pieces@) == split_on(s@, c),
{
    let n = s.unicode_len();
    let mut pieces: Vec<String> = Vec::new();
    let mut start: usize = 0;
    let mut i: usize = 0;
    proof {
        assert(s@.take(0) =~= Seq::<char>::empty());
        assert(views(pieces@).push(s@.subrange(0, 0)) =~= seq![Seq::<char>::empty()]);
    }
    while i < n
        invariant
            n == s@.len(),
            start <= i <= n,
            views(pieces@).push(s@.subrange(start as int, i as int)) == split_on(
                s@.take(i as int),
                c,
            ),
        decreases n - i,
    {
        let ch = s.get_char(i);
        proof {
            assert(s@.take(i + 1).drop_last() =~= s@.take(i as int));
            assert(s@.take(i + 1).last() == ch);
        }
        if ch == c {
            let piece = s.substring_char(start, i).to_owned();
            let ghost before = views(pieces@);
            pieces.push(piece);
            assert(views(pieces@) =~= before.push(s@.subrange(start as int, i as int)));
            assert(split_on(s@.take(i + 1), c) == split_on(s@.take(i as int), c).push(
                Seq::<char>::empty(),
            ));
            start = i + 1;
            assert(s@.subrange(start as int, i + 1) =~= Seq::<char>::empty());
        } else {
            assert(s@.subrange(start as int, i + 1) =~= s@.subrange(start as int, i as int).push(
                ch,
            ));
            assert(views(pieces@).push(s@.subrange(start as int, i + 1)) =~= split_on(
                s@.take(i as int),
                c,
            ).update(
                split_on(s@.take(i as int), c).len() - 1,
                split_on(s@.take(i as int), c).last().push(ch),
            ));
        }
        i = i + 1;
    }
    let last = s.substring_char(start, n).to_owned();
    let ghost before = views(pieces@);
    pieces.push(last);
    assert(views(pieces@) =~= before.push(s@.subrange(start as int, n as int)));
    assert(s@.take(n as int) =~= s@);
    pieces
}

/// Whether `s` begins with `prefix`.
pub fn has_prefix(s: &str, prefix: &str) -> (res: bool)
    ensures
        res == starts_with(s@, prefix@),
{
    let n = s.unicode_len();
    let m = prefix.unicode_len();
    if m > n {
        return false;
    }
    let mut i: usize = 0;
    while i < m
        invariant
            n == s@.len(),
            m == prefix@.len(),
            m <= n,
            i <= m,
            s@.subrange(0, i as int) == prefix@.subrange(0, i as int),
        decreases m - i,
    {
        if s.get_char(i) != prefix.get_char(i) {
            assert(s@.subrange(0, m as int)[i as int] != prefix@[i as int]);
            return false;
        }
        assert(s@.subrange(0, i + 1) =~= s@.subrange(0, i as int).push(s@[i as int]));
        assert(prefix@.subrange(0, i + 1) =~= prefix@.subrange(0, i as int).push(prefix@[i as int]));
        i = i + 1;
    }
    assert(prefix@.subrange(0, m as int) =~= prefix@);
    true
}

/// Whether `v` holds a string equal to `x`.
pub fn contains_string(v: &Vec<String>, x: &String) -> (res: bool)
    ensures
        res == views(v@).contains(x@),
{
    let n = v.len();
    let mut i: usize = 0;
    while i < n
        invariant
            n == v@.len(),
            i <= n,
            forall|j: int| 0 <= j < i ==> v@[j]@ != x@,
        decreases n - i,
    {
        if v[i].eq(x) {
            assert(views(v@)[i as int] == x@);
            return true;
        }
        i = i + 1;
    }
    assert forall|j: int| 0 <= j < views(v@).len() implies views(v@)[j] != x@ by {
        assert(views(v@)[j] == v@[j]@);
    }
    false
}

/// Splitting always yields at least one piece.
pub proof fn lemma_split_nonempty(s: Seq<char>, c: char)
    ensures
        split_on(s, c).len() >= 1,
    decreases s.len(),
{
    if s.len() > 0 {
        lemma_split_nonempty(s.drop_last(), c);
    }
}

/// A string without the separator splits into itself alone.
pub proof fn lemma_split_without_separator(s: Seq<char>, c: char)
    requires
        !s.contains(c),
    ensures
        split_on(s, c) == seq![s],
    decreases s.len(),
{
    if s.len() > 0 {
        let t = s.drop_last();
        assert(!t.contains(c)) by {
            if t.contains(c) {
                let k = choose|k: int| 0 <= k < t.len() && t[k] == c;
                assert(s[k] == c);
            }
        }
        lemma_split_without_separator(t, c);
        assert(s.last() != c) by {
            assert(s[s.len() - 1] == s.last());
        }
        assert(t.push(s.last()) =~= s);
        assert(split_on(s, c) =~= seq![s]);
    } else {
        assert(s =~= Seq::<char>::empty());
    }
}

/// Splitting at an occurrence of the separator splits the two sides independently.
pub proof fn lemma_split_at_separator(a: Seq<char>, b: Seq<char>, c: char)
    ensures
        split_on(a + seq![c] + b, c) == split_on(a, c) + split_on(b, c),
    decreases b.len(),
{
    let ac = a + seq![c];
    if b.len() == 0 {
        assert(ac + b =~= ac);
        assert(ac.drop_last() =~= a);
        assert(split_on(b, c) =~= seq![Seq::<char>::empty()]);
        assert(split_on(ac, c) =~= split_on(a, c) + split_on(b, c));
    } else {
        let b1 = b.drop_last();
        let x = b.last();
        lemma_split_at_separator(a, b1, c);
        lemma_split_nonempty(b1, c);
        lemma_split_nonempty(a, c);
        assert((ac + b).drop_last() =~= ac + b1);
        assert((ac + b).last() == x);
        let l = split_on(a, c);
        let r = split_on(b1, c);
        if x == c {
            assert(split_on(ac + b, c) =~= (l + r).push(Seq::<char>::empty()));
            assert(split_on(ac + b, c) =~= l + split_on(b, c));
        } else {
            assert(split_on(ac + b, c) =~= (l + r).update(
                (l + r).len() - 1,
                (l + r).last().push(x),
            ));
            assert(split_on(b, c) == r.update(r.len() - 1, r.last().push(x)));
            assert(split_on(ac + b, c) =~= l + split_on(b, c));
        }
    }
}

/// Joining the pieces of a split with the separator gives back the string that was split.
pub proof fn law_join_of_split(s: Seq<char>, c: char)
    ensures
        seq_join(split_on(s, c), seq![c]) == s,
    decreases s.len(),
{
    if s.len() > 0 {
        let t = s.drop_last();
        let x = s.last();
        let rest = split_on(t, c);
        law_join_of_split(t, c);
        lemma_split_nonempty(t, c);
        assert(t.push(x) =~= s);
        if x == c {
            let p = rest.push(Seq::<char>::empty());
            assert(p.drop_last() =~= rest);
            assert(seq_join(p, seq![c]) =~= s);
        } else {
            let p = rest.update(rest.len() - 1, rest.last().push(x));
            if rest.len() == 1 {
                assert(seq_join(p, seq![c]) =~= s);
            } else {
                assert(p.drop_last() =~= rest.drop_last());
                assert(seq_join(p, seq![c]) =~= seq_join(rest, seq![c]).push(x));
            }
        }
    }
}

/// Splitting a non-empty list of separator-free strings, joined with the separator, gives
/// back the list.
pub proof fn law_split_of_join(list: Seq<Seq<char>>, c: char)
    requires
        list.len() >= 1,
        forall|i: int| 0 <= i < list.len() ==> !(#[trigger] list[i]).contains(c),
    ensures
        split_on(seq_join(list, seq![c]), c) == list,
    decreases list.len(),
{
    if list.len() == 1 {
        lemma_split_without_separator(list[0], c);
        assert(list =~= seq![list[0]]);
    } else {
        let init = list.drop_last();
        assert forall|i: int| 0 <= i < init.len() implies !(#[trigger] init[i]).contains(c) by {
            assert(init[i] == list[i]);
        }
        law_split_of_join(init, c);
        assert(list[list.len() - 1] == list.last());
        lemma_split_without_separator(list.last(), c);
        lemma_split_at_separator(seq_join(init, seq![c]), list.last(), c);
        assert(init + seq![list.last()] =~= list);
    }
}

} // verus!
