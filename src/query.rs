//! Query parameters: each key maps to one value, or to all of its values in
//! order once it has occurred twice.
use vstd::prelude::*;
use vstd::string::*;

use crate::text::{find_char, first_of, is_first_of, lemma_first_of_at, same_text};

verus! {

/// The value of one query parameter.
#[derive(Debug)]
pub enum Value<'a> {
    /// The key occurred once.
    Single(&'a str),
    /// The key occurred two or more times; the values in order of occurrence.
    Multi(Vec<&'a str>),
}

impl<'a> View for Value<'a> {
    type V = Seq<Seq<char>>;

    /// Every value given for the key, in order of occurrence.
    open spec fn view(&self) -> Seq<Seq<char>> {
        match self {
            Value::Single(s) => seq![s@],
            Value::Multi(v) => v@.map_values(|x: &str| x@),
        }
    }
}

/// The pieces of `s` between occurrences of `c`; a string without `c` is one
/// piece.
pub open spec fn split_spec(s: Seq<char>, c: char) -> Seq<Seq<char>>
    decreases s.len(),
{
    match first_of(s, c) {
        Some(i) => if 0 <= i < s.len() {
            seq![s.take(i)] + split_spec(s.skip(i + 1), c)
        } else {
            seq![s]
        },
        None => seq![s],
    }
}

/// A piece split at its first `=` into key and value; the value is empty
/// where the piece holds no `=`.
pub open spec fn pair_spec(p: Seq<char>) -> (Seq<char>, Seq<char>) {
    match first_of(p, '=') {
        Some(i) => (p.take(i), p.skip(i + 1)),
        None => (p, Seq::empty()),
    }
}

/// The key/value pairs of a raw query fragment, in order.
pub open spec fn pairs_spec(s: Seq<char>) -> Seq<(Seq<char>, Seq<char>)> {
    split_spec(s, '&').map_values(|p: Seq<char>| pair_spec(p))
}

/// The values given for key `k` among `ps`, in order.
pub open spec fn values_for(ps: Seq<(Seq<char>, Seq<char>)>, k: Seq<char>) -> Seq<Seq<char>>
    decreases ps.len(),
{
    if ps.len() == 0 {
        Seq::empty()
    } else {
        let prev = values_for(ps.drop_last(), k);
        if ps.last().0 == k {
            prev.push(ps.last().1)
        } else {
            prev
        }
    }
}

/// Each key of the fragment `s`, mapped to all of its values in order.
pub open spec fn query_model(s: Seq<char>) -> Map<Seq<char>, Seq<Seq<char>>> {
    Map::new(
        |k: Seq<char>| values_for(pairs_spec(s), k).len() > 0,
        |k: Seq<char>| values_for(pairs_spec(s), k),
    )
}

/// The parameters of a query fragment.
#[derive(Debug)]
pub struct QueryString<'a> {
    data: Vec<(&'a str, Value<'a>)>,
}

/// Entries with distinct keys, each `Multi` holding at least two values.
pub open spec fn entries_wf<'a>(data: Seq<(&'a str, Value<'a>)>) -> bool {
    &&& forall|i: int, j: int|
        0 <= i < data.len() && 0 <= j < data.len() && i != j ==> #[trigger] data[i].0@
            != #[trigger] data[j].0@
    &&& forall|i: int|
        0 <= i < data.len() ==> (#[trigger] data[i].1 is Multi ==> data[i].1@.len() >= 2)
}

/// The key held by some entry.
pub open spec fn has_key<'a>(data: Seq<(&'a str, Value<'a>)>, k: Seq<char>) -> bool {
    exists|i: int| 0 <= i < data.len() && #[trigger] data[i].0@ == k
}

/// The entries as a map from key to values.
pub open spec fn entries_view<'a>(data: Seq<(&'a str, Value<'a>)>) -> Map<
    Seq<char>,
    Seq<Seq<char>>,
> {
    Map::new(
        |k: Seq<char>| has_key(data, k),
        |k: Seq<char>| data[choose|i: int| 0 <= i < data.len() && #[trigger] data[i].0@ == k].1@,
    )
}

impl<'a> View for QueryString<'a> {
    type V = Map<Seq<char>, Seq<Seq<char>>>;

    closed spec fn view(&self) -> Map<Seq<char>, Seq<Seq<char>>> {
        entries_view(self.data@)
    }
}

proof fn lemma_entry_view<'a>(data: Seq<(&'a str, Value<'a>)>, i: int)
    requires
        entries_wf(data),
        0 <= i < data.len(),
    ensures
        entries_view(data).contains_key(data[i].0@),
        entries_view(data)[data[i].0@] == data[i].1@,
{
    let k = data[i].0@;
    assert(has_key(data, k));
    let j = choose|j: int| 0 <= j < data.len() && #[trigger] data[j].0@ == k;
    assert(j == i);
}

/// Position of the entry with key `key`.
fn find_key<'a>(data: &Vec<(&'a str, Value<'a>)>, key: &str) -> (r: Option<usize>)
    ensures
        match r {
            Some(i) => i < data@.len() && data@[i as int].0@ == key@,
            None => !has_key(data@, key@),
        },
{
    let mut i: usize = 0;
    while i < data.len()
        invariant
            i <= data@.len(),
            forall|j: int| 0 <= j < i ==> #[trigger] data@[j].0@ != key@,
        decreases data@.len() - i,
    {
        if same_text(data[i].0, key) {
            return Some(i);
        }
        i = i + 1;
    }
    None
}

/// The pieces of `s` between occurrences of `c`.
fn split_pieces<'a>(s: &'a str, c: char) -> (r: Vec<&'a str>)
    ensures
        r@.map_values(|x: &str| x@) == split_spec(s@, c),
{
    let mut out: Vec<&'a str> = Vec::new();
    let mut rest: &'a str = s;
    loop
        invariant
            out@.map_values(|x: &str| x@) + split_spec(rest@, c) == split_spec(s@, c),
        decreases rest@.len(),
    {
        match find_char(rest, c) {
            Some(i) => {
                let n = rest.unicode_len();
                let head = rest.substring_char(0, i);
                let tail = rest.substring_char(i + 1, n);
                proof {
                    let ghost old_out = out@;
                    assert(split_spec(rest@, c) == seq![rest@.take(i as int)] + split_spec(
                        rest@.skip(i + 1),
                        c,
                    ));
                    assert(head@ == rest@.take(i as int));
                    assert(tail@ == rest@.skip(i + 1));
                    assert(old_out.push(head).map_values(|x: &str| x@) =~= old_out.map_values(
                        |x: &str| x@,
                    ).push(head@));
                    assert(old_out.map_values(|x: &str| x@).push(head@) + split_spec(tail@, c)
                        =~= old_out.map_values(|x: &str| x@) + (seq![head@] + split_spec(
                        tail@,
                        c,
                    )));
                }
                out.push(head);
                rest = tail;
            },
            None => {
                proof {
                    let ghost old_out = out@;
                    assert(split_spec(rest@, c) == seq![rest@]);
                    assert(old_out.push(rest).map_values(|x: &str| x@) =~= old_out.map_values(
                        |x: &str| x@,
                    ) + seq![rest@]);
                }
                out.push(rest);
                return out;
            },
        }
    }
}

/// A piece split at its first `=` into key and value.
fn split_pair<'a>(p: &'a str) -> (r: (&'a str, &'a str))
    ensures
        (r.0@, r.1@) == pair_spec(p@),
{
    let n = p.unicode_len();
    match find_char(p, '=') {
        Some(i) => (p.substring_char(0, i), p.substring_char(i + 1, n)),
        None => {
            let empty = p.substring_char(n, n);
            assert(empty@ =~= Seq::<char>::empty());
            (p, empty)
        },
    }
}

impl<'a> QueryString<'a> {
    /// Every entry has distinct keys, and a `Multi` holds two or more values.
    #[verifier::type_invariant]
    closed spec fn inv(&self) -> bool {
        entries_wf(self.data@)
    }

    /// The value of `key`, if it occurred.
    pub fn get(&self, key: &str) -> (r: Option<&Value<'a>>)
        ensures
            r is Some <==> self@.contains_key(key@),
            r matches Some(v) ==> v@ == self@[key@],
            r matches Some(v) ==> (v is Single <==> v@.len() == 1),
    {
        proof {
            use_type_invariant(self);
        }
        match find_key(&self.data, key) {
            Some(i) => {
                proof {
                    lemma_entry_view(self.data@, i as int);
                }
                Some(&self.data[i].1)
            },
            None => None,
        }
    }

    /// Builds the parameters of a raw fragment such as `a=1&b=2&b=3&c`.
    pub fn from_raw(s: &'a str) -> (r: QueryString<'a>)
        ensures
            r@ == query_model(s@),
    {
        let pieces = split_pieces(s, '&');
        let ghost ps = pairs_spec(s@);
        let mut data: Vec<(&'a str, Value<'a>)> = Vec::new();
        let mut t: usize = 0;
        assert(ps.len() == pieces@.len());
        while t < pieces.len()
            invariant
                ps == pairs_spec(s@),
                ps.len() == pieces@.len(),
                pieces@.map_values(|x: &str| x@) == split_spec(s@, '&'),
                t <= pieces@.len(),
                entries_wf(data@),
                forall|i: int|
                    0 <= i < data@.len() ==> #[trigger] data@[i].1@ == values_for(
                        ps.take(t as int),
                        data@[i].0@,
                    ),
                forall|k: Seq<char>|
                    #[trigger] values_for(ps.take(t as int), k).len() > 0 ==> has_key(data@, k),
            decreases pieces@.len() - t,
        {
            let (key, value) = split_pair(pieces[t]);
            let ghost before = data@;
            proof {
                assert(pieces@.map_values(|x: &str| x@)[t as int] == pieces@[t as int]@);
                assert(ps[t as int] == (key@, value@));
                assert(ps.take(t + 1).drop_last() =~= ps.take(t as int));
                assert(ps.take(t + 1).last() == ps[t as int]);
            }
            match find_key(&data, key) {
                Some(idx) => {
                    let (k0, v0) = data.remove(idx);
                    let merged = match v0 {
                        Value::Single(first) => {
                            let mut v: Vec<&'a str> = Vec::new();
                            v.push(first);
                            v.push(value);
                            proof {
                                assert(v@.map_values(|x: &str| x@) =~= seq![first@, value@]);
                            }
                            Value::Multi(v)
                        },
                        Value::Multi(mut v) => {
                            let ghost old_v = v@;
                            v.push(value);
                            proof {
                                assert(v@.map_values(|x: &str| x@) =~= old_v.map_values(
                                    |x: &str| x@,
                                ).push(value@));
                            }
                            Value::Multi(v)
                        },
                    };
                    data.insert(idx, (k0, merged));
                    proof {
                        assert(data@ =~= before.update(idx as int, (k0, merged)));
                        assert(merged@ == before[idx as int].1@.push(value@));
                        assert forall|k: Seq<char>|
                            #[trigger] values_for(ps.take(t + 1), k).len() > 0 implies has_key(
                                data@,
                                k,
                            ) by {
                            if k == key@ {
                                assert(data@[idx as int].0@ == k);
                            } else {
                                assert(values_for(ps.take(t as int), k).len() > 0);
                                let j = choose|j: int|
                                    0 <= j < before.len() && #[trigger] before[j].0@ == k;
                                assert(data@[j].0@ == k);
                            }
                        }
                    }
                },
                None => {
                    data.push((key, Value::Single(value)));
                    proof {
                        assert(values_for(ps.take(t as int), key@).len() == 0);
                        assert forall|k: Seq<char>|
                            #[trigger] values_for(ps.take(t + 1), k).len() > 0 implies has_key(
                                data@,
                                k,
                            ) by {
                            if k == key@ {
                                assert(data@[before.len() as int].0@ == k);
                            } else {
                                assert(values_for(ps.take(t as int), k).len() > 0);
                                let j = choose|j: int|
                                    0 <= j < before.len() && #[trigger] before[j].0@ == k;
                                assert(data@[j].0@ == k);
                            }
                        }
                    }
                },
            }
            t = t + 1;
        }
        proof {
            assert(ps.take(t as int) =~= ps);
            assert forall|k: Seq<char>| #[trigger]
                entries_view(data@).contains_key(k) <==> query_model(s@).contains_key(k) by {
                if has_key(data@, k) {
                    let j = choose|j: int| 0 <= j < data@.len() && #[trigger] data@[j].0@ == k;
                    assert(data@[j].1@ == values_for(ps, k));
                }
            }
            assert forall|k: Seq<char>| #[trigger]
                entries_view(data@).contains_key(k) implies entries_view(data@)[k] == query_model(
                s@,
            )[k] by {
                let j = choose|j: int| 0 <= j < data@.len() && #[trigger] data@[j].0@ == k;
                lemma_entry_view(data@, j);
            }
            assert(entries_view(data@) =~= query_model(s@));
        }
        QueryString { data }
    }
}

/// The piece `k=v` of a fragment.
pub open spec fn assignment(k: Seq<char>, v: Seq<char>) -> Seq<char> {
    k + seq!['='] + v
}

/// The fragment `k=v1&k=v2&...&k=vN`.
pub open spec fn repeated_fragment(k: Seq<char>, vs: Seq<Seq<char>>) -> Seq<char>
    decreases vs.len(),
{
    if vs.len() == 0 {
        Seq::empty()
    } else if vs.len() == 1 {
        assignment(k, vs[0])
    } else {
        assignment(k, vs[0]) + seq!['&'] + repeated_fragment(k, vs.drop_first())
    }
}

proof fn lemma_no_occurrence(s: Seq<char>, c: char)
    requires
        !s.contains(c),
    ensures
        first_of(s, c) is None,
{
    if exists|i: int| is_first_of(s, c, i) {
        let i = choose|i: int| is_first_of(s, c, i);
        assert(s[i] == c);
    }
}

proof fn lemma_split_repeated(k: Seq<char>, vs: Seq<Seq<char>>)
    requires
        vs.len() >= 1,
        !k.contains('&'),
        !k.contains('='),
        forall|i: int| 0 <= i < vs.len() ==> !(#[trigger] vs[i]).contains('&'),
    ensures
        split_spec(repeated_fragment(k, vs), '&') == vs.map_values(|v: Seq<char>| assignment(k, v)),
    decreases vs.len(),
{
    let p = assignment(k, vs[0]);
    assert(!p.contains('&')) by {
        if p.contains('&') {
            let i = choose|i: int| 0 <= i < p.len() && p[i] == '&';
            if i < k.len() {
                assert(k[i] == '&');
            } else if i > k.len() {
                assert(vs[0][i - k.len() - 1] == '&');
            }
        }
    }
    if vs.len() == 1 {
        lemma_no_occurrence(p, '&');
        assert(vs.map_values(|v: Seq<char>| assignment(k, v)) =~= seq![p]);
    } else {
        let rest = vs.drop_first();
        let s = repeated_fragment(k, vs);
        let tail = repeated_fragment(k, rest);
        assert(s == p + seq!['&'] + tail);
        assert forall|j: int| 0 <= j < p.len() implies #[trigger] s[j] != '&' by {
            assert(s[j] == p[j]);
        }
        assert(is_first_of(s, '&', p.len() as int));
        lemma_first_of_at(s, '&', p.len() as int);
        assert(s.take(p.len() as int) =~= p);
        assert(s.skip(p.len() as int + 1) =~= tail);
        assert forall|i: int| 0 <= i < rest.len() implies !(#[trigger] rest[i]).contains('&') by {
            assert(rest[i] == vs[i + 1]);
        }
        lemma_split_repeated(k, rest);
        assert(vs.map_values(|v: Seq<char>| assignment(k, v)) =~= seq![p] + rest.map_values(
            |v: Seq<char>| assignment(k, v),
        ));
    }
}

proof fn lemma_pair_of_assignment(k: Seq<char>, v: Seq<char>)
    requires
        !k.contains('='),
    ensures
        pair_spec(assignment(k, v)) == (k, v),
{
    let a = assignment(k, v);
    assert forall|j: int| 0 <= j < k.len() implies #[trigger] a[j] != '=' by {
        assert(a[j] == k[j]);
    }
    assert(is_first_of(a, '=', k.len() as int));
    lemma_first_of_at(a, '=', k.len() as int);
    assert(a.take(k.len() as int) =~= k);
    assert(a.skip(k.len() as int + 1) =~= v);
}

proof fn lemma_values_of_one_key(k: Seq<char>, vs: Seq<Seq<char>>)
    ensures
        values_for(vs.map_values(|v: Seq<char>| (k, v)), k) == vs,
    decreases vs.len(),
{
    if vs.len() > 0 {
        let ps = vs.map_values(|v: Seq<char>| (k, v));
        assert(ps.drop_last() =~= vs.drop_last().map_values(|v: Seq<char>| (k, v)));
        lemma_values_of_one_key(k, vs.drop_last());
        assert(vs.drop_last().push(vs.last()) =~= vs);
    }
}

/// A key given `N` times, `k=v1&...&k=vN`, maps to exactly its `N` values in
/// order of occurrence. With `get`, one occurrence gives a `Single` and two
/// or more give a `Multi`.
pub proof fn lemma_repeated_key(k: Seq<char>, vs: Seq<Seq<char>>)
    requires
        vs.len() >= 1,
        !k.contains('&'),
        !k.contains('='),
        forall|i: int| 0 <= i < vs.len() ==> !(#[trigger] vs[i]).contains('&'),
    ensures
        query_model(repeated_fragment(k, vs)).contains_key(k),
        query_model(repeated_fragment(k, vs))[k] == vs,
{
    let s = repeated_fragment(k, vs);
    lemma_split_repeated(k, vs);
    let pieces = vs.map_values(|v: Seq<char>| assignment(k, v));
    assert forall|i: int| 0 <= i < vs.len() implies #[trigger] pairs_spec(s)[i] == (k, vs[i]) by {
        lemma_pair_of_assignment(k, vs[i]);
        assert(pieces[i] == assignment(k, vs[i]));
    }
    assert(pairs_spec(s) =~= vs.map_values(|v: Seq<char>| (k, v)));
    lemma_values_of_one_key(k, vs);
}

proof fn lemma_values_contain(ps: Seq<(Seq<char>, Seq<char>)>, j: int)
    requires
        0 <= j < ps.len(),
    ensures
        values_for(ps, ps[j].0).contains(ps[j].1),
    decreases ps.len(),
{
    let k = ps[j].0;
    let prev = values_for(ps.drop_last(), k);
    if j == ps.len() - 1 {
        assert(values_for(ps, k) == prev.push(ps[j].1));
        assert(values_for(ps, k)[prev.len() as int] == ps[j].1);
    } else {
        assert(ps.drop_last()[j] == ps[j]);
        lemma_values_contain(ps.drop_last(), j);
        let i = choose|i: int| 0 <= i < prev.len() && prev[i] == ps[j].1;
        if ps.last().0 == k {
            assert(values_for(ps, k)[i] == ps[j].1);
        }
    }
}

proof fn lemma_values_absent(ps: Seq<(Seq<char>, Seq<char>)>, k: Seq<char>)
    requires
        forall|j: int| 0 <= j < ps.len() ==> (#[trigger] ps[j]).0 != k,
    ensures
        values_for(ps, k).len() == 0,
    decreases ps.len(),
{
    if ps.len() > 0 {
        assert(ps.last() == ps[ps.len() - 1]);
        assert forall|j: int| 0 <= j < ps.drop_last().len() implies (
        #[trigger] ps.drop_last()[j]).0 != k by {
            assert(ps.drop_last()[j] == ps[j]);
        }
        lemma_values_absent(ps.drop_last(), k);
    }
}

/// A piece with no `=` is a key whose value is the empty text: the key is
/// present, and the empty text is among its values.
pub proof fn lemma_bare_key(s: Seq<char>, j: int)
    requires
        0 <= j < split_spec(s, '&').len(),
        !split_spec(s, '&')[j].contains('='),
    ensures
        query_model(s).contains_key(split_spec(s, '&')[j]),
        query_model(s)[split_spec(s, '&')[j]].contains(Seq::<char>::empty()),
{
    let piece = split_spec(s, '&')[j];
    lemma_no_occurrence(piece, '=');
    let ps = pairs_spec(s);
    assert(ps[j] == (piece, Seq::<char>::empty()));
    lemma_values_contain(ps, j);
}

proof fn lemma_values_single(ps: Seq<(Seq<char>, Seq<char>)>, j: int)
    requires
        0 <= j < ps.len(),
        forall|i: int| 0 <= i < ps.len() && i != j ==> (#[trigger] ps[i]).0 != ps[j].0,
    ensures
        values_for(ps, ps[j].0) == seq![ps[j].1],
    decreases ps.len(),
{
    let k = ps[j].0;
    let prev = ps.drop_last();
    if j == ps.len() - 1 {
        assert forall|i: int| 0 <= i < prev.len() implies (#[trigger] prev[i]).0 != k by {
            assert(prev[i] == ps[i]);
        }
        lemma_values_absent(prev, k);
        assert(values_for(prev, k) =~= Seq::<Seq<char>>::empty());
        assert(values_for(ps, k) =~= seq![ps[j].1]);
    } else {
        assert(prev[j] == ps[j]);
        assert forall|i: int| 0 <= i < prev.len() && i != j implies (#[trigger] prev[i]).0
            != prev[j].0 by {
            assert(prev[i] == ps[i]);
        }
        lemma_values_single(prev, j);
        assert(ps.last() == ps[ps.len() - 1]);
    }
}

/// A bare key, a piece with no `=` whose key no other piece gives, maps to
/// the empty text alone; `get` then returns it as a `Single`.
pub proof fn lemma_lone_bare_key(s: Seq<char>, j: int)
    requires
        0 <= j < split_spec(s, '&').len(),
        !split_spec(s, '&')[j].contains('='),
        forall|i: int|
            0 <= i < pairs_spec(s).len() && i != j ==> (#[trigger] pairs_spec(s)[i]).0
                != split_spec(s, '&')[j],
    ensures
        query_model(s).contains_key(split_spec(s, '&')[j]),
        query_model(s)[split_spec(s, '&')[j]] == seq![Seq::<char>::empty()],
{
    let piece = split_spec(s, '&')[j];
    lemma_no_occurrence(piece, '=');
    let ps = pairs_spec(s);
    assert(ps[j] == (piece, Seq::<char>::empty()));
    lemma_values_single(ps, j);
}

/// A key that no piece of the fragment gives is absent.
pub proof fn lemma_absent_key(s: Seq<char>, k: Seq<char>)
    requires
        forall|j: int| 0 <= j < pairs_spec(s).len() ==> (#[trigger] pairs_spec(s)[j]).0 != k,
    ensures
        !query_model(s).contains_key(k),
{
    lemma_values_absent(pairs_spec(s), k);
}

} // verus!
