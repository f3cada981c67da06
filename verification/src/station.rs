//! Stations, imports and configuration, and the merge of the local station
//! list with the stations fetched from imported lists.

use vstd::prelude::*;
use crate::text::{
    lemma_text_le_transitive, lemma_text_trichotomy, lowercase, lowercase_chars,
    text_le, text_less, text_lt,
};

verus! {

broadcast use vstd::seq_lib::group_seq_properties;

/// A radio station: a display name and a stream URL, with where it came from.
pub struct Station {
    pub name: String,
    pub url: String,
    /// Whether the station came from an imported list.
    pub is_remote: bool,
    /// `local`, or the name of the import it came from.
    pub source: String,
}

/// The mathematical value of a [`Station`].
pub struct StationView {
    pub name: Seq<char>,
    pub url: Seq<char>,
    pub is_remote: bool,
    pub source: Seq<char>,
}

impl View for Station {
    type V = StationView;

    open spec fn view(&self) -> StationView {
        StationView { name: self.name@, url: self.url@, is_remote: self.is_remote, source: self.source@ }
    }
}

impl Clone for Station {
    fn clone(&self) -> (r: Self)
        ensures
            r@ == self@,
    {
        Station {
            name: self.name.clone(),
            url: self.url.clone(),
            is_remote: self.is_remote,
            source: self.source.clone(),
        }
    }
}

/// A station list to import: a name shown in messages and a URL or path.
pub struct Import {
    pub name: String,
    pub url: String,
}

/// The mathematical value of an [`Import`].
pub struct ImportView {
    pub name: Seq<char>,
    pub url: Seq<char>,
}

impl View for Import {
    type V = ImportView;

    open spec fn view(&self) -> ImportView {
        ImportView { name: self.name@, url: self.url@ }
    }
}

impl Clone for Import {
    fn clone(&self) -> (r: Self)
        ensures
            r@ == self@,
    {
        Import { name: self.name.clone(), url: self.url.clone() }
    }
}

/// The configuration file's contents.
pub struct Config {
    pub volume: i64,
    pub muted: bool,
    pub imports: Vec<Import>,
    pub stations: Vec<Station>,
}

impl Default for Config {
    fn default() -> (c: Self)
        ensures
            c.volume == 80,
            !c.muted,
            c.imports@.len() == 0,
            c.stations@.len() == 0,
    {
        Config { volume: 80, muted: false, imports: Vec::new(), stations: Vec::new() }
    }
}

/// The contents of an imported station list.
pub struct RemoteStationList {
    pub stations: Vec<Station>,
}

/// The views of a sequence of stations.
pub open spec fn views(s: Seq<Station>) -> Seq<StationView> {
    s.map_values(|st: Station| st@)
}

/// Whether some station in `list` has the URL `url`.
pub open spec fn url_listed(list: Seq<StationView>, url: Seq<char>) -> bool {
    exists|i: int| 0 <= i < list.len() && #[trigger] list[i].url == url
}

/// The imported stations that survive the merge: those whose URL no local
/// station has, and of several with one URL only the last.
pub open spec fn kept_remote(local: Seq<StationView>, remote: Seq<StationView>) -> Seq<StationView>
    decreases remote.len(),
{
    if remote.len() == 0 {
        Seq::empty()
    } else {
        let rest = kept_remote(local, remote.drop_first());
        if url_listed(local, remote[0].url) || url_listed(remote.drop_first(), remote[0].url) {
            rest
        } else {
            seq![remote[0]] + rest
        }
    }
}

/// The key by which stations are ordered: the lower-cased name.
pub open spec fn sort_key(s: StationView) -> Seq<char> {
    lowercase(s.name)
}

/// Stations in order of their lower-cased names.
pub open spec fn sorted_by_name(list: Seq<StationView>) -> bool {
    forall|i: int, j: int|
        0 <= i < j < list.len() ==> text_le(sort_key(#[trigger] list[i]), sort_key(#[trigger] list[j]))
}

/// The stations of `list` whose key is `k`, in their order in `list`.
pub open spec fn with_key(list: Seq<StationView>, k: Seq<char>) -> Seq<StationView> {
    list.filter(|s: StationView| sort_key(s) == k)
}

/// `sorted` is `list` stably sorted by lower-cased name: it holds the same
/// stations, in order, and the stations of each key come in the order they
/// had in `list`.
pub open spec fn stably_sorted(sorted: Seq<StationView>, list: Seq<StationView>) -> bool {
    &&& sorted.to_multiset() == list.to_multiset()
    &&& sorted_by_name(sorted)
    &&& forall|k: Seq<char>| #[trigger] with_key(sorted, k) == with_key(list, k)
}

/// The stations of a merge before they are sorted: the local ones, then the
/// surviving imported ones.
pub open spec fn merge_input(local: Seq<StationView>, remote: Seq<StationView>) -> Seq<StationView> {
    local + kept_remote(local, remote)
}

/// Whether some station of `list[from..]` has the URL `url`.
fn url_in(list: &Vec<Station>, from: usize, url: &String) -> (r: bool)
    requires
        from <= list@.len(),
    ensures
        r == url_listed(views(list@).skip(from as int), url@),
{
    let mut i = from;
    while i < list.len()
        invariant
            from <= i <= list@.len(),
            forall|j: int| from <= j < i ==> list@[j]@.url != url@,
        decreases list.len() - i,
    {
        if list[i].url == *url {
            assert(views(list@).skip(from as int)[i - from].url == url@);
            return true;
        }
        i = i + 1;
    }
    assert(!url_listed(views(list@).skip(from as int), url@)) by {
        if url_listed(views(list@).skip(from as int), url@) {
            let k = choose|k: int|
                0 <= k < views(list@).skip(from as int).len() && #[trigger] views(list@).skip(
                    from as int,
                )[k].url == url@;
            assert(list@[from + k]@.url == url@);
        }
    }
    false
}

/// The imported stations that survive the merge with `local`.
fn surviving_remote(local: &Vec<Station>, remote: &Vec<Station>) -> (r: Vec<Station>)
    ensures
        views(r@) == kept_remote(views(local@), views(remote@)),
{
    let mut out: Vec<Station> = Vec::new();
    let mut i: usize = 0;
    let ghost lv = views(local@);
    let ghost rv = views(remote@);
    assert(rv.skip(0) =~= rv);
    while i < remote.len()
        invariant
            i <= remote@.len(),
            lv == views(local@),
            rv == views(remote@),
            views(out@) + kept_remote(lv, rv.skip(i as int)) == kept_remote(lv, rv),
        decreases remote.len() - i,
    {
        let ghost tail = rv.skip(i as int);
        assert(tail.drop_first() =~= rv.skip(i + 1));
        assert(tail[0] == remote@[i as int]@);
        assert(local@.skip(0) =~= local@);
        assert(views(local@).skip(0) =~= lv);
        let in_local = url_in(local, 0, &remote[i].url);
        let later = url_in(remote, i + 1, &remote[i].url);
        if !in_local && !later {
            let ghost before = out@;
            let s = remote[i].clone();
            out.push(s);
            assert(views(out@) =~= views(before).push(s@));
            assert(views(out@) + kept_remote(lv, rv.skip(i + 1)) =~= views(before) + kept_remote(lv, tail));
        }
        i = i + 1;
    }
    assert(rv.skip(i as int) =~= Seq::<StationView>::empty());
    assert(views(out@) + Seq::<StationView>::empty() =~= views(out@));
    out
}


/// A sequence of keys in non-decreasing order.
spec fn keys_sorted(keys: Seq<Vec<char>>) -> bool {
    forall|i: int, j: int| 0 <= i < j < keys.len() ==> text_le(#[trigger] keys[i]@, #[trigger] keys[j]@)
}

/// Where `key` goes into the sorted `keys`: after every key not greater than
/// it, before every key greater than it.
fn insertion_point(keys: &Vec<Vec<char>>, key: &Vec<char>) -> (p: usize)
    requires
        keys_sorted(keys@),
    ensures
        p <= keys@.len(),
        forall|j: int| 0 <= j < p ==> text_le(#[trigger] keys@[j]@, key@),
        forall|j: int| p <= j < keys@.len() ==> text_lt(key@, #[trigger] keys@[j]@),
{
    let mut p = keys.len();
    while p > 0 && text_less(key, &keys[p - 1])
        invariant
            p <= keys@.len(),
            forall|j: int| p <= j < keys@.len() ==> text_lt(key@, #[trigger] keys@[j]@),
        decreases p,
    {
        p = p - 1;
    }
    assert forall|j: int| 0 <= j < p implies text_le(#[trigger] keys@[j]@, key@) by {
        lemma_text_trichotomy(key@, keys@[p - 1]@);
        if j < p - 1 {
            lemma_text_le_transitive(keys@[j]@, keys@[p - 1]@, key@);
        }
    }
    p
}

/// A station paired with the key by which it is ordered.
pub type Keyed = (StationView, Seq<char>);

/// The views of a sequence of keys.
pub open spec fn key_views(keys: Seq<Vec<char>>) -> Seq<Seq<char>> {
    keys.map_values(|k: Vec<char>| k@)
}

/// Each station of `list` paired with the key at the same position.
pub open spec fn key_pairs(list: Seq<StationView>, keys: Seq<Seq<char>>) -> Seq<Keyed> {
    Seq::new(list.len(), |i: int| (list[i], keys[i]))
}

/// Pairs in non-decreasing order of their keys.
pub open spec fn pairs_sorted(list: Seq<Keyed>) -> bool {
    forall|i: int, j: int| 0 <= i < j < list.len() ==> text_le((#[trigger] list[i]).1, (#[trigger] list[j]).1)
}

/// Whether a pair has key `k`.
pub open spec fn has_key(k: Seq<char>) -> spec_fn(Keyed) -> bool {
    |p: Keyed| p.1 == k
}

/// The pairs of `list` with key `k`, in their order in `list`.
pub open spec fn pairs_with_key(list: Seq<Keyed>, k: Seq<char>) -> Seq<Keyed> {
    list.filter(has_key(k))
}

/// `sorted` is `list` stably sorted by key: the same pairs, in order of
/// their keys, and the pairs of each key in the order they had in `list`.
pub open spec fn stably_sorted_by_keys(sorted: Seq<Keyed>, list: Seq<Keyed>) -> bool {
    &&& sorted.to_multiset() == list.to_multiset()
    &&& pairs_sorted(sorted)
    &&& forall|k: Seq<char>| #[trigger] pairs_with_key(sorted, k) == pairs_with_key(list, k)
}

/// No pair of `s` has key `k`: its pairs with key `k` are none.
proof fn lemma_pairs_with_key_none(s: Seq<Keyed>, k: Seq<char>)
    requires
        forall|j: int| 0 <= j < s.len() ==> (#[trigger] s[j]).1 != k,
    ensures
        pairs_with_key(s, k) == Seq::<Keyed>::empty(),
{
    let f = pairs_with_key(s, k);
    if f.len() > 0 {
        broadcast use vstd::seq_lib::group_filter_ensures;
        assert(f.contains(f[0]));
        s.lemma_filter_contains_rev(has_key(k), f[0]);
    }
    assert(f =~= Seq::<Keyed>::empty());
}

/// Inserting `x` before the pairs whose keys exceed its own adds `x` at the
/// end of its key's pairs and leaves the other keys' pairs alone.
proof fn lemma_insert_pairs_with_key(out: Seq<Keyed>, p: int, x: Keyed, k: Seq<char>)
    requires
        0 <= p <= out.len(),
        forall|j: int| p <= j < out.len() ==> text_lt(x.1, (#[trigger] out[j]).1),
    ensures
        pairs_with_key(out.insert(p, x), k) == if x.1 == k {
            pairs_with_key(out, k).push(x)
        } else {
            pairs_with_key(out, k)
        },
{
    let pred = has_key(k);
    let a = out.subrange(0, p);
    let b = out.subrange(p, out.len() as int);
    assert(out.insert(p, x) == a.push(x) + b);
    assert(out =~= a + b);
    Seq::filter_distributes_over_add(a.push(x), b, pred);
    Seq::filter_distributes_over_add(a, b, pred);
    a.lemma_filter_push(x, pred);
    if x.1 == k {
        assert forall|j: int| 0 <= j < b.len() implies (#[trigger] b[j]).1 != k by {
            lemma_text_trichotomy(x.1, b[j].1);
        }
        lemma_pairs_with_key_none(b, k);
        assert(b.filter(pred) =~= Seq::<Keyed>::empty());
        assert(a.filter(pred) + b.filter(pred) =~= a.filter(pred));
        assert(a.filter(pred).push(x) + b.filter(pred) =~= a.filter(pred).push(x));
    }
}

/// Sorts `list` stably by the given keys, one per station: returns the
/// stations and their keys in order of the keys, stations with equal keys
/// in the order they had.
pub fn sort_by_keys(list: &Vec<Station>, keys: &Vec<Vec<char>>) -> (r: (Vec<Station>, Vec<Vec<char>>))
    requires
        keys@.len() == list@.len(),
    ensures
        r.0@.len() == r.1@.len(),
        stably_sorted_by_keys(key_pairs(views(r.0@), key_views(r.1@)), key_pairs(views(list@), key_views(keys@))),
{
    let mut out: Vec<Station> = Vec::new();
    let mut out_keys: Vec<Vec<char>> = Vec::new();
    let mut i: usize = 0;
    let ghost all = key_pairs(views(list@), key_views(keys@));
    assert(all.take(0) =~= Seq::<Keyed>::empty());
    assert(key_pairs(views(out@), key_views(out_keys@)) =~= Seq::<Keyed>::empty());
    while i < list.len()
        invariant
            i <= list@.len(),
            keys@.len() == list@.len(),
            all == key_pairs(views(list@), key_views(keys@)),
            out@.len() == out_keys@.len(),
            pairs_sorted(key_pairs(views(out@), key_views(out_keys@))),
            key_pairs(views(out@), key_views(out_keys@)).to_multiset() == all.take(i as int).to_multiset(),
            forall|k: Seq<char>| #[trigger]
                pairs_with_key(key_pairs(views(out@), key_views(out_keys@)), k) == pairs_with_key(
                    all.take(i as int),
                    k,
                ),
        decreases list.len() - i,
    {
        let s = list[i].clone();
        let key = keys[i].clone();
        assert(key@ =~= keys@[i as int]@);
        let ghost before = key_pairs(views(out@), key_views(out_keys@));
        assert(keys_sorted(out_keys@)) by {
            assert forall|a: int, b: int| 0 <= a < b < out_keys@.len() implies text_le(
                #[trigger] out_keys@[a]@,
                #[trigger] out_keys@[b]@,
            ) by {
                assert(before[a].1 == out_keys@[a]@ && before[b].1 == out_keys@[b]@);
            }
        }
        let p = insertion_point(&out_keys, &key);
        let ghost x: Keyed = (s@, key@);
        out.insert(p, s);
        out_keys.insert(p, key);
        proof {
            broadcast use vstd::seq_lib::group_to_multiset_ensures;

            let now = key_pairs(views(out@), key_views(out_keys@));
            assert(now =~= before.insert(p as int, x));
            assert(x == all[i as int]);
            assert(forall|j: int| p <= j < before.len() ==> text_lt(x.1, (#[trigger] before[j]).1)) by {
                assert forall|j: int| p <= j < before.len() implies text_lt(x.1, (#[trigger] before[j]).1) by {
                    assert(before[j].1 == out_keys@[j + 1]@);
                }
            }
            assert(all.take(i + 1) =~= all.take(i as int).push(x));
            assert forall|k: Seq<char>| #[trigger] pairs_with_key(now, k) == pairs_with_key(all.take(i + 1), k) by {
                lemma_insert_pairs_with_key(before, p as int, x, k);
                all.take(i as int).lemma_filter_push(x, has_key(k));
            }
            assert forall|a: int, b: int| 0 <= a < b < now.len() implies text_le(
                (#[trigger] now[a]).1,
                (#[trigger] now[b]).1,
            ) by {
                if a < p && b < p {
                    assert(now[a] == before[a] && now[b] == before[b]);
                } else if a < p && b == p {
                    assert(now[a] == before[a]);
                } else if a < p && b > p {
                    assert(now[a] == before[a]);
                    assert(now[b] == before[b - 1]);
                    lemma_text_trichotomy(x.1, before[b - 1].1);
                    lemma_text_le_transitive(now[a].1, x.1, now[b].1);
                } else if a == p {
                    assert(now[b] == before[b - 1]);
                    lemma_text_trichotomy(x.1, before[b - 1].1);
                } else {
                    assert(now[a] == before[a - 1] && now[b] == before[b - 1]);
                }
            }
        }
        i = i + 1;
    }
    assert(all.take(i as int) =~= all);
    (out, out_keys)
}

/// The stations of some pairs.
pub open spec fn stations_of(s: Seq<Keyed>) -> Seq<StationView> {
    s.map_values(|p: Keyed| p.0)
}

/// Sequences with the same elements keep the same elements under a map.
proof fn lemma_map_to_multiset<A, B>(a: Seq<A>, b: Seq<A>, f: spec_fn(A) -> B)
    requires
        a.to_multiset() == b.to_multiset(),
    ensures
        a.map_values(f).to_multiset() == b.map_values(f).to_multiset(),
    decreases a.len(),
{
    broadcast use vstd::seq_lib::group_to_multiset_ensures, vstd::multiset::group_multiset_axioms;

    a.to_multiset_ensures();
    b.to_multiset_ensures();
    if a.len() == 0 {
        assert(b.len() == 0);
        assert(a.map_values(f) =~= Seq::<B>::empty());
        assert(b.map_values(f) =~= Seq::<B>::empty());
    } else {
        let x = a.last();
        let a1 = a.drop_last();
        assert(a =~= a1.push(x));
        assert(b.to_multiset().count(x) > 0);
        assert(b.contains(x));
        let j = choose|j: int| 0 <= j < b.len() && b[j] == x;
        let b1 = b.remove(j);
        assert(b1.to_multiset() =~= a1.to_multiset());
        lemma_map_to_multiset(a1, b1, f);
        assert(a.map_values(f) =~= a1.map_values(f).push(f(x)));
        assert(b.map_values(f).remove(j) =~= b1.map_values(f));
        assert(b.map_values(f)[j] == f(x));
        assert(b.map_values(f).to_multiset() =~= b1.map_values(f).to_multiset().insert(f(x)));
    }
}

/// When each pair's key is its station's lower-cased name, the stations of
/// the pairs with key `k` are the stations with key `k`.
proof fn lemma_stations_with_key(s: Seq<Keyed>, k: Seq<char>)
    requires
        forall|i: int| 0 <= i < s.len() ==> (#[trigger] s[i]).1 == sort_key(s[i].0),
    ensures
        stations_of(pairs_with_key(s, k)) == with_key(stations_of(s), k),
    decreases s.len(),
{
    reveal(Seq::filter);
    if s.len() > 0 {
        let s1 = s.drop_last();
        assert(stations_of(s1) =~= stations_of(s).drop_last());
        assert(s.last() == s[s.len() - 1]);
        lemma_stations_with_key(s1, k);
        if s.last().1 == k {
            assert(stations_of(pairs_with_key(s, k)) =~= stations_of(pairs_with_key(s1, k)).push(s.last().0));
        }
    }
}

/// `list` stably sorted by lower-cased name.
fn sort_by_name(list: &Vec<Station>) -> (r: Vec<Station>)
    ensures
        stably_sorted(views(r@), views(list@)),
{
    let mut keys: Vec<Vec<char>> = Vec::new();
    let mut i: usize = 0;
    while i < list.len()
        invariant
            i <= list@.len(),
            keys@.len() == i,
            forall|j: int| 0 <= j < i ==> (#[trigger] keys@[j])@ == sort_key(list@[j]@),
        decreases list.len() - i,
    {
        keys.push(lowercase_chars(list[i].name.as_str()));
        i = i + 1;
    }
    let (out, out_keys) = sort_by_keys(list, &keys);
    proof {
        broadcast use vstd::seq_lib::group_to_multiset_ensures;

        let input = key_pairs(views(list@), key_views(keys@));
        let sorted = key_pairs(views(out@), key_views(out_keys@));
        assert(stations_of(input) =~= views(list@));
        assert(stations_of(sorted) =~= views(out@));
        assert forall|i: int| 0 <= i < input.len() implies (#[trigger] input[i]).1 == sort_key(input[i].0) by {
            assert(keys@[i]@ == sort_key(list@[i]@));
        }
        assert forall|i: int| 0 <= i < sorted.len() implies (#[trigger] sorted[i]).1 == sort_key(sorted[i].0) by {
            assert(sorted.to_multiset().count(sorted[i]) > 0);
            assert(input.contains(sorted[i]));
            let j = choose|j: int| 0 <= j < input.len() && input[j] == sorted[i];
            assert(input[j].1 == sort_key(input[j].0));
        }
        lemma_map_to_multiset(sorted, input, |p: Keyed| p.0);
        assert forall|a: int, b: int| 0 <= a < b < views(out@).len() implies text_le(
            sort_key(#[trigger] views(out@)[a]),
            sort_key(#[trigger] views(out@)[b]),
        ) by {
            assert(views(out@)[a] == sorted[a].0 && views(out@)[b] == sorted[b].0);
            assert(sorted[a].1 == sort_key(sorted[a].0) && sorted[b].1 == sort_key(sorted[b].0));
        }
        assert forall|k: Seq<char>| #[trigger] with_key(views(out@), k) == with_key(views(list@), k) by {
            lemma_stations_with_key(sorted, k);
            lemma_stations_with_key(input, k);
            assert(pairs_with_key(sorted, k) == pairs_with_key(input, k));
        }
    }
    out
}

/// Merges the local stations with the imported ones: an imported station
/// whose URL a local station has is dropped, of several imported stations
/// with one URL the last is kept, and the result is sorted by lower-cased
/// name; among stations with equal lower-cased names the local ones come
/// first, in their order.
pub fn merge_stations(local: Vec<Station>, remote: Vec<Station>) -> (merged: Vec<Station>)
    ensures
        stably_sorted(views(merged@), merge_input(views(local@), views(remote@))),
{
    let mut all = local.clone();
    let kept = surviving_remote(&local, &remote);
    let mut j: usize = 0;
    while j < kept.len()
        invariant
            j <= kept@.len(),
            views(all@) == views(local@) + views(kept@).take(j as int),
        decreases kept.len() - j,
    {
        let ghost before = all@;
        all.push(kept[j].clone());
        assert(views(kept@).take(j + 1) =~= views(kept@).take(j as int).push(kept@[j as int]@));
        assert(views(all@) =~= views(before).push(kept@[j as int]@));
        j = j + 1;
    }
    assert(views(kept@).take(j as int) =~= views(kept@));
    sort_by_name(&all)
}


/// The stations that `with_key` picks out lie in the list.
proof fn lemma_with_key_members(list: Seq<StationView>, sorted: Seq<StationView>, x: StationView)
    requires
        stably_sorted(sorted, list),
    ensures
        sorted.contains(x) <==> list.contains(x),
{
    broadcast use vstd::seq_lib::group_filter_ensures;

    let k = sort_key(x);
    let pred = |s: StationView| sort_key(s) == k;
    assert(with_key(sorted, k) == with_key(list, k));
    if list.contains(x) {
        let i = choose|i: int| 0 <= i < list.len() && list[i] == x;
        assert(pred(list[i]));
        assert(list.filter(pred).contains(x));
        sorted.lemma_filter_contains_rev(pred, x);
    }
    if sorted.contains(x) {
        let i = choose|i: int| 0 <= i < sorted.len() && sorted[i] == x;
        assert(pred(sorted[i]));
        assert(sorted.filter(pred).contains(x));
        list.lemma_filter_contains_rev(pred, x);
    }
}

/// The stations that survive among the imported ones are imported stations
/// whose URL no local station has.
proof fn lemma_kept_remote_members(local: Seq<StationView>, remote: Seq<StationView>, x: StationView)
    requires
        kept_remote(local, remote).contains(x),
    ensures
        remote.contains(x),
        !url_listed(local, x.url),
    decreases remote.len(),
{
    let rest = kept_remote(local, remote.drop_first());
    if url_listed(local, remote[0].url) || url_listed(remote.drop_first(), remote[0].url) {
        lemma_kept_remote_members(local, remote.drop_first(), x);
    } else if x == remote[0] {
        assert(remote[0] == x);
    } else {
        let i = choose|i: int| 0 <= i < kept_remote(local, remote).len() && kept_remote(local, remote)[i] == x;
        assert(rest[i - 1] == x);
        lemma_kept_remote_members(local, remote.drop_first(), x);
    }
    if !remote.contains(x) {
        let j = choose|j: int| 0 <= j < remote.drop_first().len() && remote.drop_first()[j] == x;
        assert(remote[j + 1] == x);
    }
}

/// An imported station survives when no local station and no later imported
/// station has its URL.
proof fn lemma_kept_remote_last(local: Seq<StationView>, remote: Seq<StationView>, i: int)
    requires
        0 <= i < remote.len(),
        !url_listed(local, remote[i].url),
        !url_listed(remote.skip(i + 1), remote[i].url),
    ensures
        kept_remote(local, remote).contains(remote[i]),
    decreases remote.len(),
{
    if i == 0 {
        assert(remote.skip(1) =~= remote.drop_first());
        assert(kept_remote(local, remote)[0] == remote[0]);
    } else {
        assert(remote.drop_first().skip(i) =~= remote.skip(i + 1));
        lemma_kept_remote_last(local, remote.drop_first(), i - 1);
        let rest = kept_remote(local, remote.drop_first());
        let j = choose|j: int| 0 <= j < rest.len() && rest[j] == remote[i];
        if !(url_listed(local, remote[0].url) || url_listed(remote.drop_first(), remote[0].url)) {
            assert(kept_remote(local, remote)[j + 1] == remote[i]);
        }
    }
}

/// No two surviving imported stations share a URL.
proof fn lemma_kept_remote_unique(local: Seq<StationView>, remote: Seq<StationView>)
    ensures
        forall|a: int, b: int|
            0 <= a < b < kept_remote(local, remote).len() ==> #[trigger] kept_remote(local, remote)[a].url
                != #[trigger] kept_remote(local, remote)[b].url,
    decreases remote.len(),
{
    if remote.len() > 0 {
        lemma_kept_remote_unique(local, remote.drop_first());
        let rest = kept_remote(local, remote.drop_first());
        let all = kept_remote(local, remote);
        if !(url_listed(local, remote[0].url) || url_listed(remote.drop_first(), remote[0].url)) {
            assert forall|a: int, b: int| 0 <= a < b < all.len() implies #[trigger] all[a].url != #[trigger] all[b].url by {
                if a == 0 {
                    assert(all[b] == rest[b - 1]);
                    assert(rest.contains(rest[b - 1]));
                    lemma_kept_remote_members(local, remote.drop_first(), rest[b - 1]);
                    let j = choose|j: int| 0 <= j < remote.drop_first().len() && remote.drop_first()[j] == rest[b - 1];
                    assert(remote.drop_first()[j].url == all[b].url);
                } else {
                    assert(all[a] == rest[a - 1] && all[b] == rest[b - 1]);
                }
            }
        }
    }
}

/// Merging keeps every local station: local stations override imported
/// stations with the same URL and are never dropped.
pub proof fn law_merge_keeps_local(local: Seq<StationView>, remote: Seq<StationView>, merged: Seq<StationView>, i: int)
    requires
        stably_sorted(merged, merge_input(local, remote)),
        0 <= i < local.len(),
    ensures
        merged.contains(local[i]),
{
    let input = merge_input(local, remote);
    assert(input[i] == local[i]);
    lemma_with_key_members(input, merged, local[i]);
}

/// Every merged station is a local station, or an imported station whose
/// URL no local station has.
pub proof fn law_merge_members(local: Seq<StationView>, remote: Seq<StationView>, merged: Seq<StationView>, x: StationView)
    requires
        stably_sorted(merged, merge_input(local, remote)),
        merged.contains(x),
    ensures
        local.contains(x) || (remote.contains(x) && !url_listed(local, x.url)),
{
    let input = merge_input(local, remote);
    lemma_with_key_members(input, merged, x);
    let i = choose|i: int| 0 <= i < input.len() && input[i] == x;
    if i >= local.len() {
        let kept = kept_remote(local, remote);
        assert(kept[i - local.len()] == x);
        lemma_kept_remote_members(local, remote, x);
    } else {
        assert(local[i] == x);
    }
}

/// An imported station whose URL no local station and no later imported
/// station has is in the merge.
pub proof fn law_merge_keeps_last_import(local: Seq<StationView>, remote: Seq<StationView>, merged: Seq<StationView>, i: int)
    requires
        stably_sorted(merged, merge_input(local, remote)),
        0 <= i < remote.len(),
        !url_listed(local, remote[i].url),
        !url_listed(remote.skip(i + 1), remote[i].url),
    ensures
        merged.contains(remote[i]),
{
    let input = merge_input(local, remote);
    lemma_kept_remote_last(local, remote, i);
    let kept = kept_remote(local, remote);
    let j = choose|j: int| 0 <= j < kept.len() && kept[j] == remote[i];
    assert(input[local.len() + j] == remote[i]);
    lemma_with_key_members(input, merged, remote[i]);
}

/// A merge holds exactly the local stations and the surviving imported
/// ones: as many stations as they are together.
pub proof fn law_merge_length(local: Seq<StationView>, remote: Seq<StationView>, merged: Seq<StationView>)
    requires
        stably_sorted(merged, merge_input(local, remote)),
    ensures
        merged.len() == local.len() + kept_remote(local, remote).len(),
{
    broadcast use vstd::seq_lib::group_to_multiset_ensures;

    assert(merged.to_multiset().len() == merge_input(local, remote).to_multiset().len());
}

/// The imported stations that enter a merge have pairwise different URLs,
/// none of which a local station has.
pub proof fn law_merge_imports_distinct(local: Seq<StationView>, remote: Seq<StationView>)
    ensures
        forall|a: int, b: int|
            0 <= a < b < kept_remote(local, remote).len() ==> #[trigger] kept_remote(local, remote)[a].url
                != #[trigger] kept_remote(local, remote)[b].url,
        forall|a: int|
            0 <= a < kept_remote(local, remote).len() ==> !url_listed(local, #[trigger] kept_remote(local, remote)[a].url),
{
    lemma_kept_remote_unique(local, remote);
    assert forall|a: int| 0 <= a < kept_remote(local, remote).len() implies !url_listed(local, #[trigger] kept_remote(local, remote)[a].url) by {
        let kept = kept_remote(local, remote);
        assert(kept.contains(kept[a]));
        lemma_kept_remote_members(local, remote, kept[a]);
    }
}


/// Two lists sorted by lower-cased name that hold, key by key, the same
/// stations in the same order, are the same list.
proof fn lemma_sorted_by_keys_unique(a: Seq<StationView>, l: Seq<StationView>)
    requires
        a.len() == l.len(),
        sorted_by_name(a),
        sorted_by_name(l),
        forall|k: Seq<char>| #[trigger] with_key(a, k) == with_key(l, k),
    ensures
        a == l,
    decreases a.len(),
{
    broadcast use vstd::seq_lib::group_filter_ensures;

    reveal(Seq::filter);
    if a.len() == 0 {
        assert(a =~= l);
    } else {
        let n = a.len() as int;
        let (ka, kl) = (sort_key(a.last()), sort_key(l.last()));
        let (a1, l1) = (a.drop_last(), l.drop_last());
        // The last key of each list is the other's last key too.
        assert(with_key(a, ka).last() == a.last());
        assert(with_key(l, ka).contains(a.last()));
        l.lemma_filter_contains_rev(|s: StationView| sort_key(s) == ka, a.last());
        let j = choose|j: int| 0 <= j < n && l[j] == a.last();
        lemma_text_trichotomy(ka, kl);
        if j < n - 1 {
            assert(text_le(sort_key(l[j]), sort_key(l[n - 1])));
        }
        assert(with_key(l, kl).last() == l.last());
        assert(with_key(a, kl).contains(l.last()));
        a.lemma_filter_contains_rev(|s: StationView| sort_key(s) == kl, l.last());
        let i = choose|i: int| 0 <= i < n && a[i] == l.last();
        if i < n - 1 {
            assert(text_le(sort_key(a[i]), sort_key(a[n - 1])));
        }
        assert(ka == kl);
        assert(a.last() == l.last()) by {
            assert(with_key(a, ka) == with_key(l, ka));
        }
        assert forall|k: Seq<char>| #[trigger] with_key(a1, k) == with_key(l1, k) by {
            assert(with_key(a, k) == with_key(l, k));
            if k == ka {
                assert(with_key(a, k).drop_last() =~= with_key(a1, k));
                assert(with_key(l, k).drop_last() =~= with_key(l1, k));
            }
        }
        assert(sorted_by_name(a1)) by {
            assert forall|x: int, y: int| 0 <= x < y < a1.len() implies text_le(
                sort_key(#[trigger] a1[x]),
                sort_key(#[trigger] a1[y]),
            ) by {
                assert(a1[x] == a[x] && a1[y] == a[y]);
            }
        }
        assert(sorted_by_name(l1)) by {
            assert forall|x: int, y: int| 0 <= x < y < l1.len() implies text_le(
                sort_key(#[trigger] l1[x]),
                sort_key(#[trigger] l1[y]),
            ) by {
                assert(l1[x] == l[x] && l1[y] == l[y]);
            }
        }
        lemma_sorted_by_keys_unique(a1, l1);
        assert(a =~= a1.push(a.last()));
        assert(l =~= l1.push(l.last()));
    }
}

/// No imported station survives a merge when each one's URL is listed in
/// `local` or again among the later imported stations.
proof fn lemma_kept_remote_none(local: Seq<StationView>, remote: Seq<StationView>)
    requires
        forall|i: int|
            0 <= i < remote.len() ==> url_listed(local, #[trigger] remote[i].url) || url_listed(
                remote.skip(i + 1),
                remote[i].url,
            ),
    ensures
        kept_remote(local, remote) == Seq::<StationView>::empty(),
    decreases remote.len(),
{
    if remote.len() > 0 {
        let rest = remote.drop_first();
        assert(remote.skip(1) =~= rest);
        assert(url_listed(local, remote[0].url) || url_listed(remote.skip(1), remote[0].url));
        assert forall|i: int| 0 <= i < rest.len() implies url_listed(local, #[trigger] rest[i].url)
            || url_listed(rest.skip(i + 1), rest[i].url) by {
            assert(rest[i] == remote[i + 1]);
            assert(rest.skip(i + 1) =~= remote.skip(i + 2));
        }
        lemma_kept_remote_none(local, rest);
    }
}

/// Merging the same imported stations into a merge again changes nothing:
/// every imported station is then either in the merge already, or
/// overridden, or followed by one with its URL.
pub proof fn law_merge_idempotent(
    local: Seq<StationView>,
    remote: Seq<StationView>,
    merged: Seq<StationView>,
    again: Seq<StationView>,
)
    requires
        stably_sorted(merged, merge_input(local, remote)),
        stably_sorted(again, merge_input(merged, remote)),
    ensures
        again == merged,
{
    broadcast use vstd::seq_lib::group_to_multiset_ensures;

    assert forall|i: int| 0 <= i < remote.len() implies url_listed(merged, #[trigger] remote[i].url)
        || url_listed(remote.skip(i + 1), remote[i].url) by {
        if !url_listed(remote.skip(i + 1), remote[i].url) {
            if url_listed(local, remote[i].url) {
                let j = choose|j: int| 0 <= j < local.len() && #[trigger] local[j].url == remote[i].url;
                law_merge_keeps_local(local, remote, merged, j);
                let k = choose|k: int| 0 <= k < merged.len() && merged[k] == local[j];
                assert(merged[k].url == remote[i].url);
            } else {
                law_merge_keeps_last_import(local, remote, merged, i);
                let k = choose|k: int| 0 <= k < merged.len() && merged[k] == remote[i];
                assert(merged[k].url == remote[i].url);
            }
        }
    }
    lemma_kept_remote_none(merged, remote);
    assert(merge_input(merged, remote) =~= merged);
    assert(again.to_multiset().len() == merged.to_multiset().len());
    lemma_sorted_by_keys_unique(again, merged);
}

/// `s` marked as coming from `source`, imported when `remote`.
pub open spec fn tagged(s: StationView, remote: bool, source: Seq<char>) -> StationView {
    StationView { name: s.name, url: s.url, is_remote: remote, source: source }
}

/// Every station of `list` marked as coming from `source`.
pub open spec fn all_tagged(list: Seq<StationView>, remote: bool, source: Seq<char>) -> Seq<StationView> {
    list.map_values(|s: StationView| tagged(s, remote, source))
}

/// Marks every station as coming from `source`, imported when `remote`.
pub fn mark_stations(stations: &mut Vec<Station>, remote: bool, source: &str)
    ensures
        views(final(stations)@) == all_tagged(views(old(stations)@), remote, source@),
{
    let mut out: Vec<Station> = Vec::new();
    let mut i: usize = 0;
    while i < stations.len()
        invariant
            i <= stations@.len(),
            stations@ == old(stations)@,
            views(out@) == all_tagged(views(stations@), remote, source@).take(i as int),
        decreases stations.len() - i,
    {
        let s = Station {
            name: stations[i].name.clone(),
            url: stations[i].url.clone(),
            is_remote: remote,
            source: source.to_owned(),
        };
        let ghost before = views(out@);
        out.push(s);
        assert(views(out@) =~= all_tagged(views(stations@), remote, source@).take(i + 1)) by {
            assert(views(out@) =~= before.push(s@));
        }
        i = i + 1;
    }
    assert(all_tagged(views(stations@), remote, source@).take(i as int) =~= all_tagged(
        views(stations@),
        remote,
        source@,
    ));
    *stations = out;
}

/// Marks the stations of the configuration file as local.
pub fn mark_local(stations: &mut Vec<Station>)
    ensures
        views(final(stations)@) == all_tagged(views(old(stations)@), false, "local"@),
{
    mark_stations(stations, false, "local");
}


/// A copy of a list of stations.
pub fn clone_list(list: &Vec<Station>) -> (r: Vec<Station>)
    ensures
        views(r@) == views(list@),
{
    let mut out: Vec<Station> = Vec::new();
    let mut i: usize = 0;
    while i < list.len()
        invariant
            i <= list@.len(),
            views(out@) == views(list@).take(i as int),
        decreases list.len() - i,
    {
        let ghost before = views(out@);
        out.push(list[i].clone());
        assert(views(out@) =~= before.push(list@[i as int]@));
        assert(views(list@).take(i + 1) =~= views(list@).take(i as int).push(list@[i as int]@));
        i = i + 1;
    }
    assert(views(list@).take(i as int) =~= views(list@));
    out
}


/// The views of a sequence of imports.
pub open spec fn import_views(s: Seq<Import>) -> Seq<ImportView> {
    s.map_values(|i: Import| i@)
}

/// A copy of a list of imports.
pub fn clone_imports(list: &Vec<Import>) -> (r: Vec<Import>)
    ensures
        import_views(r@) == import_views(list@),
{
    let mut out: Vec<Import> = Vec::new();
    let mut i: usize = 0;
    while i < list.len()
        invariant
            i <= list@.len(),
            import_views(out@) == import_views(list@).take(i as int),
        decreases list.len() - i,
    {
        let ghost before = import_views(out@);
        out.push(list[i].clone());
        assert(import_views(out@) =~= before.push(list@[i as int]@));
        assert(import_views(list@).take(i + 1) =~= import_views(list@).take(i as int).push(list@[i as int]@));
        i = i + 1;
    }
    assert(import_views(list@).take(i as int) =~= import_views(list@));
    out
}

} // verus!
