//! The PyPI indexes the dependency sync may use, and their order: the
//! fastest one that answered first.
use vstd::prelude::*;
use vstd::string::*;
use crate::text::{
    chars_of, ends_with, eq_ignore_case, eq_ignore_case_chars, eq_ignore_case_str, push_str,
    string_of, trim, trim_chars,
};

verus! {

/// The index used when no mirror answers.
pub const DEFAULT_PYPI_INDEX: &'static str = "https://pypi.org/simple/";

/// Mirrors tried before the default index.
pub open spec fn builtin_indexes() -> Seq<Seq<char>> {
    seq![
        "https://mirrors.aliyun.com/pypi/simple/"@,
        "https://mirrors.cloud.tencent.com/pypi/simple/"@,
        "https://repo.huaweicloud.com/repository/pypi/simple/"@,
        "https://mirrors.cernet.edu.cn/pypi/web/simple/"@,
    ]
}

/// An index address as the launcher uses it: trimmed, ending with `/`;
/// none when blank or the word `null` in any ASCII case.
pub open spec fn normalized_index(url: Seq<char>) -> Option<Seq<char>> {
    let t = trim(url);
    if t.len() == 0 || eq_ignore_case(t, "null"@) {
        None
    } else if ends_with(t, "/"@) {
        Some(t)
    } else {
        Some(t.push('/'))
    }
}

/// Number of `/` that end `s`.
pub open spec fn trailing_slashes(s: Seq<char>) -> nat
    decreases s.len(),
{
    if s.len() > 0 && s.last() == '/' {
        1 + trailing_slashes(s.drop_last())
    } else {
        0
    }
}

pub open spec fn without_trailing_slashes(s: Seq<char>) -> Seq<char> {
    s.take(s.len() - trailing_slashes(s))
}

/// Two addresses name the same index: equal in any ASCII case once the
/// slashes that end them are dropped.
pub open spec fn same_index(a: Seq<char>, b: Seq<char>) -> bool {
    eq_ignore_case(without_trailing_slashes(a), without_trailing_slashes(b))
}

pub open spec fn has_same_index(list: Seq<Seq<char>>, x: Seq<char>) -> bool {
    exists|i: int| 0 <= i < list.len() && same_index(#[trigger] list[i], x)
}

/// The list with `x` added at the end unless it names an index already there.
pub open spec fn with_new_index(list: Seq<Seq<char>>, x: Seq<char>) -> Seq<Seq<char>> {
    if has_same_index(list, x) {
        list
    } else {
        list.push(x)
    }
}

/// The list with an address added, once normalized, unless it is blank or
/// names an index already there.
pub open spec fn with_index_address(list: Seq<Seq<char>>, url: Seq<char>) -> Seq<Seq<char>> {
    match normalized_index(url) {
        Some(x) => with_new_index(list, x),
        None => list,
    }
}

/// Several addresses added in turn.
pub open spec fn with_index_addresses(list: Seq<Seq<char>>, urls: Seq<Seq<char>>) -> Seq<
    Seq<char>,
>
    decreases urls.len(),
{
    if urls.len() == 0 {
        list
    } else {
        with_index_address(with_index_addresses(list, urls.drop_last()), urls.last())
    }
}

/// Several indexes added in turn, as they are.
pub open spec fn with_new_indexes(list: Seq<Seq<char>>, xs: Seq<Seq<char>>) -> Seq<Seq<char>>
    decreases xs.len(),
{
    if xs.len() == 0 {
        list
    } else {
        with_new_index(with_new_indexes(list, xs.drop_last()), xs.last())
    }
}

/// The indexes to try: the built-in mirrors, the configured mirror, then
/// the default index, without repeats.
pub open spec fn index_candidates(mirror: Option<Seq<char>>) -> Seq<Seq<char>> {
    let base = with_index_addresses(Seq::empty(), builtin_indexes());
    let with_mirror = match mirror {
        Some(m) => with_index_address(base, m),
        None => base,
    };
    with_index_address(with_mirror, "https://pypi.org/simple/"@)
}

pub open spec fn strings_view(v: Seq<String>) -> Seq<Seq<char>> {
    v.map_values(|s: String| s@)
}

/// Normalizes an index address.
pub fn normalize_pypi_index(url: &str) -> (r: Option<String>)
    ensures
        match r {
            Some(s) => normalized_index(url@) == Some(s@),
            None => normalized_index(url@) is None,
        },
{
    let cs = chars_of(url);
    let t = trim_chars(&cs);
    if t.len() == 0 || eq_ignore_case_str(&t, "null") {
        return None;
    }
    proof {
        reveal_strlit("/");
    }
    if t[t.len() - 1] == '/' {
        assert(t@.skip(t@.len() - 1) =~= "/"@);
        Some(string_of(&t))
    } else {
        assert(!ends_with(t@, "/"@)) by {
            if ends_with(t@, "/"@) {
                assert(t@.skip(t@.len() - 1)[0] == t@[t@.len() - 1]);
            }
        }
        let mut s = string_of(&t);
        crate::text::push_char(&mut s, '/');
        Some(s)
    }
}

fn without_trailing_slashes_exec(v: &Vec<char>) -> (r: Vec<char>)
    ensures
        r@ == without_trailing_slashes(v@),
{
    let mut k: usize = v.len();
    assert(v@.take(k as int) =~= v@);
    while k > 0 && v[k - 1] == '/'
        invariant
            k <= v.len(),
            trailing_slashes(v@) == (v.len() - k) + trailing_slashes(v@.take(k as int)),
        decreases k,
    {
        assert(v@.take(k as int).drop_last() =~= v@.take(k - 1));
        k = k - 1;
    }
    assert(v@.take(k as int) =~= v@.take(v@.len() - trailing_slashes(v@))) by {
        if k > 0 {
            assert(v@.take(k as int).last() == v@[k - 1]);
        }
    }
    crate::text::slice_chars(v, 0, k)
}

/// Whether two addresses name the same index.
pub fn pypi_indexes_match(left: &str, right: &str) -> (b: bool)
    ensures
        b == same_index(left@, right@),
{
    let l = without_trailing_slashes_exec(&chars_of(left));
    let r = without_trailing_slashes_exec(&chars_of(right));
    eq_ignore_case_chars(&l, &r)
}

fn has_same_index_exec(list: &Vec<String>, x: &String) -> (b: bool)
    ensures
        b == has_same_index(strings_view(list@), x@),
{
    let ghost lv = strings_view(list@);
    let mut i: usize = 0;
    while i < list.len()
        invariant
            i <= list.len(),
            lv == strings_view(list@),
            forall|j: int| 0 <= j < i ==> !same_index(#[trigger] lv[j], x@),
        decreases list.len() - i,
    {
        if pypi_indexes_match(list[i].as_str(), x.as_str()) {
            assert(same_index(lv[i as int], x@));
            return true;
        }
        i = i + 1;
    }
    false
}

/// Adds an index address, normalized, unless it is blank or already listed.
pub fn push_unique_pypi_index(indexes: &mut Vec<String>, url: &str)
    ensures
        strings_view(final(indexes)@) == with_index_address(strings_view(old(indexes)@), url@),
{
    let index = match normalize_pypi_index(url) {
        Some(i) => i,
        None => {
            return;
        },
    };
    if !has_same_index_exec(indexes, &index) {
        let ghost before = strings_view(indexes@);
        indexes.push(index);
        assert(strings_view(indexes@) =~= before.push(index@));
    }
}

/// The indexes to try, given the configured mirror.
pub fn pypi_index_candidates(mirror: Option<&str>) -> (r: Vec<String>)
    ensures
        strings_view(r@) == index_candidates(
            match mirror {
                Some(m) => Some(m@),
                None => None,
            },
        ),
{
    let mut indexes: Vec<String> = Vec::new();
    let ghost b = builtin_indexes();
    proof {
        reveal_strlit("https://mirrors.aliyun.com/pypi/simple/");
    }
    assert(strings_view(indexes@) =~= Seq::<Seq<char>>::empty());
    push_unique_pypi_index(&mut indexes, "https://mirrors.aliyun.com/pypi/simple/");
    assert(b.take(1).drop_last() =~= Seq::<Seq<char>>::empty());
    assert(with_index_addresses(Seq::empty(), Seq::empty()) == Seq::<Seq<char>>::empty());
    assert(b.take(1).last() == b[0]);
    assert(strings_view(indexes@) == with_index_addresses(Seq::empty(), b.take(1)));
    push_unique_pypi_index(&mut indexes, "https://mirrors.cloud.tencent.com/pypi/simple/");
    assert(b.take(2).drop_last() =~= b.take(1));
    assert(b.take(2).last() == b[1]);
    assert(strings_view(indexes@) == with_index_addresses(Seq::empty(), b.take(2)));
    push_unique_pypi_index(&mut indexes, "https://repo.huaweicloud.com/repository/pypi/simple/");
    assert(b.take(3).drop_last() =~= b.take(2));
    assert(b.take(3).last() == b[2]);
    assert(strings_view(indexes@) == with_index_addresses(Seq::empty(), b.take(3)));
    push_unique_pypi_index(&mut indexes, "https://mirrors.cernet.edu.cn/pypi/web/simple/");
    assert(b.take(4).drop_last() =~= b.take(3));
    assert(b.take(4).last() == b[3]);
    assert(b.take(4) =~= b);
    match mirror {
        Some(m) => push_unique_pypi_index(&mut indexes, m),
        None => {},
    }
    push_unique_pypi_index(&mut indexes, DEFAULT_PYPI_INDEX);
    indexes
}

/// Index `a` answered sooner than index `b`, or as soon and comes first.
pub open spec fn faster(lat: Seq<Option<u128>>, a: int, b: int) -> bool {
    let x = lat[a]->0;
    let y = lat[b]->0;
    x < y || (x == y && a < b)
}

/// `o` put into `s` before the first entry it is faster than.
pub open spec fn insert_by_speed(s: Seq<int>, o: int, lat: Seq<Option<u128>>) -> Seq<int>
    decreases s.len(),
{
    if s.len() == 0 {
        seq![o]
    } else if faster(lat, o, s[0]) {
        seq![o] + s
    } else {
        seq![s[0]] + insert_by_speed(s.drop_first(), o, lat)
    }
}

/// The indexes among the first `n` that answered, fastest first.
pub open spec fn by_speed(lat: Seq<Option<u128>>, n: int) -> Seq<int>
    decreases n,
{
    if n <= 0 {
        Seq::empty()
    } else {
        let prev = by_speed(lat, n - 1);
        if lat[n - 1] is Some {
            insert_by_speed(prev, n - 1, lat)
        } else {
            prev
        }
    }
}

/// The order in which the dependency sync tries the indexes, given how
/// long each took to answer (`None`: no answer): those that answered,
/// fastest first (ties in list order), then the others in list order,
/// each index once. When none answered, the list as it is.
pub open spec fn ranked_indexes(indexes: Seq<Seq<char>>, lat: Seq<Option<u128>>) -> Seq<Seq<char>> {
    let order = by_speed(lat, indexes.len() as int);
    if order.len() == 0 {
        indexes
    } else {
        with_new_indexes(with_new_indexes(Seq::empty(), order.map_values(|o: int| indexes[o])), indexes)
    }
}

/// A list of indexes of `lat`, strictly fastest first.
pub open spec fn sorted_by_speed(s: Seq<int>, lat: Seq<Option<u128>>) -> bool {
    forall|i: int, j: int| 0 <= i < j < s.len() ==> faster(lat, #[trigger] s[i], #[trigger] s[j])
}

pub proof fn lemma_insert_sorted(s: Seq<int>, o: int, lat: Seq<Option<u128>>)
    requires
        sorted_by_speed(s, lat),
        !s.contains(o),
    ensures
        sorted_by_speed(insert_by_speed(s, o, lat), lat),
        insert_by_speed(s, o, lat).to_set() == s.to_set().insert(o),
        insert_by_speed(s, o, lat).len() == s.len() + 1,
    decreases s.len(),
{
    let r = insert_by_speed(s, o, lat);
    if s.len() == 0 {
        assert(r.to_set() =~= s.to_set().insert(o)) by {
            assert forall|x: int| r.to_set().contains(x) <==> s.to_set().insert(o).contains(x) by {
                if x == o {
                    assert(r[0] == o);
                }
            }
        }
    } else if faster(lat, o, s[0]) {
        assert forall|i: int, j: int| 0 <= i < j < r.len() implies faster(lat, #[trigger] r[i], #[trigger] r[j]) by {
            if i == 0 {
                if j > 1 {
                    assert(faster(lat, s[0], s[j - 1]));
                }
                assert(r[j] == s[j - 1]);
            } else {
                assert(r[i] == s[i - 1] && r[j] == s[j - 1]);
            }
        }
        assert(r.to_set() =~= s.to_set().insert(o)) by {
            assert forall|x: int| r.to_set().contains(x) <==> s.to_set().insert(o).contains(x) by {
                if r.contains(x) {
                    let k = choose|k: int| 0 <= k < r.len() && r[k] == x;
                    if k > 0 {
                        assert(s[k - 1] == x);
                    }
                }
                if s.contains(x) {
                    let k = choose|k: int| 0 <= k < s.len() && s[k] == x;
                    assert(r[k + 1] == x);
                }
                if x == o {
                    assert(r[0] == o);
                }
            }
        }
    } else {
        let t = s.drop_first();
        assert(sorted_by_speed(t, lat)) by {
            assert forall|i: int, j: int| 0 <= i < j < t.len() implies faster(lat, #[trigger] t[i], #[trigger] t[j]) by {
                assert(t[i] == s[i + 1] && t[j] == s[j + 1]);
            }
        }
        assert(!t.contains(o)) by {
            if t.contains(o) {
                let k = choose|k: int| 0 <= k < t.len() && t[k] == o;
                assert(s[k + 1] == o);
            }
        }
        lemma_insert_sorted(t, o, lat);
        let rt = insert_by_speed(t, o, lat);
        assert(r == seq![s[0]] + rt);
        // s[0] is faster than everything in rt: the rest of s, and o.
        assert forall|k: int| 0 <= k < rt.len() implies faster(lat, s[0], #[trigger] rt[k]) by {
            assert(rt.to_set().contains(rt[k]));
            assert(t.to_set().insert(o).contains(rt[k]));
            if rt[k] == o {
                assert(s[0] != o);
                assert(!faster(lat, o, s[0]));
            } else {
                assert(t.contains(rt[k]));
                let m = choose|m: int| 0 <= m < t.len() && t[m] == rt[k];
                assert(faster(lat, s[0], s[m + 1]));
            }
        }
        assert forall|i: int, j: int| 0 <= i < j < r.len() implies faster(lat, #[trigger] r[i], #[trigger] r[j]) by {
            if i == 0 {
                assert(r[j] == rt[j - 1]);
            } else {
                assert(r[i] == rt[i - 1] && r[j] == rt[j - 1]);
            }
        }
        assert(r.to_set() =~= s.to_set().insert(o)) by {
            assert forall|x: int| r.to_set().contains(x) <==> s.to_set().insert(o).contains(x) by {
                if r.contains(x) {
                    let k = choose|k: int| 0 <= k < r.len() && r[k] == x;
                    if k > 0 {
                        assert(rt[k - 1] == x);
                        assert(rt.to_set().contains(x));
                        if x != o {
                            assert(t.contains(x));
                            let m = choose|m: int| 0 <= m < t.len() && t[m] == x;
                            assert(s[m + 1] == x);
                        }
                    } else {
                        assert(s[0] == x);
                    }
                }
                if s.contains(x) {
                    let k = choose|k: int| 0 <= k < s.len() && s[k] == x;
                    if k == 0 {
                        assert(r[0] == x);
                    } else {
                        assert(t[k - 1] == x);
                        assert(t.to_set().insert(o).contains(x));
                        assert(rt.to_set().contains(x));
                        let m = choose|m: int| 0 <= m < rt.len() && rt[m] == x;
                        assert(r[m + 1] == x);
                    }
                }
                if x == o {
                    assert(rt.to_set().contains(o));
                    let m = choose|m: int| 0 <= m < rt.len() && rt[m] == o;
                    assert(r[m + 1] == o);
                }
            }
        }
    }
}

/// The indexes that answered, fastest first, are exactly those that
/// answered, each once, strictly in order of speed (ties in list order).
pub proof fn lemma_by_speed_sorted(lat: Seq<Option<u128>>, n: int)
    requires
        0 <= n <= lat.len(),
    ensures
        sorted_by_speed(by_speed(lat, n), lat),
        forall|o: int| #[trigger] by_speed(lat, n).contains(o) <==> (0 <= o < n && lat[o] is Some),
        by_speed(lat, n).no_duplicates(),
    decreases n,
{
    if n > 0 {
        lemma_by_speed_sorted(lat, n - 1);
        let prev = by_speed(lat, n - 1);
        if lat[n - 1] is Some {
            assert(!prev.contains(n - 1));
            lemma_insert_sorted(prev, n - 1, lat);
            let r = by_speed(lat, n);
            assert forall|o: int| #[trigger] r.contains(o) <==> (0 <= o < n && lat[o] is Some) by {
                assert(r.to_set().contains(o) == r.contains(o));
                assert(prev.to_set().contains(o) == prev.contains(o));
            }
        }
        lemma_sorted_no_duplicates(by_speed(lat, n), lat);
    }
}

pub proof fn lemma_sorted_no_duplicates(s: Seq<int>, lat: Seq<Option<u128>>)
    requires
        sorted_by_speed(s, lat),
    ensures
        s.no_duplicates(),
{
    assert forall|i: int, j: int| 0 <= i < s.len() && 0 <= j < s.len() && i != j implies s[i] != s[j] by {
        if i < j {
            assert(faster(lat, s[i], s[j]));
        } else {
            assert(faster(lat, s[j], s[i]));
        }
    }
}

/// Where `insert_by_speed` puts `o`: before the first entry it is faster
/// than.
pub proof fn lemma_insert_position(s: Seq<int>, o: int, lat: Seq<Option<u128>>, p: int)
    requires
        0 <= p <= s.len(),
        forall|k: int| 0 <= k < p ==> !faster(lat, o, #[trigger] s[k]),
        p < s.len() ==> faster(lat, o, s[p]),
    ensures
        insert_by_speed(s, o, lat) == s.insert(p, o),
    decreases s.len(),
{
    if s.len() == 0 {
        assert(s.insert(p, o) =~= seq![o]);
    } else if p == 0 {
        assert(s.insert(p, o) =~= seq![o] + s);
    } else {
        assert forall|k: int| 0 <= k < p - 1 implies !faster(lat, o, #[trigger] s.drop_first()[k]) by {
            assert(s.drop_first()[k] == s[k + 1]);
        }
        if p < s.len() {
            assert(s.drop_first()[p - 1] == s[p]);
        }
        lemma_insert_position(s.drop_first(), o, lat, p - 1);
        assert(!faster(lat, o, s[0]));
        assert(s.insert(p, o) =~= seq![s[0]] + s.drop_first().insert(p - 1, o));
    }
}

fn faster_exec(lat: &Vec<Option<u128>>, a: usize, b: usize) -> (r: bool)
    requires
        a < lat.len(),
        b < lat.len(),
        lat@[a as int] is Some,
        lat@[b as int] is Some,
    ensures
        r == faster(lat@, a as int, b as int),
{
    let x = lat[a].unwrap();
    let y = lat[b].unwrap();
    x < y || (x == y && a < b)
}

/// `indexes[o]` for each `o`.
pub open spec fn indexes_at(indexes: Seq<Seq<char>>, order: Seq<int>) -> Seq<Seq<char>> {
    order.map_values(|o: int| indexes[o])
}

fn append_new_indexes(ranked: &mut Vec<String>, xs: &Vec<String>)
    ensures
        strings_view(final(ranked)@) == with_new_indexes(strings_view(old(ranked)@), strings_view(xs@)),
{
    let ghost start = strings_view(ranked@);
    let ghost xv = strings_view(xs@);
    let mut i: usize = 0;
    while i < xs.len()
        invariant
            i <= xs.len(),
            xv == strings_view(xs@),
            strings_view(ranked@) == with_new_indexes(start, xv.take(i as int)),
        decreases xs.len() - i,
    {
        assert(xv.take(i + 1).drop_last() =~= xv.take(i as int));
        assert(xv.take(i + 1).last() == xs@[i as int]@);
        if !has_same_index_exec(ranked, &xs[i]) {
            let ghost before = strings_view(ranked@);
            ranked.push(xs[i].clone());
            assert(strings_view(ranked@) =~= before.push(xs@[i as int]@));
        }
        i = i + 1;
    }
    assert(xv.take(xs.len() as int) =~= xv);
}

/// Orders the indexes by how fast they answered (`latencies[i]` in
/// nanoseconds for `indexes[i]`, `None` when it did not answer).
pub fn rank_pypi_indexes(indexes: &Vec<String>, latencies: &Vec<Option<u128>>) -> (r: Vec<String>)
    requires
        latencies.len() == indexes.len(),
    ensures
        strings_view(r@) == ranked_indexes(strings_view(indexes@), latencies@),
{
    let ghost lat = latencies@;
    let mut order: Vec<usize> = Vec::new();
    let mut i: usize = 0;
    while i < indexes.len()
        invariant
            i <= indexes.len() == latencies.len(),
            lat == latencies@,
            order@.map_values(|o: usize| o as int) == by_speed(lat, i as int),
            forall|k: int| 0 <= k < order.len() ==> #[trigger] order@[k] < i && lat[order@[k] as int] is Some,
        decreases indexes.len() - i,
    {
        if latencies[i].is_some() {
            let ghost prev = by_speed(lat, i as int);
            let mut p: usize = 0;
            while p < order.len() && !faster_exec(latencies, i, order[p])
                invariant
                    p <= order.len(),
                    i < latencies.len(),
                    lat == latencies@,
                    lat[i as int] is Some,
                    order@.map_values(|o: usize| o as int) == prev,
                    forall|k: int| 0 <= k < order.len() ==> #[trigger] order@[k] < i && lat[order@[k] as int] is Some,
                    forall|k: int| 0 <= k < p ==> !faster(lat, i as int, #[trigger] prev[k]),
                decreases order.len() - p,
            {
                assert(prev[p as int] == order@[p as int] as int);
                p = p + 1;
            }
            if p < order.len() {
                assert(prev[p as int] == order@[p as int] as int);
            }
            proof {
                lemma_insert_position(prev, i as int, lat, p as int);
            }
            let ghost before = order@;
            order.insert(p, i);
            assert(order@.map_values(|o: usize| o as int) =~= prev.insert(p as int, i as int));
            assert forall|k: int| 0 <= k < order.len() implies #[trigger] order@[k] < i + 1 && lat[order@[k] as int] is Some by {
                if k < p {
                    assert(order@[k] == before[k]);
                } else if k > p {
                    assert(order@[k] == before[k - 1]);
                }
            }
        }
        i = i + 1;
    }
    let ghost ord = by_speed(lat, indexes.len() as int);
    if order.len() == 0 {
        let mut all: Vec<String> = Vec::new();
        append_all(&mut all, indexes);
        return all;
    }
    let mut fastest: Vec<String> = Vec::new();
    let mut k: usize = 0;
    while k < order.len()
        invariant
            k <= order.len(),
            indexes.len() == latencies.len(),
            order@.map_values(|o: usize| o as int) == ord,
            forall|m: int| 0 <= m < order.len() ==> #[trigger] order@[m] < indexes.len(),
            strings_view(fastest@) == indexes_at(strings_view(indexes@), ord.take(k as int)),
        decreases order.len() - k,
    {
        let o = order[k];
        assert(ord[k as int] == o as int);
        let ghost before = strings_view(fastest@);
        fastest.push(indexes[o].clone());
        assert(strings_view(fastest@) =~= before.push(indexes@[o as int]@));
        k = k + 1;
        assert(indexes_at(strings_view(indexes@), ord.take(k as int)) =~= indexes_at(
            strings_view(indexes@),
            ord.take(k - 1),
        ).push(strings_view(indexes@)[o as int]));
    }
    assert(ord.take(order.len() as int) =~= ord);
    let mut ranked: Vec<String> = Vec::new();
    assert(strings_view(ranked@) =~= Seq::<Seq<char>>::empty());
    append_new_indexes(&mut ranked, &fastest);
    append_new_indexes(&mut ranked, indexes);
    ranked
}

fn append_all(out: &mut Vec<String>, xs: &Vec<String>)
    ensures
        strings_view(final(out)@) == strings_view(old(out)@) + strings_view(xs@),
{
    let ghost start = strings_view(out@);
    let mut i: usize = 0;
    while i < xs.len()
        invariant
            i <= xs.len(),
            strings_view(out@) == start + strings_view(xs@).take(i as int),
        decreases xs.len() - i,
    {
        let ghost before = strings_view(out@);
        out.push(xs[i].clone());
        assert(strings_view(out@) =~= before.push(xs@[i as int]@));
        i = i + 1;
        assert(strings_view(out@) =~= start + strings_view(xs@).take(i as int));
    }
    assert(strings_view(xs@).take(xs.len() as int) =~= strings_view(xs@));
}

/// No two entries name the same index.
pub open spec fn distinct_indexes(s: Seq<Seq<char>>) -> bool {
    forall|i: int, j: int| 0 <= i < j < s.len() ==> !same_index(#[trigger] s[i], #[trigger] s[j])
}

/// Every entry of `xs` is named by some entry of `s`.
pub open spec fn names_all(s: Seq<Seq<char>>, xs: Seq<Seq<char>>) -> bool {
    forall|k: int| 0 <= k < xs.len() ==> has_same_index(s, #[trigger] xs[k])
}

proof fn lemma_with_new_index(list: Seq<Seq<char>>, x: Seq<char>)
    ensures
        with_new_index(list, x).len() >= list.len(),
        with_new_index(list, x).take(list.len() as int) == list,
        has_same_index(with_new_index(list, x), x),
        distinct_indexes(list) ==> distinct_indexes(with_new_index(list, x)),
        forall|k: int|
            list.len() <= k < with_new_index(list, x).len() ==> #[trigger] with_new_index(list, x)[k]
                == x,
{
    let r = with_new_index(list, x);
    if has_same_index(list, x) {
        assert(r.take(list.len() as int) =~= list);
    } else {
        assert(r.take(list.len() as int) =~= list);
        assert(same_index(r[list.len() as int], x));
    }
}

proof fn lemma_has_same_index_prefix(list: Seq<Seq<char>>, r: Seq<Seq<char>>, y: Seq<char>)
    requires
        r.len() >= list.len(),
        r.take(list.len() as int) == list,
        has_same_index(list, y),
    ensures
        has_same_index(r, y),
{
    let i = choose|i: int| 0 <= i < list.len() && same_index(#[trigger] list[i], y);
    assert(r.take(list.len() as int)[i] == r[i]);
    assert(same_index(r[i], y));
}

proof fn lemma_with_new_indexes(list: Seq<Seq<char>>, xs: Seq<Seq<char>>)
    ensures
        with_new_indexes(list, xs).len() >= list.len(),
        with_new_indexes(list, xs).take(list.len() as int) == list,
        names_all(with_new_indexes(list, xs), xs),
        distinct_indexes(list) ==> distinct_indexes(with_new_indexes(list, xs)),
        forall|k: int|
            list.len() <= k < with_new_indexes(list, xs).len() ==> xs.contains(
                #[trigger] with_new_indexes(list, xs)[k],
            ),
    decreases xs.len(),
{
    let r = with_new_indexes(list, xs);
    if xs.len() == 0 {
        assert(r.take(list.len() as int) =~= list);
    } else {
        let xs0 = xs.drop_last();
        let mid = with_new_indexes(list, xs0);
        lemma_with_new_indexes(list, xs0);
        lemma_with_new_index(mid, xs.last());
        assert(r == with_new_index(mid, xs.last()));
        assert(r.take(list.len() as int) =~= list) by {
            assert forall|k: int| 0 <= k < list.len() implies r.take(list.len() as int)[k] == list[k] by {
                assert(r.take(mid.len() as int)[k] == mid[k]);
                assert(mid.take(list.len() as int)[k] == list[k]);
            }
        }
        assert forall|k: int| 0 <= k < xs.len() implies has_same_index(r, #[trigger] xs[k]) by {
            if k < xs.len() - 1 {
                assert(xs0[k] == xs[k]);
                assert(has_same_index(mid, xs0[k]));
                lemma_has_same_index_prefix(mid, r, xs[k]);
            }
        }
        assert forall|k: int| list.len() <= k < r.len() implies xs.contains(#[trigger] r[k]) by {
            if k < mid.len() {
                assert(r.take(mid.len() as int)[k] == mid[k]);
                assert(xs0.contains(mid[k]));
                let m = choose|m: int| 0 <= m < xs0.len() && xs0[m] == mid[k];
                assert(xs[m] == mid[k]);
            } else {
                assert(r[k] == xs.last());
                assert(xs[xs.len() - 1] == r[k]);
            }
        }
        if distinct_indexes(list) {
            assert(distinct_indexes(mid));
        }
    }
}

proof fn lemma_with_new_indexes_concat(list: Seq<Seq<char>>, a: Seq<Seq<char>>, b: Seq<Seq<char>>)
    ensures
        with_new_indexes(list, a + b) == with_new_indexes(with_new_indexes(list, a), b),
    decreases b.len(),
{
    if b.len() == 0 {
        assert(a + b =~= a);
    } else {
        assert((a + b).drop_last() =~= a + b.drop_last());
        assert((a + b).last() == b.last());
        lemma_with_new_indexes_concat(list, a, b.drop_last());
    }
}

proof fn lemma_with_index_addresses_distinct(list: Seq<Seq<char>>, urls: Seq<Seq<char>>)
    requires
        distinct_indexes(list),
    ensures
        distinct_indexes(with_index_addresses(list, urls)),
    decreases urls.len(),
{
    if urls.len() > 0 {
        let mid = with_index_addresses(list, urls.drop_last());
        lemma_with_index_addresses_distinct(list, urls.drop_last());
        if let Some(x) = normalized_index(urls.last()) {
            lemma_with_new_index(mid, x);
        }
    }
}

/// The candidate list never names an index twice.
pub proof fn lemma_candidates_distinct(mirror: Option<Seq<char>>)
    ensures
        distinct_indexes(index_candidates(mirror)),
{
    let base = with_index_addresses(Seq::empty(), builtin_indexes());
    lemma_with_index_addresses_distinct(Seq::empty(), builtin_indexes());
    let with_mirror = match mirror {
        Some(m) => with_index_address(base, m),
        None => base,
    };
    if let Some(m) = mirror {
        lemma_with_index_addresses_distinct(base, seq![m]);
        assert(seq![m].drop_last() =~= Seq::<Seq<char>>::empty());
    }
    lemma_with_index_addresses_distinct(with_mirror, seq!["https://pypi.org/simple/"@]);
    assert(seq!["https://pypi.org/simple/"@].drop_last() =~= Seq::<Seq<char>>::empty());
}

/// When some index answered, the ranked list starts with the one that
/// answered fastest (the first of those tied for fastest).
pub proof fn lemma_ranked_fastest_first(indexes: Seq<Seq<char>>, lat: Seq<Option<u128>>, f: int)
    requires
        lat.len() == indexes.len(),
        0 <= f < indexes.len(),
        lat[f] is Some,
        forall|j: int| 0 <= j < lat.len() && lat[j] is Some && j != f ==> faster(lat, f, j),
    ensures
        ranked_indexes(indexes, lat).len() > 0,
        ranked_indexes(indexes, lat)[0] == indexes[f],
{
    let n = indexes.len() as int;
    let order = by_speed(lat, n);
    lemma_by_speed_sorted(lat, n);
    assert(order.contains(f));
    let m = choose|m: int| 0 <= m < order.len() && order[m] == f;
    if order[0] != f {
        assert(faster(lat, order[0], order[m]));
        assert(order.contains(order[0]));
        assert(faster(lat, f, order[0]));
    }
    let ys = indexes_at(indexes, order);
    assert(ys[0] == indexes[f]);
    let r1 = with_new_indexes(Seq::empty(), ys);
    assert(ys =~= seq![ys[0]] + ys.drop_first());
    lemma_with_new_indexes_concat(Seq::empty(), seq![ys[0]], ys.drop_first());
    assert(seq![ys[0]].drop_last() =~= Seq::<Seq<char>>::empty());
    let one = with_new_indexes(Seq::empty(), seq![ys[0]]);
    assert(with_new_indexes(Seq::empty(), Seq::<Seq<char>>::empty()) == Seq::<Seq<char>>::empty());
    assert(!has_same_index(Seq::empty(), ys[0]));
    assert(one =~= seq![ys[0]]);
    lemma_with_new_indexes(one, ys.drop_first());
    assert(r1.take(1)[0] == r1[0]);
    lemma_with_new_indexes(r1, indexes);
    let r = with_new_indexes(r1, indexes);
    assert(r.take(r1.len() as int)[0] == r[0]);
    assert(ranked_indexes(indexes, lat) == r);
}

/// Ranking loses no index and brings in none: every candidate is named in
/// the result, and every entry of the result is one of the candidates.
pub proof fn lemma_ranked_keeps_every_index(indexes: Seq<Seq<char>>, lat: Seq<Option<u128>>)
    requires
        lat.len() == indexes.len(),
    ensures
        names_all(ranked_indexes(indexes, lat), indexes),
        forall|k: int|
            0 <= k < ranked_indexes(indexes, lat).len() ==> indexes.contains(
                #[trigger] ranked_indexes(indexes, lat)[k],
            ),
{
    let n = indexes.len() as int;
    let order = by_speed(lat, n);
    let r = ranked_indexes(indexes, lat);
    lemma_by_speed_sorted(lat, n);
    if order.len() == 0 {
        assert forall|k: int| 0 <= k < indexes.len() implies has_same_index(r, #[trigger] indexes[k]) by {
            assert(same_index(r[k], indexes[k]));
        }
    } else {
        let ys = indexes_at(indexes, order);
        let r1 = with_new_indexes(Seq::empty(), ys);
        lemma_with_new_indexes(Seq::empty(), ys);
        lemma_with_new_indexes(r1, indexes);
        assert forall|k: int| 0 <= k < r.len() implies indexes.contains(#[trigger] r[k]) by {
            if k < r1.len() {
                assert(r.take(r1.len() as int)[k] == r1[k]);
                assert(ys.contains(r1[k]));
                let m = choose|m: int| 0 <= m < ys.len() && ys[m] == r1[k];
                assert(order.contains(order[m]));
                assert(indexes[order[m]] == r[k]);
            }
        }
    }
}

/// The ranked list names no index twice, whenever the candidates did not
/// or some index answered.
pub proof fn lemma_ranked_each_index_once(indexes: Seq<Seq<char>>, lat: Seq<Option<u128>>)
    requires
        lat.len() == indexes.len(),
        distinct_indexes(indexes) || exists|i: int| 0 <= i < lat.len() && #[trigger] lat[i] is Some,
    ensures
        distinct_indexes(ranked_indexes(indexes, lat)),
{
    let n = indexes.len() as int;
    let order = by_speed(lat, n);
    lemma_by_speed_sorted(lat, n);
    if order.len() > 0 {
        let ys = indexes_at(indexes, order);
        let r1 = with_new_indexes(Seq::empty(), ys);
        lemma_with_new_indexes(Seq::empty(), ys);
        lemma_with_new_indexes(r1, indexes);
    } else if !distinct_indexes(indexes) {
        let i = choose|i: int| 0 <= i < lat.len() && #[trigger] lat[i] is Some;
        assert(order.contains(i));
    }
}

} // verus!
