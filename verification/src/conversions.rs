//! The list of conversions that a set of plugins offers: every (input, output)
//! pair of formats with different MIME types, one per pair of MIME types, in MIME order.
use vstd::prelude::*;
use crate::format::{FormatId, FormatSpec, PluginManifest, ManifestSpec, formats_view};
use crate::order::{str_lt, str_less, lemma_str_lt_irreflexive, lemma_str_lt_transitive, lemma_str_lt_total};
use crate::router::manifests_view;
use crate::text::str_eq;

verus! {

/// The MIME types of a pair of formats.
pub open spec fn key_of(p: (FormatSpec, FormatSpec)) -> (Seq<char>, Seq<char>) {
    (p.0.mime, p.1.mime)
}

/// Pairs of MIME types in order: by input MIME type, then by output MIME type.
pub open spec fn key_lt(a: (Seq<char>, Seq<char>), b: (Seq<char>, Seq<char>)) -> bool {
    str_lt(a.0, b.0) || (a.0 == b.0 && str_lt(a.1, b.1))
}

/// The pairs of `input` with each of `outputs` of another MIME type, in order.
pub open spec fn row(input: FormatSpec, outputs: Seq<FormatSpec>) -> Seq<(FormatSpec, FormatSpec)>
    decreases outputs.len(),
{
    if outputs.len() == 0 {
        Seq::empty()
    } else if outputs.last().mime != input.mime {
        row(input, outputs.drop_last()).push((input, outputs.last()))
    } else {
        row(input, outputs.drop_last())
    }
}

/// The rows of each of `inputs`, one after the other.
pub open spec fn grid(inputs: Seq<FormatSpec>, outputs: Seq<FormatSpec>) -> Seq<(FormatSpec, FormatSpec)>
    decreases inputs.len(),
{
    if inputs.len() == 0 {
        Seq::empty()
    } else {
        grid(inputs.drop_last(), outputs) + row(inputs.last(), outputs)
    }
}

/// The pairs that decoder `d` offers with each of `encoders` in turn.
pub open spec fn pairs_with(d: ManifestSpec, encoders: Seq<ManifestSpec>) -> Seq<(FormatSpec, FormatSpec)>
    decreases encoders.len(),
{
    if encoders.len() == 0 {
        Seq::empty()
    } else {
        pairs_with(d, encoders.drop_last()) + grid(d.input_formats, encoders.last().output_formats)
    }
}

/// The pairs of every decoder in `decoders` with every plugin in `encoders`: each
/// decoder in turn, then each encoder, then each input format, then each output format.
pub open spec fn all_pairs(decoders: Seq<ManifestSpec>, encoders: Seq<ManifestSpec>) -> Seq<(FormatSpec, FormatSpec)>
    decreases decoders.len(),
{
    if decoders.len() == 0 {
        Seq::empty()
    } else {
        all_pairs(decoders.drop_last(), encoders) + pairs_with(decoders.last(), encoders)
    }
}

/// No pair before position `j` has the MIME types of the pair at `j`.
pub open spec fn first_of_key(s: Seq<(FormatSpec, FormatSpec)>, j: int) -> bool {
    0 <= j < s.len() && forall|i: int| 0 <= i < j ==> key_of(#[trigger] s[i]) != key_of(s[j])
}

/// `x` is the pair at some position below `n` of `s`, and the first pair there with its MIME types.
pub open spec fn came_first(s: Seq<(FormatSpec, FormatSpec)>, n: int, x: (FormatSpec, FormatSpec)) -> bool {
    exists|j: int| #[trigger] first_of_key(s, j) && j < n && s[j] == x
}

/// Some pair of `r` has the MIME types `key`.
pub open spec fn key_listed(r: Seq<(FormatSpec, FormatSpec)>, key: (Seq<char>, Seq<char>)) -> bool {
    exists|k: int| 0 <= k < r.len() && key_of(#[trigger] r[k]) == key
}

/// The pairs of `r` are in strictly increasing MIME order.
pub open spec fn sorted_keys(r: Seq<(FormatSpec, FormatSpec)>) -> bool {
    forall|i: int, j: int| 0 <= i < j < r.len() ==> key_lt(key_of(#[trigger] r[i]), key_of(#[trigger] r[j]))
}

/// `r` lists the first `n` pairs of `s` without repeats: in MIME order, each pair the
/// first of `s` with its MIME types, and each pair of MIME types of `s` listed.
pub open spec fn dedup_prefix(s: Seq<(FormatSpec, FormatSpec)>, n: int, r: Seq<(FormatSpec, FormatSpec)>) -> bool {
    &&& sorted_keys(r)
    &&& forall|k: int| 0 <= k < r.len() ==> came_first(s, n, #[trigger] r[k])
    &&& forall|j: int| 0 <= j < n ==> #[trigger] key_listed(r, key_of(s[j]))
}

/// `r` lists `s` without repeats: one pair per pair of MIME types, the first such
/// pair of `s`, in MIME order.
pub open spec fn deduplicated(s: Seq<(FormatSpec, FormatSpec)>, r: Seq<(FormatSpec, FormatSpec)>) -> bool {
    dedup_prefix(s, s.len() as int, r)
}

/// The conversions that the plugins `ps` offer, as a decoder of one and an encoder of another.
pub open spec fn lists_conversions(ps: Seq<ManifestSpec>, r: Seq<(FormatSpec, FormatSpec)>) -> bool {
    deduplicated(all_pairs(ps, ps), r)
}

pub open spec fn pairs_view(v: Seq<(FormatId, FormatId)>) -> Seq<(FormatSpec, FormatSpec)> {
    v.map_values(|p: (FormatId, FormatId)| (p.0@, p.1@))
}

proof fn lemma_key_lt_irreflexive(a: (Seq<char>, Seq<char>))
    ensures
        !key_lt(a, a),
{
    lemma_str_lt_irreflexive(a.0);
    lemma_str_lt_irreflexive(a.1);
}

proof fn lemma_key_lt_transitive(a: (Seq<char>, Seq<char>), b: (Seq<char>, Seq<char>), c: (Seq<char>, Seq<char>))
    requires
        key_lt(a, b),
        key_lt(b, c),
    ensures
        key_lt(a, c),
{
    if str_lt(a.0, b.0) && str_lt(b.0, c.0) {
        lemma_str_lt_transitive(a.0, b.0, c.0);
    } else if str_lt(a.0, b.0) {
    } else if str_lt(b.0, c.0) {
    } else {
        lemma_str_lt_transitive(a.1, b.1, c.1);
    }
}

proof fn lemma_key_lt_total(a: (Seq<char>, Seq<char>), b: (Seq<char>, Seq<char>))
    requires
        a != b,
    ensures
        key_lt(a, b) || key_lt(b, a),
{
    if a.0 != b.0 {
        lemma_str_lt_total(a.0, b.0);
    } else {
        assert(a.1 != b.1);
        lemma_str_lt_total(a.1, b.1);
    }
}

/// Whether the MIME types of `a` come before those of `b`.
fn key_less(a: &(FormatId, FormatId), b: &(FormatId, FormatId)) -> (r: bool)
    ensures
        r == key_lt(key_of((a.0@, a.1@)), key_of((b.0@, b.1@))),
{
    if str_less(a.0.mime.as_str(), b.0.mime.as_str()) {
        true
    } else if str_eq(a.0.mime.as_str(), b.0.mime.as_str()) {
        str_less(a.1.mime.as_str(), b.1.mime.as_str())
    } else {
        false
    }
}

/// Whether `a` and `b` have the same MIME types.
fn key_same(a: &(FormatId, FormatId), b: &(FormatId, FormatId)) -> (r: bool)
    ensures
        r == (key_of((a.0@, a.1@)) == key_of((b.0@, b.1@))),
{
    str_eq(a.0.mime.as_str(), b.0.mime.as_str()) && str_eq(a.1.mime.as_str(), b.1.mime.as_str())
}

/// Appends the row of `input` with `outputs`.
fn push_row(input: &FormatId, outputs: &Vec<FormatId>, acc: &mut Vec<(FormatId, FormatId)>)
    ensures
        pairs_view(final(acc)@) == pairs_view(old(acc)@) + row(input@, formats_view(outputs@)),
{
    let ghost start = pairs_view(acc@);
    let mut j: usize = 0;
    while j < outputs.len()
        invariant
            j <= outputs.len(),
            pairs_view(acc@) == start + row(input@, formats_view(outputs@.take(j as int))),
        decreases outputs.len() - j,
    {
        let ghost before = pairs_view(acc@);
        proof {
            assert(formats_view(outputs@.take(j + 1)).drop_last() =~= formats_view(outputs@.take(j as int)));
            assert(formats_view(outputs@.take(j + 1)).last() == outputs@[j as int]@);
        }
        if !str_eq(input.mime.as_str(), outputs[j].mime.as_str()) {
            acc.push((input.clone(), outputs[j].clone()));
            proof {
                assert(pairs_view(acc@) =~= before.push((input@, outputs@[j as int]@)));
            }
        }
        j = j + 1;
    }
    proof {
        assert(outputs@.take(outputs@.len() as int) =~= outputs@);
    }
}

/// Appends the grid of `inputs` with `outputs`.
fn push_grid(inputs: &Vec<FormatId>, outputs: &Vec<FormatId>, acc: &mut Vec<(FormatId, FormatId)>)
    ensures
        pairs_view(final(acc)@) == pairs_view(old(acc)@) + grid(formats_view(inputs@), formats_view(outputs@)),
{
    let ghost start = pairs_view(acc@);
    let mut i: usize = 0;
    proof {
        assert(formats_view(inputs@.take(0)) =~= Seq::<FormatSpec>::empty());
        assert(start + Seq::<(FormatSpec, FormatSpec)>::empty() =~= start);
    }
    while i < inputs.len()
        invariant
            i <= inputs.len(),
            pairs_view(acc@) == start + grid(formats_view(inputs@.take(i as int)), formats_view(outputs@)),
        decreases inputs.len() - i,
    {
        let ghost before = pairs_view(acc@);
        push_row(&inputs[i], outputs, acc);
        proof {
            let ins = formats_view(inputs@.take(i + 1));
            assert(ins.drop_last() =~= formats_view(inputs@.take(i as int)));
            assert(ins.last() == inputs@[i as int]@);
            assert(pairs_view(acc@) =~= start + grid(ins, formats_view(outputs@)));
        }
        i = i + 1;
    }
    proof {
        assert(inputs@.take(inputs@.len() as int) =~= inputs@);
    }
}

/// Appends the pairs of decoder `d` with each of `encoders`.
fn push_pairs_with(d: &PluginManifest, encoders: &Vec<PluginManifest>, acc: &mut Vec<(FormatId, FormatId)>)
    ensures
        pairs_view(final(acc)@) == pairs_view(old(acc)@) + pairs_with(d@, manifests_view(encoders@)),
{
    let ghost start = pairs_view(acc@);
    let mut e: usize = 0;
    proof {
        assert(manifests_view(encoders@.take(0)) =~= Seq::<ManifestSpec>::empty());
        assert(start + Seq::<(FormatSpec, FormatSpec)>::empty() =~= start);
    }
    while e < encoders.len()
        invariant
            e <= encoders.len(),
            pairs_view(acc@) == start + pairs_with(d@, manifests_view(encoders@.take(e as int))),
        decreases encoders.len() - e,
    {
        push_grid(&d.input_formats, &encoders[e].output_formats, acc);
        proof {
            let es = manifests_view(encoders@.take(e + 1));
            assert(es.drop_last() =~= manifests_view(encoders@.take(e as int)));
            assert(es.last() == encoders@[e as int]@);
            assert(pairs_view(acc@) =~= start + pairs_with(d@, es));
        }
        e = e + 1;
    }
    proof {
        assert(encoders@.take(encoders@.len() as int) =~= encoders@);
    }
}

/// Every pair of every decoder with every encoder, in the order of [`all_pairs`].
fn collect_pairs(plugins: &Vec<PluginManifest>) -> (r: Vec<(FormatId, FormatId)>)
    ensures
        pairs_view(r@) == all_pairs(manifests_view(plugins@), manifests_view(plugins@)),
{
    let mut acc: Vec<(FormatId, FormatId)> = Vec::new();
    let mut d: usize = 0;
    proof {
        assert(manifests_view(plugins@.take(0)) =~= Seq::<ManifestSpec>::empty());
        assert(pairs_view(acc@) =~= Seq::<(FormatSpec, FormatSpec)>::empty());
    }
    while d < plugins.len()
        invariant
            d <= plugins.len(),
            pairs_view(acc@) == all_pairs(manifests_view(plugins@.take(d as int)), manifests_view(plugins@)),
        decreases plugins.len() - d,
    {
        push_pairs_with(&plugins[d], plugins, &mut acc);
        proof {
            let ds = manifests_view(plugins@.take(d + 1));
            assert(ds.drop_last() =~= manifests_view(plugins@.take(d as int)));
            assert(ds.last() == plugins@[d as int]@);
        }
        d = d + 1;
    }
    proof {
        assert(plugins@.take(plugins@.len() as int) =~= plugins@);
    }
    acc
}

/// A pair whose MIME types are already listed changes nothing.
proof fn lemma_dedup_seen(s: Seq<(FormatSpec, FormatSpec)>, n: int, r: Seq<(FormatSpec, FormatSpec)>, p: int)
    requires
        dedup_prefix(s, n, r),
        0 <= n < s.len(),
        0 <= p < r.len(),
        key_of(r[p]) == key_of(s[n]),
    ensures
        dedup_prefix(s, n + 1, r),
{
    assert forall|k: int| 0 <= k < r.len() implies came_first(s, n + 1, #[trigger] r[k]) by {
        assert(came_first(s, n, r[k]));
    }
    assert(key_listed(r, key_of(s[n])));
}

/// A pair with MIME types not listed yet is the first of its kind.
proof fn lemma_dedup_first(s: Seq<(FormatSpec, FormatSpec)>, n: int, r: Seq<(FormatSpec, FormatSpec)>)
    requires
        dedup_prefix(s, n, r),
        0 <= n < s.len(),
        !key_listed(r, key_of(s[n])),
    ensures
        first_of_key(s, n),
{
    assert forall|i: int| 0 <= i < n implies key_of(#[trigger] s[i]) != key_of(s[n]) by {
        assert(key_listed(r, key_of(s[i])));
    }
}

/// Inserting a new pair where it belongs keeps the order.
proof fn lemma_insert_sorted(r: Seq<(FormatSpec, FormatSpec)>, p: int, x: (FormatSpec, FormatSpec))
    requires
        sorted_keys(r),
        0 <= p <= r.len(),
        forall|i: int| 0 <= i < p ==> key_lt(key_of(#[trigger] r[i]), key_of(x)),
        p < r.len() ==> key_lt(key_of(x), key_of(r[p])),
    ensures
        sorted_keys(r.insert(p, x)),
{
    let nv = r.insert(p, x);
    assert forall|i: int, j: int| 0 <= i < j < nv.len() implies key_lt(key_of(#[trigger] nv[i]), key_of(#[trigger] nv[j])) by {
        if j < p {
            assert(nv[i] == r[i] && nv[j] == r[j]);
        } else if j == p {
            assert(nv[i] == r[i]);
        } else if i < p {
            assert(nv[i] == r[i] && nv[j] == r[j - 1]);
            lemma_key_lt_transitive(key_of(r[i]), key_of(x), key_of(r[p]));
            if j - 1 > p {
                lemma_key_lt_transitive(key_of(r[i]), key_of(r[p]), key_of(r[j - 1]));
            }
        } else if i == p {
            assert(nv[j] == r[j - 1]);
            if j - 1 > p {
                lemma_key_lt_transitive(key_of(x), key_of(r[p]), key_of(r[j - 1]));
            }
        } else {
            assert(nv[i] == r[i - 1] && nv[j] == r[j - 1]);
        }
    }
}

/// Inserting the `n`th pair, new in kind, where it belongs keeps `r` a deduplication.
proof fn lemma_dedup_insert(s: Seq<(FormatSpec, FormatSpec)>, n: int, r: Seq<(FormatSpec, FormatSpec)>, p: int)
    requires
        dedup_prefix(s, n, r),
        0 <= n < s.len(),
        0 <= p <= r.len(),
        forall|i: int| 0 <= i < p ==> key_lt(key_of(#[trigger] r[i]), key_of(s[n])),
        p < r.len() ==> !key_lt(key_of(r[p]), key_of(s[n])) && key_of(r[p]) != key_of(s[n]),
    ensures
        dedup_prefix(s, n + 1, r.insert(p, s[n])),
{
    let x = s[n];
    if p < r.len() {
        lemma_key_lt_total(key_of(r[p]), key_of(x));
    }
    assert forall|k: int| 0 <= k < r.len() implies key_of(#[trigger] r[k]) != key_of(x) by {
        if k < p {
            lemma_key_lt_irreflexive(key_of(x));
        } else if k > p {
            lemma_key_lt_transitive(key_of(x), key_of(r[p]), key_of(r[k]));
            lemma_key_lt_irreflexive(key_of(x));
        }
    }
    lemma_dedup_first(s, n, r);
    lemma_insert_sorted(r, p, x);
    let nv = r.insert(p, x);
    assert forall|k: int| 0 <= k < nv.len() implies came_first(s, n + 1, #[trigger] nv[k]) by {
        if k < p {
            assert(nv[k] == r[k]);
            assert(came_first(s, n, r[k]));
        } else if k == p {
            assert(nv[k] == s[n]);
            assert(first_of_key(s, n));
        } else {
            assert(nv[k] == r[k - 1]);
            assert(came_first(s, n, r[k - 1]));
        }
    }
    assert forall|j: int| 0 <= j < n + 1 implies #[trigger] key_listed(nv, key_of(s[j])) by {
        if j == n {
            assert(nv[p] == x);
        } else {
            assert(key_listed(r, key_of(s[j])));
            let k = choose|k: int| 0 <= k < r.len() && key_of(#[trigger] r[k]) == key_of(s[j]);
            if k < p {
                assert(nv[k] == r[k]);
            } else {
                assert(nv[k + 1] == r[k]);
            }
        }
    }
}

/// Keeps the first pair of each pair of MIME types and orders the result by MIME types.
pub fn deduplicate_pairs(pairs: Vec<(FormatId, FormatId)>) -> (r: Vec<(FormatId, FormatId)>)
    ensures
        deduplicated(pairs_view(pairs@), pairs_view(r@)),
{
    let ghost s = pairs_view(pairs@);
    let mut r: Vec<(FormatId, FormatId)> = Vec::new();
    let mut n: usize = 0;
    while n < pairs.len()
        invariant
            n <= pairs.len(),
            s == pairs_view(pairs@),
            dedup_prefix(s, n as int, pairs_view(r@)),
        decreases pairs.len() - n,
    {
        let x = &pairs[n];
        let ghost rv = pairs_view(r@);
        // The first position whose pair does not come before `x`.
        let mut p: usize = 0;
        while p < r.len() && key_less(&r[p], x)
            invariant
                p <= r@.len(),
                rv == pairs_view(r@),
                s[n as int] == (x.0@, x.1@),
                forall|i: int| 0 <= i < p ==> key_lt(key_of(#[trigger] rv[i]), key_of(s[n as int])),
            decreases r@.len() - p,
        {
            p = p + 1;
        }
        if p < r.len() && key_same(&r[p], x) {
            proof {
                lemma_dedup_seen(s, n as int, rv, p as int);
            }
        } else {
            proof {
                lemma_dedup_insert(s, n as int, rv, p as int);
            }
            r.insert(p, (x.0.clone(), x.1.clone()));
            proof {
                assert(pairs_view(r@) =~= rv.insert(p as int, s[n as int]));
            }
        }
        n = n + 1;
    }
    r
}

/// The conversions the plugins offer: see [`lists_conversions`].
pub fn conversions_of(plugins: &Vec<PluginManifest>) -> (r: Vec<(FormatId, FormatId)>)
    ensures
        lists_conversions(manifests_view(plugins@), pairs_view(r@)),
{
    deduplicate_pairs(collect_pairs(plugins))
}

} // verus!
