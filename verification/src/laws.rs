//! What holds of the engine across its operations: detection, routing, the list of
//! conversions, the plugin registry, the history and the orchestrator.
use vstd::prelude::*;
use crate::conversions::{
    all_pairs, pairs_with, grid, row, key_of, key_lt, lists_conversions, came_first, first_of_key, key_listed,
};
use crate::detector::{first_magic_match, signature_matches, DetectorSpec, insert_extensions, extension_format};
use crate::text::lowercase;
use crate::format::{FormatId, FormatSpec, ManifestSpec, decodes, encodes};
use crate::catalog::unique_formats;
use crate::integrity::{blake3_hex, IntegrityChecker};
use crate::desktop::{
    format_listing, ordered_by_name, no_neighbour_repeats, sources_of, sort_by_name, lemma_sort_ordered, lemma_dedup,
};
use crate::order::{str_lt, lemma_str_lt_irreflexive};
use crate::queue::{
    QueueItem, QueueItemStatus, count_status, first_pending, first_with_id, in_priority_order, runs_before, lemma_first_pending,
    lemma_first_with_id,
};
use crate::queue_laws::lemma_count_push;
use crate::registry::{index_for, mime_hits, formats_in, first_id, Direction, lemma_first_id};
use crate::router::{
    PathSpec, best_of, best_path, outranks, candidates, make_path, decoders_of, encoders_of, ir_type_of, min_u8, priority_of,
    lemma_candidates_nonempty,
};
use crate::state::{HistoryEntry, most_recent, HISTORY_LIMIT};
use crate::orchestrator::{started, completed, failed};

verus! {

// ---------------------------------------------------------------- detection

/// A signature registered later never shadows an earlier one: where some registered
/// signature already matches a header, adding one changes nothing; where none did,
/// the new signature decides.
pub proof fn law_new_signature_never_shadows(
    magic: Seq<(usize, Seq<u8>, FormatSpec)>,
    entry: (usize, Seq<u8>, FormatSpec),
    header: Seq<u8>,
)
    ensures
        first_magic_match(magic, header) is Some ==> first_magic_match(magic.push(entry), header) == first_magic_match(
            magic,
            header,
        ),
        first_magic_match(magic, header) is None && signature_matches(header, entry.0 as int, entry.1)
            ==> first_magic_match(magic.push(entry), header) == Some(entry.2),
        first_magic_match(magic, header) is None && !signature_matches(header, entry.0 as int, entry.1)
            ==> first_magic_match(magic.push(entry), header) is None,
    decreases magic.len(),
{
    if magic.len() == 0 {
        assert(magic.push(entry)[0] == entry);
        assert(magic.push(entry).drop_first() =~= Seq::<(usize, Seq<u8>, FormatSpec)>::empty());
        assert(first_magic_match(magic.push(entry).drop_first(), header) is None);
    } else {
        assert(magic.push(entry)[0] == magic[0]);
        assert(magic.push(entry).drop_first() =~= magic.drop_first().push(entry));
        law_new_signature_never_shadows(magic.drop_first(), entry, header);
    }
}

/// Some extension of `exts` is `x` once both are lower-cased.
pub open spec fn names_extension(exts: Seq<Seq<char>>, x: Seq<char>) -> bool {
    exists|i: int| 0 <= i < exts.len() && lowercase(#[trigger] exts[i]) == lowercase(x)
}

proof fn lemma_insert_extensions(m: Map<Seq<char>, FormatSpec>, exts: Seq<Seq<char>>, f: FormatSpec, x: Seq<char>)
    ensures
        names_extension(exts, x) ==> insert_extensions(m, exts, f).dom().contains(lowercase(x)) && insert_extensions(
            m,
            exts,
            f,
        )[lowercase(x)] == f,
        !names_extension(exts, x) ==> insert_extensions(m, exts, f).dom().contains(lowercase(x)) == m.dom().contains(
            lowercase(x),
        ) && (m.dom().contains(lowercase(x)) ==> insert_extensions(m, exts, f)[lowercase(x)] == m[lowercase(x)]),
    decreases exts.len(),
{
    if exts.len() > 0 {
        let e0 = exts.drop_last();
        lemma_insert_extensions(m, e0, f, x);
        if names_extension(exts, x) {
            let i = choose|i: int| 0 <= i < exts.len() && lowercase(#[trigger] exts[i]) == lowercase(x);
            if i < e0.len() {
                assert(e0[i] == exts[i]);
            }
        }
        if names_extension(e0, x) {
            let i = choose|i: int| 0 <= i < e0.len() && lowercase(#[trigger] e0[i]) == lowercase(x);
            assert(e0[i] == exts[i]);
        }
        if lowercase(exts.last()) == lowercase(x) {
            assert(lowercase(exts[exts.len() - 1]) == lowercase(x));
        }
    }
}

/// Registering a format's extensions sends every extension that is one of them (case
/// aside) to that format, later registrations winning, and leaves the lookup of every
/// other extension as it was; the magic signatures are untouched.
pub proof fn law_register_extensions_redirects(d: DetectorSpec, f: FormatSpec, x: Seq<char>)
    ensures
        ({
            let d2 = DetectorSpec { magic: d.magic, extensions: insert_extensions(d.extensions, f.extensions, f) };
            &&& names_extension(f.extensions, x) ==> extension_format(d2, Some(x)) == Some(f)
            &&& !names_extension(f.extensions, x) ==> extension_format(d2, Some(x)) == extension_format(d, Some(x))
            &&& d2.magic == d.magic
        }),
{
    lemma_insert_extensions(d.extensions, f.extensions, f, x);
}

// ---------------------------------------------------------------- routing

/// The path is that of one of the decoders with one of the encoders.
pub open spec fn from_some_pair(ds: Seq<ManifestSpec>, es: Seq<ManifestSpec>, ir: Seq<char>, c: PathSpec) -> bool {
    exists|i: int, j: int| #![trigger ds[i], es[j]] 0 <= i < ds.len() && 0 <= j < es.len() && c == make_path(ds[i], es[j], ir)
}

/// Every candidate path decodes with one of the decoders and encodes with one of the
/// encoders, at the lower of their fidelities.
pub proof fn law_candidates_pair_decoders_with_encoders(ds: Seq<ManifestSpec>, es: Seq<ManifestSpec>, ir: Seq<char>)
    ensures
        forall|k: int| 0 <= k < candidates(ds, es, ir).len() ==> from_some_pair(ds, es, ir, #[trigger] candidates(ds, es, ir)[k]),
    decreases ds.len(),
{
    if ds.len() > 0 {
        let t = ds.drop_last();
        let a = candidates(t, es, ir);
        let b = es.map_values(|e: ManifestSpec| make_path(ds.last(), e, ir));
        law_candidates_pair_decoders_with_encoders(t, es, ir);
        assert forall|k: int| 0 <= k < candidates(ds, es, ir).len() implies from_some_pair(
            ds,
            es,
            ir,
            #[trigger] candidates(ds, es, ir)[k],
        ) by {
            if k < a.len() {
                assert(candidates(ds, es, ir)[k] == a[k]);
                assert(from_some_pair(t, es, ir, a[k]));
                let (i, j) = choose|i: int, j: int|
                    #![trigger t[i], es[j]]
                    0 <= i < t.len() && 0 <= j < es.len() && a[k] == make_path(t[i], es[j], ir);
                assert(t[i] == ds[i]);
                assert(a[k] == make_path(ds[i], es[j], ir));
            } else {
                let j = k - a.len();
                let i = ds.len() - 1;
                assert(candidates(ds, es, ir)[k] == b[j]);
                assert(b[j] == make_path(ds[i], es[j], ir));
            }
        }
    }
}

/// The chosen path is the first of highest rank: it is a candidate, no candidate
/// outranks it, and it outranks every candidate before it.
pub proof fn law_best_path_is_first_of_highest_rank(ps: Seq<ManifestSpec>, s: Seq<PathSpec>)
    requires
        s.len() > 0,
    ensures
        exists|j: int|
            0 <= j < s.len() && s[j] == best_of(ps, s) && (forall|k: int| 0 <= k < s.len() ==> !outranks(ps, #[trigger] s[k], s[j]))
                && (forall|k: int| 0 <= k < j ==> outranks(ps, s[j], #[trigger] s[k])),
    decreases s.len(),
{
    if s.len() == 1 {
        assert(s[0] == best_of(ps, s));
        assert(forall|k: int| 0 <= k < s.len() ==> !outranks(ps, #[trigger] s[k], s[0]));
    } else {
        let t = s.drop_last();
        law_best_path_is_first_of_highest_rank(ps, t);
        let j = choose|j: int|
            0 <= j < t.len() && t[j] == best_of(ps, t) && (forall|k: int| 0 <= k < t.len() ==> !outranks(ps, #[trigger] t[k], t[j]))
                && (forall|k: int| 0 <= k < j ==> outranks(ps, t[j], #[trigger] t[k]));
        let x = s.last();
        if outranks(ps, x, t[j]) {
            let n = s.len() - 1;
            assert(s[n] == best_of(ps, s));
            assert forall|k: int| 0 <= k < s.len() implies !outranks(ps, #[trigger] s[k], s[n]) by {
                if k < n {
                    assert(s[k] == t[k]);
                    assert(!outranks(ps, t[k], t[j]));
                }
            }
            assert forall|k: int| 0 <= k < n implies outranks(ps, s[n], #[trigger] s[k]) by {
                assert(s[k] == t[k]);
                assert(!outranks(ps, t[k], t[j]));
            }
        } else {
            assert(s[j] == t[j]);
            assert forall|k: int| 0 <= k < s.len() implies !outranks(ps, #[trigger] s[k], s[j]) by {
                if k < s.len() - 1 {
                    assert(s[k] == t[k]);
                }
            }
            assert forall|k: int| 0 <= k < j implies outranks(ps, s[j], #[trigger] s[k]) by {
                assert(s[k] == t[k]);
            }
        }
    }
}

proof fn lemma_pair_is_candidate(ds: Seq<ManifestSpec>, es: Seq<ManifestSpec>, ir: Seq<char>, i: int, j: int)
    requires
        0 <= i < ds.len(),
        0 <= j < es.len(),
    ensures
        exists|k: int|
            0 <= k < candidates(ds, es, ir).len() && #[trigger] candidates(ds, es, ir)[k] == make_path(ds[i], es[j], ir),
    decreases ds.len(),
{
    let t = ds.drop_last();
    let a = candidates(t, es, ir);
    let b = es.map_values(|e: ManifestSpec| make_path(ds.last(), e, ir));
    let c = candidates(ds, es, ir);
    assert(c == a + b);
    if i == ds.len() - 1 {
        assert(c[a.len() + j] == b[j]);
    } else {
        lemma_pair_is_candidate(t, es, ir, i, j);
        assert(t[i] == ds[i]);
        let k = choose|k: int| 0 <= k < a.len() && #[trigger] a[k] == make_path(t[i], es[j], ir);
        assert(c[k] == a[k]);
    }
}

/// Where some plugin decodes the source and some plugin encodes the target, the chosen
/// path decodes with one of those decoders and encodes with one of those encoders, in
/// one step, at the lower of their two fidelities; no decoder–encoder pair reaches a
/// higher fidelity, and no pair that reaches the same has a decoder of higher priority.
pub proof fn law_best_path_has_highest_fidelity(ps: Seq<ManifestSpec>, source: Seq<char>, target: Seq<char>)
    requires
        decoders_of(ps, source).len() > 0,
        encoders_of(ps, target).len() > 0,
    ensures
        ({
            let ds = decoders_of(ps, source);
            let es = encoders_of(ps, target);
            let p = best_path(ps, source, target);
            &&& from_some_pair(ds, es, ir_type_of(source), p)
            &&& p.steps == 1
            &&& p.ir_type == ir_type_of(source)
            &&& forall|i: int, j: int|
                #![trigger ds[i], es[j]]
                0 <= i < ds.len() && 0 <= j < es.len() ==> min_u8(ds[i].fidelity_score, es[j].fidelity_score)
                    <= p.fidelity_estimate
            &&& forall|i: int, j: int|
                #![trigger ds[i], es[j]]
                0 <= i < ds.len() && 0 <= j < es.len() && min_u8(ds[i].fidelity_score, es[j].fidelity_score)
                    == p.fidelity_estimate ==> priority_of(ps, ds[i].id) <= priority_of(ps, p.decode_plugin)
        }),
{
    let ds = decoders_of(ps, source);
    let es = encoders_of(ps, target);
    let ir = ir_type_of(source);
    let s = candidates(ds, es, ir);
    lemma_candidates_nonempty(ds, es, ir);
    law_best_path_is_first_of_highest_rank(ps, s);
    law_candidates_pair_decoders_with_encoders(ds, es, ir);
    let jb = choose|j: int|
        0 <= j < s.len() && s[j] == best_of(ps, s) && (forall|k: int| 0 <= k < s.len() ==> !outranks(ps, #[trigger] s[k], s[j]))
            && (forall|k: int| 0 <= k < j ==> outranks(ps, s[j], #[trigger] s[k]));
    let p = s[jb];
    assert(from_some_pair(ds, es, ir, s[jb]));
    assert forall|i: int, j: int|
        #![trigger ds[i], es[j]]
        0 <= i < ds.len() && 0 <= j < es.len() implies min_u8(ds[i].fidelity_score, es[j].fidelity_score)
            <= p.fidelity_estimate && (min_u8(ds[i].fidelity_score, es[j].fidelity_score) == p.fidelity_estimate
            ==> priority_of(ps, ds[i].id) <= priority_of(ps, p.decode_plugin)) by {
        lemma_pair_is_candidate(ds, es, ir, i, j);
        let k = choose|k: int| 0 <= k < s.len() && #[trigger] s[k] == make_path(ds[i], es[j], ir);
        assert(!outranks(ps, s[k], s[jb]));
    }
}

/// Registering a plugin that decodes the source and encodes the target with a fidelity
/// above that of the path chosen so far makes the chosen path reach exactly that
/// fidelity: the earlier choice is not kept.
pub proof fn law_better_plugin_reroutes(ps: Seq<ManifestSpec>, m: ManifestSpec, source: Seq<char>, target: Seq<char>)
    requires
        decoders_of(ps, source).len() > 0,
        encoders_of(ps, target).len() > 0,
        decodes(m, source),
        encodes(m, target),
        m.fidelity_score > best_path(ps, source, target).fidelity_estimate,
    ensures
        best_path(ps.push(m), source, target).fidelity_estimate == m.fidelity_score,
{
    let q = ps.push(m);
    let ds0 = decoders_of(ps, source);
    let es0 = encoders_of(ps, target);
    reveal_with_fuel(Seq::filter, 1);
    assert(q.drop_last() =~= ps);
    assert(decoders_of(q, source) == ds0.push(m));
    assert(encoders_of(q, target) == es0.push(m));
    let ds = decoders_of(q, source);
    let es = encoders_of(q, target);
    law_best_path_has_highest_fidelity(ps, source, target);
    law_best_path_has_highest_fidelity(q, source, target);
    let ir = ir_type_of(source);
    let p = best_path(q, source, target);
    let n = ds.len() - 1;
    let k = es.len() - 1;
    assert(ds[n] == m && es[k] == m);
    assert(min_u8(ds[n].fidelity_score, es[k].fidelity_score) <= p.fidelity_estimate);
    let (i, j) = choose|i: int, j: int|
        #![trigger ds[i], es[j]]
        0 <= i < ds.len() && 0 <= j < es.len() && p == make_path(ds[i], es[j], ir);
    if i < n && j < k {
        assert(ds[i] == ds0[i] && es[j] == es0[j]);
        assert(min_u8(ds0[i].fidelity_score, es0[j].fidelity_score) <= best_path(ps, source, target).fidelity_estimate);
    }
}

/// No two plugins share an ID.
pub open spec fn ids_distinct(ps: Seq<ManifestSpec>) -> bool {
    forall|i: int, j: int| 0 <= i < ps.len() && 0 <= j < ps.len() && i != j ==> #[trigger] ps[i].id != #[trigger] ps[j].id
}

proof fn lemma_priority_of_own(ps: Seq<ManifestSpec>, k: int)
    requires
        ids_distinct(ps),
        0 <= k < ps.len(),
    ensures
        priority_of(ps, ps[k].id) == ps[k].priority,
    decreases ps.len(),
{
    if k > 0 {
        let t = ps.drop_first();
        assert(ps[0].id != ps[k].id);
        assert forall|i: int, j: int| 0 <= i < t.len() && 0 <= j < t.len() && i != j implies #[trigger] t[i].id
            != #[trigger] t[j].id by {
            assert(t[i] == ps[i + 1] && t[j] == ps[j + 1]);
        }
        assert(t[k - 1] == ps[k]);
        lemma_priority_of_own(t, k - 1);
    }
}

proof fn lemma_filtered_priority(ps: Seq<ManifestSpec>, qs: Seq<ManifestSpec>, pred: spec_fn(ManifestSpec) -> bool, i: int)
    requires
        ids_distinct(ps),
        qs == ps.filter(pred),
        0 <= i < qs.len(),
    ensures
        priority_of(ps, qs[i].id) == qs[i].priority,
{
    assert(qs.contains(qs[i]));
    ps.lemma_filter_contains_rev(pred, qs[i]);
    let k = choose|k: int| 0 <= k < ps.len() && ps[k] == qs[i];
    lemma_priority_of_own(ps, k);
}

/// Where no two plugins share an ID, among the decoder–encoder pairs that reach the
/// chosen path's fidelity none has a decoder of higher priority than the chosen
/// path's decoder.
pub proof fn law_best_path_prefers_priority(ps: Seq<ManifestSpec>, source: Seq<char>, target: Seq<char>)
    requires
        ids_distinct(ps),
        decoders_of(ps, source).len() > 0,
        encoders_of(ps, target).len() > 0,
    ensures
        ({
            let ds = decoders_of(ps, source);
            let es = encoders_of(ps, target);
            let p = best_path(ps, source, target);
            exists|a: int|
                #![trigger ds[a]]
                0 <= a < ds.len() && ds[a].id == p.decode_plugin && forall|i: int, j: int|
                    #![trigger ds[i], es[j]]
                    0 <= i < ds.len() && 0 <= j < es.len() && min_u8(ds[i].fidelity_score, es[j].fidelity_score)
                        == p.fidelity_estimate ==> ds[i].priority <= ds[a].priority
        }),
{
    let ds = decoders_of(ps, source);
    let es = encoders_of(ps, target);
    let ir = ir_type_of(source);
    let p = best_path(ps, source, target);
    law_best_path_has_highest_fidelity(ps, source, target);
    let (a, b) = choose|i: int, j: int|
        #![trigger ds[i], es[j]]
        0 <= i < ds.len() && 0 <= j < es.len() && p == make_path(ds[i], es[j], ir);
    lemma_filtered_priority(ps, ds, |m: ManifestSpec| decodes(m, source), a);
    assert forall|i: int, j: int|
        #![trigger ds[i], es[j]]
        0 <= i < ds.len() && 0 <= j < es.len() && min_u8(ds[i].fidelity_score, es[j].fidelity_score)
            == p.fidelity_estimate implies ds[i].priority <= ds[a].priority by {
        lemma_filtered_priority(ps, ds, |m: ManifestSpec| decodes(m, source), i);
    }
}

// ---------------------------------------------------------------- the list of conversions

proof fn lemma_row_mimes_differ(input: FormatSpec, outputs: Seq<FormatSpec>)
    ensures
        forall|k: int| 0 <= k < row(input, outputs).len() ==> (#[trigger] row(input, outputs)[k]).0.mime != row(
            input,
            outputs,
        )[k].1.mime,
    decreases outputs.len(),
{
    if outputs.len() > 0 {
        lemma_row_mimes_differ(input, outputs.drop_last());
        let a = row(input, outputs.drop_last());
        assert forall|k: int| 0 <= k < row(input, outputs).len() implies (#[trigger] row(input, outputs)[k]).0.mime
            != row(input, outputs)[k].1.mime by {
            if k < a.len() {
                assert(row(input, outputs)[k] == a[k]);
            }
        }
    }
}

proof fn lemma_grid_mimes_differ(inputs: Seq<FormatSpec>, outputs: Seq<FormatSpec>)
    ensures
        forall|k: int| 0 <= k < grid(inputs, outputs).len() ==> (#[trigger] grid(inputs, outputs)[k]).0.mime != grid(
            inputs,
            outputs,
        )[k].1.mime,
    decreases inputs.len(),
{
    if inputs.len() > 0 {
        lemma_grid_mimes_differ(inputs.drop_last(), outputs);
        lemma_row_mimes_differ(inputs.last(), outputs);
        let a = grid(inputs.drop_last(), outputs);
        let b = row(inputs.last(), outputs);
        assert forall|k: int| 0 <= k < grid(inputs, outputs).len() implies (#[trigger] grid(inputs, outputs)[k]).0.mime
            != grid(inputs, outputs)[k].1.mime by {
            if k < a.len() {
                assert(grid(inputs, outputs)[k] == a[k]);
            } else {
                assert(grid(inputs, outputs)[k] == b[k - a.len()]);
            }
        }
    }
}

proof fn lemma_pairs_with_mimes_differ(d: ManifestSpec, es: Seq<ManifestSpec>)
    ensures
        forall|k: int| 0 <= k < pairs_with(d, es).len() ==> (#[trigger] pairs_with(d, es)[k]).0.mime != pairs_with(
            d,
            es,
        )[k].1.mime,
    decreases es.len(),
{
    if es.len() > 0 {
        lemma_pairs_with_mimes_differ(d, es.drop_last());
        lemma_grid_mimes_differ(d.input_formats, es.last().output_formats);
        let a = pairs_with(d, es.drop_last());
        let b = grid(d.input_formats, es.last().output_formats);
        assert forall|k: int| 0 <= k < pairs_with(d, es).len() implies (#[trigger] pairs_with(d, es)[k]).0.mime
            != pairs_with(d, es)[k].1.mime by {
            if k < a.len() {
                assert(pairs_with(d, es)[k] == a[k]);
            } else {
                assert(pairs_with(d, es)[k] == b[k - a.len()]);
            }
        }
    }
}

proof fn lemma_all_pairs_mimes_differ(ds: Seq<ManifestSpec>, es: Seq<ManifestSpec>)
    ensures
        forall|k: int| 0 <= k < all_pairs(ds, es).len() ==> (#[trigger] all_pairs(ds, es)[k]).0.mime != all_pairs(
            ds,
            es,
        )[k].1.mime,
    decreases ds.len(),
{
    if ds.len() > 0 {
        lemma_all_pairs_mimes_differ(ds.drop_last(), es);
        lemma_pairs_with_mimes_differ(ds.last(), es);
        let a = all_pairs(ds.drop_last(), es);
        let b = pairs_with(ds.last(), es);
        assert forall|k: int| 0 <= k < all_pairs(ds, es).len() implies (#[trigger] all_pairs(ds, es)[k]).0.mime
            != all_pairs(ds, es)[k].1.mime by {
            if k < a.len() {
                assert(all_pairs(ds, es)[k] == a[k]);
            } else {
                assert(all_pairs(ds, es)[k] == b[k - a.len()]);
            }
        }
    }
}

/// The list of conversions never converts a MIME type to itself, and never lists a
/// pair of MIME types twice.
pub proof fn law_conversions_distinct(ps: Seq<ManifestSpec>, r: Seq<(FormatSpec, FormatSpec)>)
    requires
        lists_conversions(ps, r),
    ensures
        forall|k: int| 0 <= k < r.len() ==> (#[trigger] r[k]).0.mime != r[k].1.mime,
        forall|i: int, j: int| 0 <= i < r.len() && 0 <= j < r.len() && i != j ==> key_of(#[trigger] r[i]) != key_of(
            #[trigger] r[j],
        ),
{
    let s = all_pairs(ps, ps);
    lemma_all_pairs_mimes_differ(ps, ps);
    assert forall|k: int| 0 <= k < r.len() implies (#[trigger] r[k]).0.mime != r[k].1.mime by {
        assert(came_first(s, s.len() as int, r[k]));
        let j = choose|j: int| #[trigger] first_of_key(s, j) && j < s.len() && s[j] == r[k];
    }
    assert forall|i: int, j: int| 0 <= i < r.len() && 0 <= j < r.len() && i != j implies key_of(#[trigger] r[i])
        != key_of(#[trigger] r[j]) by {
        lemma_str_lt_irreflexive(key_of(r[i]).0);
        lemma_str_lt_irreflexive(key_of(r[i]).1);
        if i < j {
            assert(key_lt(key_of(r[i]), key_of(r[j])));
        } else {
            assert(key_lt(key_of(r[j]), key_of(r[i])));
        }
    }
}

/// One of `fs` has the MIME type `mime`.
pub open spec fn lists_mime(fs: Seq<FormatSpec>, mime: Seq<char>) -> bool {
    exists|i: int| 0 <= i < fs.len() && (#[trigger] fs[i]).mime == mime
}

/// One of the plugins `ps` decodes `mime`.
pub open spec fn some_decoder(ps: Seq<ManifestSpec>, mime: Seq<char>) -> bool {
    exists|j: int| 0 <= j < ps.len() && decodes(#[trigger] ps[j], mime)
}

/// One of the plugins `ps` encodes `mime`.
pub open spec fn some_encoder(ps: Seq<ManifestSpec>, mime: Seq<char>) -> bool {
    exists|j: int| 0 <= j < ps.len() && encodes(#[trigger] ps[j], mime)
}

proof fn lemma_key_listed_concat(a: Seq<(FormatSpec, FormatSpec)>, b: Seq<(FormatSpec, FormatSpec)>, key: (Seq<char>, Seq<char>))
    ensures
        key_listed(a + b, key) <==> (key_listed(a, key) || key_listed(b, key)),
{
    let c = a + b;
    if key_listed(c, key) {
        let k = choose|k: int| 0 <= k < c.len() && key_of(#[trigger] c[k]) == key;
        if k < a.len() {
            assert(c[k] == a[k]);
        } else {
            assert(c[k] == b[k - a.len()]);
        }
    }
    if key_listed(a, key) {
        let k = choose|k: int| 0 <= k < a.len() && key_of(#[trigger] a[k]) == key;
        assert(c[k] == a[k]);
    }
    if key_listed(b, key) {
        let k = choose|k: int| 0 <= k < b.len() && key_of(#[trigger] b[k]) == key;
        assert(c[k + a.len()] == b[k]);
    }
}

proof fn lemma_key_listed_push(a: Seq<(FormatSpec, FormatSpec)>, x: (FormatSpec, FormatSpec), key: (Seq<char>, Seq<char>))
    ensures
        key_listed(a.push(x), key) <==> (key_listed(a, key) || key_of(x) == key),
{
    let c = a.push(x);
    if key_listed(c, key) {
        let k = choose|k: int| 0 <= k < c.len() && key_of(#[trigger] c[k]) == key;
        if k < a.len() {
            assert(c[k] == a[k]);
        }
    }
    if key_listed(a, key) {
        let k = choose|k: int| 0 <= k < a.len() && key_of(#[trigger] a[k]) == key;
        assert(c[k] == a[k]);
    }
    if key_of(x) == key {
        assert(c[a.len() as int] == x);
    }
}

proof fn lemma_lists_mime_last(fs: Seq<FormatSpec>, mime: Seq<char>)
    requires
        fs.len() > 0,
    ensures
        lists_mime(fs, mime) <==> (lists_mime(fs.drop_last(), mime) || fs.last().mime == mime),
{
    let f0 = fs.drop_last();
    if lists_mime(fs, mime) {
        let i = choose|i: int| 0 <= i < fs.len() && (#[trigger] fs[i]).mime == mime;
        if i < f0.len() {
            assert(f0[i] == fs[i]);
        }
    }
    if lists_mime(f0, mime) {
        let i = choose|i: int| 0 <= i < f0.len() && (#[trigger] f0[i]).mime == mime;
        assert(f0[i] == fs[i]);
    }
}

proof fn lemma_row_keys(x: FormatSpec, outs: Seq<FormatSpec>, key: (Seq<char>, Seq<char>))
    ensures
        key_listed(row(x, outs), key) <==> (x.mime == key.0 && key.0 != key.1 && lists_mime(outs, key.1)),
    decreases outs.len(),
{
    if outs.len() == 0 {
    } else {
        lemma_row_keys(x, outs.drop_last(), key);
        lemma_lists_mime_last(outs, key.1);
        if outs.last().mime != x.mime {
            lemma_key_listed_push(row(x, outs.drop_last()), (x, outs.last()), key);
        }
    }
}

proof fn lemma_grid_keys(ins: Seq<FormatSpec>, outs: Seq<FormatSpec>, key: (Seq<char>, Seq<char>))
    ensures
        key_listed(grid(ins, outs), key) <==> (lists_mime(ins, key.0) && key.0 != key.1 && lists_mime(outs, key.1)),
    decreases ins.len(),
{
    if ins.len() > 0 {
        lemma_grid_keys(ins.drop_last(), outs, key);
        lemma_row_keys(ins.last(), outs, key);
        lemma_key_listed_concat(grid(ins.drop_last(), outs), row(ins.last(), outs), key);
        lemma_lists_mime_last(ins, key.0);
    }
}

proof fn lemma_pairs_with_keys(d: ManifestSpec, es: Seq<ManifestSpec>, key: (Seq<char>, Seq<char>))
    ensures
        key_listed(pairs_with(d, es), key) <==> (decodes(d, key.0) && key.0 != key.1 && some_encoder(es, key.1)),
    decreases es.len(),
{
    assert(decodes(d, key.0) == lists_mime(d.input_formats, key.0));
    if es.len() > 0 {
        let e0 = es.drop_last();
        lemma_pairs_with_keys(d, e0, key);
        lemma_grid_keys(d.input_formats, es.last().output_formats, key);
        lemma_key_listed_concat(pairs_with(d, e0), grid(d.input_formats, es.last().output_formats), key);
        assert(encodes(es.last(), key.1) == lists_mime(es.last().output_formats, key.1));
        if some_encoder(es, key.1) {
            let j = choose|j: int| 0 <= j < es.len() && encodes(#[trigger] es[j], key.1);
            if j < e0.len() {
                assert(e0[j] == es[j]);
            }
        }
        if some_encoder(e0, key.1) {
            let j = choose|j: int| 0 <= j < e0.len() && encodes(#[trigger] e0[j], key.1);
            assert(e0[j] == es[j]);
        }
        assert(encodes(es[es.len() - 1], key.1) ==> some_encoder(es, key.1));
    }
}

proof fn lemma_all_pairs_keys(ds: Seq<ManifestSpec>, es: Seq<ManifestSpec>, key: (Seq<char>, Seq<char>))
    ensures
        key_listed(all_pairs(ds, es), key) <==> (some_decoder(ds, key.0) && key.0 != key.1 && some_encoder(es, key.1)),
    decreases ds.len(),
{
    if ds.len() > 0 {
        let d0 = ds.drop_last();
        lemma_all_pairs_keys(d0, es, key);
        lemma_pairs_with_keys(ds.last(), es, key);
        lemma_key_listed_concat(all_pairs(d0, es), pairs_with(ds.last(), es), key);
        if some_decoder(ds, key.0) {
            let j = choose|j: int| 0 <= j < ds.len() && decodes(#[trigger] ds[j], key.0);
            if j < d0.len() {
                assert(d0[j] == ds[j]);
            }
        }
        if some_decoder(d0, key.0) {
            let j = choose|j: int| 0 <= j < d0.len() && decodes(#[trigger] d0[j], key.0);
            assert(d0[j] == ds[j]);
        }
        assert(decodes(ds[ds.len() - 1], key.0) ==> some_decoder(ds, key.0));
    }
}

/// A pair of MIME types is listed among the conversions exactly when the two differ,
/// some plugin decodes the first and some plugin (the same or another) encodes the second.
pub proof fn law_conversion_listed_iff(ps: Seq<ManifestSpec>, r: Seq<(FormatSpec, FormatSpec)>, source: Seq<char>, target: Seq<char>)
    requires
        lists_conversions(ps, r),
    ensures
        key_listed(r, (source, target)) <==> (source != target && some_decoder(ps, source) && some_encoder(ps, target)),
{
    let s = all_pairs(ps, ps);
    let key = (source, target);
    lemma_all_pairs_keys(ps, ps, key);
    if key_listed(r, key) {
        let k = choose|k: int| 0 <= k < r.len() && key_of(#[trigger] r[k]) == key;
        assert(came_first(s, s.len() as int, r[k]));
        let j = choose|j: int| #[trigger] first_of_key(s, j) && j < s.len() && s[j] == r[k];
        assert(key_of(s[j]) == key);
    }
    if key_listed(s, key) {
        let j = choose|j: int| 0 <= j < s.len() && key_of(#[trigger] s[j]) == key;
        assert(key_listed(r, key_of(s[j])));
    }
}

// ---------------------------------------------------------------- the registry

/// Registering a plugin leaves every MIME type's plugins as they were and adds the new
/// one after them, once for each of its formats with that MIME type.
pub proof fn law_register_extends_index(ms: Seq<ManifestSpec>, m: ManifestSpec, d: Direction, mime: Seq<char>)
    ensures
        index_for(ms.push(m), d, mime) == index_for(ms, d, mime) + mime_hits(formats_in(m, d), mime, ms.len() as int),
{
    assert(ms.push(m).drop_last() =~= ms);
}

/// A plugin registered with an ID no earlier plugin has is the one found by that ID;
/// unregistering it then restores the plugins as they were.
pub proof fn law_register_then_unregister<P>(ps: Seq<P>, ms: Seq<ManifestSpec>, p: P, m: ManifestSpec)
    requires
        ps.len() == ms.len(),
        first_id(ms, m.id) is None,
    ensures
        first_id(ms.push(m), m.id) == Some(ms.len() as int),
        ps.push(p).remove(ms.len() as int) == ps,
        ms.push(m).remove(ms.len() as int) == ms,
{
    lemma_first_id(ms, m.id);
    lemma_first_id(ms.push(m), m.id);
    match first_id(ms.push(m), m.id) {
        Some(k) => {
            if k < ms.len() {
                assert(ms.push(m)[k] == ms[k]);
            }
        },
        None => {
            assert(ms.push(m)[ms.len() as int] == m);
        },
    }
    assert(ps.push(p).remove(ms.len() as int) =~= ps);
    assert(ms.push(m).remove(ms.len() as int) =~= ms);
}

// ---------------------------------------------------------------- history

/// The history never holds more than `HISTORY_LIMIT` entries, and the entry just
/// added is always the newest one kept.
pub proof fn law_history_bounded(h: Seq<HistoryEntry>, e: HistoryEntry)
    requires
        h.len() <= HISTORY_LIMIT,
    ensures
        most_recent(h.push(e)).len() <= HISTORY_LIMIT,
        most_recent(h.push(e)).last() == e,
        most_recent(h.push(e)).len() == (if h.len() < HISTORY_LIMIT {
            h.len() + 1int
        } else {
            HISTORY_LIMIT as int
        }),
{
}

// ---------------------------------------------------------------- the queue and the orchestrator

/// In a queue in priority order, the first pending item runs no later than any
/// other pending item: no pending item runs before it.
pub proof fn law_next_pending_runs_first(s: Seq<QueueItem>)
    requires
        in_priority_order(s),
        first_pending(s) is Some,
    ensures
        forall|j: int|
            0 <= j < s.len() && (#[trigger] s[j]).status == QueueItemStatus::Pending ==> !runs_before(
                s[j],
                s[first_pending(s).unwrap()],
            ),
{
    lemma_first_pending(s);
    let k = first_pending(s).unwrap();
    assert forall|j: int| 0 <= j < s.len() && (#[trigger] s[j]).status == QueueItemStatus::Pending implies !runs_before(
        s[j],
        s[k],
    ) by {
        if j > k {
            assert(!runs_before(s[j], s[k]));
        } else if j == k {
            assert(!(s[k].priority > s[k].priority));
        }
    }
}

/// Replacing one item changes the count of a status by the replaced and the new item only.
pub proof fn lemma_count_update(s: Seq<QueueItem>, m: int, x: QueueItem, st: QueueItemStatus)
    requires
        0 <= m < s.len(),
    ensures
        count_status(s.update(m, x), st) + (if s[m].status == st { 1int } else { 0int }) == count_status(s, st) + (if x.status
            == st {
            1int
        } else {
            0int
        }),
    decreases s.len(),
{
    let t = s.drop_last();
    let u = s.update(m, x);
    assert(t.push(s.last()) =~= s);
    lemma_count_push(t, s.last(), st);
    if m == s.len() - 1 {
        assert(t.push(x) =~= u);
        lemma_count_push(t, x, st);
    } else {
        lemma_count_update(t, m, x, st);
        assert(t.update(m, x).push(s.last()) =~= u);
        lemma_count_push(t.update(m, x), s.last(), st);
    }
}

/// Starting the next job never takes the number of running conversions above the
/// configured limit: where another conversion may start, one start adds at most one.
pub proof fn law_next_job_respects_limit(q: Seq<QueueItem>, m: int, after: QueueItem, limit: usize)
    requires
        0 <= m < q.len(),
        count_status(q, QueueItemStatus::Converting) < limit,
        started(q[m], after),
    ensures
        count_status(q.update(m, after), QueueItemStatus::Converting) <= limit,
{
    lemma_count_update(q, m, after, QueueItemStatus::Converting);
}

/// No two items of the queue share an identifier.
pub open spec fn ids_unique(q: Seq<QueueItem>) -> bool {
    forall|i: int, j: int| 0 <= i < q.len() && 0 <= j < q.len() && i != j ==> #[trigger] q[i].id != #[trigger] q[j].id
}

/// `q1` is `q` after `next_job` started a job: the first item with the identifier of
/// the first pending item is started, the others are unchanged.
pub open spec fn job_started(q: Seq<QueueItem>, q1: Seq<QueueItem>) -> bool {
    &&& first_pending(q) is Some
    &&& first_with_id(q, q[first_pending(q).unwrap()].id) matches Some(m) && q1.len() == q.len() && started(q[m], q1[m])
        && forall|j: int| 0 <= j < q.len() && j != m ==> #[trigger] q1[j] == q[j]
}

/// `q2` is `q1` after `finish_job` recorded `outcome` for the job with identifier `id`:
/// the first item with that identifier is completed or failed, the others unchanged.
pub open spec fn job_finished(q1: Seq<QueueItem>, q2: Seq<QueueItem>, id: u128, outcome: Result<(u64, String), String>) -> bool {
    first_with_id(q1, id) matches Some(m) && q2.len() == q1.len() && (forall|j: int|
        0 <= j < q1.len() && j != m ==> #[trigger] q2[j] == q1[j]) && match outcome {
        Ok((bw, cs)) => completed(q1[m], q2[m], bw, cs),
        Err(msg) => failed(q1[m], q2[m], msg),
    }
}

/// `q2` is `q` after one step of a run: its first pending item has finished
/// (completed or failed, with the same identifier and paths) and every other item is
/// as it was.
pub open spec fn run_step(q: Seq<QueueItem>, q2: Seq<QueueItem>) -> bool {
    match first_pending(q) {
        None => false,
        Some(k) => {
            &&& q2.len() == q.len()
            &&& (q2[k].status == QueueItemStatus::Completed || q2[k].status == QueueItemStatus::Failed)
            &&& q2[k].id == q[k].id && q2[k].input_path == q[k].input_path && q2[k].output_path == q[k].output_path
            &&& forall|j: int| 0 <= j < q.len() && j != k ==> #[trigger] q2[j] == q[j]
        },
    }
}

/// One job of a run, where no two items share an identifier: starting the next job and
/// finishing it, whatever its outcome, finishes the first pending item and nothing
/// else; one item fewer is pending, as many are converting as before, and the
/// identifiers stay distinct.
pub proof fn law_job_step(q: Seq<QueueItem>, q1: Seq<QueueItem>, q2: Seq<QueueItem>, outcome: Result<(u64, String), String>)
    requires
        ids_unique(q),
        job_started(q, q1),
        job_finished(q1, q2, q[first_pending(q).unwrap()].id, outcome),
    ensures
        run_step(q, q2),
        ids_unique(q2),
        count_status(q2, QueueItemStatus::Pending) + 1 == count_status(q, QueueItemStatus::Pending),
        count_status(q2, QueueItemStatus::Converting) == count_status(q, QueueItemStatus::Converting),
{
    lemma_first_pending(q);
    let k = first_pending(q).unwrap();
    let id = q[k].id;
    lemma_first_with_id(q, id);
    let m = first_with_id(q, id).unwrap();
    if m != k {
        assert(q[m].id == q[k].id);
    }
    assert(m == k);
    assert(q1[k].id == id);
    lemma_first_with_id(q1, id);
    let m2 = first_with_id(q1, id).unwrap();
    if m2 != k {
        assert(q1[m2] == q[m2]);
        assert(q[m2].id == q[k].id);
    }
    assert(m2 == k);
    assert(q1 =~= q.update(k, q1[k]));
    assert(q2 =~= q1.update(k, q2[k]));
    lemma_count_update(q, k, q1[k], QueueItemStatus::Pending);
    lemma_count_update(q, k, q1[k], QueueItemStatus::Converting);
    lemma_count_update(q1, k, q2[k], QueueItemStatus::Pending);
    lemma_count_update(q1, k, q2[k], QueueItemStatus::Converting);
    assert forall|i: int, j: int| 0 <= i < q2.len() && 0 <= j < q2.len() && i != j implies #[trigger] q2[i].id
        != #[trigger] q2[j].id by {
        assert(q2[i].id == q[i].id && q2[j].id == q[j].id);
    }
}

proof fn lemma_count_none(s: Seq<QueueItem>, st: QueueItemStatus)
    requires
        forall|j: int| 0 <= j < s.len() ==> (#[trigger] s[j]).status != st,
    ensures
        count_status(s, st) == 0,
    decreases s.len(),
{
    if s.len() > 0 {
        let t = s.drop_last();
        assert forall|j: int| 0 <= j < t.len() implies (#[trigger] t[j]).status != st by {
            assert(t[j] == s[j]);
        }
        lemma_count_none(t, st);
        assert(t.push(s.last()) =~= s);
        lemma_count_push(t, s.last(), st);
    }
}

/// A whole run: where each state of the queue is the one before after a run step, and
/// no item is pending at the end, the run took one step per item pending at the start;
/// each of those items ends completed or failed with its identifier and paths, and
/// every other item ends as it began.
pub proof fn law_run_finishes_pending(qs: Seq<Seq<QueueItem>>)
    requires
        qs.len() > 0,
        forall|i: int| 0 <= i < qs.len() - 1 ==> run_step(#[trigger] qs[i], qs[i + 1]),
        first_pending(qs.last()) is None,
    ensures
        qs.len() - 1 == count_status(qs[0], QueueItemStatus::Pending),
        qs.last().len() == qs[0].len(),
        forall|j: int| 0 <= j < qs[0].len() && qs[0][j].status == QueueItemStatus::Pending ==> {
            let x = #[trigger] qs.last()[j];
            &&& (x.status == QueueItemStatus::Completed || x.status == QueueItemStatus::Failed)
            &&& x.id == qs[0][j].id && x.input_path == qs[0][j].input_path && x.output_path == qs[0][j].output_path
        },
        forall|j: int| 0 <= j < qs[0].len() && qs[0][j].status != QueueItemStatus::Pending ==> #[trigger] qs.last()[j]
            == qs[0][j],
    decreases qs.len(),
{
    let q = qs[0];
    if qs.len() == 1 {
        lemma_first_pending(q);
        lemma_count_none(q, QueueItemStatus::Pending);
    } else {
        let rest = qs.drop_first();
        assert forall|i: int| 0 <= i < rest.len() - 1 implies run_step(#[trigger] rest[i], rest[i + 1]) by {
            assert(rest[i] == qs[i + 1] && rest[i + 1] == qs[i + 2]);
            assert(run_step(qs[i + 1], qs[i + 2]));
        }
        assert(rest.last() == qs.last());
        law_run_finishes_pending(rest);
        let q1 = qs[1];
        assert(rest[0] == q1);
        assert(run_step(qs[0], qs[1]));
        lemma_first_pending(q);
        let k = first_pending(q).unwrap();
        assert(q1 =~= q.update(k, q1[k]));
        lemma_count_update(q, k, q1[k], QueueItemStatus::Pending);
        let last = qs.last();
        assert forall|j: int| 0 <= j < q.len() && q[j].status == QueueItemStatus::Pending implies {
            let x = #[trigger] last[j];
            &&& (x.status == QueueItemStatus::Completed || x.status == QueueItemStatus::Failed)
            &&& x.id == q[j].id && x.input_path == q[j].input_path && x.output_path == q[j].output_path
        } by {
            if j == k {
                assert(q1[j].status != QueueItemStatus::Pending);
                assert(last[j] == q1[j]);
            } else {
                assert(q1[j] == q[j]);
            }
        }
        assert forall|j: int| 0 <= j < q.len() && q[j].status != QueueItemStatus::Pending implies #[trigger] last[j]
            == q[j] by {
            assert(j != k);
            assert(q1[j] == q[j]);
        }
    }
}

// ---------------------------------------------------------------- more of the same

/// Registering a plugin with an ID no registered plugin has, then unregistering that
/// ID, leaves the router's plugins as they were.
pub proof fn law_router_register_then_unregister(ps: Seq<ManifestSpec>, m: ManifestSpec)
    requires
        forall|k: int| 0 <= k < ps.len() ==> (#[trigger] ps[k]).id != m.id,
    ensures
        ps.push(m).filter(|p: ManifestSpec| p.id != m.id) == ps,
    decreases ps.len(),
{
    reveal_with_fuel(Seq::filter, 1);
    assert(ps.push(m).drop_last() =~= ps);
    lemma_filter_keeps_all(ps, m.id);
}

proof fn lemma_filter_keeps_all(ps: Seq<ManifestSpec>, id: Seq<char>)
    requires
        forall|k: int| 0 <= k < ps.len() ==> (#[trigger] ps[k]).id != id,
    ensures
        ps.filter(|p: ManifestSpec| p.id != id) == ps,
    decreases ps.len(),
{
    reveal_with_fuel(Seq::filter, 1);
    if ps.len() > 0 {
        let t = ps.drop_last();
        assert forall|k: int| 0 <= k < t.len() implies (#[trigger] t[k]).id != id by {
            assert(t[k] == ps[k]);
        }
        lemma_filter_keeps_all(t, id);
        assert(ps[ps.len() - 1].id != id);
        assert(ps.filter(|p: ManifestSpec| p.id != id) =~= ps);
    }
}

/// A list of formats without repeats lists no MIME type twice.
pub proof fn law_unique_formats_distinct(s: Seq<FormatSpec>, r: Seq<FormatSpec>)
    requires
        unique_formats(s, r),
    ensures
        forall|i: int, j: int| 0 <= i < r.len() && 0 <= j < r.len() && i != j ==> (#[trigger] r[i]).mime != (
        #[trigger] r[j]).mime,
{
    assert forall|i: int, j: int| 0 <= i < r.len() && 0 <= j < r.len() && i != j implies (#[trigger] r[i]).mime != (
    #[trigger] r[j]).mime by {
        lemma_str_lt_irreflexive(r[i].mime);
        if i < j {
            assert(str_lt(r[i].mime, r[j].mime));
        } else {
            assert(str_lt(r[j].mime, r[i].mime));
        }
    }
}

/// A checksum the checker computed is accepted by it; where output is checked, any
/// other text is refused.
pub proof fn law_own_checksum_verifies(c: IntegrityChecker, data: Seq<u8>, other: Seq<char>)
    requires
        other != blake3_hex(data),
    ensures
        !c.verifies() || blake3_hex(data) == blake3_hex(data),
        c.verifies() ==> !(!c.verifies() || blake3_hex(data) == other),
{
}

// ---------------------------------------------------------------- desktop

/// The front end's list of formats is ordered by display name and never shows the
/// same MIME type twice in a row.
pub proof fn law_format_listing_ordered(v: Seq<(FormatId, FormatId)>)
    ensures
        ordered_by_name(format_listing(v)),
        no_neighbour_repeats(format_listing(v)),
{
    lemma_sort_ordered(sources_of(v));
    lemma_dedup(sort_by_name(sources_of(v)));
}

} // verus!
