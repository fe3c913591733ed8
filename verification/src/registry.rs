//! The plugin registry: registered plugins with their manifests, and for each MIME
//! type the positions of the plugins that decode or encode it.
use vstd::prelude::*;
use crate::assoc::{keys_unique, has_key, lemma_assoc_update, lemma_assoc_push};
use crate::format::{FormatId, FormatSpec, PluginManifest, ManifestSpec, formats_view};
use crate::router::manifests_view;
use crate::catalog::{unique_formats, unique_by_mime, append_formats};
use crate::text::str_eq;

verus! {

/// Direction of conversion (decode or encode).
#[derive(Debug, Clone, Copy, PartialEq, Eq, Structural)]
pub enum Direction {
    Decode,
    Encode,
}

/// The formats a plugin handles in the given direction.
pub open spec fn formats_in(m: ManifestSpec, d: Direction) -> Seq<FormatSpec> {
    match d {
        Direction::Decode => m.input_formats,
        Direction::Encode => m.output_formats,
    }
}

/// Position `i` once for each of `fs` with MIME type `mime`.
pub open spec fn mime_hits(fs: Seq<FormatSpec>, mime: Seq<char>, i: int) -> Seq<int>
    decreases fs.len(),
{
    if fs.len() == 0 {
        Seq::empty()
    } else if fs.last().mime == mime {
        mime_hits(fs.drop_last(), mime, i).push(i)
    } else {
        mime_hits(fs.drop_last(), mime, i)
    }
}

/// The positions of the plugins of `ms` that handle `mime` in direction `d`, in
/// order; a plugin that lists the MIME type twice appears twice.
pub open spec fn index_for(ms: Seq<ManifestSpec>, d: Direction, mime: Seq<char>) -> Seq<int>
    decreases ms.len(),
{
    if ms.len() == 0 {
        Seq::empty()
    } else {
        index_for(ms.drop_last(), d, mime) + mime_hits(formats_in(ms.last(), d), mime, ms.len() - 1)
    }
}

/// The positions an index lists for `mime`; none where it has no entry.
pub open spec fn entry_of(v: Seq<(Seq<char>, Seq<int>)>, mime: Seq<char>) -> Seq<int>
    decreases v.len(),
{
    if v.len() == 0 {
        Seq::empty()
    } else if v.last().0 == mime {
        v.last().1
    } else {
        entry_of(v.drop_last(), mime)
    }
}

pub open spec fn ints(v: Seq<usize>) -> Seq<int> {
    v.map_values(|i: usize| i as int)
}

pub open spec fn index_view(v: Seq<(String, Vec<usize>)>) -> Seq<(Seq<char>, Seq<int>)> {
    v.map_values(|e: (String, Vec<usize>)| (e.0@, ints(e.1@)))
}

/// An index: one entry per MIME type, none empty.
pub open spec fn index_wf(v: Seq<(Seq<char>, Seq<int>)>) -> bool {
    &&& keys_unique(v)
    &&& forall|k: int| 0 <= k < v.len() ==> (#[trigger] v[k]).1.len() > 0
}

/// The index `v` lists, for every MIME type, the plugins of `ms` that handle it in direction `d`.
pub open spec fn index_ok(v: Seq<(Seq<char>, Seq<int>)>, ms: Seq<ManifestSpec>, d: Direction) -> bool {
    &&& index_wf(v)
    &&& forall|mime: Seq<char>| #[trigger] entry_of(v, mime) == index_for(ms, d, mime)
}

proof fn lemma_entry_found(v: Seq<(Seq<char>, Seq<int>)>, p: int)
    requires
        keys_unique(v),
        0 <= p < v.len(),
    ensures
        entry_of(v, v[p].0) == v[p].1,
    decreases v.len(),
{
    if p < v.len() - 1 {
        let t = v.drop_last();
        assert forall|a: int, b: int| 0 <= a < t.len() && 0 <= b < t.len() && a != b implies (#[trigger] t[a]).0 != (#[trigger] t[b]).0 by {
            assert(t[a] == v[a] && t[b] == v[b]);
        }
        assert(v[p] == t[p]);
        assert(v[p].0 != v[v.len() - 1].0);
        lemma_entry_found(t, p);
    }
}

proof fn lemma_entry_absent(v: Seq<(Seq<char>, Seq<int>)>, mime: Seq<char>)
    requires
        !has_key(v, mime),
    ensures
        entry_of(v, mime) == Seq::<int>::empty(),
    decreases v.len(),
{
    if v.len() > 0 {
        assert(v[v.len() - 1].0 != mime);
        assert forall|i: int| 0 <= i < v.drop_last().len() implies (#[trigger] v.drop_last()[i]).0 != mime by {
            assert(v.drop_last()[i] == v[i]);
        }
        lemma_entry_absent(v.drop_last(), mime);
    }
}

proof fn lemma_entry_update(v: Seq<(Seq<char>, Seq<int>)>, p: int, val: Seq<int>, mime: Seq<char>)
    requires
        keys_unique(v),
        0 <= p < v.len(),
    ensures
        entry_of(v.update(p, (v[p].0, val)), mime) == (if mime == v[p].0 { val } else { entry_of(v, mime) }),
    decreases v.len(),
{
    let u = v.update(p, (v[p].0, val));
    if p == v.len() - 1 {
        assert(u.drop_last() =~= v.drop_last());
        if mime != v[p].0 {
        }
    } else {
        let t = v.drop_last();
        assert forall|a: int, b: int| 0 <= a < t.len() && 0 <= b < t.len() && a != b implies (#[trigger] t[a]).0 != (#[trigger] t[b]).0 by {
            assert(t[a] == v[a] && t[b] == v[b]);
        }
        assert(t[p] == v[p]);
        lemma_entry_update(t, p, val, mime);
        assert(u.drop_last() =~= t.update(p, (t[p].0, val)));
        assert(v[p].0 != v[v.len() - 1].0);
        assert(u.last() == v.last());
    }
}

proof fn lemma_entry_push(v: Seq<(Seq<char>, Seq<int>)>, key: Seq<char>, val: Seq<int>, mime: Seq<char>)
    ensures
        entry_of(v.push((key, val)), mime) == (if mime == key { val } else { entry_of(v, mime) }),
{
    assert(v.push((key, val)).drop_last() =~= v);
}

/// Every position an index lists is that of a plugin.
pub proof fn lemma_index_for_bounds(ms: Seq<ManifestSpec>, d: Direction, mime: Seq<char>)
    ensures
        forall|k: int| 0 <= k < index_for(ms, d, mime).len() ==> 0 <= #[trigger] index_for(ms, d, mime)[k] < ms.len(),
    decreases ms.len(),
{
    if ms.len() > 0 {
        lemma_index_for_bounds(ms.drop_last(), d, mime);
        lemma_mime_hits_value(formats_in(ms.last(), d), mime, ms.len() - 1);
        let a = index_for(ms.drop_last(), d, mime);
        let b = mime_hits(formats_in(ms.last(), d), mime, ms.len() - 1);
        assert forall|k: int| 0 <= k < index_for(ms, d, mime).len() implies 0 <= #[trigger] index_for(ms, d, mime)[k] < ms.len() by {
            if k < a.len() {
                assert(index_for(ms, d, mime)[k] == a[k]);
            } else {
                assert(index_for(ms, d, mime)[k] == b[k - a.len()]);
            }
        }
    }
}

proof fn lemma_mime_hits_value(fs: Seq<FormatSpec>, mime: Seq<char>, i: int)
    ensures
        forall|k: int| 0 <= k < mime_hits(fs, mime, i).len() ==> #[trigger] mime_hits(fs, mime, i)[k] == i,
    decreases fs.len(),
{
    if fs.len() > 0 {
        lemma_mime_hits_value(fs.drop_last(), mime, i);
        let a = mime_hits(fs.drop_last(), mime, i);
        assert forall|k: int| 0 <= k < mime_hits(fs, mime, i).len() implies #[trigger] mime_hits(fs, mime, i)[k] == i by {
            if k < a.len() {
                assert(mime_hits(fs, mime, i)[k] == a[k]);
            }
        }
    }
}

/// Position of the entry for `key`, if there is one.
fn find_key(v: &Vec<(String, Vec<usize>)>, key: &str) -> (r: Option<usize>)
    ensures
        match r {
            Some(p) => p < v@.len() && v@[p as int].0@ == key@,
            None => !has_key(index_view(v@), key@),
        },
{
    let mut i: usize = 0;
    while i < v.len()
        invariant
            i <= v@.len(),
            forall|j: int| 0 <= j < i ==> (#[trigger] v@[j]).0@ != key@,
        decreases v@.len() - i,
    {
        if str_eq(v[i].0.as_str(), key) {
            return Some(i);
        }
        i = i + 1;
    }
    assert forall|j: int| 0 <= j < index_view(v@).len() implies (#[trigger] index_view(v@)[j]).0 != key@ by {
        assert(index_view(v@)[j].0 == v@[j].0@);
    }
    None
}

/// Records plugin position `n` under the MIME type of each of `fs`, in order.
fn index_formats(idx: &mut Vec<(String, Vec<usize>)>, fs: &Vec<FormatId>, n: usize)
    requires
        index_wf(index_view(old(idx)@)),
    ensures
        index_wf(index_view(final(idx)@)),
        forall|mime: Seq<char>| #[trigger] entry_of(index_view(final(idx)@), mime) == entry_of(index_view(old(idx)@), mime) + mime_hits(
            formats_view(fs@),
            mime,
            n as int,
        ),
{
    let ghost start = index_view(idx@);
    let mut j: usize = 0;
    proof {
        assert forall|mime: Seq<char>| #[trigger] entry_of(index_view(idx@), mime) == entry_of(start, mime) + mime_hits(
            formats_view(fs@.take(0)),
            mime,
            n as int,
        ) by {
            assert(formats_view(fs@.take(0)) =~= Seq::<FormatSpec>::empty());
            assert(entry_of(start, mime) + Seq::<int>::empty() =~= entry_of(start, mime));
        }
    }
    while j < fs.len()
        invariant
            j <= fs@.len(),
            index_wf(index_view(idx@)),
            forall|mime: Seq<char>| #[trigger] entry_of(index_view(idx@), mime) == entry_of(start, mime) + mime_hits(
                formats_view(fs@.take(j as int)),
                mime,
                n as int,
            ),
        decreases fs@.len() - j,
    {
        let ghost before = index_view(idx@);
        let ghost fm = fs@[j as int].mime@;
        proof {
            let f1 = formats_view(fs@.take(j + 1));
            assert(f1.drop_last() =~= formats_view(fs@.take(j as int)));
            assert(f1.last().mime == fm);
        }
        match find_key(idx, fs[j].mime.as_str()) {
            Some(p) => {
                let (key, mut ids) = idx.remove(p);
                ids.push(n);
                idx.insert(p, (key, ids));
                proof {
                    let val = before[p as int].1.push(n as int);
                    assert(ints(ids@) =~= val);
                    assert(index_view(idx@) =~= before.update(p as int, (before[p as int].0, val)));
                    lemma_assoc_update(before, p as int, val);
                    let after = index_view(idx@);
                    assert forall|k: int| 0 <= k < after.len() implies (#[trigger] after[k]).1.len() > 0 by {
                        if k != p {
                            assert(after[k] == before[k]);
                        }
                    }
                    assert forall|mime: Seq<char>| #[trigger] entry_of(after, mime) == entry_of(start, mime) + mime_hits(
                        formats_view(fs@.take(j + 1)),
                        mime,
                        n as int,
                    ) by {
                        lemma_entry_update(before, p as int, val, mime);
                        if mime == fm {
                            lemma_entry_found(before, p as int);
                            assert(entry_of(before, mime) == before[p as int].1);
                        }
                    }
                }
            },
            None => {
                let mut ids: Vec<usize> = Vec::new();
                ids.push(n);
                idx.push((fs[j].mime.clone(), ids));
                proof {
                    let val = seq![n as int];
                    assert(ints(ids@) =~= val);
                    assert(index_view(idx@) =~= before.push((fm, val)));
                    lemma_assoc_push(before, fm, val);
                    let after = index_view(idx@);
                    assert forall|k: int| 0 <= k < after.len() implies (#[trigger] after[k]).1.len() > 0 by {
                        if k < before.len() {
                            assert(after[k] == before[k]);
                        }
                    }
                    assert forall|mime: Seq<char>| #[trigger] entry_of(after, mime) == entry_of(start, mime) + mime_hits(
                        formats_view(fs@.take(j + 1)),
                        mime,
                        n as int,
                    ) by {
                        lemma_entry_push(before, fm, val, mime);
                        if mime == fm {
                            lemma_entry_absent(before, fm);
                            assert(Seq::<int>::empty().push(n as int) =~= val);
                        }
                    }
                }
            },
        }
        j = j + 1;
    }
    proof {
        assert(fs@.take(fs@.len() as int) =~= fs@);
    }
}

/// The formats every plugin of `ms` handles in direction `d`, plugin by plugin.
pub open spec fn all_formats(ms: Seq<ManifestSpec>, d: Direction) -> Seq<FormatSpec>
    decreases ms.len(),
{
    if ms.len() == 0 {
        Seq::empty()
    } else {
        all_formats(ms.drop_last(), d) + formats_in(ms.last(), d)
    }
}

/// The position of the first plugin with the given ID.
pub open spec fn first_id(ms: Seq<ManifestSpec>, id: Seq<char>) -> Option<int>
    decreases ms.len(),
{
    if ms.len() == 0 {
        None
    } else if ms[0].id == id {
        Some(0)
    } else {
        match first_id(ms.drop_first(), id) {
            Some(k) => Some(k + 1),
            None => None,
        }
    }
}

pub proof fn lemma_first_id(ms: Seq<ManifestSpec>, id: Seq<char>)
    ensures
        first_id(ms, id) matches Some(k) ==> 0 <= k < ms.len() && ms[k].id == id && forall|j: int|
            0 <= j < k ==> (#[trigger] ms[j]).id != id,
        first_id(ms, id) is None ==> forall|j: int| 0 <= j < ms.len() ==> (#[trigger] ms[j]).id != id,
    decreases ms.len(),
{
    if ms.len() > 0 {
        lemma_first_id(ms.drop_first(), id);
        assert forall|j: int| 1 <= j < ms.len() implies ms[j] == ms.drop_first()[j - 1] by {}
    }
}

/// A plugin's rank: its priority times its fidelity score.
pub open spec fn rank(m: ManifestSpec) -> int {
    m.priority as int * m.fidelity_score as int
}

/// Plugin `a` is preferred over `b`: its priority times fidelity is higher.
pub open spec fn beats(a: ManifestSpec, b: ManifestSpec) -> bool {
    rank(a) > rank(b)
}

/// The rank of a manifest, computed without overflow.
fn rank_of(m: &PluginManifest) -> (r: i64)
    ensures
        r == rank(m@),
{
    let p = m.priority as i64;
    let f = m.fidelity_score as i64;
    assert(-2147483648 * 255 <= p * f <= 2147483647 * 255) by (nonlinear_arith)
        requires
            -2147483648 <= p <= 2147483647,
            0 <= f <= 255,
    ;
    p * f
}

/// Candidate `j` of `ix` is the best: no candidate is preferred over it, and it is
/// preferred over every candidate before it.
pub open spec fn is_best(ms: Seq<ManifestSpec>, ix: Seq<int>, j: int) -> bool {
    &&& 0 <= j < ix.len()
    &&& forall|k: int| 0 <= k < ix.len() ==> !beats(#[trigger] ms[ix[k]], ms[ix[j]])
    &&& forall|k: int| 0 <= k < j ==> beats(ms[ix[j]], #[trigger] ms[ix[k]])
}

/// What a registry holds: its plugins and their manifests, in registration order.
pub struct RegistrySpec<P> {
    pub plugins: Seq<P>,
    pub manifests: Seq<ManifestSpec>,
}

pub open spec fn handles_of<P>(v: Seq<(P, PluginManifest)>) -> Seq<P> {
    v.map_values(|e: (P, PluginManifest)| e.0)
}

pub open spec fn entry_manifests<P>(v: Seq<(P, PluginManifest)>) -> Seq<ManifestSpec> {
    v.map_values(|e: (P, PluginManifest)| e.1@)
}

/// Plugin registry: the registered plugins, each with the manifest it declared on
/// registration, and indices from MIME type to the plugins that decode or encode it.
pub struct PluginRegistry<P> {
    plugins: Vec<(P, PluginManifest)>,
    /// MIME type → positions of the plugins that decode it
    decode_index: Vec<(String, Vec<usize>)>,
    /// MIME type → positions of the plugins that encode it
    encode_index: Vec<(String, Vec<usize>)>,
}

impl<P> PluginRegistry<P> {
    /// Every registered plugin has its manifest: there are as many plugins as manifests.
    pub proof fn lemma_plugins_match_manifests(&self)
        ensures
            self@.plugins.len() == self@.manifests.len(),
    {
    }

    /// The registered manifests themselves, in registration order.
    pub closed spec fn stored_manifests(&self) -> Seq<PluginManifest> {
        self.plugins@.map_values(|e: (P, PluginManifest)| e.1)
    }
}

impl<P> View for PluginRegistry<P> {
    type V = RegistrySpec<P>;

    closed spec fn view(&self) -> RegistrySpec<P> {
        RegistrySpec { plugins: handles_of(self.plugins@), manifests: entry_manifests(self.plugins@) }
    }
}

/// Rebuilds both indices for `plugins`.
fn build_indices<P>(plugins: &Vec<(P, PluginManifest)>) -> (r: (Vec<(String, Vec<usize>)>, Vec<(String, Vec<usize>)>))
    ensures
        index_ok(index_view(r.0@), entry_manifests(plugins@), Direction::Decode),
        index_ok(index_view(r.1@), entry_manifests(plugins@), Direction::Encode),
{
    let ghost ms = entry_manifests(plugins@);
    let mut dec: Vec<(String, Vec<usize>)> = Vec::new();
    let mut enc: Vec<(String, Vec<usize>)> = Vec::new();
    let mut k: usize = 0;
    proof {
        assert(index_view(dec@) =~= Seq::empty());
        assert(index_view(enc@) =~= Seq::empty());
        assert(ms.take(0) =~= Seq::<ManifestSpec>::empty());
    }
    while k < plugins.len()
        invariant
            k <= plugins@.len(),
            ms == entry_manifests(plugins@),
            index_ok(index_view(dec@), ms.take(k as int), Direction::Decode),
            index_ok(index_view(enc@), ms.take(k as int), Direction::Encode),
        decreases plugins@.len() - k,
    {
        let ghost dec0 = index_view(dec@);
        let ghost enc0 = index_view(enc@);
        index_formats(&mut dec, &plugins[k].1.input_formats, k);
        index_formats(&mut enc, &plugins[k].1.output_formats, k);
        proof {
            let t = ms.take(k + 1);
            assert(t.drop_last() =~= ms.take(k as int));
            assert(t.last() == plugins@[k as int].1@);
            assert forall|mime: Seq<char>| #[trigger] entry_of(index_view(dec@), mime) == index_for(t, Direction::Decode, mime) by {
                assert(entry_of(dec0, mime) == index_for(ms.take(k as int), Direction::Decode, mime));
            }
            assert forall|mime: Seq<char>| #[trigger] entry_of(index_view(enc@), mime) == index_for(t, Direction::Encode, mime) by {
                assert(entry_of(enc0, mime) == index_for(ms.take(k as int), Direction::Encode, mime));
            }
        }
        k = k + 1;
    }
    proof {
        assert(ms.take(plugins@.len() as int) =~= ms);
    }
    (dec, enc)
}

impl<P> PluginRegistry<P> {
    #[verifier::type_invariant]
    spec fn inv(self) -> bool {
        &&& index_ok(index_view(self.decode_index@), entry_manifests(self.plugins@), Direction::Decode)
        &&& index_ok(index_view(self.encode_index@), entry_manifests(self.plugins@), Direction::Encode)
    }

    /// An empty registry.
    pub fn new() -> (r: Self)
        ensures
            r@.plugins.len() == 0,
            r@.manifests.len() == 0,
    {
        let r = PluginRegistry { plugins: Vec::new(), decode_index: Vec::new(), encode_index: Vec::new() };
        proof {
            assert(index_view(r.decode_index@) =~= Seq::empty());
            assert(index_view(r.encode_index@) =~= Seq::empty());
            assert(entry_manifests(r.plugins@) =~= Seq::empty());
        }
        r
    }

    /// Register a plugin with the manifest it declares; it goes after every plugin
    /// already registered.
    pub fn register(&mut self, plugin: P, manifest: PluginManifest)
        ensures
            final(self)@.plugins == old(self)@.plugins.push(plugin),
            final(self)@.manifests == old(self)@.manifests.push(manifest@),
            final(self).stored_manifests() == old(self).stored_manifests().push(manifest),
    {
        let mut this = PluginRegistry::new();
        std::mem::swap(&mut this, self);
        proof {
            use_type_invariant(&this);
        }
        let PluginRegistry { mut plugins, mut decode_index, mut encode_index } = this;
        let ghost ms = entry_manifests(plugins@);
        let ghost dec0 = index_view(decode_index@);
        let ghost enc0 = index_view(encode_index@);
        let n = plugins.len();
        index_formats(&mut decode_index, &manifest.input_formats, n);
        index_formats(&mut encode_index, &manifest.output_formats, n);
        let ghost mv = manifest@;
        plugins.push((plugin, manifest));
        proof {
            let ms2 = entry_manifests(plugins@);
            assert(ms2 =~= ms.push(mv));
            assert(ms2.drop_last() =~= ms);
            assert forall|mime: Seq<char>| #[trigger] entry_of(index_view(decode_index@), mime) == index_for(ms2, Direction::Decode, mime) by {
                assert(entry_of(dec0, mime) == index_for(ms, Direction::Decode, mime));
            }
            assert forall|mime: Seq<char>| #[trigger] entry_of(index_view(encode_index@), mime) == index_for(ms2, Direction::Encode, mime) by {
                assert(entry_of(enc0, mime) == index_for(ms, Direction::Encode, mime));
            }
        }
        *self = PluginRegistry { plugins, decode_index, encode_index };
        proof {
            assert(handles_of(self.plugins@) =~= old(self)@.plugins.push(plugin));
            assert(self.stored_manifests() =~= old(self).stored_manifests().push(manifest));
        }
    }

    /// The index entry for `mime` in `direction`: the positions of the plugins that handle it.
    fn index_entry(&self, mime: &str, direction: Direction) -> (r: Option<&Vec<usize>>)
        ensures
            forall|j: int| 0 <= j < index_for(self@.manifests, direction, mime@).len() ==> 0 <= #[trigger] index_for(
                self@.manifests,
                direction,
                mime@,
            )[j] < self.plugins@.len(),
            self@.manifests.len() == self.plugins@.len(),
            match r {
                Some(ids) => ints(ids@) == index_for(self@.manifests, direction, mime@) && ids@.len() > 0,
                None => index_for(self@.manifests, direction, mime@).len() == 0,
            },
    {
        proof {
            use_type_invariant(self);
            lemma_index_for_bounds(entry_manifests(self.plugins@), direction, mime@);
        }
        let idx = match direction {
            Direction::Decode => &self.decode_index,
            Direction::Encode => &self.encode_index,
        };
        match find_key(idx, mime) {
            Some(p) => {
                proof {
                    lemma_entry_found(index_view(idx@), p as int);
                    assert(index_view(idx@)[p as int].1.len() > 0);
                }
                Some(&idx[p].1)
            },
            None => {
                proof {
                    lemma_entry_absent(index_view(idx@), mime@);
                }
                None
            },
        }
    }

    /// The plugins that handle `format`'s MIME type in `direction`, in registration
    /// order (a plugin listing the MIME type twice comes twice).
    pub fn plugins_for_format(&self, format: &FormatId, direction: Direction) -> (r: Vec<&P>)
        ensures
            r@.len() == index_for(self@.manifests, direction, format.mime@).len(),
            forall|k: int| 0 <= k < r@.len() ==> *(#[trigger] r@[k]) == self@.plugins[index_for(self@.manifests, direction, format.mime@)[k]],
    {
        let ghost ix = index_for(self@.manifests, direction, format.mime@);
        let mut r: Vec<&P> = Vec::new();
        match self.index_entry(format.mime.as_str(), direction) {
            Some(ids) => {
                let mut k: usize = 0;
                while k < ids.len()
                    invariant
                        k <= ids@.len(),
                        ints(ids@) == ix,
                        forall|j: int| 0 <= j < ix.len() ==> 0 <= #[trigger] ix[j] < self.plugins@.len(),
                        r@.len() == k,
                        forall|j: int| 0 <= j < k ==> *(#[trigger] r@[j]) == handles_of(self.plugins@)[ix[j]],
                    decreases ids@.len() - k,
                {
                    let i = ids[k];
                    assert(ix[k as int] == i as int);
                    r.push(&self.plugins[i].0);
                    k = k + 1;
                }
            },
            None => {},
        }
        r
    }

    /// The preferred plugin for `format` in `direction`: among those that handle it,
    /// the highest priority times fidelity, the earliest registered of equal rank.
    pub fn best_plugin(&self, format: &FormatId, direction: Direction) -> (r: Option<&P>)
        ensures
            r is Some == (index_for(self@.manifests, direction, format.mime@).len() > 0),
            r is Some ==> exists|j: int|
                #![trigger is_best(self@.manifests, index_for(self@.manifests, direction, format.mime@), j)]
                is_best(self@.manifests, index_for(self@.manifests, direction, format.mime@), j) && *r.unwrap()
                    == #[trigger] self@.plugins[index_for(self@.manifests, direction, format.mime@)[j]],
    {
        let ghost ix = index_for(self@.manifests, direction, format.mime@);
        let ghost ms = self@.manifests;
        match self.index_entry(format.mime.as_str(), direction) {
            Some(ids) => {
                let mut b: usize = 0;
                let mut k: usize = 1;
                proof {
                    assert(ix[0] == ids@[0] as int);
                }
                while k < ids.len()
                    invariant
                        1 <= k <= ids@.len(),
                        b < k,
                        ints(ids@) == ix,
                        ms == self@.manifests,
                        ms == entry_manifests(self.plugins@),
                        forall|j: int| 0 <= j < ix.len() ==> 0 <= #[trigger] ix[j] < self.plugins@.len(),
                        forall|t: int| 0 <= t < k ==> !beats(#[trigger] ms[ix[t]], ms[ix[b as int]]),
                        forall|t: int| 0 <= t < b ==> beats(ms[ix[b as int]], #[trigger] ms[ix[t]]),
                    decreases ids@.len() - k,
                {
                    let ik = ids[k];
                    let ib = ids[b];
                    proof {
                        assert(ix[k as int] == ik as int);
                        assert(ix[b as int] == ib as int);
                    }
                    let mk = &self.plugins[ik].1;
                    let mb = &self.plugins[ib].1;
                    proof {
                        assert(ms[ix[k as int]] == mk@);
                        assert(ms[ix[b as int]] == mb@);
                    }
                    if rank_of(mk) > rank_of(mb) {
                        b = k;
                    }
                    k = k + 1;
                }
                let ib = ids[b];
                proof {
                    assert(is_best(ms, ix, b as int));
                    assert(ix[b as int] == ib as int);
                    assert(self@.plugins[ix[b as int]] == self.plugins@[ib as int].0);
                }
                Some(&self.plugins[ib].0)
            },
            None => None,
        }
    }

    /// The manifests of the registered plugins, in registration order.
    pub fn manifests(&self) -> (r: Vec<PluginManifest>)
        ensures
            manifests_view(r@) == self@.manifests,
    {
        let mut r: Vec<PluginManifest> = Vec::new();
        let mut k: usize = 0;
        while k < self.plugins.len()
            invariant
                k <= self.plugins@.len(),
                manifests_view(r@) == entry_manifests(self.plugins@).take(k as int),
            decreases self.plugins@.len() - k,
        {
            let m = self.plugins[k].1.clone();
            let ghost before = r@;
            r.push(m);
            proof {
                assert(m@ == entry_manifests(self.plugins@)[k as int]);
                assert(manifests_view(r@) =~= manifests_view(before).push(m@));
                assert(manifests_view(r@) =~= entry_manifests(self.plugins@).take(k + 1));
            }
            k = k + 1;
        }
        proof {
            assert(entry_manifests(self.plugins@).take(self.plugins@.len() as int) =~= entry_manifests(self.plugins@));
        }
        r
    }

    /// Remove the first plugin with the given ID; tells whether there was one.
    pub fn unregister(&mut self, plugin_id: &str) -> (r: bool)
        ensures
            r == first_id(old(self)@.manifests, plugin_id@) is Some,
            r ==> final(self)@.plugins == old(self)@.plugins.remove(first_id(old(self)@.manifests, plugin_id@).unwrap()),
            r ==> final(self)@.manifests == old(self)@.manifests.remove(first_id(old(self)@.manifests, plugin_id@).unwrap()),
            !r ==> final(self)@.plugins == old(self)@.plugins && final(self)@.manifests == old(self)@.manifests,
            r ==> final(self)@.plugins.len() + 1 == old(self)@.plugins.len(),
            final(self)@.plugins.len() == final(self)@.manifests.len(),
    {
        proof {
            self.lemma_plugins_match_manifests();
        }
        match self.position_of(plugin_id) {
            Some(j) => {
                let mut this = PluginRegistry::new();
                std::mem::swap(&mut this, self);
                let PluginRegistry { mut plugins, decode_index, encode_index } = this;
                let ghost before = plugins@;
                plugins.remove(j);
                let (dec, enc) = build_indices(&plugins);
                *self = PluginRegistry { plugins, decode_index: dec, encode_index: enc };
                proof {
                    assert(plugins@ == before.remove(j as int));
                    assert(handles_of(before.remove(j as int)) =~= handles_of(before).remove(j as int));
                    assert(entry_manifests(before.remove(j as int)) =~= entry_manifests(before).remove(j as int));
                }
                true
            },
            None => false,
        }
    }

    /// The plugin with the given ID (the first, if several share it).
    pub fn get(&self, plugin_id: &str) -> (r: Option<&P>)
        ensures
            r is Some == first_id(self@.manifests, plugin_id@) is Some,
            r is Some ==> *r.unwrap() == self@.plugins[first_id(self@.manifests, plugin_id@).unwrap()],
    {
        match self.position_of(plugin_id) {
            Some(j) => Some(&self.plugins[j].0),
            None => None,
        }
    }

    fn position_of(&self, plugin_id: &str) -> (r: Option<usize>)
        ensures
            r is Some == first_id(self@.manifests, plugin_id@) is Some,
            r is Some ==> r.unwrap() == first_id(self@.manifests, plugin_id@).unwrap() && r.unwrap() < self.plugins@.len(),
    {
        let ghost ms = entry_manifests(self.plugins@);
        proof {
            lemma_first_id(ms, plugin_id@);
        }
        let mut j: usize = 0;
        while j < self.plugins.len()
            invariant
                j <= self.plugins@.len(),
                ms == entry_manifests(self.plugins@),
                forall|k: int| 0 <= k < j ==> (#[trigger] ms[k]).id != plugin_id@,
            decreases self.plugins@.len() - j,
        {
            if str_eq(self.plugins[j].1.id.as_str(), plugin_id) {
                proof {
                    lemma_first_id(ms, plugin_id@);
                    match first_id(ms, plugin_id@) {
                        Some(f) => {
                            if f < j {
                                assert(ms[f].id != plugin_id@);
                            }
                            if f > j {
                                assert(ms[j as int].id == plugin_id@);
                            }
                        },
                        None => {
                            assert(ms[j as int].id == plugin_id@);
                        },
                    }
                }
                return Some(j);
            }
            j = j + 1;
        }
        proof {
            if let Some(f) = first_id(ms, plugin_id@) {
                assert(ms[f].id == plugin_id@);
            }
        }
        None
    }

    /// The formats the registered plugins decode, and those they encode: each list
    /// without repeats (one format per MIME type, the first registered) and in MIME order.
    pub fn supported_formats(&self) -> (r: (Vec<FormatId>, Vec<FormatId>))
        ensures
            unique_formats(all_formats(self@.manifests, Direction::Decode), formats_view(r.0@)),
            unique_formats(all_formats(self@.manifests, Direction::Encode), formats_view(r.1@)),
    {
        let ghost ms = entry_manifests(self.plugins@);
        let mut inputs: Vec<FormatId> = Vec::new();
        let mut outputs: Vec<FormatId> = Vec::new();
        let mut k: usize = 0;
        proof {
            assert(ms.take(0) =~= Seq::<ManifestSpec>::empty());
            assert(formats_view(inputs@) =~= Seq::<FormatSpec>::empty());
            assert(formats_view(outputs@) =~= Seq::<FormatSpec>::empty());
        }
        while k < self.plugins.len()
            invariant
                k <= self.plugins@.len(),
                ms == entry_manifests(self.plugins@),
                formats_view(inputs@) == all_formats(ms.take(k as int), Direction::Decode),
                formats_view(outputs@) == all_formats(ms.take(k as int), Direction::Encode),
            decreases self.plugins@.len() - k,
        {
            append_formats(&mut inputs, &self.plugins[k].1.input_formats);
            append_formats(&mut outputs, &self.plugins[k].1.output_formats);
            proof {
                let t = ms.take(k + 1);
                assert(t.drop_last() =~= ms.take(k as int));
                assert(t.last() == self.plugins@[k as int].1@);
            }
            k = k + 1;
        }
        proof {
            assert(ms.take(self.plugins@.len() as int) =~= ms);
        }
        (unique_by_mime(inputs), unique_by_mime(outputs))
    }

    /// The number of registered plugins.
    pub fn len(&self) -> (r: usize)
        ensures
            r == self@.plugins.len(),
            r == self@.manifests.len(),
    {
        self.plugins.len()
    }

    /// Whether no plugin is registered.
    pub fn is_empty(&self) -> (r: bool)
        ensures
            r == (self@.plugins.len() == 0),
    {
        self.plugins.len() == 0
    }
}

impl<P> Default for PluginRegistry<P> {
    fn default() -> (r: Self)
        ensures
            r@.plugins.len() == 0,
            r@.manifests.len() == 0,
    {
        Self::new()
    }
}

} // verus!
