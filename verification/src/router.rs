//! Routing of conversion requests to decoder and encoder plugins.
use vstd::prelude::*;
use vstd::seq_lib::to_multiset_insert;
use crate::assoc::{keys_unique, has_key};
use crate::errors::CoreError;
use crate::format::{FormatId, PluginManifest, ManifestSpec, decodes, encodes};
use crate::conversions::{lists_conversions, pairs_view, conversions_of};
use crate::text::{has_prefix, starts_with, str_eq, concat};

verus! {

/// A conversion path from a source format to a target format.
#[derive(Debug)]
pub struct ConversionPath {
    /// Plugin ID to use for decoding
    pub decode_plugin: String,
    /// Plugin ID to use for encoding
    pub encode_plugin: String,
    /// Intermediate representation type to use
    pub ir_type: String,
    /// Estimated fidelity (min of decode + encode plugin fidelity scores)
    pub fidelity_estimate: u8,
    /// Number of conversion steps
    pub steps: u32,
}

pub struct PathSpec {
    pub decode_plugin: Seq<char>,
    pub encode_plugin: Seq<char>,
    pub ir_type: Seq<char>,
    pub fidelity_estimate: u8,
    pub steps: u32,
}

impl View for ConversionPath {
    type V = PathSpec;

    open spec fn view(&self) -> PathSpec {
        PathSpec {
            decode_plugin: self.decode_plugin@,
            encode_plugin: self.encode_plugin@,
            ir_type: self.ir_type@,
            fidelity_estimate: self.fidelity_estimate,
            steps: self.steps,
        }
    }
}

impl Clone for ConversionPath {
    fn clone(&self) -> (r: Self)
        ensures
            r@ == self@,
    {
        ConversionPath {
            decode_plugin: self.decode_plugin.clone(),
            encode_plugin: self.encode_plugin.clone(),
            ir_type: self.ir_type.clone(),
            fidelity_estimate: self.fidelity_estimate,
            steps: self.steps,
        }
    }
}

/// The intermediate representation a source format decodes into, by MIME category;
/// the structured-data types (JSON, CSV, XML, YAML) go to tables before any other
/// text type goes to documents.
pub open spec fn ir_type_of(mime: Seq<char>) -> Seq<char> {
    if has_prefix(mime, "image/"@) {
        "Image"@
    } else if has_prefix(mime, "audio/"@) || has_prefix(mime, "application/ogg"@) {
        "Audio"@
    } else if has_prefix(mime, "video/"@) {
        "Video"@
    } else if has_prefix(mime, "application/json"@) || has_prefix(mime, "text/csv"@) || has_prefix(
        mime,
        "application/xml"@,
    ) || has_prefix(mime, "application/x-yaml"@) {
        "Table"@
    } else if has_prefix(mime, "text/"@) || has_prefix(mime, "application/pdf"@) || has_prefix(mime, "application/rtf"@)
        || has_prefix(mime, "application/vnd.openxmlformats"@) {
        "Document"@
    } else if has_prefix(mime, "application/zip"@) || has_prefix(mime, "application/gzip"@) || has_prefix(
        mime,
        "application/x-tar"@,
    ) || has_prefix(mime, "application/x-7z"@) {
        "Archive"@
    } else if has_prefix(mime, "font/"@) {
        "Font"@
    } else {
        "Unknown"@
    }
}

/// Determine the IR type from the source format's MIME category (the target does
/// not enter into it).
pub fn determine_ir_type(source: &FormatId, target: &FormatId) -> (r: String)
    ensures
        r@ == ir_type_of(source.mime@),
{
    let mime = source.mime.as_str();
    if starts_with(mime, "image/") {
        String::from_str("Image")
    } else if starts_with(mime, "audio/") || starts_with(mime, "application/ogg") {
        String::from_str("Audio")
    } else if starts_with(mime, "video/") {
        String::from_str("Video")
    } else if starts_with(mime, "application/json") || starts_with(mime, "text/csv") || starts_with(
        mime,
        "application/xml",
    ) || starts_with(mime, "application/x-yaml") {
        String::from_str("Table")
    } else if starts_with(mime, "text/") || starts_with(mime, "application/pdf") || starts_with(mime, "application/rtf")
        || starts_with(mime, "application/vnd.openxmlformats") {
        String::from_str("Document")
    } else if starts_with(mime, "application/zip") || starts_with(mime, "application/gzip") || starts_with(
        mime,
        "application/x-tar",
    ) || starts_with(mime, "application/x-7z") {
        String::from_str("Archive")
    } else if starts_with(mime, "font/") {
        String::from_str("Font")
    } else {
        String::from_str("Unknown")
    }
}

pub open spec fn min_u8(a: u8, b: u8) -> u8 {
    if a <= b { a } else { b }
}

/// The path that decodes with `d` and encodes with `e`.
pub open spec fn make_path(d: ManifestSpec, e: ManifestSpec, ir: Seq<char>) -> PathSpec {
    PathSpec {
        decode_plugin: d.id,
        encode_plugin: e.id,
        ir_type: ir,
        fidelity_estimate: min_u8(d.fidelity_score, e.fidelity_score),
        steps: 1,
    }
}

/// Plugins that decode the given MIME type, in registration order.
pub open spec fn decoders_of(ps: Seq<ManifestSpec>, mime: Seq<char>) -> Seq<ManifestSpec> {
    ps.filter(|p: ManifestSpec| decodes(p, mime))
}

/// Plugins that encode the given MIME type, in registration order.
pub open spec fn encoders_of(ps: Seq<ManifestSpec>, mime: Seq<char>) -> Seq<ManifestSpec> {
    ps.filter(|p: ManifestSpec| encodes(p, mime))
}

/// Every (decoder, encoder) pair as a path: decoder-major, each in registration order.
pub open spec fn candidates(ds: Seq<ManifestSpec>, es: Seq<ManifestSpec>, ir: Seq<char>) -> Seq<PathSpec>
    decreases ds.len(),
{
    if ds.len() == 0 {
        Seq::empty()
    } else {
        candidates(ds.drop_last(), es, ir) + es.map_values(|e: ManifestSpec| make_path(ds.last(), e, ir))
    }
}

/// The priority of the first plugin with the given ID, or 0 when there is none.
pub open spec fn priority_of(ps: Seq<ManifestSpec>, id: Seq<char>) -> i32
    decreases ps.len(),
{
    if ps.len() == 0 {
        0
    } else if ps[0].id == id {
        ps[0].priority
    } else {
        priority_of(ps.drop_first(), id)
    }
}

/// Path `a` ranks strictly above path `b`: higher fidelity, or equal fidelity and a
/// decoder of higher priority.
pub open spec fn outranks(ps: Seq<ManifestSpec>, a: PathSpec, b: PathSpec) -> bool {
    a.fidelity_estimate > b.fidelity_estimate || (a.fidelity_estimate == b.fidelity_estimate && priority_of(
        ps,
        a.decode_plugin,
    ) > priority_of(ps, b.decode_plugin))
}

/// The first path of highest rank.
pub open spec fn best_of(ps: Seq<ManifestSpec>, s: Seq<PathSpec>) -> PathSpec
    decreases s.len(),
{
    if s.len() <= 1 {
        s[0]
    } else {
        let b = best_of(ps, s.drop_last());
        if outranks(ps, s.last(), b) {
            s.last()
        } else {
            b
        }
    }
}

/// The route the router chooses from `source` to `target` among the plugins `ps`.
pub open spec fn best_path(ps: Seq<ManifestSpec>, source: Seq<char>, target: Seq<char>) -> PathSpec {
    best_of(ps, candidates(decoders_of(ps, source), encoders_of(ps, target), ir_type_of(source)))
}

/// No path ranks above an earlier one.
pub open spec fn sorted_by_rank(ps: Seq<ManifestSpec>, s: Seq<PathSpec>) -> bool {
    forall|i: int, j: int| 0 <= i < j < s.len() ==> !outranks(ps, #[trigger] s[j], #[trigger] s[i])
}

pub open spec fn paths_view(v: Seq<ConversionPath>) -> Seq<PathSpec> {
    v.map_values(|p: ConversionPath| p@)
}

pub open spec fn manifests_view(v: Seq<PluginManifest>) -> Seq<ManifestSpec> {
    v.map_values(|p: PluginManifest| p@)
}

pub open spec fn manifest_refs_view(v: Seq<&PluginManifest>) -> Seq<ManifestSpec> {
    v.map_values(|p: &PluginManifest| p@)
}

pub proof fn lemma_candidates_nonempty(ds: Seq<ManifestSpec>, es: Seq<ManifestSpec>, ir: Seq<char>)
    requires
        ds.len() > 0,
        es.len() > 0,
    ensures
        candidates(ds, es, ir).len() > 0,
{
    assert(candidates(ds, es, ir) == candidates(ds.drop_last(), es, ir) + es.map_values(
        |e: ManifestSpec| make_path(ds.last(), e, ir),
    ));
}

/// Keyed route cache: (source MIME, target MIME) → ranked paths.
pub open spec fn cache_keys(c: Seq<((String, String), Vec<ConversionPath>)>) -> Seq<((Seq<char>, Seq<char>), ())> {
    c.map_values(|e: ((String, String), Vec<ConversionPath>)| ((e.0.0@, e.0.1@), ()))
}

/// Routes conversion requests to the appropriate plugins.
///
/// Formats are nodes, plugins are edges, and every path goes through an
/// intermediate representation. Chosen routes are cached per (source, target)
/// pair until the set of plugins changes.
pub struct ConversionRouter {
    plugins: Vec<PluginManifest>,
    route_cache: Vec<((String, String), Vec<ConversionPath>)>,
}

/// What a router knows: its plugins in registration order. The route cache is not
/// part of it: it never changes an answer.
pub struct RouterSpec {
    pub plugins: Seq<ManifestSpec>,
}

impl ConversionRouter {
    /// The registered manifests themselves, in registration order.
    pub closed spec fn manifests(&self) -> Seq<PluginManifest> {
        self.plugins@
    }
}

impl View for ConversionRouter {
    type V = RouterSpec;

    closed spec fn view(&self) -> RouterSpec {
        RouterSpec { plugins: manifests_view(self.plugins@) }
    }
}

/// Collect the plugins whose input (or output) formats include `mime`.
fn select_plugins<'a>(plugins: &'a Vec<PluginManifest>, mime: &str, decode: bool) -> (r: Vec<&'a PluginManifest>)
    ensures
        decode ==> manifest_refs_view(r@) == decoders_of(manifests_view(plugins@), mime@),
        !decode ==> manifest_refs_view(r@) == encoders_of(manifests_view(plugins@), mime@),
{
    let ghost ps = manifests_view(plugins@);
    let mut r: Vec<&PluginManifest> = Vec::new();
    let mut i: usize = 0;
    proof {
        reveal_with_fuel(Seq::filter, 1);
        assert(ps.take(0) =~= Seq::<ManifestSpec>::empty());
    }
    while i < plugins.len()
        invariant
            i <= plugins@.len(),
            ps == manifests_view(plugins@),
            decode ==> manifest_refs_view(r@) == ps.take(i as int).filter(|p: ManifestSpec| decodes(p, mime@)),
            !decode ==> manifest_refs_view(r@) == ps.take(i as int).filter(|p: ManifestSpec| encodes(p, mime@)),
        decreases plugins@.len() - i,
    {
        let p = &plugins[i];
        let keep = if decode {
            crate::format::any_mime(&p.input_formats, mime)
        } else {
            crate::format::any_mime(&p.output_formats, mime)
        };
        proof {
            assert(ps.take(i + 1) =~= ps.take(i as int).push(ps[i as int]));
            ps.take(i as int).lemma_filter_push(ps[i as int], |p: ManifestSpec| decodes(p, mime@));
            ps.take(i as int).lemma_filter_push(ps[i as int], |p: ManifestSpec| encodes(p, mime@));
            assert(ps[i as int] == p@);
            if decode {
                if keep {
                    let k = choose|k: int| 0 <= k < p.input_formats@.len() && (#[trigger] p.input_formats@[k]).mime@ == mime@;
                    assert(p@.input_formats[k] == p.input_formats@[k]@);
                } else {
                    assert forall|k: int| 0 <= k < p@.input_formats.len() implies (#[trigger] p@.input_formats[k]).mime != mime@ by {
                        assert(p@.input_formats[k] == p.input_formats@[k]@);
                    }
                }
            } else {
                if keep {
                    let k = choose|k: int| 0 <= k < p.output_formats@.len() && (#[trigger] p.output_formats@[k]).mime@ == mime@;
                    assert(p@.output_formats[k] == p.output_formats@[k]@);
                } else {
                    assert forall|k: int| 0 <= k < p@.output_formats.len() implies (#[trigger] p@.output_formats[k]).mime != mime@ by {
                        assert(p@.output_formats[k] == p.output_formats@[k]@);
                    }
                }
            }
        }
        if keep {
            let ghost before = r@;
            r.push(p);
            proof {
                assert(manifest_refs_view(r@) =~= manifest_refs_view(before).push(p@));
            }
        }
        i = i + 1;
    }
    proof {
        assert(ps.take(i as int) =~= ps);
    }
    r
}

/// The priority of the first plugin with the given ID, or 0.
fn lookup_priority(plugins: &Vec<PluginManifest>, id: &str) -> (r: i32)
    ensures
        r == priority_of(manifests_view(plugins@), id@),
{
    let ghost ps = manifests_view(plugins@);
    let mut i: usize = 0;
    proof {
        assert(ps.skip(0) =~= ps);
    }
    while i < plugins.len()
        invariant
            i <= plugins@.len(),
            ps == manifests_view(plugins@),
            priority_of(ps, id@) == priority_of(ps.skip(i as int), id@),
        decreases plugins@.len() - i,
    {
        assert(ps.skip(i as int)[0] == ps[i as int]);
        if str_eq(plugins[i].id.as_str(), id) {
            return plugins[i].priority;
        }
        assert(ps.skip(i as int).drop_first() =~= ps.skip(i + 1));
        i = i + 1;
    }
    0
}

/// Insert a path into a list ranked from best to worst, after every path that
/// ranks at least as high (so paths of equal rank keep their order).
fn insert_ranked(plugins: &Vec<PluginManifest>, sorted: &mut Vec<ConversionPath>, x: ConversionPath)
    requires
        sorted_by_rank(manifests_view(plugins@), paths_view(old(sorted)@)),
    ensures
        sorted_by_rank(manifests_view(plugins@), paths_view(final(sorted)@)),
        paths_view(final(sorted)@).to_multiset() == paths_view(old(sorted)@).to_multiset().insert(x@),
        paths_view(final(sorted)@).len() == paths_view(old(sorted)@).len() + 1,
        old(sorted)@.len() == 0 ==> paths_view(final(sorted)@)[0] == x@,
        old(sorted)@.len() > 0 ==> paths_view(final(sorted)@)[0] == (if outranks(
            manifests_view(plugins@),
            x@,
            paths_view(old(sorted)@)[0],
        ) {
            x@
        } else {
            paths_view(old(sorted)@)[0]
        }),
{
    let ghost ps = manifests_view(plugins@);
    let ghost s = paths_view(sorted@);
    let xp = lookup_priority(plugins, x.decode_plugin.as_str());
    let mut pos: usize = 0;
    let mut found = false;
    while pos < sorted.len() && !found
        invariant
            pos <= sorted@.len(),
            s == paths_view(sorted@),
            sorted@ == old(sorted)@,
            xp == priority_of(ps, x@.decode_plugin),
            ps == manifests_view(plugins@),
            forall|k: int| 0 <= k < pos ==> !outranks(ps, x@, #[trigger] s[k]),
            found ==> pos < s.len() && outranks(ps, x@, s[pos as int]),
        decreases sorted@.len() - pos + (if found { 0int } else { 1int }),
    {
        let p = lookup_priority(plugins, sorted[pos].decode_plugin.as_str());
        assert(s[pos as int] == sorted@[pos as int]@);
        if x.fidelity_estimate > sorted[pos].fidelity_estimate || (x.fidelity_estimate == sorted[pos].fidelity_estimate
            && xp > p) {
            found = true;
        } else {
            pos = pos + 1;
        }
    }
    let ghost xv = x@;
    sorted.insert(pos, x);
    proof {
        let t = paths_view(sorted@);
        assert(t =~= s.insert(pos as int, xv));
        to_multiset_insert(s, pos as int, xv);
        assert forall|i: int, j: int| 0 <= i < j < t.len() implies !outranks(ps, #[trigger] t[j], #[trigger] t[i]) by {
            if j < pos {
                assert(t[i] == s[i] && t[j] == s[j]);
            } else if j == pos {
                assert(t[i] == s[i]);
            } else if i < pos {
                assert(t[i] == s[i] && t[j] == s[j - 1]);
                assert(!outranks(ps, s[j - 1], s[i]));
            } else if i == pos {
                assert(t[j] == s[j - 1]);
                assert(outranks(ps, xv, s[pos as int]));
                if j - 1 > pos {
                    assert(!outranks(ps, s[j - 1], s[pos as int]));
                }
            } else {
                assert(t[i] == s[i - 1] && t[j] == s[j - 1]);
            }
        }
        if s.len() > 0 {
            if pos == 0 {
                assert(outranks(ps, xv, s[0]));
            } else {
                assert(!outranks(ps, xv, s[0]));
                assert(t[0] == s[0]);
            }
        }
    }
}

impl ConversionRouter {
    /// A cached entry holds the ranked paths for its key under the current plugins.
    #[verifier::type_invariant]
    closed spec fn inv(self) -> bool {
        let ps = manifests_view(self.plugins@);
        &&& keys_unique(cache_keys(self.route_cache@))
        &&& forall|k: int| 0 <= k < self.route_cache@.len() ==> {
            let e = #[trigger] self.route_cache@[k];
            &&& e.1@.len() > 0
            &&& decoders_of(ps, e.0.0@).len() > 0
            &&& encoders_of(ps, e.0.1@).len() > 0
            &&& e.1@[0]@ == best_path(ps, e.0.0@, e.0.1@)
        }
    }

    pub fn new() -> (r: Self)
        ensures
            r@.plugins == Seq::<ManifestSpec>::empty(),
    {
        let r = ConversionRouter { plugins: Vec::new(), route_cache: Vec::new() };
        assert(manifests_view(r.plugins@) =~= Seq::<ManifestSpec>::empty());
        r
    }

    /// Register a plugin manifest for routing (after every plugin already registered).
    pub fn register_plugin(&mut self, manifest: PluginManifest)
        ensures
            final(self)@.plugins == old(self)@.plugins.push(manifest@),
            final(self).manifests() == old(self).manifests().push(manifest),
    {
        let ghost mv = manifest@;
        self.route_cache = Vec::new();
        let mut plugins: Vec<PluginManifest> = Vec::new();
        std::mem::swap(&mut plugins, &mut self.plugins);
        plugins.push(manifest);
        std::mem::swap(&mut plugins, &mut self.plugins);
        proof {
            assert(manifests_view(self.plugins@) =~= manifests_view(old(self).plugins@).push(mv));
        }
    }

    /// Remove every plugin with the given ID.
    pub fn unregister_plugin(&mut self, plugin_id: &str)
        ensures
            final(self)@.plugins == old(self)@.plugins.filter(|p: ManifestSpec| p.id != plugin_id@),
    {
        self.route_cache = Vec::new();
        let mut old_plugins: Vec<PluginManifest> = Vec::new();
        std::mem::swap(&mut old_plugins, &mut self.plugins);
        let ghost ps = manifests_view(old_plugins@);
        let mut kept: Vec<PluginManifest> = Vec::new();
        proof {
            reveal_with_fuel(Seq::filter, 1);
            assert(ps.take(0) =~= Seq::<ManifestSpec>::empty());
        }
        while old_plugins.len() > 0
            invariant
                ps == manifests_view(old(self).plugins@),
                old_plugins@.len() <= ps.len(),
                manifests_view(old_plugins@) == ps.skip(ps.len() - old_plugins@.len()),
                manifests_view(kept@) == ps.take(ps.len() - old_plugins@.len()).filter(|p: ManifestSpec| p.id != plugin_id@),
            decreases old_plugins@.len(),
        {
            let ghost i = ps.len() - old_plugins@.len();
            let ghost prev = old_plugins@;
            let p = old_plugins.remove(0);
            proof {
                assert(ps.skip(i)[0] == p@);
                assert(old_plugins@ =~= prev.drop_first());
                assert(manifests_view(prev).drop_first() =~= ps.skip(i + 1));
                assert(ps.take(i + 1) =~= ps.take(i).push(p@));
                ps.take(i).lemma_filter_push(p@, |q: ManifestSpec| q.id != plugin_id@);
                assert(manifests_view(old_plugins@) =~= ps.skip(i + 1));
            }
            if !str_eq(p.id.as_str(), plugin_id) {
                let ghost before = kept@;
                kept.push(p);
                proof {
                    assert(manifests_view(kept@) =~= manifests_view(before).push(ps[i]));
                }
            }
        }
        proof {
            assert(ps.take(ps.len() as int) =~= ps);
        }
        std::mem::swap(&mut kept, &mut self.plugins);
    }

    /// All registered plugin manifests, in registration order.
    pub fn plugins(&self) -> (r: &[PluginManifest])
        ensures
            r@ == self.manifests(),
            manifests_view(r@) == self@.plugins,
    {
        self.plugins.as_slice()
    }

    /// Plugins that can decode a given format (same MIME type), in registration order.
    pub fn find_decoders(&self, format: &FormatId) -> (r: Vec<&PluginManifest>)
        ensures
            manifest_refs_view(r@) == decoders_of(self@.plugins, format.mime@),
    {
        select_plugins(&self.plugins, format.mime.as_str(), true)
    }

    /// Plugins that can encode a given format (same MIME type), in registration order.
    pub fn find_encoders(&self, format: &FormatId) -> (r: Vec<&PluginManifest>)
        ensures
            manifest_refs_view(r@) == encoders_of(self@.plugins, format.mime@),
    {
        select_plugins(&self.plugins, format.mime.as_str(), false)
    }

    /// Every conversion the registered plugins offer: each input format of one plugin
    /// with each output format of another (or the same) plugin of a different MIME type,
    /// one entry per pair of MIME types, ordered by input then output MIME type.
    pub fn supported_conversions(&self) -> (r: Vec<(FormatId, FormatId)>)
        ensures
            lists_conversions(self@.plugins, pairs_view(r@)),
    {
        conversions_of(&self.plugins)
    }

    /// The cached ranked paths for a key, if any.
    fn cache_lookup(&self, source: &str, target: &str) -> (r: Option<usize>)
        ensures
            match r {
                Some(k) => k < self.route_cache@.len() && self.route_cache@[k as int].0.0@ == source@
                    && self.route_cache@[k as int].0.1@ == target@,
                None => !has_key(cache_keys(self.route_cache@), (source@, target@)),
            },
    {
        let mut k: usize = 0;
        while k < self.route_cache.len()
            invariant
                k <= self.route_cache@.len(),
                forall|j: int| 0 <= j < k ==> ((#[trigger] self.route_cache@[j]).0.0@, self.route_cache@[j].0.1@) != (source@, target@),
            decreases self.route_cache@.len() - k,
        {
            if str_eq(self.route_cache[k].0.0.as_str(), source) && str_eq(self.route_cache[k].0.1.as_str(), target) {
                return Some(k);
            }
            k = k + 1;
        }
        assert forall|j: int| 0 <= j < cache_keys(self.route_cache@).len() implies (#[trigger] cache_keys(self.route_cache@)[j]).0 != (source@, target@) by {
            assert(cache_keys(self.route_cache@)[j].0 == (self.route_cache@[j].0.0@, self.route_cache@[j].0.1@));
        }
        None
    }

    /// Find the best conversion path from source to target format: the first
    /// (decoder, encoder) pair, decoder-major in registration order, of highest
    /// fidelity and then highest decoder priority.
    pub fn find_path(&mut self, source: &FormatId, target: &FormatId) -> (r: Result<ConversionPath, CoreError>)
        ensures
            final(self)@ == old(self)@,
            final(self).manifests() == old(self).manifests(),
            decoders_of(old(self)@.plugins, source.mime@).len() == 0 ==> (r matches Err(
                CoreError::NoPluginFound(msg),
            ) && msg@ == "No decoder for "@ + source.mime@),
            decoders_of(old(self)@.plugins, source.mime@).len() > 0 && encoders_of(old(self)@.plugins, target.mime@).len()
                == 0 ==> (r matches Err(CoreError::NoPluginFound(msg)) && msg@ == "No encoder for "@ + target.mime@),
            decoders_of(old(self)@.plugins, source.mime@).len() > 0 && encoders_of(old(self)@.plugins, target.mime@).len()
                > 0 ==> (r matches Ok(p) && p@ == best_path(old(self)@.plugins, source.mime@, target.mime@)),
    {
        proof { use_type_invariant(&*self); }
        let ghost ps = manifests_view(self.plugins@);
        // A cached route is the answer.
        let cached = self.cache_lookup(source.mime.as_str(), target.mime.as_str());
        if let Some(k) = cached {
            assert(self.route_cache@[k as int].1@.len() > 0);
            let best = self.route_cache[k].1[0].clone();
            return Ok(best);
        }
        let decoders = select_plugins(&self.plugins, source.mime.as_str(), true);
        let encoders = select_plugins(&self.plugins, target.mime.as_str(), false);
        if decoders.len() == 0 {
            return Err(CoreError::NoPluginFound(concat("No decoder for ", source.mime.as_str())));
        }
        if encoders.len() == 0 {
            return Err(CoreError::NoPluginFound(concat("No encoder for ", target.mime.as_str())));
        }
        let ghost ds = manifest_refs_view(decoders@);
        let ghost es = manifest_refs_view(encoders@);
        let ir_type = determine_ir_type(source, target);
        let ghost ir = ir_type@;
        // Every (decoder, encoder) pair is a candidate path.
        let mut paths: Vec<ConversionPath> = Vec::new();
        let mut i: usize = 0;
        proof {
            assert(ds.take(0) =~= Seq::<ManifestSpec>::empty());
            assert(paths_view(paths@) =~= Seq::<PathSpec>::empty());
        }
        while i < decoders.len()
            invariant
                i <= decoders@.len(),
                ds == manifest_refs_view(decoders@),
                es == manifest_refs_view(encoders@),
                ir == ir_type@,
                paths_view(paths@) == candidates(ds.take(i as int), es, ir),
            decreases decoders@.len() - i,
        {
            let d = decoders[i];
            let mut j: usize = 0;
            proof {
                assert(es.take(0).map_values(|e: ManifestSpec| make_path(ds[i as int], e, ir)) =~= Seq::<PathSpec>::empty());
                assert(paths_view(paths@) =~= candidates(ds.take(i as int), es, ir) + es.take(0).map_values(
                    |e: ManifestSpec| make_path(ds[i as int], e, ir),
                ));
            }
            while j < encoders.len()
                invariant
                    i < decoders@.len(),
                    j <= encoders@.len(),
                    d == decoders@[i as int],
                    ds == manifest_refs_view(decoders@),
                    es == manifest_refs_view(encoders@),
                    ir == ir_type@,
                    paths_view(paths@) == candidates(ds.take(i as int), es, ir) + es.take(j as int).map_values(
                        |e: ManifestSpec| make_path(ds[i as int], e, ir),
                    ),
                decreases encoders@.len() - j,
            {
                let e = encoders[j];
                let fidelity = if d.fidelity_score <= e.fidelity_score {
                    d.fidelity_score
                } else {
                    e.fidelity_score
                };
                let path = ConversionPath {
                    decode_plugin: d.id.clone(),
                    encode_plugin: e.id.clone(),
                    ir_type: ir_type.clone(),
                    fidelity_estimate: fidelity,
                    steps: 1,
                };
                let ghost before = paths@;
                proof {
                    assert(ds[i as int] == d@);
                    assert(es[j as int] == e@);
                    assert(path@ == make_path(ds[i as int], es[j as int], ir));
                }
                paths.push(path);
                proof {
                    assert(es.take(j + 1) =~= es.take(j as int).push(es[j as int]));
                    assert(es.take(j + 1).map_values(|e: ManifestSpec| make_path(ds[i as int], e, ir)) =~= es.take(
                        j as int,
                    ).map_values(|e: ManifestSpec| make_path(ds[i as int], e, ir)).push(
                        make_path(ds[i as int], es[j as int], ir),
                    ));
                    assert(paths_view(paths@) =~= paths_view(before).push(make_path(ds[i as int], es[j as int], ir)));
                }
                j = j + 1;
            }
            proof {
                assert(es.take(j as int) =~= es);
                let t = ds.take(i + 1);
                assert(t.drop_last() =~= ds.take(i as int));
                assert(t.last() == ds[i as int]);
            }
            i = i + 1;
        }
        proof {
            assert(ds.take(i as int) =~= ds);
            lemma_candidates_nonempty(ds, es, ir);
        }
        // Rank them: highest fidelity first, then highest decoder priority; equal
        // ranks keep their order.
        let ghost cands = paths_view(paths@);
        let total = paths.len();
        assert(cands.len() == total);
        let mut ranked: Vec<ConversionPath> = Vec::new();
        let mut n: usize = 0;
        proof {
            assert(paths_view(ranked@) =~= Seq::<PathSpec>::empty());
            broadcast use vstd::seq_lib::group_to_multiset_ensures;
            assert(cands.take(0) =~= paths_view(ranked@));
        }
        while paths.len() > 0
            invariant
                n + paths@.len() == cands.len(),
                cands.len() <= usize::MAX,
                paths_view(paths@) == cands.skip(n as int),
                sorted_by_rank(ps, paths_view(ranked@)),
                paths_view(ranked@).len() == n,
                paths_view(ranked@).to_multiset() == cands.take(n as int).to_multiset(),
                n > 0 ==> paths_view(ranked@)[0] == best_of(ps, cands.take(n as int)),
                ps == manifests_view(self.plugins@),
            decreases paths@.len(),
        {
            let ghost prev = paths@;
            let x = paths.remove(0);
            let ghost xv = x@;
            let ghost before = paths_view(ranked@);
            proof {
                assert(cands.skip(n as int)[0] == xv);
                assert(cands.take(n + 1) =~= cands.take(n as int).push(xv));
                assert(cands.take(n + 1).drop_last() =~= cands.take(n as int));
                assert(paths@ =~= prev.drop_first());
                assert(paths_view(prev).drop_first() =~= cands.skip(n + 1));
                assert(paths_view(paths@) =~= cands.skip(n + 1));
                vstd::seq_lib::to_multiset_build(cands.take(n as int), xv);
            }
            insert_ranked(&self.plugins, &mut ranked, x);
            n = n + 1;
        }
        if ranked.len() == 0 {
            return Err(CoreError::UnsupportedConversion { source: source.mime.clone(), target: target.mime.clone() });
        }
        proof {
            assert(cands.take(n as int) =~= cands);
        }
        let best = ranked[0].clone();
        // Remember the ranking for this pair of formats.
        let ghost bv = best@;
        let key = (source.mime.clone(), target.mime.clone());
        let ghost kv = (source.mime@, target.mime@);
        let mut cache: Vec<((String, String), Vec<ConversionPath>)> = Vec::new();
        std::mem::swap(&mut cache, &mut self.route_cache);
        let ghost old_cache = cache@;
        proof {
            assert(!has_key(cache_keys(cache@), kv));
        }
        cache.push((key, ranked));
        proof {
            let ck = cache_keys(cache@);
            assert(ck =~= cache_keys(old_cache).push((kv, ())));
            assert forall|a: int, b: int| 0 <= a < ck.len() && 0 <= b < ck.len() && a != b implies (#[trigger] ck[a]).0 != (#[trigger] ck[b]).0 by {
                if a == old_cache.len() {
                    assert(cache_keys(old_cache)[b].0 != kv);
                } else if b == old_cache.len() {
                    assert(cache_keys(old_cache)[a].0 != kv);
                } else {
                    assert(cache_keys(old_cache)[a] == ck[a] && cache_keys(old_cache)[b] == ck[b]);
                }
            }
            assert(cache@[old_cache.len() as int].1@[0]@ == bv);
        }
        std::mem::swap(&mut cache, &mut self.route_cache);
        Ok(best)
    }
}

impl Default for ConversionRouter {
    fn default() -> (r: Self)
        ensures
            r@.plugins == Seq::<ManifestSpec>::empty(),
    {
        Self::new()
    }
}

} // verus!
