//! The records the desktop front end exchanges with the engine, and how they are
//! made from the engine's own values.
use vstd::prelude::*;
use crate::format::{FormatId, FormatSpec, strings_view};
use crate::order::{str_lt, lemma_str_lt_asymmetric, lemma_str_lt_total, lemma_str_lt_transitive};
use crate::queue::{QueueItem, QueueItemStatus, QueueStats};

verus! {

/// A format as the front end shows it.
#[derive(Debug)]
pub struct FormatInfo {
    pub mime: String,
    pub extensions: Vec<String>,
    pub display_name: String,
}

/// A request to convert one file.
#[derive(Debug)]
pub struct ConversionRequest {
    pub input_path: String,
    pub output_path: String,
    pub target_format: String,
    pub quality: String,
}

/// A request to convert several files into one directory.
#[derive(Debug)]
pub struct BatchRequest {
    pub input_paths: Vec<String>,
    pub output_dir: String,
    pub target_format: String,
    pub quality: String,
}

/// How a conversion ended.
#[derive(Debug)]
pub struct ConversionResult {
    pub success: bool,
    pub bytes_written: Option<u64>,
    pub checksum: Option<String>,
    pub error: Option<String>,
    pub duration_ms: Option<u64>,
}

/// Counts of queue items by status.
#[derive(Debug, Clone, Copy, PartialEq, Eq, Structural)]
pub struct QueueStatus {
    pub total: usize,
    pub pending: usize,
    pub converting: usize,
    pub completed: usize,
    pub failed: usize,
}

impl View for FormatInfo {
    type V = FormatSpec;

    open spec fn view(&self) -> FormatSpec {
        FormatSpec {
            mime: self.mime@,
            extensions: strings_view(self.extensions@),
            display_name: self.display_name@,
        }
    }
}

impl Clone for FormatInfo {
    fn clone(&self) -> (r: Self)
        ensures
            r@ == self@,
    {
        let extensions = self.extensions.clone();
        assert(extensions@ =~= self.extensions@);
        FormatInfo { mime: self.mime.clone(), extensions, display_name: self.display_name.clone() }
    }
}

impl FormatInfo {
    /// The format's MIME type, extensions and name.
    pub fn from_format(f: FormatId) -> (r: Self)
        ensures
            r.mime@ == f.mime@,
            strings_view(r.extensions@) == strings_view(f.extensions@),
            r.display_name@ == f.display_name@,
    {
        FormatInfo { mime: f.mime, extensions: f.extensions, display_name: f.display_name }
    }
}

impl QueueStatus {
    /// The counts of a queue's statistics.
    pub fn from_stats(s: QueueStats) -> (r: Self)
        ensures
            r == (QueueStatus {
                total: s.total,
                pending: s.pending,
                converting: s.converting,
                completed: s.completed,
                failed: s.failed,
            }),
    {
        QueueStatus {
            total: s.total,
            pending: s.pending,
            converting: s.converting,
            completed: s.completed,
            failed: s.failed,
        }
    }
}

impl ConversionResult {
    /// The result of a single conversion, given how many conversions completed in its
    /// run: on success what the item wrote, otherwise its error; with the time taken.
    pub fn for_single(completed: usize, item: &QueueItem, duration_ms: u64) -> (r: Self)
        ensures
            r.success == (completed > 0),
            completed > 0 ==> r.bytes_written == item.bytes_written && r.checksum == item.output_checksum
                && r.error is None,
            completed == 0 ==> r.bytes_written is None && r.checksum is None && r.error == item.error,
            r.duration_ms == Some(duration_ms),
    {
        if completed > 0 {
            ConversionResult {
                success: true,
                bytes_written: item.bytes_written,
                checksum: item.output_checksum.clone(),
                error: None,
                duration_ms: Some(duration_ms),
            }
        } else {
            ConversionResult {
                success: false,
                bytes_written: None,
                checksum: None,
                error: item.error.clone(),
                duration_ms: Some(duration_ms),
            }
        }
    }

    /// The result of one conversion of a batch of `count` that took `total_ms` in all:
    /// whether the item completed, what it wrote, its error, and an equal share of the time.
    pub fn for_batch_item(item: &QueueItem, total_ms: u64, count: u64) -> (r: Self)
        requires
            count > 0,
        ensures
            r.success == (item.status == QueueItemStatus::Completed),
            r.bytes_written == item.bytes_written,
            r.checksum == item.output_checksum,
            r.error == item.error,
            r.duration_ms == Some((total_ms / count) as u64),
    {
        ConversionResult {
            success: item.status == QueueItemStatus::Completed,
            bytes_written: item.bytes_written,
            checksum: item.output_checksum.clone(),
            error: item.error.clone(),
            duration_ms: Some(total_ms / count),
        }
    }
}

/// A history entry as the front end shows it, with its time written out.
#[derive(Debug)]
pub struct HistoryEntry {
    pub input_path: String,
    pub output_path: String,
    pub source_format: String,
    pub target_format: String,
    pub success: bool,
    pub bytes_written: Option<u64>,
    pub duration_ms: Option<u64>,
    pub timestamp: String,
    pub error: Option<String>,
}

impl HistoryEntry {
    /// The entry `e` with its time written as `timestamp`.
    pub fn from_entry(e: &crate::state::HistoryEntry, timestamp: String) -> (r: Self)
        ensures
            r.input_path == e.input_path,
            r.output_path == e.output_path,
            r.source_format == e.source_format,
            r.target_format == e.target_format,
            r.success == e.success,
            r.bytes_written == e.bytes_written,
            r.duration_ms == e.duration_ms,
            r.timestamp == timestamp,
            r.error == e.error,
    {
        HistoryEntry {
            input_path: e.input_path.clone(),
            output_path: e.output_path.clone(),
            source_format: e.source_format.clone(),
            target_format: e.target_format.clone(),
            success: e.success,
            bytes_written: e.bytes_written,
            duration_ms: e.duration_ms,
            timestamp,
            error: e.error.clone(),
        }
    }
}

/// The display name of `a` comes before that of `b`.
pub open spec fn name_before(a: FormatSpec, b: FormatSpec) -> bool {
    str_lt(a.display_name, b.display_name)
}

/// `x` placed into `r` just after the last format whose name does not come after its
/// own: in a list ordered by name, after every format named up to its own name and
/// before the rest.
pub open spec fn insert_by_name(r: Seq<FormatSpec>, x: FormatSpec) -> Seq<FormatSpec>
    decreases r.len(),
{
    if r.len() == 0 {
        seq![x]
    } else if name_before(x, r.last()) {
        insert_by_name(r.drop_last(), x).push(r.last())
    } else {
        r.push(x)
    }
}

/// `s` ordered by display name, formats of equal name in the order of `s`.
pub open spec fn sort_by_name(s: Seq<FormatSpec>) -> Seq<FormatSpec>
    decreases s.len(),
{
    if s.len() == 0 {
        Seq::empty()
    } else {
        insert_by_name(sort_by_name(s.drop_last()), s.last())
    }
}

/// `s` without each format whose MIME type is that of the format just before it.
pub open spec fn dedup_mime(s: Seq<FormatSpec>) -> Seq<FormatSpec>
    decreases s.len(),
{
    if s.len() == 0 {
        Seq::empty()
    } else if s.len() >= 2 && s[s.len() - 2].mime == s.last().mime {
        dedup_mime(s.drop_last())
    } else {
        dedup_mime(s.drop_last()).push(s.last())
    }
}

/// The source formats of conversions, in order.
pub open spec fn sources_of(v: Seq<(FormatId, FormatId)>) -> Seq<FormatSpec> {
    v.map_values(|p: (FormatId, FormatId)| p.0@)
}

/// The formats the front end lists for the conversions `v`: their source formats
/// ordered by name, without a format whose MIME type is that of the one before it.
pub open spec fn format_listing(v: Seq<(FormatId, FormatId)>) -> Seq<FormatSpec> {
    dedup_mime(sort_by_name(sources_of(v)))
}

/// The formats of a list of records.
pub open spec fn infos_view(v: Seq<FormatInfo>) -> Seq<FormatSpec> {
    v.map_values(|f: FormatInfo| f@)
}

/// Where `insert_by_name` places `x` in `r`.
pub open spec fn insert_pos(r: Seq<FormatSpec>, x: FormatSpec) -> int
    decreases r.len(),
{
    if r.len() == 0 {
        0
    } else if name_before(x, r.last()) {
        insert_pos(r.drop_last(), x)
    } else {
        r.len() as int
    }
}

proof fn lemma_insert_pos(r: Seq<FormatSpec>, x: FormatSpec)
    ensures
        0 <= insert_pos(r, x) <= r.len(),
        insert_by_name(r, x) == r.insert(insert_pos(r, x), x),
    decreases r.len(),
{
    if r.len() == 0 {
        assert(seq![x] =~= r.insert(0, x));
    } else if name_before(x, r.last()) {
        lemma_insert_pos(r.drop_last(), x);
        let p = insert_pos(r.drop_last(), x);
        assert(r.drop_last().insert(p, x).push(r.last()) =~= r.insert(p, x));
    } else {
        assert(r.push(x) =~= r.insert(r.len() as int, x));
    }
}

/// The source formats of `conversions` for the front end's list: ordered by display
/// name (formats of equal name in their order), each dropped whose MIME type is that
/// of the format before it.
pub fn list_format_infos(conversions: Vec<(FormatId, FormatId)>) -> (r: Vec<FormatInfo>)
    ensures
        infos_view(r@) == format_listing(conversions@),
{
    let ghost src = sources_of(conversions@);
    let mut sorted: Vec<FormatInfo> = Vec::new();
    let mut i: usize = 0;
    proof {
        assert(src.take(0) =~= Seq::<FormatSpec>::empty());
        assert(infos_view(sorted@) =~= Seq::<FormatSpec>::empty());
    }
    while i < conversions.len()
        invariant
            i <= conversions@.len(),
            src == sources_of(conversions@),
            infos_view(sorted@) == sort_by_name(src.take(i as int)),
        decreases conversions@.len() - i,
    {
        let x = FormatInfo::from_format(conversions[i].0.clone());
        let ghost sv = infos_view(sorted@);
        let mut p: usize = sorted.len();
        proof {
            assert(sv.take(p as int) =~= sv);
        }
        while p > 0 && crate::order::str_less(x.display_name.as_str(), sorted[p - 1].display_name.as_str())
            invariant
                p <= sorted@.len(),
                sv == infos_view(sorted@),
                insert_pos(sv, x@) == insert_pos(sv.take(p as int), x@),
            decreases p,
        {
            proof {
                assert(sv.take(p as int).drop_last() =~= sv.take(p - 1));
                assert(sv.take(p as int).last() == sv[p - 1]);
            }
            p = p - 1;
        }
        proof {
            if p > 0 {
                assert(sv.take(p as int).last() == sv[p - 1]);
            } else {
                assert(sv.take(0) =~= Seq::<FormatSpec>::empty());
            }
            lemma_insert_pos(sv, x@);
            assert(src[i as int] == x@);
            assert(src.take(i + 1).drop_last() =~= src.take(i as int));
        }
        sorted.insert(p, x);
        proof {
            assert(infos_view(sorted@) =~= sv.insert(p as int, x@));
        }
        i = i + 1;
    }
    proof {
        assert(src.take(conversions@.len() as int) =~= src);
    }
    let ghost s = infos_view(sorted@);
    let mut r: Vec<FormatInfo> = Vec::new();
    let mut k: usize = 0;
    proof {
        assert(s.take(0) =~= Seq::<FormatSpec>::empty());
        assert(infos_view(r@) =~= Seq::<FormatSpec>::empty());
    }
    while k < sorted.len()
        invariant
            k <= sorted@.len(),
            s == infos_view(sorted@),
            infos_view(r@) == dedup_mime(s.take(k as int)),
        decreases sorted@.len() - k,
    {
        let repeat = k > 0 && crate::text::str_eq(sorted[k - 1].mime.as_str(), sorted[k].mime.as_str());
        proof {
            let t = s.take(k + 1);
            assert(t.drop_last() =~= s.take(k as int));
            assert(t.last() == s[k as int]);
            if k > 0 {
                assert(t[t.len() - 2] == s[k - 1]);
            }
        }
        if !repeat {
            let ghost before = infos_view(r@);
            r.push(sorted[k].clone());
            proof {
                assert(infos_view(r@) =~= before.push(s[k as int]));
            }
        }
        k = k + 1;
    }
    proof {
        assert(s.take(sorted@.len() as int) =~= s);
    }
    r
}

/// No format of `s` is named before a format placed earlier.
pub open spec fn ordered_by_name(s: Seq<FormatSpec>) -> bool {
    forall|i: int, j: int| 0 <= i < j < s.len() ==> !name_before(#[trigger] s[j], #[trigger] s[i])
}

/// No two neighbouring formats of `s` share a MIME type.
pub open spec fn no_neighbour_repeats(s: Seq<FormatSpec>) -> bool {
    forall|i: int| 1 <= i < s.len() ==> (#[trigger] s[i]).mime != s[i - 1].mime
}

proof fn lemma_not_before_transitive(a: FormatSpec, b: FormatSpec, c: FormatSpec)
    requires
        !name_before(b, a),
        !name_before(c, b),
    ensures
        !name_before(c, a),
{
    if name_before(c, a) {
        if a.display_name != b.display_name {
            lemma_str_lt_total(a.display_name, b.display_name);
            lemma_str_lt_transitive(c.display_name, a.display_name, b.display_name);
        }
    }
}

proof fn lemma_ordered_prefix(r: Seq<FormatSpec>)
    requires
        ordered_by_name(r),
        r.len() > 0,
    ensures
        ordered_by_name(r.drop_last()),
{
    let r0 = r.drop_last();
    assert forall|i: int, j: int| 0 <= i < j < r0.len() implies !name_before(#[trigger] r0[j], #[trigger] r0[i]) by {
        assert(r0[i] == r[i] && r0[j] == r[j]);
    }
}

proof fn lemma_insert_keeps_order(r: Seq<FormatSpec>, x: FormatSpec)
    requires
        ordered_by_name(r),
    ensures
        ordered_by_name(insert_by_name(r, x)),
    decreases r.len(),
{
    if r.len() == 0 {
    } else if name_before(x, r.last()) {
        let r0 = r.drop_last();
        let last = r.last();
        lemma_ordered_prefix(r);
        lemma_insert_keeps_order(r0, x);
        lemma_insert_pos(r0, x);
        let t = insert_by_name(r0, x);
        let p = insert_pos(r0, x);
        lemma_str_lt_asymmetric(x.display_name, last.display_name);
        assert forall|i: int| 0 <= i < t.len() implies !name_before(last, #[trigger] t[i]) by {
            if i < p {
                assert(t[i] == r[i]);
                assert(!name_before(r[r.len() - 1], r[i]));
            } else if i > p {
                assert(t[i] == r[i - 1]);
                assert(!name_before(r[r.len() - 1], r[i - 1]));
            }
        }
        let res = t.push(last);
        assert forall|i: int, j: int| 0 <= i < j < res.len() implies !name_before(#[trigger] res[j], #[trigger] res[i]) by {
            assert(res[i] == t[i]);
            if j < t.len() {
                assert(res[j] == t[j]);
            }
        }
    } else {
        let res = r.push(x);
        assert forall|i: int, j: int| 0 <= i < j < res.len() implies !name_before(#[trigger] res[j], #[trigger] res[i]) by {
            if j == r.len() && i < r.len() - 1 {
                assert(!name_before(r[r.len() - 1], r[i]));
                lemma_not_before_transitive(r[i], r[r.len() - 1], x);
            }
        }
    }
}

/// Sorting by name gives a list ordered by name.
pub proof fn lemma_sort_ordered(s: Seq<FormatSpec>)
    ensures
        ordered_by_name(sort_by_name(s)),
    decreases s.len(),
{
    if s.len() > 0 {
        lemma_sort_ordered(s.drop_last());
        lemma_insert_keeps_order(sort_by_name(s.drop_last()), s.last());
    }
}

/// Dropping neighbouring repeats keeps a list ordered by name, leaves no neighbouring
/// repeats, keeps only formats of the list, and keeps its last MIME type last.
pub proof fn lemma_dedup(s: Seq<FormatSpec>)
    requires
        ordered_by_name(s),
    ensures
        ordered_by_name(dedup_mime(s)),
        no_neighbour_repeats(dedup_mime(s)),
        forall|k: int|
            0 <= k < dedup_mime(s).len() ==> exists|j: int| 0 <= j < s.len() && s[j] == #[trigger] dedup_mime(s)[k],
        s.len() > 0 ==> dedup_mime(s).len() > 0 && dedup_mime(s).last().mime == s.last().mime,
    decreases s.len(),
{
    if s.len() > 0 {
        let s0 = s.drop_last();
        lemma_ordered_prefix(s);
        lemma_dedup(s0);
        let d0 = dedup_mime(s0);
        assert forall|k: int| 0 <= k < d0.len() implies exists|j: int| 0 <= j < s.len() && s[j] == #[trigger] d0[k] by {
            let j = choose|j: int| 0 <= j < s0.len() && s0[j] == d0[k];
            assert(s[j] == s0[j]);
        }
        if s.len() >= 2 && s[s.len() - 2].mime == s.last().mime {
            assert(dedup_mime(s) == d0);
        } else {
            let last = s.last();
            let d = d0.push(last);
            assert(dedup_mime(s) == d);
            assert forall|i: int| 0 <= i < d0.len() implies !name_before(last, #[trigger] d0[i]) by {
                let j = choose|j: int| 0 <= j < s0.len() && s0[j] == d0[i];
                assert(s[j] == s0[j]);
                assert(!name_before(s[s.len() - 1], s[j]));
            }
            assert forall|i: int, j: int| 0 <= i < j < d.len() implies !name_before(#[trigger] d[j], #[trigger] d[i]) by {
                assert(d[i] == d0[i]);
                if j < d0.len() {
                    assert(d[j] == d0[j]);
                }
            }
            assert forall|i: int| 1 <= i < d.len() implies (#[trigger] d[i]).mime != d[i - 1].mime by {
                if i < d0.len() {
                    assert(d[i] == d0[i] && d[i - 1] == d0[i - 1]);
                } else {
                    assert(d[i - 1] == d0.last());
                }
            }
            assert forall|k: int| 0 <= k < d.len() implies exists|j: int| 0 <= j < s.len() && s[j] == #[trigger] d[k] by {
                if k < d0.len() {
                    assert(d[k] == d0[k]);
                } else {
                    assert(s[s.len() - 1] == d[k]);
                }
            }
        }
    }
}

} // verus!
