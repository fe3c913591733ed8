//! The conversion queue: items, their life cycle, and the queue's ordering.
use vstd::prelude::*;

verus! {

/// A UTC instant: whole seconds since the Unix epoch and the nanoseconds within that second.
#[derive(Debug, Clone, Copy, PartialEq, Eq, Structural)]
pub struct Timestamp {
    pub secs: i64,
    pub nanos: u32,
}

/// 2^43 seconds, beyond the range of dates the clock library represents.
pub open spec fn timestamp_secs_bound() -> int {
    8796093022208
}

impl Timestamp {
    /// A timestamp the clock library can represent, with its fraction below one second.
    pub open spec fn wf(self) -> bool {
        -timestamp_secs_bound() < self.secs < timestamp_secs_bound() && self.nanos < 1_000_000_000
    }

    /// Nanoseconds since the epoch.
    pub open spec fn total_nanos(self) -> int {
        self.secs * 1_000_000_000 + self.nanos
    }

    /// Whether the clock library can represent this timestamp.
    pub fn is_valid(&self) -> (r: bool)
        ensures
            r == self.wf(),
    {
        -8796093022208i64 < self.secs && self.secs < 8796093022208i64 && self.nanos < 1_000_000_000
    }
}

/// `a` is strictly earlier than `b`.
pub open spec fn earlier(a: Timestamp, b: Timestamp) -> bool {
    a.secs < b.secs || (a.secs == b.secs && a.nanos < b.nanos)
}

/// Whole milliseconds from `start` to `end`, rounded toward zero.
pub open spec fn millis_between(start: Timestamp, end: Timestamp) -> int {
    let d = end.total_nanos() - start.total_nanos();
    if d >= 0 {
        d / 1_000_000
    } else {
        -((-d) / 1_000_000)
    }
}

/// Trusted: `SystemTime::now` measured with `duration_since(UNIX_EPOCH)`: the whole
/// seconds and the nanoseconds beyond them since the epoch, or none where the clock
/// reads a time before the epoch. `Duration::subsec_nanos` is below one billion.
#[verifier::external_body]
fn clock_since_epoch() -> (r: Option<(u64, u32)>)
    ensures
        r matches Some((s, n)) ==> n < 1_000_000_000,
{
    std::time::SystemTime::now().duration_since(std::time::UNIX_EPOCH).ok().map(|d| (d.as_secs(), d.subsec_nanos()))
}

/// The timestamp of a clock reading (whole seconds and nanoseconds since the epoch):
/// none where there is no reading or it lies beyond the range of dates kept here.
pub open spec fn timestamp_of_reading(reading: Option<(u64, u32)>) -> Option<Timestamp> {
    match reading {
        Some((s, n)) => if s < 8796093022208 {
            Some(Timestamp { secs: s as i64, nanos: n })
        } else {
            None
        },
        None => None,
    }
}

/// The timestamp of a clock reading (see [`timestamp_of_reading`]).
pub fn timestamp_from_reading(reading: Option<(u64, u32)>) -> (r: Option<Timestamp>)
    ensures
        r == timestamp_of_reading(reading),
        (reading matches Some((s, n)) && n < 1_000_000_000) ==> (r matches Some(t) ==> t.wf() && t.secs >= 0),
{
    match reading {
        Some((secs, nanos)) => {
            if secs < 8796093022208 {
                Some(Timestamp { secs: secs as i64, nanos })
            } else {
                None
            }
        },
        None => None,
    }
}

/// The current time, where the system clock reads a time after the epoch within the
/// range of dates kept here; none otherwise.
pub(crate) fn now() -> (r: Option<Timestamp>)
    ensures
        r matches Some(t) ==> t.wf() && t.secs >= 0,
{
    timestamp_from_reading(clock_since_epoch())
}

/// The version-4 UUID that `uuid::Builder::from_random_bytes` makes of sixteen random
/// bytes (the big-endian bytes of `random`), as its 128-bit value: the version nibble
/// (bits 79 to 76) set to 4 and the variant bits (63 and 62) set to `10`.
pub open spec fn v4_uuid(random: u128) -> u128 {
    (random & 0xffff_ffff_ffff_0fff_3fff_ffff_ffff_ffffu128) | 0x0000_0000_0000_4000_8000_0000_0000_0000u128
}

/// Trusted: `getrandom::fill` on sixteen bytes, read as a big-endian number; none
/// where the operating system's random source fails. Nothing is claimed of the value:
/// it is random.
#[verifier::external_body]
fn random_u128() -> Option<u128> {
    let mut bytes = [0u8; 16];
    match getrandom::fill(&mut bytes) {
        Ok(()) => Some(u128::from_be_bytes(bytes)),
        Err(_) => None,
    }
}

/// Trusted: `uuid::Builder::from_random_bytes` followed by `Uuid::as_u128`. The builder
/// keeps the sixteen bytes and sets the version (`bytes[6] & 0x0f | 0x40`) and the
/// RFC 4122 variant (`bytes[8] & 0x3f | 0x80`), as `Uuid::new_v4` does with its
/// random bytes; `as_u128` reads the bytes big-endian.
#[verifier::external_body]
fn uuid_from_random(random: u128) -> (r: u128)
    ensures
        r == v4_uuid(random),
{
    uuid::Builder::from_random_bytes(random.to_be_bytes()).into_uuid().as_u128()
}

/// A fresh random version-4 identifier; none where no random bytes can be had.
pub(crate) fn new_uuid() -> (r: Option<u128>)
    ensures
        r matches Some(id) ==> exists|x: u128| id == #[trigger] v4_uuid(x),
{
    match random_u128() {
        Some(x) => Some(uuid_from_random(x)),
        None => None,
    }
}

/// Trusted: `num_cpus::get`, the number of logical CPUs, which its documentation
/// says is always at least one. Nothing more is claimed: it depends on the machine.
#[verifier::external_body]
pub(crate) fn cpu_count() -> (r: usize)
    ensures
        r >= 1,
{
    num_cpus::get()
}

/// Whole milliseconds from `start` to `end`, rounded toward zero (as chrono's
/// `TimeDelta::num_milliseconds` gives them).
pub fn elapsed_millis(start: Timestamp, end: Timestamp) -> (r: i64)
    requires
        start.wf(),
        end.wf(),
    ensures
        r == millis_between(start, end),
{
    let a: i128 = start.secs as i128 * 1_000_000_000 + start.nanos as i128;
    let b: i128 = end.secs as i128 * 1_000_000_000 + end.nanos as i128;
    let d: i128 = b - a;
    assert(-20000000000000000000000i128 < d < 20000000000000000000000i128);
    if d >= 0 {
        (d / 1_000_000) as i64
    } else {
        let m: i128 = (-d) / 1_000_000;
        (-m) as i64
    }
}

/// Configuration for the conversion queue.
#[derive(Debug, Clone, Copy, PartialEq, Eq)]
pub struct QueueConfig {
    pub max_concurrent: usize,
    pub max_memory_per_conversion: u64,
    pub max_total_memory: u64,
    pub auto_retry: bool,
    pub max_retries: u32,
    pub verify_output: bool,
    pub overwrite_existing: bool,
}

impl Default for QueueConfig {
    fn default() -> (r: Self)
        ensures
            r.max_concurrent >= 1,
            r.max_memory_per_conversion == 536870912,
            r.max_total_memory == 4294967296,
            !r.auto_retry,
            r.max_retries == 2,
            r.verify_output,
            !r.overwrite_existing,
    {
        QueueConfig {
            max_concurrent: cpu_count(),
            max_memory_per_conversion: 536870912,
            max_total_memory: 4294967296,
            auto_retry: false,
            max_retries: 2,
            verify_output: true,
            overwrite_existing: false,
        }
    }
}

/// Status of a queue item.
#[derive(Debug, Clone, Copy, PartialEq, Eq, Structural)]
pub enum QueueItemStatus {
    Pending,
    Detecting,
    Converting,
    Paused,
    Completed,
    Failed,
    Cancelled,
    Skipped,
}

/// A single item in the conversion queue. Paths are kept as text; the identifier
/// is the 128-bit value of a random (version 4) UUID.
#[derive(Debug, Clone)]
pub struct QueueItem {
    pub id: u128,
    pub input_path: String,
    pub output_path: String,
    pub source_format: Option<String>,
    pub target_format: String,
    pub status: QueueItemStatus,
    pub created_at: Timestamp,
    pub started_at: Option<Timestamp>,
    pub completed_at: Option<Timestamp>,
    pub priority: u8,
    pub retry_count: u32,
    pub error: Option<String>,
    pub bytes_written: Option<u64>,
    pub output_checksum: Option<String>,
}

/// The item's timestamps are ones the clock library can represent.
pub open spec fn item_times_wf(i: QueueItem) -> bool {
    &&& i.created_at.wf()
    &&& i.started_at matches Some(t) ==> t.wf()
    &&& i.completed_at matches Some(t) ==> t.wf()
}

impl QueueItem {
    /// Whether the clock library can represent all of the item's times.
    pub fn times_valid(&self) -> (r: bool)
        ensures
            r == item_times_wf(*self),
    {
        self.created_at.is_valid() && match self.started_at {
            Some(t) => t.is_valid(),
            None => true,
        } && match self.completed_at {
            Some(t) => t.is_valid(),
            None => true,
        }
    }

    /// A new pending item with the given identifier, created at `created_at`.
    pub fn with_identity(
        id: u128,
        created_at: Timestamp,
        input_path: String,
        output_path: String,
        target_format: String,
    ) -> (r: Self)
        ensures
            r == (QueueItem {
                id,
                input_path,
                output_path,
                source_format: None,
                target_format,
                status: QueueItemStatus::Pending,
                created_at,
                started_at: None,
                completed_at: None,
                priority: 0,
                retry_count: 0,
                error: None,
                bytes_written: None,
                output_checksum: None,
            }),
    {
        QueueItem {
            id,
            input_path,
            output_path,
            source_format: None,
            target_format,
            status: QueueItemStatus::Pending,
            created_at,
            started_at: None,
            completed_at: None,
            priority: 0,
            retry_count: 0,
            error: None,
            bytes_written: None,
            output_checksum: None,
        }
    }

    /// A new pending item with a fresh random version-4 identifier, created now (see
    /// [`QueueItem::with_identity`]); none where the random source or the clock fails.
    pub fn new(input_path: String, output_path: String, target_format: String) -> (r: Option<Self>)
        ensures
            r matches Some(item) ==> fresh_item(item, input_path, output_path, target_format@) && item.target_format
                == target_format,
    {
        let id = match new_uuid() {
            Some(id) => id,
            None => {
                return None;
            },
        };
        let created_at = match now() {
            Some(t) => t,
            None => {
                return None;
            },
        };
        Some(QueueItem::with_identity(id, created_at, input_path, output_path, target_format))
    }

    /// Mark the item as converting, started at `t` (no start time where `t` is none).
    pub fn start_at(&mut self, t: Option<Timestamp>)
        ensures
            *final(self) == (QueueItem { status: QueueItemStatus::Converting, started_at: t, ..*old(self) }),
    {
        self.status = QueueItemStatus::Converting;
        self.started_at = t;
    }

    /// Mark the item as converting, started now (see [`QueueItem::start_at`]; no start
    /// time where the clock gives none).
    pub fn start(&mut self)
        ensures
            final(self).status == QueueItemStatus::Converting,
            final(self).started_at matches Some(t) ==> t.wf(),
            *final(self) == (QueueItem { status: final(self).status, started_at: final(self).started_at, ..*old(self) }),
    {
        self.start_at(now());
    }

    /// Mark the item as completed at `t`, with what the conversion wrote.
    pub fn complete_at(&mut self, bytes_written: u64, checksum: String, t: Option<Timestamp>)
        ensures
            *final(self) == (QueueItem {
                status: QueueItemStatus::Completed,
                completed_at: t,
                bytes_written: Some(bytes_written),
                output_checksum: Some(checksum),
                ..*old(self)
            }),
    {
        self.status = QueueItemStatus::Completed;
        self.completed_at = t;
        self.bytes_written = Some(bytes_written);
        self.output_checksum = Some(checksum);
    }

    /// Mark the item as completed now (see [`QueueItem::complete_at`]; no completion time
    /// where the clock gives none), with what the conversion wrote.
    pub fn complete(&mut self, bytes_written: u64, checksum: String)
        ensures
            final(self).status == QueueItemStatus::Completed,
            final(self).completed_at matches Some(t) ==> t.wf(),
            final(self).bytes_written == Some(bytes_written),
            final(self).output_checksum == Some(checksum),
            *final(self) == (QueueItem {
                status: final(self).status,
                completed_at: final(self).completed_at,
                bytes_written: final(self).bytes_written,
                output_checksum: final(self).output_checksum,
                ..*old(self)
            }),
    {
        self.complete_at(bytes_written, checksum, now());
    }

    /// Mark the item as failed at `t`, with the error message.
    pub fn fail_at(&mut self, error: String, t: Option<Timestamp>)
        ensures
            *final(self) == (QueueItem {
                status: QueueItemStatus::Failed,
                completed_at: t,
                error: Some(error),
                ..*old(self)
            }),
    {
        self.status = QueueItemStatus::Failed;
        self.completed_at = t;
        self.error = Some(error);
    }

    /// Mark the item as failed now (see [`QueueItem::fail_at`]; no completion time where
    /// the clock gives none), with the error message.
    pub fn fail(&mut self, error: String)
        ensures
            final(self).status == QueueItemStatus::Failed,
            final(self).completed_at matches Some(t) ==> t.wf(),
            final(self).error == Some(error),
            *final(self) == (QueueItem {
                status: final(self).status,
                completed_at: final(self).completed_at,
                error: final(self).error,
                ..*old(self)
            }),
    {
        self.fail_at(error, now());
    }

    /// Mark the item as cancelled at `t`.
    pub fn cancel_at(&mut self, t: Option<Timestamp>)
        ensures
            *final(self) == (QueueItem { status: QueueItemStatus::Cancelled, completed_at: t, ..*old(self) }),
    {
        self.status = QueueItemStatus::Cancelled;
        self.completed_at = t;
    }

    /// Mark the item as cancelled now (see [`QueueItem::cancel_at`]; no completion time
    /// where the clock gives none).
    pub fn cancel(&mut self)
        ensures
            final(self).status == QueueItemStatus::Cancelled,
            final(self).completed_at matches Some(t) ==> t.wf(),
            *final(self) == (QueueItem { status: final(self).status, completed_at: final(self).completed_at, ..*old(self) }),
    {
        self.cancel_at(now());
    }

    pub fn pause(&mut self)
        ensures
            *final(self) == (QueueItem { status: QueueItemStatus::Paused, ..*old(self) }),
    {
        self.status = QueueItemStatus::Paused;
    }

    pub fn resume(&mut self)
        ensures
            *final(self) == (QueueItem { status: QueueItemStatus::Pending, ..*old(self) }),
    {
        self.status = QueueItemStatus::Pending;
    }

    /// Milliseconds the item has run, `now` being the current time: from start to
    /// completion, or from start to `now` while it runs; none before it starts.
    pub fn duration_at(&self, now: Timestamp) -> (r: Option<i64>)
        requires
            item_times_wf(*self),
            now.wf(),
        ensures
            r == run_millis(*self, now),
    {
        match (self.started_at, self.completed_at) {
            (Some(start), Some(end)) => Some(elapsed_millis(start, end)),
            (Some(start), None) => Some(elapsed_millis(start, now)),
            _ => None,
        }
    }

    /// Milliseconds the item has run: from start to completion, or from start to now
    /// while it runs (see [`QueueItem::duration_at`]; none where the clock gives no
    /// time); none before it starts.
    pub fn duration(&self) -> (r: Option<i64>)
        requires
            item_times_wf(*self),
        ensures
            self.started_at is None ==> r is None,
            self.started_at matches Some(s) ==> match self.completed_at {
                Some(e) => r == Some(millis_between(s, e) as i64),
                None => true,
            },
    {
        match (self.started_at, self.completed_at) {
            (Some(start), Some(end)) => Some(elapsed_millis(start, end)),
            (Some(_), None) => match now() {
                Some(t) => self.duration_at(t),
                None => None,
            },
            _ => None,
        }
    }
}

/// The milliseconds `item` has run by `now`: from start to completion, or from start
/// to `now` while it runs; none before it starts.
pub open spec fn run_millis(item: QueueItem, now: Timestamp) -> Option<i64> {
    match (item.started_at, item.completed_at) {
        (Some(s), Some(e)) => Some(millis_between(s, e) as i64),
        (Some(s), None) => Some(millis_between(s, now) as i64),
        _ => None,
    }
}

/// `item` is a new pending item for the given paths and target, created at a valid
/// time, with a version-4 identifier.
pub open spec fn fresh_item(item: QueueItem, input: String, output: String, target: Seq<char>) -> bool {
    &&& item.input_path == input
    &&& item.output_path == output
    &&& item.target_format@ == target
    &&& item.source_format is None
    &&& item.status == QueueItemStatus::Pending
    &&& item.created_at.wf()
    &&& item.started_at is None
    &&& item.completed_at is None
    &&& item.priority == 0
    &&& item.retry_count == 0
    &&& item.error is None
    &&& item.bytes_written is None
    &&& item.output_checksum is None
    &&& exists|x: u128| item.id == #[trigger] v4_uuid(x)
}

/// Item `a` goes before item `b`: higher priority, or equal priority and created earlier.
pub open spec fn runs_before(a: QueueItem, b: QueueItem) -> bool {
    a.priority > b.priority || (a.priority == b.priority && earlier(a.created_at, b.created_at))
}

/// Where `x` goes among `s`: before the first item it runs before, or at the end.
pub open spec fn insertion_point(s: Seq<QueueItem>, x: QueueItem) -> int
    decreases s.len(),
{
    if s.len() == 0 {
        0
    } else if runs_before(x, s[0]) {
        0
    } else {
        1 + insertion_point(s.drop_first(), x)
    }
}

/// The queue order of `s`: each item in turn is placed after every earlier item it
/// does not run before. Items that tie keep their order.
pub open spec fn priority_order(s: Seq<QueueItem>) -> Seq<QueueItem>
    decreases s.len(),
{
    if s.len() == 0 {
        s
    } else {
        let t = priority_order(s.drop_last());
        t.insert(insertion_point(t, s.last()), s.last())
    }
}

/// No item runs before an item ahead of it.
pub open spec fn in_priority_order(s: Seq<QueueItem>) -> bool {
    forall|i: int, j: int| 0 <= i < j < s.len() ==> !runs_before(#[trigger] s[j], #[trigger] s[i])
}

/// The number of items with the given status.
pub open spec fn count_status(s: Seq<QueueItem>, status: QueueItemStatus) -> nat {
    s.filter(|i: QueueItem| i.status == status).len()
}

/// The item has not finished: it waits, runs, is paused or is being detected.
pub open spec fn unfinished(i: QueueItem) -> bool {
    i.status == QueueItemStatus::Pending || i.status == QueueItemStatus::Converting || i.status == QueueItemStatus::Paused
        || i.status == QueueItemStatus::Detecting
}

/// The items without the given identifier, in their order.
pub open spec fn without_id(s: Seq<QueueItem>, id: u128) -> Seq<QueueItem> {
    s.filter(|i: QueueItem| i.id != id)
}

/// The unfinished items, in their order.
pub open spec fn unfinished_only(s: Seq<QueueItem>) -> Seq<QueueItem> {
    s.filter(|i: QueueItem| unfinished(i))
}

/// The position of the first item with the given identifier.
pub open spec fn first_with_id(s: Seq<QueueItem>, id: u128) -> Option<int>
    decreases s.len(),
{
    if s.len() == 0 {
        None
    } else if s[0].id == id {
        Some(0)
    } else {
        match first_with_id(s.drop_first(), id) {
            Some(k) => Some(k + 1),
            None => None,
        }
    }
}

/// The position of the first pending item.
pub open spec fn first_pending(s: Seq<QueueItem>) -> Option<int>
    decreases s.len(),
{
    if s.len() == 0 {
        None
    } else if s[0].status == QueueItemStatus::Pending {
        Some(0)
    } else {
        match first_pending(s.drop_first()) {
            Some(k) => Some(k + 1),
            None => None,
        }
    }
}

pub proof fn lemma_first_pending(s: Seq<QueueItem>)
    ensures
        first_pending(s) matches Some(k) ==> 0 <= k < s.len() && s[k].status == QueueItemStatus::Pending && forall|j: int|
            0 <= j < k ==> (#[trigger] s[j]).status != QueueItemStatus::Pending,
        first_pending(s) is None ==> forall|j: int| 0 <= j < s.len() ==> (#[trigger] s[j]).status != QueueItemStatus::Pending,
    decreases s.len(),
{
    if s.len() > 0 {
        lemma_first_pending(s.drop_first());
        assert forall|j: int| 1 <= j < s.len() implies s[j] == s.drop_first()[j - 1] by {}
    }
}

pub proof fn lemma_first_with_id(s: Seq<QueueItem>, id: u128)
    ensures
        first_with_id(s, id) matches Some(k) ==> 0 <= k < s.len() && s[k].id == id && forall|j: int|
            0 <= j < k ==> (#[trigger] s[j]).id != id,
        first_with_id(s, id) is None ==> forall|j: int| 0 <= j < s.len() ==> (#[trigger] s[j]).id != id,
    decreases s.len(),
{
    if s.len() > 0 {
        lemma_first_with_id(s.drop_first(), id);
        assert forall|j: int| 1 <= j < s.len() implies s[j] == s.drop_first()[j - 1] by {}
    }
}

/// The item with a converting status made paused.
pub open spec fn paused(i: QueueItem) -> QueueItem {
    if i.status == QueueItemStatus::Converting {
        QueueItem { status: QueueItemStatus::Paused, ..i }
    } else {
        i
    }
}

/// The item with a paused status made pending.
pub open spec fn resumed(i: QueueItem) -> QueueItem {
    if i.status == QueueItemStatus::Paused {
        QueueItem { status: QueueItemStatus::Pending, ..i }
    } else {
        i
    }
}

/// `new` is `old` with every pending or converting item cancelled with completion
/// time `t` and the others unchanged.
pub open spec fn cancelled_all_at(old: Seq<QueueItem>, new: Seq<QueueItem>, t: Option<Timestamp>) -> bool {
    &&& new.len() == old.len()
    &&& forall|k: int| 0 <= k < old.len() ==> {
        let a = old[k];
        let b = #[trigger] new[k];
        if a.status == QueueItemStatus::Pending || a.status == QueueItemStatus::Converting {
            b == (QueueItem { status: QueueItemStatus::Cancelled, completed_at: t, ..a })
        } else {
            b == a
        }
    }
}

/// `new` is `old` with every pending or converting item cancelled (with a valid
/// completion time, if any) and the others unchanged.
pub open spec fn cancelled_all(old: Seq<QueueItem>, new: Seq<QueueItem>) -> bool {
    &&& new.len() == old.len()
    &&& forall|k: int| 0 <= k < old.len() ==> {
        let a = old[k];
        let b = #[trigger] new[k];
        if a.status == QueueItemStatus::Pending || a.status == QueueItemStatus::Converting {
            b.status == QueueItemStatus::Cancelled && (b.completed_at matches Some(t) ==> t.wf()) && b == (QueueItem {
                status: b.status,
                completed_at: b.completed_at,
                ..a
            })
        } else {
            b == a
        }
    }
}

/// Every converting item paused.
pub open spec fn paused_all(s: Seq<QueueItem>) -> Seq<QueueItem> {
    s.map_values(|i: QueueItem| paused(i))
}

/// Every paused item pending again.
pub open spec fn resumed_all(s: Seq<QueueItem>) -> Seq<QueueItem> {
    s.map_values(|i: QueueItem| resumed(i))
}

/// Summary statistics of a queue.
#[derive(Debug, Clone, Copy, PartialEq, Eq)]
pub struct QueueStats {
    pub total: usize,
    pub pending: usize,
    pub converting: usize,
    pub completed: usize,
    pub failed: usize,
    pub cancelled: usize,
    pub paused: usize,
}

/// The conversion queue.
#[derive(Debug, Clone)]
pub struct ConversionQueue {
    pub items: Vec<QueueItem>,
    pub config: QueueConfig,
}

/// Where `x` goes among `sorted`.
fn find_insertion_point(sorted: &Vec<QueueItem>, x: &QueueItem) -> (r: usize)
    ensures
        r as int == insertion_point(sorted@, *x),
        r <= sorted@.len(),
{
    let ghost s = sorted@;
    let mut k: usize = 0;
    let mut found = false;
    proof {
        assert(s.skip(0) =~= s);
    }
    while k < sorted.len() && !found
        invariant
            k <= s.len(),
            s == sorted@,
            found ==> k < s.len() && runs_before(*x, s[k as int]),
            insertion_point(s, *x) == k + insertion_point(s.skip(k as int), *x),
        decreases s.len() - k + (if found { 0int } else { 1int }),
    {
        let y = &sorted[k];
        assert(s.skip(k as int)[0] == s[k as int]);
        if x.priority > y.priority || (x.priority == y.priority && (x.created_at.secs < y.created_at.secs || (
        x.created_at.secs == y.created_at.secs && x.created_at.nanos < y.created_at.nanos))) {
            found = true;
        } else {
            assert(s.skip(k as int).drop_first() =~= s.skip(k + 1));
            k = k + 1;
        }
    }
    k
}

/// Put items in queue order: priority descending, then creation time ascending;
/// ties keep their order.
fn order_items(items: Vec<QueueItem>) -> (r: Vec<QueueItem>)
    ensures
        r@ == priority_order(items@),
{
    let ghost input = items@;
    let total = items.len();
    let mut rest = items;
    let mut sorted: Vec<QueueItem> = Vec::new();
    let mut n: usize = 0;
    proof {
        assert(input.take(0) =~= Seq::<QueueItem>::empty());
        assert(input.skip(0) =~= input);
    }
    while rest.len() > 0
        invariant
            n + rest@.len() == input.len(),
            input.len() == total,
            rest@ == input.skip(n as int),
            sorted@ == priority_order(input.take(n as int)),
        decreases rest@.len(),
    {
        let ghost prev = rest@;
        let x = rest.remove(0);
        proof {
            assert(input.skip(n as int)[0] == x);
            assert(rest@ =~= prev.drop_first());
            assert(prev.drop_first() =~= input.skip(n + 1));
            assert(input.take(n + 1).drop_last() =~= input.take(n as int));
            assert(input.take(n + 1).last() == x);
        }
        let k = find_insertion_point(&sorted, &x);
        sorted.insert(k, x);
        n = n + 1;
    }
    proof {
        assert(input.take(n as int) =~= input);
    }
    sorted
}

impl ConversionQueue {
    pub fn new(config: QueueConfig) -> (r: Self)
        ensures
            r.items@.len() == 0,
            r.config == config,
    {
        ConversionQueue { items: Vec::new(), config }
    }

    /// Add an item and put the queue in order; returns the item's identifier.
    pub fn push(&mut self, item: QueueItem) -> (r: u128)
        ensures
            r == item.id,
            final(self).items@ == priority_order(old(self).items@.push(item)),
            final(self).config == old(self).config,
    {
        let id = item.id;
        self.items.push(item);
        self.sort_by_priority();
        id
    }

    /// Position of the first pending item.
    pub fn next_pending_index(&self) -> (r: Option<usize>)
        ensures
            match r {
                Some(j) => first_pending(self.items@) == Some(j as int),
                None => first_pending(self.items@) is None,
            },
    {
        proof { lemma_first_pending(self.items@); }
        let mut k: usize = 0;
        while k < self.items.len()
            invariant
                k <= self.items@.len(),
                forall|j: int| 0 <= j < k ==> (#[trigger] self.items@[j]).status != QueueItemStatus::Pending,
            decreases self.items@.len() - k,
        {
            if self.items[k].status == QueueItemStatus::Pending {
                proof {
                    lemma_first_pending(self.items@);
                    let f = first_pending(self.items@);
                    if let Some(k2) = f {
                        if k2 < k {
                            assert(self.items@[k2].status != QueueItemStatus::Pending);
                        } else if k2 > k {
                            assert(self.items@[k as int].status != QueueItemStatus::Pending);
                        }
                    } else {
                        assert(self.items@[k as int].status != QueueItemStatus::Pending);
                    }
                }
                return Some(k);
            }
            k = k + 1;
        }
        None
    }

    /// The first pending item.
    pub fn next_pending(&mut self) -> (r: Option<&mut QueueItem>)
        ensures
            first_pending(old(self).items@) is None ==> r is None && *final(self) == *old(self),
            first_pending(old(self).items@) matches Some(k) ==> (r matches Some(x) && *x == old(self).items@[k]
                && final(self).items@ == old(self).items@.update(k, *final(x)) && final(self).config == old(self).config),
    {
        proof { lemma_first_pending(self.items@); }
        match self.next_pending_index() {
            Some(k) => Some(&mut self.items[k]),
            None => None,
        }
    }

    /// Number of items with the given status.
    pub fn count_by_status(&self, status: QueueItemStatus) -> (r: usize)
        ensures
            r == count_status(self.items@, status),
    {
        let ghost s = self.items@;
        let mut n: usize = 0;
        let mut k: usize = 0;
        proof {
            reveal_with_fuel(Seq::filter, 1);
            assert(s.take(0) =~= Seq::<QueueItem>::empty());
        }
        while k < self.items.len()
            invariant
                k <= s.len(),
                s == self.items@,
                n == count_status(s.take(k as int), status),
                n <= k,
            decreases s.len() - k,
        {
            proof {
                assert(s.take(k + 1) =~= s.take(k as int).push(s[k as int]));
                s.take(k as int).lemma_filter_push(s[k as int], |i: QueueItem| i.status == status);
            }
            if self.items[k].status == status {
                n = n + 1;
            }
            k = k + 1;
        }
        proof {
            assert(s.take(k as int) =~= s);
        }
        n
    }

    /// Number of items converting right now.
    pub fn active_count(&self) -> (r: usize)
        ensures
            r == count_status(self.items@, QueueItemStatus::Converting),
    {
        self.count_by_status(QueueItemStatus::Converting)
    }

    /// Whether another conversion may start.
    pub fn can_start_more(&self) -> (r: bool)
        ensures
            r == (count_status(self.items@, QueueItemStatus::Converting) < self.config.max_concurrent),
    {
        self.active_count() < self.config.max_concurrent
    }

    /// All pending items, in queue order.
    pub fn pending_items(&self) -> (r: Vec<&QueueItem>)
        ensures
            r@.map_values(|i: &QueueItem| *i) == self.items@.filter(|i: QueueItem| i.status == QueueItemStatus::Pending),
    {
        let ghost s = self.items@;
        let mut r: Vec<&QueueItem> = Vec::new();
        let mut k: usize = 0;
        proof {
            reveal_with_fuel(Seq::filter, 1);
            assert(s.take(0) =~= Seq::<QueueItem>::empty());
            assert(r@.map_values(|i: &QueueItem| *i) =~= Seq::<QueueItem>::empty());
        }
        while k < self.items.len()
            invariant
                k <= s.len(),
                s == self.items@,
                r@.map_values(|i: &QueueItem| *i) == s.take(k as int).filter(|i: QueueItem| i.status == QueueItemStatus::Pending),
            decreases s.len() - k,
        {
            proof {
                assert(s.take(k + 1) =~= s.take(k as int).push(s[k as int]));
                s.take(k as int).lemma_filter_push(s[k as int], |i: QueueItem| i.status == QueueItemStatus::Pending);
            }
            if self.items[k].status == QueueItemStatus::Pending {
                let ghost before = r@;
                r.push(&self.items[k]);
                proof {
                    assert(r@.map_values(|i: &QueueItem| *i) =~= before.map_values(|i: &QueueItem| *i).push(s[k as int]));
                }
            }
            k = k + 1;
        }
        proof {
            assert(s.take(k as int) =~= s);
        }
        r
    }

    /// All items, in queue order.
    pub fn all_items(&self) -> (r: &[QueueItem])
        ensures
            r@ == self.items@,
    {
        self.items.as_slice()
    }

    fn index_of(&self, id: u128) -> (r: Option<usize>)
        ensures
            match r {
                Some(j) => first_with_id(self.items@, id) == Some(j as int),
                None => first_with_id(self.items@, id) is None,
            },
    {
        proof { lemma_first_with_id(self.items@, id); }
        let mut k: usize = 0;
        while k < self.items.len()
            invariant
                k <= self.items@.len(),
                forall|j: int| 0 <= j < k ==> (#[trigger] self.items@[j]).id != id,
            decreases self.items@.len() - k,
        {
            if self.items[k].id == id {
                proof {
                    lemma_first_with_id(self.items@, id);
                    let f = first_with_id(self.items@, id);
                    if let Some(k2) = f {
                        if k2 < k {
                            assert(self.items@[k2].id != id);
                        } else if k2 > k {
                            assert(self.items@[k as int].id != id);
                        }
                    } else {
                        assert(self.items@[k as int].id != id);
                    }
                }
                return Some(k);
            }
            k = k + 1;
        }
        None
    }

    /// The first item with the given identifier.
    pub fn get(&self, id: u128) -> (r: Option<&QueueItem>)
        ensures
            match first_with_id(self.items@, id) {
                Some(k) => r == Some(&self.items@[k]),
                None => r is None,
            },
    {
        proof { lemma_first_with_id(self.items@, id); }
        match self.index_of(id) {
            Some(k) => Some(&self.items[k]),
            None => None,
        }
    }

    /// The first item with the given identifier, to change.
    pub fn get_mut(&mut self, id: u128) -> (r: Option<&mut QueueItem>)
        ensures
            first_with_id(old(self).items@, id) is None ==> r is None && *final(self) == *old(self),
            first_with_id(old(self).items@, id) matches Some(k) ==> (r matches Some(x) && *x == old(self).items@[k]
                && final(self).items@ == old(self).items@.update(k, *final(x)) && final(self).config == old(self).config),
    {
        proof { lemma_first_with_id(self.items@, id); }
        match self.index_of(id) {
            Some(k) => Some(&mut self.items[k]),
            None => None,
        }
    }

    /// Cancel every pending or converting item, with completion time `t`.
    pub fn cancel_all_at(&mut self, t: Option<Timestamp>)
        ensures
            final(self).config == old(self).config,
            cancelled_all_at(old(self).items@, final(self).items@, t),
    {
        let mut k: usize = 0;
        while k < self.items.len()
            invariant
                k <= self.items@.len(),
                self.config == old(self).config,
                self.items@.len() == old(self).items@.len(),
                forall|j: int| k <= j < self.items@.len() ==> self.items@[j] == old(self).items@[j],
                forall|j: int| 0 <= j < k ==> {
                    let a = old(self).items@[j];
                    let b = #[trigger] self.items@[j];
                    if a.status == QueueItemStatus::Pending || a.status == QueueItemStatus::Converting {
                        b == (QueueItem { status: QueueItemStatus::Cancelled, completed_at: t, ..a })
                    } else {
                        b == a
                    }
                },
            decreases self.items@.len() - k,
        {
            let st = self.items[k].status;
            if st == QueueItemStatus::Pending || st == QueueItemStatus::Converting {
                self.items[k].cancel_at(t);
            }
            k = k + 1;
        }
    }

    /// Cancel every pending or converting item now (see [`ConversionQueue::cancel_all_at`];
    /// no completion time where the clock gives none).
    pub fn cancel_all(&mut self)
        ensures
            final(self).config == old(self).config,
            cancelled_all(old(self).items@, final(self).items@),
    {
        let t = now();
        self.cancel_all_at(t);
    }

    /// Pause every converting item.
    pub fn pause_all(&mut self)
        ensures
            final(self).config == old(self).config,
            final(self).items@.len() == old(self).items@.len(),
            final(self).items@ == paused_all(old(self).items@),
    {
        let mut k: usize = 0;
        while k < self.items.len()
            invariant
                k <= self.items@.len(),
                self.config == old(self).config,
                self.items@.len() == old(self).items@.len(),
                forall|j: int| k <= j < self.items@.len() ==> self.items@[j] == old(self).items@[j],
                forall|j: int| 0 <= j < k ==> #[trigger] self.items@[j] == (if old(self).items@[j].status
                    == QueueItemStatus::Converting {
                    QueueItem { status: QueueItemStatus::Paused, ..old(self).items@[j] }
                } else {
                    old(self).items@[j]
                }),
            decreases self.items@.len() - k,
        {
            if self.items[k].status == QueueItemStatus::Converting {
                self.items[k].pause();
            }
            k = k + 1;
        }
        assert(self.items@ =~= paused_all(old(self).items@));
    }

    /// Resume every paused item: it becomes pending again.
    pub fn resume_all(&mut self)
        ensures
            final(self).config == old(self).config,
            final(self).items@.len() == old(self).items@.len(),
            final(self).items@ == resumed_all(old(self).items@),
    {
        let mut k: usize = 0;
        while k < self.items.len()
            invariant
                k <= self.items@.len(),
                self.config == old(self).config,
                self.items@.len() == old(self).items@.len(),
                forall|j: int| k <= j < self.items@.len() ==> self.items@[j] == old(self).items@[j],
                forall|j: int| 0 <= j < k ==> #[trigger] self.items@[j] == (if old(self).items@[j].status
                    == QueueItemStatus::Paused {
                    QueueItem { status: QueueItemStatus::Pending, ..old(self).items@[j] }
                } else {
                    old(self).items@[j]
                }),
            decreases self.items@.len() - k,
        {
            if self.items[k].status == QueueItemStatus::Paused {
                self.items[k].resume();
            }
            k = k + 1;
        }
        assert(self.items@ =~= resumed_all(old(self).items@));
    }

    /// Drop completed, failed, cancelled and skipped items; the rest keep their order.
    pub fn clear_finished(&mut self)
        ensures
            final(self).config == old(self).config,
            final(self).items@ == unfinished_only(old(self).items@),
    {
        let ghost s = self.items@;
        let total = self.items.len();
        let mut rest: Vec<QueueItem> = Vec::new();
        std::mem::swap(&mut rest, &mut self.items);
        let mut kept: Vec<QueueItem> = Vec::new();
        let mut n: usize = 0;
        proof {
            reveal_with_fuel(Seq::filter, 1);
            assert(s.take(0) =~= Seq::<QueueItem>::empty());
            assert(s.skip(0) =~= s);
        }
        while rest.len() > 0
            invariant
                n + rest@.len() == s.len(),
                n <= s.len(),
                s.len() == total,
                rest@ == s.skip(n as int),
                kept@ == s.take(n as int).filter(|i: QueueItem| unfinished(i)),
                self.config == old(self).config,
            decreases rest@.len(),
        {
            let ghost prev = rest@;
            let x = rest.remove(0);
            proof {
                assert(s.skip(n as int)[0] == x);
                assert(rest@ =~= prev.drop_first());
                assert(prev.drop_first() =~= s.skip(n + 1));
                assert(s.take(n + 1) =~= s.take(n as int).push(x));
                s.take(n as int).lemma_filter_push(x, |i: QueueItem| unfinished(i));
            }
            if x.status == QueueItemStatus::Pending || x.status == QueueItemStatus::Converting || x.status
                == QueueItemStatus::Paused || x.status == QueueItemStatus::Detecting {
                kept.push(x);
            }
            n = n + 1;
        }
        proof {
            assert(s.take(n as int) =~= s);
        }
        self.items = kept;
    }

    /// Remove every item with the given identifier; tells whether one was there.
    pub fn remove(&mut self, id: u128) -> (r: bool)
        ensures
            final(self).config == old(self).config,
            final(self).items@ == without_id(old(self).items@, id),
            r == (exists|k: int| 0 <= k < old(self).items@.len() && (#[trigger] old(self).items@[k]).id == id),
    {
        let ghost s = self.items@;
        let len = self.items.len();
        let mut rest: Vec<QueueItem> = Vec::new();
        std::mem::swap(&mut rest, &mut self.items);
        let mut kept: Vec<QueueItem> = Vec::new();
        let mut n: usize = 0;
        proof {
            reveal_with_fuel(Seq::filter, 1);
            assert(s.take(0) =~= Seq::<QueueItem>::empty());
            assert(s.skip(0) =~= s);
        }
        while rest.len() > 0
            invariant
                n + rest@.len() == s.len(),
                len == s.len(),
                n <= len,
                rest@ == s.skip(n as int),
                kept@ == s.take(n as int).filter(|i: QueueItem| i.id != id),
                kept@.len() + (if (exists|k: int| 0 <= k < n && (#[trigger] s[k]).id == id) { 1int } else { 0int }) <= n,
                !(exists|k: int| 0 <= k < n && (#[trigger] s[k]).id == id) ==> kept@.len() == n,
                self.config == old(self).config,
            decreases rest@.len(),
        {
            let ghost prev = rest@;
            let x = rest.remove(0);
            proof {
                assert(s.skip(n as int)[0] == x);
                assert(s[n as int] == x);
                assert(rest@ =~= prev.drop_first());
                assert(prev.drop_first() =~= s.skip(n + 1));
                assert(s.take(n + 1) =~= s.take(n as int).push(x));
                s.take(n as int).lemma_filter_push(x, |i: QueueItem| i.id != id);
            }
            if x.id != id {
                kept.push(x);
            }
            n = n + 1;
        }
        proof {
            assert(s.take(n as int) =~= s);
        }
        self.items = kept;
        self.items.len() < len
    }

    /// Put items in queue order: priority descending, then creation time ascending;
    /// ties keep their order.
    fn sort_by_priority(&mut self)
        ensures
            final(self).items@ == priority_order(old(self).items@),
            final(self).config == old(self).config,
    {
        let mut items: Vec<QueueItem> = Vec::new();
        std::mem::swap(&mut items, &mut self.items);
        self.items = order_items(items);
    }

    /// Summary statistics.
    pub fn stats(&self) -> (r: QueueStats)
        ensures
            r.total == self.items@.len(),
            r.pending == count_status(self.items@, QueueItemStatus::Pending),
            r.converting == count_status(self.items@, QueueItemStatus::Converting),
            r.completed == count_status(self.items@, QueueItemStatus::Completed),
            r.failed == count_status(self.items@, QueueItemStatus::Failed),
            r.cancelled == count_status(self.items@, QueueItemStatus::Cancelled),
            r.paused == count_status(self.items@, QueueItemStatus::Paused),
    {
        QueueStats {
            total: self.items.len(),
            pending: self.count_by_status(QueueItemStatus::Pending),
            converting: self.count_by_status(QueueItemStatus::Converting),
            completed: self.count_by_status(QueueItemStatus::Completed),
            failed: self.count_by_status(QueueItemStatus::Failed),
            cancelled: self.count_by_status(QueueItemStatus::Cancelled),
            paused: self.count_by_status(QueueItemStatus::Paused),
        }
    }
}

impl Default for ConversionQueue {
    fn default() -> (r: Self)
        ensures
            r.items@.len() == 0,
            r.config.max_memory_per_conversion == 536870912,
            r.config.max_total_memory == 4294967296,
            !r.config.auto_retry,
            r.config.max_retries == 2,
            r.config.verify_output,
            !r.config.overwrite_existing,
    {
        Self::new(QueueConfig::default())
    }
}

} // verus!
