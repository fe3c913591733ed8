//! The decisions of the conversion orchestrator: which queued item runs next, how
//! a conversion is planned, how its outcome is recorded. The caller performs the
//! work in between (reading files, running plugins) and hands back what came of it.
use vstd::prelude::*;
use std::path::Path;
use crate::builtin_formats::builtin_detector;
use crate::config::{AppConfig, queue_settings};
use crate::detector::{FormatDetector, DetectorSpec, detection, detection_failure, extension_of, display_of};
use crate::errors::CoreError;
use crate::format::{FormatId, PluginManifest, ManifestSpec};
use crate::integrity::IntegrityChecker;
use crate::queue::{
    ConversionQueue, QueueItem, QueueItemStatus, QueueStats, first_pending, first_with_id, count_status,
    item_times_wf, millis_between, lemma_first_pending, lemma_first_with_id, now, cancelled_all, paused_all,
    fresh_item, priority_order, Timestamp,
    resumed_all,
};
use crate::router::{ConversionPath, PathSpec, ConversionRouter, RouterSpec, decoders_of, encoders_of, best_path};
use crate::conversions::{lists_conversions, pairs_view};
use crate::state::{StateManager, HistoryEntry, most_recent};
use crate::temp_manager::TempManager;
use crate::assoc::{first_index_of, lemma_first_index_of};
use crate::text::str_eq;

verus! {

/// Events the orchestrator emits during conversion.
#[derive(Debug)]
pub enum OrchestratorEvent {
    /// A new item was added to the queue.
    ItemQueued { item_id: u128 },
    /// Detection completed for an item.
    Detected { item_id: u128, format: FormatId },
    /// Conversion started for an item.
    ConversionStarted { item_id: u128, path: ConversionPath },
    /// Conversion completed successfully.
    Completed { item_id: u128, bytes_written: u64, checksum: String },
    /// Conversion failed.
    Failed { item_id: u128, error: String },
    /// Conversion was cancelled.
    Cancelled { item_id: u128 },
    /// All conversions completed.
    QueueFinished { stats: QueueStats },
}

/// A conversion to run: the queued item and what it asks for.
#[derive(Debug, Clone)]
pub struct Job {
    pub item_id: u128,
    pub input_path: String,
    pub output_path: String,
    pub target_format: String,
}

/// The conversion orchestrator's state: configuration, detection, routing, the
/// queue, persistent state, temporary directories, integrity checking, the plugins
/// with their IDs, and the events not yet handed out.
pub struct Orchestrator<P> {
    config: AppConfig,
    detector: FormatDetector,
    router: ConversionRouter,
    queue: ConversionQueue,
    state: StateManager,
    temp: TempManager,
    integrity: IntegrityChecker,
    plugins: Vec<(P, String)>,
    events: Vec<OrchestratorEvent>,
}

/// `new` is `old` after `start`: converting, with the start time the clock gave, if any.
pub open spec fn started(old: QueueItem, new: QueueItem) -> bool {
    &&& new == (QueueItem { status: QueueItemStatus::Converting, started_at: new.started_at, ..old })
    &&& new.started_at matches Some(t) ==> t.wf()
}

/// `new` is `old` completed with what the conversion wrote, with the completion time
/// the clock gave, if any.
pub open spec fn completed(old: QueueItem, new: QueueItem, bytes_written: u64, checksum: String) -> bool {
    &&& new == (QueueItem {
        status: QueueItemStatus::Completed,
        completed_at: new.completed_at,
        bytes_written: Some(bytes_written),
        output_checksum: Some(checksum),
        ..old
    })
    &&& new.completed_at matches Some(t) ==> t.wf()
}

/// `new` is `old` failed with the message, with the completion time the clock gave, if any.
pub open spec fn failed(old: QueueItem, new: QueueItem, error: String) -> bool {
    &&& new == (QueueItem { status: QueueItemStatus::Failed, completed_at: new.completed_at, error: Some(error), ..old })
    &&& new.completed_at matches Some(t) ==> t.wf()
}

/// `now` is `old` with the batch `items` added for `files` (input and output paths)
/// converting to `target`: one new pending item per file, in order, each with the
/// file's paths, the target, a version-4 identifier (the `ids` handed out) and a valid
/// creation time; the queue then in priority order. No file: the queue unchanged.
pub open spec fn batch_queued(
    old: Seq<QueueItem>,
    now: Seq<QueueItem>,
    files: Seq<(String, String)>,
    target: Seq<char>,
    ids: Seq<u128>,
    items: Seq<QueueItem>,
) -> bool {
    &&& items.len() == files.len()
    &&& ids.len() == files.len()
    &&& forall|k: int|
        0 <= k < items.len() ==> #[trigger] items[k].id == ids[k] && fresh_item(items[k], files[k].0, files[k].1, target)
    &&& now == if files.len() == 0 {
        old
    } else {
        priority_order(old + items)
    }
}

/// The milliseconds recorded at time `at` for an item that ran: from start to
/// completion where it completed before, from start to `at` where it still runs, none
/// where it never started or its times are beyond the clock's range.
pub open spec fn duration_recorded(item: QueueItem, d: Option<u64>, at: Timestamp) -> bool {
    if !item_times_wf(item) || item.started_at is None {
        d is None
    } else {
        match item.completed_at {
            Some(e) => d == Some((millis_between(item.started_at.unwrap(), e) as i64) as u64),
            None => d == Some((millis_between(item.started_at.unwrap(), at) as i64) as u64),
        }
    }
}

/// The history entry recorded at time `at` for `job` on `item` (before its outcome was set).
pub open spec fn recorded_entry(
    job: Job,
    item: QueueItem,
    outcome: Result<(u64, String), String>,
    e: HistoryEntry,
    at: Timestamp,
) -> bool {
    &&& e.input_path == job.input_path
    &&& e.output_path == job.output_path
    &&& e.target_format == job.target_format
    &&& e.source_format@ == (match item.source_format {
        Some(s) => s@,
        None => Seq::<char>::empty(),
    })
    &&& duration_recorded(item, e.duration_ms, at)
    &&& e.timestamp == at
    &&& match outcome {
        Ok((bw, _)) => e.success && e.bytes_written == Some(bw) && e.error is None,
        Err(msg) => !e.success && e.bytes_written is None && e.error == Some(msg),
    }
}

/// The plan for converting from `source` to `target` with plugins `ps` (whose IDs are
/// `ids`): the best path, where both its plugins can be found; otherwise the message
/// of the missing plugin.
pub open spec fn plan_for(ps: Seq<ManifestSpec>, ids: Seq<Seq<char>>, source: Seq<char>, target: Seq<char>) -> Result<
    PathSpec,
    Seq<char>,
> {
    if decoders_of(ps, source).len() == 0 {
        Err("No decoder for "@ + source)
    } else if encoders_of(ps, target).len() == 0 {
        Err("No encoder for "@ + target)
    } else {
        let p = best_path(ps, source, target);
        if first_index_of(ids, p.decode_plugin) is None {
            Err(p.decode_plugin)
        } else if first_index_of(ids, p.encode_plugin) is None {
            Err(p.encode_plugin)
        } else {
            Ok(p)
        }
    }
}

impl<P> Orchestrator<P> {
    pub closed spec fn config_of(&self) -> AppConfig {
        self.config
    }

    pub closed spec fn detector_of(&self) -> DetectorSpec {
        self.detector@
    }

    pub closed spec fn router_of(&self) -> RouterSpec {
        self.router@
    }

    pub closed spec fn queue_of(&self) -> ConversionQueue {
        self.queue
    }

    pub closed spec fn state_of(&self) -> StateManager {
        self.state
    }

    pub closed spec fn temp_of(&self) -> TempManager {
        self.temp
    }

    pub closed spec fn integrity_of(&self) -> IntegrityChecker {
        self.integrity
    }

    /// The plugins with their IDs, in registration order.
    pub closed spec fn plugins_of(&self) -> Seq<(P, String)> {
        self.plugins@
    }

    /// The events emitted and not yet taken, oldest first.
    pub closed spec fn events_of(&self) -> Seq<OrchestratorEvent> {
        self.events@
    }

    /// An orchestrator with the given configuration, persistent state and temporary
    /// directory manager: every built-in format known, no plugin, an empty queue with
    /// the configured limits, output checked as configured.
    pub fn new(config: AppConfig, state: StateManager, temp: TempManager) -> (r: Self)
        ensures
            r.config_of() == config,
            r.detector_of() == builtin_detector(),
            r.router_of().plugins.len() == 0,
            r.queue_of().items@.len() == 0,
            r.queue_of().config == queue_settings(config),
            r.state_of() == state,
            r.temp_of() == temp,
            r.integrity_of().verifies() == config.verify_output,
            r.plugins_of().len() == 0,
            r.events_of().len() == 0,
    {
        let queue_config = config.queue_config();
        let integrity = IntegrityChecker::new(config.verify_output);
        Orchestrator {
            config,
            detector: FormatDetector::new(),
            router: ConversionRouter::new(),
            queue: ConversionQueue::new(queue_config),
            state,
            temp,
            integrity,
            plugins: Vec::new(),
            events: Vec::new(),
        }
    }

    /// The IDs of the plugins, in registration order.
    pub closed spec fn plugin_ids(&self) -> Seq<Seq<char>> {
        self.plugins@.map_values(|e: (P, String)| e.1@)
    }

    /// The plugin handles, in registration order.
    pub closed spec fn plugin_handles(&self) -> Seq<P> {
        self.plugins@.map_values(|e: (P, String)| e.0)
    }

    /// Register a plugin with the manifest it declares: the router learns its
    /// formats, and it can be found by its ID.
    pub fn register_plugin(&mut self, plugin: P, manifest: PluginManifest)
        ensures
            final(self).router_of().plugins == old(self).router_of().plugins.push(manifest@),
            final(self).plugin_ids() == old(self).plugin_ids().push(manifest.id@),
            final(self).plugin_handles() == old(self).plugin_handles().push(plugin),
            final(self).queue_of() == old(self).queue_of(),
            final(self).events_of() == old(self).events_of(),
            final(self).state_of() == old(self).state_of(),
            final(self).config_of() == old(self).config_of(),
    {
        let id = manifest.id.clone();
        let ghost mv = manifest@;
        self.router.register_plugin(manifest);
        self.plugins.push((plugin, id));
        proof {
            assert(self.plugin_ids() =~= old(self).plugin_ids().push(mv.id));
            assert(self.plugin_handles() =~= old(self).plugin_handles().push(plugin));
        }
    }

    /// The plugin with the given ID (the first registered, if several share it).
    pub fn find_plugin(&self, id: &str) -> (r: Option<&P>)
        ensures
            r is Some == first_index_of(self.plugin_ids(), id@) is Some,
            r is Some ==> *r.unwrap() == self.plugin_handles()[first_index_of(self.plugin_ids(), id@).unwrap()],
    {
        let ghost ids = self.plugin_ids();
        proof {
            lemma_first_index_of(ids, id@);
        }
        let mut k: usize = 0;
        while k < self.plugins.len()
            invariant
                k <= self.plugins@.len(),
                ids == self.plugin_ids(),
                forall|j: int| 0 <= j < k ==> #[trigger] ids[j] != id@,
            decreases self.plugins@.len() - k,
        {
            if str_eq(self.plugins[k].1.as_str(), id) {
                proof {
                    assert(ids[k as int] == id@);
                    lemma_first_index_of(ids, id@);
                    match first_index_of(ids, id@) {
                        Some(f) => {
                            if f < k {
                                assert(ids[f] != id@);
                            }
                            if f > k {
                                assert(ids[k as int] != id@);
                            }
                        },
                        None => {
                            assert(ids[k as int] != id@);
                        },
                    }
                }
                return Some(&self.plugins[k].0);
            }
            k = k + 1;
        }
        proof {
            lemma_first_index_of(ids, id@);
            if let Some(f) = first_index_of(ids, id@) {
                assert(ids[f] == id@);
            }
        }
        None
    }

    /// Add a file to the conversion queue; returns the new item's identifier and
    /// emits that it was queued.
    pub fn enqueue(&mut self, input: String, output: String, target_mime: &str) -> (r: Result<u128, CoreError>)
        ensures
            r matches Ok(id) ==> exists|item: QueueItem|
                item.id == id && fresh_item(item, input, output, target_mime@) && #[trigger] final(self).queue_of().items@
                    == priority_order(old(self).queue_of().items@.push(item)),
            r matches Ok(id) ==> final(self).events_of() == old(self).events_of().push(
                OrchestratorEvent::ItemQueued { item_id: id },
            ),
            r is Err ==> (r matches Err(CoreError::Internal(_))) && final(self).queue_of() == old(self).queue_of()
                && final(self).events_of() == old(self).events_of(),
            final(self).queue_of().config == old(self).queue_of().config,
            final(self).state_of() == old(self).state_of(),
            final(self).router_of() == old(self).router_of(),
            final(self).config_of() == old(self).config_of(),
    {
        let item = match QueueItem::new(input, output, String::from_str(target_mime)) {
            Some(item) => item,
            None => {
                return Err(CoreError::Internal(String::from_str("no identifier or creation time for a new item")));
            },
        };
        let ghost it = item;
        let id = self.queue.push(item);
        self.events.push(OrchestratorEvent::ItemQueued { item_id: id });
        assert(self.queue.items@ == crate::queue::priority_order(old(self).queue.items@.push(it)));
        Ok(id)
    }

    /// Add several files for conversion to the same format: each (input, output)
    /// pair in turn, as `enqueue` does; returns their identifiers in order.
    pub fn enqueue_batch(&mut self, files: Vec<(String, String)>, target_mime: &str) -> (r: Result<Vec<u128>, CoreError>)
        ensures
            r matches Ok(ids) ==> {
                &&& ids@.len() == files@.len()
                &&& final(self).queue_of().items@.len() == old(self).queue_of().items@.len() + files@.len()
                &&& final(self).events_of().len() == old(self).events_of().len() + files@.len()
                &&& forall|k: int| 0 <= k < files@.len() ==> #[trigger] final(self).events_of()[old(self).events_of().len()
                    + k] == (OrchestratorEvent::ItemQueued { item_id: ids@[k] })
                &&& exists|items: Seq<QueueItem>| batch_queued(old(self).queue_of().items@, final(self).queue_of().items@, files@, target_mime@, ids@, items)
            },
            r is Err ==> (r matches Err(CoreError::Internal(_))),
            final(self).events_of().subrange(0, old(self).events_of().len() as int) == old(self).events_of(),
            final(self).queue_of().config == old(self).queue_of().config,
            final(self).state_of() == old(self).state_of(),
            final(self).router_of() == old(self).router_of(),
            final(self).config_of() == old(self).config_of(),
    {
        let ghost e0 = self.events@;
        let ghost q_init = self.queue.items@;
        let ghost n0 = self.queue.items@.len();
        let ghost fv = files@;
        let ghost mut items: Seq<QueueItem> = Seq::empty();
        let mut ids: Vec<u128> = Vec::new();
        let mut rest = files;
        let ghost total = rest@.len();
        proof {
            assert(rest@ =~= fv.subrange(0, total as int));
        }
        while rest.len() > 0
            invariant
                ids@.len() + rest@.len() == total,
                total == fv.len(),
                rest@ == fv.subrange(ids@.len() as int, total as int),
                e0 == old(self).events@,
                q_init == old(self).queue.items@,
                self.queue.items@.len() == n0 + ids@.len(),
                n0 == q_init.len(),
                self.events@.len() == e0.len() + ids@.len(),
                self.events@.subrange(0, e0.len() as int) == e0,
                forall|k: int| 0 <= k < ids@.len() ==> #[trigger] self.events@[e0.len() + k]
                    == (OrchestratorEvent::ItemQueued { item_id: ids@[k] }),
                batch_queued(q_init, self.queue.items@, fv.take(ids@.len() as int), target_mime@, ids@, items),
                self.queue.config == old(self).queue.config,
                self.state == old(self).state,
                self.router@ == old(self).router@,
                self.config == old(self).config,
            decreases rest@.len(),
        {
            let ghost n = ids@.len();
            proof {
                assert(rest@[0] == fv[n as int]);
            }
            let (input, output) = rest.remove(0);
            let ghost before = self.events@;
            let ghost q0 = self.queue.items@;
            match self.enqueue(input, output, target_mime) {
                Ok(id) => {
                    let ghost item = choose|item: QueueItem|
                        item.id == id && fresh_item(item, input, output, target_mime@) && #[trigger] self.queue.items@
                            == priority_order(q0.push(item));
                    proof {
                        let old_items = items;
                        crate::queue_laws::law_priority_order_sorted(q0.push(item));
                        if n == 0 {
                            assert(fv.take(0).len() == 0);
                            assert(q0 == q_init);
                            assert(old_items.push(item) =~= seq![item]);
                            assert(q_init.push(item) =~= q_init + old_items.push(item));
                        } else {
                            assert(fv.take(n as int).len() != 0);
                            assert(q0 == priority_order(q_init + old_items));
                            crate::queue_laws::law_push_then_order(q_init + old_items, item);
                            assert((q_init + old_items).push(item) =~= q_init + old_items.push(item));
                        }
                        items = old_items.push(item);
                        assert(self.queue.items@ == priority_order(q_init + items));
                        assert(fv.take((n + 1) as int).len() == n + 1);
                    }
                    ids.push(id);
                    proof {
                        assert(rest@ =~= fv.subrange(ids@.len() as int, total as int));
                        let ft = fv.take(ids@.len() as int);
                        assert forall|k: int| 0 <= k < items.len() implies #[trigger] items[k].id == ids@[k] && fresh_item(
                            items[k],
                            ft[k].0,
                            ft[k].1,
                            target_mime@,
                        ) by {
                            if k < n {
                                assert(ft[k] == fv.take(n as int)[k]);
                            } else {
                                assert(ft[k] == fv[n as int]);
                            }
                        }
                        assert(self.events@ == before.push(OrchestratorEvent::ItemQueued { item_id: id }));
                        assert(self.events@.subrange(0, e0.len() as int) =~= before.subrange(0, e0.len() as int));
                    }
                },
                Err(e) => {
                    proof {
                        assert(self.events@ == before);
                    }
                    return Err(e);
                },
            }
        }
        proof {
            assert(fv.take(total as int) =~= fv);
        }
        Ok(ids)
    }

    /// Start the next conversion, where another may start and an item is pending:
    /// the item with the first pending item's identifier is marked as converting, and
    /// the pending item's paths and target are handed out.
    pub fn next_job(&mut self) -> (r: Option<Job>)
        ensures
            ({
                let q = old(self).queue_of().items@;
                let can = count_status(q, QueueItemStatus::Converting) < old(self).queue_of().config.max_concurrent;
                &&& (!can || first_pending(q) is None) ==> r is None && final(self).queue_of() == old(self).queue_of()
                &&& (can && first_pending(q) is Some) ==> {
                    let k = first_pending(q).unwrap();
                    let m = first_with_id(q, q[k].id).unwrap();
                    &&& r matches Some(job) && job.item_id == q[k].id && job.input_path == q[k].input_path
                        && job.output_path == q[k].output_path && job.target_format == q[k].target_format
                    &&& final(self).queue_of().config == old(self).queue_of().config
                    &&& final(self).queue_of().items@.len() == q.len()
                    &&& 0 <= m <= k
                    &&& started(q[m], final(self).queue_of().items@[m])
                    &&& forall|j: int| 0 <= j < q.len() && j != m ==> #[trigger] final(self).queue_of().items@[j] == q[j]
                }
            }),
            final(self).events_of() == old(self).events_of(),
            final(self).state_of() == old(self).state_of(),
            final(self).router_of() == old(self).router_of(),
            final(self).config_of() == old(self).config_of(),
    {
        if !self.queue.can_start_more() {
            return None;
        }
        let ghost q = self.queue.items@;
        proof {
            lemma_first_pending(q);
        }
        let job = match self.queue.next_pending() {
            Some(item) => Job {
                item_id: item.id,
                input_path: item.input_path.clone(),
                output_path: item.output_path.clone(),
                target_format: item.target_format.clone(),
            },
            None => {
                return None;
            },
        };
        let ghost k = first_pending(q).unwrap();
        proof {
            assert(self.queue.items@ == q);
            assert(job.item_id == q[k].id);
            lemma_first_with_id(q, q[k].id);
        }
        let ghost m = first_with_id(q, q[k].id).unwrap();
        proof {
            assert(0 <= m <= k) by {
                if m > k {
                    assert(q[k].id != q[k].id);
                }
            }
        }
        match self.queue.get_mut(job.item_id) {
            Some(item) => {
                item.start();
            },
            None => {},
        }
        proof {
            assert(started(q[m], self.queue.items@[m]));
            assert(forall|j: int| 0 <= j < q.len() && j != m ==> #[trigger] self.queue.items@[j] == q[j]);
        }
        Some(job)
    }

    /// Plan a conversion of the file at `input`, whose first bytes are `header`, to
    /// `target_mime`: detect its format, find the best path, and check that both of
    /// its plugins are registered.
    pub fn plan_conversion(&mut self, input: &Path, header: &[u8], target_mime: &str) -> (r: Result<
        (FormatId, ConversionPath),
        CoreError,
    >)
        ensures
            final(self).router_of() == old(self).router_of(),
            final(self).queue_of() == old(self).queue_of(),
            final(self).events_of() == old(self).events_of(),
            final(self).state_of() == old(self).state_of(),
            final(self).config_of() == old(self).config_of(),
            final(self).plugin_ids() == old(self).plugin_ids(),
            match detection(old(self).detector_of(), header@, extension_of(input)) {
                None => r matches Err(CoreError::DetectionFailed { reason }) && reason@ == detection_failure(
                    display_of(input),
                ),
                Some(f) => match plan_for(old(self).router_of().plugins, old(self).plugin_ids(), f.mime, target_mime@) {
                    Ok(p) => r matches Ok((g, path)) && g@ == f && path@ == p,
                    Err(msg) => r matches Err(CoreError::NoPluginFound(m)) && m@ == msg,
                },
            },
    {
        let ghost ps = self.router@.plugins;
        let ghost ids = self.plugin_ids();
        let source = match self.detector.detect(input, header) {
            Ok(f) => f,
            Err(e) => {
                return Err(e);
            },
        };
        let target = FormatId::new(target_mime, &[], target_mime);
        let path = match self.router.find_path(&source, &target) {
            Ok(p) => p,
            Err(e) => {
                proof {
                    assert(plan_for(ps, ids, source@.mime, target_mime@) is Err);
                }
                return Err(e);
            },
        };
        proof {
            lemma_first_index_of(ids, path.decode_plugin@);
            lemma_first_index_of(ids, path.encode_plugin@);
        }
        if self.find_plugin(path.decode_plugin.as_str()).is_none() {
            proof {
                assert(plan_for(ps, ids, source@.mime, target_mime@) == Err::<PathSpec, Seq<char>>(path.decode_plugin@));
            }
            return Err(CoreError::NoPluginFound(path.decode_plugin.clone()));
        }
        if self.find_plugin(path.encode_plugin.as_str()).is_none() {
            proof {
                assert(plan_for(ps, ids, source@.mime, target_mime@) == Err::<PathSpec, Seq<char>>(path.encode_plugin@));
            }
            return Err(CoreError::NoPluginFound(path.encode_plugin.clone()));
        }
        Ok((source, path))
    }

    /// Whether the converted output is checked against the checksum the encoder reported.
    pub fn verifies_output(&self) -> (r: bool)
        ensures
            r == self.config_of().verify_output,
    {
        self.config.verify_output
    }

    /// Check the checksum of the written output against the one the encoder
    /// reported; only where the configuration asks for it.
    pub fn check_output(&self, expected: &str, actual: &str) -> (r: Result<(), CoreError>)
        ensures
            r is Err <==> (self.config_of().verify_output && expected@ != actual@),
            r matches Err(e) ==> (e matches CoreError::IntegrityCheckFailed { expected: x, actual: y } && x@ == expected@
                && y@ == actual@),
    {
        if self.config.verify_output && !str_eq(actual, expected) {
            return Err(
                CoreError::IntegrityCheckFailed { expected: String::from_str(expected), actual: String::from_str(actual) },
            );
        }
        Ok(())
    }

    /// `after` is `before` once the end of `job` with `outcome` was recorded at time `at`:
    /// the first item with the job's identifier completed (with the bytes written and
    /// checksum) or failed (with the message) at `at`, the other items unchanged, the
    /// event emitted, and the history entry added (the last `HISTORY_LIMIT` kept).
    pub open spec fn job_recorded(
        before: Self,
        after: Self,
        job: Job,
        outcome: Result<(u64, String), String>,
        at: Timestamp,
    ) -> bool {
        let q = before.queue_of().items@;
        let m = first_with_id(q, job.item_id).unwrap();
        let it = q[m];
        &&& after.queue_of().config == before.queue_of().config
        &&& after.queue_of().items@.len() == q.len()
        &&& forall|j: int| 0 <= j < q.len() && j != m ==> #[trigger] after.queue_of().items@[j] == q[j]
        &&& match outcome {
            Ok((bw, cs)) => after.queue_of().items@[m] == (QueueItem {
                status: QueueItemStatus::Completed,
                completed_at: Some(at),
                bytes_written: Some(bw),
                output_checksum: Some(cs),
                ..it
            }) && after.events_of() == before.events_of().push(
                OrchestratorEvent::Completed { item_id: job.item_id, bytes_written: bw, checksum: cs },
            ),
            Err(msg) => after.queue_of().items@[m] == (QueueItem {
                status: QueueItemStatus::Failed,
                completed_at: Some(at),
                error: Some(msg),
                ..it
            }) && after.events_of() == before.events_of().push(
                OrchestratorEvent::Failed { item_id: job.item_id, error: msg },
            ),
        }
        &&& exists|e: HistoryEntry|
            recorded_entry(job, it, outcome, e, at) && #[trigger] after.state_of().current().history@ == most_recent(
                before.state_of().current().history@.push(e),
            )
        &&& after.state_of().current().queue == before.state_of().current().queue
        &&& after.state_of().current().version == before.state_of().current().version
        &&& after.state_of().path() == before.state_of().path()
        &&& after.router_of() == before.router_of()
        &&& after.config_of() == before.config_of()
    }

    /// Record at time `at` how the conversion of `job` ended (see [`Orchestrator::job_recorded`]).
    pub fn finish_job_at(&mut self, job: &Job, outcome: Result<(u64, String), String>, at: Timestamp)
        requires
            first_with_id(old(self).queue_of().items@, job.item_id) is Some,
            at.wf(),
        ensures
            Self::job_recorded(*old(self), *final(self), *job, outcome, at),
    {
        let ghost q = self.queue.items@;
        let ghost m = first_with_id(q, job.item_id).unwrap();
        proof {
            lemma_first_with_id(q, job.item_id);
        }
        let item = match self.queue.get_mut(job.item_id) {
            Some(item) => item,
            None => {
                return;
            },
        };
        let ghost it = *item;
        let source_format = match &item.source_format {
            Some(s) => s.clone(),
            None => String::new(),
        };
        let duration_ms: Option<u64> = if item.times_valid() {
            match item.duration_at(at) {
                Some(d) => Some(d as u64),
                None => None,
            }
        } else {
            None
        };
        let success: bool;
        let bytes_written: Option<u64>;
        let error: Option<String>;
        match outcome {
            Ok((bw, cs)) => {
                item.complete_at(bw, cs.clone(), Some(at));
                self.events.push(OrchestratorEvent::Completed { item_id: job.item_id, bytes_written: bw, checksum: cs });
                success = true;
                bytes_written = Some(bw);
                error = None;
            },
            Err(msg) => {
                item.fail_at(msg.clone(), Some(at));
                self.events.push(OrchestratorEvent::Failed { item_id: job.item_id, error: msg.clone() });
                success = false;
                bytes_written = None;
                error = Some(msg);
            },
        }
        let entry = HistoryEntry {
            input_path: job.input_path.clone(),
            output_path: job.output_path.clone(),
            source_format,
            target_format: job.target_format.clone(),
            success,
            bytes_written,
            duration_ms,
            timestamp: at,
            error,
        };
        let ghost ev = entry;
        self.state.add_history(entry);
        proof {
            assert(it == q[m]);
            assert(recorded_entry(*job, it, outcome, ev, at));
        }
    }

    /// Record now how the conversion of `job` ended (see [`Orchestrator::finish_job_at`]).
    /// Where the clock gives no time, nothing is recorded and an internal error is
    /// returned.
    pub fn finish_job(&mut self, job: &Job, outcome: Result<(u64, String), String>) -> (r: Result<(), CoreError>)
        requires
            first_with_id(old(self).queue_of().items@, job.item_id) is Some,
        ensures
            r is Err ==> (r matches Err(CoreError::Internal(_))) && *final(self) == *old(self),
            r is Ok ==> exists|at: Timestamp| at.wf() && #[trigger] Self::job_recorded(*old(self), *final(self), *job, outcome, at),
    {
        match now() {
            Some(at) => {
                self.finish_job_at(job, outcome, at);
                Ok(())
            },
            None => Err(CoreError::Internal(String::from_str("the system clock gives no current time"))),
        }
    }

    /// The queue's statistics once no more conversions start; emits them.
    pub fn finish_queue(&mut self) -> (r: QueueStats)
        ensures
            r.total == old(self).queue_of().items@.len(),
            r.pending == count_status(old(self).queue_of().items@, QueueItemStatus::Pending),
            r.converting == count_status(old(self).queue_of().items@, QueueItemStatus::Converting),
            r.completed == count_status(old(self).queue_of().items@, QueueItemStatus::Completed),
            r.failed == count_status(old(self).queue_of().items@, QueueItemStatus::Failed),
            r.cancelled == count_status(old(self).queue_of().items@, QueueItemStatus::Cancelled),
            r.paused == count_status(old(self).queue_of().items@, QueueItemStatus::Paused),
            final(self).events_of() == old(self).events_of().push(OrchestratorEvent::QueueFinished { stats: r }),
            final(self).queue_of() == old(self).queue_of(),
            final(self).state_of() == old(self).state_of(),
            final(self).router_of() == old(self).router_of(),
            final(self).config_of() == old(self).config_of(),
    {
        let stats = self.queue.stats();
        self.events.push(OrchestratorEvent::QueueFinished { stats });
        stats
    }

    /// Detect the format of a file from its path and first bytes.
    pub fn detect_format(&self, path: &Path, header: &[u8]) -> (r: Result<FormatId, CoreError>)
        ensures
            match detection(self.detector_of(), header@, extension_of(path)) {
                Some(f) => r matches Ok(g) && g@ == f,
                None => r matches Err(CoreError::DetectionFailed { reason }) && reason@ == detection_failure(
                    display_of(path),
                ),
            },
    {
        self.detector.detect(path, header)
    }

    /// Every conversion the registered plugins offer (see [`lists_conversions`]).
    pub fn supported_conversions(&self) -> (r: Vec<(FormatId, FormatId)>)
        ensures
            lists_conversions(self.router_of().plugins, pairs_view(r@)),
    {
        self.router.supported_conversions()
    }

    /// Get a reference to the queue.
    pub fn queue(&self) -> (r: &ConversionQueue)
        ensures
            *r == self.queue_of(),
    {
        &self.queue
    }

    /// Get a mutable reference to the queue.
    pub fn queue_mut(&mut self) -> (r: &mut ConversionQueue)
        ensures
            *r == old(self).queue_of(),
            final(self).queue_of() == *final(r),
            final(self).events_of() == old(self).events_of(),
            final(self).state_of() == old(self).state_of(),
            final(self).router_of() == old(self).router_of(),
            final(self).config_of() == old(self).config_of(),
    {
        &mut self.queue
    }

    /// Get a reference to the state manager.
    pub fn state(&self) -> (r: &StateManager)
        ensures
            *r == self.state_of(),
    {
        &self.state
    }

    /// Get a reference to the configuration.
    pub fn config(&self) -> (r: &AppConfig)
        ensures
            *r == self.config_of(),
    {
        &self.config
    }

    /// The temporary directory manager, to record and forget session directories.
    pub fn temp_mut(&mut self) -> (r: &mut TempManager)
        ensures
            *r == old(self).temp_of(),
            final(self).temp_of() == *final(r),
            final(self).queue_of() == old(self).queue_of(),
            final(self).events_of() == old(self).events_of(),
            final(self).state_of() == old(self).state_of(),
            final(self).router_of() == old(self).router_of(),
            final(self).config_of() == old(self).config_of(),
    {
        &mut self.temp
    }

    /// The integrity checker, to compute checksums of written output.
    pub fn integrity(&self) -> (r: &IntegrityChecker)
        ensures
            *r == self.integrity_of(),
    {
        &self.integrity
    }

    /// Cancel the item with the given identifier (the first, if several share it)
    /// and emit that it was cancelled; tells whether there was one.
    pub fn cancel_item(&mut self, id: u128) -> (r: bool)
        ensures
            r == first_with_id(old(self).queue_of().items@, id) is Some,
            !r ==> final(self).queue_of() == old(self).queue_of() && final(self).events_of() == old(self).events_of(),
            r ==> ({
                let q = old(self).queue_of().items@;
                let m = first_with_id(q, id).unwrap();
                &&& final(self).queue_of().items@ == q.update(m, final(self).queue_of().items@[m])
                &&& final(self).queue_of().items@[m] == (QueueItem {
                    status: QueueItemStatus::Cancelled,
                    completed_at: final(self).queue_of().items@[m].completed_at,
                    ..q[m]
                })
                &&& final(self).queue_of().items@[m].completed_at matches Some(t) ==> t.wf()
                &&& final(self).queue_of().config == old(self).queue_of().config
                &&& final(self).events_of() == old(self).events_of().push(OrchestratorEvent::Cancelled { item_id: id })
            }),
            final(self).state_of() == old(self).state_of(),
            final(self).router_of() == old(self).router_of(),
            final(self).config_of() == old(self).config_of(),
    {
        proof {
            lemma_first_with_id(self.queue.items@, id);
        }
        match self.queue.get_mut(id) {
            Some(item) => {
                item.cancel();
                self.events.push(OrchestratorEvent::Cancelled { item_id: id });
                true
            },
            None => false,
        }
    }

    /// Cancel every pending or converting item.
    pub fn cancel_all(&mut self)
        ensures
            cancelled_all(old(self).queue_of().items@, final(self).queue_of().items@),
            final(self).queue_of().config == old(self).queue_of().config,
            final(self).events_of() == old(self).events_of(),
            final(self).state_of() == old(self).state_of(),
            final(self).router_of() == old(self).router_of(),
            final(self).config_of() == old(self).config_of(),
    {
        self.queue.cancel_all();
    }

    /// Pause every converting item.
    pub fn pause_all(&mut self)
        ensures
            final(self).queue_of().items@ == paused_all(old(self).queue_of().items@),
            final(self).queue_of().config == old(self).queue_of().config,
            final(self).events_of() == old(self).events_of(),
            final(self).state_of() == old(self).state_of(),
            final(self).router_of() == old(self).router_of(),
            final(self).config_of() == old(self).config_of(),
    {
        self.queue.pause_all();
    }

    /// Resume every paused item.
    pub fn resume_all(&mut self)
        ensures
            final(self).queue_of().items@ == resumed_all(old(self).queue_of().items@),
            final(self).queue_of().config == old(self).queue_of().config,
            final(self).events_of() == old(self).events_of(),
            final(self).state_of() == old(self).state_of(),
            final(self).router_of() == old(self).router_of(),
            final(self).config_of() == old(self).config_of(),
    {
        self.queue.resume_all();
    }

    /// Hand out the events emitted so far, oldest first.
    pub fn take_events(&mut self) -> (r: Vec<OrchestratorEvent>)
        ensures
            r@ == old(self).events_of(),
            final(self).events_of().len() == 0,
            final(self).queue_of() == old(self).queue_of(),
            final(self).state_of() == old(self).state_of(),
            final(self).router_of() == old(self).router_of(),
            final(self).config_of() == old(self).config_of(),
    {
        let mut events: Vec<OrchestratorEvent> = Vec::new();
        std::mem::swap(&mut events, &mut self.events);
        events
    }
}

} // verus!
