//! Bookkeeping of the temporary session directories used during conversion.
use vstd::prelude::*;
use std::path::{Path, PathBuf};

verus! {

/// Whether two paths are equal as `PathBuf == Path` compares them (component by
/// component).
pub uninterp spec fn paths_equal(a: &PathBuf, b: &Path) -> bool;

/// Trusted: `PathBuf == Path`. The answer depends on the two paths alone; it is
/// named, not stated.
#[verifier::external_body]
fn same_path(a: &PathBuf, b: &Path) -> (r: bool)
    ensures
        r == paths_equal(a, b),
{
    a == b
}

/// The entries of `dirs` that are not equal to `p`, in order.
pub open spec fn without_path(dirs: Seq<PathBuf>, p: &Path) -> Seq<PathBuf>
    decreases dirs.len(),
{
    if dirs.len() == 0 {
        Seq::empty()
    } else if paths_equal(&dirs.last(), p) {
        without_path(dirs.drop_last(), p)
    } else {
        without_path(dirs.drop_last(), p).push(dirs.last())
    }
}

/// The entries of `dirs` whose flag in `matched` is false, in order.
pub open spec fn unmatched(dirs: Seq<PathBuf>, matched: Seq<bool>) -> Seq<PathBuf>
    decreases dirs.len(),
{
    if dirs.len() == 0 {
        Seq::empty()
    } else if matched[dirs.len() - 1] {
        unmatched(dirs.drop_last(), matched)
    } else {
        unmatched(dirs.drop_last(), matched).push(dirs.last())
    }
}

proof fn lemma_unmatched_paths(dirs: Seq<PathBuf>, matched: Seq<bool>, p: &Path)
    requires
        matched.len() >= dirs.len(),
        forall|k: int| 0 <= k < dirs.len() ==> #[trigger] matched[k] == paths_equal(&dirs[k], p),
    ensures
        unmatched(dirs, matched) == without_path(dirs, p),
    decreases dirs.len(),
{
    if dirs.len() > 0 {
        let d0 = dirs.drop_last();
        assert forall|k: int| 0 <= k < d0.len() implies #[trigger] matched[k] == paths_equal(&d0[k], p) by {
            assert(d0[k] == dirs[k]);
        }
        lemma_unmatched_paths(d0, matched, p);
        assert(matched[dirs.len() - 1] == paths_equal(&dirs[dirs.len() - 1], p));
    }
}

/// Keeps the entries of `dirs` whose flag in `matched` is false, in order.
pub fn keep_unmatched(dirs: Vec<PathBuf>, matched: &Vec<bool>) -> (r: Vec<PathBuf>)
    requires
        matched@.len() == dirs@.len(),
    ensures
        r@ == unmatched(dirs@, matched@),
{
    let ghost d = dirs@;
    let mut rest = dirs;
    let mut kept: Vec<PathBuf> = Vec::new();
    let mut i: usize = 0;
    let n = matched.len();
    proof {
        assert(d.take(0) =~= Seq::<PathBuf>::empty());
        assert(d.skip(0) =~= d);
    }
    while rest.len() > 0
        invariant
            i + rest@.len() == d.len(),
            matched@.len() == d.len(),
            n == matched@.len(),
            rest@ == d.skip(i as int),
            kept@ == unmatched(d.take(i as int), matched@),
        decreases rest@.len(),
    {
        let ghost prev = rest@;
        let x = rest.remove(0);
        proof {
            assert(d.skip(i as int)[0] == x);
            assert(rest@ =~= d.skip(i + 1));
            let t = d.take(i + 1);
            assert(t.drop_last() =~= d.take(i as int));
            assert(t.last() == x);
            assert(forall|k: int| 0 <= k < t.len() ==> #[trigger] t[k] == d[k]);
        }
        if !matched[i] {
            kept.push(x);
        }
        i = i + 1;
    }
    proof {
        assert(d.take(i as int) =~= d);
    }
    kept
}

/// Manages temporary directories used during conversion: the base directory and
/// the session directories in use, in the order they were created.
pub struct TempManager {
    base_dir: PathBuf,
    active_dirs: Vec<PathBuf>,
}

impl TempManager {
    /// The session directories in use, oldest first.
    pub closed spec fn active(&self) -> Seq<PathBuf> {
        self.active_dirs@
    }

    /// The base directory.
    pub closed spec fn base(&self) -> PathBuf {
        self.base_dir
    }

    /// A manager for session directories under `base_dir`, with none in use.
    pub fn new(base_dir: PathBuf) -> (r: Self)
        ensures
            r.active().len() == 0,
            r.base() == base_dir,
    {
        TempManager { base_dir, active_dirs: Vec::new() }
    }

    /// Record a newly created session directory.
    pub fn track(&mut self, session_dir: PathBuf)
        ensures
            final(self).active() == old(self).active().push(session_dir),
            final(self).base() == old(self).base(),
    {
        self.active_dirs.push(session_dir);
    }

    /// Stop tracking every session directory equal to `session_dir`; the others keep
    /// their order.
    pub fn forget(&mut self, session_dir: &Path)
        ensures
            final(self).base() == old(self).base(),
            final(self).active() == without_path(old(self).active(), session_dir),
    {
        let mut matched: Vec<bool> = Vec::new();
        let mut i: usize = 0;
        while i < self.active_dirs.len()
            invariant
                i <= self.active_dirs@.len(),
                matched@.len() == i,
                forall|k: int| 0 <= k < i ==> #[trigger] matched@[k] == paths_equal(&self.active_dirs@[k], session_dir),
            decreases self.active_dirs@.len() - i,
        {
            matched.push(same_path(&self.active_dirs[i], session_dir));
            i = i + 1;
        }
        let mut dirs: Vec<PathBuf> = Vec::new();
        std::mem::swap(&mut dirs, &mut self.active_dirs);
        proof {
            lemma_unmatched_paths(dirs@, matched@, session_dir);
        }
        self.active_dirs = keep_unmatched(dirs, &matched);
    }

    /// Stop tracking every session directory and hand them over, oldest first.
    pub fn take_all(&mut self) -> (r: Vec<PathBuf>)
        ensures
            r@ == old(self).active(),
            final(self).active().len() == 0,
            final(self).base() == old(self).base(),
    {
        let mut dirs: Vec<PathBuf> = Vec::new();
        std::mem::swap(&mut dirs, &mut self.active_dirs);
        dirs
    }

    /// Get the base temp directory.
    pub fn base_dir(&self) -> (r: &PathBuf)
        ensures
            *r == self.base(),
    {
        &self.base_dir
    }

    /// Get the number of active sessions.
    pub fn active_session_count(&self) -> (r: usize)
        ensures
            r == self.active().len(),
    {
        self.active_dirs.len()
    }
}

} // verus!
