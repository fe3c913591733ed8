//! The archive representation. Covers ZIP, TAR, TAR.GZ, TAR.BZ2, TAR.XZ, 7Z.
use vstd::prelude::*;
use crate::ir::{api_version, version_of};
use crate::ir::sums::{sum_of, all_nonneg, lemma_sum_step, lemma_sum_all, lemma_sum_nonneg};
use crate::ir::traits::{IntermediateRepresentation, ValidationError, ValidationSeverity, issue, issues_view};

verus! {

/// An archive: its entries and what is known of the whole.
#[derive(Debug, Clone)]
pub struct ArchiveIR {
    pub version: semver::Version,
    pub entries: Vec<ArchiveEntry>,
    pub metadata: ArchiveMetadata,
}

#[derive(Debug, Clone)]
pub struct ArchiveEntry {
    pub path: String,
    pub entry_type: EntryType,
    pub size: u64,
    pub compressed_size: Option<u64>,
    pub permissions: Option<u32>,
    /// Unix timestamp
    pub modified: Option<u64>,
    pub created: Option<u64>,
    pub data: EntryData,
    pub checksum: Option<String>,
}

#[derive(Debug, Clone)]
pub enum EntryType {
    File,
    Directory,
    Symlink { target: String },
    Hardlink { target: String },
}

#[derive(Debug, Clone)]
pub enum EntryData {
    Inline(Vec<u8>),
    /// Path to extracted temp file
    Reference(String),
    /// For directories
    Empty,
}

#[derive(Debug, Clone)]
pub struct ArchiveMetadata {
    pub format: String,
    pub compression: Option<String>,
    pub total_size: u64,
    pub total_compressed_size: u64,
    pub entry_count: usize,
    pub comment: Option<String>,
    pub encrypted: bool,
}

/// Bytes each entry holds inline.
pub open spec fn inline_sizes(es: Seq<ArchiveEntry>) -> Seq<int> {
    es.map_values(
        |e: ArchiveEntry|
            match e.data {
                EntryData::Inline(d) => d@.len() as int,
                _ => 0,
            },
    )
}

/// The memory estimate of an archive: its inline data, 512 bytes per entry, and 1 KiB.
pub open spec fn archive_memory(a: ArchiveIR) -> int {
    sum_of(inline_sizes(a.entries@)) + a.entries@.len() * 512 + 1024
}

/// The size an entry adds to the compressed total: its compressed size, or its size
/// where that is unknown.
pub open spec fn compressed_or_size(e: ArchiveEntry) -> u64 {
    match e.compressed_size {
        Some(c) => c,
        None => e.size,
    }
}

/// The problems `validate` reports for an archive.
pub open spec fn archive_issues(a: ArchiveIR) -> Seq<(Seq<char>, Seq<char>, ValidationSeverity)> {
    if a.entries@.len() == 0 {
        seq![("entries"@, "Archive has no entries"@, ValidationSeverity::Warning)]
    } else {
        seq![]
    }
}

impl ArchiveIR {
    /// An archive of the given format with no entries.
    pub fn new(format: &str) -> (r: Self)
        ensures
            r.version == version_of(1, 0, 0),
            r.entries@.len() == 0,
            r.metadata.format@ == format@,
            r.metadata.compression is None,
            r.metadata.total_size == 0,
            r.metadata.total_compressed_size == 0,
            r.metadata.entry_count == 0,
            r.metadata.comment is None,
            !r.metadata.encrypted,
    {
        ArchiveIR {
            version: api_version(),
            entries: Vec::new(),
            metadata: ArchiveMetadata {
                format: String::from_str(format),
                compression: None,
                total_size: 0,
                total_compressed_size: 0,
                entry_count: 0,
                comment: None,
                encrypted: false,
            },
        }
    }

    /// Add an entry, counting its size and compressed size (its size where the
    /// compressed size is unknown) into the totals.
    pub fn add_entry(&mut self, entry: ArchiveEntry)
        requires
            old(self).metadata.total_size + entry.size <= u64::MAX,
            old(self).metadata.total_compressed_size + compressed_or_size(entry) <= u64::MAX,
            old(self).metadata.entry_count < usize::MAX,
        ensures
            final(self).entries@ == old(self).entries@.push(entry),
            final(self).metadata.total_size == old(self).metadata.total_size + entry.size,
            final(self).metadata.total_compressed_size == old(self).metadata.total_compressed_size + compressed_or_size(
                entry,
            ),
            final(self).metadata.entry_count == old(self).metadata.entry_count + 1,
            final(self).metadata.format == old(self).metadata.format,
            final(self).metadata.compression == old(self).metadata.compression,
            final(self).metadata.comment == old(self).metadata.comment,
            final(self).metadata.encrypted == old(self).metadata.encrypted,
    {
        self.metadata.total_size = self.metadata.total_size + entry.size;
        let c = match entry.compressed_size {
            Some(c) => c,
            None => entry.size,
        };
        self.metadata.total_compressed_size = self.metadata.total_compressed_size + c;
        self.metadata.entry_count = self.metadata.entry_count + 1;
        self.entries.push(entry);
    }

    /// The number of file entries.
    pub fn file_count(&self) -> (r: usize)
        ensures
            r == self.entries@.filter(|e: ArchiveEntry| e.entry_type is File).len(),
    {
        let ghost s = self.entries@;
        let mut n: usize = 0;
        let mut i: usize = 0;
        proof {
            reveal_with_fuel(Seq::filter, 1);
            assert(s.take(0) =~= Seq::<ArchiveEntry>::empty());
        }
        while i < self.entries.len()
            invariant
                i <= s.len(),
                s == self.entries@,
                n == s.take(i as int).filter(|e: ArchiveEntry| e.entry_type is File).len(),
                n <= i,
            decreases s.len() - i,
        {
            proof {
                assert(s.take(i + 1) =~= s.take(i as int).push(s[i as int]));
                s.take(i as int).lemma_filter_push(s[i as int], |e: ArchiveEntry| e.entry_type is File);
            }
            if let EntryType::File = self.entries[i].entry_type {
                n = n + 1;
            }
            i = i + 1;
        }
        proof {
            assert(s.take(i as int) =~= s);
        }
        n
    }

    /// The number of directory entries.
    pub fn directory_count(&self) -> (r: usize)
        ensures
            r == self.entries@.filter(|e: ArchiveEntry| e.entry_type is Directory).len(),
    {
        let ghost s = self.entries@;
        let mut n: usize = 0;
        let mut i: usize = 0;
        proof {
            reveal_with_fuel(Seq::filter, 1);
            assert(s.take(0) =~= Seq::<ArchiveEntry>::empty());
        }
        while i < self.entries.len()
            invariant
                i <= s.len(),
                s == self.entries@,
                n == s.take(i as int).filter(|e: ArchiveEntry| e.entry_type is Directory).len(),
                n <= i,
            decreases s.len() - i,
        {
            proof {
                assert(s.take(i + 1) =~= s.take(i as int).push(s[i as int]));
                s.take(i as int).lemma_filter_push(s[i as int], |e: ArchiveEntry| e.entry_type is Directory);
            }
            if let EntryType::Directory = self.entries[i].entry_type {
                n = n + 1;
            }
            i = i + 1;
        }
        proof {
            assert(s.take(i as int) =~= s);
        }
        n
    }
}

impl IntermediateRepresentation for ArchiveIR {
    open spec fn usage_fits(&self) -> bool {
        archive_memory(*self) <= u64::MAX
    }

    fn version(&self) -> (r: semver::Version)
        ensures
            r == self.version,
    {
        self.version.clone()
    }

    fn ir_type(&self) -> (r: &'static str)
        ensures
            r@ == "Archive"@,
    {
        "Archive"
    }

    /// The memory estimate: see [`archive_memory`].
    fn memory_usage(&self) -> (r: u64)
        ensures
            r == archive_memory(*self),
    {
        let ghost s = inline_sizes(self.entries@);
        proof {
            assert(all_nonneg(s));
            lemma_sum_nonneg(s);
            assert(s.take(0) =~= Seq::<int>::empty());
        }
        let mut data: u64 = 0;
        let mut i: usize = 0;
        while i < self.entries.len()
            invariant
                i <= self.entries@.len(),
                s == inline_sizes(self.entries@),
                all_nonneg(s),
                sum_of(s) + self.entries@.len() * 512 + 1024 <= u64::MAX,
                data == sum_of(s.take(i as int)),
            decreases self.entries@.len() - i,
        {
            proof {
                lemma_sum_step(s, i as int);
            }
            let n = match &self.entries[i].data {
                EntryData::Inline(d) => d.len() as u64,
                _ => 0,
            };
            data = data + n;
            i = i + 1;
        }
        proof {
            lemma_sum_all(s);
        }
        data + self.entries.len() as u64 * 512 + 1024
    }

    /// The problems found: see [`archive_issues`].
    fn validate(&self) -> (r: Vec<ValidationError>)
        ensures
            issues_view(r@) == archive_issues(*self),
    {
        let mut errors: Vec<ValidationError> = Vec::new();
        if self.entries.len() == 0 {
            errors.push(issue("entries", "Archive has no entries", ValidationSeverity::Warning));
        }
        assert(issues_view(errors@) =~= archive_issues(*self));
        errors
    }

    /// Whether the archive has no entries.
    fn is_empty(&self) -> (r: bool)
        ensures
            r == (self.entries@.len() == 0),
    {
        self.entries.len() == 0
    }
}

} // verus!
