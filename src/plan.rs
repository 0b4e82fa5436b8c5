//! What an archive holds, and in which order: the plan that the archiver
//! carries out entry by entry.

use vstd::prelude::*;
use vstd::string::*;
use crate::paths::{
    forward_slashed, is_portable, join, joined, parent, parent_of, strip_prefix, strip_prefix_of,
    to_forward_slash,
};

verus! {

/// Everything that goes into an archive, with secondary binaries already
/// flattened out of whatever grouping the build recorded them under.
pub struct ArchiveManifest {
    /// The list of test binaries, serialised as pretty-printed text.
    pub binaries_metadata: String,
    /// The build system's metadata, as it was produced.
    pub cargo_metadata: String,
    /// The build root: the directory under which all build outputs lie.
    pub target_directory: String,
    /// Paths of the primary (test) binaries, each within the build root.
    pub test_binaries: Vec<String>,
    /// Paths of the secondary binaries, relative to the build root.
    pub non_test_binaries: Vec<String>,
    /// Directories relative to the build root whose contents are included whole.
    pub linked_paths: Vec<String>,
}

/// The manifest as values.
pub struct ManifestModel {
    pub binaries_metadata: Seq<char>,
    pub cargo_metadata: Seq<char>,
    pub target_directory: Seq<char>,
    pub test_binaries: Seq<Seq<char>>,
    pub non_test_binaries: Seq<Seq<char>>,
    pub linked_paths: Seq<Seq<char>>,
}

pub open spec fn string_views(v: Seq<String>) -> Seq<Seq<char>> {
    v.map_values(|s: String| s@)
}

impl View for ArchiveManifest {
    type V = ManifestModel;

    open spec fn view(&self) -> ManifestModel {
        ManifestModel {
            binaries_metadata: self.binaries_metadata@,
            cargo_metadata: self.cargo_metadata@,
            target_directory: self.target_directory@,
            test_binaries: string_views(self.test_binaries@),
            non_test_binaries: string_views(self.non_test_binaries@),
            linked_paths: string_views(self.linked_paths@),
        }
    }
}

/// One unit of work of the plan.
#[derive(Clone, Debug, PartialEq, Eq)]
pub enum PlannedEntry {
    /// An entry synthesised from text held in memory.
    Memory { name: String, contents: String },
    /// The contents of the file at `src`, stored under `dest`; where `remap`
    /// is set, `src` passes through the path mapper before it is read.
    File { src: String, dest: String, remap: bool },
    /// Every plain file below the directory `src` (after the path mapper),
    /// stored under `dest`.
    Tree { src: String, dest: String, follow_symlinks: bool },
}

/// A planned entry as values.
pub enum EntryModel {
    Memory { name: Seq<char>, contents: Seq<char> },
    File { src: Seq<char>, dest: Seq<char>, remap: bool },
    Tree { src: Seq<char>, dest: Seq<char>, follow_symlinks: bool },
}

impl View for PlannedEntry {
    type V = EntryModel;

    open spec fn view(&self) -> EntryModel {
        match self {
            PlannedEntry::Memory { name, contents } => EntryModel::Memory {
                name: name@,
                contents: contents@,
            },
            PlannedEntry::File { src, dest, remap } => EntryModel::File {
                src: src@,
                dest: dest@,
                remap: *remap,
            },
            PlannedEntry::Tree { src, dest, follow_symlinks } => EntryModel::Tree {
                src: src@,
                dest: dest@,
                follow_symlinks: *follow_symlinks,
            },
        }
    }
}

/// Entry name of the serialised binary list.
pub open spec fn binaries_metadata_name() -> Seq<char> {
    seq![
        't', 'a', 'r', 'g', 'e', 't', '/', 'n', 'e', 'x', 't', 'e', 's', 't', '/', 'b', 'i',
        'n', 'a', 'r', 'i', 'e', 's', '-', 'm', 'e', 't', 'a', 'd', 'a', 't', 'a', '.', 'j',
        's', 'o', 'n',
    ]
}

/// Entry name of the raw build metadata.
pub open spec fn cargo_metadata_name() -> Seq<char> {
    seq![
        't', 'a', 'r', 'g', 'e', 't', '/', 'n', 'e', 'x', 't', 'e', 's', 't', '/', 'c', 'a',
        'r', 'g', 'o', '-', 'm', 'e', 't', 'a', 'd', 'a', 't', 'a', '.', 'j', 's', 'o', 'n',
    ]
}

/// The directory that secondary binaries and linked paths are stored under.
pub open spec fn target_prefix() -> Seq<char> {
    seq!['t', 'a', 'r', 'g', 'e', 't']
}

/// Whether every primary binary lies within the parent of the build root.
pub open spec fn binaries_within(target: Seq<char>, binaries: Seq<Seq<char>>) -> bool {
    &&& parent_of(target) is Some
    &&& forall|i: int|
        0 <= i < binaries.len() ==> (#[trigger] strip_prefix_of(binaries[i], parent_of(target)->0)) is Some
}

/// Where a primary binary is stored: relative to the parent of the build root.
pub open spec fn primary_dest(target: Seq<char>, binary: Seq<char>, separator: char) -> Seq<char> {
    forward_slashed(strip_prefix_of(binary, parent_of(target)->0)->0, separator)
}

/// Where something relative to the build root is stored.
pub open spec fn target_dest(rel: Seq<char>, separator: char) -> Seq<char> {
    forward_slashed(joined(target_prefix(), rel), separator)
}

pub open spec fn primary_entries(m: ManifestModel, separator: char) -> Seq<EntryModel> {
    m.test_binaries.map_values(
        |b: Seq<char>|
            EntryModel::File {
                src: b,
                dest: primary_dest(m.target_directory, b, separator),
                remap: false,
            },
    )
}

pub open spec fn secondary_entries(m: ManifestModel, separator: char) -> Seq<EntryModel> {
    m.non_test_binaries.map_values(
        |p: Seq<char>|
            EntryModel::File {
                src: joined(m.target_directory, p),
                dest: target_dest(p, separator),
                remap: true,
            },
    )
}

pub open spec fn linked_entries(m: ManifestModel, separator: char) -> Seq<EntryModel> {
    m.linked_paths.map_values(
        |p: Seq<char>|
            EntryModel::Tree {
                src: joined(m.target_directory, p),
                dest: target_dest(p, separator),
                follow_symlinks: true,
            },
    )
}

pub open spec fn metadata_entries(m: ManifestModel) -> Seq<EntryModel> {
    seq![
        EntryModel::Memory { name: binaries_metadata_name(), contents: m.binaries_metadata },
        EntryModel::Memory { name: cargo_metadata_name(), contents: m.cargo_metadata },
    ]
}

/// The entries of an archive, in order: the binary list, the build metadata,
/// the primary binaries, the secondary binaries, the linked directories.
pub open spec fn planned_entries(m: ManifestModel, separator: char) -> Seq<EntryModel> {
    metadata_entries(m) + primary_entries(m, separator) + secondary_entries(m, separator)
        + linked_entries(m, separator)
}

/// How many of `entries` are single entries rather than directory trees.
pub open spec fn single_entry_count(entries: Seq<EntryModel>) -> nat
    decreases entries.len(),
{
    if entries.len() == 0 {
        0
    } else {
        single_entry_count(entries.drop_last()) + if entries.last() is Tree {
            0nat
        } else {
            1nat
        }
    }
}

proof fn lemma_single_entry_count_append(a: Seq<EntryModel>, b: Seq<EntryModel>)
    ensures
        single_entry_count(a + b) == single_entry_count(a) + single_entry_count(b),
    decreases b.len(),
{
    if b.len() > 0 {
        assert((a + b).drop_last() =~= a + b.drop_last());
        lemma_single_entry_count_append(a, b.drop_last());
    } else {
        assert(a + b =~= a);
    }
}

proof fn lemma_single_entry_count_uniform(entries: Seq<EntryModel>)
    ensures
        (forall|i: int| 0 <= i < entries.len() ==> !(#[trigger] entries[i] is Tree))
            ==> single_entry_count(entries) == entries.len(),
        (forall|i: int| 0 <= i < entries.len() ==> #[trigger] entries[i] is Tree)
            ==> single_entry_count(entries) == 0,
    decreases entries.len(),
{
    if entries.len() > 0 {
        lemma_single_entry_count_uniform(entries.drop_last());
        assert(forall|i: int|
            0 <= i < entries.len() - 1 ==> entries.drop_last()[i] == entries[i]);
    }
}

/// The single entries of a plan are the two metadata entries, one per
/// primary binary and one per secondary binary; every other entry of the
/// archive comes from a linked directory.
pub proof fn lemma_single_entry_count(m: ManifestModel, separator: char)
    ensures
        single_entry_count(planned_entries(m, separator)) == 2 + m.test_binaries.len()
            + m.non_test_binaries.len(),
{
    let a = metadata_entries(m);
    let b = primary_entries(m, separator);
    let c = secondary_entries(m, separator);
    let d = linked_entries(m, separator);
    lemma_single_entry_count_uniform(a);
    lemma_single_entry_count_uniform(b);
    lemma_single_entry_count_uniform(c);
    lemma_single_entry_count_uniform(d);
    lemma_single_entry_count_append(a, b);
    lemma_single_entry_count_append(a + b, c);
    lemma_single_entry_count_append(a + b + c, d);
}

/// The metadata entries come first: whatever the manifest holds, the plan
/// opens with the binary list and then the build metadata.
pub proof fn lemma_metadata_first(m: ManifestModel, separator: char)
    ensures
        planned_entries(m, separator).len() >= 2,
        planned_entries(m, separator)[0] == (EntryModel::Memory {
            name: binaries_metadata_name(),
            contents: m.binaries_metadata,
        }),
        planned_entries(m, separator)[1] == (EntryModel::Memory {
            name: cargo_metadata_name(),
            contents: m.cargo_metadata,
        }),
{
}

/// Whether the destination of an entry is free of the host separator.
pub open spec fn entry_is_portable(e: EntryModel, separator: char) -> bool {
    match e {
        EntryModel::Memory { name, .. } => is_portable(name, separator),
        EntryModel::File { dest, .. } => is_portable(dest, separator),
        EntryModel::Tree { dest, .. } => is_portable(dest, separator),
    }
}

/// The characters that a host may use to separate path components.
pub open spec fn is_host_separator(c: char) -> bool {
    c == '/' || c == '\\'
}

/// Every destination of a plan is written with forward slashes, whatever
/// separator the host uses.
pub proof fn lemma_plan_is_portable(m: ManifestModel, separator: char)
    requires
        is_host_separator(separator),
    ensures
        forall|i: int|
            0 <= i < planned_entries(m, separator).len() ==> entry_is_portable(
                #[trigger] planned_entries(m, separator)[i],
                separator,
            ),
{
    let p = planned_entries(m, separator);
    assert forall|i: int| 0 <= i < p.len() implies entry_is_portable(#[trigger] p[i], separator) by {
        let path = match p[i] {
            EntryModel::Memory { name, .. } => name,
            EntryModel::File { dest, .. } => dest,
            EntryModel::Tree { dest, .. } => dest,
        };
        if i < 2 {
            assert(!binaries_metadata_name().contains('\\'));
            assert(!cargo_metadata_name().contains('\\'));
        }
        if 2 <= i < 2 + m.test_binaries.len() {
            crate::paths::lemma_forward_slashed_is_portable(
                strip_prefix_of(
                    m.test_binaries[i - 2],
                    parent_of(m.target_directory)->0,
                )->0,
                separator,
            );
        }
        let k = i - 2 - m.test_binaries.len();
        if 0 <= k < m.non_test_binaries.len() {
            crate::paths::lemma_forward_slashed_is_portable(
                joined(target_prefix(), m.non_test_binaries[k]),
                separator,
            );
        }
        let l = k - m.non_test_binaries.len();
        if 0 <= l < m.linked_paths.len() {
            crate::paths::lemma_forward_slashed_is_portable(
                joined(target_prefix(), m.linked_paths[l]),
                separator,
            );
        }
        assert(is_portable(path, separator));
    }
}

pub open spec fn entry_views(v: Seq<PlannedEntry>) -> Seq<EntryModel> {
    v.map_values(|e: PlannedEntry| e@)
}

proof fn lemma_entry_views_push(v: Seq<PlannedEntry>, e: PlannedEntry)
    ensures
        entry_views(v.push(e)) == entry_views(v).push(e@),
{
    assert(entry_views(v.push(e)) =~= entry_views(v).push(e@));
}

/// Lays out the entries of an archive for `manifest`; `separator` is the
/// host's path separator, which destinations never contain.
pub fn plan_entries(manifest: &ArchiveManifest, separator: char) -> (r: Vec<PlannedEntry>)
    requires
        binaries_within(manifest@.target_directory, manifest@.test_binaries),
    ensures
        entry_views(r@) == planned_entries(manifest@, separator),
{
    let ghost m = manifest@;
    let mut entries: Vec<PlannedEntry> = Vec::new();
    proof {
        reveal_strlit("target/nextest/binaries-metadata.json");
        reveal_strlit("target/nextest/cargo-metadata.json");
        reveal_strlit("target");
        assert("target/nextest/binaries-metadata.json"@ =~= binaries_metadata_name());
        assert("target/nextest/cargo-metadata.json"@ =~= cargo_metadata_name());
        assert("target"@ =~= target_prefix());
    }
    entries.push(
        PlannedEntry::Memory {
            name: String::from_str("target/nextest/binaries-metadata.json"),
            contents: manifest.binaries_metadata.clone(),
        },
    );
    entries.push(
        PlannedEntry::Memory {
            name: String::from_str("target/nextest/cargo-metadata.json"),
            contents: manifest.cargo_metadata.clone(),
        },
    );
    assert(entry_views(entries@) =~= metadata_entries(m));
    let root_parent = match parent(manifest.target_directory.as_str()) {
        Some(p) => p,
        None => {
            assert(false);
            String::new()
        },
    };
    let mut i: usize = 0;
    while i < manifest.test_binaries.len()
        invariant
            m == manifest@,
            binaries_within(m.target_directory, m.test_binaries),
            root_parent@ == parent_of(m.target_directory)->0,
            i <= m.test_binaries.len(),
            entry_views(entries@) =~= metadata_entries(m) + primary_entries(m, separator).take(
                i as int,
            ),
        decreases m.test_binaries.len() - i,
    {
        let binary = &manifest.test_binaries[i];
        assert(binary@ == m.test_binaries[i as int]);
        let rel = match strip_prefix(binary.as_str(), root_parent.as_str()) {
            Some(rel) => rel,
            None => {
                assert(strip_prefix_of(m.test_binaries[i as int], root_parent@) is Some);
                assert(false);
                String::new()
            },
        };
        let dest = to_forward_slash(rel.as_str(), separator);
        let entry = PlannedEntry::File { src: binary.clone(), dest, remap: false };
        assert(entry@ == primary_entries(m, separator)[i as int]);
        proof {
            lemma_entry_views_push(entries@, entry);
        }
        entries.push(entry);
        assert(primary_entries(m, separator).take(i + 1) =~= primary_entries(m, separator).take(
            i as int,
        ).push(primary_entries(m, separator)[i as int]));
        i = i + 1;
    }
    assert(primary_entries(m, separator).take(i as int) =~= primary_entries(m, separator));
    let mut j: usize = 0;
    while j < manifest.non_test_binaries.len()
        invariant
            m == manifest@,
            "target"@ == target_prefix(),
            j <= m.non_test_binaries.len(),
            entry_views(entries@) =~= metadata_entries(m) + primary_entries(m, separator)
                + secondary_entries(m, separator).take(j as int),
        decreases m.non_test_binaries.len() - j,
    {
        let rel = &manifest.non_test_binaries[j];
        assert(rel@ == m.non_test_binaries[j as int]);
        let src = join(manifest.target_directory.as_str(), rel.as_str());
        let dest = to_forward_slash(join("target", rel.as_str()).as_str(), separator);
        let entry = PlannedEntry::File { src, dest, remap: true };
        assert(entry@ == secondary_entries(m, separator)[j as int]);
        proof {
            lemma_entry_views_push(entries@, entry);
        }
        entries.push(entry);
        assert(secondary_entries(m, separator).take(j + 1) =~= secondary_entries(
            m,
            separator,
        ).take(j as int).push(secondary_entries(m, separator)[j as int]));
        j = j + 1;
    }
    assert(secondary_entries(m, separator).take(j as int) =~= secondary_entries(m, separator));
    let mut k: usize = 0;
    while k < manifest.linked_paths.len()
        invariant
            m == manifest@,
            "target"@ == target_prefix(),
            k <= m.linked_paths.len(),
            entry_views(entries@) =~= metadata_entries(m) + primary_entries(m, separator)
                + secondary_entries(m, separator) + linked_entries(m, separator).take(k as int),
        decreases m.linked_paths.len() - k,
    {
        let rel = &manifest.linked_paths[k];
        assert(rel@ == m.linked_paths[k as int]);
        let src = join(manifest.target_directory.as_str(), rel.as_str());
        let dest = to_forward_slash(join("target", rel.as_str()).as_str(), separator);
        let entry = PlannedEntry::Tree { src, dest, follow_symlinks: true };
        assert(entry@ == linked_entries(m, separator)[k as int]);
        proof {
            lemma_entry_views_push(entries@, entry);
        }
        entries.push(entry);
        assert(linked_entries(m, separator).take(k + 1) =~= linked_entries(m, separator).take(
            k as int,
        ).push(linked_entries(m, separator)[k as int]));
        k = k + 1;
    }
    assert(linked_entries(m, separator).take(k as int) =~= linked_entries(m, separator));
    entries
}

/// Lays out the entries of an archive for `manifest`, or returns `None`
/// where some primary binary does not lie within the parent of the build
/// root (or the build root has no parent).
pub fn try_plan_entries(manifest: &ArchiveManifest, separator: char) -> (r: Option<
    Vec<PlannedEntry>,
>)
    ensures
        r is Some <==> binaries_within(manifest@.target_directory, manifest@.test_binaries),
        r matches Some(v) ==> entry_views(v@) == planned_entries(manifest@, separator),
{
    let root_parent = match parent(manifest.target_directory.as_str()) {
        Some(p) => p,
        None => return None,
    };
    let mut i: usize = 0;
    while i < manifest.test_binaries.len()
        invariant
            root_parent@ == parent_of(manifest@.target_directory)->0,
            parent_of(manifest@.target_directory) is Some,
            i <= manifest@.test_binaries.len(),
            forall|k: int|
                0 <= k < i ==> (#[trigger] strip_prefix_of(
                    manifest@.test_binaries[k],
                    root_parent@,
                )) is Some,
        decreases manifest@.test_binaries.len() - i,
    {
        let binary = &manifest.test_binaries[i];
        assert(binary@ == manifest@.test_binaries[i as int]);
        if strip_prefix(binary.as_str(), root_parent.as_str()).is_none() {
            return None;
        }
        i = i + 1;
    }
    Some(plan_entries(manifest, separator))
}

} // verus!
