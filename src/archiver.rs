//! The archiver: a state machine that hands out, one at a time, the actions
//! that write an archive, and learns from the caller what each one found.
//!
//! The caller performs every action (reading a file, listing a directory,
//! asking whether a symlink leads to a directory) and reports the outcome
//! through the method that the pending action calls for. Directory trees are
//! walked depth first with an explicit stack, so the depth of a tree is
//! bounded by memory and not by the call stack.

use vstd::prelude::*;
use vstd::string::*;
use crate::paths::{forward_slashed, is_portable, to_forward_slash};
use crate::plan::{
    binaries_metadata_name, cargo_metadata_name, entry_is_portable, entry_views, is_host_separator,
    lemma_single_entry_count, planned_entries, single_entry_count, EntryModel, ManifestModel,
    PlannedEntry,
};

verus! {

/// Permission bits of the entries synthesised from memory.
pub open spec fn memory_entry_mode() -> u32 {
    0o664
}

/// One entry of a directory listing, as the caller found it.
#[derive(Clone, Debug)]
pub struct DirChild {
    /// The child's path: the listed directory's path joined with `name`.
    pub path: String,
    /// The child's file name.
    pub name: String,
    /// Whether the child is a directory (a symlink is not).
    pub is_dir: bool,
    /// Whether the child is a symlink.
    pub is_symlink: bool,
}

pub struct ChildModel {
    pub path: Seq<char>,
    pub name: Seq<char>,
    pub is_dir: bool,
    pub is_symlink: bool,
}

impl View for DirChild {
    type V = ChildModel;

    open spec fn view(&self) -> ChildModel {
        ChildModel {
            path: self.path@,
            name: self.name@,
            is_dir: self.is_dir,
            is_symlink: self.is_symlink,
        }
    }
}

/// What the caller is asked to do next.
#[derive(Clone, Debug, PartialEq, Eq)]
pub enum ArchiveAction {
    /// Write an entry named `name` holding `contents`, with modification
    /// time `mtime` and permission bits `mode`; then call `appended`.
    AppendMemory { name: String, contents: String, mtime: u64, mode: u32 },
    /// Write the contents of the file at `src` as an entry named `dest`,
    /// passing `src` through the path mapper first where `remap` is set;
    /// then call `appended`.
    AppendFile { src: String, dest: String, remap: bool },
    /// List the directory at `path` (after the path mapper where `remap` is
    /// set); then call `listed` with its entries.
    ListDir { path: String, remap: bool },
    /// Find out whether the symlink at `path` leads to a directory; then
    /// call `probed`.
    ProbeDir { path: String },
    /// The archive is complete and holds `file_count` entries.
    Finished { file_count: usize },
}

pub enum ActionModel {
    AppendMemory { name: Seq<char>, contents: Seq<char>, mtime: u64, mode: u32 },
    AppendFile { src: Seq<char>, dest: Seq<char>, remap: bool },
    ListDir { path: Seq<char>, remap: bool },
    ProbeDir { path: Seq<char> },
    Finished { file_count: nat },
}

impl View for ArchiveAction {
    type V = ActionModel;

    open spec fn view(&self) -> ActionModel {
        match self {
            ArchiveAction::AppendMemory { name, contents, mtime, mode } => ActionModel::AppendMemory {
                name: name@,
                contents: contents@,
                mtime: *mtime,
                mode: *mode,
            },
            ArchiveAction::AppendFile { src, dest, remap } => ActionModel::AppendFile {
                src: src@,
                dest: dest@,
                remap: *remap,
            },
            ArchiveAction::ListDir { path, remap } => ActionModel::ListDir {
                path: path@,
                remap: *remap,
            },
            ArchiveAction::ProbeDir { path } => ActionModel::ProbeDir { path: path@ },
            ArchiveAction::Finished { file_count } => ActionModel::Finished {
                file_count: *file_count as nat,
            },
        }
    }
}

/// A path waiting on the walk stack.
struct WalkNode {
    src: String,
    dest: String,
    is_dir: bool,
    is_symlink: bool,
    remap: bool,
    follow: bool,
}

pub struct NodeModel {
    pub src: Seq<char>,
    pub dest: Seq<char>,
    pub is_dir: bool,
    pub is_symlink: bool,
    pub remap: bool,
    pub follow: bool,
}

impl View for WalkNode {
    type V = NodeModel;

    closed spec fn view(&self) -> NodeModel {
        NodeModel {
            src: self.src@,
            dest: self.dest@,
            is_dir: self.is_dir,
            is_symlink: self.is_symlink,
            remap: self.remap,
            follow: self.follow,
        }
    }
}

/// What the archiver waits for.
enum Pending {
    Ready,
    AppendEntry,
    AppendLeaf,
    Listing { dest: String, follow: bool },
    Probe { node: WalkNode },
    Done,
}

/// What the archiver waits for, as values.
pub enum Awaiting {
    /// No action is out: the next one is due (only before `start`).
    Ready,
    /// An entry of the plan is being written: call `appended`.
    AppendEntry,
    /// A file found by walking a directory is being written: call `appended`.
    AppendLeaf,
    /// A directory is being listed; its children go under `dest`.
    Listing { dest: Seq<char>, follow: bool },
    /// A symlink is being probed.
    Probe { node: NodeModel },
    /// The archive is complete.
    Done,
}

impl View for Pending {
    type V = Awaiting;

    closed spec fn view(&self) -> Awaiting {
        match self {
            Pending::Ready => Awaiting::Ready,
            Pending::AppendEntry => Awaiting::AppendEntry,
            Pending::AppendLeaf => Awaiting::AppendLeaf,
            Pending::Listing { dest, follow } => Awaiting::Listing { dest: dest@, follow: *follow },
            Pending::Probe { node } => Awaiting::Probe { node: node@ },
            Pending::Done => Awaiting::Done,
        }
    }
}

/// The archiver's state as values.
pub struct ArchiverModel {
    pub entries: Seq<EntryModel>,
    pub next_entry: nat,
    pub stack: Seq<NodeModel>,
    pub awaiting: Awaiting,
    pub file_count: nat,
    pub unix_timestamp: u64,
    pub separator: char,
    /// How many files found by walking directories have been written.
    pub walked_files: nat,
}

/// Drives the writing of one archive.
pub struct Archiver {
    entries: Vec<PlannedEntry>,
    next_entry: usize,
    stack: Vec<WalkNode>,
    pending: Pending,
    file_count: usize,
    unix_timestamp: u64,
    separator: char,
    walked_files: Ghost<nat>,
}

impl View for Archiver {
    type V = ArchiverModel;

    closed spec fn view(&self) -> ArchiverModel {
        ArchiverModel {
            entries: entry_views(self.entries@),
            next_entry: self.next_entry as nat,
            stack: self.stack@.map_values(|n: WalkNode| n@),
            awaiting: self.pending@,
            file_count: self.file_count as nat,
            unix_timestamp: self.unix_timestamp,
            separator: self.separator,
            walked_files: self.walked_files@,
        }
    }
}

/// The node that stands for a child of a listed directory whose entries go
/// under `dest`.
pub open spec fn child_node(c: ChildModel, dest: Seq<char>, follow: bool, separator: char) -> NodeModel {
    NodeModel {
        src: c.path,
        dest: dest + seq!['/'] + forward_slashed(c.name, separator),
        is_dir: c.is_dir,
        is_symlink: c.is_symlink,
        remap: false,
        follow,
    }
}

pub open spec fn child_nodes(
    children: Seq<ChildModel>,
    dest: Seq<char>,
    follow: bool,
    separator: char,
) -> Seq<NodeModel> {
    children.map_values(|c: ChildModel| child_node(c, dest, follow, separator))
}

/// The next action, and the state that waits for its outcome: the top of the
/// walk stack goes first; with the stack empty, the next entry of the plan;
/// with the plan done, the end.
pub open spec fn next_step(s: ArchiverModel) -> (ArchiverModel, ActionModel) {
    if s.stack.len() > 0 {
        let n = s.stack.last();
        let t = ArchiverModel { stack: s.stack.drop_last(), ..s };
        if n.is_dir {
            (
                ArchiverModel { awaiting: Awaiting::Listing { dest: n.dest, follow: n.follow }, ..t },
                ActionModel::ListDir { path: n.src, remap: n.remap },
            )
        } else if n.is_symlink && n.follow {
            (ArchiverModel { awaiting: Awaiting::Probe { node: n }, ..t }, ActionModel::ProbeDir { path: n.src })
        } else {
            (
                ArchiverModel { awaiting: Awaiting::AppendLeaf, ..t },
                ActionModel::AppendFile { src: n.src, dest: n.dest, remap: n.remap },
            )
        }
    } else if s.next_entry < s.entries.len() {
        let t = ArchiverModel { next_entry: s.next_entry + 1, ..s };
        match s.entries[s.next_entry as int] {
            EntryModel::Memory { name, contents } => (
                ArchiverModel { awaiting: Awaiting::AppendEntry, ..t },
                ActionModel::AppendMemory {
                    name,
                    contents,
                    mtime: s.unix_timestamp,
                    mode: memory_entry_mode(),
                },
            ),
            EntryModel::File { src, dest, remap } => (
                ArchiverModel { awaiting: Awaiting::AppendEntry, ..t },
                ActionModel::AppendFile { src, dest, remap },
            ),
            EntryModel::Tree { src, dest, follow_symlinks } => (
                ArchiverModel { awaiting: Awaiting::Listing { dest, follow: follow_symlinks }, ..t },
                ActionModel::ListDir { path: src, remap: true },
            ),
        }
    } else {
        (ArchiverModel { awaiting: Awaiting::Done, ..s }, ActionModel::Finished { file_count: s.file_count })
    }
}

/// The state once the pending append has been written.
pub open spec fn after_append(s: ArchiverModel) -> ArchiverModel {
    ArchiverModel {
        awaiting: Awaiting::Ready,
        file_count: s.file_count + 1,
        walked_files: if s.awaiting is AppendLeaf {
            s.walked_files + 1
        } else {
            s.walked_files
        },
        ..s
    }
}

/// The state once the pending listing has come back with `children`.
pub open spec fn after_listing(s: ArchiverModel, children: Seq<ChildModel>) -> ArchiverModel {
    match s.awaiting {
        Awaiting::Listing { dest, follow } => ArchiverModel {
            stack: s.stack + child_nodes(children, dest, follow, s.separator),
            awaiting: Awaiting::Ready,
            ..s
        },
        _ => s,
    }
}

/// The next action once the pending symlink has been probed: a symlink that
/// leads to a directory is listed like one; any other is written as the file
/// it leads to.
pub open spec fn after_probe(s: ArchiverModel, leads_to_dir: bool) -> (ArchiverModel, ActionModel) {
    match s.awaiting {
        Awaiting::Probe { node } => if leads_to_dir {
            (
                ArchiverModel { awaiting: Awaiting::Listing { dest: node.dest, follow: node.follow }, ..s },
                ActionModel::ListDir { path: node.src, remap: node.remap },
            )
        } else {
            (
                ArchiverModel { awaiting: Awaiting::AppendLeaf, ..s },
                ActionModel::AppendFile { src: node.src, dest: node.dest, remap: node.remap },
            )
        },
        _ => (s, ActionModel::Finished { file_count: s.file_count }),
    }
}

/// Whether the entry name that an action writes is free of the host separator.
pub open spec fn action_is_portable(a: ActionModel, separator: char) -> bool {
    match a {
        ActionModel::AppendMemory { name, .. } => is_portable(name, separator),
        ActionModel::AppendFile { dest, .. } => is_portable(dest, separator),
        _ => true,
    }
}

/// The state of an archiver that has not handed out any action yet.
pub open spec fn fresh_archiver(entries: Seq<EntryModel>, unix_timestamp: u64, separator: char) -> ArchiverModel {
    ArchiverModel {
        entries,
        next_entry: 0,
        stack: Seq::empty(),
        awaiting: Awaiting::Ready,
        file_count: 0,
        unix_timestamp,
        separator,
        walked_files: 0,
    }
}

/// Whether `awaiting` is what follows from handing out `action`: the caller
/// reports the outcome of each action through the method that it names.
pub open spec fn awaits_outcome_of(awaiting: Awaiting, action: ActionModel) -> bool {
    match action {
        ActionModel::AppendMemory { .. } => awaiting is AppendEntry,
        ActionModel::AppendFile { .. } => awaiting is AppendEntry || awaiting is AppendLeaf,
        ActionModel::ListDir { .. } => awaiting is Listing,
        ActionModel::ProbeDir { .. } => awaiting is Probe,
        ActionModel::Finished { .. } => awaiting is Done,
    }
}

/// What holds of every state of the archiver.
pub open spec fn archiver_inv(s: ArchiverModel) -> bool {
    &&& s.next_entry <= s.entries.len()
    &&& s.file_count + (if s.awaiting is AppendEntry {
        1nat
    } else {
        0nat
    }) == single_entry_count(s.entries.take(s.next_entry as int)) + s.walked_files
    &&& s.awaiting is Done ==> s.next_entry == s.entries.len() && s.stack.len() == 0
}

/// Whether every entry name that the archiver still holds, planned or found
/// by a walk, is free of the host separator.
pub open spec fn dests_portable(s: ArchiverModel) -> bool {
    &&& forall|i: int| 0 <= i < s.entries.len() ==> entry_is_portable(#[trigger] s.entries[i], s.separator)
    &&& forall|i: int| 0 <= i < s.stack.len() ==> is_portable(#[trigger] s.stack[i].dest, s.separator)
    &&& s.awaiting matches Awaiting::Listing { dest, .. } ==> is_portable(dest, s.separator)
    &&& s.awaiting matches Awaiting::Probe { node } ==> is_portable(node.dest, s.separator)
}

proof fn lemma_portable_concat(a: Seq<char>, b: Seq<char>, separator: char)
    requires
        is_portable(a, separator),
        is_portable(b, separator),
    ensures
        is_portable(a + b, separator),
{
    if separator != '/' {
        assert forall|i: int| 0 <= i < (a + b).len() implies (a + b)[i] != separator by {
            if i < a.len() {
                assert((a + b)[i] == a[i]);
            } else {
                assert((a + b)[i] == b[i - a.len()]);
            }
        }
    }
}

proof fn lemma_child_node_portable(c: ChildModel, dest: Seq<char>, follow: bool, separator: char)
    requires
        is_portable(dest, separator),
    ensures
        is_portable(child_node(c, dest, follow, separator).dest, separator),
{
    crate::paths::lemma_forward_slashed_is_portable(c.name, separator);
    assert(is_portable(seq!['/'], separator)) by {
        if separator != '/' {
            assert(seq!['/'][0] != separator);
        }
    }
    lemma_portable_concat(dest, seq!['/'], separator);
    lemma_portable_concat(dest + seq!['/'], forward_slashed(c.name, separator), separator);
}

/// Each step keeps the invariant, waits for the outcome of the action it
/// hands out, and keeps entry names free of the host separator.
proof fn lemma_next_step(s: ArchiverModel)
    requires
        archiver_inv(s),
        s.awaiting is Ready,
    ensures
        archiver_inv(next_step(s).0),
        awaits_outcome_of(next_step(s).0.awaiting, next_step(s).1),
        dests_portable(s) ==> dests_portable(next_step(s).0) && action_is_portable(
            next_step(s).1,
            s.separator,
        ),
{
    if s.stack.len() > 0 {
        if dests_portable(s) {
            assert(is_portable(s.stack[s.stack.len() - 1].dest, s.separator));
        }
    } else if s.next_entry < s.entries.len() {
        let k = s.next_entry as int;
        assert(s.entries.take(k + 1).drop_last() =~= s.entries.take(k));
        assert(s.entries.take(k + 1).last() == s.entries[k]);
        if dests_portable(s) {
            assert(entry_is_portable(s.entries[k], s.separator));
        }
    }
}

impl Archiver {
    /// Whether the archiver's state is one that its methods keep.
    pub closed spec fn wf(&self) -> bool {
        archiver_inv(self@)
    }

    /// An archiver that writes `entries` in order, stamping the entries it
    /// synthesises with `unix_timestamp`; `separator` is the host's path
    /// separator.
    pub fn new(entries: Vec<PlannedEntry>, unix_timestamp: u64, separator: char) -> (r: Self)
        ensures
            r.wf(),
            r@ == fresh_archiver(entry_views(entries@), unix_timestamp, separator),
    {
        let r = Archiver {
            entries,
            next_entry: 0,
            stack: Vec::new(),
            pending: Pending::Ready,
            file_count: 0,
            unix_timestamp,
            separator,
            walked_files: Ghost(0),
        };
        assert(r@.stack =~= Seq::<NodeModel>::empty());
        assert(entry_views(r.entries@).take(0) =~= Seq::<EntryModel>::empty());
        r
    }

    /// How many entries have been written so far.
    pub fn file_count(&self) -> (r: usize)
        ensures
            r == self@.file_count,
    {
        self.file_count
    }

    fn step(&mut self) -> (action: ArchiveAction)
        requires
            old(self).wf(),
            old(self)@.awaiting is Ready,
        ensures
            final(self).wf(),
            (final(self)@, action@) == next_step(old(self)@),
            awaits_outcome_of(final(self)@.awaiting, action@),
            dests_portable(old(self)@) ==> dests_portable(final(self)@) && action_is_portable(
                action@,
                old(self)@.separator,
            ),
    {
        proof {
            lemma_next_step(self@);
        }
        let ghost s = self@;
        if self.stack.len() > 0 {
            let node = self.stack.pop().unwrap();
            assert(self.stack@.map_values(|n: WalkNode| n@) =~= s.stack.drop_last());
            if node.is_dir {
                let path = node.src;
                self.pending = Pending::Listing { dest: node.dest, follow: node.follow };
                ArchiveAction::ListDir { path, remap: node.remap }
            } else if node.is_symlink && node.follow {
                let path = node.src.clone();
                self.pending = Pending::Probe { node };
                ArchiveAction::ProbeDir { path }
            } else {
                self.pending = Pending::AppendLeaf;
                ArchiveAction::AppendFile { src: node.src, dest: node.dest, remap: node.remap }
            }
        } else if self.next_entry < self.entries.len() {
            let k = self.next_entry;
            self.next_entry = k + 1;
            assert(entry_views(self.entries@)[k as int] == self.entries@[k as int]@);
            match &self.entries[k] {
                PlannedEntry::Memory { name, contents } => {
                    self.pending = Pending::AppendEntry;
                    ArchiveAction::AppendMemory {
                        name: name.clone(),
                        contents: contents.clone(),
                        mtime: self.unix_timestamp,
                        mode: 0o664,
                    }
                },
                PlannedEntry::File { src, dest, remap } => {
                    self.pending = Pending::AppendEntry;
                    ArchiveAction::AppendFile { src: src.clone(), dest: dest.clone(), remap: *remap }
                },
                PlannedEntry::Tree { src, dest, follow_symlinks } => {
                    self.pending = Pending::Listing { dest: dest.clone(), follow: *follow_symlinks };
                    ArchiveAction::ListDir { path: src.clone(), remap: true }
                },
            }
        } else {
            self.pending = Pending::Done;
            ArchiveAction::Finished { file_count: self.file_count }
        }
    }

    /// The first action: the first entry of the plan, or the end where the
    /// plan is empty.
    pub fn start(&mut self) -> (action: ArchiveAction)
        requires
            old(self).wf(),
            old(self)@.awaiting is Ready,
        ensures
            final(self).wf(),
            (final(self)@, action@) == next_step(old(self)@),
            awaits_outcome_of(final(self)@.awaiting, action@),
            dests_portable(old(self)@) ==> dests_portable(final(self)@) && action_is_portable(
                action@,
                old(self)@.separator,
            ),
    {
        self.step()
    }

    /// Reports that the pending entry has been written; returns the next
    /// action.
    pub fn appended(&mut self) -> (action: ArchiveAction)
        requires
            old(self).wf(),
            old(self)@.awaiting is AppendEntry || old(self)@.awaiting is AppendLeaf,
            old(self)@.file_count < usize::MAX,
        ensures
            final(self).wf(),
            (final(self)@, action@) == next_step(after_append(old(self)@)),
            awaits_outcome_of(final(self)@.awaiting, action@),
            dests_portable(old(self)@) ==> dests_portable(final(self)@) && action_is_portable(
                action@,
                old(self)@.separator,
            ),
    {
        if let Pending::AppendLeaf = self.pending {
            self.walked_files = Ghost(self.walked_files@ + 1);
        }
        self.file_count = self.file_count + 1;
        self.pending = Pending::Ready;
        assert(self@ == after_append(old(self)@));
        self.step()
    }

    /// Reports the entries of the directory that was listed; returns the
    /// next action. The children are walked in the reverse of the order given.
    pub fn listed(&mut self, children: Vec<DirChild>) -> (action: ArchiveAction)
        requires
            old(self).wf(),
            old(self)@.awaiting is Listing,
        ensures
            final(self).wf(),
            (final(self)@, action@) == next_step(
                after_listing(old(self)@, children@.map_values(|c: DirChild| c@)),
            ),
            awaits_outcome_of(final(self)@.awaiting, action@),
            dests_portable(old(self)@) ==> dests_portable(final(self)@) && action_is_portable(
                action@,
                old(self)@.separator,
            ),
    {
        let ghost s = self@;
        let ghost kids = children@.map_values(|c: DirChild| c@);
        let (dest, follow) = match &self.pending {
            Pending::Listing { dest, follow } => (dest.clone(), *follow),
            _ => {
                assert(false);
                (String::new(), false)
            },
        };
        proof {
            reveal_strlit("/");
            assert("/"@ =~= seq!['/']);
        }
        let mut i: usize = 0;
        while i < children.len()
            invariant
                self.wf(),
                self@ == (ArchiverModel {
                    stack: s.stack + child_nodes(kids.take(i as int), dest@, follow, s.separator),
                    ..s
                }),
                dests_portable(s) ==> dests_portable(self@),
                s.awaiting == (Awaiting::Listing { dest: dest@, follow }),
                kids == children@.map_values(|c: DirChild| c@),
                i <= children@.len(),
                "/"@ == seq!['/'],
            decreases children@.len() - i,
        {
            let child = &children[i];
            let mut child_dest = dest.clone();
            child_dest.append("/");
            let name = to_forward_slash(child.name.as_str(), self.separator);
            child_dest.append(name.as_str());
            let node = WalkNode {
                src: child.path.clone(),
                dest: child_dest,
                is_dir: child.is_dir,
                is_symlink: child.is_symlink,
                remap: false,
                follow,
            };
            assert(node@ == child_node(kids[i as int], dest@, follow, s.separator));
            proof {
                if dests_portable(s) {
                    lemma_child_node_portable(kids[i as int], dest@, follow, s.separator);
                }
            }
            let ghost before = self@.stack;
            self.stack.push(node);
            assert(self@.stack =~= before.push(node@));
            assert(child_nodes(kids.take(i + 1), dest@, follow, s.separator) =~= child_nodes(
                kids.take(i as int),
                dest@,
                follow,
                s.separator,
            ).push(node@));
            proof {
                if dests_portable(s) {
                    assert forall|j: int| 0 <= j < self@.stack.len() implies is_portable(
                        #[trigger] self@.stack[j].dest,
                        s.separator,
                    ) by {
                        if j < before.len() {
                            assert(self@.stack[j] == before[j]);
                        }
                    }
                }
            }
            i = i + 1;
        }
        assert(kids.take(i as int) =~= kids);
        self.pending = Pending::Ready;
        assert(self@ =~= after_listing(s, kids));
        self.step()
    }

    /// Reports whether the pending symlink leads to a directory; returns the
    /// next action.
    pub fn probed(&mut self, leads_to_dir: bool) -> (action: ArchiveAction)
        requires
            old(self).wf(),
            old(self)@.awaiting is Probe,
        ensures
            final(self).wf(),
            (final(self)@, action@) == after_probe(old(self)@, leads_to_dir),
            awaits_outcome_of(final(self)@.awaiting, action@),
            dests_portable(old(self)@) ==> dests_portable(final(self)@) && action_is_portable(
                action@,
                old(self)@.separator,
            ),
    {
        let (src, dest, remap, follow) = match &self.pending {
            Pending::Probe { node } => (node.src.clone(), node.dest.clone(), node.remap, node.follow),
            _ => {
                assert(false);
                (String::new(), String::new(), false, false)
            },
        };
        assert(old(self)@.awaiting matches Awaiting::Probe { node } && node.dest == dest@);
        let ghost dest_view = dest@;
        if leads_to_dir {
            self.pending = Pending::Listing { dest, follow };
            assert(self@ =~= (ArchiverModel {
                awaiting: Awaiting::Listing { dest: dest_view, follow },
                ..old(self)@
            }));
            ArchiveAction::ListDir { path: src, remap }
        } else {
            let dest_copy = dest.clone();
            self.pending = Pending::AppendLeaf;
            assert(self@ =~= (ArchiverModel { awaiting: Awaiting::AppendLeaf, ..old(self)@ }));
            ArchiveAction::AppendFile { src, dest: dest_copy, remap }
        }
    }
}

/// The count reported at the end is that of every entry written: one for
/// each single entry of the plan and one for each file that the walks of the
/// linked directories turned up. For a plan laid out from a manifest, that is
/// two, plus the primary binaries, plus the secondary binaries, plus the
/// files below the linked paths.
pub proof fn lemma_entry_count(a: &Archiver, m: ManifestModel, separator: char)
    requires
        a.wf(),
        a@.entries == planned_entries(m, separator),
        a@.awaiting is Done,
    ensures
        a@.file_count == 2 + m.test_binaries.len() + m.non_test_binaries.len() + a@.walked_files,
{
    assert(a@.entries.take(a@.entries.len() as int) =~= a@.entries);
    lemma_single_entry_count(m, separator);
}

/// Whatever the manifest holds, the first two actions of an archiver that
/// carries out its plan write the binary list and then the build metadata,
/// both stamped with the archiver's single timestamp.
pub proof fn lemma_metadata_written_first(m: ManifestModel, separator: char, unix_timestamp: u64)
    ensures
        ({
            let s0 = fresh_archiver(planned_entries(m, separator), unix_timestamp, separator);
            let first = next_step(s0);
            let second = next_step(after_append(first.0));
            &&& first.1 == (ActionModel::AppendMemory {
                name: binaries_metadata_name(),
                contents: m.binaries_metadata,
                mtime: unix_timestamp,
                mode: memory_entry_mode(),
            })
            &&& second.1 == (ActionModel::AppendMemory {
                name: cargo_metadata_name(),
                contents: m.cargo_metadata,
                mtime: unix_timestamp,
                mode: memory_entry_mode(),
            })
        }),
{
    crate::plan::lemma_metadata_first(m, separator);
}

/// A symlink found in a walk is never stored as a link. Where symlinks are
/// followed, it is probed: one that leads to a directory is listed, so every
/// file below its target is walked; any other is written as one entry with
/// the contents it leads to. Where they are not followed, it is written as
/// such an entry at once.
pub proof fn lemma_symlink_handling(s: ArchiverModel)
    requires
        s.awaiting is Ready,
        s.stack.len() > 0,
        s.stack.last().is_symlink,
        !s.stack.last().is_dir,
    ensures
        ({
            let n = s.stack.last();
            let (t, action) = next_step(s);
            &&& n.follow ==> action == (ActionModel::ProbeDir { path: n.src })
                && after_probe(t, true).1 == (ActionModel::ListDir { path: n.src, remap: n.remap })
                && after_probe(t, false).1 == (ActionModel::AppendFile {
                src: n.src,
                dest: n.dest,
                remap: n.remap,
            })
            &&& !n.follow ==> action == (ActionModel::AppendFile {
                src: n.src,
                dest: n.dest,
                remap: n.remap,
            })
        }),
{
}

/// An archiver that carries out a plan laid out from a manifest starts, and
/// so by the methods' guarantees stays, with every entry name free of the
/// host separator: whatever separator the host uses, the archive holds
/// forward slashes only.
pub proof fn lemma_planned_archiver_is_portable(m: ManifestModel, separator: char, unix_timestamp: u64)
    requires
        is_host_separator(separator),
    ensures
        dests_portable(fresh_archiver(planned_entries(m, separator), unix_timestamp, separator)),
{
    crate::plan::lemma_plan_is_portable(m, separator);
}

} // verus!
