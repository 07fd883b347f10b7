//! The search for the V4L2 capture node below a USB device in sysfs.
//!
//! The search walks the directories below the device, depth first. In each directory it looks for
//! a `video4linux` directory and takes the first primary node in it that can capture video. Only
//! what the search needs next is asked for, since sysfs is full of links that lead elsewhere.

use crate::text::{self, parse_natural, path_below, starts_with, trim};
use vstd::prelude::*;
use vstd::string::*;

verus! {

/// The file `index` of a V4L2 node.
#[derive(Debug, Clone)]
pub enum IndexFile {
    Missing,
    Unreadable,
    Content(String),
}

/// An entry of a `video4linux` directory.
#[derive(Debug, Clone)]
pub enum NodeEntry {
    /// An entry with this name and index file.
    Node { name: String, index: IndexFile },
    /// The directory cannot be read on; the words of the error.
    Broken(String),
}

/// An entry of a directory.
#[derive(Debug, Clone)]
pub enum ChildEntry {
    /// An entry with this path, and whether it is a directory.
    Child { path: String, is_dir: bool },
    /// The directory cannot be read on; the words of the error.
    Broken(String),
}

/// What a search asks for.
#[derive(Debug, Clone)]
pub enum SearchRequest {
    /// The entries of the directory at this path.
    Nodes(String),
    /// Whether the device at this path can capture video.
    Capability(String),
    /// The entries of the directory at this path.
    Children(String),
    /// Nothing: the search is over.
    Nothing,
}

/// What is answered.
#[derive(Debug, Clone)]
pub enum SearchReply {
    /// There is no such directory.
    NoDirectory,
    /// The directory cannot be read; the words of the error.
    Unreadable(String),
    /// The entries of a `video4linux` directory.
    Nodes(Vec<NodeEntry>),
    /// Whether a device can capture video.
    Capability(bool),
    /// The entries of a directory.
    Children(Vec<ChildEntry>),
}

/// An entry of a `video4linux` directory, with texts as character sequences: whether it is a
/// candidate for the capture node, and its name.
pub ghost enum NodeModel {
    Node { name: Seq<char>, candidate: bool },
    Broken(Seq<char>),
}

/// Whether an index file says that a node is the primary one of its device. A node without an
/// index file is taken for primary.
pub open spec fn is_primary(index: IndexFile) -> bool {
    match index {
        IndexFile::Missing => true,
        IndexFile::Unreadable => false,
        IndexFile::Content(content) => text::natural_up_to(
            text::trimmed(content@),
            u32::MAX as nat,
        ) == Some(0nat),
    }
}

impl View for NodeEntry {
    type V = NodeModel;

    open spec fn view(&self) -> NodeModel {
        match *self {
            NodeEntry::Node { name, index } => NodeModel::Node {
                name: name@,
                candidate: text::has_prefix(name@, "video"@) && is_primary(index),
            },
            NodeEntry::Broken(words) => NodeModel::Broken(words@),
        }
    }
}

/// An entry of a directory, with texts as character sequences.
pub ghost enum ChildModel {
    Child { path: Seq<char>, is_dir: bool },
    Broken(Seq<char>),
}

impl View for ChildEntry {
    type V = ChildModel;

    open spec fn view(&self) -> ChildModel {
        match *self {
            ChildEntry::Child { path, is_dir } => ChildModel::Child { path: path@, is_dir },
            ChildEntry::Broken(words) => ChildModel::Broken(words@),
        }
    }
}

/// What is left to do: directories to search, and errors to report when the search gets there.
#[derive(Debug, Clone)]
pub enum SearchTask {
    Visit(String),
    Fail(String),
}

/// What is left to do, with texts as character sequences.
pub ghost enum TaskModel {
    Visit(Seq<char>),
    Fail(Seq<char>),
}

impl View for SearchTask {
    type V = TaskModel;

    open spec fn view(&self) -> TaskModel {
        match *self {
            SearchTask::Visit(path) => TaskModel::Visit(path@),
            SearchTask::Fail(words) => TaskModel::Fail(words@),
        }
    }
}

/// Where a search stands.
#[derive(Debug, Clone)]
pub enum SearchPhase {
    /// The nodes in this directory are to be listed.
    Nodes(String),
    /// The capability of a node of this directory is to be asked for; the entries from `next` on
    /// come after it.
    Capability { dir: String, dev: String, entries: Vec<NodeEntry>, next: usize },
    /// The directories in this directory are to be listed.
    Children(String),
    /// The search is over.
    Over(SearchOutcome),
}

/// How a search ended.
#[derive(Debug, Clone)]
pub enum SearchOutcome {
    /// The capture node.
    Found(String),
    /// There is no capture node.
    NotFound,
    /// A directory could not be read; the words of the error.
    Failed(String),
}

/// How a search ended, with texts as character sequences.
pub ghost enum OutcomeModel {
    Found(Seq<char>),
    NotFound,
    Failed(Seq<char>),
}

impl View for SearchOutcome {
    type V = OutcomeModel;

    open spec fn view(&self) -> OutcomeModel {
        match *self {
            SearchOutcome::Found(dev) => OutcomeModel::Found(dev@),
            SearchOutcome::NotFound => OutcomeModel::NotFound,
            SearchOutcome::Failed(words) => OutcomeModel::Failed(words@),
        }
    }
}

/// Where a search stands, with texts as character sequences.
pub ghost enum PhaseModel {
    Nodes(Seq<char>),
    Capability { dir: Seq<char>, dev: Seq<char>, rest: Seq<NodeModel> },
    Children(Seq<char>),
    Over(OutcomeModel),
}

/// The models of node entries.
pub open spec fn node_models(entries: Seq<NodeEntry>) -> Seq<NodeModel> {
    entries.map_values(|e: NodeEntry| e@)
}

/// The models of directory entries.
pub open spec fn child_models(entries: Seq<ChildEntry>) -> Seq<ChildModel> {
    entries.map_values(|e: ChildEntry| e@)
}

/// The models of tasks.
pub open spec fn task_models(tasks: Seq<SearchTask>) -> Seq<TaskModel> {
    tasks.map_values(|t: SearchTask| t@)
}

impl View for SearchPhase {
    type V = PhaseModel;

    open spec fn view(&self) -> PhaseModel {
        match *self {
            SearchPhase::Nodes(dir) => PhaseModel::Nodes(dir@),
            SearchPhase::Capability { dir, dev, entries, next } => PhaseModel::Capability {
                dir: dir@,
                dev: dev@,
                rest: node_models(entries@).skip(next as int),
            },
            SearchPhase::Children(dir) => PhaseModel::Children(dir@),
            SearchPhase::Over(outcome) => PhaseModel::Over(outcome@),
        }
    }
}

/// The state of a search: what is left to do, the next task last, and the current phase.
pub ghost struct SearchModel {
    pub tasks: Seq<TaskModel>,
    pub phase: PhaseModel,
}

/// The reply, with texts as character sequences.
pub ghost enum ReplyModel {
    NoDirectory,
    Unreadable(Seq<char>),
    Nodes(Seq<NodeModel>),
    Capability(bool),
    Children(Seq<ChildModel>),
}

impl View for SearchReply {
    type V = ReplyModel;

    open spec fn view(&self) -> ReplyModel {
        match *self {
            SearchReply::NoDirectory => ReplyModel::NoDirectory,
            SearchReply::Unreadable(words) => ReplyModel::Unreadable(words@),
            SearchReply::Nodes(entries) => ReplyModel::Nodes(node_models(entries@)),
            SearchReply::Capability(yes) => ReplyModel::Capability(yes),
            SearchReply::Children(entries) => ReplyModel::Children(child_models(entries@)),
        }
    }
}

/// The path of the device node with a name.
pub open spec fn device_path(name: Seq<char>) -> Seq<char> {
    "/dev/"@ + name
}

/// The phase in which the entries `rest` of the nodes of a directory are still to be looked at:
/// the first candidate is asked for its capability; without one, the directories below are next.
pub open spec fn settled(dir: Seq<char>, rest: Seq<NodeModel>) -> PhaseModel
    decreases rest.len(),
{
    if rest.len() == 0 {
        PhaseModel::Children(dir)
    } else {
        match rest[0] {
            NodeModel::Broken(words) => PhaseModel::Over(OutcomeModel::Failed(words)),
            NodeModel::Node { name, candidate } => if candidate {
                PhaseModel::Capability { dir, dev: device_path(name), rest: rest.skip(1) }
            } else {
                settled(dir, rest.skip(1))
            },
        }
    }
}

/// The tasks with the entries of a directory on top, the first entry last. Entries that are no
/// directories are left out.
pub open spec fn with_children(tasks: Seq<TaskModel>, children: Seq<ChildModel>) -> Seq<TaskModel>
    decreases children.len(),
{
    if children.len() == 0 {
        tasks
    } else {
        let above = with_children(tasks, children.skip(1));
        match children[0] {
            ChildModel::Child { path, is_dir } => if is_dir {
                above.push(TaskModel::Visit(path))
            } else {
                above
            },
            ChildModel::Broken(words) => above.push(TaskModel::Fail(words)),
        }
    }
}

/// The search that takes up its next task.
pub open spec fn advanced(tasks: Seq<TaskModel>) -> SearchModel {
    if tasks.len() == 0 {
        SearchModel { tasks, phase: PhaseModel::Over(OutcomeModel::NotFound) }
    } else {
        SearchModel {
            tasks: tasks.drop_last(),
            phase: match tasks.last() {
                TaskModel::Visit(path) => PhaseModel::Nodes(path),
                TaskModel::Fail(words) => PhaseModel::Over(OutcomeModel::Failed(words)),
            },
        }
    }
}

/// The search after an answer. A directory that cannot be read ends the search where it holds
/// nodes, and counts as empty otherwise. An answer that does not belong to the request changes
/// nothing.
pub open spec fn after_reply(s: SearchModel, reply: ReplyModel) -> SearchModel {
    match s.phase {
        PhaseModel::Nodes(dir) => match reply {
            ReplyModel::NoDirectory => SearchModel { phase: PhaseModel::Children(dir), ..s },
            ReplyModel::Unreadable(words) => SearchModel {
                phase: PhaseModel::Over(OutcomeModel::Failed(words)),
                ..s
            },
            ReplyModel::Nodes(entries) => SearchModel { phase: settled(dir, entries), ..s },
            _ => s,
        },
        PhaseModel::Capability { dir, dev, rest } => match reply {
            ReplyModel::Capability(true) => SearchModel {
                phase: PhaseModel::Over(OutcomeModel::Found(dev)),
                ..s
            },
            ReplyModel::Capability(false) => SearchModel { phase: settled(dir, rest), ..s },
            _ => s,
        },
        PhaseModel::Children(dir) => match reply {
            ReplyModel::Children(children) => advanced(with_children(s.tasks, children)),
            ReplyModel::Unreadable(_) => advanced(s.tasks),
            ReplyModel::NoDirectory => advanced(s.tasks),
            _ => s,
        },
        PhaseModel::Over(_) => s,
    }
}

/// A search for the capture node of a USB device.
#[derive(Debug, Clone)]
pub struct NodeSearch {
    pub tasks: Vec<SearchTask>,
    pub phase: SearchPhase,
}

impl View for NodeSearch {
    type V = SearchModel;

    open spec fn view(&self) -> SearchModel {
        SearchModel { tasks: task_models(self.tasks@), phase: self.phase@ }
    }
}

/// A search that begins at a directory.
pub open spec fn search_start(dir: Seq<char>) -> SearchModel {
    SearchModel { tasks: Seq::empty(), phase: PhaseModel::Nodes(dir) }
}

/// Find the V4L2 device node associated with a USB device sysfs path
pub fn find_v4l2_device_for_usb(usb_sysfs: String) -> (r: NodeSearch)
    ensures
        r@ == search_start(usb_sysfs@),
        r.wf(),
{
    let r = NodeSearch { tasks: Vec::new(), phase: SearchPhase::Nodes(usb_sysfs) };
    proof {
        assert(task_models(r.tasks@) =~= Seq::empty());
    }
    r
}

fn primary(index: &IndexFile) -> (r: bool)
    ensures
        r == is_primary(*index),
{
    match index {
        IndexFile::Missing => true,
        IndexFile::Unreadable => false,
        IndexFile::Content(content) => {
            let digits = trim(content.as_str());
            match parse_natural(digits.as_str(), u32::MAX) {
                Some(n) => n == 0,
                None => false,
            }
        },
    }
}

fn settle(dir: String, entries: Vec<NodeEntry>, from: usize) -> (r: SearchPhase)
    requires
        from <= entries@.len(),
    ensures
        r@ == settled(dir@, node_models(entries@).skip(from as int)),
        r matches SearchPhase::Capability { entries, next, .. } ==> next <= entries@.len(),
{
    let mut i: usize = from;
    let ghost all = node_models(entries@);
    while i < entries.len()
        invariant
            from <= i <= entries@.len(),
            all == node_models(entries@),
            settled(dir@, all.skip(from as int)) == settled(dir@, all.skip(i as int)),
        decreases entries@.len() - i,
    {
        proof {
            assert(all.skip(i as int).skip(1) =~= all.skip(i + 1));
            assert(all.skip(i as int)[0] == entries@[i as int]@);
        }
        match &entries[i] {
            NodeEntry::Broken(words) => {
                return SearchPhase::Over(SearchOutcome::Failed(words.clone()));
            },
            NodeEntry::Node { name, index } => {
                if starts_with(name.as_str(), "video") && primary(index) {
                    let mut dev = "/dev/".to_owned();
                    dev.append(name.as_str());
                    return SearchPhase::Capability { dir, dev, entries, next: i + 1 };
                }
            },
        }
        i += 1;
    }
    SearchPhase::Children(dir)
}

fn advance(tasks: Vec<SearchTask>) -> (r: NodeSearch)
    ensures
        r@ == advanced(task_models(tasks@)),
        r.wf(),
{
    let mut tasks = tasks;
    let ghost before = task_models(tasks@);
    match tasks.pop() {
        None => {
            NodeSearch { tasks, phase: SearchPhase::Over(SearchOutcome::NotFound) }
        },
        Some(task) => {
            proof {
                assert(task_models(tasks@) =~= before.drop_last());
                assert(before.last() == task@);
            }
            match task {
                SearchTask::Visit(path) => NodeSearch { tasks, phase: SearchPhase::Nodes(path) },
                SearchTask::Fail(words) => NodeSearch {
                    tasks,
                    phase: SearchPhase::Over(SearchOutcome::Failed(words)),
                },
            }
        },
    }
}

fn add_children(tasks: Vec<SearchTask>, children: &Vec<ChildEntry>) -> (r: Vec<SearchTask>)
    ensures
        task_models(r@) == with_children(task_models(tasks@), child_models(children@)),
{
    let mut tasks = tasks;
    let ghost before = task_models(tasks@);
    let ghost all = child_models(children@);
    let mut i: usize = children.len();
    proof {
        assert(all.skip(i as int) =~= Seq::empty());
    }
    while i > 0
        invariant
            i <= children@.len(),
            all == child_models(children@),
            task_models(tasks@) == with_children(before, all.skip(i as int)),
        decreases i,
    {
        i -= 1;
        let ghost here = tasks@;
        proof {
            assert(all.skip(i as int).skip(1) =~= all.skip(i + 1));
            assert(all.skip(i as int)[0] == children@[i as int]@);
        }
        match &children[i] {
            ChildEntry::Child { path, is_dir } => {
                if *is_dir {
                    tasks.push(SearchTask::Visit(path.clone()));
                    proof {
                        assert(task_models(tasks@) =~= task_models(here).push(
                            TaskModel::Visit(path@),
                        ));
                    }
                }
            },
            ChildEntry::Broken(words) => {
                tasks.push(SearchTask::Fail(words.clone()));
                proof {
                    assert(task_models(tasks@) =~= task_models(here).push(TaskModel::Fail(words@)));
                }
            },
        }
    }
    proof {
        assert(all.skip(0) =~= all);
    }
    tasks
}

impl NodeSearch {
    /// Whether the search is in a state that it can reach.
    pub open spec fn wf(self) -> bool {
        match self.phase {
            SearchPhase::Capability { entries, next, .. } => next <= entries@.len(),
            _ => true,
        }
    }

    /// What is asked for next.
    pub fn request(&self) -> (r: SearchRequest)
        ensures
            match self.phase {
                SearchPhase::Nodes(dir) => r matches SearchRequest::Nodes(path) && path@
                    == text::below(dir@, "video4linux"@),
                SearchPhase::Capability { dev, .. } => r == SearchRequest::Capability(dev),
                SearchPhase::Children(dir) => r == SearchRequest::Children(dir),
                SearchPhase::Over(_) => r is Nothing,
            },
    {
        match &self.phase {
            SearchPhase::Nodes(dir) => SearchRequest::Nodes(
                path_below(dir.as_str(), "video4linux"),
            ),
            SearchPhase::Capability { dev, .. } => SearchRequest::Capability(dev.clone()),
            SearchPhase::Children(dir) => SearchRequest::Children(dir.clone()),
            SearchPhase::Over(_) => SearchRequest::Nothing,
        }
    }

    /// Takes the answer to the last request.
    pub fn reply(self, reply: SearchReply) -> (r: Self)
        requires
            self.wf(),
        ensures
            r@ == after_reply(self@, reply@),
            r.wf(),
    {
        let NodeSearch { tasks, phase } = self;
        match phase {
            SearchPhase::Nodes(dir) => match reply {
                SearchReply::NoDirectory => NodeSearch { tasks, phase: SearchPhase::Children(dir) },
                SearchReply::Unreadable(words) => NodeSearch {
                    tasks,
                    phase: SearchPhase::Over(SearchOutcome::Failed(words)),
                },
                SearchReply::Nodes(entries) => {
                    proof {
                        assert(node_models(entries@).skip(0) =~= node_models(entries@));
                    }
                    let phase = settle(dir, entries, 0);
                    NodeSearch { tasks, phase }
                },
                _ => NodeSearch { tasks, phase: SearchPhase::Nodes(dir) },
            },
            SearchPhase::Capability { dir, dev, entries, next } => match reply {
                SearchReply::Capability(true) => NodeSearch {
                    tasks,
                    phase: SearchPhase::Over(SearchOutcome::Found(dev)),
                },
                SearchReply::Capability(false) => {
                    let phase = settle(dir, entries, next);
                    NodeSearch { tasks, phase }
                },
                _ => NodeSearch {
                    tasks,
                    phase: SearchPhase::Capability { dir, dev, entries, next },
                },
            },
            SearchPhase::Children(dir) => match reply {
                SearchReply::Children(children) => advance(add_children(tasks, &children)),
                SearchReply::Unreadable(_) => advance(tasks),
                SearchReply::NoDirectory => advance(tasks),
                _ => NodeSearch { tasks, phase: SearchPhase::Children(dir) },
            },
            SearchPhase::Over(outcome) => NodeSearch { tasks, phase: SearchPhase::Over(outcome) },
        }
    }
}

// ---------------------------------------------------------------------------------------------
// Laws
// ---------------------------------------------------------------------------------------------

/// A directory tree with devices, as it answers the questions of a search.
pub ghost struct World {
    /// The nodes of a directory.
    pub nodes: spec_fn(Seq<char>) -> ReplyModel,
    /// Whether a device can capture video.
    pub capture: spec_fn(Seq<char>) -> bool,
    /// The entries of a directory.
    pub children: spec_fn(Seq<char>) -> ReplyModel,
}

/// Whether the answers belong to the questions.
pub open spec fn world_ok(w: World) -> bool {
    &&& forall|dir: Seq<char>|
        {
            let reply = #[trigger] (w.nodes)(dir);
            reply is NoDirectory || reply is Unreadable || reply is Nodes
        }
    &&& forall|dir: Seq<char>|
        {
            let reply = #[trigger] (w.children)(dir);
            reply is NoDirectory || reply is Unreadable || reply is Children
        }
}

/// What the nodes of a directory decide: the first candidate that can capture video, an error that
/// comes before it, or nothing.
pub open spec fn nodes_decide(w: World, entries: Seq<NodeModel>) -> Option<OutcomeModel>
    decreases entries.len(),
{
    if entries.len() == 0 {
        None
    } else {
        match entries[0] {
            NodeModel::Broken(words) => Some(OutcomeModel::Failed(words)),
            NodeModel::Node { name, candidate } => if candidate && (w.capture)(device_path(name)) {
                Some(OutcomeModel::Found(device_path(name)))
            } else {
                nodes_decide(w, entries.skip(1))
            },
        }
    }
}

/// The entries of a directory that are searched.
pub open spec fn entries_of(reply: ReplyModel) -> Seq<ChildModel> {
    match reply {
        ReplyModel::Children(children) => children,
        _ => Seq::empty(),
    }
}

/// The recursive search of a directory: its own nodes decide, or the first directory in it whose
/// search ends with a node or an error. `None` where the tree is deeper than `depth`.
pub open spec fn find_below(w: World, dir: Seq<char>, depth: nat) -> Option<OutcomeModel>
    decreases depth, 1int, 0int,
{
    match (w.nodes)(dir) {
        ReplyModel::Unreadable(words) => Some(OutcomeModel::Failed(words)),
        ReplyModel::Nodes(entries) => match nodes_decide(w, entries) {
            Some(outcome) => Some(outcome),
            None => find_among(w, entries_of((w.children)(dir)), depth),
        },
        _ => find_among(w, entries_of((w.children)(dir)), depth),
    }
}

/// The recursive search of a list of directory entries.
pub open spec fn find_among(w: World, children: Seq<ChildModel>, depth: nat) -> Option<OutcomeModel>
    decreases depth, 0int, children.len(),
{
    if children.len() == 0 {
        Some(OutcomeModel::NotFound)
    } else {
        match children[0] {
            ChildModel::Broken(words) => Some(OutcomeModel::Failed(words)),
            ChildModel::Child { path, is_dir } => if !is_dir {
                find_among(w, children.skip(1), depth)
            } else if depth == 0 {
                None
            } else {
                match find_below(w, path, (depth - 1) as nat) {
                    Some(OutcomeModel::NotFound) => find_among(w, children.skip(1), depth),
                    other => other,
                }
            },
        }
    }
}

/// How the tree answers what a search asks for.
pub open spec fn answered(w: World, s: SearchModel) -> SearchModel {
    match s.phase {
        PhaseModel::Nodes(dir) => after_reply(s, (w.nodes)(dir)),
        PhaseModel::Capability { dev, .. } => after_reply(
            s,
            ReplyModel::Capability((w.capture)(dev)),
        ),
        PhaseModel::Children(dir) => after_reply(s, (w.children)(dir)),
        PhaseModel::Over(_) => s,
    }
}

/// The search after `n` answers.
pub open spec fn after_answers(w: World, s: SearchModel, n: nat) -> SearchModel
    decreases n,
{
    if n == 0 {
        s
    } else {
        after_answers(w, answered(w, s), (n - 1) as nat)
    }
}

/// Whether one state of the search leads to another.
pub open spec fn leads_to(w: World, s: SearchModel, t: SearchModel) -> bool {
    exists|n: nat| #[trigger] after_answers(w, s, n) == t
}

/// Whether the search ends with an outcome.
pub open spec fn ends_with(w: World, s: SearchModel, outcome: OutcomeModel) -> bool {
    exists|t: SearchModel| #[trigger] leads_to(w, s, t) && t.phase == PhaseModel::Over(outcome)
}

proof fn lemma_answers_add(w: World, s: SearchModel, n: nat, m: nat)
    ensures
        after_answers(w, s, n + m) == after_answers(w, after_answers(w, s, n), m),
    decreases n,
{
    if n > 0 {
        lemma_answers_add(w, answered(w, s), (n - 1) as nat, m);
        assert((n + m - 1) as nat == (n - 1) as nat + m);
    }
}

proof fn lemma_leads_trans(w: World, s: SearchModel, t: SearchModel, u: SearchModel)
    requires
        leads_to(w, s, t),
        leads_to(w, t, u),
    ensures
        leads_to(w, s, u),
{
    let n = choose|n: nat| #[trigger] after_answers(w, s, n) == t;
    let m = choose|m: nat| #[trigger] after_answers(w, t, m) == u;
    lemma_answers_add(w, s, n, m);
    assert(after_answers(w, s, n + m) == u);
}

proof fn lemma_one_answer(w: World, s: SearchModel)
    ensures
        leads_to(w, s, answered(w, s)),
        leads_to(w, s, s),
{
    assert(after_answers(w, answered(w, s), 0) == answered(w, s));
    assert(after_answers(w, s, 1) == answered(w, s));
    assert(after_answers(w, s, 0) == s);
}

proof fn lemma_ends_trans(w: World, s: SearchModel, t: SearchModel, outcome: OutcomeModel)
    requires
        leads_to(w, s, t),
        ends_with(w, t, outcome),
    ensures
        ends_with(w, s, outcome),
{
    let u = choose|u: SearchModel| #[trigger]
        leads_to(w, t, u) && u.phase == PhaseModel::Over(outcome);
    lemma_leads_trans(w, s, t, u);
}

proof fn lemma_over_ends(w: World, s: SearchModel, outcome: OutcomeModel)
    requires
        s.phase == PhaseModel::Over(outcome),
    ensures
        ends_with(w, s, outcome),
{
    lemma_one_answer(w, s);
}

/// The nodes of a directory are dealt with as `nodes_decide` says.
proof fn lemma_nodes(w: World, tasks: Seq<TaskModel>, dir: Seq<char>, entries: Seq<NodeModel>)
    ensures
        ({
            let s = SearchModel { tasks, phase: settled(dir, entries) };
            match nodes_decide(w, entries) {
                Some(outcome) => ends_with(w, s, outcome),
                None => leads_to(w, s, (SearchModel { tasks, phase: PhaseModel::Children(dir) })),
            }
        }),
    decreases entries.len(),
{
    let s = SearchModel { tasks, phase: settled(dir, entries) };
    lemma_one_answer(w, s);
    if entries.len() > 0 {
        match entries[0] {
            NodeModel::Broken(words) => {
                lemma_over_ends(w, s, OutcomeModel::Failed(words));
            },
            NodeModel::Node { name, candidate } => {
                lemma_nodes(w, tasks, dir, entries.skip(1));
                if candidate {
                    if (w.capture)(device_path(name)) {
                        lemma_over_ends(
                            w,
                            answered(w, s),
                            OutcomeModel::Found(device_path(name)),
                        );
                        lemma_ends_trans(
                            w,
                            s,
                            answered(w, s),
                            OutcomeModel::Found(device_path(name)),
                        );
                    } else {
                        let t = SearchModel { tasks, phase: settled(dir, entries.skip(1)) };
                        assert(answered(w, s) == t);
                        match nodes_decide(w, entries.skip(1)) {
                            Some(outcome) => {
                                lemma_ends_trans(w, s, t, outcome);
                            },
                            None => {
                                lemma_leads_trans(
                                    w,
                                    s,
                                    t,
                                    SearchModel { tasks, phase: PhaseModel::Children(dir) },
                                );
                            },
                        }
                    }
                }
            },
        }
    }
}

/// A directory is dealt with as `find_below` says.
proof fn lemma_directory(w: World, tasks: Seq<TaskModel>, dir: Seq<char>, depth: nat)
    requires
        world_ok(w),
    ensures
        ({
            let s = SearchModel { tasks, phase: PhaseModel::Nodes(dir) };
            match find_below(w, dir, depth) {
                Some(OutcomeModel::NotFound) => leads_to(w, s, advanced(tasks)),
                Some(outcome) => ends_with(w, s, outcome),
                None => true,
            }
        }),
    decreases depth, 1int, 0int,
{
    let s = SearchModel { tasks, phase: PhaseModel::Nodes(dir) };
    let c = SearchModel { tasks, phase: PhaseModel::Children(dir) };
    let reply = (w.nodes)(dir);
    assert(reply is NoDirectory || reply is Unreadable || reply is Nodes);
    lemma_one_answer(w, s);
    let t = answered(w, s);
    match reply {
        ReplyModel::Unreadable(words) => {
            lemma_over_ends(w, t, OutcomeModel::Failed(words));
            lemma_ends_trans(w, s, t, OutcomeModel::Failed(words));
        },
        ReplyModel::Nodes(entries) => {
            lemma_nodes(w, tasks, dir, entries);
            match nodes_decide(w, entries) {
                Some(outcome) => {
                    lemma_decided_is_not_missing(w, entries);
                    lemma_ends_trans(w, s, t, outcome);
                },
                None => {
                    lemma_leads_trans(w, s, t, c);
                },
            }
        },
        _ => {
            assert(t == c);
        },
    }
    let undecided = match reply {
        ReplyModel::Unreadable(_) => false,
        ReplyModel::Nodes(entries) => nodes_decide(w, entries) is None,
        _ => true,
    };
    if undecided {
        assert(leads_to(w, s, c));
        let listing = (w.children)(dir);
        assert(listing is NoDirectory || listing is Unreadable || listing is Children);
        let children = entries_of(listing);
        lemma_one_answer(w, c);
        let u = answered(w, c);
        assert(with_children(tasks, Seq::<ChildModel>::empty()) == tasks);
        assert(u == advanced(with_children(tasks, children)));
        lemma_leads_trans(w, s, c, u);
        lemma_children(w, tasks, children, depth);
        match find_among(w, children, depth) {
            Some(OutcomeModel::NotFound) => {
                lemma_leads_trans(w, s, u, advanced(tasks));
            },
            Some(outcome) => {
                lemma_ends_trans(w, s, u, outcome);
            },
            None => {},
        }
    }
}

proof fn lemma_decided_is_not_missing(w: World, entries: Seq<NodeModel>)
    ensures
        nodes_decide(w, entries) != Some(OutcomeModel::NotFound),
    decreases entries.len(),
{
    if entries.len() > 0 {
        lemma_decided_is_not_missing(w, entries.skip(1));
    }
}

/// A list of directory entries is dealt with as `find_among` says.
proof fn lemma_children(w: World, tasks: Seq<TaskModel>, children: Seq<ChildModel>, depth: nat)
    requires
        world_ok(w),
    ensures
        ({
            let s = advanced(with_children(tasks, children));
            match find_among(w, children, depth) {
                Some(OutcomeModel::NotFound) => leads_to(w, s, advanced(tasks)),
                Some(outcome) => ends_with(w, s, outcome),
                None => true,
            }
        }),
    decreases depth, 0int, children.len(),
{
    let s = advanced(with_children(tasks, children));
    lemma_one_answer(w, s);
    if children.len() > 0 {
        let rest = children.skip(1);
        let above = with_children(tasks, rest);
        match children[0] {
            ChildModel::Broken(words) => {
                assert(above.push(TaskModel::Fail(words)).last() == TaskModel::Fail(words));
                lemma_over_ends(w, s, OutcomeModel::Failed(words));
            },
            ChildModel::Child { path, is_dir } => {
                if !is_dir {
                    lemma_children(w, tasks, rest, depth);
                } else if depth > 0 {
                    assert(above.push(TaskModel::Visit(path)).drop_last() =~= above);
                    assert(s == (SearchModel { tasks: above, phase: PhaseModel::Nodes(path) }));
                    lemma_directory(w, above, path, (depth - 1) as nat);
                    match find_below(w, path, (depth - 1) as nat) {
                        Some(OutcomeModel::NotFound) => {
                            lemma_children(w, tasks, rest, depth);
                            match find_among(w, rest, depth) {
                                Some(OutcomeModel::NotFound) => {
                                    lemma_leads_trans(w, s, advanced(above), advanced(tasks));
                                },
                                Some(outcome) => {
                                    lemma_ends_trans(w, s, advanced(above), outcome);
                                },
                                None => {},
                            }
                        },
                        _ => {},
                    }
                }
            },
        }
    }
}

/// The search ends, after finitely many answers, with what the recursive search of the tree finds,
/// for every tree of finite depth.
pub proof fn search_finds_what_the_tree_holds(w: World, dir: Seq<char>, depth: nat)
    requires
        world_ok(w),
        find_below(w, dir, depth) is Some,
    ensures
        ends_with(w, search_start(dir), find_below(w, dir, depth)->0),
{
    let s = search_start(dir);
    lemma_directory(w, Seq::empty(), dir, depth);
    if find_below(w, dir, depth) == Some(OutcomeModel::NotFound) {
        let t = advanced(Seq::empty());
        lemma_over_ends(w, t, OutcomeModel::NotFound);
        lemma_ends_trans(w, s, t, OutcomeModel::NotFound);
    }
}

/// A capture node that is found is a device that can capture video.
pub proof fn found_nodes_capture_video(w: World, dir: Seq<char>, depth: nat)
    ensures
        find_below(w, dir, depth) matches Some(OutcomeModel::Found(dev)) ==> (w.capture)(dev),
    decreases depth, 1int, 0int,
{
    match (w.nodes)(dir) {
        ReplyModel::Unreadable(_) => {},
        ReplyModel::Nodes(entries) => {
            lemma_decided_captures(w, entries);
            if nodes_decide(w, entries) is None {
                lemma_among_captures(w, entries_of((w.children)(dir)), depth);
            }
        },
        _ => {
            lemma_among_captures(w, entries_of((w.children)(dir)), depth);
        },
    }
}

proof fn lemma_among_captures(w: World, children: Seq<ChildModel>, depth: nat)
    ensures
        find_among(w, children, depth) matches Some(OutcomeModel::Found(dev)) ==> (w.capture)(dev),
    decreases depth, 0int, children.len(),
{
    if children.len() > 0 {
        lemma_among_captures(w, children.skip(1), depth);
        if let ChildModel::Child { path, is_dir } = children[0] {
            if is_dir && depth > 0 {
                found_nodes_capture_video(w, path, (depth - 1) as nat);
            }
        }
    }
}

proof fn lemma_decided_captures(w: World, entries: Seq<NodeModel>)
    ensures
        nodes_decide(w, entries) matches Some(OutcomeModel::Found(dev)) ==> (w.capture)(dev),
    decreases entries.len(),
{
    if entries.len() > 0 {
        lemma_decided_captures(w, entries.skip(1));
    }
}

/// A node can be the one that is wanted where its name begins with the letters of video and it is the
/// first node of its interface: its index is 0, or it has none.
pub proof fn candidates_are_first_video_nodes(name: String, index: String)
    ensures
        (NodeEntry::Node { name, index: IndexFile::Missing })@ matches NodeModel::Node {
            name: shown,
            candidate,
        } && shown == name@ && (candidate <==> text::has_prefix(
            name@,
            seq!['v', 'i', 'd', 'e', 'o'],
        )),
        (NodeEntry::Node { name, index: IndexFile::Unreadable })@ matches NodeModel::Node {
            candidate,
            ..
        } && !candidate,
        (NodeEntry::Node { name, index: IndexFile::Content(index) })@ matches NodeModel::Node {
            candidate,
            ..
        } && (candidate <==> text::has_prefix(name@, seq!['v', 'i', 'd', 'e', 'o'])
            && text::natural(text::trimmed(index@)) == Some(0nat)),
{
    reveal_strlit("video");
    assert("video"@ =~= seq!['v', 'i', 'd', 'e', 'o']);
}

/// A node with a name stands below /dev.
pub proof fn nodes_stand_below_dev(name: Seq<char>)
    ensures
        device_path(name) == seq!['/', 'd', 'e', 'v', '/'] + name,
{
    reveal_strlit("/dev/");
    assert("/dev/"@ =~= seq!['/', 'd', 'e', 'v', '/']);
}

/// The first candidate of a directory that captures video is found, whatever comes behind it and
/// whatever lies below the directory.
pub proof fn the_first_capturing_node_is_found(
    w: World,
    dir: Seq<char>,
    entries: Seq<NodeModel>,
    i: int,
    name: Seq<char>,
    depth: nat,
)
    requires
        (w.nodes)(dir) == ReplyModel::Nodes(entries),
        0 <= i < entries.len(),
        entries[i] == (NodeModel::Node { name, candidate: true }),
        (w.capture)(seq!['/', 'd', 'e', 'v', '/'] + name),
        forall|j: int|
            0 <= j < i ==> (#[trigger] entries[j] matches NodeModel::Node { name: n, candidate } && !(
            candidate && (w.capture)(seq!['/', 'd', 'e', 'v', '/'] + n))),
    ensures
        find_below(w, dir, depth) == Some(
            OutcomeModel::Found(seq!['/', 'd', 'e', 'v', '/'] + name),
        ),
{
    lemma_nodes_decide(w, entries, i, name);
}

proof fn lemma_nodes_decide(w: World, entries: Seq<NodeModel>, i: int, name: Seq<char>)
    requires
        0 <= i < entries.len(),
        entries[i] == (NodeModel::Node { name, candidate: true }),
        (w.capture)(seq!['/', 'd', 'e', 'v', '/'] + name),
        forall|j: int|
            0 <= j < i ==> (#[trigger] entries[j] matches NodeModel::Node { name: n, candidate } && !(
            candidate && (w.capture)(seq!['/', 'd', 'e', 'v', '/'] + n))),
    ensures
        nodes_decide(w, entries) == Some(
            OutcomeModel::Found(seq!['/', 'd', 'e', 'v', '/'] + name),
        ),
    decreases entries.len(),
{
    nodes_stand_below_dev(name);
    if i > 0 {
        let first = entries[0];
        if let NodeModel::Node { name: n, candidate } = first {
            nodes_stand_below_dev(n);
        }
        assert forall|j: int| 0 <= j < i - 1 implies (#[trigger] entries.skip(
            1,
        )[j] matches NodeModel::Node { name: n, candidate } && !(candidate && (w.capture)(
            seq!['/', 'd', 'e', 'v', '/'] + n,
        ))) by {
            assert(entries.skip(1)[j] == entries[j + 1]);
        }
        lemma_nodes_decide(w, entries.skip(1), i - 1, name);
    }
}

/// Where nothing is found below a directory, none of its nodes is a candidate that captures video,
/// and nothing is found below any directory in it.
pub proof fn nothing_is_overlooked(w: World, dir: Seq<char>, depth: nat)
    requires
        find_below(w, dir, depth) == Some(OutcomeModel::NotFound),
    ensures
        !((w.nodes)(dir) is Unreadable),
        (w.nodes)(dir) matches ReplyModel::Nodes(entries) ==> forall|i: int|
            0 <= i < entries.len() ==> (#[trigger] entries[i] matches NodeModel::Node {
                name,
                candidate,
            } && !(candidate && (w.capture)(seq!['/', 'd', 'e', 'v', '/'] + name))),
        (w.children)(dir) matches ReplyModel::Children(children) ==> forall|k: int|
            0 <= k < children.len() ==> (#[trigger] children[k] matches ChildModel::Child {
                path,
                is_dir,
            } && (is_dir ==> depth > 0 && find_below(w, path, (depth - 1) as nat) == Some(
                OutcomeModel::NotFound,
            ))),
{
    if let ReplyModel::Nodes(entries) = (w.nodes)(dir) {
        lemma_nodes_pass(w, entries);
    }
    lemma_children_pass(w, entries_of((w.children)(dir)), depth);
}

proof fn lemma_nodes_pass(w: World, entries: Seq<NodeModel>)
    requires
        nodes_decide(w, entries) is None || nodes_decide(w, entries) == Some(OutcomeModel::NotFound),
    ensures
        nodes_decide(w, entries) is None,
        forall|i: int|
            0 <= i < entries.len() ==> (#[trigger] entries[i] matches NodeModel::Node {
                name,
                candidate,
            } && !(candidate && (w.capture)(seq!['/', 'd', 'e', 'v', '/'] + name))),
    decreases entries.len(),
{
    if entries.len() > 0 {
        let first = entries[0];
        if let NodeModel::Node { name: n, candidate } = first {
            nodes_stand_below_dev(n);
        }
        lemma_nodes_pass(w, entries.skip(1));
        assert forall|i: int| 0 <= i < entries.len() implies (
        #[trigger] entries[i] matches NodeModel::Node { name, candidate } && !(candidate && (w.capture)(
            seq!['/', 'd', 'e', 'v', '/'] + name,
        ))) by {
            if i > 0 {
                assert(entries.skip(1)[i - 1] == entries[i]);
            }
        }
    }
}

proof fn lemma_children_pass(w: World, children: Seq<ChildModel>, depth: nat)
    requires
        find_among(w, children, depth) == Some(OutcomeModel::NotFound),
    ensures
        forall|k: int|
            0 <= k < children.len() ==> (#[trigger] children[k] matches ChildModel::Child {
                path,
                is_dir,
            } && (is_dir ==> depth > 0 && find_below(w, path, (depth - 1) as nat) == Some(
                OutcomeModel::NotFound,
            ))),
    decreases children.len(),
{
    if children.len() > 0 {
        lemma_children_pass(w, children.skip(1), depth);
        assert forall|k: int| 0 <= k < children.len() implies (
        #[trigger] children[k] matches ChildModel::Child { path, is_dir } && (is_dir ==> depth > 0
            && find_below(w, path, (depth - 1) as nat) == Some(OutcomeModel::NotFound))) by {
            if k > 0 {
                assert(children.skip(1)[k - 1] == children[k]);
            }
        }
    }
}

/// Where no node of a directory itself is a candidate that captures video, the first directory in it
/// below which a node is found gives the node; files in it, and directories without one, are passed
/// over.
pub proof fn the_first_directory_with_a_node_decides(
    w: World,
    dir: Seq<char>,
    children: Seq<ChildModel>,
    i: int,
    path: Seq<char>,
    node: Seq<char>,
    depth: nat,
)
    requires
        (w.nodes)(dir) is NoDirectory || ((w.nodes)(dir) matches ReplyModel::Nodes(entries) && forall|
            j: int,
        |
            0 <= j < entries.len() ==> (#[trigger] entries[j] matches NodeModel::Node {
                name,
                candidate,
            } && !(candidate && (w.capture)(seq!['/', 'd', 'e', 'v', '/'] + name)))),
        (w.children)(dir) == ReplyModel::Children(children),
        0 <= i < children.len(),
        children[i] == (ChildModel::Child { path, is_dir: true }),
        find_below(w, path, depth) == Some(OutcomeModel::Found(node)),
        forall|k: int|
            0 <= k < i ==> (#[trigger] children[k] matches ChildModel::Child { path: p, is_dir } && (
            is_dir ==> find_below(w, p, depth) == Some(OutcomeModel::NotFound))),
    ensures
        find_below(w, dir, depth + 1) == Some(OutcomeModel::Found(node)),
{
    if let ReplyModel::Nodes(entries) = (w.nodes)(dir) {
        lemma_nodes_leave_it(w, entries);
    }
    lemma_children_decide(w, children, i, path, node, depth);
}

proof fn lemma_nodes_leave_it(w: World, entries: Seq<NodeModel>)
    requires
        forall|j: int|
            0 <= j < entries.len() ==> (#[trigger] entries[j] matches NodeModel::Node {
                name,
                candidate,
            } && !(candidate && (w.capture)(seq!['/', 'd', 'e', 'v', '/'] + name))),
    ensures
        nodes_decide(w, entries) is None,
    decreases entries.len(),
{
    if entries.len() > 0 {
        let first = entries[0];
        if let NodeModel::Node { name: n, candidate } = first {
            nodes_stand_below_dev(n);
        }
        assert forall|j: int| 0 <= j < entries.len() - 1 implies (#[trigger] entries.skip(
            1,
        )[j] matches NodeModel::Node { name, candidate } && !(candidate && (w.capture)(
            seq!['/', 'd', 'e', 'v', '/'] + name,
        ))) by {
            assert(entries.skip(1)[j] == entries[j + 1]);
        }
        lemma_nodes_leave_it(w, entries.skip(1));
    }
}

proof fn lemma_children_decide(
    w: World,
    children: Seq<ChildModel>,
    i: int,
    path: Seq<char>,
    node: Seq<char>,
    depth: nat,
)
    requires
        0 <= i < children.len(),
        children[i] == (ChildModel::Child { path, is_dir: true }),
        find_below(w, path, depth) == Some(OutcomeModel::Found(node)),
        forall|k: int|
            0 <= k < i ==> (#[trigger] children[k] matches ChildModel::Child { path: p, is_dir } && (
            is_dir ==> find_below(w, p, depth) == Some(OutcomeModel::NotFound))),
    ensures
        find_among(w, children, depth + 1) == Some(OutcomeModel::Found(node)),
    decreases children.len(),
{
    if i > 0 {
        let first = children[0];
        assert forall|k: int| 0 <= k < i - 1 implies (#[trigger] children.skip(
            1,
        )[k] matches ChildModel::Child { path: p, is_dir } && (is_dir ==> find_below(w, p, depth)
            == Some(OutcomeModel::NotFound))) by {
            assert(children.skip(1)[k] == children[k + 1]);
        }
        lemma_children_decide(w, children.skip(1), i - 1, path, node, depth);
    }
}

/// A phase keeps the directory and the device apart, and tells which entries are left; what was found
/// is the device.
pub proof fn phases_keep_directory_and_device_apart(
    dir: String,
    dev: String,
    entries: Vec<NodeEntry>,
    next: usize,
    i: int,
)
    requires
        next <= i < entries@.len(),
    ensures
        (SearchPhase::Capability { dir, dev, entries, next })@ matches PhaseModel::Capability {
            dir: d,
            dev: v,
            rest,
        } && d == dir@ && v == dev@ && rest.len() == entries@.len() - next && rest[i - next]
            == entries@[i]@,
        (SearchPhase::Nodes(dir))@ == PhaseModel::Nodes(dir@),
        (SearchPhase::Children(dir))@ == PhaseModel::Children(dir@),
        (SearchOutcome::Found(dev))@ == OutcomeModel::Found(dev@),
{
}

/// A directory that is an entry is searched under its own path; the tasks are the directories that are
/// still to be searched.
pub proof fn entries_keep_their_path(path: String, is_dir: bool, words: String)
    ensures
        (ChildEntry::Child { path, is_dir })@ matches ChildModel::Child { path: p, is_dir: d } && p
            == path@ && d == is_dir,
        (ChildEntry::Broken(words))@ == ChildModel::Broken(words@),
        (NodeEntry::Broken(words))@ == NodeModel::Broken(words@),
        (SearchTask::Visit(path))@ == TaskModel::Visit(path@),
        (SearchTask::Fail(words))@ == TaskModel::Fail(words@),
        (SearchOutcome::Failed(words))@ == OutcomeModel::Failed(words@),
        (SearchOutcome::NotFound)@ == OutcomeModel::NotFound,
{
}

/// A search fails with the words of the first thing that it cannot read: the nodes of a directory, or
/// an entry among them before a candidate that captures video.
pub proof fn unreadable_nodes_end_the_search(
    w: World,
    dir: Seq<char>,
    entries: Seq<NodeModel>,
    i: int,
    words: Seq<char>,
    depth: nat,
)
    requires
        (w.nodes)(dir) == ReplyModel::Unreadable(words) || ((w.nodes)(dir) == ReplyModel::Nodes(
            entries,
        ) && 0 <= i < entries.len() && entries[i] == NodeModel::Broken(words)),
        forall|j: int|
            0 <= j < i ==> (#[trigger] entries[j] matches NodeModel::Node { name: n, candidate } && !(
            candidate && (w.capture)(seq!['/', 'd', 'e', 'v', '/'] + n))),
    ensures
        find_below(w, dir, depth) == Some(OutcomeModel::Failed(words)),
{
    if (w.nodes)(dir) == ReplyModel::Nodes(entries) {
        lemma_nodes_break(w, entries, i, words);
    }
}

proof fn lemma_nodes_break(w: World, entries: Seq<NodeModel>, i: int, words: Seq<char>)
    requires
        0 <= i < entries.len(),
        entries[i] == NodeModel::Broken(words),
        forall|j: int|
            0 <= j < i ==> (#[trigger] entries[j] matches NodeModel::Node { name: n, candidate } && !(
            candidate && (w.capture)(seq!['/', 'd', 'e', 'v', '/'] + n))),
    ensures
        nodes_decide(w, entries) == Some(OutcomeModel::Failed(words)),
    decreases entries.len(),
{
    if i > 0 {
        let first = entries[0];
        if let NodeModel::Node { name: n, candidate } = first {
            nodes_stand_below_dev(n);
        }
        assert forall|j: int| 0 <= j < i - 1 implies (#[trigger] entries.skip(
            1,
        )[j] matches NodeModel::Node { name: n, candidate } && !(candidate && (w.capture)(
            seq!['/', 'd', 'e', 'v', '/'] + n,
        ))) by {
            assert(entries.skip(1)[j] == entries[j + 1]);
        }
        lemma_nodes_break(w, entries.skip(1), i - 1, words);
    }
}

} // verus!
