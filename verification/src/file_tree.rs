//! The file explorer tree: building it from a scanned directory, listing
//! its seismic files, searching it, and the multi-selection it drives.

use vstd::prelude::*;
use crate::paths::{is_seismic_file, is_pick_file, spec_is_seismic_file, spec_is_pick_file};
use crate::text::{chars_of, to_lowercase, contains_str, spec_lowercase, occurs_in};
use crate::order::{order_by_key, key_le};

verus! {

/// A node in the recursive file tree.
#[derive(Debug)]
pub struct FileNode {
    /// The full path.
    pub path: String,
    /// Display name (filename or directory name).
    pub name: String,
    /// Whether this node is a directory.
    pub is_dir: bool,
    /// Children (populated only for directories).
    pub children: Vec<FileNode>,
}

/// The character sequences of a list of strings.
pub open spec fn views(s: Seq<String>) -> Seq<Seq<char>> {
    s.map_values(|x: String| x@)
}

/// The seismic files below `node`, in tree order.
pub open spec fn seismic_files(node: FileNode) -> Seq<Seq<char>>
    decreases node, 1int,
{
    if node.is_dir {
        seismic_files_list(node.children@)
    } else if spec_is_seismic_file(node.path@) {
        seq![node.path@]
    } else {
        seq![]
    }
}

/// The seismic files below the nodes of `ch`, in order.
pub open spec fn seismic_files_list(ch: Seq<FileNode>) -> Seq<Seq<char>>
    decreases ch, 0int,
{
    if ch.len() == 0 {
        seq![]
    } else {
        seismic_files_list(ch.drop_last()) + seismic_files(ch.last())
    }
}

/// Collect all seismic file paths in tree order (for Shift-click range selection).
pub fn collect_seismic_files(node: &FileNode) -> (r: Vec<String>)
    ensures
        views(r@) == seismic_files(*node),
    decreases node,
{
    let mut result: Vec<String> = Vec::new();
    if node.is_dir {
        let mut i: usize = 0;
        while i < node.children.len()
            invariant
                node.is_dir,
                i <= node.children@.len(),
                views(result@) == seismic_files_list(node.children@.take(i as int)),
            decreases node.children.len() - i,
        {
            assert(decreases_to!(*node => node.children@[i as int]));
            let sub = collect_seismic_files(&node.children[i]);
            let ghost before = views(result@);
            let mut j: usize = 0;
            while j < sub.len()
                invariant
                    j <= sub@.len(),
                    views(result@) == before + views(sub@).take(j as int),
                decreases sub.len() - j,
            {
                let ghost prev = result@;
                let item = sub[j].clone();
                result.push(item);
                assert(result@ == prev.push(item));
                assert(views(result@) =~= views(prev).push(sub@[j as int]@));
                j = j + 1;
                assert(views(result@) =~= before + views(sub@).take(j as int));
            }
            assert(views(sub@).take(sub@.len() as int) == views(sub@));
            assert(node.children@.take(i + 1).drop_last() == node.children@.take(i as int));
            i = i + 1;
        }
        assert(node.children@.take(node.children@.len() as int) == node.children@);
    } else if is_seismic_file(node.path.as_str()) {
        result.push(node.path.clone());
    }
    result
}

/// Whether `node`, or for a directory any node below it, is a file whose
/// lower-cased name contains `q`.
pub open spec fn matches_search(node: FileNode, q: Seq<char>) -> bool
    decreases node, 1int,
{
    if !node.is_dir {
        occurs_in(q, spec_lowercase(node.name@))
    } else {
        any_matches_search(node.children@, q)
    }
}

/// Whether some node of `ch` matches the search `q`.
pub open spec fn any_matches_search(ch: Seq<FileNode>, q: Seq<char>) -> bool
    decreases ch, 0int,
{
    if ch.len() == 0 {
        false
    } else {
        any_matches_search(ch.drop_last(), q) || matches_search(ch.last(), q)
    }
}

proof fn lemma_any_matches_prefix(ch: Seq<FileNode>, q: Seq<char>, k: int)
    requires
        0 <= k <= ch.len(),
        any_matches_search(ch.take(k), q),
    ensures
        any_matches_search(ch, q),
    decreases ch.len() - k,
{
    if k < ch.len() {
        assert(ch.take(k + 1).drop_last() == ch.take(k));
        lemma_any_matches_prefix(ch, q, k + 1);
    } else {
        assert(ch.take(k) == ch);
    }
}

/// Helper function to check if a node or its descendants match the search query
pub fn node_matches_search(node: &FileNode, search_lower: &str) -> (r: bool)
    ensures
        r == matches_search(*node, search_lower@),
    decreases node,
{
    if !node.is_dir {
        let lower = to_lowercase(node.name.as_str());
        return contains_str(lower.as_str(), search_lower);
    }
    let mut i: usize = 0;
    while i < node.children.len()
        invariant
            node.is_dir,
            i <= node.children@.len(),
            !any_matches_search(node.children@.take(i as int), search_lower@),
        decreases node.children.len() - i,
    {
        assert(decreases_to!(*node => node.children@[i as int]));
        assert(node.children@.take(i + 1).drop_last() == node.children@.take(i as int));
        if node_matches_search(&node.children[i], search_lower) {
            proof { lemma_any_matches_prefix(node.children@, search_lower@, i + 1); }
            return true;
        }
        i = i + 1;
    }
    assert(node.children@.take(node.children@.len() as int) == node.children@);
    false
}

/// A directory entry as read from disk, with the scanned subtree of a
/// directory (`None` when it was not scanned or could not be read).
#[derive(Debug)]
pub enum ScannedEntry {
    File { path: String, name: String },
    Dir { name: String, node: Option<FileNode> },
}

/// Hidden entries: names starting with a dot.
pub open spec fn is_hidden(name: Seq<char>) -> bool {
    name.len() > 0 && name[0] == '.'
}

/// Whether a scanned entry appears in the tree: it is not hidden, and it is
/// a seismic or pick file, or a directory with something relevant inside.
pub open spec fn keeps(e: ScannedEntry) -> bool {
    match e {
        ScannedEntry::File { path, name } => !is_hidden(name@) && (spec_is_seismic_file(path@) || spec_is_pick_file(path@)),
        ScannedEntry::Dir { name, node } => !is_hidden(name@) && (node matches Some(n) && n.children@.len() > 0),
    }
}

/// The tree node standing for a kept entry.
pub open spec fn node_for(n: FileNode, e: ScannedEntry) -> bool {
    match e {
        ScannedEntry::File { path, name } => !n.is_dir && n.path@ == path@ && n.name@ == name@ && n.children@.len() == 0,
        ScannedEntry::Dir { name, node } => node == Some(n),
    }
}

/// Positions of the kept entries among the first `n` entries, in order.
pub open spec fn kept_positions(es: Seq<ScannedEntry>, n: int) -> Seq<int>
    decreases n,
{
    if n <= 0 {
        seq![]
    } else {
        kept_positions(es, n - 1) + (if keeps(es[n - 1]) { seq![n - 1] } else { seq![] })
    }
}

/// A node worth showing in the explorer: a seismic or pick file, or a
/// directory holding at least one node and only such nodes.
pub open spec fn relevant(node: FileNode) -> bool
    decreases node, 1int,
{
    if node.is_dir {
        node.children@.len() > 0 && all_relevant(node.children@)
    } else {
        spec_is_seismic_file(node.path@) || spec_is_pick_file(node.path@)
    }
}

/// Every node of `ch` is worth showing.
pub open spec fn all_relevant(ch: Seq<FileNode>) -> bool
    decreases ch, 0int,
{
    if ch.len() == 0 {
        true
    } else {
        all_relevant(ch.drop_last()) && relevant(ch.last())
    }
}

/// A scanned subdirectory holds only nodes worth showing.
pub open spec fn scanned_relevant(e: ScannedEntry) -> bool {
    match e {
        ScannedEntry::File { .. } => true,
        ScannedEntry::Dir { node, .. } => node matches Some(n) ==> n.is_dir && all_relevant(n.children@),
    }
}

/// Whether a name is hidden (starts with a dot), so that the scan skips it.
pub fn is_hidden_name(name: &str) -> (r: bool)
    ensures
        r == is_hidden(name@),
{
    let c = chars_of(name);
    c.len() > 0 && c[0] == '.'
}

/// Build the node of a scanned directory from its entries (already in
/// listing order): hidden entries are skipped, files are kept when they
/// are seismic or pick files, and subdirectories when they hold something.
pub fn assemble_dir(path: String, name: String, entries: Vec<ScannedEntry>) -> (r: FileNode)
    ensures
        r.is_dir,
        r.path@ == path@,
        r.name@ == name@,
        r.children@.len() == kept_positions(entries@, entries@.len() as int).len(),
        forall|k: int| 0 <= k < r.children@.len() ==>
            node_for(#[trigger] r.children@[k], entries@[kept_positions(entries@, entries@.len() as int)[k]]),
        (forall|k: int| 0 <= k < entries@.len() ==> #[trigger] scanned_relevant(entries@[k])) ==> all_relevant(r.children@),
{
    let ghost es = entries@;
    let total = entries.len();
    let mut rest = entries;
    let mut children: Vec<FileNode> = Vec::new();
    let mut i: usize = 0;
    while rest.len() > 0
        invariant
            i + rest@.len() == es.len(),
            es.len() == total,
            rest@ == es.skip(i as int),
            children@.len() == kept_positions(es, i as int).len(),
            forall|k: int| 0 <= k < children@.len() ==>
                node_for(#[trigger] children@[k], es[kept_positions(es, i as int)[k]]),
            forall|k: int| 0 <= k < kept_positions(es, i as int).len() ==>
                0 <= #[trigger] kept_positions(es, i as int)[k] < i,
            (forall|k: int| 0 <= k < es.len() ==> #[trigger] scanned_relevant(es[k])) ==> all_relevant(children@),
        decreases rest.len(),
    {
        let e = rest.remove(0);
        assert(e == es[i as int]);
        assert(rest@ == es.skip(i + 1));
        let ghost kp = kept_positions(es, i as int);
        match e {
            ScannedEntry::File { path: fpath, name: fname } => {
                if !is_hidden_name(fname.as_str()) && (is_seismic_file(fpath.as_str()) || is_pick_file(fpath.as_str())) {
                    let ghost before = children@;
                    children.push(FileNode { path: fpath, name: fname, is_dir: false, children: Vec::new() });
                    assert(children@.drop_last() == before);
                    proof {
                        if forall|k: int| 0 <= k < es.len() ==> #[trigger] scanned_relevant(es[k]) {
                            assert(relevant(children@.last()));
                            assert(all_relevant(children@));
                        }
                    }
                    assert(kept_positions(es, i + 1) == kp.push(i as int));
                } else {
                    assert(kept_positions(es, i + 1) == kp);
                }
            },
            ScannedEntry::Dir { name: dname, node } => {
                let hidden = is_hidden_name(dname.as_str());
                match node {
                    Some(n) => {
                        if !hidden && n.children.len() > 0 {
                            let ghost before = children@;
                            children.push(n);
                            assert(children@.drop_last() == before);
                            proof {
                                if forall|k: int| 0 <= k < es.len() ==> #[trigger] scanned_relevant(es[k]) {
                                    assert(scanned_relevant(es[i as int]));
                                    assert(relevant(children@.last()));
                                    assert(all_relevant(children@));
                                }
                            }
                            assert(kept_positions(es, i + 1) == kp.push(i as int));
                        } else {
                            assert(kept_positions(es, i + 1) == kp);
                        }
                    },
                    None => {
                        assert(kept_positions(es, i + 1) == kp);
                    },
                }
            },
        }
        i = i + 1;
    }
    FileNode { path, name, is_dir: true, children }
}

/// Whether a tree node is shown under the search box contents
/// `search_lower` (already lower-cased): everything is shown for an empty
/// search, otherwise the nodes that match it.
pub fn node_shown(node: &FileNode, search_lower: &str) -> (r: bool)
    ensures
        r == (search_lower@.len() == 0 || matches_search(*node, search_lower@)),
{
    let q = chars_of(search_lower);
    if q.len() == 0 {
        return true;
    }
    node_matches_search(node, search_lower)
}

/// Whether a loaded trace is listed in the channel panel under the search
/// `search_lower`: its lower-cased name contains the search.
pub fn trace_listed(filename: &str, search_lower: &str) -> (r: bool)
    ensures
        r == (search_lower@.len() == 0 || occurs_in(search_lower@, spec_lowercase(filename@))),
{
    let q = chars_of(search_lower);
    if q.len() == 0 {
        return true;
    }
    let lower = to_lowercase(filename);
    contains_str(lower.as_str(), search_lower)
}

/// What kind of file a tree leaf is, which picks its icon.
#[derive(Debug, Clone, Copy, PartialEq, Eq, Structural)]
pub enum FileKind {
    Seismic,
    Pick,
    Other,
}

/// The kind of the file at `path`.
pub fn file_kind(path: &str) -> (r: FileKind)
    ensures
        r == (if spec_is_seismic_file(path@) { FileKind::Seismic } else if spec_is_pick_file(path@) { FileKind::Pick } else { FileKind::Other }),
{
    if is_seismic_file(path) {
        FileKind::Seismic
    } else if is_pick_file(path) {
        FileKind::Pick
    } else {
        FileKind::Other
    }
}

/// Actions that can result from sidebar interactions.
#[derive(Debug)]
pub enum SidebarAction {
    /// Nothing to do.
    NoAction,
    OpenFolder,
    Refresh,
    /// Open one or more seismic files (from context menu).
    OpenFiles(Vec<String>),
    ShowHeader(usize),
    ExportAscii(usize),
}

/// The name of a scanned entry.
pub open spec fn entry_name(e: ScannedEntry) -> Seq<char> {
    match e {
        ScannedEntry::File { name, .. } => name@,
        ScannedEntry::Dir { name, .. } => name@,
    }
}

impl ScannedEntry {
    /// The entry's file name.
    pub fn name(&self) -> (r: &String)
        ensures
            r@ == entry_name(*self),
    {
        match self {
            ScannedEntry::File { name, .. } => name,
            ScannedEntry::Dir { name, .. } => name,
        }
    }
}

/// `ord` lists every position below `n` exactly once.
pub open spec fn is_permutation(ord: Seq<int>, n: int) -> bool {
    &&& ord.len() == n
    &&& forall|i: int| 0 <= i < ord.len() ==> 0 <= #[trigger] ord[i] < n
    &&& forall|i: int, j: int| 0 <= i < j < ord.len() ==> #[trigger] ord[i] != #[trigger] ord[j]
}

/// Sort scanned entries by file name (stable), as a directory listing is
/// sorted before the tree is built.
pub fn sort_entries(entries: Vec<ScannedEntry>) -> (r: Vec<ScannedEntry>)
    ensures
        exists|ord: Seq<int>| {
            &&& is_permutation(ord, entries@.len() as int)
            &&& forall|i: int| 0 <= i < r@.len() ==> #[trigger] r@[i] == entries@[ord[i]]
            &&& forall|i: int, j: int| 0 <= i < j < r@.len() ==> key_le(false, entry_name(#[trigger] r@[i]), false, entry_name(#[trigger] r@[j]))
            &&& forall|i: int, j: int| 0 <= i < j < r@.len() && key_le(false, entry_name(r@[j]), false, entry_name(r@[i]))
                ==> #[trigger] ord[i] < #[trigger] ord[j]
        },
{
    let n = entries.len();
    let mut groups: Vec<bool> = Vec::new();
    let mut names: Vec<Vec<char>> = Vec::new();
    let mut i: usize = 0;
    while i < n
        invariant
            n == entries@.len(),
            i <= n,
            groups@.len() == i,
            names@.len() == i,
            forall|k: int| 0 <= k < i ==> !#[trigger] groups@[k],
            forall|k: int| 0 <= k < i ==> #[trigger] names@[k]@ == entry_name(entries@[k]),
        decreases n - i,
    {
        groups.push(false);
        names.push(chars_of(entries[i].name().as_str()));
        i = i + 1;
    }
    let ord = order_by_key(&groups, &names);
    let mut slots: Vec<Option<ScannedEntry>> = Vec::new();
    let ghost es = entries@;
    let mut rest = entries;
    let mut j: usize = 0;
    while rest.len() > 0
        invariant
            j + rest@.len() == n,
            n == es.len(),
            rest@ == es.skip(j as int),
            slots@.len() == j,
            names@.len() == n,
            forall|k: int| 0 <= k < n ==> #[trigger] names@[k]@ == entry_name(es[k]),
            forall|k: int| 0 <= k < j ==> #[trigger] slots@[k] == Some(es[k]),
        decreases rest.len(),
    {
        let e = rest.remove(0);
        assert(rest@ == es.skip(j + 1));
        slots.push(Some(e));
        j = j + 1;
    }
    let mut r: Vec<ScannedEntry> = Vec::new();
    let mut k: usize = 0;
    while k < n
        invariant
            n == es.len(),
            ord@.len() == n,
            slots@.len() == n,
            k <= n,
            r@.len() == k,
            forall|a: int| 0 <= a < n ==> #[trigger] ord@[a] < n,
            forall|a: int, b: int| 0 <= a < b < n ==> #[trigger] ord@[a] != #[trigger] ord@[b],
            forall|a: int| 0 <= a < k ==> #[trigger] r@[a] == es[ord@[a] as int],
            forall|a: int| 0 <= a < n ==> (#[trigger] slots@[a] is Some ==> slots@[a] == Some(es[a])),
            forall|a: int| k <= a < n ==> #[trigger] slots@[ord@[a] as int] is Some,
            names@.len() == n,
            groups@.len() == n,
            forall|a: int| 0 <= a < n ==> #[trigger] names@[a]@ == entry_name(es[a]),
            forall|a: int| 0 <= a < n ==> !#[trigger] groups@[a],
            forall|a: int, b: int| 0 <= a < b < ord@.len() ==>
                key_le(groups@[ord@[a] as int], names@[ord@[a] as int]@, groups@[ord@[b] as int], names@[ord@[b] as int]@),
            forall|a: int, b: int| 0 <= a < b < ord@.len()
                && key_le(groups@[ord@[b] as int], names@[ord@[b] as int]@, groups@[ord@[a] as int], names@[ord@[a] as int]@)
                ==> ord@[a] < ord@[b],
        decreases n - k,
    {
        let idx = ord[k];
        let taken = slots.remove(idx);
        slots.insert(idx, None);
        proof {
            assert forall|a: int| k + 1 <= a < n implies #[trigger] slots@[ord@[a] as int] is Some by {
                assert(ord@[a] != ord@[k as int]);
            }
        }
        match taken {
            Some(e) => {
                r.push(e);
            },
            None => {
                assert(false);
            },
        }
        k = k + 1;
    }
    proof {
        let o = ord@.map_values(|x: usize| x as int);
        assert(is_permutation(o, es.len() as int));
        assert forall|a: int, b: int| 0 <= a < b < r@.len() implies key_le(false, entry_name(#[trigger] r@[a]), false, entry_name(#[trigger] r@[b])) by {
            assert(names@[ord@[a] as int]@ == entry_name(es[ord@[a] as int]));
            assert(names@[ord@[b] as int]@ == entry_name(es[ord@[b] as int]));
            assert(!groups@[ord@[a] as int] && !groups@[ord@[b] as int]);
            assert(key_le(groups@[ord@[a] as int], names@[ord@[a] as int]@, groups@[ord@[b] as int], names@[ord@[b] as int]@));
        }
        assert forall|a: int, b: int| 0 <= a < b < r@.len() && key_le(false, entry_name(r@[b]), false, entry_name(r@[a]))
            implies #[trigger] o[a] < #[trigger] o[b] by {
            assert(names@[ord@[a] as int]@ == entry_name(es[ord@[a] as int]));
            assert(names@[ord@[b] as int]@ == entry_name(es[ord@[b] as int]));
            assert(!groups@[ord@[a] as int] && !groups@[ord@[b] as int]);
            assert(key_le(groups@[ord@[b] as int], names@[ord@[b] as int]@, groups@[ord@[a] as int], names@[ord@[a] as int]@));
            assert(ord@[a] < ord@[b]);
        }
        assert(forall|a: int| 0 <= a < r@.len() ==> #[trigger] r@[a] == es[o[a]]);
    }
    r
}

/// The order in which a directory's children are listed: directories with
/// content first, then by name, equal keys keeping their order.
pub fn display_order(children: &Vec<FileNode>) -> (r: Vec<usize>)
    ensures
        is_permutation(r@.map_values(|x: usize| x as int), children@.len() as int),
        forall|i: int, j: int| 0 <= i < j < r@.len() ==>
            key_le(children@[#[trigger] r@[i] as int].children@.len() > 0, children@[r@[i] as int].name@,
                children@[#[trigger] r@[j] as int].children@.len() > 0, children@[r@[j] as int].name@),
        forall|i: int, j: int| 0 <= i < j < r@.len()
            && key_le(children@[r@[j] as int].children@.len() > 0, children@[r@[j] as int].name@,
                children@[r@[i] as int].children@.len() > 0, children@[r@[i] as int].name@)
            ==> #[trigger] r@[i] < #[trigger] r@[j],
{
    let n = children.len();
    let mut groups: Vec<bool> = Vec::new();
    let mut names: Vec<Vec<char>> = Vec::new();
    let mut i: usize = 0;
    while i < n
        invariant
            n == children@.len(),
            i <= n,
            groups@.len() == i,
            names@.len() == i,
            forall|k: int| 0 <= k < i ==> #[trigger] groups@[k] == (children@[k].children@.len() > 0),
            forall|k: int| 0 <= k < i ==> #[trigger] names@[k]@ == children@[k].name@,
        decreases n - i,
    {
        groups.push(children[i].children.len() > 0);
        names.push(chars_of(children[i].name.as_str()));
        i = i + 1;
    }
    let r = order_by_key(&groups, &names);
    proof {
        let o = r@.map_values(|x: usize| x as int);
        assert(is_permutation(o, n as int));
        assert forall|i: int, j: int| 0 <= i < j < r@.len() implies
            key_le(children@[#[trigger] r@[i] as int].children@.len() > 0, children@[r@[i] as int].name@,
                children@[#[trigger] r@[j] as int].children@.len() > 0, children@[r@[j] as int].name@) by {
            assert(groups@[r@[i] as int] == (children@[r@[i] as int].children@.len() > 0));
            assert(groups@[r@[j] as int] == (children@[r@[j] as int].children@.len() > 0));
            assert(names@[r@[i] as int]@ == children@[r@[i] as int].name@);
            assert(names@[r@[j] as int]@ == children@[r@[j] as int].name@);
        }
        assert forall|i: int, j: int| 0 <= i < j < r@.len()
            && key_le(children@[r@[j] as int].children@.len() > 0, children@[r@[j] as int].name@,
                children@[r@[i] as int].children@.len() > 0, children@[r@[i] as int].name@)
            implies #[trigger] r@[i] < #[trigger] r@[j] by {
            assert(groups@[r@[i] as int] == (children@[r@[i] as int].children@.len() > 0));
            assert(groups@[r@[j] as int] == (children@[r@[j] as int].children@.len() > 0));
            assert(names@[r@[i] as int]@ == children@[r@[i] as int].name@);
            assert(names@[r@[j] as int]@ == children@[r@[j] as int].name@);
        }
    }
    r
}

} // verus!
