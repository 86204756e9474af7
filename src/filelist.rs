//! The folder tree of a repository, built from a flat list of relative paths.
use vstd::prelude::*;
use crate::text::push_char;

verus! {

/// One directory level: the files directly in it, in the order they were
/// added, and its child folders, kept sorted by name.
pub struct FolderNode {
    pub files: Vec<String>,
    pub subfolders: Vec<Subfolder>,
}

/// A named child folder.
pub struct Subfolder {
    pub name: String,
    pub node: FolderNode,
}

/// The folder tree together with the paths it was built from, in the order
/// in which they were added.
pub struct FileTree {
    pub folder_node: FolderNode,
    pub file_paths: Vec<String>,
}

/// Strict lexicographic order on character sequences, by code point.
pub open spec fn name_less(a: Seq<char>, b: Seq<char>) -> bool
    decreases a.len(),
{
    if a.len() == 0 {
        b.len() > 0
    } else if b.len() == 0 {
        false
    } else if a[0] != b[0] {
        (a[0] as int) < (b[0] as int)
    } else {
        name_less(a.drop_first(), b.drop_first())
    }
}

/// Scanning a path from the left: the components closed by a `/` so far,
/// and the characters of the component still open.
pub open spec fn scan_components(p: Seq<char>) -> (Seq<Seq<char>>, Seq<char>)
    decreases p.len(),
{
    if p.len() == 0 {
        (Seq::empty(), Seq::empty())
    } else {
        let (done, open) = scan_components(p.drop_last());
        if p.last() == '/' {
            (
                if open.len() == 0 || open == seq!['.'] {
                    done
                } else {
                    done.push(open)
                },
                Seq::empty(),
            )
        } else {
            (done, open.push(p.last()))
        }
    }
}

/// The components of a relative path: the pieces between `/`, without the
/// empty ones and the `.` ones (which name the folder they stand in).
pub open spec fn path_components(p: Seq<char>) -> Seq<Seq<char>> {
    let (done, open) = scan_components(p);
    if open.len() == 0 || open == seq!['.'] {
        done
    } else {
        done.push(open)
    }
}

/// Walking down from `node` through the folders named by all but the last
/// component reaches a folder that lists the last component as a file.
pub open spec fn holds_file(node: FolderNode, comps: Seq<Seq<char>>) -> bool
    decreases comps.len(),
{
    if comps.len() == 0 {
        false
    } else if comps.len() == 1 {
        exists|i: int| 0 <= i < node.files@.len() && (#[trigger] node.files@[i])@ == comps[0]
    } else {
        exists|i: int|
            0 <= i < node.subfolders@.len() && (#[trigger] node.subfolders@[i]).name@ == comps[0]
                && holds_file(node.subfolders@[i].node, comps.drop_first())
    }
}

/// The paths of `l` that name at least one component, in order.
pub open spec fn kept_paths(l: Seq<String>) -> Seq<String>
    decreases l.len(),
{
    if l.len() == 0 {
        Seq::empty()
    } else if path_components(l.last()@).len() > 0 {
        kept_paths(l.drop_last()).push(l.last())
    } else {
        kept_paths(l.drop_last())
    }
}

impl FolderNode {
    /// Child folders sorted strictly by name (so their names are unique), at
    /// every level.
    pub open spec fn wf(self) -> bool
        decreases self,
    {
        &&& forall|i: int|
            0 <= i < self.subfolders@.len() - 1 ==> name_less(
                #[trigger] self.subfolders@[i].name@,
                self.subfolders@[i + 1].name@,
            )
        &&& forall|i: int|
            0 <= i < self.subfolders@.len() ==> (#[trigger] self.subfolders@[i]).node.wf()
    }

    /// A folder with no files and no child folders.
    pub fn new() -> (r: FolderNode)
        ensures
            r.files@.len() == 0,
            r.subfolders@.len() == 0,
            r.wf(),
    {
        FolderNode { files: Vec::new(), subfolders: Vec::new() }
    }

    /// The child folder called `name`, if there is one.
    pub fn subfolder(&self, name: &str) -> (r: Option<&FolderNode>)
        ensures
            r is None ==> forall|i: int|
                0 <= i < self.subfolders@.len() ==> (#[trigger] self.subfolders@[i]).name@ != name@,
            r is Some ==> exists|i: int|
                0 <= i < self.subfolders@.len() && (#[trigger] self.subfolders@[i]).name@ == name@
                    && self.subfolders@[i].node == *r->0,
    {
        let mut i: usize = 0;
        while i < self.subfolders.len()
            invariant
                i <= self.subfolders@.len(),
                forall|j: int| 0 <= j < i ==> (#[trigger] self.subfolders@[j]).name@ != name@,
            decreases self.subfolders@.len() - i,
        {
            if same_text(self.subfolders[i].name.as_str(), name) {
                return Some(&self.subfolders[i].node);
            }
            i = i + 1;
        }
        None
    }
}

/// Whether two strings hold the same characters.
pub fn same_text(a: &str, b: &str) -> (r: bool)
    ensures
        r == (a@ == b@),
{
    let n = a.unicode_len();
    if n != b.unicode_len() {
        return false;
    }
    let mut i: usize = 0;
    while i < n
        invariant
            n == a@.len(),
            n == b@.len(),
            i <= n,
            a@.take(i as int) == b@.take(i as int),
        decreases n - i,
    {
        if a.get_char(i) != b.get_char(i) {
            return false;
        }
        assert(a@.take(i + 1) =~= a@.take(i as int).push(a@[i as int]));
        assert(b@.take(i + 1) =~= b@.take(i as int).push(b@[i as int]));
        i = i + 1;
    }
    assert(a@ =~= a@.take(n as int));
    assert(b@ =~= b@.take(n as int));
    true
}

/// Compares two names in the order of `name_less`.
pub fn is_name_less(a: &str, b: &str) -> (r: bool)
    ensures
        r == name_less(a@, b@),
{
    let na = a.unicode_len();
    let nb = b.unicode_len();
    let mut i: usize = 0;
    assert(a@.skip(0) =~= a@);
    assert(b@.skip(0) =~= b@);
    while i < na && i < nb
        invariant
            na == a@.len(),
            nb == b@.len(),
            i <= na,
            i <= nb,
            name_less(a@, b@) == name_less(a@.skip(i as int), b@.skip(i as int)),
        decreases na - i,
    {
        let ca = a.get_char(i);
        let cb = b.get_char(i);
        if ca != cb {
            return (ca as u32) < (cb as u32);
        }
        assert(a@.skip(i as int).drop_first() =~= a@.skip(i + 1));
        assert(b@.skip(i as int).drop_first() =~= b@.skip(i + 1));
        i = i + 1;
    }
    i == na && i < nb
}

proof fn lemma_name_less_irreflexive(a: Seq<char>)
    ensures
        !name_less(a, a),
    decreases a.len(),
{
    if a.len() > 0 {
        lemma_name_less_irreflexive(a.drop_first());
    }
}

proof fn lemma_name_less_total(a: Seq<char>, b: Seq<char>)
    requires
        a != b,
    ensures
        name_less(a, b) || name_less(b, a),
    decreases a.len(),
{
    if a.len() > 0 && b.len() > 0 && a[0] == b[0] {
        if a.drop_first() == b.drop_first() {
            assert(a =~= seq![a[0]] + a.drop_first());
            assert(b =~= seq![b[0]] + b.drop_first());
        }
        lemma_name_less_total(a.drop_first(), b.drop_first());
    } else if a.len() == 0 && b.len() == 0 {
        assert(a =~= b);
    } else if a.len() > 0 && b.len() > 0 {
        assert(a[0] as int != b[0] as int);
    }
}

/// Splits a relative path into its components (see `path_components`).
pub fn split_path(p: &str) -> (r: Vec<String>)
    ensures
        r@.len() == path_components(p@).len(),
        forall|i: int| 0 <= i < r@.len() ==> #[trigger] r@[i]@ == path_components(p@)[i],
{
    proof {
        reveal_strlit(".");
        assert("."@ =~= seq!['.']);
    }
    let mut done: Vec<String> = Vec::new();
    let mut open = String::new();
    for c in it: p.chars()
        invariant
            it.seq() == p@,
            "."@ == seq!['.'],
            done@.len() == scan_components(p@.take(it.index() as int)).0.len(),
            forall|k: int|
                0 <= k < done@.len() ==> #[trigger] done@[k]@ == scan_components(
                    p@.take(it.index() as int),
                ).0[k],
            open@ == scan_components(p@.take(it.index() as int)).1,
    {
        let ghost seen = p@.take(it.index() as int);
        proof {
            assert(p@.take(it.index() + 1) =~= seen.push(c));
            assert(seen.push(c).drop_last() =~= seen);
        }
        if c == '/' {
            if open.as_str().unicode_len() > 0 && !same_text(open.as_str(), ".") {
                done.push(open);
            }
            open = String::new();
        } else {
            push_char(&mut open, c);
        }
    }
    proof {
        assert(p@.take(p@.len() as int) =~= p@);
    }
    if open.as_str().unicode_len() > 0 && !same_text(open.as_str(), ".") {
        done.push(open);
    }
    done
}

/// The views of a sequence of strings.
pub open spec fn views(l: Seq<String>) -> Seq<Seq<char>> {
    l.map_values(|s: String| s@)
}

/// Adds the file named by `comps[start..]` below `node`, creating the
/// folders on the way that are missing.
fn insert_path(node: &mut FolderNode, comps: &Vec<String>, start: usize)
    requires
        old(node).wf(),
        start < comps@.len(),
    ensures
        final(node).wf(),
        holds_file(*final(node), views(comps@).skip(start as int)),
        forall|c: Seq<Seq<char>>|
            holds_file(*old(node), c) ==> #[trigger] holds_file(*final(node), c),
        file_count(*final(node)) == file_count(*old(node)) + 1,
        grows_by(*old(node), *final(node), views(comps@).skip(start as int)),
    decreases comps@.len() - start,
{
    let ghost before = *node;
    let ghost rest = views(comps@).skip(start as int);
    if start == comps.len() - 1 {
        node.files.push(comps[start].clone());
        proof {
            lemma_children_same(*node, before, before.subfolders@.len() as int);
            assert(rest.drop_last() =~= Seq::<Seq<char>>::empty());
            assert forall|d: Seq<Seq<char>>| #[trigger] folder_at(*node, d) is Some == (folder_at(before, d) is Some
                || d.is_prefix_of(rest.drop_last())) && (folder_at(*node, d) is Some ==> views(folder_at(*node, d)->0.files@)
                == files_or_empty(folder_at(before, d)) + if d == rest.drop_last() {
                seq![rest.last()]
            } else {
                Seq::<Seq<char>>::empty()
            }) by {
                if d.len() == 0 {
                    assert(d =~= rest.drop_last());
                    assert(views(node.files@) =~= views(before.files@) + seq![rest.last()]);
                } else {
                    assert(folder_at(*node, d) == folder_at(before, d));
                    if folder_at(*node, d) is Some {
                        assert(views(folder_at(*node, d)->0.files@) =~= files_or_empty(folder_at(before, d))
                            + Seq::<Seq<char>>::empty());
                    }
                }
            }
            assert(rest.len() == 1);
            let last = node.files@.len() - 1;
            assert(node.files@[last]@ == rest[0]);
            assert forall|c: Seq<Seq<char>>| holds_file(before, c) implies #[trigger] holds_file(
                *node,
                c,
            ) by {
                if c.len() == 1 {
                    let i = choose|i: int|
                        0 <= i < before.files@.len() && (#[trigger] before.files@[i])@ == c[0];
                    assert(node.files@[i] == before.files@[i]);
                } else if c.len() > 1 {
                    let i = choose|i: int|
                        0 <= i < before.subfolders@.len() && (#[trigger] before.subfolders@[i]).name@
                            == c[0] && holds_file(before.subfolders@[i].node, c.drop_first());
                    assert(node.subfolders@[i] == before.subfolders@[i]);
                }
            }
        }
    } else {
        let name = &comps[start];
        let n = node.subfolders.len();
        let mut p: usize = 0;
        while p < n && is_name_less(node.subfolders[p].name.as_str(), name.as_str())
            invariant
                p <= n,
                n == node.subfolders@.len(),
                *node == before,
                forall|j: int| 0 <= j < p ==> name_less(#[trigger] node.subfolders@[j].name@, name@),
            decreases n - p,
        {
            p = p + 1;
        }
        let found = p < n && same_text(node.subfolders[p].name.as_str(), name.as_str());
        let mut entry = if found {
            node.subfolders.remove(p)
        } else {
            Subfolder { name: name.clone(), node: FolderNode::new() }
        };
        let ghost old_entry = entry;
        insert_path(&mut entry.node, comps, start + 1);
        node.subfolders.insert(p, entry);
        proof {
            let olds = before.subfolders@;
            assert(rest[0] == name@);
            assert(rest.drop_first() =~= views(comps@).skip(start + 1));
            if found {
                assert(node.subfolders@ =~= olds.update(p as int, entry));
            } else {
                assert(node.subfolders@ =~= olds.insert(p as int, entry));
                if p < n {
                    lemma_name_less_total(olds[p as int].name@, name@);
                }
            }
            assert(node.subfolders@[p as int] == entry);
            lemma_place_sorted(before, *node, p as int, found, entry, name@);
            if !found {
                lemma_name_absent(before, p as int, name@);
            }
            lemma_place_grows(before, *node, p as int, found, old_entry, entry, rest);
            if found {
                assert(old_entry == olds[p as int]);
                lemma_children_update(before, *node, p as int, olds.len() as int);
            } else {
                assert(file_count(old_entry.node) == 0);
                lemma_children_insert(before, *node, p as int, (olds.len() + 1) as int);
            }
            lemma_place_keeps_files(before, *node, p as int, found, old_entry, entry);
        }
    }
}

/// Shape of a folder after the child at `p` was replaced (`found`) or a
/// child was inserted at `p`.
spec fn placed(before: FolderNode, after: FolderNode, p: int, found: bool, entry: Subfolder) -> bool {
    &&& 0 <= p <= before.subfolders@.len()
    &&& after.files == before.files
    &&& found ==> p < before.subfolders@.len() && after.subfolders@ == before.subfolders@.update(p, entry)
    &&& !found ==> after.subfolders@ == before.subfolders@.insert(p, entry)
}

proof fn lemma_place_sorted(
    before: FolderNode,
    after: FolderNode,
    p: int,
    found: bool,
    entry: Subfolder,
    name: Seq<char>,
)
    requires
        before.wf(),
        placed(before, after, p, found, entry),
        entry.node.wf(),
        entry.name@ == name,
        forall|j: int| 0 <= j < p ==> name_less(#[trigger] before.subfolders@[j].name@, name),
        found ==> before.subfolders@[p].name@ == name,
        !found && p < before.subfolders@.len() ==> name_less(name, before.subfolders@[p].name@),
    ensures
        after.wf(),
{
    let olds = before.subfolders@;
    let news = after.subfolders@;
    assert forall|i: int| 0 <= i < news.len() - 1 implies name_less(
        #[trigger] news[i].name@,
        news[i + 1].name@,
    ) by {
        if !found {
            if i + 1 < p {
                assert(news[i] == olds[i] && news[i + 1] == olds[i + 1]);
            } else if i + 1 == p {
                assert(news[i] == olds[i]);
            } else if i > p {
                assert(news[i] == olds[i - 1] && news[i + 1] == olds[i]);
            }
        } else {
            if i != p && i + 1 != p {
                assert(news[i] == olds[i] && news[i + 1] == olds[i + 1]);
            } else if i == p {
                assert(news[i + 1] == olds[i + 1]);
            } else {
                assert(news[i] == olds[i]);
            }
        }
    }
    assert forall|i: int| 0 <= i < news.len() implies (#[trigger] news[i]).node.wf() by {
        if i != p {
            if !found && i > p {
                assert(news[i] == olds[i - 1]);
            } else {
                assert(news[i] == olds[i]);
            }
        }
    }
}

proof fn lemma_place_keeps_files(
    before: FolderNode,
    after: FolderNode,
    p: int,
    found: bool,
    old_entry: Subfolder,
    entry: Subfolder,
)
    requires
        placed(before, after, p, found, entry),
        found ==> old_entry == before.subfolders@[p],
        entry.name == old_entry.name,
        forall|c: Seq<Seq<char>>|
            holds_file(old_entry.node, c) ==> #[trigger] holds_file(entry.node, c),
    ensures
        forall|c: Seq<Seq<char>>| holds_file(before, c) ==> #[trigger] holds_file(after, c),
{
    let olds = before.subfolders@;
    let news = after.subfolders@;
    assert forall|c: Seq<Seq<char>>| holds_file(before, c) implies #[trigger] holds_file(after, c) by {
        if c.len() == 1 {
            let i = choose|i: int|
                0 <= i < before.files@.len() && (#[trigger] before.files@[i])@ == c[0];
            assert(after.files@[i] == before.files@[i]);
        } else if c.len() > 1 {
            let i = choose|i: int|
                0 <= i < olds.len() && (#[trigger] olds[i]).name@ == c[0] && holds_file(
                    olds[i].node,
                    c.drop_first(),
                );
            if found && i == p {
                assert(news[i] == entry);
                assert(holds_file(news[i].node, c.drop_first()));
            } else if !found && i >= p {
                assert(news[i + 1] == olds[i]);
            } else {
                assert(news[i] == olds[i]);
            }
        }
    }
}

/// Builds the folder tree of `file_list`: each path's last component is
/// added as a file to the folder reached through its other components, and
/// the path itself is recorded in order. A path without components is
/// skipped; no path is deduplicated.
pub fn group_files_by_directory(file_list: Vec<String>) -> (tree: FileTree)
    ensures
        tree.folder_node.wf(),
        tree.file_paths@ == kept_paths(file_list@),
        file_count(tree.folder_node) == tree.file_paths@.len(),
        forall|d: Seq<Seq<char>>|
            (#[trigger] folder_at(tree.folder_node, d) is Some) == names_a_folder(tree.file_paths@, d),
        forall|d: Seq<Seq<char>>|
            #[trigger] folder_at(tree.folder_node, d) is Some ==> views(
                folder_at(tree.folder_node, d)->0.files@,
            ) == files_in(tree.file_paths@, d),
        forall|i: int|
            0 <= i < tree.file_paths@.len() ==> holds_file(
                tree.folder_node,
                path_components(#[trigger] tree.file_paths@[i]@),
            ),
{
    let mut root = FolderNode::new();
    let mut file_paths: Vec<String> = Vec::new();
    proof {
        assert forall|d: Seq<Seq<char>>| #[trigger] folder_at(root, d) is Some == names_a_folder(file_paths@, d)
            && (folder_at(root, d) is Some ==> views(folder_at(root, d)->0.files@) == files_in(file_paths@, d)) by {
            lemma_empty_folder_at(root, d);
            assert(views(root.files@) =~= Seq::<Seq<char>>::empty());
        }
    }
    let mut k: usize = 0;
    while k < file_list.len()
        invariant
            k <= file_list@.len(),
            root.wf(),
            file_paths@ == kept_paths(file_list@.take(k as int)),
            file_count(root) == file_paths@.len(),
            forall|d: Seq<Seq<char>>|
                (#[trigger] folder_at(root, d) is Some) == names_a_folder(file_paths@, d),
            forall|d: Seq<Seq<char>>|
                #[trigger] folder_at(root, d) is Some ==> views(folder_at(root, d)->0.files@)
                    == files_in(file_paths@, d),
            forall|i: int|
                0 <= i < file_paths@.len() ==> holds_file(
                    root,
                    path_components(#[trigger] file_paths@[i]@),
                ),
        decreases file_list@.len() - k,
    {
        let path = file_list[k].clone();
        let comps = split_path(path.as_str());
        proof {
            assert(file_list@.take(k + 1).drop_last() =~= file_list@.take(k as int));
            assert(file_list@.take(k + 1).last() == path);
        }
        if comps.len() > 0 {
            let ghost root_before = root;
            insert_path(&mut root, &comps, 0);
            proof {
                assert(views(comps@).skip(0) =~= path_components(path@));
            }
            let ghost fp_before = file_paths@;
            file_paths.push(path);
            proof {
                assert(file_paths@.drop_last() =~= fp_before);
                assert forall|d: Seq<Seq<char>>| #[trigger] folder_at(root, d) is Some == names_a_folder(file_paths@, d)
                    && (folder_at(root, d) is Some ==> views(folder_at(root, d)->0.files@) == files_in(file_paths@, d)) by {
                    lemma_names_push(fp_before, path, d);
                    if folder_at(root_before, d) is None {
                        lemma_files_in_unnamed(fp_before, d);
                    }
                    assert(folder_at(root, d) is Some == (folder_at(root_before, d) is Some
                        || d.is_prefix_of(path_components(path@).drop_last())));
                }
                assert forall|i: int| 0 <= i < file_paths@.len() implies holds_file(
                    root,
                    path_components(#[trigger] file_paths@[i]@),
                ) by {
                    if i < file_paths@.len() - 1 {
                        assert(holds_file(root_before, path_components(file_paths@[i]@)));
                    }
                }
            }
        }
        k = k + 1;
    }
    assert(file_list@.take(file_list@.len() as int) =~= file_list@);
    FileTree { folder_node: root, file_paths }
}

proof fn lemma_names_push(paths: Seq<String>, x: String, d: Seq<Seq<char>>)
    ensures
        names_a_folder(paths.push(x), d) == (names_a_folder(paths, d) || d.is_prefix_of(dir_of(x@))),
{
    let q = paths.push(x);
    if names_a_folder(paths, d) && d.len() > 0 {
        let i = choose|i: int| 0 <= i < paths.len() && d.is_prefix_of(dir_of((#[trigger] paths[i])@));
        assert(q[i] == paths[i]);
    }
    if d.is_prefix_of(dir_of(x@)) {
        assert(q[paths.len() as int] == x);
    }
    if names_a_folder(q, d) && d.len() > 0 && !d.is_prefix_of(dir_of(x@)) {
        let i = choose|i: int| 0 <= i < q.len() && d.is_prefix_of(dir_of((#[trigger] q[i])@));
        assert(i < paths.len());
        assert(q[i] == paths[i]);
    }
}

proof fn lemma_files_in_unnamed(paths: Seq<String>, d: Seq<Seq<char>>)
    requires
        !names_a_folder(paths, d),
    ensures
        files_in(paths, d) == Seq::<Seq<char>>::empty(),
    decreases paths.len(),
{
    if paths.len() > 0 {
        let rest = paths.drop_last();
        assert(!names_a_folder(rest, d)) by {
            if names_a_folder(rest, d) {
                let i = choose|i: int| 0 <= i < rest.len() && d.is_prefix_of(dir_of((#[trigger] rest[i])@));
                assert(paths[i] == rest[i]);
            }
        }
        lemma_files_in_unnamed(rest, d);
        if dir_of(paths.last()@) == d {
            assert(d.is_prefix_of(dir_of(paths[paths.len() - 1]@)));
        }
    }
}

/// Every path of a list whose paths all name a component is recorded, in
/// order: the recorded paths are the list itself.
pub proof fn lemma_recorded_paths_are_input(l: Seq<String>)
    requires
        forall|i: int| 0 <= i < l.len() ==> path_components((#[trigger] l[i])@).len() > 0,
    ensures
        kept_paths(l) == l,
        kept_paths(l).len() == l.len(),
        kept_paths(l).to_multiset() == l.to_multiset(),
    decreases l.len(),
{
    if l.len() > 0 {
        lemma_recorded_paths_are_input(l.drop_last());
        assert(l.drop_last().push(l.last()) =~= l);
    }
}

/// The number of files below `node`: its own and, through `children_files`,
/// those of its child folders.
pub open spec fn file_count(node: FolderNode) -> nat
    decreases node, node.subfolders@.len() + 1,
{
    node.files@.len() + children_files(node, node.subfolders@.len() as int)
}

/// The number of files below the first `k` child folders of `node`.
pub open spec fn children_files(node: FolderNode, k: int) -> nat
    decreases node, k,
    via children_files_decreases
{
    if k <= 0 || k > node.subfolders@.len() {
        0
    } else {
        children_files(node, k - 1) + file_count(node.subfolders@[k - 1].node)
    }
}

#[via_fn]
proof fn children_files_decreases(node: FolderNode, k: int) {
    if 0 < k <= node.subfolders@.len() {
        assert(decreases_to!(node.subfolders => node.subfolders@[k - 1]));
    }
}

proof fn lemma_children_same(a: FolderNode, b: FolderNode, k: int)
    requires
        a.subfolders@ == b.subfolders@,
    ensures
        children_files(a, k) == children_files(b, k),
    decreases k,
{
    if k > 0 {
        lemma_children_same(a, b, k - 1);
    }
}

proof fn lemma_children_update(before: FolderNode, after: FolderNode, p: int, k: int)
    requires
        0 <= p < before.subfolders@.len(),
        after.subfolders@.len() == before.subfolders@.len(),
        forall|i: int| 0 <= i < before.subfolders@.len() && i != p ==> after.subfolders@[i] == before.subfolders@[i],
        file_count(after.subfolders@[p].node) == file_count(before.subfolders@[p].node) + 1,
        0 <= k <= before.subfolders@.len(),
    ensures
        children_files(after, k) == children_files(before, k) + if k > p { 1nat } else { 0nat },
    decreases k,
{
    if k > 0 {
        lemma_children_update(before, after, p, k - 1);
    }
}

proof fn lemma_children_insert(before: FolderNode, after: FolderNode, p: int, k: int)
    requires
        0 <= p <= before.subfolders@.len(),
        after.subfolders@ == before.subfolders@.insert(p, after.subfolders@[p]),
        0 <= k <= after.subfolders@.len(),
    ensures
        children_files(after, k) == if k > p {
            children_files(before, k - 1) + file_count(after.subfolders@[p].node)
        } else {
            children_files(before, k)
        },
    decreases k,
{
    if k > 0 {
        lemma_children_insert(before, after, p, k - 1);
        if k - 1 > p {
            assert(after.subfolders@[k - 1] == before.subfolders@[k - 2]);
        } else if k - 1 < p {
            assert(after.subfolders@[k - 1] == before.subfolders@[k - 1]);
        }
    }
}

/// One step of writing out a folder tree.
pub enum StructureStep {
    /// A file of the current folder.
    File(String),
    /// Entering a child folder of this name.
    OpenFolder(String),
    /// Leaving the folder entered last.
    CloseFolder,
}

/// A step over character sequences.
pub enum StepModel {
    File(Seq<char>),
    OpenFolder(Seq<char>),
    CloseFolder,
}

impl StructureStep {
    pub open spec fn model(self) -> StepModel {
        match self {
            StructureStep::File(n) => StepModel::File(n@),
            StructureStep::OpenFolder(n) => StepModel::OpenFolder(n@),
            StructureStep::CloseFolder => StepModel::CloseFolder,
        }
    }
}

/// The steps of a folder: its files in order, then each child folder in
/// order, entered, written out and left.
pub open spec fn folder_steps(node: FolderNode) -> Seq<StepModel>
    decreases node, node.subfolders@.len() + 1,
{
    node.files@.map_values(|f: String| StepModel::File(f@)) + children_steps(
        node,
        node.subfolders@.len() as int,
    )
}

/// The steps of the first `k` child folders of `node`.
pub open spec fn children_steps(node: FolderNode, k: int) -> Seq<StepModel>
    decreases node, k,
    via children_steps_decreases
{
    if k <= 0 || k > node.subfolders@.len() {
        Seq::empty()
    } else {
        children_steps(node, k - 1) + seq![StepModel::OpenFolder(node.subfolders@[k - 1].name@)]
            + folder_steps(node.subfolders@[k - 1].node) + seq![StepModel::CloseFolder]
    }
}

#[via_fn]
proof fn children_steps_decreases(node: FolderNode, k: int) {
    if 0 < k <= node.subfolders@.len() {
        assert(decreases_to!(node.subfolders => node.subfolders@[k - 1]));
    }
}

/// The models of a sequence of steps.
pub open spec fn step_models(steps: Seq<StructureStep>) -> Seq<StepModel> {
    steps.map_values(|s: StructureStep| s.model())
}

proof fn lemma_step_models_push(v: Seq<StructureStep>, x: StructureStep)
    ensures
        step_models(v.push(x)) == step_models(v).push(x.model()),
{
    assert(step_models(v.push(x)) =~= step_models(v).push(x.model()));
}

fn collect_steps(node: &FolderNode, out: &mut Vec<StructureStep>)
    ensures
        step_models(final(out)@) == step_models(old(out)@) + folder_steps(*node),
    decreases node,
{
    let ghost start = step_models(out@);
    let mut i: usize = 0;
    while i < node.files.len()
        invariant
            i <= node.files@.len(),
            step_models(out@) == start + node.files@.take(i as int).map_values(
                |f: String| StepModel::File(f@),
            ),
        decreases node.files@.len() - i,
    {
        let step = StructureStep::File(node.files[i].clone());
        proof {
            lemma_step_models_push(out@, step);
        }
        out.push(step);
        assert(node.files@.take(i + 1).map_values(|f: String| StepModel::File(f@))
            =~= node.files@.take(i as int).map_values(|f: String| StepModel::File(f@)).push(
            StepModel::File(node.files@[i as int]@),
        ));
        assert(step_models(out@) =~= start + node.files@.take(i + 1).map_values(
            |f: String| StepModel::File(f@),
        ));
        i = i + 1;
    }
    assert(node.files@.take(node.files@.len() as int) =~= node.files@);
    let ghost file_part = node.files@.map_values(|f: String| StepModel::File(f@));
    assert(step_models(out@) =~= start + file_part + children_steps(*node, 0));
    let mut j: usize = 0;
    while j < node.subfolders.len()
        invariant
            j <= node.subfolders@.len(),
            file_part == node.files@.map_values(|f: String| StepModel::File(f@)),
            step_models(out@) == start + file_part + children_steps(*node, j as int),
        decreases node.subfolders@.len() - j,
    {
        let sub = &node.subfolders[j];
        let open = StructureStep::OpenFolder(sub.name.clone());
        proof {
            lemma_step_models_push(out@, open);
        }
        out.push(open);
        proof {
            vstd::std_specs::vec::axiom_vec_index_decreases(node.subfolders, j as int);
        }
        collect_steps(&sub.node, out);
        proof {
            lemma_step_models_push(out@, StructureStep::CloseFolder);
        }
        out.push(StructureStep::CloseFolder);
        assert(step_models(out@) =~= start + file_part + children_steps(*node, j + 1));
        j = j + 1;
    }
}

/// The steps that write out the tree below `root`.
pub fn structure_steps(root: &FolderNode) -> (r: Vec<StructureStep>)
    ensures
        step_models(r@) == folder_steps(*root),
{
    let mut out: Vec<StructureStep> = Vec::new();
    collect_steps(root, &mut out);
    assert(step_models(out@) =~= folder_steps(*root));
    out
}

proof fn lemma_name_less_transitive(a: Seq<char>, b: Seq<char>, c: Seq<char>)
    requires
        name_less(a, b),
        name_less(b, c),
    ensures
        name_less(a, c),
    decreases a.len(),
{
    if a.len() > 0 && b.len() > 0 && c.len() > 0 && a[0] == b[0] && b[0] == c[0] {
        lemma_name_less_transitive(a.drop_first(), b.drop_first(), c.drop_first());
    }
}

proof fn lemma_sorted_names_ordered(node: FolderNode, i: int, j: int)
    requires
        node.wf(),
        0 <= i < j < node.subfolders@.len(),
    ensures
        name_less(node.subfolders@[i].name@, node.subfolders@[j].name@),
    decreases j - i,
{
    if j - i > 1 {
        lemma_sorted_names_ordered(node, i, j - 1);
        lemma_name_less_transitive(
            node.subfolders@[i].name@,
            node.subfolders@[j - 1].name@,
            node.subfolders@[j].name@,
        );
    }
}

/// In a well-formed folder, no two child folders share a name.
pub proof fn lemma_subfolder_names_unique(node: FolderNode, i: int, j: int)
    requires
        node.wf(),
        0 <= i < node.subfolders@.len(),
        0 <= j < node.subfolders@.len(),
        i != j,
    ensures
        node.subfolders@[i].name@ != node.subfolders@[j].name@,
{
    if i < j {
        lemma_sorted_names_ordered(node, i, j);
        lemma_name_less_irreflexive(node.subfolders@[i].name@);
    } else {
        lemma_sorted_names_ordered(node, j, i);
        lemma_name_less_irreflexive(node.subfolders@[j].name@);
    }
}

/// Whether `node` has a child folder called `name`.
pub open spec fn has_child(node: FolderNode, name: Seq<char>) -> bool {
    exists|i: int| 0 <= i < node.subfolders@.len() && (#[trigger] node.subfolders@[i]).name@ == name
}

/// The position of a child folder of `node` called `name`, when there is one.
pub open spec fn child_index(subs: Seq<Subfolder>, name: Seq<char>) -> int {
    choose|i: int| 0 <= i < subs.len() && (#[trigger] subs[i]).name@ == name
}

/// The child folder of `node` called `name`, if there is one.
pub open spec fn child_named(node: FolderNode, name: Seq<char>) -> Option<FolderNode> {
    if has_child(node, name) {
        Some(node.subfolders@[child_index(node.subfolders@, name)].node)
    } else {
        None
    }
}

/// The folder reached from `node` through the folder names `d`, if any.
pub open spec fn folder_at(node: FolderNode, d: Seq<Seq<char>>) -> Option<FolderNode>
    decreases d.len(),
{
    if d.len() == 0 {
        Some(node)
    } else {
        match child_named(node, d[0]) {
            Some(c) => folder_at(c, d.drop_first()),
            None => None,
        }
    }
}

/// The files of an optional folder; none when there is no folder.
pub open spec fn files_or_empty(o: Option<FolderNode>) -> Seq<Seq<char>> {
    match o {
        Some(n) => views(n.files@),
        None => Seq::empty(),
    }
}

/// The folder names of a path: its components but the last.
pub open spec fn dir_of(p: Seq<char>) -> Seq<Seq<char>> {
    path_components(p).drop_last()
}

/// The file name of a path: its last component.
pub open spec fn leaf_of(p: Seq<char>) -> Seq<char> {
    path_components(p).last()
}

/// Whether the folder names `d` lead to a folder for `paths`: the root, or a
/// beginning of some path's folder names.
pub open spec fn names_a_folder(paths: Seq<String>, d: Seq<Seq<char>>) -> bool {
    d.len() == 0 || exists|i: int| 0 <= i < paths.len() && d.is_prefix_of(dir_of((#[trigger] paths[i])@))
}

/// The file names of the paths whose folder names are `d`, in order.
pub open spec fn files_in(paths: Seq<String>, d: Seq<Seq<char>>) -> Seq<Seq<char>>
    decreases paths.len(),
{
    if paths.len() == 0 {
        Seq::empty()
    } else if dir_of(paths.last()@) == d {
        files_in(paths.drop_last(), d).push(leaf_of(paths.last()@))
    } else {
        files_in(paths.drop_last(), d)
    }
}

/// `after` is `before` with the file `c` added: the folders on the way to it
/// exist, and only the folder it names gains it as its last file.
pub open spec fn grows_by(before: FolderNode, after: FolderNode, c: Seq<Seq<char>>) -> bool {
    &&& forall|d: Seq<Seq<char>>|
        (#[trigger] folder_at(after, d) is Some) == (folder_at(before, d) is Some || d.is_prefix_of(
            c.drop_last(),
        ))
    &&& forall|d: Seq<Seq<char>>|
        #[trigger] folder_at(after, d) is Some ==> views(folder_at(after, d)->0.files@)
            == files_or_empty(folder_at(before, d)) + if d == c.drop_last() {
            seq![c.last()]
        } else {
            Seq::<Seq<char>>::empty()
        }
}

proof fn lemma_child_named_at(node: FolderNode, i: int)
    requires
        node.wf(),
        0 <= i < node.subfolders@.len(),
    ensures
        child_named(node, node.subfolders@[i].name@) == Some(node.subfolders@[i].node),
{
    let name = node.subfolders@[i].name@;
    assert(exists|j: int| 0 <= j < node.subfolders@.len() && (#[trigger] node.subfolders@[j]).name@ == name) by {
        assert(node.subfolders@[i].name@ == name);
    }
    let j = child_index(node.subfolders@, name);
    assert(child_named(node, name) == Some(node.subfolders@[j].node));
    if j != i {
        lemma_subfolder_names_unique(node, i, j);
    }
}

proof fn lemma_empty_folder_at(node: FolderNode, d: Seq<Seq<char>>)
    requires
        node.files@.len() == 0,
        node.subfolders@.len() == 0,
    ensures
        folder_at(node, d) == if d.len() == 0 { Some(node) } else { None::<FolderNode> },
{
}

proof fn lemma_name_absent(before: FolderNode, p: int, name: Seq<char>)
    requires
        before.wf(),
        0 <= p <= before.subfolders@.len(),
        forall|j: int| 0 <= j < p ==> name_less(#[trigger] before.subfolders@[j].name@, name),
        p < before.subfolders@.len() ==> name_less(name, before.subfolders@[p].name@),
    ensures
        forall|i: int| 0 <= i < before.subfolders@.len() ==> (#[trigger] before.subfolders@[i]).name@ != name,
{
    assert forall|i: int| 0 <= i < before.subfolders@.len() implies (#[trigger] before.subfolders@[i]).name@ != name by {
        if i < p {
            if before.subfolders@[i].name@ == name {
                lemma_name_less_irreflexive(name);
            }
        } else {
            if i > p {
                lemma_sorted_names_ordered(before, p, i);
                lemma_name_less_transitive(name, before.subfolders@[p].name@, before.subfolders@[i].name@);
            }
            if before.subfolders@[i].name@ == name {
                lemma_name_less_irreflexive(name);
            }
        }
    }
}

/// Adding a file below the child at `p` (found there, or newly inserted
/// there) changes the folders below the parent as it changed them below the
/// child, one level down.
proof fn lemma_place_grows(
    before: FolderNode,
    after: FolderNode,
    p: int,
    found: bool,
    old_entry: Subfolder,
    entry: Subfolder,
    c: Seq<Seq<char>>,
)
    requires
        before.wf(),
        after.wf(),
        placed(before, after, p, found, entry),
        c.len() >= 2,
        entry.name@ == c[0],
        entry.name == old_entry.name,
        found ==> old_entry == before.subfolders@[p],
        !found ==> old_entry.node.files@.len() == 0 && old_entry.node.subfolders@.len() == 0,
        !found ==> forall|i: int| 0 <= i < before.subfolders@.len() ==> (#[trigger] before.subfolders@[i]).name@ != c[0],
        grows_by(old_entry.node, entry.node, c.drop_first()),
    ensures
        grows_by(before, after, c),
{
    let olds = before.subfolders@;
    let news = after.subfolders@;
    let dir = c.drop_last();
    let cd = c.drop_first();
    assert(news[p] == entry);
    lemma_child_named_at(after, p);
    assert(child_named(after, c[0]) == Some(entry.node));
    if found {
        lemma_child_named_at(before, p);
    } else {
        assert(!(exists|i: int| 0 <= i < olds.len() && (#[trigger] olds[i]).name@ == c[0]));
    }
    assert forall|x: Seq<char>| x != c[0] implies child_named(after, x) == child_named(before, x) by {
        if exists|i: int| 0 <= i < news.len() && (#[trigger] news[i]).name@ == x {
            let i = choose|i: int| 0 <= i < news.len() && (#[trigger] news[i]).name@ == x;
            lemma_child_named_at(after, i);
            assert(i != p);
            let k = if !found && i > p { i - 1 } else { i };
            assert(news[i] == olds[k]);
            lemma_child_named_at(before, k);
        } else {
            if exists|i: int| 0 <= i < olds.len() && (#[trigger] olds[i]).name@ == x {
                let k = choose|i: int| 0 <= i < olds.len() && (#[trigger] olds[i]).name@ == x;
                let i = if !found && k >= p { k + 1 } else { k };
                assert(news[i] == olds[k]);
            }
        }
    }
    assert forall|d: Seq<Seq<char>>| #[trigger] folder_at(after, d) is Some == (folder_at(before, d) is Some
        || d.is_prefix_of(dir)) && (folder_at(after, d) is Some ==> views(folder_at(after, d)->0.files@)
        == files_or_empty(folder_at(before, d)) + if d == dir {
        seq![c.last()]
    } else {
        Seq::<Seq<char>>::empty()
    }) by {
        if d.len() == 0 {
            assert(d.is_prefix_of(dir));
            assert(d != dir);
            assert(views(after.files@) =~= views(before.files@) + Seq::<Seq<char>>::empty());
        } else if d[0] == c[0] {
            let dd = d.drop_first();
            assert(folder_at(after, d) == folder_at(entry.node, dd));
            assert(cd.drop_last() =~= dir.drop_first());
            assert(cd.last() == c.last());
            assert(d.is_prefix_of(dir) == dd.is_prefix_of(cd.drop_last())) by {
                if d.is_prefix_of(dir) {
                    assert(dd =~= cd.drop_last().subrange(0, dd.len() as int));
                }
                if dd.is_prefix_of(cd.drop_last()) {
                    assert forall|k: int| 0 <= k < d.len() implies d[k] == dir[k] by {
                        if k > 0 {
                            assert(d[k] == dd[k - 1]);
                            assert(dd[k - 1] == cd.drop_last()[k - 1]);
                        }
                    }
                    assert(d =~= dir.subrange(0, d.len() as int));
                }
            }
            assert((d == dir) == (dd == cd.drop_last())) by {
                if dd == cd.drop_last() {
                    assert(d =~= dir);
                }
            }
            assert(folder_at(after, d) is Some == (folder_at(old_entry.node, dd) is Some
                || dd.is_prefix_of(cd.drop_last())));
            if found {
                assert(folder_at(before, d) == folder_at(old_entry.node, dd));
            } else {
                assert(child_named(before, c[0]) is None);
                assert(folder_at(before, d) is None);
                lemma_empty_folder_at(old_entry.node, dd);
                if dd.len() == 0 {
                    assert(dd.is_prefix_of(cd.drop_last()));
                    assert(files_or_empty(folder_at(old_entry.node, dd)) =~= Seq::<Seq<char>>::empty());
                }
            }
        } else {
            assert(child_named(after, d[0]) == child_named(before, d[0]));
            assert(folder_at(after, d) == folder_at(before, d));
            assert(!d.is_prefix_of(dir)) by {
                if d.is_prefix_of(dir) {
                    assert(d[0] == dir[0]);
                }
            }
            assert(d != dir);
            if folder_at(after, d) is Some {
                assert(views(folder_at(after, d)->0.files@) =~= files_or_empty(folder_at(before, d))
                    + Seq::<Seq<char>>::empty());
            }
        }
    }
}

} // verus!
