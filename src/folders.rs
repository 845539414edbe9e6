//! The set of workspace folders the server is scoped to.

use vstd::prelude::*;

verus! {

/// A root folder of the workspace.
#[derive(Clone, Debug)]
pub struct WorkspaceFolder {
    pub uri: String,
    pub name: String,
}

impl WorkspaceFolder {
    pub open spec fn view(&self) -> (Seq<char>, Seq<char>) {
        (self.uri@, self.name@)
    }
}

impl WorkspaceFolder {
    /// A copy of this folder.
    pub fn duplicate(&self) -> (r: WorkspaceFolder)
        ensures
            r.view() == self.view(),
    {
        WorkspaceFolder { uri: self.uri.clone(), name: self.name.clone() }
    }
}

impl PartialEq for WorkspaceFolder {
    fn eq(&self, other: &WorkspaceFolder) -> (r: bool) {
        self.uri == other.uri && self.name == other.name
    }
}

impl vstd::std_specs::cmp::PartialEqSpecImpl for WorkspaceFolder {
    open spec fn obeys_eq_spec() -> bool {
        true
    }

    open spec fn eq_spec(&self, other: &WorkspaceFolder) -> bool {
        self.view() == other.view()
    }
}

/// The views of a list of folders.
pub open spec fn folder_views(v: Seq<WorkspaceFolder>) -> Seq<(Seq<char>, Seq<char>)> {
    v.map_values(|f: WorkspaceFolder| f.view())
}

/// `folders` without every folder that `removed` holds, order kept.
pub open spec fn without(folders: Seq<(Seq<char>, Seq<char>)>, removed: Seq<(Seq<char>, Seq<char>)>) -> Seq<
    (Seq<char>, Seq<char>),
> {
    folders.filter(|f: (Seq<char>, Seq<char>)| !removed.contains(f))
}

/// The workspace folders, in the order they were added.
pub struct WorkspaceFolders {
    pub folders: Vec<WorkspaceFolder>,
}

impl WorkspaceFolders {
    pub open spec fn view(&self) -> Seq<(Seq<char>, Seq<char>)> {
        folder_views(self.folders@)
    }

    /// No folders.
    pub fn new() -> (r: WorkspaceFolders)
        ensures
            r.view() == Seq::<(Seq<char>, Seq<char>)>::empty(),
    {
        let r = WorkspaceFolders { folders: Vec::new() };
        assert(r.view() =~= Seq::<(Seq<char>, Seq<char>)>::empty());
        r
    }

    /// Applies one change in a single step: first every folder in `removed`
    /// goes, then every folder of `added` is appended, in order.
    pub fn apply_change(&mut self, added: Vec<WorkspaceFolder>, removed: &Vec<WorkspaceFolder>)
        ensures
            final(self).view() == without(old(self).view(), folder_views(removed@)) + folder_views(added@),
    {
        let ghost rm = folder_views(removed@);
        let ghost start = self.view();
        let mut kept: Vec<WorkspaceFolder> = Vec::new();
        let mut i: usize = 0;
        while i < self.folders.len()
            invariant
                i <= self.folders@.len(),
                start == folder_views(self.folders@),
                rm == folder_views(removed@),
                folder_views(kept@) == without(start.subrange(0, i as int), rm),
            decreases self.folders@.len() - i,
        {
            let f = &self.folders[i];
            let mut found = false;
            let mut j: usize = 0;
            while j < removed.len()
                invariant
                    j <= removed@.len(),
                    rm == folder_views(removed@),
                    found <==> exists|k: int| 0 <= k < j && rm[k] == f.view(),
                decreases removed@.len() - j,
            {
                assert(rm[j as int] == removed@[j as int].view());
                if removed[j] == *f {
                    found = true;
                }
                j = j + 1;
            }
            assert(found <==> rm.contains(f.view()));
            let ghost prev = start.subrange(0, i as int);
            assert(start.subrange(0, i as int + 1) =~= prev.push(f.view()));
            proof {
                prev.lemma_filter_push(f.view(), |g: (Seq<char>, Seq<char>)| !rm.contains(g));
            }
            let ghost kept_before = kept@;
            if !found {
                kept.push(f.duplicate());
                assert(folder_views(kept@) =~= folder_views(kept_before).push(f.view()));
            }
            assert(folder_views(kept@) =~= without(start.subrange(0, i as int + 1), rm));
            i = i + 1;
        }
        assert(start.subrange(0, i as int) =~= start);
        let ghost base = folder_views(kept@);
        let mut k: usize = 0;
        while k < added.len()
            invariant
                k <= added@.len(),
                folder_views(kept@) == base + folder_views(added@.subrange(0, k as int)),
            decreases added@.len() - k,
        {
            let ghost kept_before = kept@;
            kept.push(added[k].duplicate());
            assert(folder_views(kept@) =~= folder_views(kept_before).push(added@[k as int].view()));
            assert(folder_views(added@.subrange(0, k as int + 1)) =~= folder_views(added@.subrange(0, k as int)).push(
                added@[k as int].view(),
            ));
            assert(folder_views(kept@) =~= base + folder_views(added@.subrange(0, k as int + 1)));
            k = k + 1;
        }
        assert(added@.subrange(0, k as int) =~= added@);
        self.folders = kept;
    }
}

} // verus!
