//! Applying and rolling back changes against a file tree.  The tree is
//! modelled in memory as a path-to-content store, so the dispatch rules are
//! verified; writing an actual disk is left to callers.

use vstd::prelude::*;
use vstd::string::StringExecFns;
use crate::ids::fresh_id;
use crate::ids::now_millis;
use crate::text::str_eq;
use crate::version_control::Change;
use crate::version_control::ChangeType;

verus! {

/// Some entry in `s` carries the path `path`.
pub open spec fn has_path(s: Seq<(Seq<char>, Seq<char>)>, path: Seq<char>) -> bool {
    exists|i: int| 0 <= i < s.len() && s[i].0 == path
}

/// The content stored under `path`, when paths are unique.
pub open spec fn store_lookup(s: Seq<(Seq<char>, Seq<char>)>, path: Seq<char>) -> Option<
    Seq<char>,
> {
    if has_path(s, path) {
        Some(s[choose|i: int| 0 <= i < s.len() && s[i].0 == path].1)
    } else {
        None
    }
}

/// Paths never repeat.
pub open spec fn store_wf(s: Seq<(Seq<char>, Seq<char>)>) -> bool {
    forall|i: int, j: int| 0 <= i < j < s.len() ==> #[trigger] s[i].0 != #[trigger] s[j].0
}

/// Every path but `path` keeps its content from `pre` to `post`.
pub open spec fn store_agrees_except(
    pre: Seq<(Seq<char>, Seq<char>)>,
    post: Seq<(Seq<char>, Seq<char>)>,
    path: Seq<char>,
) -> bool {
    forall|p: Seq<char>| p != path ==> #[trigger] store_lookup(post, p) == store_lookup(pre, p)
}

proof fn lemma_update_lookup(
    pre: Seq<(Seq<char>, Seq<char>)>,
    post: Seq<(Seq<char>, Seq<char>)>,
    i: int,
    entry: (Seq<char>, Seq<char>),
)
    requires
        store_wf(pre),
        0 <= i < pre.len(),
        pre[i].0 == entry.0,
        post == pre.update(i, entry),
    ensures
        store_wf(post),
        store_lookup(post, entry.0) == Some(entry.1),
        store_agrees_except(pre, post, entry.0),
{
    assert forall|p: int, q: int| 0 <= p < q < post.len() implies #[trigger] post[p].0
        != #[trigger] post[q].0 by {
        assert(pre[p].0 != pre[q].0);
    }
    assert(post[i].0 == entry.0);
    let w = choose|k: int| 0 <= k < post.len() && post[k].0 == entry.0;
    assert(w == i);
    assert forall|p: Seq<char>| p != entry.0 implies #[trigger] store_lookup(post, p)
        == store_lookup(pre, p) by {
        if has_path(pre, p) {
            let k = choose|k: int| 0 <= k < pre.len() && pre[k].0 == p;
            assert(post[k].0 == p);
            assert(has_path(post, p));
            let k2 = choose|k2: int| 0 <= k2 < post.len() && post[k2].0 == p;
            assert(post[k2].0 == pre[k2].0);
            assert(k == k2);
        } else {
            assert forall|k: int| 0 <= k < post.len() implies post[k].0 != p by {
                if k != i {
                    assert(pre[k].0 != p);
                }
            }
        }
    }
}

proof fn lemma_push_lookup(
    pre: Seq<(Seq<char>, Seq<char>)>,
    post: Seq<(Seq<char>, Seq<char>)>,
    entry: (Seq<char>, Seq<char>),
)
    requires
        store_wf(pre),
        !has_path(pre, entry.0),
        post == pre.push(entry),
    ensures
        store_wf(post),
        store_lookup(post, entry.0) == Some(entry.1),
        store_agrees_except(pre, post, entry.0),
{
    assert forall|p: int, q: int| 0 <= p < q < post.len() implies #[trigger] post[p].0
        != #[trigger] post[q].0 by {
        if q < pre.len() {
            assert(pre[p].0 != pre[q].0);
        } else {
            assert(pre[p].0 != entry.0);
        }
    }
    assert(post[pre.len() as int].0 == entry.0);
    let w = choose|k: int| 0 <= k < post.len() && post[k].0 == entry.0;
    assert(w == pre.len() as int);
    assert forall|p: Seq<char>| p != entry.0 implies #[trigger] store_lookup(post, p)
        == store_lookup(pre, p) by {
        if has_path(pre, p) {
            let k = choose|k: int| 0 <= k < pre.len() && pre[k].0 == p;
            assert(post[k].0 == p);
            assert(has_path(post, p));
            let k2 = choose|k2: int| 0 <= k2 < post.len() && post[k2].0 == p;
            assert(k == k2);
        } else {
            assert forall|k: int| 0 <= k < post.len() implies post[k].0 != p by {
                if k < pre.len() {
                    assert(pre[k].0 != p);
                }
            }
        }
    }
}

proof fn lemma_remove_lookup(
    pre: Seq<(Seq<char>, Seq<char>)>,
    post: Seq<(Seq<char>, Seq<char>)>,
    i: int,
)
    requires
        store_wf(pre),
        0 <= i < pre.len(),
        post == pre.remove(i),
    ensures
        store_wf(post),
        store_lookup(post, pre[i].0) == None::<Seq<char>>,
        store_agrees_except(pre, post, pre[i].0),
{
    assert forall|p: int, q: int| 0 <= p < q < post.len() implies #[trigger] post[p].0
        != #[trigger] post[q].0 by {
        let p0 = if p < i {
            p
        } else {
            p + 1
        };
        let q0 = if q < i {
            q
        } else {
            q + 1
        };
        assert(post[p] == pre[p0]);
        assert(post[q] == pre[q0]);
        assert(pre[p0].0 != pre[q0].0);
    }
    assert forall|k: int| 0 <= k < post.len() implies post[k].0 != pre[i].0 by {
        let k0 = if k < i {
            k
        } else {
            k + 1
        };
        assert(post[k] == pre[k0]);
        assert(pre[k0].0 != pre[i].0);
    }
    assert forall|p: Seq<char>| p != pre[i].0 implies #[trigger] store_lookup(post, p)
        == store_lookup(pre, p) by {
        if has_path(pre, p) {
            let k = choose|k: int| 0 <= k < pre.len() && pre[k].0 == p;
            assert(k != i);
            let k1 = if k < i {
                k
            } else {
                k - 1
            };
            assert(post[k1] == pre[k]);
            assert(has_path(post, p));
            let k2 = choose|k2: int| 0 <= k2 < post.len() && post[k2].0 == p;
            assert(k1 == k2);
        } else {
            assert forall|k: int| 0 <= k < post.len() implies post[k].0 != p by {
                let k0 = if k < i {
                    k
                } else {
                    k + 1
                };
                assert(post[k] == pre[k0]);
            }
        }
    }
}

/// An in-memory file tree: full content keyed by path, with unique paths.
pub struct FileStore {
    files: Vec<(String, String)>,
}

impl FileStore {
    /// The stored entries.
    pub closed spec fn files(&self) -> Seq<(Seq<char>, Seq<char>)> {
        self.files.deep_view()
    }

    /// Paths never repeat.
    pub open spec fn wf(&self) -> bool {
        store_wf(self.files())
    }

    /// An empty tree.
    pub fn new() -> (s: FileStore)
        ensures
            s.wf(),
            s.files() =~= Seq::<(Seq<char>, Seq<char>)>::empty(),
    {
        FileStore { files: Vec::new() }
    }

    /// The content under `path`, or an error when nothing is stored there.
    pub fn read_file(&self, path: &str) -> (r: Result<String, String>)
        requires
            self.wf(),
        ensures
            r is Ok <==> has_path(self.files(), path@),
            r is Ok ==> store_lookup(self.files(), path@) == Some(r->Ok_0@),
            r is Err ==> r->Err_0@ == "Failed to read file "@ + path@,
    {
        let n = self.files.len();
        let mut i: usize = 0;
        while i < n
            invariant
                i <= n,
                n == self.files@.len(),
                self.wf(),
                forall|j: int| 0 <= j < i ==> self.files()[j].0 != path@,
            decreases n - i,
        {
            if str_eq(self.files[i].0.as_str(), path) {
                proof {
                    assert(self.files()[i as int].0 == path@);
                    let w = choose|k: int|
                        0 <= k < self.files().len() && self.files()[k].0 == path@;
                    assert(w == i as int);
                }
                return Ok(self.files[i].1.clone());
            }
            i += 1;
        }
        let mut message = String::from_str("Failed to read file ");
        message.append(path);
        Err(message)
    }

    /// Stores `content` under `path`, overwriting any previous content;
    /// every other path keeps its content.
    pub fn write_file(&mut self, path: &str, content: &str)
        requires
            old(self).wf(),
        ensures
            final(self).wf(),
            store_lookup(final(self).files(), path@) == Some(content@),
            store_agrees_except(old(self).files(), final(self).files(), path@),
    {
        let n = self.files.len();
        let mut i: usize = 0;
        while i < n
            invariant
                i <= n,
                n == self.files@.len(),
                *self == *old(self),
                old(self).wf(),
                forall|j: int| 0 <= j < i ==> self.files()[j].0 != path@,
            decreases n - i,
        {
            if str_eq(self.files[i].0.as_str(), path) {
                let ghost pre = self.files();
                let entry = (path.to_owned(), content.to_owned());
                self.files[i] = entry;
                proof {
                    assert(self.files() =~= pre.update(i as int, (path@, content@)));
                    lemma_update_lookup(pre, self.files(), i as int, (path@, content@));
                }
                return ;
            }
            i += 1;
        }
        let ghost pre = self.files();
        self.files.push((path.to_owned(), content.to_owned()));
        proof {
            assert(self.files() =~= pre.push((path@, content@)));
            lemma_push_lookup(pre, self.files(), (path@, content@));
        }
    }

    /// Drops whatever is stored under `path`; every other path keeps its
    /// content.
    pub fn remove_file(&mut self, path: &str)
        requires
            old(self).wf(),
        ensures
            final(self).wf(),
            store_lookup(final(self).files(), path@) == None::<Seq<char>>,
            store_agrees_except(old(self).files(), final(self).files(), path@),
    {
        let n = self.files.len();
        let mut i: usize = 0;
        while i < n
            invariant
                i <= n,
                n == self.files@.len(),
                *self == *old(self),
                old(self).wf(),
                forall|j: int| 0 <= j < i ==> self.files()[j].0 != path@,
            decreases n - i,
        {
            if str_eq(self.files[i].0.as_str(), path) {
                let ghost pre = self.files();
                let _ = self.files.remove(i);
                proof {
                    assert(self.files() =~= pre.remove(i as int));
                    lemma_remove_lookup(pre, self.files(), i as int);
                }
                return ;
            }
            i += 1;
        }
        proof {
            assert(!has_path(self.files(), path@));
        }
    }
}

/// A change with content-bearing after state: applying it writes `after`.
pub open spec fn writes_after(kind: ChangeType) -> bool {
    !(kind is Delete)
}

/// Rolling the change back restores `before`; otherwise the file is
/// removed.
pub open spec fn restores_before(kind: ChangeType) -> bool {
    kind is Modify || kind is Optimize || kind is AddFeature || kind is UpdateContent
        || kind is UpdateStyle || kind is Delete
}

/// Builders and interpreters for changes against a file tree.
pub struct FileOperations;

impl FileOperations {
    /// A fresh change record: a new identifier, the current time, the
    /// given provenance and snapshots, empty metadata and no score yet.
    pub fn create_change(
        agent_id: &str,
        agent_type: &str,
        file_path: String,
        change_type: ChangeType,
        before: String,
        after: String,
    ) -> (c: Change)
        ensures
            c@.id.len() == 36,
            c@.agent_id == agent_id@,
            c@.agent_type == agent_type@,
            c@.file_path == file_path@,
            c@.change_type == change_type,
            c@.before == before@,
            c@.after == after@,
            c@.metadata =~= Seq::<(Seq<char>, Seq<char>)>::empty(),
            c@.evaluation_score is None,
    {
        Change {
            id: fresh_id(),
            timestamp: now_millis(),
            agent_id: agent_id.to_owned(),
            agent_type: agent_type.to_owned(),
            file_path,
            change_type,
            before,
            after,
            metadata: Vec::new(),
            evaluation_score: None,
        }
    }

    /// Applies `change` to the tree: content-bearing kinds write the after
    /// snapshot, the delete kind removes the file.  No other path moves.
    pub fn apply_change(change: &Change, store: &mut FileStore)
        requires
            old(store).wf(),
        ensures
            final(store).wf(),
            writes_after(change@.change_type) ==> store_lookup(
                final(store).files(),
                change@.file_path,
            ) == Some(change@.after),
            !writes_after(change@.change_type) ==> store_lookup(
                final(store).files(),
                change@.file_path,
            ) == None::<Seq<char>>,
            store_agrees_except(old(store).files(), final(store).files(), change@.file_path),
    {
        match change.change_type {
            ChangeType::Delete => {
                store.remove_file(change.file_path.as_str());
            },
            _ => {
                store.write_file(change.file_path.as_str(), change.after.as_str());
            },
        }
    }

    /// Rolls `change` back: kinds that replaced content restore the before
    /// snapshot, kinds that created something remove it, and a rolled-back
    /// delete restores the before snapshot.  No other path moves.
    pub fn rollback_change(change: &Change, store: &mut FileStore)
        requires
            old(store).wf(),
        ensures
            final(store).wf(),
            restores_before(change@.change_type) ==> store_lookup(
                final(store).files(),
                change@.file_path,
            ) == Some(change@.before),
            !restores_before(change@.change_type) ==> store_lookup(
                final(store).files(),
                change@.file_path,
            ) == None::<Seq<char>>,
            store_agrees_except(old(store).files(), final(store).files(), change@.file_path),
    {
        match change.change_type {
            ChangeType::Create => {
                store.remove_file(change.file_path.as_str());
            },
            ChangeType::Modify
            | ChangeType::Optimize
            | ChangeType::AddFeature
            | ChangeType::UpdateContent
            | ChangeType::UpdateStyle => {
                store.write_file(change.file_path.as_str(), change.before.as_str());
            },
            ChangeType::Delete => {
                store.write_file(change.file_path.as_str(), change.before.as_str());
            },
            ChangeType::AddImage | ChangeType::AddModule => {
                store.remove_file(change.file_path.as_str());
            },
        }
    }
}

} // verus!
