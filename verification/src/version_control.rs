//! The change ledger: an upsert store of changes keyed by identifier, a
//! derived history of version snapshots, and pure rollback-target lookups.

use vstd::prelude::*;
use vstd::seq_lib::group_to_multiset_ensures;
use vstd::multiset::group_multiset_axioms;
use vstd::string::StringExecFns;
use crate::agents::clone_strings;
use crate::ids::now_millis;
use crate::ids::now_secs;
use crate::ids::stamped_label;
use crate::text::clone_string_pairs;
use crate::text::spec_decimal_i64;
use crate::text::str_eq;

verus! {

/// The kinds of file mutation a change can describe.
#[derive(Debug, Clone, Copy, PartialEq, Eq, Structural)]
pub enum ChangeType {
    Create,
    Modify,
    Delete,
    Optimize,
    AddFeature,
    UpdateContent,
    UpdateStyle,
    AddImage,
    AddModule,
}

/// The mathematical content of a [`Change`].
#[verifier::ext_equal]
pub ghost struct ChangeView {
    pub id: Seq<char>,
    pub timestamp: int,
    pub agent_id: Seq<char>,
    pub agent_type: Seq<char>,
    pub file_path: Seq<char>,
    pub change_type: ChangeType,
    pub before: Seq<char>,
    pub after: Seq<char>,
    pub metadata: Seq<(Seq<char>, Seq<char>)>,
    pub evaluation_score: Option<u32>,
}

/// A recorded file mutation: full before and after snapshots plus
/// provenance.  `timestamp` is in milliseconds; `evaluation_score` is in
/// hundredths of a unit and stays `None` until the change is evaluated.
#[derive(Debug, Clone)]
pub struct Change {
    pub id: String,
    pub timestamp: i64,
    pub agent_id: String,
    pub agent_type: String,
    pub file_path: String,
    pub change_type: ChangeType,
    pub before: String,
    pub after: String,
    pub metadata: Vec<(String, String)>,
    pub evaluation_score: Option<u32>,
}

impl View for Change {
    type V = ChangeView;

    open spec fn view(&self) -> ChangeView {
        ChangeView {
            id: self.id@,
            timestamp: self.timestamp as int,
            agent_id: self.agent_id@,
            agent_type: self.agent_type@,
            file_path: self.file_path@,
            change_type: self.change_type,
            before: self.before@,
            after: self.after@,
            metadata: self.metadata.deep_view(),
            evaluation_score: self.evaluation_score,
        }
    }
}

impl DeepView for Change {
    type V = ChangeView;

    open spec fn deep_view(&self) -> ChangeView {
        self.view()
    }
}

impl Change {
    /// A copy of this change, equal to it in every field.
    pub fn duplicate(&self) -> (c: Change)
        ensures
            c@ == self@,
    {
        let c = Change {
            id: self.id.clone(),
            timestamp: self.timestamp,
            agent_id: self.agent_id.clone(),
            agent_type: self.agent_type.clone(),
            file_path: self.file_path.clone(),
            change_type: self.change_type,
            before: self.before.clone(),
            after: self.after.clone(),
            metadata: clone_string_pairs(&self.metadata),
            evaluation_score: self.evaluation_score,
        };
        proof {
            assert(c@ =~~= self@);
        }
        c
    }
}

/// The mathematical content of a [`VersionSnapshot`].
#[verifier::ext_equal]
pub ghost struct VersionSnapshotView {
    pub version_id: Seq<char>,
    pub timestamp: int,
    pub changes: Seq<Seq<char>>,
    pub total_files_changed: int,
    pub description: Seq<char>,
}

/// A named point-in-time view over the ledger: the identifiers of the
/// changes it includes, and how many there were.
#[derive(Debug, Clone)]
pub struct VersionSnapshot {
    pub version_id: String,
    pub timestamp: i64,
    pub changes: Vec<String>,
    pub total_files_changed: usize,
    pub description: String,
}

impl View for VersionSnapshot {
    type V = VersionSnapshotView;

    open spec fn view(&self) -> VersionSnapshotView {
        VersionSnapshotView {
            version_id: self.version_id@,
            timestamp: self.timestamp as int,
            changes: self.changes.deep_view(),
            total_files_changed: self.total_files_changed as int,
            description: self.description@,
        }
    }
}

impl DeepView for VersionSnapshot {
    type V = VersionSnapshotView;

    open spec fn deep_view(&self) -> VersionSnapshotView {
        self.view()
    }
}

impl VersionSnapshot {
    /// A copy of this snapshot, equal to it in every field.
    pub fn duplicate(&self) -> (s: VersionSnapshot)
        ensures
            s@ == self@,
    {
        let s = VersionSnapshot {
            version_id: self.version_id.clone(),
            timestamp: self.timestamp,
            changes: clone_strings(&self.changes),
            total_files_changed: self.total_files_changed,
            description: self.description.clone(),
        };
        proof {
            assert(s@ =~~= self@);
        }
        s
    }
}

/// Some change in `s` carries the identifier `id`.
pub open spec fn has_id(s: Seq<ChangeView>, id: Seq<char>) -> bool {
    exists|i: int| 0 <= i < s.len() && s[i].id == id
}

/// The change in `s` carrying `id`, when identifiers are unique.
pub open spec fn find_change(s: Seq<ChangeView>, id: Seq<char>) -> Option<ChangeView> {
    if has_id(s, id) {
        Some(s[choose|i: int| 0 <= i < s.len() && s[i].id == id])
    } else {
        None
    }
}

/// An upsert of `c` into the ledger: the entry with the same identifier is
/// overwritten in place, or `c` is appended when the identifier is new.
pub open spec fn upserted(pre: Seq<ChangeView>, post: Seq<ChangeView>, c: ChangeView) -> bool {
    if has_id(pre, c.id) {
        exists|i: int| 0 <= i < pre.len() && pre[i].id == c.id && post == pre.update(i, c)
    } else {
        post == pre.push(c)
    }
}

/// A change belongs in a snapshot when its score is absent or above half.
pub open spec fn snapshot_included(c: ChangeView) -> bool {
    c.evaluation_score is None || c.evaluation_score->0 > 50
}

/// The identifiers of the changes a snapshot of `s` includes, in ledger
/// order.
pub open spec fn snapshot_ids(s: Seq<ChangeView>) -> Seq<Seq<char>>
    decreases s.len(),
{
    if s.len() == 0 {
        Seq::empty()
    } else {
        snapshot_ids(s.drop_last()) + if snapshot_included(s.last()) {
            seq![s.last().id]
        } else {
            Seq::empty()
        }
    }
}

/// The changes of `s` named by `ids`, in that order, skipping identifiers
/// that name no change.
pub open spec fn lookup_all(s: Seq<ChangeView>, ids: Seq<Seq<char>>) -> Seq<ChangeView>
    decreases ids.len(),
{
    if ids.len() == 0 {
        Seq::empty()
    } else {
        lookup_all(s, ids.drop_last()) + match find_change(s, ids.last()) {
            Some(c) => seq![c],
            None => Seq::empty(),
        }
    }
}

/// `s` is ordered newest first.
pub open spec fn sorted_newest_first(s: Seq<ChangeView>) -> bool {
    forall|p: int, q: int| 0 <= p < q < s.len() ==> s[p].timestamp >= s[q].timestamp
}

/// Identifiers never repeat in `s`.
pub open spec fn unique_ids(s: Seq<ChangeView>) -> bool {
    forall|i: int, j: int| 0 <= i < j < s.len() ==> #[trigger] s[i].id != #[trigger] s[j].id
}

/// Recording a change and then looking its identifier up gives that very
/// change back: the round trip through the ledger is the identity.
pub proof fn lemma_record_then_get(pre: Seq<ChangeView>, post: Seq<ChangeView>, c: ChangeView)
    requires
        unique_ids(pre),
        upserted(pre, post, c),
    ensures
        find_change(post, c.id) == Some(c),
{
    if has_id(pre, c.id) {
        let i = choose|i: int| 0 <= i < pre.len() && pre[i].id == c.id && post == pre.update(i, c);
        assert(post[i].id == c.id);
        assert(has_id(post, c.id));
        let w = choose|k: int| 0 <= k < post.len() && post[k].id == c.id;
        if w != i {
            assert(post[w] == pre[w]);
            assert(pre[i].id == c.id);
            assert(pre[w].id != pre[i].id);
            assert(false);
        }
    } else {
        assert(post == pre.push(c));
        assert(post[pre.len() as int].id == c.id);
        assert(has_id(post, c.id));
        let w = choose|k: int| 0 <= k < post.len() && post[k].id == c.id;
        if w != pre.len() as int {
            assert(post[w] == pre[w]);
            assert(!has_id(pre, c.id));
            assert(pre[w].id != c.id);
            assert(false);
        }
    }
}

/// A snapshot includes exactly the identifiers of the changes whose score
/// is absent or above half: nothing else gets in, and none of those are
/// left out.
pub proof fn lemma_snapshot_membership(s: Seq<ChangeView>)
    ensures
        forall|id: Seq<char>|
            #[trigger] snapshot_ids(s).contains(id) <==> exists|i: int|
                0 <= i < s.len() && #[trigger] s[i].id == id && snapshot_included(s[i]),
    decreases s.len(),
{
    if s.len() == 0 {
        assert forall|id: Seq<char>| !(#[trigger] snapshot_ids(s).contains(id)) by {
            assert(snapshot_ids(s).len() == 0);
        }
    } else {
        let pre = s.drop_last();
        lemma_snapshot_membership(pre);
        assert forall|id: Seq<char>|
            #[trigger] snapshot_ids(s).contains(id) <==> exists|i: int|
                0 <= i < s.len() && #[trigger] s[i].id == id && snapshot_included(s[i]) by {
            let tail: Seq<Seq<char>> = if snapshot_included(s.last()) {
                seq![s.last().id]
            } else {
                Seq::empty()
            };
            assert(snapshot_ids(s) == snapshot_ids(pre) + tail);
            if snapshot_ids(s).contains(id) {
                let k = choose|k: int|
                    0 <= k < snapshot_ids(s).len() && snapshot_ids(s)[k] == id;
                if k < snapshot_ids(pre).len() {
                    assert(snapshot_ids(pre).contains(id)) by {
                        assert(snapshot_ids(pre)[k] == id);
                    }
                    let i = choose|i: int|
                        0 <= i < pre.len() && #[trigger] pre[i].id == id && snapshot_included(
                            pre[i],
                        );
                    assert(s[i].id == id && snapshot_included(s[i]));
                } else {
                    assert(tail[k - snapshot_ids(pre).len()] == id);
                    assert(snapshot_included(s.last()));
                    assert(s[s.len() - 1].id == id && snapshot_included(s[s.len() - 1]));
                }
            }
            if exists|i: int|
                0 <= i < s.len() && #[trigger] s[i].id == id && snapshot_included(s[i]) {
                let i = choose|i: int|
                    0 <= i < s.len() && #[trigger] s[i].id == id && snapshot_included(s[i]);
                if i < pre.len() {
                    assert(pre[i].id == id && snapshot_included(pre[i]));
                    assert(snapshot_ids(pre).contains(id));
                    let k = choose|k: int|
                        0 <= k < snapshot_ids(pre).len() && snapshot_ids(pre)[k] == id;
                    assert(snapshot_ids(s)[k] == id);
                } else {
                    assert(snapshot_included(s.last()));
                    assert(snapshot_ids(s)[snapshot_ids(pre).len() as int] == id);
                }
            }
        }
    }
}

/// The rollback-target lookup is idempotent: for one ledger state and one
/// identifier, any two successful lookups hand back the same change.
pub proof fn lemma_rollback_lookup_idempotent(
    changes: Seq<ChangeView>,
    id: Seq<char>,
    r1: ChangeView,
    r2: ChangeView,
)
    requires
        find_change(changes, id) == Some(r1),
        find_change(changes, id) == Some(r2),
    ensures
        r1 == r2,
{
}

/// The ledger: recorded changes, the snapshot history, and the current
/// version pointer.
pub struct VersionControl {
    changes: Vec<Change>,
    versions: Vec<VersionSnapshot>,
    current_version: String,
    base_path: String,
}

impl VersionControl {
    /// The recorded changes, oldest first.
    pub closed spec fn changes(&self) -> Seq<ChangeView> {
        self.changes.deep_view()
    }

    /// The snapshot history, oldest first.
    pub closed spec fn versions(&self) -> Seq<VersionSnapshotView> {
        self.versions.deep_view()
    }

    /// The identifier of the current version.
    pub closed spec fn current(&self) -> Seq<char> {
        self.current_version@
    }

    /// The root the ledger was opened over.
    pub closed spec fn base(&self) -> Seq<char> {
        self.base_path@
    }

    /// Change identifiers never repeat.
    pub open spec fn wf(&self) -> bool {
        unique_ids(self.changes())
    }

    /// An empty ledger over `base_path`, with a version label drawn from
    /// the clock.
    pub fn new(base_path: String) -> (v: VersionControl)
        ensures
            v.wf(),
            v.changes() =~= Seq::<ChangeView>::empty(),
            v.versions() =~= Seq::<VersionSnapshotView>::empty(),
            v.base() == base_path@,
            exists|t: int| v.current() == "v"@ + spec_decimal_i64(t),
    {
        let stamp = now_secs();
        VersionControl {
            changes: Vec::new(),
            versions: Vec::new(),
            current_version: stamped_label("v", stamp),
            base_path,
        }
    }

    /// Upserts `change` and hands back its identifier.
    pub fn record_change(&mut self, change: Change) -> (id: String)
        requires
            old(self).wf(),
        ensures
            final(self).wf(),
            id@ == change@.id,
            upserted(old(self).changes(), final(self).changes(), change@),
            final(self).versions() == old(self).versions(),
            final(self).current() == old(self).current(),
    {
        let id = change.id.clone();
        let n = self.changes.len();
        let mut i: usize = 0;
        while i < n
            invariant
                i <= n,
                n == self.changes@.len(),
                *self == *old(self),
                old(self).wf(),
                id@ == change@.id,
                forall|j: int| 0 <= j < i ==> self.changes()[j].id != change@.id,
            decreases n - i,
        {
            if str_eq(self.changes[i].id.as_str(), id.as_str()) {
                proof {
                    assert(self.changes()[i as int].id == change@.id);
                    assert(has_id(self.changes(), change@.id));
                }
                let ghost pre = self.changes();
                proof {
                    assert(forall|p: int, q: int|
                        0 <= p < q < pre.len() ==> #[trigger] pre[p].id != #[trigger] pre[q].id);
                }
                self.changes[i] = change;
                proof {
                    let post = self.changes();
                    assert(post =~= pre.update(i as int, change@));
                    assert forall|p: int, q: int|
                        0 <= p < q < post.len() implies post[p].id != post[q].id by {
                        assert(pre[p].id != pre[q].id);
                        assert(pre[i as int].id == change@.id);
                    }
                    assert(upserted(pre, post, change@));
                }
                return id;
            }
            i += 1;
        }
        proof {
            assert(!has_id(self.changes(), change@.id));
        }
        let ghost pre = self.changes();
        self.changes.push(change);
        proof {
            let post = self.changes();
            assert(post =~= pre.push(change@));
            assert forall|p: int, q: int|
                0 <= p < q < post.len() implies post[p].id != post[q].id by {
                if q < pre.len() {
                    assert(pre[p].id != pre[q].id);
                } else {
                    assert(pre[p].id != change@.id);
                }
            }
        }
        id
    }

    /// Looks a change up by identifier; a copy of the stored entry.
    pub fn get_change(&self, change_id: &str) -> (r: Option<Change>)
        requires
            self.wf(),
        ensures
            r is Some <==> has_id(self.changes(), change_id@),
            r is Some ==> find_change(self.changes(), change_id@) == Some(r->0@),
    {
        let n = self.changes.len();
        let mut i: usize = 0;
        while i < n
            invariant
                i <= n,
                n == self.changes@.len(),
                self.wf(),
                forall|j: int| 0 <= j < i ==> self.changes()[j].id != change_id@,
            decreases n - i,
        {
            if str_eq(self.changes[i].id.as_str(), change_id) {
                let found = self.changes[i].duplicate();
                proof {
                    assert(self.changes()[i as int].id == change_id@);
                    assert(has_id(self.changes(), change_id@));
                    let w = choose|k: int|
                        0 <= k < self.changes().len() && self.changes()[k].id == change_id@;
                    assert(w == i as int);
                }
                return Some(found);
            }
            i += 1;
        }
        None
    }

    /// Builds a snapshot of every change whose score is absent or above
    /// half, appends it to the history, and points the current version at
    /// it.
    pub fn create_snapshot(&mut self, description: String) -> (version_id: String)
        requires
            old(self).wf(),
        ensures
            final(self).wf(),
            final(self).changes() == old(self).changes(),
            final(self).versions().len() == old(self).versions().len() + 1,
            final(self).versions().take(old(self).versions().len() as int) == old(self).versions(),
            ({
                let snap = final(self).versions().last();
                &&& snap.changes == snapshot_ids(old(self).changes())
                &&& snap.total_files_changed == snap.changes.len()
                &&& snap.description == description@
                &&& snap.version_id == "v"@ + spec_decimal_i64(snap.timestamp)
                &&& snap.version_id == version_id@
            }),
            final(self).current() == version_id@,
    {
        let stamp = now_millis();
        let version_id = stamped_label("v", stamp);
        let mut included: Vec<String> = Vec::new();
        let n = self.changes.len();
        let mut i: usize = 0;
        while i < n
            invariant
                i <= n,
                n == self.changes@.len(),
                *self == *old(self),
                included.deep_view() == snapshot_ids(self.changes().take(i as int)),
            decreases n - i,
        {
            proof {
                assert(self.changes().take(i + 1).drop_last() =~= self.changes().take(i as int));
                assert(self.changes().take(i + 1).last() == self.changes()[i as int]);
            }
            let keep = match self.changes[i].evaluation_score {
                Option::None => true,
                Option::Some(score) => score > 50,
            };
            if keep {
                let entry_id = self.changes[i].id.clone();
                included.push(entry_id);
            }
            proof {
                assert(included.deep_view() =~= snapshot_ids(self.changes().take(i + 1)));
            }
            i += 1;
        }
        proof {
            assert(self.changes().take(n as int) =~= self.changes());
        }
        let count = included.len();
        let snapshot = VersionSnapshot {
            version_id: version_id.clone(),
            timestamp: stamp,
            changes: included,
            total_files_changed: count,
            description,
        };
        self.versions.push(snapshot);
        self.current_version = version_id.clone();
        proof {
            assert(final(self).versions() =~= old(self).versions().push(
                final(self).versions().last(),
            ));
            assert(final(self).versions().take(old(self).versions().len() as int) =~= old(
                self,
            ).versions());
            assert(final(self).changes() =~= old(self).changes());
        }
        version_id
    }

    /// The changes a recorded version names, in snapshot order; an error
    /// naming the version when it is unknown.
    pub fn rollback_to_version(&self, version_id: &str) -> (r: Result<Vec<Change>, String>)
        requires
            self.wf(),
        ensures
            r is Ok <==> exists|v: int|
                0 <= v < self.versions().len() && self.versions()[v].version_id == version_id@,
            r is Ok ==> exists|v: int|
                {
                    &&& 0 <= v < self.versions().len()
                    &&& self.versions()[v].version_id == version_id@
                    &&& forall|u: int|
                        0 <= u < v ==> self.versions()[u].version_id != version_id@
                    &&& r->Ok_0.deep_view() == lookup_all(
                        self.changes(),
                        self.versions()[v].changes,
                    )
                },
            r is Err ==> r->Err_0@ == "Version "@ + version_id@ + " not found"@,
    {
        let vn = self.versions.len();
        let mut v: usize = 0;
        while v < vn
            invariant
                v <= vn,
                vn == self.versions@.len(),
                self.wf(),
                forall|u: int| 0 <= u < v ==> self.versions()[u].version_id != version_id@,
            decreases vn - v,
        {
            if str_eq(self.versions[v].version_id.as_str(), version_id) {
                let ids = &self.versions[v].changes;
                let mut out: Vec<Change> = Vec::new();
                let m = ids.len();
                let mut j: usize = 0;
                while j < m
                    invariant
                        j <= m,
                        m == ids@.len(),
                        self.wf(),
                        v < self.versions@.len(),
                        ids == &self.versions@[v as int].changes,
                        out.deep_view() == lookup_all(
                            self.changes(),
                            ids.deep_view().take(j as int),
                        ),
                    decreases m - j,
                {
                    proof {
                        assert(ids.deep_view().take(j + 1).drop_last() =~= ids.deep_view().take(
                            j as int,
                        ));
                        assert(ids.deep_view().take(j + 1).last() == ids@[j as int]@);
                    }
                    match self.get_change(ids[j].as_str()) {
                        Option::Some(c) => {
                            out.push(c);
                        },
                        Option::None => {},
                    }
                    proof {
                        assert(out.deep_view() =~= lookup_all(
                            self.changes(),
                            ids.deep_view().take(j + 1),
                        ));
                    }
                    j += 1;
                }
                proof {
                    assert(ids.deep_view().take(m as int) =~= ids.deep_view());
                    assert(self.versions()[v as int].version_id == version_id@);
                    assert(self.versions()[v as int].changes == ids.deep_view());
                }
                return Ok(out);
            }
            v += 1;
        }
        let mut message = String::from_str("Version ");
        message.append(version_id);
        message.append(" not found");
        proof {
            assert(message@ =~= "Version "@ + version_id@ + " not found"@);
        }
        Err(message)
    }

    /// The change to restore for `change_id`: a pure lookup that never
    /// touches the ledger, or an error naming the identifier.
    pub fn rollback_change(&self, change_id: &str) -> (r: Result<Change, String>)
        requires
            self.wf(),
        ensures
            r is Ok <==> has_id(self.changes(), change_id@),
            r is Ok ==> find_change(self.changes(), change_id@) == Some(r->Ok_0@),
            r is Err ==> r->Err_0@ == "Change "@ + change_id@ + " not found"@,
    {
        match self.get_change(change_id) {
            Option::Some(c) => Ok(c),
            Option::None => {
                let mut message = String::from_str("Change ");
                message.append(change_id);
                message.append(" not found");
                proof {
                    assert(message@ =~= "Change "@ + change_id@ + " not found"@);
                }
                Err(message)
            },
        }
    }

    /// Copies of every recorded change, in ledger order.
    pub fn get_all_changes(&self) -> (r: Vec<Change>)
        ensures
            r.deep_view() == self.changes(),
    {
        let mut r: Vec<Change> = Vec::new();
        let n = self.changes.len();
        let mut i: usize = 0;
        while i < n
            invariant
                i <= n,
                n == self.changes@.len(),
                r.deep_view() == self.changes().take(i as int),
            decreases n - i,
        {
            let copy = self.changes[i].duplicate();
            let ghost pre_out = r.deep_view();
            r.push(copy);
            proof {
                assert(r.deep_view() =~= pre_out.push(copy@));
                assert(r.deep_view() =~= self.changes().take(i + 1));
            }
            i += 1;
        }
        proof {
            assert(self.changes().take(n as int) =~= self.changes());
        }
        r
    }

    /// The `limit` newest changes, newest first.  Everything left out is no
    /// newer than anything returned.
    pub fn get_recent_changes(&self, limit: usize) -> (r: Vec<Change>)
        ensures
            sorted_newest_first(r.deep_view()),
            r.deep_view().len() == if limit <= self.changes().len() {
                limit as int
            } else {
                self.changes().len() as int
            },
            forall|c: ChangeView|
                #[trigger] r.deep_view().to_multiset().count(c) <= self.changes().to_multiset().count(c),
            forall|c: ChangeView|
                self.changes().to_multiset().count(c) > #[trigger] r.deep_view().to_multiset().count(c)
                    ==> forall|k: int|
                    0 <= k < r.deep_view().len() ==> r.deep_view()[k].timestamp >= c.timestamp,
    {
        broadcast use group_to_multiset_ensures;
        broadcast use group_multiset_axioms;

        let mut rest = self.get_all_changes();
        let mut out: Vec<Change> = Vec::new();
        while out.len() < limit && rest.len() > 0
            invariant
                out@.len() <= limit,
                out@.len() + rest@.len() == self.changes().len(),
                sorted_newest_first(out.deep_view()),
                out.deep_view().to_multiset().add(rest.deep_view().to_multiset())
                    == self.changes().to_multiset(),
                forall|p: int, q: int|
                    0 <= p < out@.len() && 0 <= q < rest@.len() ==> out.deep_view()[p].timestamp
                        >= rest.deep_view()[q].timestamp,
            decreases rest@.len(),
        {
            let mut best: usize = 0;
            let mut j: usize = 1;
            while j < rest.len()
                invariant
                    1 <= j <= rest@.len(),
                    best < j,
                    forall|k: int|
                        0 <= k < j ==> rest.deep_view()[best as int].timestamp
                            >= rest.deep_view()[k].timestamp,
                decreases rest@.len() - j,
            {
                if rest[j].timestamp > rest[best].timestamp {
                    best = j;
                }
                j += 1;
            }
            let ghost pre_rest = rest.deep_view();
            let ghost pre_out = out.deep_view();
            let picked = rest.remove(best);
            proof {
                pre_rest.to_multiset_ensures();
                pre_out.to_multiset_ensures();
                assert(rest.deep_view() =~= pre_rest.remove(best as int));
                assert(pre_rest[best as int] == picked@);
                assert(pre_rest.to_multiset().count(picked@) > 0) by {
                    assert(pre_rest.contains(picked@)) by {
                        assert(pre_rest[best as int] == picked@);
                    }
                }
            }
            out.push(picked);
            proof {
                pre_rest.to_multiset_ensures();
                pre_out.to_multiset_ensures();
                assert(out.deep_view() =~= pre_out.push(picked@));
                assert(out.deep_view().to_multiset().add(rest.deep_view().to_multiset()) =~= self
                    .changes()
                    .to_multiset());
            }
        }
        out
    }

    /// The identifier of the current version.
    pub fn get_current_version(&self) -> (r: String)
        ensures
            r@ == self.current(),
    {
        self.current_version.clone()
    }

    /// Copies of every snapshot, oldest first.
    pub fn get_version_history(&self) -> (r: Vec<VersionSnapshot>)
        ensures
            r.deep_view() == self.versions(),
    {
        let mut r: Vec<VersionSnapshot> = Vec::new();
        let n = self.versions.len();
        let mut i: usize = 0;
        while i < n
            invariant
                i <= n,
                n == self.versions@.len(),
                r.deep_view() == self.versions().take(i as int),
            decreases n - i,
        {
            let copy = self.versions[i].duplicate();
            let ghost pre_out = r.deep_view();
            r.push(copy);
            proof {
                assert(r.deep_view() =~= pre_out.push(copy@));
                assert(r.deep_view() =~= self.versions().take(i + 1));
            }
            i += 1;
        }
        proof {
            assert(self.versions().take(n as int) =~= self.versions());
        }
        r
    }
}

} // verus!
