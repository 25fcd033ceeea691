//! The four operations on the references of a pull request: what each
//! asks of the repository, given the references that exist.
use crate::github::{matches_search, ref_views, Ref, RefView};
use crate::text::{decimal, decimal_text, ends_with};
use crate::version::{
    last_version, lemma_companion_carries_no_version, lemma_snapshot_carries_version,
    next_version, spec_next_version, version_of,
};
use vstd::prelude::*;

verus! {

/// One request to the repository that changes its references.
#[derive(Debug, PartialEq)]
pub enum Call {
    /// Create the reference `name`, pointing at `sha`.
    CreateRef { name: String, sha: String },
    /// Move the reference `name` to `sha`, whatever it pointed at.
    UpdateRef { name: String, sha: String },
    /// Delete the references `refs`.
    DeleteRefs { refs: Vec<Ref> },
}

/// What a [`Call`] holds, as plain text.
pub enum CallView {
    CreateRef { name: Seq<char>, sha: Seq<char> },
    UpdateRef { name: Seq<char>, sha: Seq<char> },
    DeleteRefs { refs: Seq<RefView> },
}

impl View for Call {
    type V = CallView;

    open spec fn view(&self) -> CallView {
        match self {
            Call::CreateRef { name, sha } => CallView::CreateRef { name: name@, sha: sha@ },
            Call::UpdateRef { name, sha } => CallView::UpdateRef { name: name@, sha: sha@ },
            Call::DeleteRefs { refs } => CallView::DeleteRefs { refs: ref_views(refs@) },
        }
    }
}

/// The views of the calls of `calls`, in order.
pub open spec fn call_views(calls: Seq<Call>) -> Seq<CallView> {
    calls.map_values(|call: Call| call@)
}

/// What the names of the references of pull request `pr` begin with, and
/// what is searched for to list them all: the number and a slash.
pub open spec fn pr_scope(pr: u64) -> Seq<char> {
    decimal(pr as nat) + "/"@
}

/// What is searched for to list the bookmarks of one login on `pr`.
pub open spec fn reviewer_search(pr: u64, reviewer: Seq<char>) -> Seq<char> {
    pr_scope(pr) + reviewer
}

/// What the names of the bookmarks of one login on `pr` begin with.
pub open spec fn reviewer_scope(pr: u64, reviewer: Seq<char>) -> Seq<char> {
    reviewer_search(pr, reviewer) + "-"@
}

/// The name of the pointer to the current head, under `scope`.
pub open spec fn head_name(scope: Seq<char>) -> Seq<char> {
    scope + "head"@
}

/// The name of the snapshot numbered `version`, under `scope`.
pub open spec fn version_name(scope: Seq<char>, version: nat) -> Seq<char> {
    scope + "v"@ + decimal(version)
}

/// The name of the companion of `name` that points at the base.
pub open spec fn base_name(name: Seq<char>) -> Seq<char> {
    name + "-base"@
}

/// Whether a reference called `name` is among `refs`: whether the name of
/// one of them ends with it.
pub open spec fn has_ref(refs: Seq<RefView>, name: Seq<char>) -> bool {
    exists|i: int| 0 <= i < refs.len() && name.is_suffix_of((#[trigger] refs[i]).full_name)
}

/// The call that points `name` at `sha`: a move where the reference is
/// among `refs`, a creation where it is not.
pub open spec fn pointed(refs: Seq<RefView>, name: Seq<char>, sha: Seq<char>) -> CallView {
    if has_ref(refs, name) {
        CallView::UpdateRef { name, sha }
    } else {
        CallView::CreateRef { name, sha }
    }
}

/// The calls that record a new head `sha` on base `base` under `scope`,
/// given the references `refs` that exist: the current pointers are moved
/// or created, and a snapshot with the next version is created.
pub open spec fn recorded(
    scope: Seq<char>,
    sha: Seq<char>,
    base: Seq<char>,
    refs: Seq<RefView>,
) -> Seq<CallView> {
    let head = head_name(scope);
    let snapshot = version_name(scope, spec_next_version(refs));
    seq![
        pointed(refs, head, sha),
        pointed(refs, base_name(head), base),
        CallView::CreateRef { name: snapshot, sha },
        CallView::CreateRef { name: base_name(snapshot), sha: base },
    ]
}

/// The calls that open pull request `pr`.
pub open spec fn opened(pr: u64, sha: Seq<char>, base: Seq<char>) -> Seq<CallView> {
    let head = head_name(pr_scope(pr));
    let first = version_name(pr_scope(pr), 1);
    seq![
        CallView::CreateRef { name: head, sha },
        CallView::CreateRef { name: base_name(head), sha: base },
        CallView::CreateRef { name: first, sha },
        CallView::CreateRef { name: base_name(first), sha: base },
    ]
}

/// The calls that close a pull request whose references are `refs`.
pub open spec fn closed(refs: Seq<RefView>) -> Seq<CallView> {
    seq![CallView::DeleteRefs { refs }]
}

/// With no reference in existence, recording a head asks for what
/// opening the pull request asks for: the same four creations.
pub proof fn lemma_first_record_opens(pr: u64, sha: Seq<char>, base: Seq<char>)
    ensures
        recorded(pr_scope(pr), sha, base, Seq::empty()) == opened(pr, sha, base),
{
    assert(recorded(pr_scope(pr), sha, base, Seq::empty()) =~= opened(pr, sha, base));
}

/// Where both current pointers exist, recording a head moves the two and
/// creates one snapshot with its companion, under the version that
/// follows the highest in existence.
pub proof fn lemma_record_moves_pointers(
    scope: Seq<char>,
    sha: Seq<char>,
    base: Seq<char>,
    refs: Seq<RefView>,
)
    requires
        has_ref(refs, head_name(scope)),
        has_ref(refs, base_name(head_name(scope))),
    ensures
        recorded(scope, sha, base, refs) == seq![
            CallView::UpdateRef { name: head_name(scope), sha },
            CallView::UpdateRef { name: base_name(head_name(scope)), sha: base },
            CallView::CreateRef { name: version_name(scope, last_version(refs) + 1), sha },
            CallView::CreateRef {
                name: base_name(version_name(scope, last_version(refs) + 1)),
                sha: base,
            },
        ],
{
}

/// A snapshot made under any scope carries its version in its name, and
/// its companion carries none: the next version counts the snapshot
/// once.
pub proof fn lemma_snapshot_names(scope: Seq<char>, version: u32)
    ensures
        version_of(version_name(scope, version as nat)) == Some(version),
        version_of(base_name(version_name(scope, version as nat))) is None,
{
    reveal_strlit("v");
    reveal_strlit("-base");
    assert("v"@ =~= seq!['v']);
    assert("-base"@ =~= seq!['-', 'b', 'a', 's', 'e']);
    lemma_snapshot_carries_version(scope, version);
    lemma_companion_carries_no_version(scope, version as nat);
}

/// Once the snapshot and the companion that recording a head asks for
/// exist, the next version is higher by one, as long as versions fit in
/// 32 bits.
pub proof fn lemma_versions_grow(
    scope: Seq<char>,
    refs: Seq<RefView>,
    snapshot: RefView,
    companion: RefView,
)
    requires
        spec_next_version(refs) <= u32::MAX,
        snapshot.full_name == version_name(scope, spec_next_version(refs)),
        companion.full_name == base_name(snapshot.full_name),
    ensures
        spec_next_version(refs.push(snapshot).push(companion)) == spec_next_version(refs) + 1,
{
    let next = spec_next_version(refs) as u32;
    lemma_snapshot_names(scope, next);
    let with_snapshot = refs.push(snapshot);
    let with_both = with_snapshot.push(companion);
    assert(with_snapshot.drop_last() =~= refs);
    assert(with_snapshot.last() == snapshot);
    assert(version_of(snapshot.full_name) == Some(next));
    assert(last_version(with_snapshot) == next);
    assert(with_both.drop_last() =~= with_snapshot);
    assert(with_both.last() == companion);
    assert(version_of(companion.full_name) is None);
    assert(last_version(with_both) == next);
}

/// The name that a call is about, for a creation or a move.
pub open spec fn call_name(call: CallView) -> Seq<char> {
    match call {
        CallView::CreateRef { name, .. } => name,
        CallView::UpdateRef { name, .. } => name,
        CallView::DeleteRefs { .. } => Seq::empty(),
    }
}

/// Opening a pull request creates four references, and which ones does
/// not depend on the commits.
pub proof fn lemma_open_creates_four(
    pr: u64,
    sha: Seq<char>,
    base: Seq<char>,
    other_sha: Seq<char>,
    other_base: Seq<char>,
)
    ensures
        opened(pr, sha, base).len() == 4,
        forall|i: int| 0 <= i < 4 ==> (#[trigger] opened(pr, sha, base)[i]) is CreateRef,
        forall|i: int|
            0 <= i < 4 ==> call_name(#[trigger] opened(pr, sha, base)[i]) == call_name(
                opened(pr, other_sha, other_base)[i],
            ),
{
}

/// A search for the bookmarks of one login lists no bookmark of
/// another, whatever follows the login in its name, unless one login
/// with its dash begins the other or is begun by it.
pub proof fn lemma_bookmarks_are_scoped(
    pr: u64,
    reviewer: Seq<char>,
    other: Seq<char>,
    rest: Seq<char>,
)
    requires
        !reviewer.is_prefix_of(other + "-"@),
        !(other + "-"@).is_prefix_of(reviewer),
    ensures
        !matches_search(reviewer_search(pr, reviewer), reviewer_scope(pr, other) + rest),
{
    let scope = pr_scope(pr);
    let search = scope + reviewer;
    let dashed = other + "-"@;
    let name = scope + other + "-"@ + rest;
    assert(name =~= scope + (dashed + rest));
    if search.is_prefix_of(name) {
        let head = name.subrange(0, search.len() as int);
        assert(head == search);
        if reviewer.len() <= dashed.len() {
            assert(reviewer =~= dashed.subrange(0, reviewer.len() as int)) by {
                assert forall|i: int| 0 <= i < reviewer.len() implies reviewer[i] == dashed[i] by {
                    assert(head[scope.len() + i] == name[scope.len() + i]);
                    assert(search[scope.len() + i] == reviewer[i]);
                }
            }
        } else {
            assert(dashed =~= reviewer.subrange(0, dashed.len() as int)) by {
                assert forall|i: int| 0 <= i < dashed.len() implies reviewer[i] == dashed[i] by {
                    assert(head[scope.len() + i] == name[scope.len() + i]);
                    assert(search[scope.len() + i] == reviewer[i]);
                }
            }
        }
    }
}

/// What to search for to list every reference of pull request `pr`, the
/// bookmarks of those who reviewed it included.
pub fn pr_search(pr: u64) -> (search: String)
    ensures
        search@ == pr_scope(pr),
{
    let mut search = decimal_text(pr);
    search.append("/");
    search
}

/// What to search for to list the bookmarks of one login on `pr`.
pub fn bookmark_search(pr: u64, reviewer: &str) -> (search: String)
    ensures
        search@ == reviewer_search(pr, reviewer@),
{
    let mut search = pr_search(pr);
    search.append(reviewer);
    search
}

/// Whether the name of one of `refs` ends with `name`.
fn exists_ref(refs: &[Ref], name: &str) -> (found: bool)
    ensures
        found == has_ref(ref_views(refs@), name@),
{
    let mut i: usize = 0;
    while i < refs.len()
        invariant
            i <= refs.len(),
            forall|k: int| 0 <= k < i ==> !name@.is_suffix_of((#[trigger] refs[k]).full_name@),
        decreases refs.len() - i,
    {
        if ends_with(refs[i].full_name.as_str(), name) {
            assert(ref_views(refs@)[i as int] == refs[i as int]@);
            return true;
        }
        i = i + 1;
    }
    assert(!has_ref(ref_views(refs@), name@)) by {
        assert forall|k: int| 0 <= k < ref_views(refs@).len() implies !name@.is_suffix_of(
            (#[trigger] ref_views(refs@)[k]).full_name,
        ) by {
            assert(ref_views(refs@)[k] == refs[k]@);
        }
    }
    false
}

/// The call that points `name` at `sha`.
fn point(refs: &[Ref], name: String, sha: &str) -> (call: Call)
    ensures
        call@ == pointed(ref_views(refs@), name@, sha@),
{
    if exists_ref(refs, name.as_str()) {
        Call::UpdateRef { name, sha: String::from_str(sha) }
    } else {
        Call::CreateRef { name, sha: String::from_str(sha) }
    }
}

/// The calls that record `sha` on `base` under `scope`.
fn record(scope: &str, sha: &str, base: &str, refs: &[Ref]) -> (calls: Vec<Call>)
    ensures
        calls@.len() == 4,
        call_views(calls@) == recorded(scope@, sha@, base@, ref_views(refs@)),
{
    let mut head = String::from_str(scope);
    head.append("head");
    let mut head_base = head.clone();
    head_base.append("-base");
    let mut snapshot = String::from_str(scope);
    snapshot.append("v");
    snapshot.append(decimal_text(next_version(refs)).as_str());
    let mut snapshot_base = snapshot.clone();
    snapshot_base.append("-base");
    let mut calls: Vec<Call> = Vec::new();
    calls.push(point(refs, head, sha));
    calls.push(point(refs, head_base, base));
    calls.push(Call::CreateRef { name: snapshot, sha: String::from_str(sha) });
    calls.push(Call::CreateRef { name: snapshot_base, sha: String::from_str(base) });
    assert(call_views(calls@) =~= recorded(scope@, sha@, base@, ref_views(refs@)));
    calls
}

/// A pull request was opened: its current pointers and its first snapshot
/// are created, each with its companion for the base, whatever exists.
pub fn open_pr(pr: u64, sha: &str, base: &str) -> (calls: Vec<Call>)
    ensures
        calls@.len() == 4,
        call_views(calls@) == opened(pr, sha@, base@),
{
    let scope = pr_search(pr);
    let mut head = scope.clone();
    head.append("head");
    let mut head_base = head.clone();
    head_base.append("-base");
    let mut first = scope.clone();
    first.append("v");
    first.append(decimal_text(1).as_str());
    let mut first_base = first.clone();
    first_base.append("-base");
    let mut calls: Vec<Call> = Vec::new();
    calls.push(Call::CreateRef { name: head, sha: String::from_str(sha) });
    calls.push(Call::CreateRef { name: head_base, sha: String::from_str(base) });
    calls.push(Call::CreateRef { name: first, sha: String::from_str(sha) });
    calls.push(Call::CreateRef { name: first_base, sha: String::from_str(base) });
    assert(call_views(calls@) =~= opened(pr, sha@, base@));
    calls
}

/// Commits were pushed to pull request `pr`, whose references are `refs`:
/// its current pointers are moved, or created where they are missing, and
/// a snapshot with the next version is created.
pub fn synchronize_pr(pr: u64, sha: &str, base: &str, refs: &[Ref]) -> (calls: Vec<Call>)
    ensures
        calls@.len() == 4,
        call_views(calls@) == recorded(pr_scope(pr), sha@, base@, ref_views(refs@)),
{
    let scope = pr_search(pr);
    record(scope.as_str(), sha, base, refs)
}

/// A review of commit `sha` of pull request `pr` came in, and `refs` are
/// the references that a search for the bookmarks of its author listed:
/// the author's current pointers are moved, or created where they are
/// missing, and a snapshot with the author's next version is created.
pub fn bookmark_pr(pr: u64, reviewer: &str, sha: &str, base: &str, refs: &[Ref]) -> (calls: Vec<
    Call,
>)
    ensures
        calls@.len() == 4,
        call_views(calls@) == recorded(
            reviewer_scope(pr, reviewer@),
            sha@,
            base@,
            ref_views(refs@),
        ),
{
    let mut scope = bookmark_search(pr, reviewer);
    scope.append("-");
    record(scope.as_str(), sha, base, refs)
}

/// A pull request was closed, and `refs` are its references: all of them
/// are deleted, in one call.
pub fn close_pr(refs: Vec<Ref>) -> (calls: Vec<Call>)
    ensures
        calls@.len() == 1,
        call_views(calls@) == closed(ref_views(refs@)),
{
    let mut calls: Vec<Call> = Vec::new();
    calls.push(Call::DeleteRefs { refs });
    assert(call_views(calls@) =~= closed(ref_views(refs@)));
    calls
}

} // verus!
