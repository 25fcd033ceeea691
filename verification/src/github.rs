//! References under the reserved namespace, and the requests that create,
//! move, list and delete them.
use crate::error::{ChetterError, GraphqlErrors};
use crate::text::{decimal, decimal_text, starts_with};
use vstd::prelude::*;
use vstd::string::StrSliceExecFns;

verus! {

/// Namespace under which all references are kept.
pub const REF_NS: &'static str = "refs/heads/pr";

/// Git reference.
#[derive(Debug, PartialEq)]
pub struct Ref {
    /// Symbolic reference name, without the namespace.
    pub full_name: String,
    /// Full SHA-1 object name.
    pub sha: String,
    /// Identifier by which the reference is deleted in bulk.
    pub node_id: String,
}

/// What a [`Ref`] holds, as plain text.
pub struct RefView {
    pub full_name: Seq<char>,
    pub sha: Seq<char>,
    pub node_id: Seq<char>,
}

impl View for Ref {
    type V = RefView;

    open spec fn view(&self) -> RefView {
        RefView { full_name: self.full_name@, sha: self.sha@, node_id: self.node_id@ }
    }
}

impl Clone for Ref {
    fn clone(&self) -> (r: Self)
        ensures
            r@ == self@,
    {
        Ref {
            full_name: self.full_name.clone(),
            sha: self.sha.clone(),
            node_id: self.node_id.clone(),
        }
    }
}

/// The views of the references of `refs`, in order.
pub open spec fn ref_views(refs: Seq<Ref>) -> Seq<RefView> {
    refs.map_values(|r: Ref| r@)
}

/// The full path of the reference `name`: the namespace, a slash, the name.
pub open spec fn qualified(name: Seq<char>) -> Seq<char> {
    REF_NS@ + "/"@ + name
}

/// Whether a reference called `name` is among those that a search for
/// `search` lists: those whose name begins with it.
pub open spec fn matches_search(search: Seq<char>, name: Seq<char>) -> bool {
    search.is_prefix_of(name)
}

/// The full path of the reference `name`.
pub fn qualified_ref(name: &str) -> (path: String)
    ensures
        path@ == qualified(name@),
{
    let mut path = String::from_str(REF_NS);
    path.append("/");
    path.append(name);
    path
}

/// An installation of the application on one repository.
#[derive(Debug, PartialEq)]
pub struct Installation {
    /// Identifier of the installation.
    pub id: u64,
    /// Login of the repository's owner.
    pub org: String,
    /// Name of the repository.
    pub repo: String,
}

/// The request that creates a reference.
#[derive(Debug, PartialEq)]
pub struct CreateRefRequest {
    /// Where the request is posted.
    pub path: String,
    /// Full path of the reference to create, namespace included.
    pub reference: String,
    /// The commit that the reference is to point at.
    pub sha: String,
}

/// The request that moves a reference.
#[derive(Debug, PartialEq)]
pub struct UpdateRefRequest {
    /// Where the request is posted.
    pub path: String,
    /// The commit that the reference is to point at.
    pub sha: String,
    /// Whether the reference is moved even where the new commit does not
    /// descend from the old one.
    pub force: bool,
}

impl Installation {
    /// `owner/name`, as text.
    pub open spec fn spec_full_name(self) -> Seq<char> {
        self.org@ + "/"@ + self.repo@
    }

    /// Where the references of the repository are created.
    pub open spec fn spec_create_ref_path(self) -> Seq<char> {
        "/repos/"@ + self.spec_full_name() + "/git/refs"@
    }

    /// Where the reference `name` is moved.
    pub open spec fn spec_update_ref_path(self, name: Seq<char>) -> Seq<char> {
        "/repos/"@ + self.spec_full_name() + "/git/"@ + qualified(name)
    }

    /// Where the references that match `search` are listed.
    pub open spec fn spec_matching_refs_path(self, search: Seq<char>) -> Seq<char> {
        "/repos/"@ + self.spec_full_name() + "/git/matching-refs/"@ + qualified(search).skip(5)
    }

    /// Where an access token for the installation is asked for.
    pub open spec fn spec_access_tokens_path(self) -> Seq<char> {
        "/app/installations/"@ + decimal(self.id as nat) + "/access_tokens"@
    }

    /// The full name of the repository.
    pub fn full_name(&self) -> (name: String)
        ensures
            name@ == self.spec_full_name(),
    {
        let mut name = self.org.clone();
        name.append("/");
        name.append(self.repo.as_str());
        name
    }

    /// The path to post to for a new reference.
    pub fn create_ref_path(&self) -> (path: String)
        ensures
            path@ == self.spec_create_ref_path(),
    {
        let mut path = String::from_str("/repos/");
        path.append(self.full_name().as_str());
        path.append("/git/refs");
        path
    }

    /// The path to post to for moving the reference `name`.
    pub fn update_ref_path(&self, name: &str) -> (path: String)
        ensures
            path@ == self.spec_update_ref_path(name@),
    {
        let mut path = String::from_str("/repos/");
        path.append(self.full_name().as_str());
        path.append("/git/");
        path.append(qualified_ref(name).as_str());
        path
    }

    /// The request that creates the reference `name`, pointing at `sha`.
    pub fn create_ref(&self, name: &str, sha: &str) -> (request: CreateRefRequest)
        ensures
            request.path@ == self.spec_create_ref_path(),
            request.reference@ == qualified(name@),
            request.sha@ == sha@,
    {
        CreateRefRequest {
            path: self.create_ref_path(),
            reference: qualified_ref(name),
            sha: String::from_str(sha),
        }
    }

    /// The request that moves the reference `name` to `sha`. The move is
    /// forced: it is not refused for leaving commits behind.
    pub fn update_ref(&self, name: &str, sha: &str) -> (request: UpdateRefRequest)
        ensures
            request.path@ == self.spec_update_ref_path(name@),
            request.sha@ == sha@,
            request.force,
    {
        UpdateRefRequest { path: self.update_ref_path(name), sha: String::from_str(sha), force: true }
    }

    /// The path to get for the references that match `search`.
    pub fn matching_refs_path(&self, search: &str) -> (path: String)
        ensures
            path@ == self.spec_matching_refs_path(search@),
    {
        proof {
            reveal_strlit("refs/heads/pr");
            reveal_strlit("heads/pr");
        }
        let mut path = String::from_str("/repos/");
        path.append(self.full_name().as_str());
        path.append("/git/matching-refs/");
        let ghost before = path@;
        path.append("heads/pr");
        path.append("/");
        path.append(search);
        assert(path@ =~= before + qualified(search@).skip(5));
        path
    }

    /// The path to post to for an access token.
    pub fn access_tokens_path(&self) -> (path: String)
        ensures
            path@ == self.spec_access_tokens_path(),
    {
        let mut path = String::from_str("/app/installations/");
        path.append(decimal_text(self.id).as_str());
        path.append("/access_tokens");
        path
    }
}

/// What a listed reference points at.
#[derive(Debug, PartialEq)]
pub enum ListedObject {
    Commit { sha: String },
    Tag { sha: String },
    /// Anything that is neither a commit nor a tag.
    Other,
}

/// One entry of the hosting service's answer to a search for references.
#[derive(Debug, PartialEq)]
pub struct ListedRef {
    /// Full path of the reference, namespace included.
    pub ref_field: String,
    /// Identifier by which the reference is deleted in bulk.
    pub node_id: String,
    /// The object that the reference points at.
    pub object: ListedObject,
}

/// What a [`ListedObject`] holds, as plain text.
pub enum ListedObjectView {
    Commit { sha: Seq<char> },
    Tag { sha: Seq<char> },
    Other,
}

/// What a [`ListedRef`] holds, as plain text.
pub struct ListedRefView {
    pub ref_field: Seq<char>,
    pub node_id: Seq<char>,
    pub object: ListedObjectView,
}

impl View for ListedObject {
    type V = ListedObjectView;

    open spec fn view(&self) -> ListedObjectView {
        match self {
            ListedObject::Commit { sha } => ListedObjectView::Commit { sha: sha@ },
            ListedObject::Tag { sha } => ListedObjectView::Tag { sha: sha@ },
            ListedObject::Other => ListedObjectView::Other,
        }
    }
}

impl View for ListedRef {
    type V = ListedRefView;

    open spec fn view(&self) -> ListedRefView {
        ListedRefView {
            ref_field: self.ref_field@,
            node_id: self.node_id@,
            object: self.object@,
        }
    }
}

/// The views of the entries of `listed`, in order.
pub open spec fn listed_views(listed: Seq<ListedRef>) -> Seq<ListedRefView> {
    listed.map_values(|item: ListedRef| item@)
}

/// The reference that the entry `item` of an answer to `search` stands for:
/// one that points at a commit or a tag, lies under the namespace and
/// matches the search. Other entries stand for none.
pub open spec fn accepted(search: Seq<char>, item: ListedRefView) -> Option<RefView> {
    if qualified(search).is_prefix_of(item.ref_field) {
        let full_name = item.ref_field.skip(qualified(Seq::empty()).len() as int);
        match item.object {
            ListedObjectView::Commit { sha } => Some(
                RefView { full_name, sha, node_id: item.node_id },
            ),
            ListedObjectView::Tag { sha } => Some(
                RefView { full_name, sha, node_id: item.node_id },
            ),
            ListedObjectView::Other => None,
        }
    } else {
        None
    }
}

/// The references of an answer to `search`, in the order of the answer.
pub open spec fn accepted_refs(search: Seq<char>, listed: Seq<ListedRefView>) -> Seq<RefView> {
    listed.filter_map(|item: ListedRefView| accepted(search, item))
}

/// Every accepted reference lies under the namespace, where an entry of
/// the answer names it, and its name begins with the search text.
pub proof fn lemma_accepted_refs_match(search: Seq<char>, listed: Seq<ListedRefView>, i: int)
    requires
        0 <= i < accepted_refs(search, listed).len(),
    ensures
        matches_search(search, accepted_refs(search, listed)[i].full_name),
        exists|k: int|
            0 <= k < listed.len() && #[trigger] listed[k].ref_field == qualified(
                accepted_refs(search, listed)[i].full_name,
            ) && listed[k].node_id == accepted_refs(search, listed)[i].node_id,
    decreases listed.len(),
{
    let f = |item: ListedRefView| accepted(search, item);
    let shorter = listed.drop_last();
    let last = listed.last();
    if i < shorter.filter_map(f).len() {
        lemma_accepted_refs_match(search, shorter, i);
        let k = choose|k: int|
            0 <= k < shorter.len() && #[trigger] shorter[k].ref_field == qualified(
                accepted_refs(search, shorter)[i].full_name,
            ) && shorter[k].node_id == accepted_refs(search, shorter)[i].node_id;
        assert(listed[k] == shorter[k]);
    } else {
        let name = accepted(search, last)->0.full_name;
        let ns = qualified(Seq::empty());
        assert(ns =~= REF_NS@ + "/"@);
        assert(qualified(search) =~= ns + search);
        assert(qualified(name) =~= ns + name);
        assert(accepted(search, last) is Some);
        let head = last.ref_field.subrange(0, qualified(search).len() as int);
        assert(head == qualified(search));
        assert forall|j: int| 0 <= j < ns.len() implies last.ref_field[j] == ns[j] by {
            assert(head[j] == last.ref_field[j]);
        }
        assert(last.ref_field =~= ns + name);
        assert(search =~= name.subrange(0, search.len() as int)) by {
            assert forall|j: int| 0 <= j < search.len() implies search[j] == name[j] by {
                assert(head[ns.len() + j] == last.ref_field[ns.len() + j]);
            }
        }
        assert(listed[listed.len() - 1] == last);
    }
}

/// An entry that points at a commit or a tag, lies under the namespace and
/// matches the search is never left out.
pub proof fn lemma_accepted_refs_complete(search: Seq<char>, listed: Seq<ListedRefView>, k: int)
    requires
        0 <= k < listed.len(),
        accepted(search, listed[k]) is Some,
    ensures
        accepted_refs(search, listed).contains(accepted(search, listed[k])->0),
    decreases listed.len(),
{
    let f = |item: ListedRefView| accepted(search, item);
    let shorter = listed.drop_last();
    let all = accepted_refs(search, listed);
    if k < shorter.len() {
        lemma_accepted_refs_complete(search, shorter, k);
        let found = accepted(search, shorter[k])->0;
        let i = choose|i: int| 0 <= i < shorter.filter_map(f).len() && shorter.filter_map(f)[i] == found;
        assert(all[i] == found);
    } else {
        assert(all.last() == accepted(search, listed[k])->0);
    }
}

/// The references that the hosting service's answer `listed` to a search
/// for `search` stands for. Entries that point at neither a commit nor a
/// tag are skipped, and so are entries that the search did not ask for.
pub fn matching_refs(search: &str, listed: &[ListedRef]) -> (refs: Vec<Ref>)
    ensures
        ref_views(refs@) == accepted_refs(search@, listed_views(listed@)),
        forall|i: int|
            0 <= i < refs.len() ==> matches_search(search@, (#[trigger] refs[i]).full_name@),
        forall|i: int|
            0 <= i < refs.len() ==> exists|k: int|
                0 <= k < listed.len() && (#[trigger] listed[k]).ref_field@ == qualified(
                    (#[trigger] refs[i]).full_name@,
                ),
{
    let prefix = qualified_ref(search);
    let skip = qualified_ref("").as_str().unicode_len();
    let ghost f = |item: ListedRefView| accepted(search@, item);
    let mut refs: Vec<Ref> = Vec::new();
    let mut i: usize = 0;
    proof {
        reveal_strlit("");
        assert(""@ =~= Seq::<char>::empty());
        assert(listed_views(listed@).take(0) =~= Seq::<ListedRefView>::empty());
        assert(ref_views(refs@) =~= Seq::<RefView>::empty());
    }
    while i < listed.len()
        invariant
            i <= listed.len(),
            prefix@ == qualified(search@),
            skip == qualified(Seq::empty()).len(),
            f == (|item: ListedRefView| accepted(search@, item)),
            ref_views(refs@) == listed_views(listed@).take(i as int).filter_map(f),
        decreases listed.len() - i,
    {
        let item = &listed[i];
        let ghost before = listed_views(listed@).take(i as int);
        let ghost after = listed_views(listed@).take(i + 1);
        let ghost old_refs = refs@;
        assert(after.drop_last() =~= before);
        assert(after.last() == item@);
        if starts_with(item.ref_field.as_str(), prefix.as_str()) {
            let sha = match &item.object {
                ListedObject::Commit { sha } => Some(sha.clone()),
                ListedObject::Tag { sha } => Some(sha.clone()),
                ListedObject::Other => None,
            };
            if let Some(sha) = sha {
                let len = item.ref_field.as_str().unicode_len();
                assert(qualified(search@).len() >= skip) by {
                    assert(qualified(search@) =~= qualified(Seq::empty()) + search@);
                }
                let full_name = String::from_str(
                    item.ref_field.as_str().substring_char(skip, len),
                );
                assert(full_name@ =~= item.ref_field@.skip(skip as int));
                refs.push(Ref { full_name, sha, node_id: item.node_id.clone() });
                assert(ref_views(refs@) =~= ref_views(old_refs).push(accepted(search@, item@)->0));
            }
        }
        assert(ref_views(refs@) == after.filter_map(f));
        i = i + 1;
    }
    assert(listed_views(listed@).take(i as int) =~= listed_views(listed@));
    proof {
        let views = listed_views(listed@);
        assert forall|i: int| 0 <= i < refs.len() implies matches_search(
            search@,
            (#[trigger] refs[i]).full_name@,
        ) && exists|k: int|
            0 <= k < listed.len() && (#[trigger] listed[k]).ref_field@ == qualified(
                refs[i].full_name@,
            ) by {
            assert(ref_views(refs@)[i] == refs[i]@);
            lemma_accepted_refs_match(search@, views, i);
            let k = choose|k: int|
                0 <= k < views.len() && #[trigger] views[k].ref_field == qualified(
                    accepted_refs(search@, views)[i].full_name,
                ) && views[k].node_id == accepted_refs(search@, views)[i].node_id;
            assert(views[k] == listed[k]@);
        }
    }
    refs
}

/// How many references one bulk deletion request may name.
pub const DELETE_BATCH: usize = 100;

/// How many requests it takes to delete `count` references.
pub open spec fn batch_count(count: nat) -> nat {
    (count + DELETE_BATCH - 1) as nat / (DELETE_BATCH as nat)
}

/// The references of the request numbered `i`, among those for `refs`.
pub open spec fn batch<T>(refs: Seq<T>, i: int) -> Seq<T> {
    refs.subrange(
        i * DELETE_BATCH,
        if (i + 1) * DELETE_BATCH <= refs.len() {
            (i + 1) * DELETE_BATCH
        } else {
            refs.len() as int
        },
    )
}

/// The references of each bulk deletion request for `refs`: as many as a
/// request may name in each but the last, which has the rest.
pub open spec fn batches<T>(refs: Seq<T>) -> Seq<Seq<T>> {
    Seq::new(batch_count(refs.len()), |i: int| batch(refs, i))
}

/// The requests for `refs` name each reference once, in the order of
/// `refs`: their contents, one after the other, are `refs`. None is empty,
/// and none names more than a request may.
pub proof fn lemma_batches_cover<T>(refs: Seq<T>)
    ensures
        batches(refs).flatten() == refs,
        forall|i: int|
            0 <= i < batches(refs).len() ==> 0 < (#[trigger] batches(refs)[i]).len()
                <= DELETE_BATCH,
    decreases refs.len(),
{
    let all = batches(refs);
    if refs.len() == 0 {
        assert(all =~= Seq::<Seq<T>>::empty());
    } else {
        let first = batch(refs, 0);
        let rest = refs.skip(first.len() as int);
        lemma_batches_cover(rest);
        assert(all.first() == first);
        assert(all.drop_first() =~= batches(rest)) by {
            assert(batches(rest).len() == all.len() - 1);
            assert forall|i: int| 0 <= i < batches(rest).len() implies batches(rest)[i]
                == all.drop_first()[i] by {
                assert(batch(rest, i) =~= batch(refs, i + 1));
            }
        }
        assert(first + rest =~= refs);
    }
}

/// Splits `refs` into the contents of the bulk deletion requests.
pub fn deletion_batches<'a>(refs: &'a [Ref]) -> (parts: Vec<&'a [Ref]>)
    ensures
        parts@.map_values(|part: &[Ref]| part@) == batches(refs@),
{
    let n = refs.len();
    let mut parts: Vec<&'a [Ref]> = Vec::new();
    let mut start: usize = 0;
    let ghost view = |part: &[Ref]| part@;
    while start < n
        invariant
            n == refs@.len(),
            start <= n,
            start < n ==> start == parts.len() * DELETE_BATCH,
            start == n ==> parts.len() == batch_count(n as nat),
            parts.len() <= batch_count(n as nat),
            view == (|part: &[Ref]| part@),
            forall|i: int| 0 <= i < parts.len() ==> (#[trigger] parts[i])@ == batch(refs@, i),
        decreases n - start,
    {
        let end = if n - start > DELETE_BATCH {
            start + DELETE_BATCH
        } else {
            n
        };
        let part = vstd::slice::slice_subrange(refs, start, end);
        assert(part@ == batch(refs@, parts.len() as int));
        parts.push(part);
        start = end;
    }
    assert(parts@.map_values(view) =~= batches(refs@));
    parts
}

/// The deletion of the reference `r`, numbered `i` within its request.
pub open spec fn mutation_entry(i: nat, r: RefView) -> Seq<char> {
    "delete_"@ + decimal(i) + ": deleteRef(input: {\n        refId: \""@ + r.node_id
        + "\",\n        clientMutationId: \""@ + r.full_name
        + "\"\n    }) {\n    clientMutationId\n}\n"@
}

/// The deletions of `refs`, numbered from zero, one after the other.
pub open spec fn mutation_entries(refs: Seq<RefView>) -> Seq<char>
    decreases refs.len(),
{
    if refs.len() == 0 {
        Seq::empty()
    } else {
        mutation_entries(refs.drop_last()) + mutation_entry(
            (refs.len() - 1) as nat,
            refs.last(),
        )
    }
}

/// The GraphQL request that deletes `refs`.
pub open spec fn delete_query_text(refs: Seq<RefView>) -> Seq<char> {
    "mutation {\n"@ + mutation_entries(refs) + "\n}"@
}

/// Appends the deletion of `r`, numbered `i`, to `query`.
fn append_mutation(query: &mut String, i: usize, r: &Ref)
    ensures
        final(query)@ == old(query)@ + mutation_entry(i as nat, r@),
{
    let ghost start = query@;
    query.append("delete_");
    query.append(decimal_text(i as u64).as_str());
    query.append(": deleteRef(input: {\n        refId: \"");
    query.append(r.node_id.as_str());
    query.append("\",\n        clientMutationId: \"");
    query.append(r.full_name.as_str());
    query.append("\"\n    }) {\n    clientMutationId\n}\n");
    assert(query@ =~= start + mutation_entry(i as nat, r@));
}

/// Writes the GraphQL request that deletes the references of `part`, each
/// by its node identifier and with its name as the identifier of the
/// mutation.
pub fn delete_query(part: &[Ref]) -> (query: String)
    ensures
        query@ == delete_query_text(ref_views(part@)),
{
    let mut query = String::from_str("mutation {\n");
    let n = part.len();
    let mut i: usize = 0;
    let ghost heading = query@;
    assert(ref_views(part@).take(0) =~= Seq::<RefView>::empty());
    while i < n
        invariant
            i <= n,
            n == part@.len(),
            query@ == heading + mutation_entries(ref_views(part@).take(i as int)),
        decreases n - i,
    {
        let ghost before = ref_views(part@).take(i as int);
        let ghost after = ref_views(part@).take(i + 1);
        assert(after.drop_last() =~= before);
        assert(after.last() == part[i as int]@);
        append_mutation(&mut query, i, &part[i]);
        assert(query@ =~= heading + mutation_entries(after));
        i = i + 1;
    }
    assert(ref_views(part@).take(n as int) =~= ref_views(part@));
    query.append("\n}");
    query
}

/// What a bulk deletion request came to: a failure of the call itself, a
/// reply that carries errors, or success.
pub fn deletion_outcome(reply: Result<Option<GraphqlErrors>, octocrab::Error>) -> (r: Result<
    (),
    ChetterError,
>)
    ensures
        r == match reply {
            Ok(None) => Ok::<(), ChetterError>(()),
            Ok(Some(errors)) => Err(ChetterError::GithubGraphqlError(errors)),
            Err(e) => Err(ChetterError::Octocrab(e)),
        },
{
    match reply {
        Ok(None) => Ok(()),
        Ok(Some(errors)) => Err(ChetterError::GithubGraphqlError(errors)),
        Err(e) => Err(ChetterError::Octocrab(e)),
    }
}

} // verus!
