use chetter_app::github::{
    CreateRefRequest, UpdateRefRequest, delete_query, deletion_batches, matching_refs, qualified_ref, Installation, ListedObject,
    ListedRef, Ref, DELETE_BATCH, REF_NS,
};

fn listed(path: &str, object: ListedObject) -> ListedRef {
    ListedRef {
        ref_field: path.to_string(),
        node_id: format!("node_{path}"),
        object,
    }
}

fn commit(sha: &str) -> ListedObject {
    ListedObject::Commit {
        sha: sha.to_string(),
    }
}

fn many(count: usize) -> Vec<Ref> {
    (0..count)
        .map(|i| Ref {
            full_name: format!("1/v{i}"),
            sha: "_".to_string(),
            node_id: format!("n{i}"),
        })
        .collect()
}

fn installation() -> Installation {
    Installation {
        id: 42,
        org: "octo".to_string(),
        repo: "cat".to_string(),
    }
}

#[test]
fn namespace_is_fixed() {
    assert_eq!(REF_NS, "refs/heads/pr");
    assert_eq!(qualified_ref("1234/head"), "refs/heads/pr/1234/head");
    assert_eq!(qualified_ref(""), "refs/heads/pr/");
}

#[test]
fn request_paths() {
    let at = installation();
    assert_eq!(at.full_name(), "octo/cat");
    assert_eq!(at.create_ref_path(), "/repos/octo/cat/git/refs");
    assert_eq!(
        at.update_ref_path("1234/head"),
        "/repos/octo/cat/git/refs/heads/pr/1234/head"
    );
    assert_eq!(
        at.matching_refs_path("1234/"),
        "/repos/octo/cat/git/matching-refs/heads/pr/1234/"
    );
    assert_eq!(
        at.access_tokens_path(),
        "/app/installations/42/access_tokens"
    );
}

#[test]
fn update_request_is_forced() {
    assert_eq!(
        installation().update_ref("1234/head", "abc123"),
        UpdateRefRequest {
            path: "/repos/octo/cat/git/refs/heads/pr/1234/head".to_string(),
            sha: "abc123".to_string(),
            force: true,
        }
    );
}

#[test]
fn create_request_names_the_full_path() {
    assert_eq!(
        installation().create_ref("1234/v1", "abc123"),
        CreateRefRequest {
            path: "/repos/octo/cat/git/refs".to_string(),
            reference: "refs/heads/pr/1234/v1".to_string(),
            sha: "abc123".to_string(),
        }
    );
}

#[test]
fn matching_refs_takes_the_namespace_off() {
    let answer = vec![
        listed("refs/heads/pr/1234/head", commit("aa")),
        listed(
            "refs/heads/pr/1234/v1",
            ListedObject::Tag {
                sha: "bb".to_string(),
            },
        ),
    ];
    assert_eq!(
        matching_refs("1234/", &answer),
        vec![
            Ref {
                full_name: "1234/head".to_string(),
                sha: "aa".to_string(),
                node_id: "node_refs/heads/pr/1234/head".to_string(),
            },
            Ref {
                full_name: "1234/v1".to_string(),
                sha: "bb".to_string(),
                node_id: "node_refs/heads/pr/1234/v1".to_string(),
            },
        ]
    );
}

#[test]
fn matching_refs_follows_the_search() {
    let answer = vec![
        listed("refs/heads/pr/abc/def", commit("1")),
        listed("refs/heads/pr/abc/d/ef", commit("2")),
        listed("refs/heads/pr/abc/d", commit("3")),
        listed("refs/heads/pr/other/abc/d", commit("4")),
        listed("refs/heads/pr/ab", commit("5")),
        listed("refs/heads/abc/d", commit("6")),
        listed("refs/tags/pr/abc/d", commit("7")),
    ];
    let names: Vec<String> = matching_refs("abc/d", &answer)
        .into_iter()
        .map(|r| r.full_name)
        .collect();
    assert_eq!(names, vec!["abc/def", "abc/d/ef", "abc/d"]);
}

#[test]
fn matching_refs_skips_other_objects() {
    let answer = vec![
        listed("refs/heads/pr/7/head", ListedObject::Other),
        listed("refs/heads/pr/7/v1", commit("aa")),
    ];
    let refs = matching_refs("7/", &answer);
    assert_eq!(refs.len(), 1);
    assert_eq!(refs[0].full_name, "7/v1");
    assert!(matching_refs("7/", &[]).is_empty());
}

#[test]
fn matching_refs_keeps_a_later_namespace() {
    let answer = vec![listed("refs/heads/pr/7/refs/heads/pr/x", commit("aa"))];
    assert_eq!(
        matching_refs("7/", &answer)[0].full_name,
        "7/refs/heads/pr/x"
    );
}

#[test]
fn one_login_does_not_list_another() {
    let answer = vec![
        listed("refs/heads/pr/12/me-head", commit("1")),
        listed("refs/heads/pr/12/me-v1", commit("2")),
        listed("refs/heads/pr/12/you-head", commit("3")),
        listed("refs/heads/pr/12/you-v4", commit("4")),
        listed("refs/heads/pr/12/head", commit("5")),
    ];
    let names: Vec<String> = matching_refs("12/me", &answer)
        .into_iter()
        .map(|r| r.full_name)
        .collect();
    assert_eq!(names, vec!["12/me-head", "12/me-v1"]);
}

#[test]
fn batches_hold_every_ref_once() {
    assert_eq!(DELETE_BATCH, 100);
    for count in [0usize, 1, 99, 100, 101, 200, 250] {
        let refs = many(count);
        let parts = deletion_batches(&refs);
        assert_eq!(parts.len(), (count + 99) / 100);
        let mut joined: Vec<Ref> = vec![];
        for (i, part) in parts.iter().enumerate() {
            assert!(!part.is_empty());
            assert!(part.len() <= 100);
            if i + 1 < parts.len() {
                assert_eq!(part.len(), 100);
            }
            joined.extend(part.iter().cloned());
        }
        assert_eq!(joined, refs);
    }
}

#[test]
fn delete_query_of_two() {
    let refs = vec![
        Ref {
            full_name: "1234/head".to_string(),
            sha: "_".to_string(),
            node_id: "node_a".to_string(),
        },
        Ref {
            full_name: "1234/v1".to_string(),
            sha: "_".to_string(),
            node_id: "node_b".to_string(),
        },
    ];
    let expected = "mutation {\n\
delete_0: deleteRef(input: {\n        refId: \"node_a\",\n        clientMutationId: \"1234/head\"\n    }) {\n    clientMutationId\n}\n\
delete_1: deleteRef(input: {\n        refId: \"node_b\",\n        clientMutationId: \"1234/v1\"\n    }) {\n    clientMutationId\n}\n\
\n}";
    assert_eq!(delete_query(&refs), expected);
}

#[test]
fn delete_query_of_none() {
    assert_eq!(delete_query(&[]), "mutation {\n\n}");
}

#[test]
fn delete_query_numbers_within_the_batch() {
    let refs = many(101);
    let parts = deletion_batches(&refs);
    let first = delete_query(parts[0]);
    let second = delete_query(parts[1]);
    assert!(first.contains("delete_99: deleteRef"));
    assert!(!first.contains("delete_100: deleteRef"));
    assert!(second.contains("delete_0: deleteRef"));
    assert!(second.contains("refId: \"n100\""));
}
