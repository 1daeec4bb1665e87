use graph_rebase::commit::author_blank_commit;
use graph_rebase::commit::Actor;
use graph_rebase::commit::CommitData;
use graph_rebase::commit::DateMode;
use graph_rebase::commit::Time;
use graph_rebase::codec::commit_id_of;
use graph_rebase::codec::empty_tree_oid;
use graph_rebase::editor::InsertSide;
use graph_rebase::errors::Error;
use graph_rebase::graph::Graph;
use graph_rebase::graph::GraphNode;
use graph_rebase::graph::GraphRef;
use graph_rebase::id::Oid;
use graph_rebase::RelativeTo;

fn actor() -> Actor {
    Actor { name: b"ann".to_vec(), email: b"ann@example.com".to_vec(), time: Time { seconds: 1700000000, offset: 0 } }
}

fn oid(b: u8) -> Oid {
    Oid::from_bytes(vec![b; 20])
}

fn commit(tree: u8, parents: Vec<Oid>, msg: &[u8]) -> CommitData {
    CommitData {
        tree: oid(tree),
        parents,
        author: actor(),
        committer: actor(),
        message: msg.to_vec(),
    }
}

/// A single root commit `A` with reference "main" bound to it.
fn single_node_graph() -> Graph {
    let a = GraphNode { id: oid(0xaa), data: commit(0x11, vec![], b"a") };
    Graph {
        nodes: vec![a],
        refs: vec![GraphRef { name: b"refs/heads/main".to_vec(), target: oid(0xaa) }],
    }
}

/// A chain `A -> C -> D`.
fn chain_graph() -> Graph {
    let a = GraphNode { id: oid(0xaa), data: commit(0x11, vec![], b"a") };
    let c = GraphNode { id: oid(0xcc), data: commit(0x22, vec![oid(0xaa)], b"c") };
    let d = GraphNode { id: oid(0xdd), data: commit(0x33, vec![oid(0xcc)], b"d") };
    Graph { nodes: vec![a, c, d], refs: vec![] }
}

fn blank() -> CommitData {
    let sig = actor();
    author_blank_commit(&sig, &sig, DateMode::UpdateBoth, sig.time)
}

#[test]
fn graph_invariant_holds() {
    assert!(single_node_graph().check_wf());
    assert!(chain_graph().check_wf());
    let bad = Graph {
        nodes: vec![
            GraphNode { id: oid(1), data: commit(0x11, vec![], b"a") },
            GraphNode { id: oid(2), data: commit(0x11, vec![oid(9)], b"b") },
        ],
        refs: vec![],
    };
    assert!(!bad.check_wf());
}

#[test]
fn insert_after_single_root() {
    let g = single_node_graph();
    let mut editor = g.to_editor();
    let sel = editor.select_reference(&b"refs/heads/main".to_vec()).unwrap();
    assert_eq!(sel.index, 0);
    editor.insert(&sel, blank(), InsertSide::After);
    let outcome = editor.rebase().unwrap();
    assert_eq!(outcome.steps.len(), 2);
    // The anchor had no descendants, so nothing is remapped.
    assert_eq!(outcome.mapping.len(), 0);
    assert!(!outcome.steps[0].changed);
    assert!(outcome.steps[0].id.eq(&oid(0xaa)));
    assert!(outcome.steps[1].changed);
    let new_id = &outcome.steps[1].id;
    assert_eq!(new_id.as_bytes().len(), 20);
    assert!(!new_id.eq(&oid(0xaa)));
    // Decode the re-encoded blank commit with the outside object model: its
    // sole parent must be the anchor and its tree the anchor's tree.
    let parsed = gix::objs::CommitRef::from_bytes(&outcome.steps[1].encoding, gix::hash::Kind::Sha1).unwrap();
    assert_eq!(parsed.parents().count(), 1);
    assert_eq!(parsed.parents().next().unwrap().as_slice(), oid(0xaa).as_bytes().as_slice());
    assert_eq!(parsed.tree().as_slice(), oid(0x11).as_bytes().as_slice());
    assert_eq!(parsed.message, b"".as_slice());
}

#[test]
fn insert_after_anchor_with_descendants() {
    let g = chain_graph();
    let mut editor = g.to_editor();
    let sel = editor.select_commit(&oid(0xaa)).unwrap();
    editor.insert(&sel, blank(), InsertSide::After);
    let outcome = editor.rebase().unwrap();
    assert_eq!(outcome.steps.len(), 4);
    // A untouched; B new; C and D re-encoded.
    assert!(!outcome.steps[0].changed);
    assert!(outcome.steps[1].changed && outcome.steps[1].original_id.is_none());
    assert!(outcome.steps[2].changed && outcome.steps[3].changed);
    assert_eq!(outcome.mapping.len(), 2);
    let b_id = &outcome.steps[1].id;
    let c_new = outcome.mapping.lookup(&oid(0xcc)).expect("C must be remapped");
    let d_new = outcome.mapping.lookup(&oid(0xdd)).expect("D must be remapped");
    assert!(outcome.mapping.lookup(&oid(0xaa)).is_none());
    assert!(!c_new.eq(&oid(0xcc)));
    assert!(!d_new.eq(&oid(0xdd)));
    assert!(c_new.eq(&outcome.steps[2].id));
    assert!(d_new.eq(&outcome.steps[3].id));
    // C' has B as parent, D' has C' as parent; trees and messages are kept.
    let c2 = gix::objs::CommitRef::from_bytes(&outcome.steps[2].encoding, gix::hash::Kind::Sha1).unwrap();
    assert_eq!(c2.parents().next().unwrap().as_slice(), b_id.as_bytes().as_slice());
    assert_eq!(c2.tree().as_slice(), oid(0x22).as_bytes().as_slice());
    assert_eq!(c2.message, b"c".as_slice());
    let d2 = gix::objs::CommitRef::from_bytes(&outcome.steps[3].encoding, gix::hash::Kind::Sha1).unwrap();
    assert_eq!(d2.parents().next().unwrap().as_slice(), c_new.as_bytes().as_slice());
    // B's parent is A, B's tree is A's tree.
    let b = gix::objs::CommitRef::from_bytes(&outcome.steps[1].encoding, gix::hash::Kind::Sha1).unwrap();
    assert_eq!(b.parents().next().unwrap().as_slice(), oid(0xaa).as_bytes().as_slice());
    assert_eq!(b.tree().as_slice(), oid(0x11).as_bytes().as_slice());
}

#[test]
fn insert_before_middle_anchor() {
    let g = chain_graph();
    let mut editor = g.to_editor();
    let sel = editor.select_commit(&oid(0xcc)).unwrap();
    assert_eq!(sel.index, 1);
    editor.insert(&sel, blank(), InsertSide::Before);
    let outcome = editor.rebase().unwrap();
    assert_eq!(outcome.steps.len(), 4);
    assert!(!outcome.steps[0].changed);
    let n = gix::objs::CommitRef::from_bytes(&outcome.steps[1].encoding, gix::hash::Kind::Sha1).unwrap();
    // The new commit descends from A and carries A's tree.
    assert_eq!(n.parents().next().unwrap().as_slice(), oid(0xaa).as_bytes().as_slice());
    assert_eq!(n.tree().as_slice(), oid(0x11).as_bytes().as_slice());
    // The original anchor C is now the new commit's child.
    let c2 = gix::objs::CommitRef::from_bytes(&outcome.steps[2].encoding, gix::hash::Kind::Sha1).unwrap();
    assert_eq!(c2.parents().next().unwrap().as_slice(), outcome.steps[1].id.as_bytes().as_slice());
    assert_eq!(outcome.mapping.len(), 2);
}

#[test]
fn insert_before_root_yields_empty_tree_root() {
    let g = single_node_graph();
    let mut editor = g.to_editor();
    let sel = editor.select_commit(&oid(0xaa)).unwrap();
    editor.insert(&sel, blank(), InsertSide::Before);
    let outcome = editor.rebase().unwrap();
    assert_eq!(outcome.steps.len(), 2);
    let n = gix::objs::CommitRef::from_bytes(&outcome.steps[0].encoding, gix::hash::Kind::Sha1).unwrap();
    assert_eq!(n.parents().count(), 0);
    assert_eq!(n.tree().as_slice(), empty_tree_oid().as_bytes().as_slice());
    // A is re-encoded with the new root as its parent.
    assert_eq!(outcome.mapping.len(), 1);
    let a2 = gix::objs::CommitRef::from_bytes(&outcome.steps[1].encoding, gix::hash::Kind::Sha1).unwrap();
    assert_eq!(a2.parents().next().unwrap().as_slice(), outcome.steps[0].id.as_bytes().as_slice());
}

#[test]
fn unknown_anchor_is_not_found() {
    let g = chain_graph();
    let editor = g.to_editor();
    // The error carries the selector that failed to resolve.
    match editor.select_commit(&oid(0x77)) {
        Err(Error::AnchorNotFound(RelativeTo::Commit(id))) => {
            assert!(id.eq(&oid(0x77)));
        }
        other => panic!("expected the unresolved commit selector, got {other:?}"),
    }
    match editor.select_reference(&b"refs/heads/missing".to_vec()) {
        Err(Error::AnchorNotFound(RelativeTo::Reference(name))) => {
            assert_eq!(name, b"refs/heads/missing".to_vec());
        }
        other => panic!("expected the unresolved reference selector, got {other:?}"),
    }
}

#[test]
fn rebase_is_deterministic() {
    let g = chain_graph();
    let run = || {
        let mut editor = g.to_editor();
        let sel = editor.select_commit(&oid(0xaa)).unwrap();
        editor.insert(&sel, blank(), InsertSide::After);
        editor.rebase().unwrap()
    };
    let o1 = run();
    let o2 = run();
    assert_eq!(o1.steps.len(), o2.steps.len());
    for i in 0..o1.steps.len() {
        assert_eq!(o1.steps[i].id.as_bytes(), o2.steps[i].id.as_bytes());
    }
}

#[test]
fn date_mode_governs_timestamps() {
    let sig = actor();
    let now = Time { seconds: 1800000000, offset: 3600 };
    let kept = author_blank_commit(&sig, &sig, DateMode::KeepAsAuthored, now);
    assert_eq!(kept.author.time, sig.time);
    assert_eq!(kept.committer.time, sig.time);
    let updated = author_blank_commit(&sig, &sig, DateMode::UpdateBoth, now);
    assert_eq!(updated.author.time, now);
    assert_eq!(updated.committer.time, now);
    assert!(kept.parents.is_empty() && kept.message.is_empty());
    // A blank commit's tree is a placeholder until the executor assigns it,
    // so its identity cannot be computed yet.
    assert!(matches!(commit_id_of(&kept), Err(Error::EncodingError(_))));
    // The timestamp enters the identity.
    let mut c1 = commit(0x11, vec![], b"m");
    let mut c2 = commit(0x11, vec![], b"m");
    c1.author.time = sig.time;
    c2.author.time = now;
    let id1 = commit_id_of(&c1).unwrap();
    let id2 = commit_id_of(&c2).unwrap();
    assert_ne!(id1.as_bytes(), id2.as_bytes());
}

#[test]
fn empty_tree_identity_matches_object_model() {
    let ours = empty_tree_oid();
    let theirs = gix::ObjectId::empty_tree(gix::hash::Kind::Sha1);
    assert_eq!(ours.as_bytes().as_slice(), theirs.as_slice());
}

#[test]
fn commit_identity_matches_object_model() {
    let c = commit(0x11, vec![oid(0xaa)], b"hello");
    let ours = commit_id_of(&c).unwrap();
    let gc = gix::objs::Commit {
        tree: gix::ObjectId::try_from(c.tree.as_bytes().as_slice()).unwrap(),
        parents: vec![gix::ObjectId::try_from(oid(0xaa).as_bytes().as_slice()).unwrap()].into(),
        author: gix::actor::Signature {
            name: b"ann".as_slice().into(),
            email: b"ann@example.com".as_slice().into(),
            time: gix::date::Time { seconds: 1700000000, offset: 0 },
        },
        committer: gix::actor::Signature {
            name: b"ann".as_slice().into(),
            email: b"ann@example.com".as_slice().into(),
            time: gix::date::Time { seconds: 1700000000, offset: 0 },
        },
        encoding: None,
        message: b"hello".as_slice().into(),
        extra_headers: Vec::new(),
    };
    let mut buf: Vec<u8> = Vec::new();
    gix::objs::WriteTo::write_to(&gc, &mut buf).unwrap();
    let theirs =
        gix::objs::compute_hash(gix::hash::Kind::Sha1, gix::objs::Kind::Commit, &buf).unwrap();
    assert_eq!(ours.as_bytes().as_slice(), theirs.as_slice());
}
