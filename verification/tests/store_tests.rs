use graph_rebase::commit::author_blank_commit;
use graph_rebase::commit::Actor;
use graph_rebase::commit::CommitData;
use graph_rebase::commit::DateMode;
use graph_rebase::commit::Time;
use graph_rebase::editor::InsertSide;
use graph_rebase::errors::Error;
use graph_rebase::graph::Graph;
use graph_rebase::graph::GraphNode;
use graph_rebase::graph::GraphRef;
use graph_rebase::id::Oid;
use graph_rebase::store::Store;
use graph_rebase::InsertCommitOutcome;
use graph_rebase::RelativeTo;
use graph_rebase::insert_blank_commit;

fn actor() -> Actor {
    Actor {
        name: b"ann".to_vec(),
        email: b"ann@example.com".to_vec(),
        time: Time { seconds: 1700000000, offset: 0 },
    }
}

fn oid(b: u8) -> Oid {
    Oid::from_bytes(vec![b; 20])
}

fn commit(tree: u8, parents: Vec<Oid>, msg: &[u8]) -> CommitData {
    CommitData { tree: oid(tree), parents, author: actor(), committer: actor(), message: msg.to_vec() }
}

fn single_node_graph() -> Graph {
    let a = GraphNode { id: oid(0xaa), data: commit(0x11, vec![], b"a") };
    Graph {
        nodes: vec![a],
        refs: vec![GraphRef { name: b"refs/heads/main".to_vec(), target: oid(0xaa) }],
    }
}

fn chain_graph() -> Graph {
    let a = GraphNode { id: oid(0xaa), data: commit(0x11, vec![], b"a") };
    let c = GraphNode { id: oid(0xcc), data: commit(0x22, vec![oid(0xaa)], b"c") };
    let d = GraphNode { id: oid(0xdd), data: commit(0x33, vec![oid(0xcc)], b"d") };
    Graph { nodes: vec![a, c, d], refs: vec![] }
}

/// Opens (or creates) a bare repository for one test, with a committer
/// configured on the handle.
fn test_repo(path: &str) -> gix::Repository {
    let mut repo = match gix::open(path) {
        Ok(r) => r,
        Err(_) => gix::init_bare(path).unwrap(),
    };
    {
        let mut cfg = repo.config_snapshot_mut();
        cfg.append_config(
            ["user.name=ann", "user.email=ann@example.com"],
            gix::config::Source::Api,
        )
        .unwrap();
        cfg.commit().unwrap();
    }
    repo
}

fn to_gix_id(id: &Oid) -> gix::ObjectId {
    gix::ObjectId::try_from(id.as_bytes().as_slice()).unwrap()
}

#[test]
fn insert_blank_commit_end_to_end() {
    let path = "/tmp/graph_rebase_test_e2e";
    let repo = test_repo(path);
    let mut store = Store::new(repo);
    let g = single_node_graph();
    assert!(g.check_wf());
    let outcome: InsertCommitOutcome = insert_blank_commit(
        &g,
        &mut store,
        InsertSide::After,
        RelativeTo::Reference(b"refs/heads/main".to_vec()),
    )
    .unwrap();
    // The anchor had no descendants, so nothing was remapped.
    assert_eq!(outcome.commit_mapping.len(), 0);
    assert_eq!(outcome.blank_commit_id.as_bytes().len(), 20);
    assert!(!outcome.blank_commit_id.eq(&oid(0xaa)));
    // A second handle on the same repository sees the written blank commit,
    // with the anchor as its sole parent and the anchor's tree.
    let check = gix::open(path).unwrap();
    let new_id = to_gix_id(&outcome.blank_commit_id);
    assert!(check.has_object(&new_id));
    let obj = check.find_object(new_id).unwrap();
    assert_eq!(obj.kind, gix::objs::Kind::Commit);
    let parsed = gix::objs::CommitRef::from_bytes(&obj.data, gix::hash::Kind::Sha1).unwrap();
    assert_eq!(parsed.parents().count(), 1);
    assert_eq!(parsed.parents().next().unwrap().as_slice(), oid(0xaa).as_bytes().as_slice());
    assert_eq!(parsed.tree().as_slice(), oid(0x11).as_bytes().as_slice());
}

#[test]
fn insert_blank_commit_rewrites_descendants() {
    let path = "/tmp/graph_rebase_test_chain";
    let repo = test_repo(path);
    let mut store = Store::new(repo);
    let g = chain_graph();
    assert!(g.check_wf());
    let outcome = insert_blank_commit(
        &g,
        &mut store,
        InsertSide::After,
        RelativeTo::Commit(oid(0xaa)),
    )
    .unwrap();
    assert_eq!(outcome.commit_mapping.len(), 2);
    let c_new = outcome.commit_mapping.lookup(&oid(0xcc)).unwrap();
    let d_new = outcome.commit_mapping.lookup(&oid(0xdd)).unwrap();
    assert!(outcome.commit_mapping.lookup(&oid(0xaa)).is_none());
    // All three written objects are durably present and correctly linked.
    let check = gix::open(path).unwrap();
    for id in [&outcome.blank_commit_id, c_new, d_new] {
        assert!(check.has_object(&to_gix_id(id)));
    }
    let c2 = check.find_object(to_gix_id(c_new)).unwrap();
    let c2 = gix::objs::CommitRef::from_bytes(&c2.data, gix::hash::Kind::Sha1).unwrap();
    assert_eq!(
        c2.parents().next().unwrap().as_slice(),
        outcome.blank_commit_id.as_bytes().as_slice()
    );
    let d2 = check.find_object(to_gix_id(d_new)).unwrap();
    let d2 = gix::objs::CommitRef::from_bytes(&d2.data, gix::hash::Kind::Sha1).unwrap();
    assert_eq!(d2.parents().next().unwrap().as_slice(), c_new.as_bytes().as_slice());
}

#[test]
fn unresolved_anchor_surfaces_and_writes_nothing() {
    let path = "/tmp/graph_rebase_test_notfound";
    let repo = test_repo(path);
    let mut store = Store::new(repo);
    let g = single_node_graph();
    let r = insert_blank_commit(&g, &mut store, InsertSide::After, RelativeTo::Commit(oid(0x77)));
    assert!(matches!(r, Err(Error::AnchorNotFound(_))));
    let r = insert_blank_commit(
        &g,
        &mut store,
        InsertSide::Before,
        RelativeTo::Reference(b"refs/heads/missing".to_vec()),
    );
    assert!(matches!(r, Err(Error::AnchorNotFound(_))));
}

#[test]
fn materialize_twice_is_idempotent() {
    let path = "/tmp/graph_rebase_test_idem";
    let repo = test_repo(path);
    let mut store = Store::new(repo);
    let g = chain_graph();
    let mut editor = g.to_editor();
    let sel = editor.select_commit(&oid(0xaa)).unwrap();
    let sig = actor();
    let blank = author_blank_commit(&sig, &sig, DateMode::UpdateBoth, sig.time);
    editor.insert(&sel, blank, InsertSide::After);
    let outcome = editor.rebase().unwrap();
    let m1 = outcome.materialize(&mut store).unwrap();
    let m2 = outcome.materialize(&mut store).unwrap();
    // The same identities come out, and the second pass adds nothing new.
    assert_eq!(m1.len(), m2.len());
    assert_eq!(m1.len(), 2);
    let c1 = m1.lookup(&oid(0xcc)).unwrap();
    let c2 = m2.lookup(&oid(0xcc)).unwrap();
    assert!(c1.eq(c2));
    let d1 = m1.lookup(&oid(0xdd)).unwrap();
    let d2 = m2.lookup(&oid(0xdd)).unwrap();
    assert!(d1.eq(d2));
}

#[test]
fn undeterminable_blank_tree_fails_atomically() {
    let path = "/tmp/graph_rebase_test_atomic";
    let repo = test_repo(path);
    let mut store = Store::new(repo);
    // The span root carries a parent from outside the span, so a blank
    // commit inserted before it would need that parent's tree, which the
    // span does not hold.
    let a = GraphNode { id: oid(0xaa), data: commit(0x11, vec![oid(0x99)], b"a") };
    let g = Graph { nodes: vec![a], refs: vec![] };
    assert!(g.check_wf());
    let r = insert_blank_commit(&g, &mut store, InsertSide::Before, RelativeTo::Commit(oid(0xaa)));
    assert!(matches!(r, Err(Error::EncodingError(_))));
    // The failure is a function of the inputs alone: retrying with the same
    // inputs fails identically.
    let r2 = insert_blank_commit(&g, &mut store, InsertSide::Before, RelativeTo::Commit(oid(0xaa)));
    assert!(matches!(r2, Err(Error::EncodingError(_))));
    // The failure struck before materialization, so the store holds nothing.
    let check = gix::open(path).unwrap();
    assert_eq!(check.objects.iter().unwrap().count(), 0);
}
