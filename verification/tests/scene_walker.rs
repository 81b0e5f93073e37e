use scene_augment::scene::{descendants, DescendantWalker, SceneGraph};
use scene_augment::store::MaterialRef;

/// root(0) -> a(1), b(2); a -> c(3); plus an unrelated root(4) -> d(5)
fn sample_scene() -> (SceneGraph, usize) {
    let mut scene = SceneGraph::new();
    let root = scene.spawn(None, None);
    let a = scene.spawn(Some(root), Some(MaterialRef::Base(0)));
    let _b = scene.spawn(Some(root), None);
    let _c = scene.spawn(Some(a), None);
    let other = scene.spawn(None, None);
    let _d = scene.spawn(Some(other), None);
    (scene, root)
}

#[test]
fn walker_yields_every_descendant_exactly_once() {
    let (scene, root) = sample_scene();
    let mut walker = DescendantWalker::new(root);
    let mut seen = Vec::new();
    while let Some(e) = walker.next(&scene) {
        seen.push(e);
    }
    seen.sort();
    assert_eq!(seen, vec![1, 2, 3]);
}

#[test]
fn collected_descendants_match_the_walk() {
    let (scene, root) = sample_scene();
    assert_eq!(descendants(&scene, root), vec![1, 2, 3]);
    assert_eq!(descendants(&scene, 4), vec![5]);
    assert_eq!(descendants(&scene, 5), Vec::<usize>::new());
}

#[test]
fn walker_on_a_childless_root_is_immediately_empty() {
    let mut scene = SceneGraph::new();
    let root = scene.spawn(None, None);
    let mut walker = DescendantWalker::new(root);
    assert_eq!(walker.next(&scene), None);
}

#[test]
fn walker_is_not_restartable() {
    let (scene, root) = sample_scene();
    let mut walker = DescendantWalker::new(root);
    while walker.next(&scene).is_some() {}
    // exhausted: the cursor never rewinds
    assert_eq!(walker.next(&scene), None);
    assert_eq!(walker.next(&scene), None);
}

#[test]
fn descendant_test_follows_parent_chains_only() {
    let (scene, root) = sample_scene();
    assert!(scene.is_descendant_of(1, root));
    assert!(scene.is_descendant_of(2, root));
    assert!(scene.is_descendant_of(3, root));
    // a root is not its own descendant
    assert!(!scene.is_descendant_of(root, root));
    // the unrelated tree stays out
    assert!(!scene.is_descendant_of(4, root));
    assert!(!scene.is_descendant_of(5, root));
    // and the relation is directed
    assert!(!scene.is_descendant_of(root, 1));
}

#[test]
fn set_material_replaces_without_a_gap() {
    let mut scene = SceneGraph::new();
    let root = scene.spawn(None, None);
    let child = scene.spawn(Some(root), Some(MaterialRef::Base(0)));
    scene.set_material(child, MaterialRef::Composite(4));
    assert_eq!(
        scene.entities[child].material,
        Some(MaterialRef::Composite(4))
    );
    assert_eq!(scene.entities[child].parent, Some(root));
}
