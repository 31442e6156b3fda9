use renderer::instance_batch::InstanceBatch;
use renderer::scene_node::SceneNode;

#[test]
fn walk_visits_parents_before_children() {
    // root(1) -> [a(2) -> [c(4)], invisible(3) -> [d(5), e(6)]]
    let c = SceneNode::from_payload(40, 'c');
    let a = SceneNode::from_payload_children(20, 'a', vec![c]);
    let d = SceneNode::from_payload(50, 'd');
    let e = SceneNode::from_payload(60, 'e');
    let hidden = SceneNode::invisible(30, vec![d, e]);
    let root = SceneNode::from_payload_children(10, 'r', vec![a, hidden]);

    let steps = root.draw_steps();
    let parents: Vec<Option<usize>> = steps.iter().map(|s| s.parent).collect();
    let locals: Vec<i32> = steps.iter().map(|s| *s.local).collect();
    let payloads: Vec<Option<char>> = steps.iter().map(|s| s.payload.copied()).collect();
    assert_eq!(parents, vec![None, Some(0), Some(1), Some(0), Some(3), Some(3)]);
    assert_eq!(locals, vec![10, 20, 40, 30, 50, 60]);
    assert_eq!(
        payloads,
        vec![Some('r'), Some('a'), Some('c'), None, Some('d'), Some('e')]
    );
}

#[test]
fn world_transforms_compose_along_the_walk() {
    let leaf = SceneNode::from_payload(3, "leaf");
    let mid = SceneNode::from_payload_children(2, "mid", vec![leaf]);
    let root = SceneNode::invisible(1, vec![mid]);
    let steps = root.draw_steps();
    let mut worlds: Vec<i32> = Vec::new();
    for step in &steps {
        let world = match step.parent {
            Some(p) => worlds[p] + *step.local,
            None => *step.local,
        };
        worlds.push(world);
    }
    assert_eq!(worlds, vec![1, 3, 6]);
}

#[test]
fn single_node_walk() {
    let node: SceneNode<u8, u8> = SceneNode::invisible(7, vec![]);
    let steps = node.draw_steps();
    assert_eq!(steps.len(), 1);
    assert_eq!(steps[0].parent, None);
    assert!(steps[0].payload.is_none());
}

#[test]
fn instance_batch_pairs_and_clears() {
    let mut batch: InstanceBatch<&str, u32> = InstanceBatch::new();
    assert!(batch.is_empty());
    batch.add("circle", 1);
    batch.add("square", 2);
    assert_eq!(batch.len(), 2);
    assert_eq!(batch.instances(), &vec!["circle", "square"]);
    assert_eq!(batch.transforms(), &vec![1, 2]);
    assert_eq!(batch.instance_range(), 0..2);
    batch.clear();
    assert!(batch.is_empty());
    assert_eq!(batch.instance_range(), 0..0);
}
