use path_tracer::bounding_volume::AxisAlignedBoundingBox;
use path_tracer::bvh_node::BVHNode;
use path_tracer::config::{bound, check_lights, create_tree, ConfigError, Extent};
use path_tracer::hittable_list::HittableList;
use path_tracer::point::Point;

fn cube(at: i32) -> AxisAlignedBoundingBox {
    AxisAlignedBoundingBox {
        minimum: Point { x: at, y: at, z: at },
        maximum: Point { x: at + 1, y: at + 1, z: at + 1 },
    }
}

fn still(at: i32) -> Extent {
    Extent { at_rest: Some(cube(at)), swept: Some(cube(at)) }
}

#[test]
fn bound_refuses_an_empty_scene() {
    assert_eq!(bound(&Vec::new()), Err(ConfigError::EmptyScene));
    assert!(matches!(create_tree(&Vec::new()), Err(ConfigError::EmptyScene)));
}

#[test]
fn bound_names_the_first_object_without_a_box() {
    let bare = Extent { at_rest: None, swept: None };
    let half = Extent { at_rest: Some(cube(0)), swept: None };
    let other_half = Extent { at_rest: None, swept: Some(cube(0)) };
    assert_eq!(bound(&vec![bare]), Err(ConfigError::Unbounded(0)));
    assert_eq!(bound(&vec![still(0), still(1), half, bare]), Err(ConfigError::Unbounded(2)));
    assert_eq!(bound(&vec![still(0), other_half, still(1)]), Err(ConfigError::Unbounded(1)));
    assert!(matches!(
        create_tree(&vec![still(0), still(1), bare]),
        Err(ConfigError::Unbounded(2))
    ));
}

#[test]
fn bound_orders_by_the_box_at_rest_and_bounds_by_the_swept_one() {
    let moving = Extent { at_rest: Some(cube(5)), swept: Some(cube(9)) };
    let objects = bound(&vec![still(3), moving]).unwrap();
    assert_eq!(objects.len(), 2);
    assert_eq!(objects[0].object, 0);
    assert_eq!(objects[0].anchor, cube(3).minimum);
    assert_eq!(objects[0].bound_box, cube(3));
    assert_eq!(objects[1].object, 1);
    assert_eq!(objects[1].anchor, cube(5).minimum);
    assert_eq!(objects[1].bound_box, cube(9));
}

#[test]
fn create_tree_builds_over_a_sound_scene() {
    let extents: Vec<Extent> = [4, 2, 8, 6, 0].iter().map(|at| still(*at)).collect();
    let (tree, leaves) = create_tree(&extents).unwrap();
    let order: Vec<usize> = leaves.iter().map(|b| b.object).collect();
    assert_eq!(order, vec![4, 1, 0, 3, 2]);
    assert_eq!(tree.bounding_box().minimum, cube(0).minimum);
    assert_eq!(tree.bounding_box().maximum, cube(8).maximum);
    assert!(matches!(tree, BVHNode::Pair { .. }));
}

#[test]
fn lights_must_be_there() {
    let mut lights = HittableList::new();
    assert_eq!(check_lights(&lights), Err(ConfigError::NoLights));
    lights.add(0);
    assert_eq!(check_lights(&lights), Ok(()));
    lights.add(1);
    assert_eq!(check_lights(&lights), Ok(()));
}
