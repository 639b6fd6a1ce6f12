use macroquad::error::FatalError;
use macroquad::object::{Object, ObjectKind};
use macroquad::scene::{all_scene_objects, clear, GameObject, Scene};

#[test]
fn allocate_then_acquire_returns_equal_value() {
    let mut scene = Scene::new();
    let h = GameObject::new(
        &mut scene,
        Object::Bird { x: 3, y: 4, vel_x: 1, vel_y: 2 },
    );
    assert_eq!(h.id, 0);
    assert_eq!(h.kind, ObjectKind::Bird);
    let g = h.get(&mut scene);
    assert_eq!(g.id(), h.id);
    match g.object() {
        Object::Bird { x, y, vel_x, vel_y } => {
            assert_eq!((*x, *y, *vel_x, *vel_y), (3, 4, 1, 2));
        },
        _ => panic!("expected a bird"),
    }
    g.release(&mut scene);
}

#[test]
fn acquire_mutate_release_acquire_round_trips() {
    let mut scene = Scene::new();
    let h = GameObject::new(
        &mut scene,
        Object::Bird { x: 0, y: 0, vel_x: 0, vel_y: 0 },
    );
    let mut g = h.get(&mut scene);
    g.set_object(Object::Bird { x: 0, y: 0, vel_x: 7, vel_y: -9 });
    g.release(&mut scene);
    let g2 = h.get(&mut scene);
    match g2.object() {
        Object::Bird { vel_x, vel_y, .. } => {
            assert_eq!((*vel_x, *vel_y), (7, -9));
        },
        _ => panic!("expected a bird"),
    }
    g2.release(&mut scene);
}

#[test]
fn delete_makes_every_subsequent_acquire_fail() {
    let mut scene = Scene::new();
    let h = GameObject::new(&mut scene, Object::Obstacle { x: 10, y: 0 });
    let mut g = h.get(&mut scene);
    g.delete();
    assert!(g.is_deleted());
    g.release(&mut scene);
    assert!(!scene.has(h.id));
    assert_eq!(h.try_get(&mut scene).err(), Some(FatalError::InvariantViolation));
    // The slot stays empty under further allocation elsewhere.
    let _other = GameObject::new(&mut scene, Object::Obstacle { x: 20, y: 0 });
    assert_eq!(h.try_get(&mut scene).err(), Some(FatalError::InvariantViolation));
}

#[test]
fn acquire_with_wrong_kind_marker_fails() {
    let mut scene = Scene::new();
    let h = GameObject::new(&mut scene, Object::Obstacle { x: 1, y: 2 });
    let forged = GameObject { id: h.id, kind: ObjectKind::Bird };
    assert_eq!(forged.try_get(&mut scene).err(), Some(FatalError::InvariantViolation));
    // The failed acquire left the slot intact.
    assert!(scene.has(h.id));
}

#[test]
fn acquire_never_allocated_slot_fails() {
    let mut scene = Scene::new();
    let phantom = GameObject { id: 5, kind: ObjectKind::Bird };
    assert_eq!(phantom.try_get(&mut scene).err(), Some(FatalError::InvariantViolation));
}

#[test]
fn acquire_while_borrowed_fails() {
    let mut scene = Scene::new();
    let h = GameObject::new(&mut scene, Object::Obstacle { x: 1, y: 1 });
    let g = h.get(&mut scene);
    // The slot is empty while the guard is outstanding.
    assert_eq!(h.try_get(&mut scene).err(), Some(FatalError::InvariantViolation));
    g.release(&mut scene);
    assert!(scene.has(h.id));
}

#[test]
fn indices_are_stable_and_never_reused() {
    let mut scene = Scene::new();
    let a = GameObject::new(&mut scene, Object::Obstacle { x: 1, y: 0 });
    let b = GameObject::new(&mut scene, Object::Bird { x: 0, y: 0, vel_x: 0, vel_y: 0 });
    assert_eq!((a.id, b.id), (0, 1));
    let mut g = a.get(&mut scene);
    g.delete();
    g.release(&mut scene);
    // A deleted slot's index is not handed out again.
    let c = GameObject::new(&mut scene, Object::Obstacle { x: 2, y: 0 });
    assert_eq!(c.id, 2);
    assert_eq!(scene.len(), 3);
}

#[test]
fn all_scene_objects_lists_live_slots_in_index_order() {
    let mut scene = Scene::new();
    let a = GameObject::new(&mut scene, Object::Obstacle { x: 1, y: 0 });
    let b = GameObject::new(&mut scene, Object::Bird { x: 0, y: 0, vel_x: 0, vel_y: 0 });
    let c = GameObject::new(&mut scene, Object::Markers { values: vec![] });
    let mut g = b.get(&mut scene);
    g.delete();
    g.release(&mut scene);
    let live = all_scene_objects(&scene);
    assert_eq!(
        live,
        vec![(a.id, ObjectKind::Obstacle), (c.id, ObjectKind::Markers)]
    );
}

#[test]
fn clear_empties_the_arena() {
    let mut scene = Scene::new();
    let _ = GameObject::new(&mut scene, Object::Obstacle { x: 1, y: 0 });
    let _ = GameObject::new(&mut scene, Object::Obstacle { x: 2, y: 0 });
    clear(&mut scene);
    assert_eq!(scene.len(), 0);
    assert!(all_scene_objects(&scene).is_empty());
}

#[test]
fn kind_at_reports_the_concrete_kind() {
    let mut scene = Scene::new();
    let a = GameObject::new(&mut scene, Object::Markers { values: vec![1, 2] });
    assert_eq!(scene.kind_at(a.id), Some(ObjectKind::Markers));
    assert_eq!(scene.kind_at(17), None);
}
