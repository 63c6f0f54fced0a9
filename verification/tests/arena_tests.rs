use podracer::map::{arena_walls, Arena, Wall, ARENA_HALF_HEIGHT, ARENA_HALF_WIDTH, WALL_THICKNESS};

#[test]
fn arena_is_160_by_120() {
    let a = Arena::new();
    assert_eq!((a.half_width, a.half_height), (80, 60));
    assert_eq!((ARENA_HALF_WIDTH, ARENA_HALF_HEIGHT, WALL_THICKNESS), (80, 60, 1));
}

#[test]
fn arena_walls_layout() {
    let w = Arena::new().walls();
    assert_eq!(w[0], Wall { x: 0, y: 61, half_width: 81, half_height: 1 });
    assert_eq!(w[1], Wall { x: 0, y: -61, half_width: 81, half_height: 1 });
    assert_eq!(w[2], Wall { x: -81, y: 0, half_width: 1, half_height: 61 });
    assert_eq!(w[3], Wall { x: 81, y: 0, half_width: 1, half_height: 61 });
}

#[test]
fn walls_inner_faces_bound_the_arena() {
    let w = arena_walls(10, 4, 2);
    assert_eq!(w[0].y - w[0].half_height, 4);
    assert_eq!(w[1].y + w[1].half_height, -4);
    assert_eq!(w[2].x + w[2].half_width, -10);
    assert_eq!(w[3].x - w[3].half_width, 10);
    assert!(w[0].x + w[0].half_width > w[3].x - w[3].half_width);
    assert!(w[3].y + w[3].half_height > w[0].y - w[0].half_height);
}
