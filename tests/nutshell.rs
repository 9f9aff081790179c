use uninutsh::geometry::{Rectangle, Vector2};
use uninutsh::nutshell::{Cell, Nutshell};
use uninutsh::room::{Occupant, Room};
use uninutsh::window::{create_pixels, flip_rows, WindowOptions};

fn lattice() -> Nutshell {
    Nutshell::new(2, Vector2::new(3, 2), vec![4, 5], vec![6, 7], vec![8, 9])
}

#[test]
fn new_layers_know_their_rings() {
    let n = lattice();
    assert_eq!(n.cells.len(), 2);
    assert_eq!(n.cells[1].colors, 5);
    assert_eq!(n.cells[0].saturations, 6);
    assert_eq!(n.cells[1].brightnessess, 9);
    for layer in &n.cells {
        assert_eq!(layer.front.len(), 6);
        assert_eq!(layer.back.len(), 6);
        for c in layer.front.iter().chain(layer.back.iter()) {
            assert_eq!(c.neighbors.len(), 9);
            assert_eq!((c.color, c.saturation, c.brightness), (0, 0, 0));
        }
    }
    let ring = &n.cells[0].front[n.index_at(0, 0)].neighbors;
    assert_eq!(ring[0], Vector2::new(2, 1));
    assert_eq!(ring[4], Vector2::new(0, 0));
    assert_eq!(ring[8], Vector2::new(1, 1));
}

#[test]
fn add_neighbors_extends_every_layer() {
    let mut n = lattice();
    n.add_neighbors(1, 1, vec![Vector2::new(2, 0), Vector2::new(0, 1)]);
    let i = n.index_at(1, 1);
    for layer in &n.cells {
        assert_eq!(layer.front[i].neighbors.len(), 11);
        assert_eq!(layer.back[i].neighbors[10], Vector2::new(0, 1));
        assert_eq!(layer.front[0].neighbors.len(), 9);
    }
}

#[test]
fn fill_back_copies_channels_only() {
    let mut n = lattice();
    n.cells[1].front[2].color = 3;
    n.cells[1].front[2].brightness = 1;
    n.fill_back();
    assert_eq!(n.cells[1].back[2].color, 3);
    assert_eq!(n.cells[1].back[2].brightness, 1);
    assert_eq!(n.cells[1].back[2].neighbors.len(), 9);
}

#[test]
fn back_cell_changes_in_place() {
    let mut n = lattice();
    {
        let c = n.back_cell(1, 2, 1);
        c.saturation = 4;
    }
    assert_eq!(n.cells[1].back[5].saturation, 4);
    assert_eq!(n.cells[1].front[5].saturation, 0);
    assert_eq!(n.cells[0].back[5].saturation, 0);
}

#[test]
fn grid_moves_and_sizes() {
    let n = lattice();
    assert_eq!(n.width(), 3);
    assert_eq!(n.height(), 2);
    assert_eq!(n.left(0), 2);
    assert_eq!(n.right(2), 0);
    assert_eq!(n.up(0), 1);
    assert_eq!(n.down(1), 0);
    assert_eq!(n.rigth_pos(2, 1), Vector2::new(0, 1));
    assert_eq!(n.left_pos(1, 1), Vector2::new(0, 1));
    assert_eq!(n.up_pos(1, 1), Vector2::new(1, 0));
    assert_eq!(n.down_pos(1, 1), Vector2::new(1, 0));
    assert_eq!(n.neighborhood(1, 0, 0), vec![Vector2::new(1, 0)]);
}

#[test]
fn cell_starts_without_neighbors() {
    let c = Cell::new(1, 2, 3);
    assert!(c.neighbors.is_empty());
    assert_eq!((c.color, c.saturation, c.brightness), (1, 2, 3));
}

#[test]
fn rectangle_holds_corner_and_size() {
    let r = Rectangle::new(1, 2, 30, 40);
    assert_eq!(r.position, Vector2::new(1, 2));
    assert_eq!(r.size, Vector2::new(30, 40));
}

struct Stone;

impl Occupant for Stone {}

#[test]
fn room_cells_are_row_major_and_empty() {
    let room: Room<Stone> = Room::new(4, 2);
    assert_eq!(room.cells.len(), 8);
    assert_eq!(room.cells[5].position, Vector2::new(1, 1));
    assert!(room.cells.iter().all(|c| c.occupant.is_none()));
}

#[test]
fn pixels_start_white() {
    let p = create_pixels(2, 3);
    assert_eq!(p.len(), 24);
    assert!(p.iter().all(|b| *b == 255));
    let options = WindowOptions {
        update_delta: std::time::Duration::from_millis(16),
        title: String::from("space-time"),
        size: Vector2::new(1280, 720),
        graphics_size: Vector2::new(60, 60),
    };
    assert_eq!(options.graphics_size.x, 60);
}

#[test]
fn flip_rows_puts_the_bottom_row_first() {
    // Two pixels wide, three high: rows of eight bytes.
    let image: Vec<u8> = (0..24).collect();
    let mut pixels = create_pixels(2, 3);
    flip_rows(&image, 2, 3, &mut pixels);
    let mut want: Vec<u8> = Vec::new();
    want.extend(16..24);
    want.extend(8..16);
    want.extend(0..8);
    assert_eq!(pixels, want);
}
