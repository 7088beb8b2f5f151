use arkanoid::error::Error;
use arkanoid::grid::GridMode;
use arkanoid::sprite::Sprite;
use arkanoid::texture::Texture;
use arkanoid::vector::Vector2;

fn sheet(width: u32, height: u32) -> Sprite {
    Sprite::from_whole_texture(&Texture::new(3, width, height))
}

#[test]
fn uniform_grid_of_64_by_64_in_cells_of_16() {
    let source = sheet(64, 64);
    let cells = source.uniform_grid(GridMode::CellSize(Vector2::new(16, 16)));
    assert_eq!(cells.len(), 16);
    assert_eq!(cells[5].get_offset(), Vector2::new(16, 16));
    assert_eq!(cells[5].get_size(), Vector2::new(16, 16));
    assert_eq!(cells[5].get_texture(), source.get_texture());
}

#[test]
fn uniform_grid_is_row_major() {
    let source = sheet(48, 20);
    let cells = source.uniform_grid(GridMode::CellSize(Vector2::new(16, 10)));
    assert_eq!(cells.len(), 6);
    let offsets: Vec<Vector2<u32>> = cells.iter().map(|cell| cell.get_offset()).collect();
    assert_eq!(
        offsets,
        vec![
            Vector2::new(0, 0),
            Vector2::new(16, 0),
            Vector2::new(32, 0),
            Vector2::new(0, 10),
            Vector2::new(16, 10),
            Vector2::new(32, 10),
        ]
    );
}

#[test]
fn uniform_grid_leaves_out_what_fills_no_cell() {
    let source = sheet(70, 33);
    let cells = source.uniform_grid(GridMode::CellSize(Vector2::new(16, 16)));
    assert_eq!(cells.len(), 8);
    assert_eq!(cells[7].get_offset(), Vector2::new(48, 16));
    assert_eq!(cells[7].get_size(), Vector2::new(16, 16));
}

#[test]
fn uniform_grid_with_cells_larger_than_the_source_is_empty() {
    let source = sheet(10, 10);
    let cells = source.uniform_grid(GridMode::CellSize(Vector2::new(16, 4)));
    assert_eq!(cells.len(), 0);
}

#[test]
fn uniform_grid_by_count_divides_the_size() {
    let source = sheet(70, 30);
    let cells = source.uniform_grid(GridMode::CellCount(Vector2::new(4, 3)));
    assert_eq!(cells.len(), 12);
    assert_eq!(cells[0].get_size(), Vector2::new(17, 10));
    assert_eq!(cells[6].get_offset(), Vector2::new(34, 10));
    assert_eq!(cells[11].get_offset(), Vector2::new(51, 20));
}

#[test]
fn uniform_grid_by_count_larger_than_the_size_has_empty_cells() {
    let source = sheet(2, 2);
    let cells = source.uniform_grid(GridMode::CellCount(Vector2::new(3, 1)));
    assert_eq!(cells.len(), 3);
    assert_eq!(cells[2].get_size(), Vector2::new(0, 2));
    assert_eq!(cells[2].get_offset(), Vector2::new(0, 0));
}

#[test]
fn uniform_grid_of_a_slice_counts_from_the_corner_of_the_slice() {
    let source = sheet(64, 64).slice(Vector2::new(32, 32), Vector2::new(16, 8)).unwrap();
    let cells = source.uniform_grid(GridMode::CellSize(Vector2::new(16, 16)));
    assert_eq!(cells.len(), 4);
    assert_eq!(cells[0].get_offset(), Vector2::new(16, 8));
    assert_eq!(cells[3].get_offset(), Vector2::new(32, 24));
}

#[test]
fn non_uniform_grid_offsets_are_prefix_sums() {
    let source = sheet(64, 64);
    let cells = source.non_uniform_grid(&[10, 20], &[5, 6, 7]).unwrap();
    assert_eq!(cells.len(), 6);
    let offsets: Vec<Vector2<u32>> = cells.iter().map(|cell| cell.get_offset()).collect();
    assert_eq!(
        offsets,
        vec![
            Vector2::new(0, 0),
            Vector2::new(5, 0),
            Vector2::new(11, 0),
            Vector2::new(0, 10),
            Vector2::new(5, 10),
            Vector2::new(11, 10),
        ]
    );
    assert_eq!(cells[4].get_size(), Vector2::new(6, 20));
    assert_eq!(cells[2].get_size(), Vector2::new(7, 10));
}

#[test]
fn non_uniform_grid_that_fills_the_texture_is_accepted() {
    let source = sheet(18, 30);
    let cells = source.non_uniform_grid(&[10, 20], &[5, 6, 7]).unwrap();
    assert_eq!(cells.len(), 6);
}

#[test]
fn non_uniform_grid_wider_than_the_texture_is_refused() {
    let source = sheet(17, 30);
    assert_eq!(source.non_uniform_grid(&[10, 20], &[5, 6, 7]), Err(Error::OutOfBounds));
}

#[test]
fn non_uniform_grid_higher_than_the_texture_is_refused() {
    let source = sheet(18, 29);
    assert_eq!(source.non_uniform_grid(&[10, 20], &[5, 6, 7]), Err(Error::OutOfBounds));
}

#[test]
fn non_uniform_grid_without_rows_or_columns_is_empty() {
    let source = sheet(4, 4);
    assert_eq!(source.non_uniform_grid(&[], &[100]).unwrap().len(), 0);
    assert_eq!(source.non_uniform_grid(&[100], &[]).unwrap().len(), 0);
}

#[test]
fn non_uniform_grid_does_not_wrap_around_on_huge_sizes() {
    let source = sheet(64, 64);
    assert_eq!(
        source.non_uniform_grid(&[1], &[u32::MAX, u32::MAX, 2]),
        Err(Error::OutOfBounds)
    );
}

#[test]
fn non_uniform_grid_of_a_slice_counts_from_the_corner_of_the_slice() {
    let source = sheet(64, 64).slice(Vector2::new(8, 8), Vector2::new(50, 40)).unwrap();
    let cells = source.non_uniform_grid(&[4, 4], &[7, 7]).unwrap();
    assert_eq!(cells[3].get_offset(), Vector2::new(57, 44));
    assert_eq!(source.non_uniform_grid(&[4, 4], &[7, 8]), Err(Error::OutOfBounds));
}
