use rustui::block::{Block, BlockType, Pos};
use rustui::field::{get_field, FieldExt, FIELD_HEIGHT, FIELD_MARGIN, FIELD_WIDTH};

#[test]
fn test_field_set_and_remove_block() {
    let mut field = get_field();
    let original = field;
    let block = Block::new(Pos::new(4, 10), BlockType::T);
    assert!(!field.check_collision(&block));
    assert!(field.set_block(&block));
    assert_eq!(field.get_block(4, 10), Some(BlockType::T));
    assert_eq!(field.get_block(3, 10), Some(BlockType::T));
    assert_eq!(field.get_block(5, 10), Some(BlockType::T));
    assert_eq!(field.get_block(4, 9), Some(BlockType::T));
    assert_eq!(field.get_block(4, 11), None);
    // The same block no longer fits, and placing it again fails
    assert!(field.check_collision(&block));
    assert!(!field.set_block(&block));
    field.remove_block(&block);
    assert_eq!(field, original);
}

#[test]
fn test_field_collision_at_edges() {
    let field = get_field();
    assert!(field.check_collision(&Block::new(Pos::new(0, 5), BlockType::T)));
    assert!(field.check_collision(&Block::new(Pos::new(5, 0), BlockType::T)));
    assert!(field.check_collision(&Block::new(Pos::new(5, 24), BlockType::O)));
    assert!(!field.check_collision(&Block::new(Pos::new(1, 1), BlockType::T)));
    assert!(field.is_valid(9, 23));
    assert!(!field.is_valid(10, 0));
    assert!(!field.is_valid(0, 24));
    assert_eq!(field.get_block(100, 100), None);
}

#[test]
fn test_field_gameover() {
    let mut field = get_field();
    assert!(!field.is_gameover());
    field[FIELD_MARGIN][3] = Some(BlockType::I);
    assert!(field.is_gameover());
}

#[test]
fn test_field_clear_lines() {
    let mut field = get_field();
    for x in 0..FIELD_WIDTH {
        field[FIELD_HEIGHT - 1][x] = Some(BlockType::O);
        field[FIELD_HEIGHT - 3][x] = Some(BlockType::I);
    }
    field[FIELD_HEIGHT - 2][0] = Some(BlockType::S);
    field[FIELD_HEIGHT - 4][9] = Some(BlockType::Z);
    assert!(field.check_complete_line(FIELD_HEIGHT - 1));
    assert!(!field.check_complete_line(FIELD_HEIGHT - 2));
    assert_eq!(field.clear_lines(), 2);
    // The two incomplete rows moved down to the bottom, in order
    assert_eq!(field[FIELD_HEIGHT - 1][0], Some(BlockType::S));
    assert_eq!(field[FIELD_HEIGHT - 2][9], Some(BlockType::Z));
    for y in 0..FIELD_HEIGHT - 2 {
        for x in 0..FIELD_WIDTH {
            assert_eq!(field[y][x], None);
        }
    }
    assert_eq!(field.clear_lines(), 0);
}
