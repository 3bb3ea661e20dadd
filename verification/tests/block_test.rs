use rustui::block::{Block, BlockType, Pos};

#[test]
fn test_block_type_shapes() {
    assert_eq!(
        BlockType::I.get_relative_positions(),
        [Pos::new(0, -2), Pos::new(0, -1), Pos::new(0, 1)]
    );
    assert_eq!(BlockType::Empty.get_relative_positions(), [Pos::new(0, 0); 3]);
    assert_eq!(BlockType::T.get_color(), 7);
    assert_eq!(BlockType::Empty.get_color(), 0);
    assert!(BlockType::Empty.is_empty());
    assert!(BlockType::O.is_block());
    assert_eq!(BlockType::default(), BlockType::Empty);
}

#[test]
fn test_block_type_random() {
    assert_eq!(BlockType::from_random(0), BlockType::I);
    assert_eq!(BlockType::from_random(6), BlockType::T);
    assert_eq!(BlockType::from_random(7), BlockType::I);
    assert_eq!(BlockType::from_random(10), BlockType::Z);
    for _ in 0..50 {
        assert!(BlockType::get_random().is_block());
    }
    let b = Block::new_random(Pos::new(3, 4));
    assert!(b.block_type.is_block());
    assert_eq!(b.rotation, 0);
    assert_eq!(b.center_pos, Pos::new(3, 4));
}

#[test]
fn test_block_rotation() {
    let mut b = Block::new(Pos::new(5, 5), BlockType::L);
    assert_eq!(
        b.get_relative_positions(),
        [Pos::new(5, 5), Pos::new(4, 5), Pos::new(6, 5), Pos::new(6, 4)]
    );
    b.rotate();
    assert_eq!(b.rotation, 1);
    assert_eq!(
        b.get_relative_positions(),
        [Pos::new(5, 5), Pos::new(5, 6), Pos::new(5, 4), Pos::new(4, 4)]
    );
    b.rotate_back();
    assert_eq!(b.rotation, 0);
    b.rotate_back();
    assert_eq!(b.rotation, 3);
    for _ in 0..4 {
        b.rotate();
    }
    assert_eq!(b.rotation, 3);
}

#[test]
fn test_block_move_and_init() {
    let mut b = Block::new(Pos::new(1, 1), BlockType::S);
    b.move_by(2, -1);
    assert_eq!(b.center_pos, Pos::new(3, 0));
    b.move_by(-2, 1);
    assert_eq!(b.center_pos, Pos::new(1, 1));
    b.rotate();
    b.init(Pos::new(7, 8));
    assert_eq!(b, Block::new(Pos::new(7, 8), BlockType::S));
}
