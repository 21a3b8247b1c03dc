use merkle_lab::chain::Block;
use std::rc::Rc;

#[test]
fn children_share_their_parent() {
    let genesis = Rc::new(Block::new(0, None));
    let block1 = Block::new(1, Some(Rc::clone(&genesis)));
    let block2 = Block::new(2, Some(Rc::clone(&genesis)));
    assert_eq!(Rc::strong_count(&genesis), 3);
    assert_eq!(block1.parent.as_ref().map(|p| p.id), Some(0));
    assert_eq!(block2.parent.as_ref().map(|p| p.id), Some(0));
    drop(block1);
    assert_eq!(Rc::strong_count(&genesis), 2);
    drop(block2);
    assert_eq!(Rc::strong_count(&genesis), 1);
}

#[test]
fn a_block_keeps_its_id_and_parent() {
    let genesis = Block::new(0, None);
    assert_eq!(genesis.id, 0);
    assert!(genesis.parent.is_none());
}
