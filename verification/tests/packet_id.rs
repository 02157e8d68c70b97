use hivemqtt::packet_id::shard::PacketIdShard;
use hivemqtt::packet_id::PacketIdManager;

#[test]
fn creates_a_packetid_manager() {
    let manager = PacketIdManager::new(100);
    assert!(!manager.is_occupied(0));
    assert!(!manager.is_occupied(99));
}

#[test]
fn can_allocate_a_packet_id() {
    let mut manager = PacketIdManager::new(100);
    assert_eq!(manager.allocate(), Some(0));
    assert_eq!(manager.allocate(), Some(1));
    assert!(manager.is_occupied(0));
    assert!(manager.is_occupied(1));
    assert!(!manager.is_occupied(2));
}

#[test]
fn can_release_a_packet_id() {
    let mut manager = PacketIdManager::new(100);
    assert_eq!(manager.allocate(), Some(0));
    assert_eq!(manager.allocate(), Some(1));
    manager.release(0);
    assert!(!manager.is_occupied(0));
    assert!(manager.is_occupied(1));
    assert_eq!(manager.allocate(), Some(0));
}

#[test]
fn must_not_panick_if_packet_id_is_out_of_bounds() {
    let mut manager = PacketIdManager::new(10);
    manager.release(1000);
    manager.release(u16::MAX);
    assert!(!manager.is_occupied(1000));
    assert_eq!(manager.allocate(), Some(0));
}

#[test]
fn should_return_the_nearest_id() {
    let mut shard = PacketIdShard(0x1DF);
    let expected = 0b000111011111usize;
    let next_index = shard.allocate();
    assert_eq!(next_index, Some((!expected).trailing_zeros() as u16));
}

#[test]
fn should_return_none_if_there_is_no_more_space() {
    let mut shard = PacketIdShard(usize::MAX);
    let next_index = shard.allocate();
    assert_eq!(next_index, None);
    assert_eq!(shard.0, usize::MAX);
}

#[test]
fn allocation_moves_on_to_the_next_shard_when_one_is_full() {
    let bits = usize::BITS as u16;
    let mut manager = PacketIdManager::new(2 * bits);
    for expected in 0..bits {
        assert_eq!(manager.allocate(), Some(expected));
    }
    assert_eq!(manager.allocate(), Some(bits));
    manager.release(5);
    assert_eq!(manager.allocate(), Some(5));
}

#[test]
fn allocation_fails_when_max_packets_ids_are_in_use() {
    let mut manager = PacketIdManager::new(10);
    for expected in 0..10 {
        assert_eq!(manager.allocate(), Some(expected));
    }
    assert_eq!(manager.allocate(), None);
    assert!(!manager.is_occupied(10));
    manager.release(3);
    assert_eq!(manager.allocate(), Some(3));
    assert_eq!(manager.allocate(), None);
}

#[test]
fn a_manager_for_no_ids_allocates_nothing() {
    let mut manager = PacketIdManager::new(0);
    assert_eq!(manager.allocate(), None);
}

#[test]
fn release_after_allocate_restores_the_shard() {
    let mut shard = PacketIdShard(0b1011);
    let id = shard.allocate().unwrap();
    assert_eq!(id, 2);
    assert_eq!(shard.0, 0b1111);
    shard.release(id);
    assert_eq!(shard.0, 0b1011);
}
