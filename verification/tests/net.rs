use tiny_media_server::io::NetAddr;
use tiny_media_server::net::socket2_io_uring::{
    Completion, GroupIndex, UdpSocket2IoUring, UserData,
};
use tiny_media_server::net::socket2_mmsg::UdpSocket2Mmsg;
use tiny_media_server::net::NetError;

fn send_done(slot: u32) -> Completion {
    Completion { user_data: u64::from(UserData::Send(slot)), more: false, buffer_id: None }
}

#[test]
fn group_index_numbers_slots_through_groups() {
    assert_eq!(GroupIndex::to_u32(0, 0), 0);
    assert_eq!(GroupIndex::to_u32(0, 15), 15);
    assert_eq!(GroupIndex::to_u32(1, 0), 16);
    assert_eq!(GroupIndex::to_u32(3, 5), 53);
    assert_eq!(GroupIndex::to_u32(65535, 65535), 65535 * 16 + 65535);
    assert_eq!(GroupIndex::index(0), 0);
    assert_eq!(GroupIndex::index(16), 0);
    assert_eq!(GroupIndex::index(53), 5);
    assert_eq!(GroupIndex::index(u32::MAX), 15);
}

#[test]
fn user_data_words() {
    assert_eq!(u64::from(UserData::Send(7)), 7);
    assert_eq!(u64::from(UserData::Recv(7)), 0x01_0000_0007);
    assert_eq!(u64::from(UserData::ProvideBuffers(7)), 0x02_0000_0007);
    assert_eq!(u64::from(UserData::Send(u32::MAX)), 0xffff_ffff);
    assert_eq!(u64::from(UserData::Recv(u16::MAX)), 0x01_0000_ffff);
    assert_eq!(u64::from(UserData::ProvideBuffers(u32::MAX)), 0x02_ffff_ffff);
}

#[test]
fn user_data_round_trip() {
    for idx in [0u32, 1, 15, 16, 2047, 65535, 65536, u32::MAX] {
        assert_eq!(UserData::from(u64::from(UserData::Send(idx))), UserData::Send(idx));
        assert_eq!(
            UserData::from(u64::from(UserData::ProvideBuffers(idx))),
            UserData::ProvideBuffers(idx)
        );
    }
    for idx in [0u16, 1, 127, u16::MAX] {
        assert_eq!(UserData::from(u64::from(UserData::Recv(idx))), UserData::Recv(idx));
    }
}

#[test]
fn unknown_tag_reads_as_send() {
    assert_eq!(UserData::from(0x03_0000_0009), UserData::Send(9));
    assert_eq!(UserData::from(u64::MAX), UserData::Send(u32::MAX));
    assert_eq!(UserData::from(0x01_0001_0002), UserData::Recv(2));
}

#[test]
fn ring_hands_out_slots_in_order() {
    let mut ring = UdpSocket2IoUring::<4, 16>::new();
    assert!(!ring.needs_submit());
    assert_eq!(ring.add_send_to(4), Ok((0, 0)));
    assert_eq!(ring.add_send_to(4), Ok((1, 1)));
    assert!(ring.needs_submit());
    ring.commit_send_to();
    assert!(!ring.needs_submit());
    assert_eq!(ring.add_send_to(1500), Ok((2, 2)));
    assert_eq!(ring.add_send_to(0), Ok((3, 3)));
}

#[test]
fn one_send_more_than_the_ring_holds_would_block() {
    let mut ring = UdpSocket2IoUring::<2, 16>::new();
    assert_eq!(ring.add_send_to(10), Ok((0, 0)));
    assert_eq!(ring.add_send_to(10), Ok((1, 1)));
    assert_eq!(ring.add_send_to(10), Err(NetError::WouldBlock));
    assert_eq!(ring.add_send_to(10), Err(NetError::WouldBlock));
    ring.poll_completion(send_done(1));
    assert_eq!(ring.add_send_to(10), Ok((1, 1)));
    assert_eq!(ring.add_send_to(10), Err(NetError::WouldBlock));
}

#[test]
fn too_large_datagram_takes_no_slot() {
    let mut ring = UdpSocket2IoUring::<1, 16>::new();
    assert_eq!(ring.add_send_to(1501), Err(NetError::TooLarge));
    assert!(!ring.needs_submit());
    assert_eq!(ring.add_send_to(1500), Ok((0, 0)));
    assert_eq!(ring.add_send_to(1501), Err(NetError::WouldBlock));
    assert_eq!(ring.add_send_to(usize::MAX), Err(NetError::WouldBlock));
    assert_eq!(ring.add_send_to(1), Err(NetError::WouldBlock));
    ring.poll_completion(send_done(0));
    assert_eq!(ring.add_send_to(1501), Err(NetError::TooLarge));
    assert_eq!(ring.add_send_to(1), Ok((0, 0)));
}

#[test]
fn all_send_slots_come_back() {
    let mut ring = UdpSocket2IoUring::<3, 16>::new();
    for slot in 0..3 {
        assert_eq!(ring.add_send_to(8), Ok((slot, slot as u64)));
    }
    ring.commit_send_to();
    ring.poll_completions(&vec![
        Completion { user_data: 2, more: true, buffer_id: None },
        send_done(2),
        send_done(0),
        send_done(1),
    ]);
    let mut back = Vec::new();
    while let Ok((slot, _)) = ring.add_send_to(8) {
        back.push(slot);
    }
    assert_eq!(back, vec![2, 0, 1]);
}

#[test]
fn recv_would_block_until_a_datagram_is_ready() {
    let mut ring = UdpSocket2IoUring::<2, 32>::new();
    assert_eq!(ring.recv_from(), Err(NetError::WouldBlock));
    ring.poll_completion(Completion {
        user_data: u64::from(UserData::Recv(1)),
        more: true,
        buffer_id: Some(3),
    });
    ring.poll_completion(Completion {
        user_data: u64::from(UserData::Recv(0)),
        more: true,
        buffer_id: Some(15),
    });
    ring.poll_completion(Completion {
        user_data: u64::from(UserData::Recv(0)),
        more: true,
        buffer_id: None,
    });
    ring.poll_completion(Completion {
        user_data: u64::from(UserData::ProvideBuffers(3)),
        more: false,
        buffer_id: None,
    });
    assert_eq!(ring.recv_from(), Ok(19));
    assert_eq!(ring.recv_from(), Ok(15));
    assert_eq!(ring.recv_from(), Err(NetError::WouldBlock));
}

#[test]
fn finish_read_arms_the_idle_group_again() {
    let mut ring = UdpSocket2IoUring::<2, 32>::new();
    assert_eq!(ring.finish_read_from(), None);
    ring.poll_completion(Completion {
        user_data: u64::from(UserData::Recv(1)),
        more: true,
        buffer_id: Some(0),
    });
    ring.poll_completion(Completion {
        user_data: u64::from(UserData::Recv(1)),
        more: false,
        buffer_id: None,
    });
    assert_eq!(ring.finish_read_from(), None);
    assert_eq!(ring.recv_from(), Ok(16));
    assert_eq!(ring.finish_read_from(), Some(1));
    assert_eq!(ring.finish_read_from(), None);
}

#[test]
fn read_plan_covers_exactly_one_group() {
    let plan = UdpSocket2IoUring::<2, 32>::prepare_read(1);
    assert_eq!(plan.group, 1);
    assert_eq!(plan.recv_user_data, 0x01_0000_0001);
    assert_eq!(plan.buffers.len(), 16);
    for (i, buffer) in plan.buffers.iter().enumerate() {
        assert_eq!(buffer.slot, 16 + i as u32);
        assert_eq!(buffer.buffer_id, i as u16);
        assert_eq!(buffer.user_data, 0x02_0000_0000 | (16 + i as u64));
    }
}

#[test]
fn prepare_plans_every_group() {
    assert_eq!(UdpSocket2IoUring::<2, 48>::groups(), 3);
    let plans = UdpSocket2IoUring::<2, 48>::prepare();
    assert_eq!(plans.len(), 3);
    for (group, plan) in plans.iter().enumerate() {
        assert_eq!(plan.group as usize, group);
        assert_eq!(plan.recv_user_data, 0x01_0000_0000 | group as u64);
        assert_eq!(plan.buffers.len(), 16);
        for (i, buffer) in plan.buffers.iter().enumerate() {
            assert_eq!(buffer.slot as usize, group * 16 + i);
            assert_eq!(buffer.buffer_id as usize, i);
            assert_eq!(buffer.user_data, 0x02_0000_0000 | (group * 16 + i) as u64);
        }
    }
    assert_eq!(UdpSocket2IoUring::<2, 0>::prepare().len(), 0);
}

fn dest(port: u16) -> NetAddr {
    NetAddr::V4 { ip: 0x7f00_0001, port }
}

#[test]
fn mmsg_queues_until_commit() {
    let mut socket = UdpSocket2Mmsg::<2>::new();
    let (flushed, len) = socket.add_send_to(&[1, 2, 3, 4], dest(1)).unwrap();
    assert!(flushed.is_empty());
    assert_eq!(len, 4);
    assert_eq!(socket.queue_len(), 1);
    let batch = socket.commit_send_to();
    assert_eq!(batch.len(), 1);
    assert_eq!(batch[0].buf, vec![1, 2, 3, 4]);
    assert_eq!(batch[0].dest, dest(1));
    assert_eq!(socket.queue_len(), 0);
    assert!(socket.commit_send_to().is_empty());
}

#[test]
fn mmsg_flushes_a_full_queue_before_queuing() {
    let mut socket = UdpSocket2Mmsg::<2>::new();
    assert!(socket.add_send_to(&[1], dest(1)).unwrap().0.is_empty());
    assert!(socket.add_send_to(&[2], dest(2)).unwrap().0.is_empty());
    let (flushed, len) = socket.add_send_to(&[3], dest(3)).unwrap();
    assert_eq!(len, 1);
    assert_eq!(flushed.len(), 2);
    assert_eq!(flushed[0].buf, vec![1]);
    assert_eq!(flushed[1].buf, vec![2]);
    assert_eq!(flushed[1].dest, dest(2));
    let batch = socket.commit_send_to();
    assert_eq!(batch.len(), 1);
    assert_eq!(batch[0].buf, vec![3]);
}

#[test]
fn mmsg_refuses_too_large_datagram() {
    let mut socket = UdpSocket2Mmsg::<2>::new();
    assert_eq!(socket.add_send_to(&[0u8; 1501], dest(1)).err(), Some(NetError::TooLarge));
    assert_eq!(socket.queue_len(), 0);
    assert!(socket.add_send_to(&[0u8; 1500], dest(1)).is_ok());
}
