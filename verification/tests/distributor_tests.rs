use nethuns_rs::api::bdistributor::{
    nspsc_channel, spmc_channel, NSPSCBDistributor, NSPSCBDistributorPopper, NSPSCBDistributorPusher,
    NSPSCChannel, SPMCBDistributor, SPMCBDistributorPopper, SPMCBDistributorPusher, SpmcChannel, TryPopError,
    TryPushError,
};
use nethuns_rs::api::enum_api::{EnumContext, EnumMetadata};
use nethuns_rs::api::{Context, Metadata, MetadataType};

#[test]
fn each_consumer_reads_its_own_queue_in_order() {
    let (mut prod, cons, mut queues) = nspsc_channel::<u32>(2, 3);
    assert_eq!(prod.push_at(&mut queues, 1, 10), Ok(()));
    assert_eq!(prod.push_at(&mut queues, 1, 11), Ok(()));
    assert_eq!(prod.push_at(&mut queues, 1, 12), Err(12));
    assert_eq!(prod.push_at(&mut queues, 2, 20), Ok(()));
    assert_eq!(cons[0].pop(&mut queues), None);
    assert_eq!(cons[1].pop(&mut queues), Some(10));
    assert_eq!(cons[1].pop(&mut queues), Some(11));
    assert_eq!(cons[2].pop(&mut queues), Some(20));
    assert_eq!(cons[1].pop(&mut queues), None);
}

#[test]
fn nspsc_channel_family() {
    let (mut pusher, poppers, mut queues) = NSPSCChannel::<[u8; 2]>::new().split(2);
    assert_eq!(queues.capacity, 1024);
    assert_eq!(pusher.try_push(&mut queues, [1, 2], 0), Ok(()));
    assert_eq!(poppers[0].try_pop(&mut queues), Ok([1, 2]));
    assert_eq!(poppers[0].try_pop(&mut queues), Err(TryPopError::Empty));
    assert_eq!(poppers[1].try_pop(&mut queues), Err(TryPopError::Empty));
}

#[test]
fn spmc_consumers_share_one_queue() {
    let (sender, receiver, mut queue) = spmc_channel::<u8>(1);
    let channel: SpmcChannel<u8> = SpmcChannel { sender, receiver, _marker: core::marker::PhantomData };
    let (sender, receivers) = <SpmcChannel<u8> as SPMCBDistributor<u8>>::split(channel, 3);
    assert_eq!(receivers.len(), 3);
    assert_eq!(sender.try_push(&mut queue, 7), Ok(()));
    assert_eq!(sender.try_push(&mut queue, 8), Err(TryPushError::Full(8)));
    assert_eq!(SPMCBDistributorPopper::<u8>::try_pop(&receivers[2], &mut queue), Ok(7));
    assert_eq!(SPMCBDistributorPopper::<u8>::try_pop(&receivers[0], &mut queue), Err(TryPopError::Empty));
}

#[test]
fn enum_context_and_metadata() {
    let c = EnumContext::AfXdp(nethuns_rs::af_xdp::Ctx {
        buffer: nethuns_rs::af_xdp::UmemArea { size: 0 },
        index: 4,
    });
    assert_eq!(c.pool_id(), 4);
    assert_eq!(EnumContext::Dpdk(nethuns_rs::dpdk::Ctx { index: 2 }).pool_id(), 2);
    let m = EnumMetadata::Dpdk(nethuns_rs::dpdk::Meta {});
    assert!(matches!(m.into_enum(), MetadataType::Dpdk(_)));
}
