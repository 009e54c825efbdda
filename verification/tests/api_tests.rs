use nethuns_rs::api::bdistributor::{PushError, TryPopError, TryPushError};
use nethuns_rs::api::{likely, unlikely, BufferDesc, BufferRef, Token};

#[test]
fn token_accessors() {
    let t = Token::new(BufferDesc(42), 7, 1500);
    assert_eq!(t.buffer_desc(), BufferDesc(42));
    assert_eq!(t.pool_id(), 7);
    assert_eq!(t.size(), 1500);
}

#[test]
fn buffer_conversions_round_trip() {
    let d = BufferDesc::from(4096usize);
    let r = BufferRef::from(d);
    assert_eq!(usize::from(r), 4096);
    assert_eq!(BufferDesc::from(r), d);
}

#[test]
fn hints_return_their_argument() {
    assert!(likely(true));
    assert!(!likely(false));
    assert!(unlikely(true));
    assert!(!unlikely(false));
}

#[test]
fn distributor_errors() {
    assert!(TryPopError::Empty.is_empty());
    assert!(!TryPopError::Empty.is_closed());
    assert!(TryPopError::Closed.is_closed());
    assert_eq!(TryPopError::Closed.message(), "popping from an empty and closed channel");
    let e = TryPushError::Full([1, 2]);
    assert!(e.is_full());
    assert!(!e.is_closed());
    assert_eq!(e.into_inner(), [1, 2]);
    let c = TryPushError::Closed(3);
    assert!(c.is_closed());
    assert_eq!(c.message(), "pushing into a closed channel");
    assert_eq!(PushError(5).into_inner(), 5);
}
