//! Requests to close single connections.
use phonowire::control::{CloseRegistry, ConnectionCloseError, ConnectionCloseResult};
use phonowire::ConnectionId;

#[test]
fn only_live_identities_of_this_receiver_can_be_closed_and_once() {
    let mut registry = CloseRegistry::new(4);
    registry.opened(2);
    registry.opened(3);
    assert_eq!(
        registry.close(ConnectionId::new(5, 2)),
        Err(ConnectionCloseError::UnknownOrStale)
    );
    assert_eq!(
        registry.close(ConnectionId::new(4, 9)),
        Err(ConnectionCloseError::UnknownOrStale)
    );
    assert_eq!(registry.next_request(), None);
    assert_eq!(registry.close(ConnectionId::new(4, 3)), Ok(()));
    assert_eq!(registry.close(ConnectionId::new(4, 2)), Ok(()));
    assert_eq!(registry.close(ConnectionId::new(4, 3)), Ok(()));
    assert_eq!(registry.next_request(), Some(3));
    registry.ended(3);
    assert_eq!(
        registry.close(ConnectionId::new(4, 3)),
        Err(ConnectionCloseError::UnknownOrStale)
    );
    registry.ended(2);
    assert_eq!(registry.next_request(), None);
    assert_ne!(
        ConnectionCloseResult::RetiredByRequest,
        ConnectionCloseResult::ReceiverStopped
    );
    assert_ne!(
        ConnectionCloseResult::ReceiverStopped,
        ConnectionCloseResult::EndedByItself
    );
}
