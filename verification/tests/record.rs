//! Identities and offsets of observations.
use phonowire::{ConnectionId, WireOffset};

#[test]
fn identities_and_offsets_order_by_their_explicit_components() {
    let earlier = ConnectionId::new(3, 4);
    let later = ConnectionId::new(3, 5);
    assert!(earlier < later);
    assert_eq!(earlier.instance(), 3);
    assert_eq!(earlier.sequence(), 4);
    assert!(WireOffset::new(8) < WireOffset::new(9));
    assert_eq!(WireOffset::new(9).get(), 9);
}
