use scaproust::global::{SocketId, SocketType};
use scaproust::session_impl::SessionImpl;

#[test]
fn socket_ids_are_dense_and_never_reused() {
    let mut session = SessionImpl::new();
    assert_eq!(SocketId(0), session.create_socket(SocketType::Pair));
    assert_eq!(SocketId(1), session.create_socket(SocketType::Pub));
    session.destroy_socket(SocketId(0));
    assert_eq!(SocketId(2), session.create_socket(SocketType::Sub));
    assert!(session.sockets[0].is_none());
    assert!(session.sockets[1].is_some());
}

#[test]
fn endpoint_tokens_map_back_to_their_socket() {
    let mut session = SessionImpl::new();
    let a = session.create_socket(SocketType::Push);
    let b = session.create_socket(SocketType::Pull);

    assert!(session.register_endpoint(10, a));
    assert!(session.register_endpoint(11, b));
    assert!(!session.register_endpoint(10, b));

    assert_eq!(Some(a), session.owner_of(10));
    assert_eq!(Some(b), session.owner_of(11));
    assert!(session.owner_of(12).is_none());

    assert!(session.unregister_endpoint(10));
    assert!(!session.unregister_endpoint(10));
    assert!(session.owner_of(10).is_none());
}

#[test]
fn destroying_a_socket_clears_its_endpoints() {
    let mut session = SessionImpl::new();
    let a = session.create_socket(SocketType::Bus);
    let b = session.create_socket(SocketType::Bus);
    session.register_endpoint(1, a);
    session.register_endpoint(2, b);
    session.register_endpoint(3, a);

    let mut sock = session.sockets[a.0].take().unwrap();
    sock.on_connected(None, 1).unwrap();
    sock.on_connected(None, 3).unwrap();
    session.sockets[a.0] = Some(sock);

    let removed = session.destroy_socket(a);
    assert_eq!(vec![1, 3], removed);
    assert!(session.owner_of(1).is_none());
    assert_eq!(Some(b), session.owner_of(2));
    assert!(session.owner_of(3).is_none());
}
