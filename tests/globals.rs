use wayland_server::client::Client;
use wayland_server::globals::{BindError, NamesExhausted, Registry};
use wayland_server::map::Dispatcher;
use wayland_server::wire::MessageDesc;

fn no_requests() -> Vec<MessageDesc> {
    vec![]
}

#[test]
fn advertise_hands_out_increasing_names() {
    let mut reg = Registry::new();
    assert_eq!(reg.advertise("wl_compositor".to_string(), 4, None), Ok(1));
    assert_eq!(reg.advertise("wl_shm".to_string(), 1, None), Ok(2));
    assert_eq!(reg.len(), 2);
    assert_eq!(reg.position(2), Some(1));
    assert_eq!(reg.position(3), None);
    let _ = NamesExhausted;
}

#[test]
fn announcements_follow_the_filter() {
    let mut reg = Registry::new();
    assert_eq!(reg.advertise("wl_compositor".to_string(), 4, None), Ok(1));
    assert_eq!(reg.advertise("wl_secret".to_string(), 1, Some(vec![7, 9])), Ok(2));
    assert_eq!(reg.advertise("wl_seat".to_string(), 5, None), Ok(3));
    assert_eq!(reg.announcements(9), vec![1, 2, 3]);
    assert_eq!(reg.announcements(8), vec![1, 3]);
}

#[test]
fn bind_creates_fresh_object() {
    let mut reg = Registry::new();
    assert_eq!(reg.advertise("wl_compositor".to_string(), 4, None), Ok(1));
    let mut client = Client::new(5);
    let new = reg.bind(&mut client, 1, 10, 3, no_requests()).unwrap();
    assert_eq!(new.id, 10);
    assert_eq!(new.client, 5);
    assert_eq!(new.interface, "wl_compositor");
    let meta = client.resource_map().find(10).unwrap();
    assert_eq!(meta.version, 3);
    assert!(meta.alive);
    assert_eq!(meta.dispatcher, Dispatcher::Unimplemented);
    let res = client.implement(new, false);
    assert!(res.is_alive(client.resource_map()));
}

#[test]
fn bind_errors() {
    let mut reg = Registry::new();
    assert_eq!(reg.advertise("wl_compositor".to_string(), 4, None), Ok(1));
    assert_eq!(reg.advertise("wl_secret".to_string(), 1, Some(vec![7])), Ok(2));
    let mut client = Client::new(5);
    assert_eq!(reg.bind(&mut client, 3, 10, 1, no_requests()).err(), Some(BindError::UnknownGlobal));
    assert_eq!(reg.bind(&mut client, 2, 10, 1, no_requests()).err(), Some(BindError::UnknownGlobal));
    assert_eq!(reg.bind(&mut client, 1, 10, 5, no_requests()).err(), Some(BindError::BadVersion));
    assert_eq!(reg.bind(&mut client, 1, 10, 0, no_requests()).err(), Some(BindError::BadVersion));
    assert!(reg.bind(&mut client, 1, 10, 4, no_requests()).is_ok());
    assert_eq!(reg.bind(&mut client, 1, 10, 4, no_requests()).err(), Some(BindError::IdInUse));
    client.kill();
    assert_eq!(reg.bind(&mut client, 1, 11, 4, no_requests()).err(), Some(BindError::ClientDead));
    assert!(client.resource_map().find(11).is_none());
}

#[test]
fn removed_global_cannot_be_bound_but_objects_stay() {
    let mut reg = Registry::new();
    assert_eq!(reg.advertise("wl_compositor".to_string(), 4, None), Ok(1));
    assert_eq!(reg.advertise("wl_shm".to_string(), 1, None), Ok(2));
    let mut client = Client::new(5);
    assert!(reg.bind(&mut client, 1, 10, 4, no_requests()).is_ok());
    assert!(reg.remove(1));
    assert!(!reg.remove(1));
    assert_eq!(reg.announcements(5), vec![2]);
    assert_eq!(reg.bind(&mut client, 1, 11, 4, no_requests()).err(), Some(BindError::UnknownGlobal));
    assert!(client.resource_map().find(10).is_some());
    assert_eq!(reg.advertise("wl_output".to_string(), 3, None), Ok(3));
}
