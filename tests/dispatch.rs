use wayland_server::client::{Client, ClientState, DispatchError};
use wayland_server::map::{Dispatcher, IdInUse, ObjectMeta};
use wayland_server::wire::{
    check_signature, decode, Argument, ArgumentType, DecodeError, Message, MessageDesc,
};

const DESTROY: u16 = 0;
const ATTACH: u16 = 1;

fn surface_requests() -> Vec<MessageDesc> {
    vec![
        MessageDesc { name: "destroy".to_string(), signature: vec![], destructor: true },
        MessageDesc {
            name: "attach".to_string(),
            signature: vec![ArgumentType::Object, ArgumentType::Int, ArgumentType::Int],
            destructor: false,
        },
    ]
}

fn surface(version: u32) -> ObjectMeta {
    ObjectMeta::new("wl_surface".to_string(), version, surface_requests())
}

fn attach(id: u32) -> Message {
    Message {
        sender_id: id,
        opcode: ATTACH,
        args: vec![Argument::Object(12), Argument::Int(0), Argument::Int(-4)],
    }
}

fn destroy(id: u32) -> Message {
    Message { sender_id: id, opcode: DESTROY, args: vec![] }
}

fn client_with_surface(destructor: bool) -> Client {
    let mut client = Client::new(1);
    assert_eq!(client.insert_object(3, surface(4)), Ok(()));
    let new = client.get_new(3, "wl_surface").unwrap();
    client.implement(new, destructor);
    client
}

#[test]
fn surface_lifecycle_scenario() {
    let mut client = Client::new(1);
    assert_eq!(client.insert_object(3, surface(4)), Ok(()));
    assert!(client.resource_map().find(3).unwrap().alive);
    let new = client.get_new(3, "wl_surface").unwrap();
    let res = client.implement(new, true);
    assert!(res.is_alive(client.resource_map()));

    let inv = client.dispatch(attach(3)).unwrap();
    assert_eq!(inv.request.opcode, ATTACH);
    assert!(!inv.request.destructor);
    assert_eq!(inv.resource.id, 3);
    assert!(client.resource_map().find(3).unwrap().alive);
    assert_eq!(client.pending_len(), 0);

    let inv = client.dispatch(destroy(3)).unwrap();
    assert!(inv.request.destructor);
    assert_eq!(inv.resource.id, 3);
    assert_eq!(inv.resource.interface, "wl_surface");
    assert!(!inv.resource.is_alive(client.resource_map()));
    assert!(client.resource_map().find(3).is_none());
    assert_eq!(client.pending_len(), 1);

    assert_eq!(client.drain_destructors(), vec![3]);
    assert_eq!(client.drain_destructors(), Vec::<u32>::new());
    assert!(client.resource_map().find(3).is_none());
    assert_eq!(client.dispatch(attach(3)).err(), Some(DispatchError::UnknownObject));
    assert_eq!(client.state(), ClientState::Connected);
}

#[test]
fn racing_destructors_kill_client_once() {
    let mut client = client_with_surface(true);
    let first = client.decode_message(destroy(3)).unwrap();
    let second = client.decode_message(destroy(3)).unwrap();
    assert!(client.deliver(first).is_some());
    assert_eq!(client.state(), ClientState::Connected);
    let late = client.deliver(second);
    assert_eq!(client.state(), ClientState::Dying);
    let _ = late;
    assert_eq!(client.pending_len(), 1);
    assert_eq!(client.drain_destructors(), vec![3]);
    assert_eq!(client.close(), Vec::<u32>::new());
}

#[test]
fn second_delivery_still_invokes_handler() {
    let mut client = client_with_surface(false);
    let first = client.decode_message(destroy(3)).unwrap();
    let second = client.decode_message(destroy(3)).unwrap();
    assert!(client.deliver(first).is_some());
    let inv = client.deliver(second).unwrap();
    assert_eq!(inv.resource.id, 3);
    assert_eq!(client.state(), ClientState::Dying);
    assert_eq!(client.drain_destructors(), Vec::<u32>::new());
}

#[test]
fn destructor_without_callback_runs_nothing() {
    let mut client = client_with_surface(false);
    assert!(client.dispatch(destroy(3)).is_ok());
    assert!(client.resource_map().find(3).is_none());
    assert_eq!(client.drain_destructors(), Vec::<u32>::new());
}

#[test]
fn unimplemented_object_is_refused_without_change() {
    let mut client = Client::new(1);
    assert_eq!(client.insert_object(3, surface(4)), Ok(()));
    assert_eq!(client.dispatch(destroy(3)).err(), Some(DispatchError::Unimplemented));
    assert!(client.resource_map().find(3).unwrap().alive);
    assert_eq!(client.pending_len(), 0);
}

#[test]
fn unknown_object_is_refused() {
    let mut client = client_with_surface(true);
    assert_eq!(client.dispatch(attach(8)).err(), Some(DispatchError::UnknownObject));
}

#[test]
fn unknown_opcode_is_a_decode_error() {
    let mut client = client_with_surface(true);
    let msg = Message { sender_id: 3, opcode: 2, args: vec![] };
    assert_eq!(
        client.dispatch(msg).err(),
        Some(DispatchError::Decode(DecodeError::UnknownOpcode))
    );
    assert!(client.resource_map().find(3).unwrap().alive);
    assert_eq!(client.state(), ClientState::Connected);
}

#[test]
fn malformed_arguments_are_a_decode_error() {
    let mut client = client_with_surface(true);
    let msg = Message {
        sender_id: 3,
        opcode: ATTACH,
        args: vec![Argument::Object(12), Argument::Uint(0), Argument::Int(1)],
    };
    assert_eq!(
        client.dispatch(msg).err(),
        Some(DispatchError::Decode(DecodeError::MalformedArguments))
    );
    let short = Message { sender_id: 3, opcode: ATTACH, args: vec![Argument::Object(12)] };
    assert_eq!(
        client.dispatch(short).err(),
        Some(DispatchError::Decode(DecodeError::MalformedArguments))
    );
}

#[test]
fn dead_client_refuses_messages() {
    let mut client = client_with_surface(true);
    client.kill();
    assert_eq!(client.state(), ClientState::Dying);
    client.kill();
    assert_eq!(client.state(), ClientState::Dying);
    assert_eq!(client.dispatch(attach(3)).err(), Some(DispatchError::ClientDead));
    assert!(client.resource_map().find(3).unwrap().alive);
}

#[test]
fn close_destroys_queued_then_live_objects() {
    let mut client = Client::new(1);
    for id in [3u32, 4, 5] {
        assert_eq!(client.insert_object(id, surface(1)), Ok(()));
        let new = client.get_new(id, "wl_surface").unwrap();
        client.implement(new, id != 4);
    }
    assert!(client.dispatch(destroy(5)).is_ok());
    let ids = client.close();
    assert_eq!(ids, vec![5, 3]);
    assert_eq!(client.state(), ClientState::Closed);
    assert!(client.resource_map().find(3).is_none());
    assert_eq!(client.pending_len(), 0);
    assert_eq!(client.close(), Vec::<u32>::new());
    assert_eq!(client.dispatch(attach(3)).err(), Some(DispatchError::ClientDead));
}

#[test]
fn insert_object_refuses_taken_id() {
    let mut client = client_with_surface(true);
    assert_eq!(client.insert_object(3, surface(1)), Err(IdInUse));
    assert_eq!(
        client.resource_map().find(3).unwrap().dispatcher,
        Dispatcher::Implemented { destructor: true }
    );
}

#[test]
fn decode_checks_opcode_and_signature() {
    let table = surface_requests();
    let req = decode(&table, attach(3)).unwrap();
    assert_eq!(req.opcode, ATTACH);
    assert_eq!(req.args.len(), 3);
    assert!(decode(&table, destroy(3)).unwrap().destructor);
    assert_eq!(
        decode(&table, Message { sender_id: 3, opcode: 9, args: vec![] }).err(),
        Some(DecodeError::UnknownOpcode)
    );
    assert!(check_signature(&vec![ArgumentType::Str], &vec![Argument::Str("x".to_string())]));
    assert!(!check_signature(&vec![ArgumentType::Str], &vec![Argument::Fd(3)]));
    assert!(check_signature(&vec![], &vec![]));
}
