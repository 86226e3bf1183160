use std::cell::Cell;

use robus::{BusEvent, Command, Core, Delivery, Direction, Message, ModuleType, TargetMode};

type Handler<'a> = Box<dyn Fn(Message) + 'a>;

fn run_deliveries(core: &Core<Handler>, deliveries: Vec<Delivery>) {
    for d in deliveries {
        (core.callback(d.module))(d.msg);
    }
}

fn id_msg() -> Message {
    Message::id(0x1234, Command::SetId, &[4, 8, 15, 16, 23, 42])
}

#[test]
fn fill_source_on_send() {
    let mut core: Core<Handler> = Core::new();
    let mut msg = id_msg();

    let from: u16 = 0x0BAD;

    let m1 = core.create_module("m1", ModuleType::Motor, Box::new(|_| {}));
    core.set_module_id(m1, from);

    assert!(core.send(m1, &mut msg).is_some());

    assert_eq!(msg.header.source, from);
}

#[test]
fn id_local_loop() {
    let mut send_msg = id_msg();
    let gold_msg = send_msg.duplicate();

    let called = Cell::new(false);

    let m1_cb = |msg: Message| {
        assert_eq!(msg.header.command, gold_msg.header.command);
        assert_eq!(msg.data, gold_msg.data);
        called.set(true);
    };
    let m2_cb = |_msg: Message| {
        assert!(false);
    };

    let mut core: Core<Handler> = Core::new();

    let m1 = core.create_module("m1", ModuleType::Button, Box::new(m1_cb));
    core.set_module_id(m1, send_msg.header.target);

    let mut diff_id: u16 = 7;
    while diff_id == send_msg.header.target {
        diff_id += 1;
    }
    let m2 = core.create_module("m2", ModuleType::Ledstrip, Box::new(m2_cb));
    core.set_module_id(m2, diff_id);

    let deliveries = core.loopback_send(m1, &mut send_msg).unwrap();
    run_deliveries(&core, deliveries);

    assert!(called.get(), "Callback was never called!");
}

#[test]
fn broadcast() {
    let mut send_msg = Message::broadcast(Command::Ping, &[1, 2, 3, 4, 5]);
    let gm1 = send_msg.duplicate();
    let gm2 = send_msg.duplicate();

    let called_1 = Cell::new(0u32);
    let called_2 = Cell::new(0u32);

    let m1_cb = |msg: Message| {
        assert_eq!(msg.header.command, gm1.header.command);
        assert_eq!(msg.data, gm1.data);
        called_1.set(called_1.get() + 1);
    };
    let m2_cb = |msg: Message| {
        assert_eq!(msg.header.command, gm2.header.command);
        assert_eq!(msg.data, gm2.data);
        called_2.set(called_2.get() + 1);
    };

    let mut core: Core<Handler> = Core::new();

    let m1 = core.create_module("m1", ModuleType::Servo, Box::new(m1_cb));
    core.set_module_id(m1, 21);

    let m2 = core.create_module("m2", ModuleType::Potentiometer, Box::new(m2_cb));
    core.set_module_id(m2, 42);

    let deliveries = core.loopback_send(m1, &mut send_msg).unwrap();
    run_deliveries(&core, deliveries);

    assert!(called_1.get() == 1, "Callback was never called!");
    assert!(called_2.get() == 1, "Callback was never called!");
}

#[test]
fn broadcast_source_is_sender_id() {
    let mut core: Core<()> = Core::new();
    let m1 = core.create_module("m1", ModuleType::Servo, ());
    let m2 = core.create_module("m2", ModuleType::Motor, ());
    core.set_module_id(m1, 21);
    core.set_module_id(m2, 42);
    let mut msg = Message::broadcast(Command::PublishState, &[9, 9]);
    msg.header.source = 999;
    let ds = core.loopback_send(m2, &mut msg).unwrap();
    assert_eq!(ds.len(), 2);
    assert_eq!(ds[0].module, m1);
    assert_eq!(ds[1].module, m2);
    for d in &ds {
        assert_eq!(d.msg.header.source, 42);
        assert_eq!(d.msg.header.command, Command::PublishState);
        assert_eq!(d.msg.data, vec![9, 9]);
    }
}

#[test]
fn targeted_reaches_sniffer_not_others() {
    let mut core: Core<()> = Core::new();
    let a = core.create_module("a", ModuleType::Button, ());
    let b = core.create_module("b", ModuleType::Motor, ());
    let s = core.create_module("s", ModuleType::Sniffer, ());
    core.set_module_id(a, 5);
    core.set_module_id(b, 6);
    core.set_module_id(s, 77);
    let mut msg = Message::id(5, Command::Identify, &[]);
    let ds = core.loopback_send(b, &mut msg).unwrap();
    let targets: Vec<usize> = ds.iter().map(|d| d.module).collect();
    assert_eq!(targets, vec![a, s]);
    assert_eq!(ds[0].msg.header.source, 6);
}

#[test]
fn type_and_group_reach_no_module() {
    let mut core: Core<()> = Core::new();
    let a = core.create_module("a", ModuleType::Sniffer, ());
    core.set_module_id(a, 3);
    for mode in [TargetMode::Type, TargetMode::Group] {
        let msg = Message::new(mode, 3, Command::Ping, &[1]);
        assert!(core.dispatch(&msg).is_empty());
    }
}

#[test]
fn send_waits_while_line_is_locked() {
    let mut core: Core<()> = Core::new();
    let m = core.create_module("m", ModuleType::Motor, ());
    core.set_module_id(m, 12);
    let mut msg = Message::id(3, Command::Ping, &[1, 2]);
    let frame = core.send(m, &mut msg).unwrap();
    assert_eq!(frame, vec![1, 3, 0, 12, 0, 3, 2, 1, 2]);
    assert!(core.is_locked());
    assert!(core.is_sending());
    assert_eq!(core.direction(), Direction::Transmit);

    // A byte while transmitting is not taken.
    assert!(core.receive(1).is_empty());
    assert_eq!(core.assembler_state(), robus::AssemblerState::Idle);

    let mut other = Message::id(4, Command::Ping, &[]);
    assert!(core.send(m, &mut other).is_none());
    assert_eq!(other.header.source, 12);

    core.transmit_done();
    assert_eq!(core.direction(), Direction::Receive);
    assert!(core.is_locked());
    assert!(core.send(m, &mut other).is_none());

    core.timeout();
    assert!(!core.is_locked());
    assert!(core.send(m, &mut other).is_some());
}

#[test]
fn inbound_byte_takes_lock_and_timeout_recovers() {
    let mut core: Core<()> = Core::new();
    let m = core.create_module("m", ModuleType::Motor, ());
    core.set_module_id(m, 1);
    for b in [1u8, 1, 0, 9, 0, 3, 4, 0xAA] {
        assert!(core.receive(b).is_empty());
    }
    assert!(core.is_locked());
    assert_eq!(core.assembler_state(), robus::AssemblerState::PayloadPartial);
    let mut msg = Message::broadcast(Command::Ping, &[]);
    assert!(core.send(m, &mut msg).is_none());

    core.timeout();
    assert_eq!(core.recoveries(), 1);
    assert_eq!(core.assembler_state(), robus::AssemblerState::Idle);
    assert!(!core.is_locked());

    let frame = Message::id(1, Command::SetId, &[7]).to_bytes();
    let mut got = Vec::new();
    for b in frame {
        got.extend(core.receive(b));
    }
    assert_eq!(got.len(), 1);
    assert_eq!(got[0].module, m);
    assert_eq!(got[0].msg.data, vec![7]);
}

#[test]
fn registry_getters() {
    let mut core: Core<u32> = Core::new();
    let a = core.create_module("left wheel", ModuleType::Motor, 10);
    let b = core.create_module("eye", ModuleType::Ledstrip, 20);
    assert_eq!((a, b), (0, 1));
    assert_eq!(core.module_count(), 2);
    assert_eq!(core.module_id(a), 0);
    core.set_module_id(b, 300);
    assert_eq!(core.module_id(b), 300);
    assert_eq!(core.module_type(b), ModuleType::Ledstrip);
    assert_eq!(core.alias(a), "left wheel");
    assert_eq!(*core.callback(b), 20);
}

#[test]
fn core_two_frames_back_to_back() {
    let mut core: Core<()> = Core::new();
    let a = core.create_module("a", ModuleType::Motor, ());
    let b = core.create_module("b", ModuleType::Button, ());
    core.set_module_id(a, 10);
    core.set_module_id(b, 11);
    let mut m1 = Message::id(10, Command::Other(150), &[1, 2, 3]);
    m1.header.source = 0x4321;
    let m2 = Message::broadcast(Command::Ping, &[]);
    let mut evs: Vec<BusEvent> = m1.to_bytes().into_iter().map(BusEvent::Byte).collect();
    evs.extend(m2.to_bytes().into_iter().map(BusEvent::Byte));
    let ds = core.receive_events(&evs);
    let got: Vec<(usize, Message)> = ds.into_iter().map(|d| (d.module, d.msg)).collect();
    assert_eq!(got, vec![(a, m1.clone()), (a, m2.clone()), (b, m2)]);
    assert_eq!(got[0].1.header.source, 0x4321);
    assert_eq!(core.assembler_state(), robus::AssemblerState::Idle);
    assert!(core.is_locked());
}

#[test]
fn core_timeout_recovery() {
    let mut core: Core<()> = Core::new();
    let a = core.create_module("a", ModuleType::Motor, ());
    core.set_module_id(a, 10);
    let m1 = Message::id(10, Command::SetId, &[1, 2, 3, 4]);
    let m2 = Message::id(10, Command::Identify, &[9]);
    let mut evs: Vec<BusEvent> = m1.to_bytes()[..8].iter().map(|b| BusEvent::Byte(*b)).collect();
    evs.push(BusEvent::Timeout);
    evs.extend(m2.to_bytes().into_iter().map(BusEvent::Byte));
    let ds = core.receive_events(&evs);
    assert_eq!(ds.len(), 1);
    assert_eq!(ds[0].module, a);
    assert_eq!(ds[0].msg, m2);
    assert_eq!(core.recoveries(), 1);
}

#[test]
fn handlers_stay_with_their_modules() {
    let mut core: Core<&str> = Core::new();
    let a = core.create_module("a", ModuleType::Motor, "handler a");
    let b = core.create_module("b", ModuleType::Servo, "handler b");
    core.set_module_id(b, 5);
    core.set_module_id(a, 5);
    let mut msg = Message::id(5, Command::Ping, &[]);
    let ds = core.loopback_send(a, &mut msg).unwrap();
    let names: Vec<&str> = ds.iter().map(|d| *core.callback(d.module)).collect();
    assert_eq!(names, vec!["handler a", "handler b"]);
}
