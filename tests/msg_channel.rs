use robus::{message_queue, Command, Message};

fn sample_msg(seed: u8) -> Message {
    let data: Vec<u8> = (0..(seed % 16)).map(|i| i.wrapping_mul(seed)).collect();
    Message::id(seed as u16 * 3 + 1, Command::PublishState, &data)
}

#[test]
fn read_empty() {
    let (_, rx, mut slot) = message_queue();

    assert_eq!(rx.recv(&mut slot), None);
    // Check if still empty
    assert_eq!(rx.recv(&mut slot), None);
}

#[test]
fn send_and_read() {
    let (tx, rx, mut slot) = message_queue();

    let send_msg = sample_msg(7);
    tx.send(&mut slot, send_msg.duplicate());

    let recv_msg = rx.recv(&mut slot).unwrap();
    assert_eq!(send_msg, recv_msg);

    assert_eq!(rx.recv(&mut slot), None);
}

#[test]
fn send_multiple() {
    let (tx, rx, mut slot) = message_queue();

    let n: u8 = 41;
    for i in 0..n {
        tx.send(&mut slot, sample_msg(i));
    }
    let send_msg = sample_msg(42);
    tx.send(&mut slot, send_msg.duplicate());

    let recv_msg = rx.recv(&mut slot).unwrap();
    assert_eq!(send_msg, recv_msg);

    assert_eq!(rx.recv(&mut slot), None);
}
