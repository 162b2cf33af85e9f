use cpu_emulator::float_bits::to_parts;
use cpu_emulator::mailbox::{fetch_sat_ids, CubeSat, GroundStation, MailBox, Message};

fn msg(to: u64, content: &str) -> Message {
    Message { to, content: content.to_string() }
}

#[test]
fn deliver_takes_oldest_for_recipient() {
    let base = GroundStation;
    let sat = base.connect(2);
    assert_eq!(sat, CubeSat { id: 2 });
    let mut mailbox = MailBox::new();
    base.send(&mut mailbox, &sat, msg(1, "a"));
    base.send(&mut mailbox, &sat, msg(2, "b"));
    mailbox.post(msg(2, "c"));
    let got = sat.recv(&mut mailbox).unwrap();
    assert_eq!(got.to, 2);
    assert_eq!(got.content, "b");
    assert_eq!(mailbox.messages.len(), 2);
    assert_eq!(mailbox.messages[0].content, "a");
    assert_eq!(mailbox.messages[1].content, "c");
    let got = mailbox.deliver(&sat).unwrap();
    assert_eq!(got.content, "c");
    assert!(mailbox.deliver(&sat).is_none());
    assert_eq!(mailbox.messages.len(), 1);
}

#[test]
fn recv_on_empty_mailbox_is_none() {
    let mut mailbox = MailBox::new();
    assert!(CubeSat { id: 7 }.recv(&mut mailbox).is_none());
}

#[test]
fn satellite_ids() {
    assert_eq!(fetch_sat_ids(), vec![1, 2, 3]);
}

#[test]
fn fields_of_single_precision_value() {
    assert_eq!(to_parts(42.42f32.to_bits()), (0, 132, 2_731_540));
    assert_eq!(to_parts((-1.0f32).to_bits()), (1, 127, 0));
    assert_eq!(to_parts(0xFFFF_FFFF), (1, 255, 0x7F_FFFF));
}
