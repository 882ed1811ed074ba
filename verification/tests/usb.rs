use flasher::usb::{ReadStep, UsbReadStream, UsbWriteStream, MAX_FULL_SPEED_PACKET_SIZE};

#[test]
fn waiting_bytes_are_read_first() {
    let mut stream = UsbReadStream::new("endpoint");
    assert_eq!(*stream.receiver_mut(), "endpoint");
    let mut buf = [0u8; 2];
    assert_eq!(stream.read(&mut buf), ReadStep::NeedPacket { tries_left: 2 });
    assert_eq!(stream.packet(2, &[1, 2, 3], &mut buf), ReadStep::Done(2));
    assert_eq!(buf, [1, 2]);
    assert_eq!(stream.read(&mut buf), ReadStep::Done(1));
    assert_eq!(buf, [3, 2]);
    assert_eq!(stream.read(&mut buf), ReadStep::NeedPacket { tries_left: 2 });
}

#[test]
fn an_empty_packet_is_followed_by_another() {
    let mut stream = UsbReadStream::new(());
    let mut buf = [0u8; 4];
    assert_eq!(stream.packet(2, &[], &mut buf), ReadStep::NeedPacket { tries_left: 1 });
    assert_eq!(stream.packet(1, &[9], &mut buf), ReadStep::Done(1));
    assert_eq!(buf, [9, 0, 0, 0]);
}

#[test]
fn two_empty_packets_end_the_read() {
    let mut stream = UsbReadStream::new(());
    let mut buf = [7u8; 4];
    assert_eq!(stream.packet(2, &[], &mut buf), ReadStep::NeedPacket { tries_left: 1 });
    assert_eq!(stream.packet(1, &[], &mut buf), ReadStep::Done(0));
    assert_eq!(buf, [7; 4]);
}

#[test]
fn reads_lose_nothing() {
    let packet: Vec<u8> = (0..64).collect();
    let mut stream = UsbReadStream::new(());
    let mut got = Vec::new();
    let mut buf = [0u8; 10];
    let mut step = stream.packet(2, &packet, &mut buf);
    while let ReadStep::Done(n) = step {
        got.extend_from_slice(&buf[..n]);
        step = stream.read(&mut buf);
    }
    assert_eq!(got, packet);
}

#[test]
fn bytes_are_cut_into_packets() {
    let mut stream = UsbWriteStream::new(3u8);
    assert_eq!(*stream.sender_mut(), 3);
    let bytes: Vec<u8> = (0..150).collect();
    let mut rest = &bytes[..];
    let mut lengths = Vec::new();
    let mut sent = Vec::new();
    while !rest.is_empty() {
        let packet = stream.write(rest);
        sent.extend_from_slice(packet);
        lengths.push(packet.len());
        rest = &rest[packet.len()..];
    }
    assert_eq!(lengths, [64, 64, 22]);
    assert_eq!(sent, bytes);
    assert_eq!(MAX_FULL_SPEED_PACKET_SIZE, 64);
}
