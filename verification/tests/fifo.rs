use bytes::Bytes;
use dmesh::driver::TxQueue;
use dmesh::h2::body::{BodyPoll, RecvFrame, RecvShared, SendBody, SendRead};

fn text() -> Vec<u8> {
    (0..200u8).collect()
}

#[test]
fn a_received_body_is_read_in_order() {
    let mut body = RecvShared::new();
    let mut read = Vec::new();
    for (i, part) in text().chunks(7).enumerate() {
        body.push_chunk(Bytes::copy_from_slice(part));
        if i % 3 == 0 {
            if let RecvFrame::Data(data) = body.poll_frame() {
                read.extend_from_slice(&data);
            }
        }
    }
    assert_eq!(body.unread() + read.len(), 200);
    assert_eq!(body.take_consumed(), read.len());
    while let RecvFrame::Data(data) = body.poll_frame() {
        read.extend_from_slice(&data);
    }
    assert_eq!(read, text());
}

#[test]
fn a_sent_body_is_read_in_order() {
    let mut body: SendBody<()> = SendBody::new(());
    let mut read = Vec::new();
    for part in text().chunks(11) {
        let (progressed, more) = body.pump(BodyPoll::Data(Bytes::copy_from_slice(part)));
        assert!(progressed && more);
        if let SendRead::Data(data) = body.read(5) {
            assert_eq!(data.len(), 5);
            read.extend(data);
        }
    }
    while let SendRead::Data(data) = body.read(64) {
        read.extend(data);
    }
    assert_eq!(read, text());
    assert!(body.deferred);
}

#[test]
fn a_send_queue_keeps_its_order() {
    let mut queue = TxQueue::new();
    let mut sent = Vec::new();
    for (i, part) in text().chunks(13).enumerate() {
        queue.push(part);
        let chunk = queue.take(8);
        let took = (i % 9).min(chunk.len());
        sent.extend_from_slice(&chunk[..took]);
        queue.settle(chunk, took as i32);
    }
    sent.extend(queue.take(usize::MAX));
    assert_eq!(sent, text());
}
