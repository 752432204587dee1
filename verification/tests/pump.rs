use comm_handler::adapters::loopback::EchoTransport;
use comm_handler::adapters::loopback::LoopbackTransport;
use comm_handler::adapters::loopback::ScriptedTransport;
use comm_handler::error::Error;
use comm_handler::framing::LineParser;
use comm_handler::record::Record;
use comm_handler::record::RecordParser;
use comm_handler::traits::Communication;
use comm_handler::worker::read_pending;
use comm_handler::worker::write_batch;
use comm_handler::worker::ReadWorker;
use comm_handler::worker::StopReason;
use comm_handler::worker::WorkerState;
use comm_handler::worker::WriteWorker;
use comm_handler::FramedHandler;
use comm_handler::Handler;
use comm_handler::Passthrough;

#[test]
fn order_preservation_outbound() {
    let (handler, ends) = Handler::new();
    let tx = handler.get_sender();
    tx.send(b"one".to_vec()).unwrap();
    tx.send(b"two".to_vec()).unwrap();
    tx.send(b"three".to_vec()).unwrap();
    let mut worker = WriteWorker::<Vec<u8>, Passthrough, LoopbackTransport>::new(
        LoopbackTransport::new(),
        ends.outbound_rx,
        ends.terminate_write_rx,
    );
    assert_eq!(worker.step(), WorkerState::Running);
    let transport = worker.into_transport();
    assert_eq!(transport.taken().as_slice(), b"onetwothree");
}

#[test]
fn order_preservation_inbound() {
    let (handler, ends) = Handler::new();
    let rx = handler.get_receiver();
    let scripted = ScriptedTransport::new(
        vec![b"one".to_vec(), b"two".to_vec(), b"three".to_vec()],
        false,
    );
    let mut worker = ReadWorker::<Vec<u8>, Passthrough, ScriptedTransport>::new(
        scripted,
        ends.inbound_tx,
        ends.terminate_read_rx,
    );
    assert_eq!(worker.step(), WorkerState::Running);
    assert_eq!(worker.step(), WorkerState::Running);
    assert_eq!(worker.step(), WorkerState::Running);
    assert_eq!(rx.try_recv().unwrap(), b"one".to_vec());
    assert_eq!(rx.try_recv().unwrap(), b"two".to_vec());
    assert_eq!(rx.try_recv().unwrap(), b"three".to_vec());
    assert!(rx.try_recv().is_err());
}

#[test]
fn read_pending_collects_in_order() {
    let mut transport = ScriptedTransport::new(vec![b"a".to_vec(), b"b".to_vec()], false);
    let mut parser = Passthrough;
    let mut inbound: Vec<Vec<u8>> = Vec::new();
    let consumed = read_pending(&mut transport, &mut parser, &mut inbound, 16);
    assert_eq!(consumed, 2);
    assert_eq!(inbound, vec![b"a".to_vec(), b"b".to_vec()]);
}

#[test]
fn termination_within_one_interval() {
    let (handler, ends) = Handler::new();
    let tx = handler.get_sender();
    let probe = ends.outbound_rx.clone();
    let mut write_worker = WriteWorker::<Vec<u8>, Passthrough, LoopbackTransport>::new(
        LoopbackTransport::new(),
        ends.outbound_rx,
        ends.terminate_write_rx,
    );
    let mut read_worker = ReadWorker::<Vec<u8>, Passthrough, LoopbackTransport>::new(
        LoopbackTransport::new(),
        ends.inbound_tx,
        ends.terminate_read_rx,
    );
    handler.terminate().unwrap();
    assert_eq!(
        write_worker.step(),
        WorkerState::Stopped(StopReason::Normal)
    );
    assert_eq!(read_worker.step(), WorkerState::Stopped(StopReason::Normal));
    // values enqueued after the stop remain in the queue, unconsumed
    tx.send(b"late".to_vec()).unwrap();
    assert_eq!(
        write_worker.step(),
        WorkerState::Stopped(StopReason::Normal)
    );
    assert_eq!(probe.len(), 1);
    let transport = write_worker.into_transport();
    assert!(transport.taken().is_empty());
}

#[test]
fn termination_mid_drain_flushes_the_batch() {
    let (handler, ends) = Handler::new();
    let tx = handler.get_sender();
    tx.send(b"flushed".to_vec()).unwrap();
    let mut worker = WriteWorker::<Vec<u8>, Passthrough, LoopbackTransport>::new(
        LoopbackTransport::new(),
        ends.outbound_rx,
        ends.terminate_write_rx,
    );
    handler.terminate().unwrap();
    assert_eq!(worker.step(), WorkerState::Stopped(StopReason::Normal));
    let transport = worker.into_transport();
    assert_eq!(transport.taken().as_slice(), b"flushed");
}

#[test]
fn failure_isolation() {
    let (handler, ends) = Handler::new();
    let tx = handler.get_sender();
    let rx = handler.get_receiver();
    tx.send(b"doomed".to_vec()).unwrap();
    let mut write_worker = WriteWorker::<Vec<u8>, Passthrough, ScriptedTransport>::new(
        ScriptedTransport::new(Vec::new(), true),
        ends.outbound_rx,
        ends.terminate_write_rx,
    );
    assert_eq!(
        write_worker.step(),
        WorkerState::Stopped(StopReason::TransportError)
    );
    // a dead write worker transmits nothing further
    tx.send(b"after".to_vec()).unwrap();
    assert_eq!(
        write_worker.step(),
        WorkerState::Stopped(StopReason::TransportError)
    );
    assert!(write_worker.into_transport().taken().is_empty());
    // the still-healthy read worker keeps delivering
    let mut read_worker = ReadWorker::<Vec<u8>, Passthrough, ScriptedTransport>::new(
        ScriptedTransport::new(vec![b"alive".to_vec()], false),
        ends.inbound_tx,
        ends.terminate_read_rx,
    );
    assert_eq!(read_worker.step(), WorkerState::Running);
    assert_eq!(rx.try_recv().unwrap(), b"alive".to_vec());
}

#[test]
fn write_batch_abandons_everything_on_a_dead_line() {
    let mut transport = ScriptedTransport::new(Vec::new(), true);
    let mut parser = Passthrough;
    let batch = vec![vec![1u8], vec![2u8]];
    assert_eq!(write_batch(&mut transport, &mut parser, &batch), Some(0));
    assert!(transport.taken().is_empty());
}

#[test]
fn failing_send_reports_io_error() {
    let mut transport = ScriptedTransport::new(Vec::new(), true);
    assert!(matches!(transport.send(&[1, 2, 3]), Err(Error::Io { .. })));
}

#[test]
fn terminate_without_workers_reports_flume_error() {
    let (handler, ends) = Handler::new();
    drop(ends);
    assert!(matches!(handler.terminate(), Err(Error::Flume { .. })));
}

#[test]
fn end_to_end_echo() {
    let (handler, ends) = Handler::new();
    let tx = handler.get_sender();
    let rx = handler.get_receiver();
    tx.send(vec![1, 2, 3]).unwrap();
    tx.send(vec![4, 5, 6]).unwrap();
    let mut write_worker = WriteWorker::<Vec<u8>, Passthrough, EchoTransport>::new(
        EchoTransport::new(),
        ends.outbound_rx,
        ends.terminate_write_rx,
    );
    assert_eq!(write_worker.step(), WorkerState::Running);
    let echo = write_worker.into_transport();
    let mut read_worker = ReadWorker::<Vec<u8>, Passthrough, EchoTransport>::new(
        echo,
        ends.inbound_tx,
        ends.terminate_read_rx,
    );
    assert_eq!(read_worker.step(), WorkerState::Running);
    assert_eq!(read_worker.step(), WorkerState::Running);
    assert_eq!(rx.try_recv().unwrap(), vec![1, 2, 3]);
    assert_eq!(rx.try_recv().unwrap(), vec![4, 5, 6]);
}

#[test]
fn framed_pump_over_echo_with_line_codec() {
    let (handler, ends) =
        FramedHandler::<Vec<u8>, LineParser, Vec<u8>, LineParser>::new();
    let tx = handler.get_sender();
    let rx = handler.get_receiver();
    tx.send(b"ping".to_vec()).unwrap();
    let mut write_worker = WriteWorker::<Vec<u8>, LineParser, EchoTransport>::new(
        EchoTransport::new(),
        ends.outbound_rx,
        ends.terminate_write_rx,
    );
    assert_eq!(write_worker.step(), WorkerState::Running);
    let echo = write_worker.into_transport();
    let mut read_worker = ReadWorker::<Vec<u8>, LineParser, EchoTransport>::new(
        echo,
        ends.inbound_tx,
        ends.terminate_read_rx,
    );
    assert_eq!(read_worker.step(), WorkerState::Running);
    assert_eq!(rx.try_recv().unwrap(), b"ping".to_vec());
    handler.terminate().unwrap();
    assert_eq!(read_worker.step(), WorkerState::Stopped(StopReason::Normal));
}

#[test]
fn framed_pump_over_echo_with_record_codec() {
    let (handler, ends) = FramedHandler::<Record, RecordParser, Record, RecordParser>::new();
    let tx = handler.get_sender();
    let rx = handler.get_receiver();
    tx.send(Record::new(3, vec![10, 20])).unwrap();
    let mut write_worker = WriteWorker::<Record, RecordParser, EchoTransport>::new(
        EchoTransport::new(),
        ends.outbound_rx,
        ends.terminate_write_rx,
    );
    assert_eq!(write_worker.step(), WorkerState::Running);
    let echo = write_worker.into_transport();
    let mut read_worker = ReadWorker::<Record, RecordParser, EchoTransport>::new(
        echo,
        ends.inbound_tx,
        ends.terminate_read_rx,
    );
    assert_eq!(read_worker.step(), WorkerState::Running);
    assert_eq!(rx.try_recv().unwrap(), Record::new(3, vec![10, 20]));
}

#[test]
fn read_worker_reassembles_split_frames() {
    let (handler, ends) = FramedHandler::<Vec<u8>, LineParser, Vec<u8>, LineParser>::new();
    let rx = handler.get_receiver();
    let scripted = ScriptedTransport::new(
        vec![b"hel".to_vec(), b"lo\nwor".to_vec(), b"ld\n".to_vec()],
        false,
    );
    let mut read_worker = ReadWorker::<Vec<u8>, LineParser, ScriptedTransport>::new(
        scripted,
        ends.inbound_tx,
        ends.terminate_read_rx,
    );
    assert_eq!(read_worker.step(), WorkerState::Running);
    assert!(rx.try_recv().is_err());
    assert_eq!(read_worker.step(), WorkerState::Running);
    assert_eq!(rx.try_recv().unwrap(), b"hello".to_vec());
    assert_eq!(read_worker.step(), WorkerState::Running);
    assert_eq!(rx.try_recv().unwrap(), b"world".to_vec());
}
