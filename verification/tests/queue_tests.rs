use dipstick::{
    apply_all, Error, InputKind, InputScope, Labels, Log, MetricName, MultiInputScope,
    OutputQueueCmd, OutputQueueScope, OutputScope,
};

#[test]
fn queue_delivers_values_in_write_order() {
    let (sender, receiver) = crossbeam_channel::bounded::<OutputQueueCmd>(16);
    let mut queue = OutputQueueScope::new(sender).named("q");
    let m = queue.new_metric(MetricName::from_segment("m"), InputKind::Counter);
    queue.write(&m, 1, Labels::none());
    queue.write(&m, 2, Labels::none());
    queue.write(&m, 3, Labels::none());
    queue.flush().unwrap();
    drop(queue);

    // The worker's side: drain the channel and apply the commands in
    // order to the wrapped scope.
    let mut cmds: Vec<OutputQueueCmd> = Vec::new();
    while let Ok(cmd) = receiver.try_recv() {
        cmds.push(cmd);
    }
    assert_eq!(cmds.len(), 4);
    let mut sink = OutputScope::Log(Log::to_log().buffered(true).new_scope());
    apply_all(&mut sink, cmds);
    match sink {
        OutputScope::Log(mut ls) => {
            // The three writes delivered in enqueue order, then the
            // trailing flush moved them to the sink.
            let lines = ls.take_sink();
            assert_eq!(lines.len(), 3);
            assert_eq!(lines[0], b"q.m 1\n".to_vec());
            assert_eq!(lines[1], b"q.m 2\n".to_vec());
            assert_eq!(lines[2], b"q.m 3\n".to_vec());
        },
        _ => panic!("the wrapped scope keeps its shape"),
    }
}

#[test]
fn queue_flush_surfaces_closed_channel() {
    let (sender, receiver) = crossbeam_channel::bounded::<OutputQueueCmd>(4);
    drop(receiver);
    let mut queue = OutputQueueScope::new(sender);
    assert_eq!(queue.send_failures(), 0);
    // Writes never surface errors, even into a dead channel — but the
    // dropped command is counted.
    let m = queue.new_metric(MetricName::from_segment("m"), InputKind::Marker);
    queue.write(&m, 1, Labels::none());
    assert_eq!(queue.send_failures(), 1);
    // Flushes do surface it, and count too.
    assert_eq!(queue.flush(), Err(Error::Async));
    assert_eq!(queue.send_failures(), 2);
}

#[test]
fn error_messages_name_their_kind() {
    assert_eq!(Error::IO.message(), "i/o error");
    assert_eq!(Error::Async.message(), "async queue closed");
}

#[test]
fn multi_flush_attempts_all_and_returns_first_error() {
    let (sender, receiver) = crossbeam_channel::bounded::<OutputQueueCmd>(4);
    drop(receiver);
    let dead_queue = InputScope::Queue(OutputQueueScope::new(sender));
    let mut log_scope = Log::to_log().buffered(true).metrics();
    let pending = log_scope.new_metric(MetricName::from_segment("p"), InputKind::Counter);
    log_scope.write(&pending, 5, &Labels::none());
    let multi = MultiInputScope::new()
        .add_target(dead_queue)
        .add_target(InputScope::Log(log_scope));
    let mut scope = multi.into_scope();
    // The dead queue fails first, but the log sub-scope is still flushed
    // and the first error comes back.
    assert_eq!(scope.flush(0), Err(Error::Async));
    match scope {
        InputScope::Multi(ms) => {
            let mut targets = ms.into_targets();
            match targets.pop() {
                Some(InputScope::Log(mut ls)) => {
                    let lines = ls.take_sink();
                    assert_eq!(lines.len(), 1);
                    assert_eq!(lines[0], b"p 5\n".to_vec());
                },
                _ => panic!("the log sub-scope keeps its shape"),
            }
        },
        _ => panic!("the fan-out keeps its shape"),
    }
}
