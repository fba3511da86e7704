use textadventurer::streams::{
    on_end, AfterWrite, OutputReader, ReaderAction, StderrStats, StdinMessage, StdinStats,
    StdinWriter, StdoutStats, WriterAction, READ_BUFFER_SIZE,
};

/// Runs a reader whose reads return these chunks, then fail. Returns what it
/// forwards.
fn run_reader(reader: &mut OutputReader, chunks: Vec<&[u8]>) -> Vec<Vec<u8>> {
    let mut forwarded = vec![];
    let mut buf = [b'?'; READ_BUFFER_SIZE];
    for chunk in chunks {
        buf[..chunk.len()].copy_from_slice(chunk);
        match reader.on_read::<()>(&buf, Ok(chunk.len())) {
            ReaderAction::Forward(msg) => forwarded.push(msg.bytes.to_vec()),
            ReaderAction::End => return forwarded,
        }
    }
    assert!(matches!(reader.on_read(&buf, Err(())), ReaderAction::End));
    forwarded
}

#[test]
fn reader_forwards_and_counts() {
    let mut reader = OutputReader::new();
    let forwarded = run_reader(&mut reader, vec![b"West of House\n", b"> "]);
    assert_eq!(forwarded, vec![b"West of House\n".to_vec(), b"> ".to_vec()]);
    assert_eq!(reader.stdout_stats(), StdoutStats { bytes_written: 16 });
    assert_eq!(reader.stderr_stats(), StderrStats { bytes_written: 16 });
}

#[test]
fn reader_forwards_a_full_buffer() {
    let mut reader = OutputReader::new();
    let chunk = [7u8; READ_BUFFER_SIZE];
    assert_eq!(run_reader(&mut reader, vec![&chunk]), vec![chunk.to_vec()]);
    assert_eq!(reader.bytes_written, 512);
}

#[test]
fn reader_stops_at_the_end() {
    let mut reader = OutputReader::new();
    assert_eq!(run_reader(&mut reader, vec![b"a", b"", b"b"]), vec![b"a".to_vec()]);
    assert_eq!(reader.bytes_written, 1);
}

#[test]
fn failed_read_is_the_end() {
    let mut reader = OutputReader::new();
    assert!(matches!(reader.on_read(&[1, 2], Err("broken")), ReaderAction::End));
    assert_eq!(reader.bytes_written, 0);
}

#[test]
fn exit_is_announced_by_the_second_reader() {
    let mut flag = false;
    let first = on_end(std::mem::replace(&mut flag, true));
    let second = on_end(std::mem::replace(&mut flag, true));
    assert!(first.is_none());
    assert!(second.is_some());
}

/// Runs a writer on these messages, each with whether writing it succeeds.
/// Returns what was written.
fn run_writer(writer: &mut StdinWriter, queue: Vec<(StdinMessage, bool)>) -> Vec<Vec<u8>> {
    let mut written = vec![];
    for (msg, ok) in queue {
        match writer.on_message::<()>(Ok(msg)) {
            WriterAction::Finish => return written,
            WriterAction::Write(data) => {
                let outcome = if ok { Ok(1) } else { Err(()) };
                match writer.on_write(data.len(), outcome) {
                    AfterWrite::Flush => written.push(data),
                    AfterWrite::Finish => return written,
                }
            }
        }
    }
    assert!(matches!(writer.on_message(Err(())), WriterAction::Finish));
    written
}

fn data(text: &str) -> StdinMessage {
    StdinMessage::Data(text.as_bytes().to_vec())
}

#[test]
fn writer_writes_and_counts() {
    let mut writer = StdinWriter::new();
    let written = run_writer(&mut writer, vec![(data("look\n"), true), (data("go north\n"), true)]);
    assert_eq!(written, vec![b"look\n".to_vec(), b"go north\n".to_vec()]);
    assert_eq!(writer.stats(), StdinStats { bytes_read: 14 });
}

#[test]
fn writer_stops_at_the_end_of_the_input() {
    let mut writer = StdinWriter::new();
    let queue = vec![(data("a"), true), (StdinMessage::Eof, true), (data("bc"), true)];
    assert_eq!(run_writer(&mut writer, queue), vec![b"a".to_vec()]);
    assert_eq!(writer.bytes_read, 1);
}

#[test]
fn writer_stops_at_a_failed_write() {
    let mut writer = StdinWriter::new();
    let queue = vec![(data("a"), true), (data("bc"), false), (data("d"), true)];
    assert_eq!(run_writer(&mut writer, queue), vec![b"a".to_vec()]);
    assert_eq!(writer.stats(), StdinStats { bytes_read: 1 });
}
