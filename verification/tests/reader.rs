use regex_chunker::ByteChunker;
use zipper::cmds::Cmd;
use zipper::options::CmdOpts;
use zipper::reader::{forward, ReadAction, ReadEnd, ReadEvent, Reader, HANDOFF_CAPACITY};

fn chunk(text: &str) -> Vec<u8> {
    text.as_bytes().to_vec()
}

fn chunks(list: &[&str]) -> Vec<Vec<u8>> {
    list.iter().map(|c| chunk(c)).collect()
}

fn opts(snippet: &str) -> CmdOpts {
    CmdOpts::parse(snippet).unwrap()
}

/// Cuts `output` by the command's delimiter and feeds the reader with what
/// comes of it; returns what the reader sends and how it ends.
fn read_output(cmd: &Cmd, output: &[u8]) -> (Vec<Vec<u8>>, ReadEnd) {
    let mut source = ByteChunker::new(output, cmd.opts().pattern()).unwrap();
    let mut reader = Reader::new(cmd.opts());
    let mut sent = Vec::new();
    let mut action = reader.step(ReadEvent::Start);
    loop {
        let event = match action {
            ReadAction::Read => match source.next() {
                Some(Ok(bytes)) => ReadEvent::Chunk(bytes),
                Some(Err(_)) => ReadEvent::Failed,
                None => ReadEvent::End,
            },
            ReadAction::Send(bytes) => {
                sent.push(bytes);
                ReadEvent::Sent
            }
            ReadAction::Close(end) => return (sent, end),
        };
        action = reader.step(event);
    }
}

#[test]
fn reader_forwards_every_line_then_ends() {
    let cmd = Cmd::from_line("printf 'a\\nb\\nc\\n'").unwrap();
    let (sent, end) = read_output(&cmd, b"a\nb\nc\n");
    assert_eq!(sent, chunks(&["a", "b", "c"]));
    assert_eq!(end, ReadEnd::Finished);
}

#[test]
fn reader_with_skip_and_take_forwards_the_one_between() {
    let cmd = Cmd::from_line("-s 1 -t 1 || printf 'a\\nb\\nc\\n'").unwrap();
    let (sent, end) = read_output(&cmd, b"a\nb\nc\n");
    assert_eq!(sent, chunks(&["b"]));
    assert_eq!(end, ReadEnd::Finished);
}

#[test]
fn reader_cuts_by_the_given_delimiter() {
    let cmd = Cmd::from_line("-d '[,;] *' || x").unwrap();
    let (sent, end) = read_output(&cmd, b"one, two;three,  four");
    assert_eq!(sent, chunks(&["one", "two", "three", "four"]));
    assert_eq!(end, ReadEnd::Finished);
}

#[test]
fn default_delimiter_takes_the_carriage_return_too() {
    let cmd = Cmd::from_line("x").unwrap();
    let (sent, _) = read_output(&cmd, b"a\r\nb\nc");
    assert_eq!(sent, chunks(&["a", "b", "c"]));
}

#[test]
fn reader_steps_through_skip_and_take() {
    let mut reader = Reader::new(&opts("-s 1 -t 1"));
    assert_eq!(reader.step(ReadEvent::Start), ReadAction::Read);
    assert_eq!(reader.step(ReadEvent::Chunk(chunk("a"))), ReadAction::Read);
    assert_eq!(reader.step(ReadEvent::Chunk(chunk("b"))), ReadAction::Send(chunk("b")));
    assert_eq!(reader.step(ReadEvent::Sent), ReadAction::Close(ReadEnd::Finished));
}

#[test]
fn reader_without_options_sends_until_the_end() {
    let mut reader = Reader::new(&CmdOpts::default());
    assert_eq!(reader.step(ReadEvent::Start), ReadAction::Read);
    assert_eq!(reader.step(ReadEvent::Chunk(chunk("a"))), ReadAction::Send(chunk("a")));
    assert_eq!(reader.step(ReadEvent::Sent), ReadAction::Read);
    assert_eq!(reader.step(ReadEvent::Chunk(chunk(""))), ReadAction::Send(chunk("")));
    assert_eq!(reader.step(ReadEvent::Sent), ReadAction::Read);
    assert_eq!(reader.step(ReadEvent::End), ReadAction::Close(ReadEnd::Finished));
}

#[test]
fn output_that_ends_while_skipping_ends_cleanly() {
    let mut reader = Reader::new(&opts("-s 3"));
    assert_eq!(reader.step(ReadEvent::Start), ReadAction::Read);
    assert_eq!(reader.step(ReadEvent::Chunk(chunk("a"))), ReadAction::Read);
    assert_eq!(reader.step(ReadEvent::End), ReadAction::Close(ReadEnd::Finished));
    assert_eq!(forward(&opts("-s 3"), &chunks(&["a", "b"])), (chunks(&[]), 2));
    assert_eq!(forward(&opts("-s 2"), &chunks(&["a", "b"])), (chunks(&[]), 2));
}

#[test]
fn take_of_nothing_reads_nothing() {
    let mut reader = Reader::new(&opts("-t 0"));
    assert_eq!(reader.step(ReadEvent::Start), ReadAction::Close(ReadEnd::Finished));
    assert_eq!(forward(&opts("-t 0"), &chunks(&["a", "b"])), (chunks(&[]), 0));
}

#[test]
fn take_of_nothing_after_skip_reads_the_skipped() {
    let mut reader = Reader::new(&opts("-s 2 -t 0"));
    assert_eq!(reader.step(ReadEvent::Start), ReadAction::Read);
    assert_eq!(reader.step(ReadEvent::Chunk(chunk("a"))), ReadAction::Read);
    assert_eq!(reader.step(ReadEvent::Chunk(chunk("b"))), ReadAction::Close(ReadEnd::Finished));
    assert_eq!(forward(&opts("-s 2 -t 0"), &chunks(&["a", "b", "c"])), (chunks(&[]), 2));
}

#[test]
fn reader_stops_reading_once_the_limit_is_sent() {
    let all = chunks(&["a", "b", "c", "d", "e"]);
    assert_eq!(forward(&opts("-t 2"), &all), (chunks(&["a", "b"]), 2));
    assert_eq!(forward(&opts("-s 1 -t 2"), &all), (chunks(&["b", "c"]), 3));
    assert_eq!(forward(&opts("-s 4 -t 2"), &all), (chunks(&["e"]), 5));
    assert_eq!(forward(&opts("-s 1"), &all), (chunks(&["b", "c", "d", "e"]), 5));
    assert_eq!(forward(&opts("-t 5"), &all), (all.clone(), 5));
    assert_eq!(forward(&opts("-t 9"), &all), (all.clone(), 5));
    assert_eq!(forward(&opts(""), &all), (all.clone(), 5));
    assert_eq!(forward(&opts(""), &chunks(&[])), (chunks(&[]), 0));
}

#[test]
fn largest_counts_do_not_overflow() {
    let all = chunks(&["a", "b"]);
    let most = usize::MAX.to_string();
    assert_eq!(forward(&opts(&format!("-s 1 -t {}", most)), &all), (chunks(&["b"]), 2));
    assert_eq!(forward(&opts(&format!("-s {} -t {}", most, most)), &all), (chunks(&[]), 2));
}

#[test]
fn read_error_closes_the_handoff() {
    let mut reader = Reader::new(&CmdOpts::default());
    assert_eq!(reader.step(ReadEvent::Start), ReadAction::Read);
    assert_eq!(reader.step(ReadEvent::Failed), ReadAction::Close(ReadEnd::ReadFailed));
}

#[test]
fn read_error_while_skipping_closes_the_handoff() {
    let mut reader = Reader::new(&opts("-s 2"));
    assert_eq!(reader.step(ReadEvent::Start), ReadAction::Read);
    assert_eq!(reader.step(ReadEvent::Failed), ReadAction::Close(ReadEnd::ReadFailed));
}

#[test]
fn refused_chunk_closes_the_handoff() {
    let mut reader = Reader::new(&CmdOpts::default());
    assert_eq!(reader.step(ReadEvent::Start), ReadAction::Read);
    assert_eq!(reader.step(ReadEvent::Chunk(chunk("a"))), ReadAction::Send(chunk("a")));
    assert_eq!(reader.step(ReadEvent::Refused), ReadAction::Close(ReadEnd::ReceiverGone));
}

#[test]
fn reader_holds_one_chunk_at_most() {
    assert_eq!(HANDOFF_CAPACITY, 1);
    let others = [
        ReadEvent::Start,
        ReadEvent::Chunk(chunk("b")),
        ReadEvent::Failed,
        ReadEvent::End,
    ];
    for event in others {
        let mut reader = Reader::new(&CmdOpts::default());
        assert_eq!(reader.step(ReadEvent::Start), ReadAction::Read);
        assert_eq!(reader.step(ReadEvent::Chunk(chunk("a"))), ReadAction::Send(chunk("a")));
        assert_eq!(reader.step(event), ReadAction::Close(ReadEnd::OutOfTurn));
    }
}

#[test]
fn only_a_finished_reader_ends_without_fault() {
    assert!(!ReadEnd::Finished.is_fault());
    assert!(ReadEnd::ReadFailed.is_fault());
    assert!(ReadEnd::ReceiverGone.is_fault());
    assert!(ReadEnd::OutOfTurn.is_fault());
}

#[test]
fn event_out_of_turn_closes_the_handoff() {
    let mut reader = Reader::new(&CmdOpts::default());
    assert_eq!(reader.step(ReadEvent::Sent), ReadAction::Close(ReadEnd::OutOfTurn));
    let mut reader = Reader::new(&CmdOpts::default());
    assert_eq!(reader.step(ReadEvent::Start), ReadAction::Read);
    assert_eq!(reader.step(ReadEvent::Start), ReadAction::Close(ReadEnd::OutOfTurn));
    let mut reader = Reader::new(&CmdOpts::default());
    assert_eq!(reader.step(ReadEvent::Start), ReadAction::Read);
    assert_eq!(reader.step(ReadEvent::Refused), ReadAction::Close(ReadEnd::OutOfTurn));
}

#[test]
fn closed_reader_stays_closed() {
    let mut reader = Reader::new(&CmdOpts::default());
    assert_eq!(reader.step(ReadEvent::Start), ReadAction::Read);
    assert_eq!(reader.step(ReadEvent::End), ReadAction::Close(ReadEnd::Finished));
    assert_eq!(reader.step(ReadEvent::Start), ReadAction::Close(ReadEnd::OutOfTurn));
    assert_eq!(reader.step(ReadEvent::Chunk(chunk("a"))), ReadAction::Close(ReadEnd::OutOfTurn));
    assert_eq!(reader.step(ReadEvent::Sent), ReadAction::Close(ReadEnd::OutOfTurn));
}
