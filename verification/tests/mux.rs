use zipper::mux::{Finished, Mux, MuxAction, MuxEvent};
use zipper::options::CmdOpts;
use zipper::reader::forward;
use zipper::zip::zip;

fn chunk(text: &str) -> Vec<u8> {
    text.as_bytes().to_vec()
}

fn stream(list: &[&str]) -> Vec<Vec<u8>> {
    list.iter().map(|c| chunk(c)).collect()
}

fn three_and_one() -> Vec<Vec<Vec<u8>>> {
    vec![stream(&["a1", "a2", "a3"]), stream(&["b1"])]
}

fn text(rounds: &[Vec<u8>]) -> Vec<String> {
    rounds.iter().map(|r| String::from_utf8(r.clone()).unwrap()).collect()
}

#[test]
fn terminate_stops_at_the_first_ended_output() {
    let rounds = zip(&three_and_one(), Finished::Terminate, b"\n");
    // One full round with a line of each command. The second round is cut
    // short at the second command, and what it had gathered is still written.
    assert_eq!(text(&rounds), vec!["a1\nb1\n", "a2\n"]);
    let output = rounds.concat();
    assert!(!String::from_utf8(output).unwrap().contains("a3"));
}

#[test]
fn terminate_writes_nothing_of_a_round_that_ends_at_once() {
    let streams = vec![stream(&["a1"]), stream(&["b1", "b2", "b3"])];
    let rounds = zip(&streams, Finished::Terminate, b"\n");
    assert_eq!(text(&rounds), vec!["a1\nb1\n"]);
}

#[test]
fn terminate_with_equal_outputs_writes_full_rounds_only() {
    let streams = vec![stream(&["a1", "a2"]), stream(&["b1", "b2"])];
    let rounds = zip(&streams, Finished::Terminate, b"\n");
    assert_eq!(text(&rounds), vec!["a1\nb1\n", "a2\nb2\n"]);
}

#[test]
fn terminate_cuts_the_round_at_the_first_of_the_shortest() {
    let streams = vec![
        stream(&["a1", "a2", "a3"]),
        stream(&["b1", "b2"]),
        stream(&["c1"]),
        stream(&["d1"]),
    ];
    let rounds = zip(&streams, Finished::Terminate, b"\n");
    assert_eq!(text(&rounds), vec!["a1\nb1\nc1\nd1\n", "a2\nb2\n"]);
}

#[test]
fn ignore_leaves_ended_outputs_out() {
    let rounds = zip(&three_and_one(), Finished::Ignore, b"\n");
    assert_eq!(text(&rounds), vec!["a1\nb1\n", "a2\n", "a3\n"]);
}

#[test]
fn blank_keeps_a_line_for_ended_outputs() {
    let rounds = zip(&three_and_one(), Finished::Blank, b"\n");
    assert_eq!(text(&rounds), vec!["a1\nb1\n", "a2\n\n", "a3\n\n"]);
}

#[test]
fn blank_keeps_the_order_of_the_commands() {
    let streams = vec![stream(&["a1"]), stream(&["b1", "b2", "b3"]), stream(&[])];
    let rounds = zip(&streams, Finished::Blank, b"\n");
    assert_eq!(text(&rounds), vec!["a1\nb1\n\n", "\nb2\n\n", "\nb3\n\n"]);
    let rounds = zip(&streams, Finished::Ignore, b"\n");
    assert_eq!(text(&rounds), vec!["a1\nb1\n", "b2\n", "b3\n"]);
    let rounds = zip(&streams, Finished::Terminate, b"\n");
    assert_eq!(text(&rounds), vec!["a1\nb1\n"]);
}

#[test]
fn policy_of_a_run_that_names_none_is_terminate() {
    assert_eq!(Finished::default(), Finished::Terminate);
}

#[test]
fn no_commands_give_no_output() {
    let none: Vec<Vec<Vec<u8>>> = Vec::new();
    assert!(zip(&none, Finished::Terminate, b"\n").is_empty());
    assert!(zip(&none, Finished::Ignore, b"\n").is_empty());
    assert!(zip(&none, Finished::Blank, b"\n").is_empty());
    let mut mux = Mux::new(0, Finished::Terminate, b"\n");
    assert_eq!(mux.step(MuxEvent::Start), MuxAction::Stop);
}

#[test]
fn commands_without_output_give_no_output() {
    let streams = vec![stream(&[]), stream(&[])];
    assert!(zip(&streams, Finished::Terminate, b"\n").is_empty());
    assert!(zip(&streams, Finished::Ignore, b"\n").is_empty());
    assert!(zip(&streams, Finished::Blank, b"\n").is_empty());
}

#[test]
fn line_terminator_is_the_callers() {
    let streams = vec![stream(&["a1", "a2"]), stream(&["b1"])];
    let rounds = zip(&streams, Finished::Blank, b"\r\n");
    assert_eq!(text(&rounds), vec!["a1\r\nb1\r\n", "a2\r\n\r\n"]);
}

#[test]
fn chunks_are_bytes_and_may_be_empty() {
    let streams = vec![vec![vec![0xff, 0x00], vec![]], vec![vec![0x80]]];
    let rounds = zip(&streams, Finished::Ignore, b"\n");
    assert_eq!(rounds, vec![vec![0xff, 0x00, b'\n', 0x80, b'\n'], vec![b'\n']]);
}

#[test]
fn readers_feed_the_multiplexer() {
    let lines = stream(&["1", "2", "3", "4", "5"]);
    let first = forward(&CmdOpts::parse("-s 1 -t 3").unwrap(), &lines).0;
    let second = forward(&CmdOpts::parse("-t 1").unwrap(), &lines).0;
    let rounds = zip(&vec![first, second], Finished::Blank, b"\n");
    assert_eq!(text(&rounds), vec!["2\n1\n", "3\n\n", "4\n\n"]);
}

#[test]
fn multiplexer_steps_through_a_run_under_ignore() {
    let mut mux = Mux::new(2, Finished::Ignore, b"\n");
    assert_eq!(mux.step(MuxEvent::Start), MuxAction::Receive(0));
    assert_eq!(mux.step(MuxEvent::Chunk(chunk("a1"))), MuxAction::Receive(1));
    assert_eq!(mux.step(MuxEvent::Chunk(chunk("b1"))), MuxAction::Write(chunk("a1\nb1\n")));
    assert_eq!(mux.step(MuxEvent::Written), MuxAction::Receive(0));
    assert_eq!(mux.step(MuxEvent::Chunk(chunk("a2"))), MuxAction::Receive(1));
    assert_eq!(mux.step(MuxEvent::Closed), MuxAction::Write(chunk("a2\n")));
    assert_eq!(mux.step(MuxEvent::Written), MuxAction::Receive(0));
    assert_eq!(mux.step(MuxEvent::Chunk(chunk("a3"))), MuxAction::Write(chunk("a3\n")));
    assert_eq!(mux.step(MuxEvent::Written), MuxAction::Receive(0));
    assert_eq!(mux.step(MuxEvent::Closed), MuxAction::Stop);
}

#[test]
fn multiplexer_steps_through_a_run_under_blank() {
    let mut mux = Mux::new(2, Finished::Blank, b"\n");
    assert_eq!(mux.step(MuxEvent::Start), MuxAction::Receive(0));
    assert_eq!(mux.step(MuxEvent::Closed), MuxAction::Receive(1));
    assert_eq!(mux.step(MuxEvent::Chunk(chunk("b1"))), MuxAction::Write(chunk("\nb1\n")));
    assert_eq!(mux.step(MuxEvent::Written), MuxAction::Receive(1));
    assert_eq!(mux.step(MuxEvent::Chunk(chunk("b2"))), MuxAction::Write(chunk("\nb2\n")));
    assert_eq!(mux.step(MuxEvent::Written), MuxAction::Receive(1));
    assert_eq!(mux.step(MuxEvent::Closed), MuxAction::Stop);
}

#[test]
fn multiplexer_steps_through_a_run_under_terminate() {
    let mut mux = Mux::new(2, Finished::Terminate, b"\n");
    assert_eq!(mux.step(MuxEvent::Start), MuxAction::Receive(0));
    assert_eq!(mux.step(MuxEvent::Chunk(chunk("a1"))), MuxAction::Receive(1));
    assert_eq!(mux.step(MuxEvent::Chunk(chunk("b1"))), MuxAction::Write(chunk("a1\nb1\n")));
    assert_eq!(mux.step(MuxEvent::Written), MuxAction::Receive(0));
    assert_eq!(mux.step(MuxEvent::Chunk(chunk("a2"))), MuxAction::Receive(1));
    assert_eq!(mux.step(MuxEvent::Closed), MuxAction::Write(chunk("a2\n")));
    assert_eq!(mux.step(MuxEvent::Written), MuxAction::Stop);
}

#[test]
fn terminate_at_the_first_receiver_stops_without_a_write() {
    let mut mux = Mux::new(2, Finished::Terminate, b"\n");
    assert_eq!(mux.step(MuxEvent::Start), MuxAction::Receive(0));
    assert_eq!(mux.step(MuxEvent::Closed), MuxAction::Stop);
}

#[test]
fn failed_write_aborts_the_run() {
    let mut mux = Mux::new(1, Finished::Ignore, b"\n");
    assert_eq!(mux.step(MuxEvent::Start), MuxAction::Receive(0));
    assert_eq!(mux.step(MuxEvent::Chunk(chunk("a"))), MuxAction::Write(chunk("a\n")));
    assert_eq!(mux.step(MuxEvent::WriteFailed), MuxAction::Abort);
    assert_eq!(mux.step(MuxEvent::Written), MuxAction::Abort);
}

#[test]
fn failed_last_write_aborts_the_run() {
    let mut mux = Mux::new(2, Finished::Terminate, b"\n");
    assert_eq!(mux.step(MuxEvent::Start), MuxAction::Receive(0));
    assert_eq!(mux.step(MuxEvent::Chunk(chunk("a"))), MuxAction::Receive(1));
    assert_eq!(mux.step(MuxEvent::Closed), MuxAction::Write(chunk("a\n")));
    assert_eq!(mux.step(MuxEvent::WriteFailed), MuxAction::Abort);
}

#[test]
fn event_out_of_turn_aborts_the_run() {
    let mut mux = Mux::new(1, Finished::Blank, b"\n");
    assert_eq!(mux.step(MuxEvent::Chunk(chunk("a"))), MuxAction::Abort);
    let mut mux = Mux::new(1, Finished::Blank, b"\n");
    assert_eq!(mux.step(MuxEvent::Start), MuxAction::Receive(0));
    assert_eq!(mux.step(MuxEvent::Written), MuxAction::Abort);
    let mut mux = Mux::new(1, Finished::Blank, b"\n");
    assert_eq!(mux.step(MuxEvent::Start), MuxAction::Receive(0));
    assert_eq!(mux.step(MuxEvent::Chunk(chunk("a"))), MuxAction::Write(chunk("a\n")));
    assert_eq!(mux.step(MuxEvent::Closed), MuxAction::Abort);
}

#[test]
fn stopped_multiplexer_takes_no_more_events() {
    let mut mux = Mux::new(0, Finished::Ignore, b"\n");
    assert_eq!(mux.step(MuxEvent::Start), MuxAction::Stop);
    assert_eq!(mux.step(MuxEvent::Start), MuxAction::Abort);
    assert_eq!(mux.step(MuxEvent::Closed), MuxAction::Abort);
}
