use podracer::network::{recv_step, try_recv_message, Frame, RecvStep};
use podracer::protocol::ClientMessage;

const INPUT: ClientMessage = ClientMessage::Input { left: true, right: false };

#[test]
fn try_recv_yields_parsed_text_only() {
    assert_eq!(try_recv_message(Frame::Text(Some(INPUT))), Some(INPUT));
    assert_eq!(try_recv_message(Frame::Text(None)), None);
    assert_eq!(try_recv_message(Frame::Pending), None);
    assert_eq!(try_recv_message(Frame::Close), None);
    assert_eq!(try_recv_message(Frame::Other), None);
    assert_eq!(try_recv_message(Frame::Failed), None);
    assert_eq!(try_recv_message(Frame::Ended), None);
}

#[test]
fn recv_delivers_messages() {
    assert_eq!(recv_step(Frame::Text(Some(INPUT))), RecvStep::Return(Some(INPUT)));
}

#[test]
fn recv_stops_on_close_error_or_end() {
    assert_eq!(recv_step(Frame::Close), RecvStep::Return(None));
    assert_eq!(recv_step(Frame::Failed), RecvStep::Return(None));
    assert_eq!(recv_step(Frame::Ended), RecvStep::Return(None));
}

#[test]
fn recv_skips_unparsable_text_and_other_frames() {
    assert_eq!(recv_step(Frame::Text(None)), RecvStep::Continue);
    assert_eq!(recv_step(Frame::Other), RecvStep::Continue);
}
