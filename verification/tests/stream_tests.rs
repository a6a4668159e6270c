use chat_inference::error::EngineError;
use chat_inference::pipeline::{Generation, Token};
use chat_inference::stream::{Action, Bridge, Poll, Session, StreamEnd};

fn item(id: usize, last: bool) -> Generation {
    Generation {
        token: Token { id, logprob_bits: 0, text: format!("t{id}"), special: false },
        generated_text: if last { Some("all".to_string()) } else { None },
    }
}

#[test]
fn a_running_stream_emits_tokens_in_order_and_finishes_on_the_last() {
    let mut b = Bridge::new();
    assert_eq!(b, Bridge { emitted: 0, ended: None });
    assert_eq!(b.emitted_count(), 0);
    assert_eq!(b.end(), None);
    for id in 0..3 {
        assert_eq!(b.poll(false), Poll::Step);
        match b.on_item(Some(Ok(item(id, false)))) {
            Action::Emit(g) => assert_eq!(g.token.id, id),
            _ => panic!("expected a token"),
        }
        assert_eq!(b.emitted_count(), id + 1);
    }
    assert_eq!(b.poll(false), Poll::Step);
    match b.on_item(Some(Ok(item(3, true)))) {
        Action::EmitLast(g) => assert_eq!(g.generated_text, Some("all".to_string())),
        _ => panic!("expected the last token"),
    }
    assert_eq!(b.emitted_count(), 4);
    assert_eq!(b.end(), Some(StreamEnd::Finished));
    assert_eq!(b.poll(false), Poll::Close(StreamEnd::Finished));
    assert_eq!(b.poll(true), Poll::Close(StreamEnd::Finished));
}

#[test]
fn cancellation_after_k_tokens_closes_cleanly_and_emits_nothing_more() {
    for k in 0..4 {
        let mut b = Bridge::new();
        for id in 0..k {
            assert_eq!(b.poll(false), Poll::Step);
            assert!(matches!(b.on_item(Some(Ok(item(id, false)))), Action::Emit(_)));
        }
        assert_eq!(b.poll(true), Poll::Close(StreamEnd::Cancelled));
        assert_eq!(b.end(), Some(StreamEnd::Cancelled));
        assert_eq!(b.emitted_count(), k);
        assert_eq!(b.poll(false), Poll::Close(StreamEnd::Cancelled));
        assert!(matches!(
            b.on_item(Some(Ok(item(9, false)))),
            Action::Close(StreamEnd::Cancelled)
        ));
        assert!(matches!(
            b.on_item(Some(Err(EngineError::NumericBackendError))),
            Action::Close(StreamEnd::Cancelled)
        ));
        assert!(matches!(b.on_item(None), Action::Close(StreamEnd::Cancelled)));
        assert_eq!(b.emitted_count(), k);
        assert_eq!(b.end(), Some(StreamEnd::Cancelled));
    }
}

#[test]
fn an_error_ends_the_stream_after_the_tokens_already_sent() {
    let mut b = Bridge::new();
    assert!(matches!(b.on_item(Some(Ok(item(0, false)))), Action::Emit(_)));
    assert!(matches!(
        b.on_item(Some(Err(EngineError::TokenizerError))),
        Action::Close(StreamEnd::Failed(EngineError::TokenizerError))
    ));
    assert_eq!(b.emitted_count(), 1);
    assert_eq!(b.end(), Some(StreamEnd::Failed(EngineError::TokenizerError)));
    assert_eq!(b.poll(true), Poll::Close(StreamEnd::Failed(EngineError::TokenizerError)));
    assert_ne!(StreamEnd::Cancelled, StreamEnd::Finished);
    assert_ne!(StreamEnd::Cancelled, StreamEnd::Failed(EngineError::NumericBackendError));
}

#[test]
fn an_exhausted_generation_finishes_the_stream() {
    let mut b = Bridge::new();
    assert!(matches!(b.on_item(None), Action::Close(StreamEnd::Finished)));
    assert_eq!(b.end(), Some(StreamEnd::Finished));
    assert_eq!(b.emitted_count(), 0);
}

#[test]
fn a_new_run_comes_with_the_order_to_cancel_the_one_before() {
    let mut s = Session::new();
    assert_eq!(s.begin(), Some((0, None)));
    assert_eq!(s.begin(), Some((1, Some(0))));
    s.finish(0);
    assert_eq!(s.begin(), Some((2, Some(1))));
    s.finish(2);
    assert_eq!(s.begin(), Some((3, None)));
    s.finish(3);
    s.finish(3);
    assert_eq!(s.begin(), Some((4, None)));
}
