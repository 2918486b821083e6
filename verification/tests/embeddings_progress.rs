use gulfi::embeddings::{
    attempt_result, backoff_delay, classify_status, embedding_request, honours_retry_after,
    pair_with, parse_u64, retry_delay, retry_step, AttemptResult, EncodingFormat, RetryAction, StatusClass,
    MAX_RETRIES,
};
use gulfi::progress::{
    progress_line, spinner_step, ChunkBoard, ChunkStatus, EmbeddingMessage, RenderEvent,
    SpinnerAction,
};

#[test]
fn request_body_asks_for_float_vectors() {
    let r = embedding_request(vec!["hola".to_string()]);
    assert_eq!(r.model, "text-embedding-3-small");
    assert_eq!(r.encoding_format, Some(EncodingFormat::Float));
    assert_eq!(r.dimensions, Some(1536));
    assert_eq!(r.input, vec!["hola".to_string()]);
    assert_eq!(EncodingFormat::Base64.as_str(), "base64");
}

#[test]
fn statuses_are_classified() {
    assert_eq!(classify_status(200), StatusClass::Success);
    assert_eq!(classify_status(298), StatusClass::Success);
    assert_eq!(classify_status(299), StatusClass::Failure);
    assert_eq!(classify_status(429), StatusClass::Throttled);
    assert_eq!(classify_status(502), StatusClass::Throttled);
    assert_eq!(classify_status(520), StatusClass::Throttled);
    assert_eq!(classify_status(400), StatusClass::Failure);
}

#[test]
fn throttling_on_the_last_attempt_exhausts_retries() {
    assert_eq!(attempt_result(429, 0, MAX_RETRIES), AttemptResult::RateLimit);
    assert_eq!(attempt_result(429, MAX_RETRIES, MAX_RETRIES), AttemptResult::MaxRetriesExceeded);
    assert_eq!(attempt_result(201, 3, MAX_RETRIES), AttemptResult::Answered);
    assert_eq!(attempt_result(500, 0, MAX_RETRIES), AttemptResult::RequestError);
    assert!(honours_retry_after(AttemptResult::RateLimit));
    assert!(!honours_retry_after(AttemptResult::MaxRetriesExceeded));
}

#[test]
fn retry_steps() {
    assert_eq!(retry_step(0, AttemptResult::Answered), RetryAction::Read);
    assert_eq!(retry_step(2, AttemptResult::RateLimit), RetryAction::Retry { next: 3 });
    assert_eq!(
        retry_step(5, AttemptResult::MaxRetriesExceeded),
        RetryAction::Fail(AttemptResult::MaxRetriesExceeded)
    );
    // A run of throttled answers ends after the last allowed attempt.
    let mut attempt = 0;
    let mut tries = 0;
    loop {
        tries += 1;
        match retry_step(attempt, attempt_result(429, attempt, MAX_RETRIES)) {
            RetryAction::Retry { next } => attempt = next,
            other => {
                assert_eq!(other, RetryAction::Fail(AttemptResult::MaxRetriesExceeded));
                break;
            }
        }
    }
    assert_eq!(tries, MAX_RETRIES + 1);
}

#[test]
fn backoff_doubles() {
    assert_eq!(backoff_delay(100, 0), 100);
    assert_eq!(backoff_delay(100, 3), 800);
    assert_eq!(retry_delay(100, 0), None);
    assert_eq!(retry_delay(u64::MAX, 0), None);
    let d = retry_delay(100, 2).unwrap();
    assert!(d >= 400 && d <= 600);
}

#[test]
fn decimal_headers() {
    assert_eq!(parse_u64("120"), Some(120));
    assert_eq!(parse_u64("+5"), Some(5));
    assert_eq!(parse_u64(""), None);
    assert_eq!(parse_u64("+"), None);
    assert_eq!(parse_u64("-5"), None);
    assert_eq!(parse_u64(" 5"), None);
    assert_eq!(parse_u64("18446744073709551615"), Some(u64::MAX));
    assert_eq!(parse_u64("18446744073709551616"), None);
}

#[test]
fn messages_read_as_lines() {
    assert_eq!(
        EmbeddingMessage::Preparing { count: 12 }.text(),
        "Preparing embeddings for 12 entries"
    );
    assert_eq!(
        EmbeddingMessage::SendingRequest { attempt: 1, max_attempts: 6 }.text(),
        "Sending request. (intento 1/6)"
    );
    assert_eq!(
        EmbeddingMessage::Complete { total_elapsed_ms: 1500 }.text(),
        "Embeddings done in (1500) ms"
    );
    assert_eq!(EmbeddingMessage::MaxRetriesExceeded.text(), "❌ Max retries exceeded");
    assert!(EmbeddingMessage::Complete { total_elapsed_ms: 0 }.is_complete());
    assert!(!EmbeddingMessage::ParsingResponse.is_complete());
}

#[test]
fn chunk_status_from_messages() {
    let s = ChunkStatus::from_message(EmbeddingMessage::MaxRetriesExceeded);
    assert_eq!(s.text(), "Failed: max retries exceeded");
    let s = ChunkStatus::from_message(EmbeddingMessage::RequestSuccessful { elapsed_ms: 3 });
    assert_eq!(s.text(), "Parsing response");
    let s = ChunkStatus::from_message(EmbeddingMessage::ParsingComplete { elapsed_ms: 9 });
    assert_eq!(s.text(), "Completed in 9 ms");
    let s = ChunkStatus::from_message(EmbeddingMessage::RateLimit { attempt: 2, max_attempts: 6 });
    assert_eq!(s.text(), "Rate limited (2/6)");
}

#[test]
fn board_keeps_the_most_recent_chunks() {
    let mut board = ChunkBoard::new(2);
    assert!(board.report(1, ChunkStatus::Parsing));
    assert!(!board.report(1, ChunkStatus::Parsing));
    assert!(board.report(1, ChunkStatus::Processing));
    assert!(board.report(2, ChunkStatus::Parsing));
    assert!(board.report(3, ChunkStatus::Parsing));
    let jobs: Vec<usize> = board.entries.iter().map(|e| e.0).collect();
    assert_eq!(jobs, vec![2, 3]);
    assert_eq!(
        board.lines(),
        vec!["  [02] Parsing response".to_string(), "  [03] Parsing response".to_string()]
    );
    let mut wide = ChunkBoard::new(3);
    wide.report(12, ChunkStatus::Preparing { count: 5 });
    assert_eq!(
        wide.lines(),
        vec!["  [12] Preparing 5 embeddings".to_string(), String::new(), String::new()]
    );
}

#[test]
fn spinner_and_progress() {
    assert_eq!(
        spinner_step(9, RenderEvent::SpinnerTick),
        SpinnerAction::Draw { frame: '⠏', next: 0 }
    );
    assert_eq!(spinner_step(0, RenderEvent::Done), SpinnerAction::Stop);
    assert_eq!(progress_line(1, 2, 4), "##.. (1/2)");
    assert_eq!(progress_line(0, 0, 3), "... (0/0)");
    assert_eq!(progress_line(3, 2, 4), "###### (3/2)");
}

#[test]
fn indices_pair_with_embeddings() {
    assert_eq!(pair_with(vec![4, 9, 2], vec!["a", "b"]), vec![(4, "a"), (9, "b")]);
    assert_eq!(pair_with(vec![1], vec![0.5f32, 0.25]), vec![(1, 0.5)]);
    assert!(pair_with(Vec::<u64>::new(), vec![1u8]).is_empty());
}
