use embed_gate::errors::AppError;
use embed_gate::errors::ComputeError;
use embed_gate::server::FeatureExtraction;
use embed_gate::server::ProtectedPool;
use embed_gate::server::feature_extraction;

/// A deterministic stand-in for the embedding worker: each text maps to a
/// fixed two-component vector.
fn stub_vector(text: &str) -> Vec<f64> {
    vec![text.len() as f64, text.as_bytes().iter().map(|b| *b as f64).sum::<f64>()]
}

fn stub_embed(inputs: &[String]) -> Result<Vec<Vec<f64>>, ComputeError> {
    Ok(inputs.iter().map(|s| stub_vector(s)).collect())
}

fn request(texts: &[&str]) -> FeatureExtraction {
    FeatureExtraction::new(texts.iter().map(|s| s.to_string()).collect())
}

#[test]
fn validation_fails_fast_without_consuming_a_permit() {
    let mut pp = ProtectedPool::new(2);
    let before = pp.available_permits();
    let r = pp.try_begin(&request(&[]));
    assert!(matches!(r, Err(AppError::ValidationError)));
    assert_eq!(pp.available_permits(), before);
    assert_eq!(pp.free_workers(), 2);
}

#[test]
fn responses_preserve_order_and_round_trip() {
    let mut pp = ProtectedPool::new(1);
    let texts = ["a", "b", "c"];
    let req = request(&texts);
    let inputs: Vec<String> = texts.iter().map(|s| s.to_string()).collect();
    let first = feature_extraction(&mut pp, &req, |_id| stub_embed(&inputs)).expect("succeeds");
    assert_eq!(first.len(), 3);
    for (i, text) in texts.iter().enumerate() {
        assert_eq!(first[i], stub_vector(text));
    }
    let second = feature_extraction(&mut pp, &req, |_id| stub_embed(&inputs)).expect("succeeds");
    assert_eq!(first, second);
    assert_eq!(pp.available_permits(), 1);
    assert_eq!(pp.free_workers(), 1);
}

#[test]
fn second_request_unblocks_after_the_first_releases() {
    let mut pp = ProtectedPool::new(1);
    let req_a = request(&["first"]);
    let req_b = request(&["second"]);
    let ticket_a = pp.try_begin(&req_a).expect("admitted");
    // While the single permit is held, the second request is refused, not
    // deadlocked: its caller may wait and retry.
    assert!(matches!(pp.try_begin(&req_b), Err(AppError::AdmissionTimeout)));
    let out_a = pp
        .finish(ticket_a, stub_embed(&["first".to_string()]))
        .expect("computed");
    assert_eq!(out_a, vec![stub_vector("first")]);
    // The release re-enables the waiter at once.
    let ticket_b = pp.try_begin(&req_b).expect("admitted after release");
    let out_b = pp
        .finish(ticket_b, stub_embed(&["second".to_string()]))
        .expect("computed");
    assert_eq!(out_b, vec![stub_vector("second")]);
    assert_eq!(pp.available_permits(), 1);
    assert_eq!(pp.free_workers(), 1);
}

#[test]
fn compute_failure_still_releases_everything() {
    let mut pp = ProtectedPool::new(1);
    let req = request(&["x"]);
    let ticket = pp.try_begin(&req).expect("admitted");
    let r: Result<Vec<Vec<f64>>, AppError> =
        pp.finish(ticket, Err(ComputeError::EncodeFailed));
    assert!(matches!(r, Err(AppError::ComputeFailed(ComputeError::EncodeFailed))));
    assert_eq!(pp.available_permits(), 1);
    assert_eq!(pp.free_workers(), 1);
    // The worker is usable again immediately.
    let r2 = feature_extraction(&mut pp, &req, |_id| {
        Err::<Vec<Vec<f64>>, ComputeError>(ComputeError::ConvertFailed)
    });
    assert!(matches!(
        r2,
        Err(AppError::ComputeFailed(ComputeError::ConvertFailed))
    ));
    assert_eq!(pp.available_permits(), 1);
    assert_eq!(pp.free_workers(), 1);
}

#[test]
fn five_requests_share_two_workers() {
    let mut pp = ProtectedPool::new(2);
    let texts = ["one", "two", "three", "four", "five"];
    let mut pending: Vec<usize> = (0..texts.len()).collect();
    let mut in_flight: Vec<(usize, embed_gate::server::Ticket)> = Vec::new();
    let mut responses: Vec<Option<Vec<Vec<f64>>>> = texts.iter().map(|_| None).collect();
    // Drive an interleaving: admit while admission is granted, then complete the
    // oldest request, and check the two-at-a-time bound at every instant.
    while responses.iter().any(|r| r.is_none()) {
        while !pending.is_empty() {
            let next = pending[0];
            match pp.try_begin(&request(&[texts[next]])) {
                Ok(t) => {
                    pending.remove(0);
                    in_flight.push((next, t));
                }
                Err(AppError::AdmissionTimeout) => break,
                Err(other) => panic!("unexpected error: {:?}", other),
            }
        }
        let engaged = pp.worker_count() - pp.free_workers();
        assert!(engaged <= 2);
        assert_eq!(engaged, in_flight.len());
        if !pending.is_empty() {
            // Demand exceeds capacity: both workers must really be engaged.
            assert_eq!(engaged, 2);
        }
        let (idx, ticket) = in_flight.remove(0);
        let out = pp
            .finish(ticket, stub_embed(&[texts[idx].to_string()]))
            .expect("computed");
        responses[idx] = Some(out);
    }
    // All five completed, each with the deterministic stub's mapping.
    for (i, text) in texts.iter().enumerate() {
        assert_eq!(responses[i].as_ref().expect("completed"), &vec![stub_vector(text)]);
    }
    // Every permit and every worker is back.
    assert_eq!(pp.available_permits(), 2);
    assert_eq!(pp.free_workers(), 2);
}

#[test]
fn sub_limit_gate_bounds_admissions_below_the_pool_size() {
    let mut pp = ProtectedPool::with_limit(3, 1);
    assert_eq!(pp.admission_limit(), 1);
    assert_eq!(pp.worker_count(), 3);
    let req = request(&["x"]);
    let t = pp.try_begin(&req).expect("admitted");
    assert!(matches!(pp.try_begin(&req), Err(AppError::AdmissionTimeout)));
    assert!(pp.can_finish(&t));
    let _ = pp.finish(t, stub_embed(&["x".to_string()])).expect("computed");
    assert_eq!(pp.available_permits(), 1);
}
