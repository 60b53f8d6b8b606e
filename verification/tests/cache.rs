use cf_downloader::cache::{Cache, ErrorKind, State, StorageError, SubmitKey};
use cf_downloader::problem::{Problem, Type};
use cf_downloader::verdict::Verdict;

fn problem() -> Problem {
    Problem::new(Type::Contest, String::from("100"), String::from("A"))
}

fn verdict(output: &str) -> Verdict {
    Verdict { input: None, output: String::from(output), answer: None }
}

#[test]
fn batch_miss_then_hit() {
    // Empty cache, one key: the first batch dispatches, its resolution
    // caches the verdict, and a second batch for the same key is a hit
    // with no further dispatch.
    let mut cache = Cache::new(problem());
    let key = SubmitKey { test: 1, time: 0 };
    let keys = vec![key];

    let misses = cache.misses(&keys);
    assert_eq!(misses.len(), 1);

    let handles = cache.submit_batch(&keys, &vec![None], &vec![None]);
    assert_eq!(handles.len(), 1);
    assert!(matches!(handles[0].state, State::Pending));

    let mut handles = handles;
    let got = cache.resolve(handles.remove(0), Some(Ok(verdict("payload"))));
    assert_eq!(got.unwrap().output, "payload");

    // Second round: a pure hit, nothing left to dispatch.
    assert!(cache.misses(&keys).is_empty());
    let mut again = cache.submit_batch(&keys, &vec![], &vec![]);
    assert!(matches!(again[0].state, State::Hit));
    let got2 = cache.resolve(again.remove(0), None);
    assert_eq!(got2.unwrap().output, "payload");
}

#[test]
fn resolve_never_overwrites() {
    // Two pending handles for one key in one batch: the verdict stored
    // first wins; the second resolution returns the cached verdict.
    let mut cache = Cache::new(problem());
    let key = SubmitKey { test: 2, time: 500 };
    let keys = vec![key, key];
    let mut handles = cache.submit_batch(&keys, &vec![None, None], &vec![None, None]);
    let first = cache.resolve(handles.remove(0), Some(Ok(verdict("first"))));
    let second = cache.resolve(handles.remove(0), Some(Ok(verdict("second"))));
    assert_eq!(first.unwrap().output, "first");
    assert_eq!(second.unwrap().output, "first");
}

#[test]
fn generation_failure_is_per_key() {
    // Key 1 generates, key 2 fails to generate: key 2 carries its
    // error, key 1 is dispatched regardless.
    let cache = Cache::new(problem());
    let keys = vec![SubmitKey { test: 1, time: 0 }, SubmitKey { test: 2, time: 0 }];
    let handles = cache.submit_batch(
        &keys,
        &vec![None, Some(String::from("no template"))],
        &vec![None],
    );
    assert!(matches!(handles[0].state, State::Pending));
    match &handles[1].state {
        State::Failed(ErrorKind::Generate(msg)) => assert_eq!(msg, "no template"),
        other => panic!("expected a generation failure, got {:?}", other),
    }
}

#[test]
fn dispatch_failure_is_per_key() {
    let cache = Cache::new(problem());
    let keys = vec![SubmitKey { test: 1, time: 0 }, SubmitKey { test: 2, time: 0 }];
    let handles = cache.submit_batch(
        &keys,
        &vec![None, None],
        &vec![Some(String::from("connection reset")), None],
    );
    match &handles[0].state {
        State::Failed(ErrorKind::Submit(msg)) => assert_eq!(msg, "connection reset"),
        other => panic!("expected a dispatch failure, got {:?}", other),
    }
    assert!(matches!(handles[1].state, State::Pending));
}

#[test]
fn polling_failure_resolves_to_error() {
    let mut cache = Cache::new(problem());
    let keys = vec![SubmitKey { test: 7, time: 0 }];
    let mut handles = cache.submit_batch(&keys, &vec![None], &vec![None]);
    let got = cache.resolve(handles.remove(0), Some(Err(String::from("timed out"))));
    let err = got.unwrap_err();
    assert_eq!(err.id, SubmitKey { test: 7, time: 0 });
    match err.kind {
        ErrorKind::GetResult(msg) => assert_eq!(msg, "timed out"),
        other => panic!("expected a polling failure, got {:?}", other),
    }
    // Nothing was cached for the failed key.
    assert_eq!(cache.misses(&keys).len(), 1);
}

#[test]
fn load_rejects_foreign_snapshot() {
    // A snapshot tagged problem 100 A must not load into a cache
    // selected for 100 B; the in-memory cache stays unchanged.
    let mut cache = Cache::new(Problem::new(Type::Contest, String::from("100"), String::from("B")));
    let key = SubmitKey { test: 1, time: 0 };
    let mut handles = cache.submit_batch(&vec![key], &vec![None], &vec![None]);
    cache.resolve(handles.remove(0), Some(Ok(verdict("kept")))).unwrap();

    let foreign = Problem::new(Type::Contest, String::from("100"), String::from("A"));
    let loaded = cache.load(&foreign, vec![]);
    match loaded {
        Err(StorageError::Mismatch(expected, got)) => {
            assert_eq!(expected.id, "B");
            assert_eq!(got.id, "A");
        },
        Ok(()) => panic!("a foreign snapshot must be rejected"),
    }
    assert_eq!(cache.get(key).unwrap().output, "kept");
}

#[test]
fn load_accepts_matching_snapshot() {
    let mut cache = Cache::new(problem());
    let key = SubmitKey { test: 3, time: 1000 };
    let same = problem();
    cache.load(&same, vec![(key, verdict("loaded"))]).unwrap();
    assert_eq!(cache.get(key).unwrap().output, "loaded");
    assert!(cache.contains(key));
}

#[test]
fn flush_drops_entries_keeps_problem() {
    let mut cache = Cache::new(problem());
    let key = SubmitKey { test: 1, time: 0 };
    let mut handles = cache.submit_batch(&vec![key], &vec![None], &vec![None]);
    cache.resolve(handles.remove(0), Some(Ok(verdict("x")))).unwrap();
    assert!(cache.contains(key));
    cache.flush();
    assert!(!cache.contains(key));
    assert_eq!(cache.problem().contest, "100");
}
