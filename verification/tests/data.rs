use cf_downloader::cache::SubmitKey;
use cf_downloader::downloader::data::Error as DataError;
use cf_downloader::downloader::Downloader;
use cf_downloader::encoding::gzip::{Decoder, Error as GzipError};
use cf_downloader::encoding::probe::{Encoder, Meta};
use cf_downloader::encoding::Template;
use cf_downloader::problem::{Problem, Type};
use cf_downloader::types::{DataId, TestMeta};
use cf_downloader::verdict::Verdict;
use std::io::Write;

fn problem() -> Problem {
    Problem::new(Type::Contest, String::from("100"), String::from("A"))
}

fn meta(hash: &str, input: Option<&str>, output_size: usize) -> TestMeta {
    TestMeta {
        data_id: DataId { hash: String::from(hash), answer: None },
        input: input.map(String::from),
        size: 0,
        output_size,
        compress_size: 0,
    }
}

/// The judge-side encoding of a test's content: gzip, then base64.
fn encode_payload(content: &str) -> String {
    let mut gz = flate2::write::GzEncoder::new(Vec::new(), flate2::Compression::default());
    gz.write_all(content.as_bytes()).unwrap();
    base64::encode(gz.finish().unwrap())
}

fn loaded_downloader(tests: Vec<TestMeta>) -> Downloader {
    let mut dl = Downloader::new(problem());
    let p = problem();
    dl.load_meta(&p, tests).unwrap();
    dl
}

#[test]
fn chunk_keys_cover_the_output() {
    // output_size 1200 with 500-byte chunks: exactly three probes, at
    // offsets 0, 500 and 1000, keyed by the 1-based test index.
    let dl = loaded_downloader(vec![meta("h", None, 1200)]);
    let keys = dl.chunk_keys(0);
    assert_eq!(keys.len(), 3);
    assert_eq!(keys[0], SubmitKey { test: 1, time: 0 });
    assert_eq!(keys[1], SubmitKey { test: 1, time: 500 });
    assert_eq!(keys[2], SubmitKey { test: 1, time: 1000 });

    let none = loaded_downloader(vec![meta("h", None, 0)]);
    assert!(none.chunk_keys(0).is_empty());
}

#[test]
fn decode_is_independent_of_resolution_order() {
    // Chunks arrive in two different completion orders; keyed by their
    // offsets they land in the same slots, and both decodes agree.
    let content = "q".repeat(1400);
    let encoded = encode_payload(&content);
    let chunks: Vec<String> =
        encoded.as_bytes().chunks(500).map(|c| String::from_utf8(c.to_vec()).unwrap()).collect();
    let dl = loaded_downloader(vec![meta("h", None, encoded.len())]);
    assert_eq!(dl.chunk_keys(0).len(), chunks.len());

    let arrivals_a: Vec<usize> = (0..chunks.len()).collect();
    let mut arrivals_b: Vec<usize> = (0..chunks.len()).rev().collect();
    arrivals_b.rotate_left(1);

    let mut results = Vec::new();
    for order in [arrivals_a, arrivals_b] {
        let mut slots: Vec<String> = vec![String::new(); chunks.len()];
        for idx in order {
            // Completion hands back (offset, payload); the offset, not
            // the completion order, picks the slot.
            let offset = idx * 500;
            slots[offset / 500] = chunks[idx].clone();
        }
        results.push(dl.decode_test(0, &slots).unwrap());
    }
    assert_eq!(results[0], content);
    assert_eq!(results[1], content);
}

#[test]
fn decode_trims_chunk_payloads() {
    let content = "sample\ninput\n";
    let encoded = encode_payload(content);
    let padded = vec![format!("\n\t{} \n", encoded)];
    let dl = loaded_downloader(vec![meta("h", None, encoded.len())]);
    assert_eq!(dl.decode_test(0, &padded).unwrap(), content);
}

#[test]
fn inline_input_bypasses_decoding() {
    let dl = loaded_downloader(vec![meta("h", Some("5 7"), 999)]);
    let garbage = vec![String::from("!!!not base64!!!")];
    assert_eq!(dl.decode_test(0, &garbage).unwrap(), "5 7");
}

#[test]
fn decode_reports_bad_base64() {
    let dl = loaded_downloader(vec![meta("h", None, 10)]);
    let outputs = vec![String::from("!!!")];
    match dl.decode_test(0, &outputs) {
        Err(DataError::Decode(0, GzipError::Decode(_))) => {},
        other => panic!("expected a base64 failure, got {:?}", other.map_err(|_| ())),
    }
}

#[test]
fn decode_reports_bad_gzip() {
    let dl = loaded_downloader(vec![meta("h", None, 10)]);
    // Valid base64 of bytes that are no gzip stream.
    let outputs = vec![base64::encode(b"plainly not gzip")];
    match dl.decode_test(0, &outputs) {
        Err(DataError::Decode(0, GzipError::Decompress(_))) => {},
        other => panic!("expected a gzip failure, got {:?}", other.map_err(|_| ())),
    }
}

#[test]
fn decoder_collects_and_clears() {
    let content = "abc";
    let encoded = encode_payload(content);
    let mut dec = Decoder::new();
    dec.init(&meta("h", None, encoded.len()));
    let (a, b) = encoded.split_at(encoded.len() / 2);
    dec.append_message(a);
    dec.append_message(b);
    assert_eq!(dec.decode().unwrap(), content);
    dec.clear();
    assert!(matches!(dec.decode(), Err(GzipError::Decompress(_))));
}

#[test]
fn data_ignore_skips_the_fetched_range() {
    let dl = loaded_downloader(vec![
        meta("h0", None, 1),
        meta("h1", None, 1),
        meta("h2", None, 1),
        meta("h3", None, 1),
    ]);
    let ignore = dl.data_ignore(1, 3);
    let hashes: Vec<&str> = ignore.iter().map(|d| d.hash.as_str()).collect();
    assert_eq!(hashes, ["h0", "h3"]);
}

#[test]
fn needs_fetch_follows_inline_input() {
    let dl = loaded_downloader(vec![meta("h0", Some("1"), 1), meta("h1", None, 1)]);
    assert!(!dl.needs_fetch(0));
    assert!(dl.needs_fetch(1));
}

#[test]
fn meta_step_appends_and_extends_ignore() {
    // The ignore list before probe k+1 is exactly the fingerprints of
    // tests 0..=k, in discovery order.
    let mut dl = Downloader::new(problem());
    assert!(dl.is_empty());
    assert_eq!(dl.meta_key(), SubmitKey { test: 1, time: 0 });
    assert!(dl.meta_ignore().is_empty());

    let v1 = Verdict { input: None, output: String::from("1 2 3 first"), answer: None };
    let id1 = dl.meta_step(v1).unwrap();
    assert_eq!(id1.hash, "first");
    assert_eq!(dl.len(), 1);
    assert_eq!(dl.meta_key(), SubmitKey { test: 2, time: 0 });

    let v2 = Verdict { input: None, output: String::from("4 5 6 second"), answer: None };
    dl.meta_step(v2).unwrap();
    let ignore = dl.meta_ignore();
    let hashes: Vec<&str> = ignore.iter().map(|d| d.hash.as_str()).collect();
    assert_eq!(hashes, ["first", "second"]);
}

#[test]
fn meta_step_rejects_bad_records_untouched() {
    let mut dl = Downloader::new(problem());
    let bad = Verdict { input: None, output: String::from("only three here"), answer: None };
    let err = dl.meta_step(bad).unwrap_err();
    assert_eq!(err.id, 0);
    assert!(dl.is_empty());
}

#[test]
fn load_meta_rejects_foreign_snapshot() {
    let mut dl = loaded_downloader(vec![meta("kept", None, 1)]);
    let foreign = Problem::new(Type::Contest, String::from("200"), String::from("A"));
    assert!(dl.load_meta(&foreign, vec![]).is_err());
    assert_eq!(dl.len(), 1);
    assert_eq!(dl.data()[0].data_id.hash, "kept");
}

#[test]
fn encoders_carry_salt_and_ignore_list() {
    let template = Template { language: String::from("73"), content: String::from("{{random}}") };
    let mut enc = Encoder::new(&template, 4);
    enc.init();
    enc.push_ignore(&DataId { hash: String::from("h0"), answer: None });
    enc.push_ignore(&DataId { hash: String::from("h1"), answer: None });
    enc.pop_ignore();
    let req = enc.generate(500);
    assert_eq!(req.offset, 500);
    assert_eq!(req.length, 500);
    assert_eq!(req.ignore.len(), 1);
    assert_eq!(req.ignore[0].hash, "h0");

    let mut gen = Meta::new(&template, 4);
    gen.init();
    gen.ignore(&DataId { hash: String::from("h0"), answer: None });
    let mreq = gen.generate();
    assert_eq!(mreq.ignore.len(), 1);
    // Two runs draw independent salts; the request carries this run's.
    assert_eq!(mreq.random, gen.generate().random);
}
