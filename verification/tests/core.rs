use squatter_spotter::digits::{format_u64, parse_u64};
use squatter_spotter::driver::{account_rows, record_uid, resume_index};
use squatter_spotter::limiter::RateLimiter;
use squatter_spotter::measure::{download_segments, package_outcome, MeasureEvent, PkgError, Scratch};
use squatter_spotter::row::{encode_row, encode_rows, CrateId, CrateInfo};
use squatter_spotter::sink::header_row;

fn id(name: &str, version: &str) -> CrateId {
    CrateId { name: name.as_bytes().to_vec(), version: version.as_bytes().to_vec() }
}

#[test]
fn decimal_formatting() {
    assert_eq!(format_u64(0), b"0".to_vec());
    assert_eq!(format_u64(7), b"7".to_vec());
    assert_eq!(format_u64(120), b"120".to_vec());
    assert_eq!(format_u64(u64::MAX), b"18446744073709551615".to_vec());
}

#[test]
fn decimal_parsing() {
    assert_eq!(parse_u64(b"0"), Some(0));
    assert_eq!(parse_u64(b"42"), Some(42));
    assert_eq!(parse_u64(b"007"), Some(7));
    assert_eq!(parse_u64(b""), None);
    assert_eq!(parse_u64(b"1a"), None);
    assert_eq!(parse_u64(b"-3"), None);
    assert_eq!(parse_u64(b"18446744073709551615"), Some(u64::MAX));
    assert_eq!(parse_u64(b"18446744073709551616"), None);
}

#[test]
fn header_is_fixed() {
    assert_eq!(header_row(), b"crate,version,uid,loc\n".to_vec());
}

#[test]
fn plain_row_encoding() {
    let m = CrateInfo {
        name: b"bar".to_vec(),
        version: b"2.1.0".to_vec(),
        uid: 42,
        loc: 120,
    };
    assert_eq!(encode_row(&m), b"bar,2.1.0,42,120\n".to_vec());
}

#[test]
fn quoted_row_encoding() {
    let m = CrateInfo {
        name: b"odd,na\"me".to_vec(),
        version: b"1.0".to_vec(),
        uid: 1,
        loc: 2,
    };
    assert_eq!(encode_row(&m), b"\"odd,na\"\"me\",1.0,1,2\n".to_vec());
}

#[test]
fn limiter_spaces_requests() {
    let mut l = RateLimiter::new(250);
    // A fresh limiter lets the first request start at once.
    let s1 = l.schedule(1000);
    assert_eq!(s1, 1000);
    // A request arriving too soon is pushed to one interval after the last
    // start.
    let s2 = l.schedule(1010);
    assert_eq!(s2, 1250);
    assert!(s2 - s1 >= 250);
    // A request arriving late starts at once.
    let s3 = l.schedule(2000);
    assert_eq!(s3, 2000);
    assert!(s3 - s2 >= 250);
}

#[test]
fn resume_finds_starting_account() {
    let uids = vec![1u64, 5, 9];
    assert_eq!(resume_index(&uids, 5), Some(1));
    assert_eq!(resume_index(&uids, 0), Some(0));
    assert_eq!(resume_index(&uids, 9), Some(2));
    // A starting id that never occurs is a fatal configuration error.
    assert_eq!(resume_index(&uids, 7), None);
}

#[test]
fn resume_processes_only_the_suffix() {
    // Account list 1, 5, 9 with starting id 5: exactly accounts 5 and 9
    // are processed, in that order.
    let uids = vec![1u64, 5, 9];
    let k = resume_index(&uids, 5).unwrap();
    let processed: Vec<u64> = uids[k..].to_vec();
    assert_eq!(processed, vec![5, 9]);
}

#[test]
fn empty_account_writes_nothing() {
    let rows = account_rows(7, Vec::new(), &Vec::new());
    assert_eq!(rows.len(), 0);
    assert_eq!(encode_rows(&rows), Vec::<u8>::new());
}

#[test]
fn extraction_failure_is_a_zero_row() {
    let mut scratch = Scratch::new();
    let out = package_outcome(&mut scratch, &MeasureEvent::ExtractFailed);
    assert_eq!(out, Ok(0));
    // The degraded outcome still yields a row, with zero lines.
    let rows = account_rows(3, vec![id("tiny", "0.1.0")], &vec![out]);
    assert_eq!(rows.len(), 1);
    assert_eq!(rows[0].name, b"tiny".to_vec());
    assert_eq!(rows[0].loc, 0);
    assert_eq!(encode_rows(&rows), b"tiny,0.1.0,3,0\n".to_vec());
}

#[test]
fn measurement_failure_skips_the_package() {
    let mut scratch = Scratch::new();
    let out = package_outcome(&mut scratch, &MeasureEvent::MeasureToolFailed);
    assert_eq!(out, Err(PkgError::MeasureToolFailed));
    let rows = account_rows(3, vec![id("gone", "1.0.0")], &vec![out]);
    assert_eq!(rows.len(), 0);
}

#[test]
fn unusable_report_skips_the_package() {
    let mut scratch = Scratch::new();
    // A report without the designated language's count.
    let report = b"{\"Python\":{\"code\":5}}".to_vec();
    let out = package_outcome(&mut scratch, &MeasureEvent::Report(report));
    assert_eq!(out, Err(PkgError::ReportUnusable));
    // A report that is not parseable at all.
    let garbled = b"not json".to_vec();
    let out2 = package_outcome(&mut scratch, &MeasureEvent::Report(garbled));
    assert_eq!(out2, Err(PkgError::ReportUnusable));
}

#[test]
fn report_count_is_read() {
    let mut scratch = Scratch::new();
    let report = b"{\"Rust\":{\"blanks\":4,\"code\":120,\"comments\":9}}".to_vec();
    let out = package_outcome(&mut scratch, &MeasureEvent::Report(report));
    assert_eq!(out, Ok(120));
}

#[test]
fn one_failed_one_measured() {
    // Account 42 lists foo 1.0.0 and bar 2.1.0; foo's download fails and
    // bar measures 120 lines: exactly one row comes out.
    let mut scratch = Scratch::new();
    let foo = package_outcome(&mut scratch, &MeasureEvent::DownloadFailed);
    assert_eq!(foo, Err(PkgError::DownloadFailed));
    let report = b"{\"Rust\":{\"code\":120}}".to_vec();
    let bar = package_outcome(&mut scratch, &MeasureEvent::Report(report));
    assert_eq!(bar, Ok(120));
    let rows = account_rows(
        42,
        vec![id("foo", "1.0.0"), id("bar", "2.1.0")],
        &vec![foo, bar],
    );
    assert_eq!(encode_rows(&rows), b"bar,2.1.0,42,120\n".to_vec());
}

#[test]
fn bootstrap_writes_the_header_once() {
    // First run against a missing file: it is created with exactly the
    // header row, and rows are appended after it.
    let mut file: Vec<u8> = header_row();
    let first = account_rows(
        1,
        vec![id("one", "0.1.0")],
        &vec![Ok(10)],
    );
    file.extend_from_slice(&encode_rows(&first));
    // Second run against the now-existing file: contents are kept and rows
    // are appended; no second header appears.
    let second = account_rows(
        2,
        vec![id("two", "0.2.0")],
        &vec![Ok(20)],
    );
    file.extend_from_slice(&encode_rows(&second));
    assert_eq!(
        file,
        b"crate,version,uid,loc\none,0.1.0,1,10\ntwo,0.2.0,2,20\n".to_vec()
    );
    let header = b"crate,version,uid,loc";
    let occurrences = file
        .windows(header.len())
        .filter(|w| w == header)
        .count();
    assert_eq!(occurrences, 1);
}

#[test]
fn download_path_segments() {
    let segs = download_segments(&id("foo", "1.0.0"));
    assert_eq!(segs.len(), 3);
    assert_eq!(segs[0], b"foo".to_vec());
    assert_eq!(segs[1], b"1.0.0".to_vec());
    assert_eq!(segs[2], b"download".to_vec());
}

#[test]
fn account_record_field() {
    let rec: Vec<Vec<u8>> = vec![
        b"gh_login".to_vec(),
        b"name".to_vec(),
        b"avatar".to_vec(),
        b"123".to_vec(),
    ];
    assert_eq!(record_uid(&rec), Some(123));
    let short: Vec<Vec<u8>> = vec![b"a".to_vec(), b"b".to_vec()];
    assert_eq!(record_uid(&short), None);
    let bad: Vec<Vec<u8>> = vec![
        b"a".to_vec(),
        b"b".to_vec(),
        b"c".to_vec(),
        b"x9".to_vec(),
    ];
    assert_eq!(record_uid(&bad), None);
}
