use ssg::front_matter::{find_config, split_document};
use ssg::SSGError;

#[test]
fn header_and_body_offsets() {
    let doc = b"---\ntitle: t\n---\nbody text".to_vec();
    let (hs, he) = find_config(&doc).unwrap();
    assert_eq!(hs, 3);
    assert_eq!(he, 13);
    let (header, body) = split_document(&doc).unwrap();
    assert_eq!(header, b"\ntitle: t\n".to_vec());
    assert_eq!(body, b"\nbody text".to_vec());
}

#[test]
fn spans_reconstruct_document() {
    let doc = b"prefix---header---body".to_vec();
    let (hs, he) = find_config(&doc).unwrap();
    let mut rebuilt = doc[..hs - 3].to_vec();
    rebuilt.extend_from_slice(b"---");
    rebuilt.extend_from_slice(&doc[hs..he]);
    rebuilt.extend_from_slice(b"---");
    rebuilt.extend_from_slice(&doc[he + 3..]);
    assert_eq!(rebuilt, doc);
}

#[test]
fn delimiter_may_sit_mid_line() {
    let doc = b"x---abc---y".to_vec();
    let (hs, he) = find_config(&doc).unwrap();
    assert_eq!(&doc[hs..he], b"abc");
    assert_eq!(&doc[he + 3..], b"y");
}

#[test]
fn missing_second_delimiter_fails() {
    let doc = b"---\ntitle: t\nno end".to_vec();
    assert!(find_config(&doc).is_none());
    assert_eq!(split_document(&doc), Err(SSGError::MalformedDocument));
}

#[test]
fn missing_both_delimiters_fails() {
    let doc = b"no front matter at all".to_vec();
    assert_eq!(split_document(&doc), Err(SSGError::MalformedDocument));
}

#[test]
fn overlapping_dashes_do_not_count_twice() {
    // four dashes hold only one non-overlapping occurrence
    let doc = b"----".to_vec();
    assert!(find_config(&doc).is_none());
    // six dashes hold two
    let doc = b"------".to_vec();
    let (hs, he) = find_config(&doc).unwrap();
    assert_eq!((hs, he), (3, 3));
}
