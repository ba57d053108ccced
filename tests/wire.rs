use bytes::BytesMut;
use hgwire::bundlecaps::bundlecaps;
use hgwire::lookup::{parseval, ParamError};
use hgwire::nodehash::HgNodeHash;
use hgwire::param_map::ParamMap;
use hgwire::params::unescape;
use hgwire::parsed::Parsed;
use hgwire::request::{parse_request, Request, RequestError, SingleRequest};
use hgwire::strmap::{CapValues, StrMap};
use hgwire::values::{boolean, depth, hashlist, stringlist, utf8_string_complete};

#[test]
fn single_pair_between() {
    let mut inp = b"between\npairs 81\n".to_vec();
    inp.extend_from_slice(&[b'1'; 40]);
    inp.push(b'-');
    inp.extend_from_slice(&[b'2'; 40]);
    let mut buf = BytesMut::from(&inp[..]);
    let h1 = HgNodeHash::from_hex(&[b'1'; 40]).unwrap();
    let h2 = HgNodeHash::from_hex(&[b'2'; 40]).unwrap();
    assert_eq!(
        parse_request(&mut buf).unwrap(),
        Some(Request::Single(SingleRequest::Between { pairs: vec![(h1, h2)] }))
    );
    assert!(buf.is_empty());
}

#[test]
fn node_hash_bytes() {
    let h = HgNodeHash::from_hex(b"00ff00ff00ff00ff00ff00ff00ff00ff00ff00fa").unwrap();
    assert_eq!(h.as_bytes()[0], 0);
    assert_eq!(h.as_bytes()[1], 255);
    assert_eq!(h.as_bytes()[19], 250);
    assert!(HgNodeHash::from_hex(b"00FF00ff00ff00ff00ff00ff00ff00ff00ff00fa").is_none());
}

#[test]
fn bad_command_is_an_error_with_the_buffer() {
    let mut buf = BytesMut::from(&b"nosuchcommand\n"[..]);
    assert_eq!(
        parse_request(&mut buf),
        Err(RequestError::CommandParse("nosuchcommand\n".to_string()))
    );
    assert_eq!(&buf[..], b"nosuchcommand\n");
}

#[test]
fn bad_utf8_in_error_is_replaced() {
    let mut buf = BytesMut::from(&b"\xffx\n"[..]);
    match parse_request(&mut buf) {
        Err(RequestError::CommandParse(s)) => assert_eq!(s, "\u{fffd}x\n"),
        other => panic!("unexpected {:?}", other),
    }
}

#[test]
fn empty_buffer_needs_more() {
    let mut buf = BytesMut::new();
    assert_eq!(parse_request(&mut buf), Ok(None));
}

#[test]
fn batch_with_a_failing_command_fails() {
    let mut buf = BytesMut::from(&b"batch\n* 0\ncmds 13\nlookup key=:x"[..]);
    assert!(matches!(parse_request(&mut buf), Err(RequestError::CommandParse(_))));
}

#[test]
fn two_requests_in_a_row() {
    let mut buf = BytesMut::from(&b"heads\nhello\n"[..]);
    assert_eq!(
        parse_request(&mut buf),
        Ok(Some(Request::Single(SingleRequest::Heads)))
    );
    assert_eq!(
        parse_request(&mut buf),
        Ok(Some(Request::Single(SingleRequest::Hello)))
    );
    assert_eq!(parse_request(&mut buf), Ok(None));
}

#[test]
fn param_errors() {
    let mut kv = ParamMap::new();
    kv.insert(b"nodes".to_vec(), b"zz".to_vec());
    kv.insert(b"more".to_vec(), b"0000000000000000000000000000000000000000 x".to_vec());
    assert_eq!(
        parseval(&kv, b"missing", hashlist),
        Err(ParamError::Missing(b"missing".to_vec()))
    );
    assert_eq!(
        parseval(&kv, b"more", hashlist),
        Err(ParamError::TrailingBytes(b"more".to_vec()))
    );
    assert_eq!(
        parseval(&kv, b"nodes", utf8_string_complete).unwrap(),
        "zz".to_string()
    );
    let mut kv = ParamMap::new();
    kv.insert(b"flag".to_vec(), b"".to_vec());
    assert_eq!(
        parseval(&kv, b"flag", boolean),
        Err(ParamError::Invalid(b"flag".to_vec()))
    );
}

#[test]
fn later_param_wins() {
    let mut kv = ParamMap::new();
    kv.insert(b"a".to_vec(), b"1".to_vec());
    kv.insert(b"a".to_vec(), b"2".to_vec());
    assert_eq!(kv.len(), 1);
    assert_eq!(kv.get(b"a"), Some(&b"2".to_vec()));
}

#[test]
fn values() {
    assert_eq!(boolean(b"0"), Parsed::Done(1, false));
    assert_eq!(boolean(b"17"), Parsed::Done(2, true));
    assert_eq!(boolean(b"4294967296"), Parsed::Error);
    assert_eq!(depth(b"12"), Parsed::Done(2, 12));
    assert_eq!(
        stringlist(b"ab cd"),
        Parsed::Done(5, vec!["ab".to_string(), "cd".to_string()])
    );
    assert_eq!(stringlist(b""), Parsed::Error);
    assert_eq!(utf8_string_complete(b"\xff"), Parsed::Error);
    assert_eq!(unescape(b"a:cb:o"), Some(b"a:b,".to_vec()));
    assert_eq!(unescape(b"a:"), None);
    assert_eq!(unescape(b"a:x"), None);
}

#[test]
fn bundlecaps_percent_decoding() {
    let expected = StrMap::from_pairs(vec![(
        "cap".to_string(),
        StrMap::from_pairs(vec![(
            "k".to_string(),
            CapValues::from_strings(vec!["a b".to_string(), "c".to_string()]),
        )]),
    )]);
    let inp = b"cap=k%3Da%2520b%2Cc";
    assert_eq!(bundlecaps(inp), Parsed::Done(inp.len(), expected));
}
