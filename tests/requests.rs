use bytes::BytesMut;
use hgwire::nodehash::HgNodeHash;
use hgwire::param_map::ParamMap;
use hgwire::parsed::Parsed;
use hgwire::request::{
    parse_request, parse_with_params, GetbundleArgs, GettreepackArgs, ParamSyntax, Request,
    SingleRequest,
};
use hgwire::strmap::{BundleCaps, CapParams, CapValues, StrMap};

fn hash_ones() -> HgNodeHash {
    HgNodeHash::from_hex(b"1111111111111111111111111111111111111111").unwrap()
}

fn hash_twos() -> HgNodeHash {
    HgNodeHash::from_hex(b"2222222222222222222222222222222222222222").unwrap()
}

fn hash_threes() -> HgNodeHash {
    HgNodeHash::from_hex(b"3333333333333333333333333333333333333333").unwrap()
}

fn hash_fours() -> HgNodeHash {
    HgNodeHash::from_hex(b"4444444444444444444444444444444444444444").unwrap()
}

/// Checks that every truncation of `inp` is incomplete, and that `inp`
/// followed by any prefix of `extra` gives `exp` and leaves that prefix.
fn check_parse_with_extra(inp: &[u8], exp: Request, extra: &[u8]) {
    for l in 0..inp.len() - 1 {
        let mut buf = BytesMut::from(&inp[0..l]);
        match parse_request(&mut buf) {
            Ok(None) => (),
            Ok(Some(val)) => panic!(
                "BAD PASS: inp >>{:?}<< passed unexpectedly val {:?} pass with {}/{} bytes",
                inp,
                val,
                l,
                inp.len()
            ),
            Err(err) => panic!(
                "BAD FAIL: inp >>{:?}<< failed {:?} (not incomplete) with {}/{} bytes",
                inp,
                err,
                l,
                inp.len()
            ),
        };
    }

    for l in 0..extra.len() {
        let mut buf = BytesMut::from(inp);
        buf.extend_from_slice(&extra[0..l]);
        let buflen = buf.len();
        match parse_request(&mut buf) {
            Ok(Some(val)) => assert_eq!(val, exp, "with {}/{} bytes", buflen, inp.len()),
            Ok(None) => panic!(
                "BAD INCOMPLETE: inp >>{:?}<< extra {} incomplete {}/{} bytes",
                inp,
                l,
                buflen,
                inp.len()
            ),
            Err(err) => panic!(
                "BAD FAIL: inp >>{:?}<< extra {} failed {:?} (not incomplete) with {}/{} bytes",
                inp,
                l,
                err,
                buflen,
                inp.len()
            ),
        };
        assert_eq!(&buf[..], &extra[0..l]);
    }
}

fn check_parse(inp: &[u8], exp: Request) {
    check_parse_with_extra(inp, exp, b"extra")
}

fn no_caps() -> BundleCaps {
    StrMap::new()
}

#[test]
fn test_parse_batch_1() {
    let inp = b"batch\n* 0\ncmds 6\nhello ";
    check_parse(inp, Request::Batch(vec![SingleRequest::Hello]))
}

#[test]
fn test_parse_batch_2() {
    let inp = b"batch\n* 0\ncmds 12\nknown nodes=";
    check_parse(
        inp,
        Request::Batch(vec![SingleRequest::Known { nodes: vec![] }]),
    )
}

#[test]
fn test_parse_batch_3() {
    let inp = b"batch\n* 0\ncmds 19\nhello ;known nodes=";
    check_parse(
        inp,
        Request::Batch(vec![
            SingleRequest::Hello,
            SingleRequest::Known { nodes: vec![] },
        ]),
    )
}

#[test]
fn test_parse_between() {
    let inp = b"between\npairs 163\n1111111111111111111111111111111111111111-2222222222222222222222222222222222222222 3333333333333333333333333333333333333333-4444444444444444444444444444444444444444";
    check_parse(
        inp,
        Request::Single(SingleRequest::Between {
            pairs: vec![(hash_ones(), hash_twos()), (hash_threes(), hash_fours())],
        }),
    );
}

#[test]
fn test_parse_branchmap() {
    check_parse(b"branchmap\n", Request::Single(SingleRequest::Branchmap {}));
}

#[test]
fn test_parse_capabilities() {
    check_parse(
        b"capabilities\n",
        Request::Single(SingleRequest::Capabilities {}),
    );
}

#[test]
fn test_parse_debugwireargs() {
    let inp = b"debugwireargs\n* 2\nthree 5\nTHREEempty 0\none 3\nONEtwo 3\nTWO";
    let mut all_args = ParamMap::new();
    all_args.insert(b"one".to_vec(), b"ONE".to_vec());
    all_args.insert(b"two".to_vec(), b"TWO".to_vec());
    all_args.insert(b"three".to_vec(), b"THREE".to_vec());
    all_args.insert(b"empty".to_vec(), vec![]);
    check_parse(
        inp,
        Request::Single(SingleRequest::Debugwireargs {
            one: b"ONE".to_vec(),
            two: b"TWO".to_vec(),
            all_args,
        }),
    );
}

#[test]
fn test_parse_getbundle() {
    // with no arguments
    let inp = b"getbundle\n* 0\n";
    check_parse(
        inp,
        Request::Single(SingleRequest::Getbundle(GetbundleArgs {
            heads: vec![],
            common: vec![],
            bundlecaps: no_caps(),
            listkeys: vec![],
            phases: false,
        })),
    );

    // with arguments
    let inp = b"getbundle\n* 6\nheads 40\n1111111111111111111111111111111111111111common 81\n2222222222222222222222222222222222222222 3333333333333333333333333333333333333333bundlecaps 14\ncap1,CAP2,cap3listkeys 9\nkey1,key2phases 1\n1extra 5\nextra";
    check_parse(
        inp,
        Request::Single(SingleRequest::Getbundle(GetbundleArgs {
            heads: vec![hash_ones()],
            common: vec![hash_twos(), hash_threes()],
            bundlecaps: StrMap::from_pairs(
                ["cap1", "CAP2", "cap3"]
                    .iter()
                    .map(|s| (s.to_string(), StrMap::new()))
                    .collect(),
            ),
            listkeys: vec![b"key1".to_vec(), b"key2".to_vec()],
            phases: true,
        })),
    );
}

#[test]
fn test_parse_getbundle_bundlecaps() {
    let inp = b"getbundle\n* 1\nbundlecaps 78\nblock,entries=entry%0Alist%3D1%2Cx%2Cy%0Asingle%3Dx%0Adoubleenc%3Dtest%253A123";

    let strings = |v: &[&str]| -> CapValues {
        CapValues::from_strings(v.iter().map(|x| x.to_string()).collect())
    };

    let expected_entries: CapParams = StrMap::from_pairs(vec![
        ("entry".to_string(), CapValues::new()),
        ("list".to_string(), strings(&["1", "x", "y"])),
        ("single".to_string(), strings(&["x"])),
        ("doubleenc".to_string(), strings(&["test:123"])),
    ]);

    let expected_bundlecaps: BundleCaps = StrMap::from_pairs(vec![
        ("block".to_string(), StrMap::new()),
        ("entries".to_string(), expected_entries),
    ]);

    check_parse(
        inp,
        Request::Single(SingleRequest::Getbundle(GetbundleArgs {
            heads: vec![],
            common: vec![],
            bundlecaps: expected_bundlecaps,
            listkeys: vec![],
            phases: false,
        })),
    );
}

#[test]
fn test_parse_heads() {
    check_parse(b"heads\n", Request::Single(SingleRequest::Heads {}));
}

#[test]
fn test_parse_hello() {
    check_parse(b"hello\n", Request::Single(SingleRequest::Hello {}));
}

#[test]
fn test_parse_listkeys() {
    check_parse(
        b"listkeys\nnamespace 9\nbookmarks",
        Request::Single(SingleRequest::Listkeys {
            namespace: "bookmarks".to_string(),
        }),
    );
}

#[test]
fn test_parse_lookup() {
    check_parse(
        b"lookup\nkey 9\nbookmarks",
        Request::Single(SingleRequest::Lookup {
            key: "bookmarks".to_string(),
        }),
    );
}

#[test]
fn test_parse_lookup2() {
    check_parse(
        b"lookup\nkey 4\n5c79",
        Request::Single(SingleRequest::Lookup {
            key: "5c79".to_string(),
        }),
    );
}

#[test]
fn test_parse_gettreepack() {
    let inp = b"gettreepack\n* 4\nrootdir 0\nmfnodes 40\n1111111111111111111111111111111111111111basemfnodes 40\n1111111111111111111111111111111111111111directories 0\n";
    check_parse(
        inp,
        Request::Single(SingleRequest::Gettreepack(GettreepackArgs {
            rootdir: vec![],
            mfnodes: vec![hash_ones()],
            basemfnodes: vec![hash_ones()],
            directories: vec![],
            depth: None,
        })),
    );

    let inp = b"gettreepack\n* 5\ndepth 1\n1rootdir 5\nololomfnodes 81\n1111111111111111111111111111111111111111 2222222222222222222222222222222222222222basemfnodes 81\n2222222222222222222222222222222222222222 1111111111111111111111111111111111111111directories 5\n:o,:s";
    check_parse(
        inp,
        Request::Single(SingleRequest::Gettreepack(GettreepackArgs {
            rootdir: b"ololo".to_vec(),
            mfnodes: vec![hash_ones(), hash_twos()],
            basemfnodes: vec![hash_twos(), hash_ones()],
            directories: vec![b",".to_vec(), b";".to_vec()],
            depth: Some(1),
        })),
    );
}

#[test]
fn test_parse_known_1() {
    check_parse(
        b"known\n* 0\nnodes 40\n1111111111111111111111111111111111111111",
        Request::Single(SingleRequest::Known {
            nodes: vec![hash_ones()],
        }),
    );
}

#[test]
fn test_parse_known_2() {
    check_parse(
        b"known\n* 0\nnodes 0\n",
        Request::Single(SingleRequest::Known { nodes: vec![] }),
    );
}

#[test]
fn test_parse_unbundle_minimal() {
    let bundle: &[u8] = &b"HG20\0\0\0\0\0\0\0\0"[..];
    check_parse_with_extra(
        b"unbundle\nheads 10\n666f726365",
        Request::Single(SingleRequest::Unbundle {
            heads: vec![String::from("666f726365")],
        }),
        bundle,
    );
}

#[test]
fn test_batch_parse_heads() {
    match parse_with_params(b"heads\n", ParamSyntax::BatchEscaped) {
        Parsed::Done(n, val) => {
            assert_eq!(n, 6);
            assert_eq!(val, SingleRequest::Heads {});
        }
        Parsed::Incomplete => panic!("unexpected incomplete input"),
        Parsed::Error => panic!("failed"),
    }
}

#[test]
fn test_parse_batch_heads() {
    let inp = b"batch\n* 0\ncmds 116\nheads ;lookup key=1234;known nodes=1111111111111111111111111111111111111111 2222222222222222222222222222222222222222";
    check_parse(
        inp,
        Request::Batch(vec![
            SingleRequest::Heads {},
            SingleRequest::Lookup {
                key: "1234".to_string(),
            },
            SingleRequest::Known {
                nodes: vec![hash_ones(), hash_twos()],
            },
        ]),
    );
}

#[test]
fn test_parse_stream_out_shallow() {
    check_parse(
        b"stream_out_shallow\n* 1\nnoflatmanifest 4\nTrue",
        Request::Single(SingleRequest::StreamOutShallow),
    );
}
