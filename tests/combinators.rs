use hgwire::kernel::{ident, ident_alphanum, integer};
use hgwire::lookup::{parseval, parseval_default};
use hgwire::nodehash::{nodehash, HgNodeHash};
use hgwire::param_map::ParamMap;
use hgwire::params::{batch_param_escaped, batch_params, param_kv, param_star, params};
use hgwire::parsed::Parsed;
use hgwire::values::{cmd, cmdlist, commavalues, hashlist, pair, pairlist};

fn param_map(pairs: &[(&[u8], &[u8])]) -> ParamMap {
    let mut m = ParamMap::new();
    for (k, v) in pairs {
        m.insert(k.to_vec(), v.to_vec());
    }
    m
}

fn null_hash() -> HgNodeHash {
    HgNodeHash::from_hex(b"0000000000000000000000000000000000000000").unwrap()
}

#[test]
fn test_integer() {
    assert_eq!(integer(b"1234 "), Parsed::Done(4, 1234));
    assert_eq!(integer(b"1234"), Parsed::Incomplete);
}

#[test]
fn test_ident() {
    assert_eq!(ident(b"01 "), Parsed::Done(2, b"01".to_vec()));
    assert_eq!(ident(b"foo"), Parsed::Done(3, b"foo".to_vec()));
    assert_eq!(ident(b"foo "), Parsed::Done(3, b"foo".to_vec()));
}

#[test]
fn test_ident_alphanum() {
    assert_eq!(ident_alphanum(b"1234 "), Parsed::Error);
    assert_eq!(ident_alphanum(b" 1234 "), Parsed::Error);
    assert_eq!(ident_alphanum(b"foo"), Parsed::Incomplete);
    assert_eq!(ident_alphanum(b"foo "), Parsed::Done(3, b"foo".to_vec()));
}

#[test]
fn test_param_star() {
    let p = b"* 0\ntrailer";
    assert_eq!(param_star(p), Parsed::Done(p.len() - 7, param_map(&[])));

    let p = b"* 1\nfoo 12\nhello world!trailer";
    assert_eq!(
        param_star(p),
        Parsed::Done(p.len() - 7, param_map(&[(b"foo", b"hello world!")]))
    );

    let p = b"* 2\nfoo 12\nhello world!bar 4\nbloptrailer";
    assert_eq!(
        param_star(p),
        Parsed::Done(
            p.len() - 7,
            param_map(&[(b"foo", b"hello world!"), (b"bar", b"blop")])
        )
    );

    // no trailer
    let p = b"* 0\n";
    assert_eq!(param_star(p), Parsed::Done(p.len(), param_map(&[])));

    let p = b"* 1\nfoo 12\nhello world!";
    assert_eq!(
        param_star(p),
        Parsed::Done(p.len(), param_map(&[(b"foo", b"hello world!")]))
    );
}

#[test]
fn test_param_kv() {
    let p = b"foo 12\nhello world!trailer";
    assert_eq!(
        param_kv(p),
        Parsed::Done(p.len() - 7, param_map(&[(b"foo", b"hello world!")]))
    );

    let p = b"foo 12\nhello world!";
    assert_eq!(
        param_kv(p),
        Parsed::Done(p.len(), param_map(&[(b"foo", b"hello world!")]))
    );
}

#[test]
fn test_params() {
    let p: &[u8] = b"bar 12\nhello world!foo 7\nblibblevery_long_key_no_data 0\nis_ok 1\ny\nbadly formatted thing ";

    match params(p, 1) {
        Parsed::Done(_, v) => assert_eq!(v, param_map(&[(b"bar", b"hello world!")])),
        bad => panic!("bad result {:?}", bad),
    }

    match params(p, 2) {
        Parsed::Done(_, v) => assert_eq!(
            v,
            param_map(&[(b"bar", b"hello world!"), (b"foo", b"blibble")])
        ),
        bad => panic!("bad result {:?}", bad),
    }

    match params(p, 4) {
        Parsed::Done(n, v) => {
            assert_eq!(&p[n..], b"\nbadly formatted thing ");
            assert_eq!(
                v,
                param_map(&[
                    (b"bar", b"hello world!"),
                    (b"foo", b"blibble"),
                    (b"very_long_key_no_data", b""),
                    (b"is_ok", b"y"),
                ])
            )
        }
        bad => panic!("bad result {:?}", bad),
    }

    match params(p, 5) {
        Parsed::Error => (),
        bad => panic!("bad result {:?}", bad),
    }

    match params(&p[..3], 1) {
        Parsed::Incomplete => (),
        bad => panic!("bad result {:?}", bad),
    }

    for l in 0..p.len() {
        match params(&p[..l], 4) {
            Parsed::Incomplete => (),
            Parsed::Done(n, ref kv) => {
                assert_eq!(kv.len(), 4);
                let remain = &p[..l][n..];
                assert!(
                    b"\nbadly formatted thing ".starts_with(remain),
                    "remain \"{:?}\"",
                    remain
                );
            }
            bad => panic!("bad result l {} bad {:?}", l, bad),
        }
    }
}

#[test]
fn test_params_star() {
    let star = b"* 1\nfoo 0\nbar 0\n";
    match params(star, 2) {
        Parsed::Incomplete => panic!("unexpectedly incomplete"),
        Parsed::Done(n, kv) => {
            assert_eq!(n, star.len());
            assert_eq!(kv, param_map(&[(b"foo", b""), (b"bar", b"")]));
        }
        Parsed::Error => panic!("unexpected error"),
    }

    let star = b"* 2\nfoo 0\nplugh 0\nbar 0\n";
    match params(star, 2) {
        Parsed::Incomplete => panic!("unexpectedly incomplete"),
        Parsed::Done(n, kv) => {
            assert_eq!(n, star.len());
            assert_eq!(
                kv,
                param_map(&[(b"foo", b""), (b"bar", b""), (b"plugh", b"")])
            );
        }
        Parsed::Error => panic!("unexpected error"),
    }

    let star = b"* 0\nbar 0\n";
    match params(star, 2) {
        Parsed::Incomplete => panic!("unexpectedly incomplete"),
        Parsed::Done(n, kv) => {
            assert_eq!(n, star.len());
            assert_eq!(kv, param_map(&[(b"bar", b"")]));
        }
        Parsed::Error => panic!("unexpected error"),
    }

    match params(&star[..4], 2) {
        Parsed::Incomplete => (),
        Parsed::Done(n, kv) => panic!("unexpected Done remain {:?} kv {:?}", n, kv),
        Parsed::Error => panic!("unexpected error"),
    }
}

#[test]
fn test_batch_param_escaped() {
    let p = b"foo=b:ear";

    assert_eq!(
        batch_param_escaped(p),
        Parsed::Done(p.len(), (b"foo".to_vec(), b"b=ar".to_vec()))
    );
}

#[test]
fn test_batch_params() {
    let p = b"foo=bar";
    assert_eq!(
        batch_params(p, 0),
        Parsed::Done(p.len(), param_map(&[(b"foo", b"bar")]))
    );

    let p = b"foo=bar,biff=bop,esc:c:o:s:e=esc:c:o:s:e";
    assert_eq!(
        batch_params(p, 0),
        Parsed::Done(
            p.len(),
            param_map(&[
                (b"foo", b"bar"),
                (b"biff", b"bop"),
                (b"esc:,;=", b"esc:,;="),
            ])
        )
    );

    let p = b"";
    assert_eq!(batch_params(p, 0), Parsed::Done(0, param_map(&[])));

    let p = b"foo=";
    assert_eq!(
        batch_params(p, 0),
        Parsed::Done(p.len(), param_map(&[(b"foo", b"")]))
    );
}

#[test]
fn test_nodehash() {
    assert_eq!(
        nodehash(b"0000000000000000000000000000000000000000"),
        Parsed::Done(40, null_hash())
    );

    assert_eq!(
        nodehash(b"000000000000000000000000000000x000000000"),
        Parsed::Error
    );

    assert_eq!(
        nodehash(b"000000000000000000000000000000000000000"),
        Parsed::Incomplete
    );
}

#[test]
fn test_parseval_extra_characters() {
    let kv = param_map(&[(b"foo", b"0000000000000000000000000000000000000000extra")]);
    match parseval(&kv, b"foo", hashlist) {
        Err(_) => (),
        _ => panic!(
            "Paramval parse failed: Did not raise an error for param with trailing characters."
        ),
    }
}

#[test]
fn test_parseval_default_extra_characters() {
    let kv = param_map(&[(b"foo", b"0000000000000000000000000000000000000000extra")]);
    match parseval_default(&kv, b"foo", hashlist, Vec::new()) {
        Err(_) => (),
        _ => panic!(
            "paramval_default parse failed: Did not raise an error for param with trailing characters."
        ),
    }
}

#[test]
fn test_pair() {
    let p: &[u8] =
        b"0000000000000000000000000000000000000000-0000000000000000000000000000000000000000";
    assert_eq!(pair(p), Parsed::Done(p.len(), (null_hash(), null_hash())));

    assert_eq!(pair(&p[..80]), Parsed::Incomplete);

    assert_eq!(pair(&p[..41]), Parsed::Incomplete);

    assert_eq!(pair(&p[..40]), Parsed::Incomplete);
}

#[test]
fn test_pairlist() {
    let p: &[u8] = b"0000000000000000000000000000000000000000-0000000000000000000000000000000000000000 0000000000000000000000000000000000000000-0000000000000000000000000000000000000000";
    assert_eq!(
        pairlist(p),
        Parsed::Done(
            p.len(),
            vec![(null_hash(), null_hash()), (null_hash(), null_hash())]
        )
    );

    let p: &[u8] =
        b"0000000000000000000000000000000000000000-0000000000000000000000000000000000000000";
    assert_eq!(
        pairlist(p),
        Parsed::Done(p.len(), vec![(null_hash(), null_hash())])
    );

    let p = b"";
    assert_eq!(pairlist(p), Parsed::Done(0, vec![]));

    let p = b"0000000000000000000000000000000000000000-00000000000000";
    assert_eq!(pairlist(p), Parsed::Done(0, vec![]));
}

#[test]
fn test_hashlist() {
    let p: &[u8] = b"0000000000000000000000000000000000000000 0000000000000000000000000000000000000000 0000000000000000000000000000000000000000 0000000000000000000000000000000000000000";
    assert_eq!(
        hashlist(p),
        Parsed::Done(
            p.len(),
            vec![null_hash(), null_hash(), null_hash(), null_hash()]
        )
    );

    let p = b"0000000000000000000000000000000000000000";
    assert_eq!(hashlist(p), Parsed::Done(p.len(), vec![null_hash()]));

    let p = b"";
    assert_eq!(hashlist(p), Parsed::Done(0, vec![]));

    // incomplete should leave bytes on the wire
    let p = b"00000000000000000000000000000";
    assert_eq!(hashlist(p), Parsed::Done(0, vec![]));
}

#[test]
fn test_commavalues() {
    // Empty list
    let p = b"";
    assert_eq!(commavalues(p), Parsed::Done(0, vec![]));

    // Single entry
    let p = b"abc";
    assert_eq!(commavalues(p), Parsed::Done(p.len(), vec![b"abc".to_vec()]));

    // Multiple entries
    let p = b"123,abc,test,456";
    assert_eq!(
        commavalues(p),
        Parsed::Done(
            p.len(),
            vec![
                b"123".to_vec(),
                b"abc".to_vec(),
                b"test".to_vec(),
                b"456".to_vec(),
            ]
        )
    );
}

#[test]
fn test_cmd() {
    let p = b"foo bar";
    assert_eq!(
        cmd(p),
        Parsed::Done(p.len(), (b"foo".to_vec(), b"bar".to_vec()))
    );

    let p = b"noparam ";
    assert_eq!(
        cmd(p),
        Parsed::Done(p.len(), (b"noparam".to_vec(), b"".to_vec()))
    );
}

#[test]
fn test_cmdlist() {
    let p = b"foo bar";
    assert_eq!(
        cmdlist(p),
        Parsed::Done(p.len(), vec![(b"foo".to_vec(), b"bar".to_vec())])
    );

    let p = b"foo bar;biff blop";
    assert_eq!(
        cmdlist(p),
        Parsed::Done(
            p.len(),
            vec![
                (b"foo".to_vec(), b"bar".to_vec()),
                (b"biff".to_vec(), b"blop".to_vec()),
            ]
        )
    );
}
