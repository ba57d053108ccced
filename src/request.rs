//! Requests: the command table, the batch envelope, and the driver that
//! takes requests off a growing buffer.
use vstd::prelude::*;
use vstd::slice::{slice_subrange, slice_to_vec};
use bytes::BytesMut;
use crate::external::{buffer_advance, buffer_bytes, buffer_contents, lossy_text, utf8_lossy};
use crate::bundlecaps::{bundlecaps, spec_bundlecaps, BundleCapsView};
use crate::kernel::{
    byte_tag, consumed_within, ident_alphanum_complete, skip, spec_ident_alphanum_complete,
    spec_tag, tag,
};
use crate::list::{items_view, list_view};
use crate::lookup::{
    spec_parseval, spec_parseval_default, spec_parseval_option, value_if_any,
    value_of, value_or,
};
use crate::nodehash::HgNodeHash;
use crate::param_map::ParamMap;
use crate::params::{batch_params, params, spec_batch_params, spec_params, ParamsView};
use crate::parsed::{Parsed, SpecParsed};
use crate::strmap::{BundleCaps, StrMap};
use crate::values::{
    cmdlist, commavalues, boolean, depth, escaped_list, hashlist, ident_string_alphanum, pairlist,
    spec_boolean, spec_cmdlist, spec_commavalues, spec_depth, spec_escaped_list, spec_hashlist,
    spec_ident_string_alphanum, spec_pairlist, spec_stringlist, spec_utf8_string, stringlist,
    utf8_string_complete,
};

verus! {

/// The arguments of `getbundle`.
#[derive(Debug, PartialEq, Eq)]
pub struct GetbundleArgs {
    pub heads: Vec<HgNodeHash>,
    pub common: Vec<HgNodeHash>,
    pub bundlecaps: BundleCaps,
    pub listkeys: Vec<Vec<u8>>,
    pub phases: bool,
}

/// The arguments of `gettreepack`.
#[derive(Debug, PartialEq, Eq)]
pub struct GettreepackArgs {
    pub rootdir: Vec<u8>,
    pub mfnodes: Vec<HgNodeHash>,
    pub basemfnodes: Vec<HgNodeHash>,
    pub directories: Vec<Vec<u8>>,
    pub depth: Option<usize>,
}

/// One command with its arguments.
#[derive(Debug, PartialEq, Eq)]
pub enum SingleRequest {
    Between { pairs: Vec<(HgNodeHash, HgNodeHash)> },
    Branchmap,
    Capabilities,
    Debugwireargs { one: Vec<u8>, two: Vec<u8>, all_args: ParamMap },
    Getbundle(GetbundleArgs),
    Heads,
    Hello,
    Listkeys { namespace: String },
    Lookup { key: String },
    Known { nodes: Vec<HgNodeHash> },
    Unbundle { heads: Vec<String> },
    Gettreepack(GettreepackArgs),
    Getfiles,
    StreamOutShallow,
}

/// A single command, or the commands of a batch in their order.
#[derive(Debug, PartialEq, Eq)]
pub enum Request {
    Single(SingleRequest),
    Batch(Vec<SingleRequest>),
}

pub struct SpecGetbundle {
    pub heads: Seq<Seq<u8>>,
    pub common: Seq<Seq<u8>>,
    pub bundlecaps: BundleCapsView,
    pub listkeys: Seq<Seq<u8>>,
    pub phases: bool,
}

pub struct SpecGettreepack {
    pub rootdir: Seq<u8>,
    pub mfnodes: Seq<Seq<u8>>,
    pub basemfnodes: Seq<Seq<u8>>,
    pub directories: Seq<Seq<u8>>,
    pub depth: Option<usize>,
}

pub enum SpecSingleRequest {
    Between { pairs: Seq<(Seq<u8>, Seq<u8>)> },
    Branchmap,
    Capabilities,
    Debugwireargs { one: Seq<u8>, two: Seq<u8>, all_args: ParamsView },
    Getbundle(SpecGetbundle),
    Heads,
    Hello,
    Listkeys { namespace: Seq<char> },
    Lookup { key: Seq<char> },
    Known { nodes: Seq<Seq<u8>> },
    Unbundle { heads: Seq<Seq<char>> },
    Gettreepack(SpecGettreepack),
    Getfiles,
    StreamOutShallow,
}

pub enum SpecRequest {
    Single(SpecSingleRequest),
    Batch(Seq<SpecSingleRequest>),
}


impl View for GetbundleArgs {
    type V = SpecGetbundle;

    open spec fn view(&self) -> SpecGetbundle {
        SpecGetbundle {
            heads: items_view(self.heads@),
            common: items_view(self.common@),
            bundlecaps: self.bundlecaps@,
            listkeys: items_view(self.listkeys@),
            phases: self.phases,
        }
    }
}

impl View for GettreepackArgs {
    type V = SpecGettreepack;

    open spec fn view(&self) -> SpecGettreepack {
        SpecGettreepack {
            rootdir: self.rootdir@,
            mfnodes: items_view(self.mfnodes@),
            basemfnodes: items_view(self.basemfnodes@),
            directories: items_view(self.directories@),
            depth: self.depth,
        }
    }
}

impl View for SingleRequest {
    type V = SpecSingleRequest;

    open spec fn view(&self) -> SpecSingleRequest {
        match self {
            SingleRequest::Between { pairs } => SpecSingleRequest::Between { pairs: items_view(pairs@) },
            SingleRequest::Branchmap => SpecSingleRequest::Branchmap,
            SingleRequest::Capabilities => SpecSingleRequest::Capabilities,
            SingleRequest::Debugwireargs { one, two, all_args } => SpecSingleRequest::Debugwireargs {
                one: one@,
                two: two@,
                all_args: all_args@,
            },
            SingleRequest::Getbundle(a) => SpecSingleRequest::Getbundle(a@),
            SingleRequest::Heads => SpecSingleRequest::Heads,
            SingleRequest::Hello => SpecSingleRequest::Hello,
            SingleRequest::Listkeys { namespace } => SpecSingleRequest::Listkeys { namespace: namespace@ },
            SingleRequest::Lookup { key } => SpecSingleRequest::Lookup { key: key@ },
            SingleRequest::Known { nodes } => SpecSingleRequest::Known { nodes: items_view(nodes@) },
            SingleRequest::Unbundle { heads } => SpecSingleRequest::Unbundle { heads: items_view(heads@) },
            SingleRequest::Gettreepack(a) => SpecSingleRequest::Gettreepack(a@),
            SingleRequest::Getfiles => SpecSingleRequest::Getfiles,
            SingleRequest::StreamOutShallow => SpecSingleRequest::StreamOutShallow,
        }
    }
}

impl View for Request {
    type V = SpecRequest;

    open spec fn view(&self) -> SpecRequest {
        match self {
            Request::Single(r) => SpecRequest::Single(r@),
            Request::Batch(rs) => SpecRequest::Batch(items_view(rs@)),
        }
    }
}

/// How a command's parameters are written: keyed, as on their own, or
/// batch-escaped, as inside a batch.
#[derive(Clone, Copy, PartialEq, Eq, Debug)]
pub enum ParamSyntax {
    Keyed,
    BatchEscaped,
}

/// The commands, in the order in which they are tried.
#[derive(Clone, Copy, PartialEq, Eq, Debug)]
pub enum Command {
    Between,
    Branchmap,
    Capabilities,
    Debugwireargs,
    Getbundle,
    Heads,
    Hello,
    Listkeys,
    Lookup,
    Known,
    Unbundle,
    Gettreepack,
    Getfiles,
    StreamOutShallow,
}

pub const N_COMMANDS: usize = 14;

pub open spec fn command_at(i: nat) -> Command {
    if i == 0 {
        Command::Between
    } else if i == 1 {
        Command::Branchmap
    } else if i == 2 {
        Command::Capabilities
    } else if i == 3 {
        Command::Debugwireargs
    } else if i == 4 {
        Command::Getbundle
    } else if i == 5 {
        Command::Heads
    } else if i == 6 {
        Command::Hello
    } else if i == 7 {
        Command::Listkeys
    } else if i == 8 {
        Command::Lookup
    } else if i == 9 {
        Command::Known
    } else if i == 10 {
        Command::Unbundle
    } else if i == 11 {
        Command::Gettreepack
    } else if i == 12 {
        Command::Getfiles
    } else {
        Command::StreamOutShallow
    }
}

fn command_at_exec(i: usize) -> (c: Command)
    ensures
        c == command_at(i as nat),
{
    if i == 0 {
        Command::Between
    } else if i == 1 {
        Command::Branchmap
    } else if i == 2 {
        Command::Capabilities
    } else if i == 3 {
        Command::Debugwireargs
    } else if i == 4 {
        Command::Getbundle
    } else if i == 5 {
        Command::Heads
    } else if i == 6 {
        Command::Hello
    } else if i == 7 {
        Command::Listkeys
    } else if i == 8 {
        Command::Lookup
    } else if i == 9 {
        Command::Known
    } else if i == 10 {
        Command::Unbundle
    } else if i == 11 {
        Command::Gettreepack
    } else if i == 12 {
        Command::Getfiles
    } else {
        Command::StreamOutShallow
    }
}

/// The name of a command on the wire.
pub open spec fn command_name(c: Command) -> Seq<u8> {
    match c {
        Command::Between => seq![98u8, 101u8, 116u8, 119u8, 101u8, 101u8, 110u8],
        Command::Branchmap => seq![98u8, 114u8, 97u8, 110u8, 99u8, 104u8, 109u8, 97u8, 112u8],
        Command::Capabilities => seq![99u8, 97u8, 112u8, 97u8, 98u8, 105u8, 108u8, 105u8, 116u8, 105u8, 101u8, 115u8],
        Command::Debugwireargs => seq![100u8, 101u8, 98u8, 117u8, 103u8, 119u8, 105u8, 114u8, 101u8, 97u8, 114u8, 103u8, 115u8],
        Command::Getbundle => seq![103u8, 101u8, 116u8, 98u8, 117u8, 110u8, 100u8, 108u8, 101u8],
        Command::Heads => seq![104u8, 101u8, 97u8, 100u8, 115u8],
        Command::Hello => seq![104u8, 101u8, 108u8, 108u8, 111u8],
        Command::Listkeys => seq![108u8, 105u8, 115u8, 116u8, 107u8, 101u8, 121u8, 115u8],
        Command::Lookup => seq![108u8, 111u8, 111u8, 107u8, 117u8, 112u8],
        Command::Known => seq![107u8, 110u8, 111u8, 119u8, 110u8],
        Command::Unbundle => seq![117u8, 110u8, 98u8, 117u8, 110u8, 100u8, 108u8, 101u8],
        Command::Gettreepack => seq![103u8, 101u8, 116u8, 116u8, 114u8, 101u8, 101u8, 112u8, 97u8, 99u8, 107u8],
        Command::Getfiles => seq![103u8, 101u8, 116u8, 102u8, 105u8, 108u8, 101u8, 115u8],
        Command::StreamOutShallow => seq![115u8, 116u8, 114u8, 101u8, 97u8, 109u8, 95u8, 111u8, 117u8, 116u8, 95u8, 115u8, 104u8, 97u8, 108u8, 108u8, 111u8, 119u8],
    }
}

fn command_name_exec(c: Command) -> (r: Vec<u8>)
    ensures
        r@ == command_name(c),
{
    match c {
        Command::Between => vec![98u8, 101u8, 116u8, 119u8, 101u8, 101u8, 110u8],
        Command::Branchmap => vec![98u8, 114u8, 97u8, 110u8, 99u8, 104u8, 109u8, 97u8, 112u8],
        Command::Capabilities => vec![99u8, 97u8, 112u8, 97u8, 98u8, 105u8, 108u8, 105u8, 116u8, 105u8, 101u8, 115u8],
        Command::Debugwireargs => vec![100u8, 101u8, 98u8, 117u8, 103u8, 119u8, 105u8, 114u8, 101u8, 97u8, 114u8, 103u8, 115u8],
        Command::Getbundle => vec![103u8, 101u8, 116u8, 98u8, 117u8, 110u8, 100u8, 108u8, 101u8],
        Command::Heads => vec![104u8, 101u8, 97u8, 100u8, 115u8],
        Command::Hello => vec![104u8, 101u8, 108u8, 108u8, 111u8],
        Command::Listkeys => vec![108u8, 105u8, 115u8, 116u8, 107u8, 101u8, 121u8, 115u8],
        Command::Lookup => vec![108u8, 111u8, 111u8, 107u8, 117u8, 112u8],
        Command::Known => vec![107u8, 110u8, 111u8, 119u8, 110u8],
        Command::Unbundle => vec![117u8, 110u8, 98u8, 117u8, 110u8, 100u8, 108u8, 101u8],
        Command::Gettreepack => vec![103u8, 101u8, 116u8, 116u8, 114u8, 101u8, 101u8, 112u8, 97u8, 99u8, 107u8],
        Command::Getfiles => vec![103u8, 101u8, 116u8, 102u8, 105u8, 108u8, 101u8, 115u8],
        Command::StreamOutShallow => vec![115u8, 116u8, 114u8, 101u8, 97u8, 109u8, 95u8, 111u8, 117u8, 116u8, 95u8, 115u8, 104u8, 97u8, 108u8, 108u8, 111u8, 119u8],
    }
}

/// How many parameters a command reads in the keyed encoding, a star
/// block counting as one.
pub open spec fn command_arity(c: Command) -> nat {
    match c {
        Command::Between => 1,
        Command::Branchmap => 0,
        Command::Capabilities => 0,
        Command::Debugwireargs => 3,
        Command::Getbundle => 1,
        Command::Heads => 0,
        Command::Hello => 0,
        Command::Listkeys => 1,
        Command::Lookup => 1,
        Command::Known => 2,
        Command::Unbundle => 1,
        Command::Gettreepack => 1,
        Command::Getfiles => 0,
        Command::StreamOutShallow => 1,
    }
}

fn command_arity_exec(c: Command) -> (r: usize)
    ensures
        r == command_arity(c),
{
    match c {
        Command::Between => 1,
        Command::Branchmap => 0,
        Command::Capabilities => 0,
        Command::Debugwireargs => 3,
        Command::Getbundle => 1,
        Command::Heads => 0,
        Command::Hello => 0,
        Command::Listkeys => 1,
        Command::Lookup => 1,
        Command::Known => 2,
        Command::Unbundle => 1,
        Command::Gettreepack => 1,
        Command::Getfiles => 0,
        Command::StreamOutShallow => 1,
    }
}

/// The name of a parameter that a command reads.
#[derive(Clone, Copy)]
pub enum Key {
    Pairs,
    One,
    Two,
    Heads,
    Common,
    Bundlecaps,
    Listkeys,
    Phases,
    Namespace,
    Key,
    Nodes,
    Rootdir,
    Mfnodes,
    Basemfnodes,
    Directories,
    Depth,
    Cmds,
}

pub open spec fn key_name(k: Key) -> Seq<u8> {
    match k {
        Key::Pairs => seq![112u8, 97u8, 105u8, 114u8, 115u8],
        Key::One => seq![111u8, 110u8, 101u8],
        Key::Two => seq![116u8, 119u8, 111u8],
        Key::Heads => seq![104u8, 101u8, 97u8, 100u8, 115u8],
        Key::Common => seq![99u8, 111u8, 109u8, 109u8, 111u8, 110u8],
        Key::Bundlecaps => seq![98u8, 117u8, 110u8, 100u8, 108u8, 101u8, 99u8, 97u8, 112u8, 115u8],
        Key::Listkeys => seq![108u8, 105u8, 115u8, 116u8, 107u8, 101u8, 121u8, 115u8],
        Key::Phases => seq![112u8, 104u8, 97u8, 115u8, 101u8, 115u8],
        Key::Namespace => seq![110u8, 97u8, 109u8, 101u8, 115u8, 112u8, 97u8, 99u8, 101u8],
        Key::Key => seq![107u8, 101u8, 121u8],
        Key::Nodes => seq![110u8, 111u8, 100u8, 101u8, 115u8],
        Key::Rootdir => seq![114u8, 111u8, 111u8, 116u8, 100u8, 105u8, 114u8],
        Key::Mfnodes => seq![109u8, 102u8, 110u8, 111u8, 100u8, 101u8, 115u8],
        Key::Basemfnodes => seq![98u8, 97u8, 115u8, 101u8, 109u8, 102u8, 110u8, 111u8, 100u8, 101u8, 115u8],
        Key::Directories => seq![100u8, 105u8, 114u8, 101u8, 99u8, 116u8, 111u8, 114u8, 105u8, 101u8, 115u8],
        Key::Depth => seq![100u8, 101u8, 112u8, 116u8, 104u8],
        Key::Cmds => seq![99u8, 109u8, 100u8, 115u8],
    }
}

fn key_name_exec(k: Key) -> (r: Vec<u8>)
    ensures
        r@ == key_name(k),
{
    match k {
        Key::Pairs => vec![112u8, 97u8, 105u8, 114u8, 115u8],
        Key::One => vec![111u8, 110u8, 101u8],
        Key::Two => vec![116u8, 119u8, 111u8],
        Key::Heads => vec![104u8, 101u8, 97u8, 100u8, 115u8],
        Key::Common => vec![99u8, 111u8, 109u8, 109u8, 111u8, 110u8],
        Key::Bundlecaps => vec![98u8, 117u8, 110u8, 100u8, 108u8, 101u8, 99u8, 97u8, 112u8, 115u8],
        Key::Listkeys => vec![108u8, 105u8, 115u8, 116u8, 107u8, 101u8, 121u8, 115u8],
        Key::Phases => vec![112u8, 104u8, 97u8, 115u8, 101u8, 115u8],
        Key::Namespace => vec![110u8, 97u8, 109u8, 101u8, 115u8, 112u8, 97u8, 99u8, 101u8],
        Key::Key => vec![107u8, 101u8, 121u8],
        Key::Nodes => vec![110u8, 111u8, 100u8, 101u8, 115u8],
        Key::Rootdir => vec![114u8, 111u8, 111u8, 116u8, 100u8, 105u8, 114u8],
        Key::Mfnodes => vec![109u8, 102u8, 110u8, 111u8, 100u8, 101u8, 115u8],
        Key::Basemfnodes => vec![98u8, 97u8, 115u8, 101u8, 109u8, 102u8, 110u8, 111u8, 100u8, 101u8, 115u8],
        Key::Directories => vec![100u8, 105u8, 114u8, 101u8, 99u8, 116u8, 111u8, 114u8, 105u8, 101u8, 115u8],
        Key::Depth => vec![100u8, 101u8, 112u8, 116u8, 104u8],
        Key::Cmds => vec![99u8, 109u8, 100u8, 115u8],
    }
}

} // verus!

verus! {

/// The raw bytes of a value, which is complete.
pub fn bytes_complete(s: &[u8]) -> (r: Parsed<Vec<u8>>)
    ensures
        r@ == SpecParsed::Done(s@.len(), s@),
        consumed_within(r, s@.len()),
{
    Parsed::Done(s.len(), slice_to_vec(s))
}

/// The request that a command makes of its parameters `m`, or `None`
/// where a parameter it needs is missing or does not parse.
pub open spec fn spec_build(c: Command, m: ParamsView) -> Option<SpecSingleRequest> {
    match c {
        Command::Between => match spec_parseval(m, key_name(Key::Pairs), |x: Seq<u8>| spec_pairlist(x)) {
            Ok(pairs) => Some(SpecSingleRequest::Between { pairs }),
            Err(_) => None,
        },
        Command::Branchmap => Some(SpecSingleRequest::Branchmap),
        Command::Capabilities => Some(SpecSingleRequest::Capabilities),
        Command::Debugwireargs => match (
            spec_parseval(m, key_name(Key::One), |x: Seq<u8>| spec_ident_alphanum_complete(x)),
            spec_parseval(m, key_name(Key::Two), |x: Seq<u8>| spec_ident_alphanum_complete(x)),
        ) {
            (Ok(one), Ok(two)) => Some(SpecSingleRequest::Debugwireargs { one, two, all_args: m }),
            _ => None,
        },
        Command::Getbundle => match (
            spec_parseval_default(m, key_name(Key::Heads), |x: Seq<u8>| spec_hashlist(x), Seq::empty()),
            spec_parseval_default(m, key_name(Key::Common), |x: Seq<u8>| spec_hashlist(x), Seq::empty()),
            spec_parseval_default(m, key_name(Key::Bundlecaps), |x: Seq<u8>| spec_bundlecaps(x), Map::empty()),
            spec_parseval_default(m, key_name(Key::Listkeys), |x: Seq<u8>| spec_commavalues(x), Seq::empty()),
            spec_parseval_default(m, key_name(Key::Phases), |x: Seq<u8>| spec_boolean(x), false),
        ) {
            (Ok(heads), Ok(common), Ok(bundlecaps), Ok(listkeys), Ok(phases)) => Some(
                SpecSingleRequest::Getbundle(SpecGetbundle { heads, common, bundlecaps, listkeys, phases }),
            ),
            _ => None,
        },
        Command::Heads => Some(SpecSingleRequest::Heads),
        Command::Hello => Some(SpecSingleRequest::Hello),
        Command::Listkeys => match spec_parseval(m, key_name(Key::Namespace), |x: Seq<u8>| spec_ident_string_alphanum(x)) {
            Ok(namespace) => Some(SpecSingleRequest::Listkeys { namespace }),
            Err(_) => None,
        },
        Command::Lookup => match spec_parseval(m, key_name(Key::Key), |x: Seq<u8>| spec_utf8_string(x)) {
            Ok(key) => Some(SpecSingleRequest::Lookup { key }),
            Err(_) => None,
        },
        Command::Known => match spec_parseval(m, key_name(Key::Nodes), |x: Seq<u8>| spec_hashlist(x)) {
            Ok(nodes) => Some(SpecSingleRequest::Known { nodes }),
            Err(_) => None,
        },
        Command::Unbundle => match spec_parseval(m, key_name(Key::Heads), |x: Seq<u8>| spec_stringlist(x)) {
            Ok(heads) => Some(SpecSingleRequest::Unbundle { heads }),
            Err(_) => None,
        },
        Command::Gettreepack => match (
            spec_parseval(m, key_name(Key::Rootdir), |x: Seq<u8>| SpecParsed::Done(x.len(), x)),
            spec_parseval(m, key_name(Key::Mfnodes), |x: Seq<u8>| spec_hashlist(x)),
            spec_parseval(m, key_name(Key::Basemfnodes), |x: Seq<u8>| spec_hashlist(x)),
            spec_parseval(m, key_name(Key::Directories), |x: Seq<u8>| spec_escaped_list(x)),
            spec_parseval_option(m, key_name(Key::Depth), |x: Seq<u8>| spec_depth(x)),
        ) {
            (Ok(rootdir), Ok(mfnodes), Ok(basemfnodes), Ok(directories), Ok(depth)) => Some(
                SpecSingleRequest::Gettreepack(
                    SpecGettreepack { rootdir, mfnodes, basemfnodes, directories, depth },
                ),
            ),
            _ => None,
        },
        Command::Getfiles => Some(SpecSingleRequest::Getfiles),
        Command::StreamOutShallow => Some(SpecSingleRequest::StreamOutShallow),
    }
}

/// Builds the request of the command `c` from its parameters; see
/// `spec_build`.
pub fn build(c: Command, m: ParamMap) -> (r: Option<SingleRequest>)
    ensures
        match r {
            Some(v) => spec_build(c, m@) == Some(v@),
            None => spec_build(c, m@) is None,
        },
{
    match c {
        Command::Between => {
            let k = key_name_exec(Key::Pairs);
            match value_of::<_, Seq<(Seq<u8>, Seq<u8>)>, _>(&m, k.as_slice(), pairlist, Ghost(|x: Seq<u8>| spec_pairlist(x)),
                Ghost(|v: Vec<(HgNodeHash, HgNodeHash)>| items_view(v@))) {
                Ok(pairs) => Some(SingleRequest::Between { pairs }),
                Err(_) => None,
            }
        },
        Command::Branchmap => Some(SingleRequest::Branchmap),
        Command::Capabilities => Some(SingleRequest::Capabilities),
        Command::Debugwireargs => {
            let k1 = key_name_exec(Key::One);
            let k2 = key_name_exec(Key::Two);
            let one = value_of::<_, Seq<u8>, _>(&m, k1.as_slice(), ident_alphanum_complete,
                Ghost(|x: Seq<u8>| spec_ident_alphanum_complete(x)), Ghost(|v: Vec<u8>| v@));
            let two = value_of::<_, Seq<u8>, _>(&m, k2.as_slice(), ident_alphanum_complete,
                Ghost(|x: Seq<u8>| spec_ident_alphanum_complete(x)), Ghost(|v: Vec<u8>| v@));
            match (one, two) {
                (Ok(one), Ok(two)) => Some(SingleRequest::Debugwireargs { one, two, all_args: m }),
                _ => None,
            }
        },
        Command::Getbundle => {
            let k1 = key_name_exec(Key::Heads);
            let k2 = key_name_exec(Key::Common);
            let k3 = key_name_exec(Key::Bundlecaps);
            let k4 = key_name_exec(Key::Listkeys);
            let k5 = key_name_exec(Key::Phases);
            let e1: Vec<HgNodeHash> = Vec::new();
            let e2: Vec<HgNodeHash> = Vec::new();
            let e4: Vec<Vec<u8>> = Vec::new();
            assert(items_view(e1@) =~= Seq::empty());
            assert(items_view(e2@) =~= Seq::empty());
            assert(items_view(e4@) =~= Seq::empty());
            let heads = value_or::<_, Seq<Seq<u8>>, _>(&m, k1.as_slice(), hashlist, e1, Ghost(|x: Seq<u8>| spec_hashlist(x)),
                Ghost(|v: Vec<HgNodeHash>| items_view(v@)));
            let common = value_or::<_, Seq<Seq<u8>>, _>(&m, k2.as_slice(), hashlist, e2, Ghost(|x: Seq<u8>| spec_hashlist(x)),
                Ghost(|v: Vec<HgNodeHash>| items_view(v@)));
            let caps = value_or::<_, BundleCapsView, _>(&m, k3.as_slice(), bundlecaps, StrMap::new(),
                Ghost(|x: Seq<u8>| spec_bundlecaps(x)), Ghost(|v: BundleCaps| v@));
            let listkeys = value_or::<_, Seq<Seq<u8>>, _>(&m, k4.as_slice(), commavalues, e4,
                Ghost(|x: Seq<u8>| spec_commavalues(x)), Ghost(|v: Vec<Vec<u8>>| items_view(v@)));
            let phases = value_or::<_, bool, _>(&m, k5.as_slice(), boolean, false, Ghost(|x: Seq<u8>| spec_boolean(x)),
                Ghost(|v: bool| v));
            match (heads, common, caps, listkeys, phases) {
                (Ok(heads), Ok(common), Ok(bundlecaps), Ok(listkeys), Ok(phases)) => Some(
                    SingleRequest::Getbundle(GetbundleArgs { heads, common, bundlecaps, listkeys, phases }),
                ),
                _ => None,
            }
        },
        Command::Heads => Some(SingleRequest::Heads),
        Command::Hello => Some(SingleRequest::Hello),
        Command::Listkeys => {
            let k = key_name_exec(Key::Namespace);
            match value_of::<_, Seq<char>, _>(&m, k.as_slice(), ident_string_alphanum,
                Ghost(|x: Seq<u8>| spec_ident_string_alphanum(x)), Ghost(|v: String| v@)) {
                Ok(namespace) => Some(SingleRequest::Listkeys { namespace }),
                Err(_) => None,
            }
        },
        Command::Lookup => {
            let k = key_name_exec(Key::Key);
            match value_of::<_, Seq<char>, _>(&m, k.as_slice(), utf8_string_complete, Ghost(|x: Seq<u8>| spec_utf8_string(x)),
                Ghost(|v: String| v@)) {
                Ok(key) => Some(SingleRequest::Lookup { key }),
                Err(_) => None,
            }
        },
        Command::Known => {
            let k = key_name_exec(Key::Nodes);
            match value_of::<_, Seq<Seq<u8>>, _>(&m, k.as_slice(), hashlist, Ghost(|x: Seq<u8>| spec_hashlist(x)),
                Ghost(|v: Vec<HgNodeHash>| items_view(v@))) {
                Ok(nodes) => Some(SingleRequest::Known { nodes }),
                Err(_) => None,
            }
        },
        Command::Unbundle => {
            let k = key_name_exec(Key::Heads);
            match value_of::<_, Seq<Seq<char>>, _>(&m, k.as_slice(), stringlist, Ghost(|x: Seq<u8>| spec_stringlist(x)),
                Ghost(|v: Vec<String>| items_view(v@))) {
                Ok(heads) => Some(SingleRequest::Unbundle { heads }),
                Err(_) => None,
            }
        },
        Command::Gettreepack => {
            let k1 = key_name_exec(Key::Rootdir);
            let k2 = key_name_exec(Key::Mfnodes);
            let k3 = key_name_exec(Key::Basemfnodes);
            let k4 = key_name_exec(Key::Directories);
            let k5 = key_name_exec(Key::Depth);
            let rootdir = value_of::<_, Seq<u8>, _>(&m, k1.as_slice(), bytes_complete,
                Ghost(|x: Seq<u8>| SpecParsed::Done(x.len(), x)), Ghost(|v: Vec<u8>| v@));
            let mfnodes = value_of::<_, Seq<Seq<u8>>, _>(&m, k2.as_slice(), hashlist, Ghost(|x: Seq<u8>| spec_hashlist(x)),
                Ghost(|v: Vec<HgNodeHash>| items_view(v@)));
            let basemfnodes = value_of::<_, Seq<Seq<u8>>, _>(&m, k3.as_slice(), hashlist, Ghost(|x: Seq<u8>| spec_hashlist(x)),
                Ghost(|v: Vec<HgNodeHash>| items_view(v@)));
            let directories = value_of::<_, Seq<Seq<u8>>, _>(&m, k4.as_slice(), escaped_list,
                Ghost(|x: Seq<u8>| spec_escaped_list(x)), Ghost(|v: Vec<Vec<u8>>| items_view(v@)));
            let depth = value_if_any::<_, usize, _>(&m, k5.as_slice(), depth, Ghost(|x: Seq<u8>| spec_depth(x)),
                Ghost(|v: usize| v));
            match (rootdir, mfnodes, basemfnodes, directories, depth) {
                (Ok(rootdir), Ok(mfnodes), Ok(basemfnodes), Ok(directories), Ok(depth)) => Some(
                    SingleRequest::Gettreepack(
                        GettreepackArgs { rootdir, mfnodes, basemfnodes, directories, depth },
                    ),
                ),
                _ => None,
            }
        },
        Command::Getfiles => Some(SingleRequest::Getfiles),
        Command::StreamOutShallow => Some(SingleRequest::StreamOutShallow),
    }
}

} // verus!

verus! {

/// A command's parameters in the given syntax.
pub open spec fn spec_param_block(s: Seq<u8>, syntax: ParamSyntax, c: Command) -> SpecParsed<ParamsView> {
    match syntax {
        ParamSyntax::Keyed => spec_params(s, command_arity(c)),
        ParamSyntax::BatchEscaped => spec_batch_params(s),
    }
}

/// The command `c`: its name, a newline, its parameters; the request
/// they make.
pub open spec fn spec_command(s: Seq<u8>, c: Command, syntax: ParamSyntax) -> SpecParsed<SpecSingleRequest> {
    match spec_tag(s, command_name(c)) {
        SpecParsed::Done(n1, _) => {
            let s1 = skip(s, n1);
            match spec_tag(s1, seq![10u8]) {
                SpecParsed::Done(n2, _) => {
                    let s2 = skip(s1, n2);
                    match spec_param_block(s2, syntax, c) {
                        SpecParsed::Done(n3, m) => match spec_build(c, m) {
                            Some(r) => SpecParsed::Done(n1 + n2 + n3, r),
                            None => SpecParsed::Error,
                        },
                        SpecParsed::Incomplete => SpecParsed::Incomplete,
                        SpecParsed::Error => SpecParsed::Error,
                    }
                },
                SpecParsed::Incomplete => SpecParsed::Incomplete,
                SpecParsed::Error => SpecParsed::Error,
            }
        },
        SpecParsed::Incomplete => SpecParsed::Incomplete,
        SpecParsed::Error => SpecParsed::Error,
    }
}

/// The commands from the `i`-th on, tried in order: the first that does
/// not fail decides.
pub open spec fn spec_commands_from(s: Seq<u8>, syntax: ParamSyntax, i: nat) -> SpecParsed<SpecSingleRequest>
    decreases 14 - i,
{
    if i >= 14 {
        SpecParsed::Error
    } else {
        match spec_command(s, command_at(i), syntax) {
            SpecParsed::Error => spec_commands_from(s, syntax, i + 1),
            other => other,
        }
    }
}

/// A single command in the given parameter syntax.
pub open spec fn spec_single_request(s: Seq<u8>, syntax: ParamSyntax) -> SpecParsed<SpecSingleRequest> {
    spec_commands_from(s, syntax, 0)
}

/// Parses the command `c`; see `spec_command`.
pub fn parse_command(s: &[u8], c: Command, syntax: ParamSyntax) -> (r: Parsed<SingleRequest>)
    ensures
        r@ == spec_command(s@, c, syntax),
        consumed_within(r, s@.len()),
{
    let name = command_name_exec(c);
    let n1 = match tag(s, name.as_slice()) {
        Parsed::Done(n, _) => n,
        Parsed::Incomplete => return Parsed::Incomplete,
        Parsed::Error => return Parsed::Error,
    };
    let s1 = slice_subrange(s, n1, s.len());
    let n2 = match byte_tag(s1, 10) {
        Parsed::Done(n, _) => n,
        Parsed::Incomplete => return Parsed::Incomplete,
        Parsed::Error => return Parsed::Error,
    };
    let s2 = slice_subrange(s1, n2, s1.len());
    let block = match syntax {
        ParamSyntax::Keyed => params(s2, command_arity_exec(c)),
        ParamSyntax::BatchEscaped => batch_params(s2, command_arity_exec(c)),
    };
    match block {
        Parsed::Done(n3, m) => match build(c, m) {
            Some(r) => Parsed::Done(n1 + n2 + n3, r),
            None => Parsed::Error,
        },
        Parsed::Incomplete => Parsed::Incomplete,
        Parsed::Error => Parsed::Error,
    }
}

/// A single command whose parameters are written in `syntax`; see
/// `spec_single_request`.
pub fn parse_with_params(s: &[u8], syntax: ParamSyntax) -> (r: Parsed<SingleRequest>)
    ensures
        r@ == spec_single_request(s@, syntax),
        consumed_within(r, s@.len()),
{
    let mut i: usize = 0;
    while i < N_COMMANDS
        invariant
            i <= 14,
            spec_single_request(s@, syntax) == spec_commands_from(s@, syntax, i as nat),
        decreases 14 - i,
    {
        match parse_command(s, command_at_exec(i), syntax) {
            Parsed::Error => {},
            other => return other,
        }
        i = i + 1;
    }
    Parsed::Error
}

/// A command on its own, with keyed parameters.
pub fn parse_singlerequest(s: &[u8]) -> (r: Parsed<SingleRequest>)
    ensures
        r@ == spec_single_request(s@, ParamSyntax::Keyed),
        consumed_within(r, s@.len()),
{
    parse_with_params(s, ParamSyntax::Keyed)
}

/// A command of a batch, `name` and batch-escaped `args`, on its own: the
/// command `name\nargs` must parse and take all of it.
pub open spec fn spec_batched_command(cmd: (Seq<u8>, Seq<u8>)) -> Option<SpecSingleRequest> {
    let full = cmd.0 + seq![10u8] + cmd.1;
    match spec_single_request(full, ParamSyntax::BatchEscaped) {
        SpecParsed::Done(n, r) => if n == full.len() {
            Some(r)
        } else {
            None
        },
        _ => None,
    }
}

/// The requests of the commands of a batch, if each one parses.
pub open spec fn spec_batched_commands(cmds: Seq<(Seq<u8>, Seq<u8>)>) -> Option<Seq<SpecSingleRequest>>
    decreases cmds.len(),
{
    if cmds.len() == 0 {
        Some(Seq::empty())
    } else {
        match (spec_batched_commands(cmds.drop_last()), spec_batched_command(cmds.last())) {
            (Some(rs), Some(r)) => Some(rs.push(r)),
            _ => None,
        }
    }
}

pub open spec fn batch_name() -> Seq<u8> {
    seq![98u8, 97u8, 116u8, 99u8, 104u8]
}

/// The commands of a batch parse exactly when each one does on its own,
/// into the requests that they give one by one.
pub proof fn lemma_batched_commands(cmds: Seq<(Seq<u8>, Seq<u8>)>)
    ensures
        spec_batched_commands(cmds) is Some <==> forall|i: int| 0 <= i < cmds.len() ==> (#[trigger] spec_batched_command(cmds[i])) is Some,
        spec_batched_commands(cmds) matches Some(rs) ==> rs.len() == cmds.len() && forall|i: int| 0 <= i < cmds.len() ==> Some(rs[i]) == #[trigger] spec_batched_command(cmds[i]),
    decreases cmds.len(),
{
    if cmds.len() > 0 {
        let t = cmds.drop_last();
        lemma_batched_commands(t);
        assert forall|i: int| 0 <= i < t.len() implies t[i] == cmds[i] by {}
        if spec_batched_commands(cmds) is None {
            if spec_batched_commands(t) is None {
                let j = choose|j: int| 0 <= j < t.len() && !(spec_batched_command(t[j]) is Some);
                assert(t[j] == cmds[j]);
            } else {
                assert(cmds.last() == cmds[cmds.len() - 1]);
            }
        }
    }
}

/// A batch: `batch\n`, a star block and a `cmds` parameter (two keyed
/// parameters), whose value lists the commands, each of which must parse.
pub open spec fn spec_batchrequest(s: Seq<u8>) -> SpecParsed<Seq<SpecSingleRequest>> {
    match spec_tag(s, batch_name()) {
        SpecParsed::Done(n1, _) => {
            let s1 = skip(s, n1);
            match spec_tag(s1, seq![10u8]) {
                SpecParsed::Done(n2, _) => {
                    let s2 = skip(s1, n2);
                    match spec_params(s2, 2) {
                        SpecParsed::Done(n3, m) => match spec_parseval(m, key_name(Key::Cmds), |x: Seq<u8>| spec_cmdlist(x)) {
                            Ok(cmds) => match spec_batched_commands(cmds) {
                                Some(rs) => SpecParsed::Done(n1 + n2 + n3, rs),
                                None => SpecParsed::Error,
                            },
                            Err(_) => SpecParsed::Error,
                        },
                        SpecParsed::Incomplete => SpecParsed::Incomplete,
                        SpecParsed::Error => SpecParsed::Error,
                    }
                },
                SpecParsed::Incomplete => SpecParsed::Incomplete,
                SpecParsed::Error => SpecParsed::Error,
            }
        },
        SpecParsed::Incomplete => SpecParsed::Incomplete,
        SpecParsed::Error => SpecParsed::Error,
    }
}

/// A request: a batch, or where no batch can start here, a single command.
pub open spec fn spec_request(s: Seq<u8>) -> SpecParsed<SpecRequest> {
    match spec_batchrequest(s) {
        SpecParsed::Done(n, rs) => SpecParsed::Done(n, SpecRequest::Batch(rs)),
        SpecParsed::Incomplete => SpecParsed::Incomplete,
        SpecParsed::Error => match spec_single_request(s, ParamSyntax::Keyed) {
            SpecParsed::Done(n, r) => SpecParsed::Done(n, SpecRequest::Single(r)),
            SpecParsed::Incomplete => SpecParsed::Incomplete,
            SpecParsed::Error => SpecParsed::Error,
        },
    }
}

/// Parses one command of a batch; see `spec_batched_command`.
pub fn parse_batched_command(name: &[u8], args: &[u8]) -> (r: Option<SingleRequest>)
    ensures
        match r {
            Some(v) => spec_batched_command((name@, args@)) == Some(v@),
            None => spec_batched_command((name@, args@)) is None,
        },
{
    let mut full: Vec<u8> = slice_to_vec(name);
    full.push(10);
    let mut i: usize = 0;
    let ghost start = full@;
    while i < args.len()
        invariant
            i <= args@.len(),
            full@ == start + args@.take(i as int),
        decreases args@.len() - i,
    {
        full.push(args[i]);
        assert(args@.take(i + 1) == args@.take(i as int).push(args@[i as int]));
        i = i + 1;
    }
    assert(args@.take(i as int) =~= args@);
    assert(full@ =~= name@ + seq![10u8] + args@);
    match parse_with_params(full.as_slice(), ParamSyntax::BatchEscaped) {
        Parsed::Done(n, r) => if n == full.len() {
            Some(r)
        } else {
            None
        },
        _ => None,
    }
}

/// A batch; see `spec_batchrequest`.
pub fn parse_batchrequest(s: &[u8]) -> (r: Parsed<Vec<SingleRequest>>)
    ensures
        list_view(r) == spec_batchrequest(s@),
        consumed_within(r, s@.len()),
{
    let name: [u8; 5] = [98u8, 97u8, 116u8, 99u8, 104u8];
    assert(name@ == batch_name());
    let n1 = match tag(s, name.as_slice()) {
        Parsed::Done(n, _) => n,
        Parsed::Incomplete => return Parsed::Incomplete,
        Parsed::Error => return Parsed::Error,
    };
    let s1 = slice_subrange(s, n1, s.len());
    let n2 = match byte_tag(s1, 10) {
        Parsed::Done(n, _) => n,
        Parsed::Incomplete => return Parsed::Incomplete,
        Parsed::Error => return Parsed::Error,
    };
    let s2 = slice_subrange(s1, n2, s1.len());
    let (n3, m) = match params(s2, 2) {
        Parsed::Done(n, m) => (n, m),
        Parsed::Incomplete => return Parsed::Incomplete,
        Parsed::Error => return Parsed::Error,
    };
    let k = key_name_exec(Key::Cmds);
    let cmds = match value_of::<_, Seq<(Seq<u8>, Seq<u8>)>, _>(&m, k.as_slice(), cmdlist,
        Ghost(|x: Seq<u8>| spec_cmdlist(x)), Ghost(|v: Vec<(Vec<u8>, Vec<u8>)>| items_view(v@))) {
        Ok(c) => c,
        Err(_) => return Parsed::Error,
    };
    match parse_batched_commands(&cmds) {
        Some(out) => Parsed::Done(n1 + n2 + n3, out),
        None => Parsed::Error,
    }
}

/// Parses each command of a batch; see `spec_batched_commands`.
pub fn parse_batched_commands(cmds: &Vec<(Vec<u8>, Vec<u8>)>) -> (r: Option<Vec<SingleRequest>>)
    ensures
        match r {
            Some(v) => spec_batched_commands(items_view(cmds@)) == Some(items_view(v@)),
            None => spec_batched_commands(items_view(cmds@)) is None,
        },
{
    let ghost cv = items_view(cmds@);
    let mut out: Vec<SingleRequest> = Vec::new();
    let mut i: usize = 0;
    assert(cv.take(0) =~= Seq::<(Seq<u8>, Seq<u8>)>::empty());
    assert(items_view(out@) =~= Seq::<SpecSingleRequest>::empty());
    while i < cmds.len()
        invariant
            i <= cmds@.len(),
            cv == items_view(cmds@),
            cmds@.len() == cv.len(),
            spec_batched_commands(cv.take(i as int)) == Some(items_view(out@)),
        decreases cmds@.len() - i,
    {
        assert(cv[i as int] == (cmds@[i as int].0@, cmds@[i as int].1@));
        match parse_batched_command(cmds[i].0.as_slice(), cmds[i].1.as_slice()) {
            Some(r) => {
                let ghost before = items_view(out@);
                out.push(r);
                assert(items_view(out@) =~= before.push(r@));
                assert(cv.take(i + 1).drop_last() =~= cv.take(i as int));
            },
            None => {
                proof {
                    lemma_batched_commands(cv);
                }
                return None;
            },
        }
        i = i + 1;
    }
    assert(cv.take(i as int) =~= cv);
    Some(out)
}


} // verus!

verus! {

/// A request at the start of `s`; see `spec_request`.
pub fn request(s: &[u8]) -> (r: Parsed<Request>)
    ensures
        r@ == spec_request(s@),
        consumed_within(r, s@.len()),
{
    match parse_batchrequest(s) {
        Parsed::Done(n, rs) => Parsed::Done(n, Request::Batch(rs)),
        Parsed::Incomplete => Parsed::Incomplete,
        Parsed::Error => match parse_singlerequest(s) {
            Parsed::Done(n, r) => Parsed::Done(n, Request::Single(r)),
            Parsed::Incomplete => Parsed::Incomplete,
            Parsed::Error => Parsed::Error,
        },
    }
}

/// Why the bytes on the wire cannot be a request, whatever follows; holds
/// the buffer's bytes as text, with ill-formed UTF-8 replaced.
#[derive(Debug, PartialEq, Eq)]
pub enum RequestError {
    CommandParse(String),
}

/// What the driver does with the bytes `b` at the front of its buffer:
/// either a request and the bytes it leaves, or `None` and the bytes
/// unchanged (more are needed), or the error that the bytes make.
pub open spec fn spec_try_parse(b: Seq<u8>) -> (Result<Option<SpecRequest>, Seq<char>>, Seq<u8>) {
    match spec_request(b) {
        SpecParsed::Done(n, r) => (Ok(Some(r)), skip(b, n)),
        SpecParsed::Incomplete => (Ok(None), b),
        SpecParsed::Error => (Err(utf8_lossy(b)), b),
    }
}

pub open spec fn outcome_view(r: Result<Option<Request>, RequestError>) -> Result<Option<SpecRequest>, Seq<char>> {
    match r {
        Ok(Some(v)) => Ok(Some(v@)),
        Ok(None) => Ok(None),
        Err(RequestError::CommandParse(t)) => Err(t@),
    }
}

/// Takes a request off the front of `buf`. With a whole request there, it
/// is returned and its bytes leave the buffer; with only part of one,
/// `Ok(None)` leaves the buffer as it was; bytes that can start no request
/// give an error, and the buffer stays as it was.
pub fn parse_request(buf: &mut BytesMut) -> (r: Result<Option<Request>, RequestError>)
    ensures
        (outcome_view(r), buffer_bytes(*final(buf))) == spec_try_parse(buffer_bytes(*old(buf))),
{
    let bytes = buffer_contents(buf);
    match request(bytes.as_slice()) {
        Parsed::Done(n, r) => {
            buffer_advance(buf, n);
            Ok(Some(r))
        },
        Parsed::Incomplete => Ok(None),
        Parsed::Error => Err(RequestError::CommandParse(lossy_text(bytes.as_slice()))),
    }
}

} // verus!
