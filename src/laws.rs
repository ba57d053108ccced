//! Laws of the request parser and of the expansion checks. The parser keeps
//! whatever it decides on a prefix of its input, whatever follows, so a
//! request is taken off the buffer exactly when all of it has arrived.
use vstd::prelude::*;
use crate::kernel::{
    in_class, is_digit, is_ident_start, run_end, skip, spec_ident_alphanum,
    spec_integer, spec_tag, spec_take, ByteClass,
};
use crate::parsed::SpecParsed;
use crate::assoc::assoc_map;
use crate::expansion::{changes_map, spec_expansion_step, touches, ChangesView, SpecExpansionStep};
use crate::paths::{metadata_basename, metadata_path};
use crate::tree_diff::{diff_ok, plan_ok, SpecPending, TreeView};
use crate::params::{spec_param_kv, spec_param_one, spec_param_star, spec_params};
use crate::request::{
    command_arity, command_at, command_name, lemma_batched_commands, spec_batched_command,
    spec_batched_commands, spec_batchrequest, spec_command, spec_commands_from, spec_request,
    spec_try_parse, Command, ParamSyntax, SpecRequest, SpecSingleRequest,
};

verus! {

/// `later` is what a parser gives once more input follows what gave
/// `earlier`: a success stays the same success, a failure a failure.
pub open spec fn stable<T>(earlier: SpecParsed<T>, later: SpecParsed<T>) -> bool {
    &&& earlier is Done ==> later == earlier
    &&& earlier is Error ==> later is Error
}

/// A success consumes no more than the input.
pub open spec fn within<T>(r: SpecParsed<T>, len: nat) -> bool {
    r matches SpecParsed::Done(n, _) ==> n <= len
}

pub proof fn lemma_skip_concat(s: Seq<u8>, t: Seq<u8>, n: nat)
    requires
        n <= s.len(),
    ensures
        skip(s + t, n) == skip(s, n) + t,
{
    assert(skip(s + t, n) =~= skip(s, n) + t);
}

pub proof fn lemma_run_end_concat(s: Seq<u8>, t: Seq<u8>, i: int, c: ByteClass)
    requires
        0 <= i <= s.len(),
        run_end(s, i, c) < s.len(),
    ensures
        run_end(s + t, i, c) == run_end(s, i, c),
    decreases s.len() - i,
{
    if i < s.len() && in_class(c, s[i]) {
        assert((s + t)[i] == s[i]);
        lemma_run_end_concat(s, t, i + 1, c);
    } else {
        assert((s + t)[i] == s[i]);
    }
}

pub proof fn lemma_tag_stable(s: Seq<u8>, t: Seq<u8>, x: Seq<u8>)
    ensures
        within(spec_tag(s, x), s.len()),
        stable(spec_tag(s, x), spec_tag(s + t, x)),
{
    let u = s + t;
    if s.len() >= x.len() {
        assert(u.take(x.len() as int) =~= s.take(x.len() as int));
    } else if s != x.take(s.len() as int) {
        assert(!(s =~= x.take(s.len() as int)));
        let i = choose|i: int| 0 <= i < s.len() && s[i] != x.take(s.len() as int)[i];
        assert(u[i] == s[i]);
        if u.len() >= x.len() {
            assert(u.take(x.len() as int)[i] != x[i]);
        } else {
            assert(x.take(u.len() as int)[i] != u[i]);
        }
    }
}

pub proof fn lemma_take_stable(s: Seq<u8>, t: Seq<u8>, n: nat)
    ensures
        within(spec_take(s, n), s.len()),
        stable(spec_take(s, n), spec_take(s + t, n)),
{
    if s.len() >= n {
        assert((s + t).take(n as int) =~= s.take(n as int));
    }
}

pub proof fn lemma_integer_stable(s: Seq<u8>, t: Seq<u8>)
    ensures
        within(spec_integer(s), s.len()),
        stable(spec_integer(s), spec_integer(s + t)),
{
    crate::kernel::lemma_run_end(s, 0, ByteClass::Digit);
    let k = run_end(s, 0, ByteClass::Digit);
    if k < s.len() {
        lemma_run_end_concat(s, t, 0, ByteClass::Digit);
        assert((s + t).take(k) =~= s.take(k));
    }
}

pub proof fn lemma_ident_alphanum_stable(s: Seq<u8>, t: Seq<u8>)
    ensures
        within(spec_ident_alphanum(s), s.len()),
        stable(spec_ident_alphanum(s), spec_ident_alphanum(s + t)),
{
    if s.len() > 0 {
        assert((s + t)[0] == s[0]);
        if is_ident_start(s[0]) {
            crate::kernel::lemma_run_end(s, 1, ByteClass::IdentAlphanum);
            let k = run_end(s, 1, ByteClass::IdentAlphanum);
            if k < s.len() {
                lemma_run_end_concat(s, t, 1, ByteClass::IdentAlphanum);
                assert((s + t).take(k) =~= s.take(k));
            }
        }
    }
}

/// Integer parsing never succeeds on an empty input, and fails on one that
/// starts with anything but a digit.
pub proof fn law_integer_rejects(s: Seq<u8>)
    ensures
        s.len() == 0 ==> !(spec_integer(s) is Done),
        s.len() > 0 && !is_digit(s[0]) ==> spec_integer(s) is Error,
{
}

/// Identifier parsing fails on an input that starts with anything but a
/// letter or `_`.
pub proof fn law_ident_rejects(s: Seq<u8>)
    ensures
        s.len() > 0 && !is_ident_start(s[0]) ==> spec_ident_alphanum(s) is Error,
{
}

pub proof fn lemma_param_kv_stable(s: Seq<u8>, t: Seq<u8>)
    ensures
        within(spec_param_kv(s), s.len()),
        stable(spec_param_kv(s), spec_param_kv(s + t)),
{
    lemma_ident_alphanum_stable(s, t);
    if let SpecParsed::Done(n1, _) = spec_ident_alphanum(s) {
        let s1 = skip(s, n1);
        lemma_skip_concat(s, t, n1);
        lemma_tag_stable(s1, t, seq![32u8]);
        if let SpecParsed::Done(n2, _) = spec_tag(s1, seq![32u8]) {
            let s2 = skip(s1, n2);
            lemma_skip_concat(s1, t, n2);
            lemma_integer_stable(s2, t);
            if let SpecParsed::Done(n3, len) = spec_integer(s2) {
                let s3 = skip(s2, n3);
                lemma_skip_concat(s2, t, n3);
                lemma_tag_stable(s3, t, seq![10u8]);
                if let SpecParsed::Done(n4, _) = spec_tag(s3, seq![10u8]) {
                    let s4 = skip(s3, n4);
                    lemma_skip_concat(s3, t, n4);
                    lemma_take_stable(s4, t, len as nat);
                }
            }
        }
    }
}

pub proof fn lemma_param_star_stable(s: Seq<u8>, t: Seq<u8>)
    ensures
        within(spec_param_star(s), s.len()),
        stable(spec_param_star(s), spec_param_star(s + t)),
    decreases s.len(), 0nat,
{
    lemma_tag_stable(s, t, seq![42u8, 32u8]);
    if let SpecParsed::Done(n1, _) = spec_tag(s, seq![42u8, 32u8]) {
        let s1 = skip(s, n1);
        lemma_skip_concat(s, t, n1);
        lemma_integer_stable(s1, t);
        if let SpecParsed::Done(n2, count) = spec_integer(s1) {
            let s2 = skip(s1, n2);
            lemma_skip_concat(s1, t, n2);
            lemma_tag_stable(s2, t, seq![10u8]);
            if let SpecParsed::Done(n3, _) = spec_tag(s2, seq![10u8]) {
                let s3 = skip(s2, n3);
                lemma_skip_concat(s2, t, n3);
                lemma_params_stable(s3, t, count as nat);
            }
        }
    }
}

pub proof fn lemma_param_one_stable(s: Seq<u8>, t: Seq<u8>)
    ensures
        within(spec_param_one(s), s.len()),
        stable(spec_param_one(s), spec_param_one(s + t)),
    decreases s.len(), 1nat,
{
    lemma_param_star_stable(s, t);
    lemma_param_kv_stable(s, t);
}

pub proof fn lemma_params_stable(s: Seq<u8>, t: Seq<u8>, left: nat)
    ensures
        within(spec_params(s, left), s.len()),
        stable(spec_params(s, left), spec_params(s + t, left)),
    decreases s.len(), left + 2,
{
    if left > 0 {
        lemma_param_one_stable(s, t);
        if let SpecParsed::Done(n, _) = spec_param_one(s) {
            lemma_skip_concat(s, t, n);
            lemma_params_stable(skip(s, n), t, (left - 1) as nat);
        }
    }
}

pub proof fn lemma_command_stable(s: Seq<u8>, t: Seq<u8>, c: Command)
    ensures
        within(spec_command(s, c, ParamSyntax::Keyed), s.len()),
        stable(spec_command(s, c, ParamSyntax::Keyed), spec_command(s + t, c, ParamSyntax::Keyed)),
{
    lemma_tag_stable(s, t, command_name(c));
    if let SpecParsed::Done(n1, _) = spec_tag(s, command_name(c)) {
        let s1 = skip(s, n1);
        lemma_skip_concat(s, t, n1);
        lemma_tag_stable(s1, t, seq![10u8]);
        if let SpecParsed::Done(n2, _) = spec_tag(s1, seq![10u8]) {
            let s2 = skip(s1, n2);
            lemma_skip_concat(s1, t, n2);
            lemma_params_stable(s2, t, command_arity(c));
        }
    }
}

pub proof fn lemma_commands_stable(s: Seq<u8>, t: Seq<u8>, i: nat)
    ensures
        within(spec_commands_from(s, ParamSyntax::Keyed, i), s.len()),
        stable(spec_commands_from(s, ParamSyntax::Keyed, i), spec_commands_from(s + t, ParamSyntax::Keyed, i)),
    decreases 14 - i,
{
    if i < 14 {
        lemma_command_stable(s, t, command_at(i));
        lemma_commands_stable(s, t, i + 1);
    }
}

pub proof fn lemma_batchrequest_stable(s: Seq<u8>, t: Seq<u8>)
    ensures
        within(spec_batchrequest(s), s.len()),
        stable(spec_batchrequest(s), spec_batchrequest(s + t)),
{
    let name = crate::request::batch_name();
    lemma_tag_stable(s, t, name);
    if let SpecParsed::Done(n1, _) = spec_tag(s, name) {
        let s1 = skip(s, n1);
        lemma_skip_concat(s, t, n1);
        lemma_tag_stable(s1, t, seq![10u8]);
        if let SpecParsed::Done(n2, _) = spec_tag(s1, seq![10u8]) {
            let s2 = skip(s1, n2);
            lemma_skip_concat(s1, t, n2);
            lemma_params_stable(s2, t, 2);
        }
    }
}

pub proof fn lemma_request_stable(s: Seq<u8>, t: Seq<u8>)
    ensures
        within(spec_request(s), s.len()),
        stable(spec_request(s), spec_request(s + t)),
{
    lemma_batchrequest_stable(s, t);
    lemma_commands_stable(s, t, 0);
}

/// A request that the bytes `e` make in full is taken off the buffer
/// whatever follows it: the driver returns it and leaves exactly what
/// followed. With nothing after it, the buffer is left empty.
pub proof fn law_complete_request(e: Seq<u8>, t: Seq<u8>, r: SpecRequest)
    requires
        spec_request(e) == SpecParsed::Done(e.len(), r),
    ensures
        spec_try_parse(e + t) == (Ok::<Option<SpecRequest>, Seq<char>>(Some(r)), t),
        spec_try_parse(e) == (Ok::<Option<SpecRequest>, Seq<char>>(Some(r)), Seq::<u8>::empty()),
{
    lemma_request_stable(e, t);
    lemma_skip_concat(e, t, e.len());
    assert(skip(e, e.len()) =~= Seq::<u8>::empty());
    assert(Seq::<u8>::empty() + t =~= t);
}

/// Before all of a request has arrived, the driver asks for more and
/// leaves the buffer as it is.
pub proof fn law_partial_request(e: Seq<u8>, r: SpecRequest, k: nat)
    requires
        spec_request(e) == SpecParsed::Done(e.len(), r),
        k < e.len(),
    ensures
        spec_try_parse(e.take(k as int)) == (Ok::<Option<SpecRequest>, Seq<char>>(None), e.take(k as int)),
{
    let p = e.take(k as int);
    let rest = e.skip(k as int);
    assert(p + rest =~= e);
    lemma_request_stable(p, rest);
}

/// The commands `cmds` of a batch give the requests `rs` exactly when each
/// command, on its own with batch-escaped parameters, gives its request.
pub proof fn law_batch_commands(cmds: Seq<(Seq<u8>, Seq<u8>)>, rs: Seq<SpecSingleRequest>)
    ensures
        spec_batched_commands(cmds) == Some(rs) <==> (rs.len() == cmds.len()
            && forall|i: int| 0 <= i < cmds.len() ==> #[trigger] spec_batched_command(cmds[i]) == Some(rs[i])),
{
    lemma_batched_commands(cmds);
    if rs.len() == cmds.len() && forall|i: int| 0 <= i < cmds.len() ==> #[trigger] spec_batched_command(cmds[i]) == Some(rs[i]) {
        assert forall|i: int| 0 <= i < cmds.len() implies (#[trigger] spec_batched_command(cmds[i])) is Some by {
            assert(spec_batched_command(cmds[i]) == Some(rs[i]));
        }
        let got = spec_batched_commands(cmds).unwrap();
        assert forall|i: int| 0 <= i < cmds.len() implies got[i] == rs[i] by {
            assert(Some(got[i]) == spec_batched_command(cmds[i]));
        }
        assert(got =~= rs);
    }
}

/// A commit that changes nothing at or under the expansion and leaves its
/// metadata file alone leaves the expansion unchanged.
pub proof fn law_untouched_expansion(changes: ChangesView, p: Seq<Seq<u8>>, prefix: Seq<u8>)
    requires
        !touches(changes, p),
        !changes_map(changes).contains_key(metadata_path(p, prefix)),
    ensures
        spec_expansion_step(changes, p, prefix) == SpecExpansionStep::Unchanged,
{
}

/// A commit that changes the expansion but not its metadata file fails.
pub proof fn law_expansion_without_metadata(changes: ChangesView, p: Seq<Seq<u8>>, prefix: Seq<u8>)
    requires
        touches(changes, p),
        !changes_map(changes).contains_key(metadata_path(p, prefix)),
    ensures
        spec_expansion_step(changes, p, prefix) == SpecExpansionStep::Fails,
{
}

/// Once a directory of the expansion passes against the sub-repository's,
/// every entry of both is accounted for: it is the same on both sides, or
/// the plan compares it further, or it is the metadata file of a nested
/// submodule that the plan compares.
pub proof fn law_entries_consumed(e: TreeView, s: TreeView, prefix: Seq<u8>, plan: Seq<SpecPending>)
    requires
        diff_ok(e, s, prefix),
        plan_ok(plan, e, s, prefix),
    ensures
        forall|n: Seq<u8>| #[trigger] assoc_map(s).contains_key(n) ==> (assoc_map(e).contains_key(n)
            && assoc_map(e)[n] == assoc_map(s)[n]) || exists|i: int| 0 <= i < plan.len() && (#[trigger] plan[i]).name() == n,
        forall|n: Seq<u8>| #[trigger] assoc_map(e).contains_key(n) ==> (assoc_map(s).contains_key(n)
            && assoc_map(e)[n] == assoc_map(s)[n])
            || (exists|i: int| 0 <= i < plan.len() && (#[trigger] plan[i]).name() == n)
            || (exists|i: int| 0 <= i < plan.len() && (#[trigger] plan[i]) is Submodule
                && metadata_basename(plan[i].name(), prefix) == n),
{
    let em = assoc_map(e);
    let sm = assoc_map(s);
    assert forall|n: Seq<u8>| #[trigger] sm.contains_key(n) implies (em.contains_key(n) && em[n] == sm[n])
        || exists|i: int| 0 <= i < plan.len() && (#[trigger] plan[i]).name() == n by {
        if !(em.contains_key(n) && em[n] == sm[n]) {
            assert(crate::tree_diff::matched(em, sm, n));
        }
    }
    assert forall|n: Seq<u8>| #[trigger] em.contains_key(n) implies (sm.contains_key(n) && em[n] == sm[n])
        || (exists|i: int| 0 <= i < plan.len() && (#[trigger] plan[i]).name() == n)
        || (exists|i: int| 0 <= i < plan.len() && (#[trigger] plan[i]) is Submodule
            && metadata_basename(plan[i].name(), prefix) == n) by {
        if sm.contains_key(n) {
            if em[n] != sm[n] {
                assert(crate::tree_diff::matched(em, sm, n));
            }
        } else {
            assert(crate::tree_diff::name_ok(em, sm, prefix, n));
            let k = choose|k: Seq<u8>| #[trigger] crate::tree_diff::matched(em, sm, k)
                && crate::tree_diff::is_submodule_file(sm[k]) && metadata_basename(k, prefix) == n;
            let i = choose|i: int| 0 <= i < plan.len() && (#[trigger] plan[i]).name() == k;
            assert(crate::tree_diff::pending_ok(plan[i], e, s, prefix));
            assert(plan[i] is Submodule);
        }
    }
}

} // verus!
