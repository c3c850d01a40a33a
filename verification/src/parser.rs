//! The byte-stream parser: matches command prefixes maximally, routes
//! payload bytes to each command's accumulator, and falls back to text
//! for bytes no command claims. Every consumed byte is recorded on the
//! command that consumed it, so the output conserves the input.
use vstd::prelude::*;

use crate::catalog::{
    begin_print_command, catalog_wf, command, end_print_command, fresh_model, text_command,
    CommandDef,
};
use crate::command::{
    cmd_state, finalize_state, handler_model, lemma_barcode_raw, lemma_push_variant,
    lemma_raster_raw, lemma_run_variant, run_state, spec_push, steps_accepted, CmdState,
    Command, Handler, HandlerModel, SimpleOp,
};

verus! {

/// Whether the catalog entry's prefix stands at position `i` of the
/// input, whole.
pub open spec fn prefix_matches_at(input: Seq<u8>, i: int, p: Seq<u8>) -> bool {
    i + p.len() <= input.len() && input.subrange(i, i + p.len()) == p
}

/// Whether entry `j` is the parser's choice at position `i`: its prefix
/// matches there, and no entry with a longer prefix matches too.
pub open spec fn is_dispatch_choice(defs: Seq<CommandDef>, input: Seq<u8>, i: int, j: int) -> bool {
    &&& 0 <= j < defs.len()
    &&& prefix_matches_at(input, i, defs[j].prefix@)
    &&& forall|k: int|
        0 <= k < defs.len() && prefix_matches_at(input, i, (#[trigger] defs[k]).prefix@)
            ==> defs[k].prefix@.len() <= defs[j].prefix@.len()
}

/// Prefix maximality: when one catalog prefix is a proper prefix of
/// another and the input carries the longer one, the parser's choice is
/// never the entry with the shorter prefix.
pub proof fn lemma_prefix_maximality(
    defs: Seq<CommandDef>,
    input: Seq<u8>,
    i: int,
    chosen: int,
    shorter: int,
    longer: int,
)
    requires
        is_dispatch_choice(defs, input, i, chosen),
        0 <= shorter < defs.len(),
        0 <= longer < defs.len(),
        defs[shorter].prefix@.len() < defs[longer].prefix@.len(),
        defs[shorter].prefix@ == defs[longer].prefix@.subrange(
            0,
            defs[shorter].prefix@.len() as int,
        ),
        prefix_matches_at(input, i, defs[longer].prefix@),
    ensures
        chosen != shorter,
        defs[chosen].prefix@.len() >= defs[longer].prefix@.len(),
{
    if chosen == shorter {
        assert(defs[longer].prefix@.len() <= defs[shorter].prefix@.len());
    }
}

/// Checks whether a catalog prefix stands whole at position `i`.
fn prefix_matches(input: &Vec<u8>, i: usize, p: &Vec<u8>) -> (r: bool)
    requires
        i <= input@.len(),
    ensures
        r == prefix_matches_at(input@, i as int, p@),
{
    if p.len() > input.len() - i {
        proof {
            assert(!prefix_matches_at(input@, i as int, p@));
        }
        return false;
    }
    let n: usize = input.len();
    let mut k: usize = 0;
    while k < p.len()
        invariant
            k <= p@.len(),
            i + p@.len() <= input@.len(),
            n == input@.len(),
            forall|m: int| 0 <= m < k ==> input@[i + m] == p@[m],
        decreases p@.len() - k,
    {
        if input[i + k] != p[k] {
            proof {
                assert(input@.subrange(i as int, i + p@.len()) != p@) by {
                    assert(input@.subrange(i as int, i + p@.len())[k as int] != p@[k as int]);
                }
            }
            return false;
        }
        k += 1;
    }
    proof {
        assert(input@.subrange(i as int, i + p@.len()) =~= p@);
    }
    true
}

/// Finds the catalog entry whose prefix matches at position `i`,
/// preferring longer prefixes; none when no prefix matches whole.
fn match_at(defs: &Vec<CommandDef>, input: &Vec<u8>, i: usize) -> (r: Option<usize>)
    requires
        catalog_wf(defs@),
        i <= input@.len(),
    ensures
        r is Some ==> is_dispatch_choice(defs@, input@, i as int, r->Some_0 as int),
        r is None ==> forall|k: int|
            0 <= k < defs@.len() ==> !prefix_matches_at(
                input@,
                i as int,
                (#[trigger] defs@[k]).prefix@,
            ),
{
    let mut want: usize = 3;
    loop
        invariant
            1 <= want <= 3,
            catalog_wf(defs@),
            i <= input@.len(),
            forall|k: int|
                0 <= k < defs@.len() && (#[trigger] defs@[k]).prefix@.len() > want
                    ==> !prefix_matches_at(input@, i as int, defs@[k].prefix@),
        ensures
            forall|k: int|
                0 <= k < defs@.len() ==> !prefix_matches_at(
                    input@,
                    i as int,
                    (#[trigger] defs@[k]).prefix@,
                ),
        decreases want,
    {
        let mut j: usize = 0;
        while j < defs.len()
            invariant
                1 <= want <= 3,
                catalog_wf(defs@),
                i <= input@.len(),
                j <= defs@.len(),
                forall|k: int|
                    0 <= k < defs@.len() && (#[trigger] defs@[k]).prefix@.len() > want
                        ==> !prefix_matches_at(input@, i as int, defs@[k].prefix@),
                forall|k: int|
                    0 <= k < j && (#[trigger] defs@[k]).prefix@.len() == want
                        ==> !prefix_matches_at(input@, i as int, defs@[k].prefix@),
            decreases defs@.len() - j,
        {
            if defs[j].prefix.len() == want {
                if prefix_matches(input, i, &defs[j].prefix) {
                    return Some(j);
                }
            }
            j += 1;
        }
        if want == 1 {
            break;
        }
        want -= 1;
    }
    None
}

/// Whether `byte` could begin some command of the catalog.
pub open spec fn starts_prefix(defs: Seq<CommandDef>, byte: u8) -> bool {
    exists|k: int| 0 <= k < defs.len() && (#[trigger] defs[k]).prefix@[0] == byte
}

/// Checks whether `byte` is the first byte of any catalog prefix.
fn is_prefix_start(defs: &Vec<CommandDef>, byte: u8) -> (r: bool)
    requires
        catalog_wf(defs@),
    ensures
        r == starts_prefix(defs@, byte),
{
    let mut j: usize = 0;
    while j < defs.len()
        invariant
            catalog_wf(defs@),
            j <= defs@.len(),
            forall|k: int| 0 <= k < j ==> (#[trigger] defs@[k]).prefix@[0] != byte,
        decreases defs@.len() - j,
    {
        if defs[j].prefix[0] == byte {
            return true;
        }
        j += 1;
    }
    false
}

/// The bytes the parsed commands consumed, concatenated in order.
pub open spec fn raws_concat(cmds: Seq<Command>) -> Seq<u8>
    decreases cmds.len(),
{
    if cmds.len() == 0 {
        Seq::empty()
    } else {
        raws_concat(cmds.drop_last()) + cmds.last().raw@
    }
}

/// Where command `k`'s consumed bytes begin in the input: the total
/// length of what the commands before it consumed.
pub open spec fn start_of(cmds: Seq<Command>, k: int) -> int {
    raws_concat(cmds.subrange(0, k)).len() as int
}

/// Command `k` stands where the maximal-prefix rule put it: a
/// dispatched command carries a longest catalog prefix matching at its
/// own start position, and a text command begins where no catalog
/// prefix matches at all.
pub open spec fn dispatched_maximally(
    defs: Seq<CommandDef>,
    input: Seq<u8>,
    cmds: Seq<Command>,
    k: int,
) -> bool {
    let pos = start_of(cmds, k);
    if cmds[k].prefix@.len() > 0 {
        exists|j: int|
            #[trigger] is_dispatch_choice(defs, input, pos, j) && defs[j].prefix@
                == cmds[k].prefix@
    } else {
        forall|j: int|
            0 <= j < defs.len() ==> !prefix_matches_at(input, pos, (#[trigger] defs[j]).prefix@)
    }
}

/// Command `cmd`, standing at `pos`, is what dispatching catalog entry
/// `j` there and feeding it its consumed bytes produces: the entry's
/// prefix, kind and payload convention, and the accumulator state that
/// replaying the consumed payload bytes leaves — with the refused byte
/// applied when the stream goes on, and the end-of-stream completion
/// otherwise.
pub open spec fn coherent_with(
    defs: Seq<CommandDef>,
    input: Seq<u8>,
    pos: int,
    cmd: Command,
    j: int,
) -> bool {
    let end = pos + cmd.raw@.len();
    let tail = cmd.raw@.skip(cmd.prefix@.len() as int);
    &&& is_dispatch_choice(defs, input, pos, j)
    &&& defs[j].prefix@ == cmd.prefix@
    &&& cmd.kind == defs[j].kind
    &&& cmd.data_type == defs[j].data_type
    &&& ({
        let init = CmdState { handler: fresh_model(defs[j].handler_kind), data: Seq::empty() };
        let ran = run_state(init, defs[j].data_type, tail);
        let settled = if end < input.len() {
            spec_push(ran, defs[j].data_type, input[end]).0
        } else {
            ran
        };
        &&& steps_accepted(init, defs[j].data_type, tail)
        &&& (end < input.len() ==> !spec_push(ran, defs[j].data_type, input[end]).1)
        &&& cmd_state(cmd) == finalize_state(settled)
    })
}

/// Command `k`'s payload and handler state follow from its consumed
/// bytes: a dispatched command replays them through its handler, and a
/// text command's payload is exactly what it consumed.
pub open spec fn command_state_coherent(
    defs: Seq<CommandDef>,
    input: Seq<u8>,
    cmds: Seq<Command>,
    k: int,
) -> bool {
    let cmd = cmds[k];
    if cmd.prefix@.len() == 0 {
        handler_model(cmd.handler) == HandlerModel::TextContent && cmd.data@ == cmd.raw@
    } else {
        exists|j: int| #[trigger] coherent_with(defs, input, start_of(cmds, k), cmd, j)
    }
}

/// State coherence of a command is a fact about the commands before it
/// and the command itself: appending later commands keeps it.
proof fn lemma_coherence_stable(
    defs: Seq<CommandDef>,
    input: Seq<u8>,
    a: Seq<Command>,
    b: Seq<Command>,
    k: int,
)
    requires
        0 <= k < a.len(),
        k < b.len(),
        a.subrange(0, k) == b.subrange(0, k),
        a[k] == b[k],
        command_state_coherent(defs, input, a, k),
    ensures
        command_state_coherent(defs, input, b, k),
{
    assert(start_of(a, k) == start_of(b, k));
    if a[k].prefix@.len() > 0 {
        let j0 = choose|j: int| #[trigger] coherent_with(defs, input, start_of(a, k), a[k], j);
        assert(coherent_with(defs, input, start_of(b, k), b[k], j0));
    }
}

/// Byte conservation at the command level, raster form: for a raster
/// command the parser produced, the five header bytes in the parameter
/// record followed by the payload are exactly the bytes it consumed
/// after its prefix — so prefix, parameters and payload reconstruct
/// its wire bytes.
pub proof fn lemma_raster_command_bytes(
    defs: Seq<CommandDef>,
    input: Seq<u8>,
    cmds: Seq<Command>,
    k: int,
)
    requires
        0 <= k < cmds.len(),
        cmds[k].prefix@.len() > 0,
        command_state_coherent(defs, input, cmds, k),
        cmds[k].handler is Raster,
    ensures
        ({
            let cmd = cmds[k];
            let tail = cmd.raw@.skip(cmd.prefix@.len() as int);
            cmd.handler matches Handler::Raster(h) ==> (h.accept_data ==> h.params@ + cmd.data@
                == tail) && (!h.accept_data ==> h.params@ == Seq::<u8>::empty() && cmd.data@
                == tail)
        }),
{
    let cmd = cmds[k];
    let pos = start_of(cmds, k);
    let j = choose|j: int| #[trigger] coherent_with(defs, input, pos, cmd, j);
    assert(coherent_with(defs, input, pos, cmd, j));
    let tail = cmd.raw@.skip(cmd.prefix@.len() as int);
    let init = CmdState { handler: fresh_model(defs[j].handler_kind), data: Seq::empty() };
    let dt = defs[j].data_type;
    let ran = run_state(init, dt, tail);
    let end = pos + cmd.raw@.len();
    lemma_run_variant(init, dt, tail);
    if end < input.len() {
        lemma_push_variant(ran, dt, input[end]);
    }
    assert(ran.handler is Raster);
    assert(init.handler == (HandlerModel::Raster {
        width: 0,
        height: 0,
        capacity: 0,
        scaling: 0,
        accept_data: false,
        params: Seq::empty(),
    }));
    lemma_raster_raw(init, dt, tail);
    if end < input.len() {
        assert(!spec_push(ran, dt, input[end]).1);
        assert(spec_push(ran, dt, input[end]).0 == ran);
    }
    assert(cmd_state(cmd) == ran);
}

/// Byte conservation at the command level, barcode form: for a
/// barcode command the parser produced, the parameter bytes followed
/// by the payload — with the NUL terminator restored when one was
/// consumed — are exactly the bytes it consumed after its prefix.
pub proof fn lemma_barcode_command_bytes(
    defs: Seq<CommandDef>,
    input: Seq<u8>,
    cmds: Seq<Command>,
    k: int,
)
    requires
        0 <= k < cmds.len(),
        cmds[k].prefix@.len() > 0,
        command_state_coherent(defs, input, cmds, k),
        cmds[k].handler is Barcode,
    ensures
        ({
            let cmd = cmds[k];
            let tail = cmd.raw@.skip(cmd.prefix@.len() as int);
            cmd.handler matches Handler::Barcode(h) ==> (h.accept_data ==> h.raw_params@
                + cmd.data@ == tail || h.raw_params@ + cmd.data@ + seq![0u8] == tail) && (
            !h.accept_data ==> h.raw_params@ == Seq::<u8>::empty() && cmd.data@
                == Seq::<u8>::empty() && tail == Seq::<u8>::empty())
        }),
{
    let cmd = cmds[k];
    let pos = start_of(cmds, k);
    let j = choose|j: int| #[trigger] coherent_with(defs, input, pos, cmd, j);
    assert(coherent_with(defs, input, pos, cmd, j));
    let tail = cmd.raw@.skip(cmd.prefix@.len() as int);
    let init = CmdState { handler: fresh_model(defs[j].handler_kind), data: Seq::empty() };
    let dt = defs[j].data_type;
    let ran = run_state(init, dt, tail);
    let end = pos + cmd.raw@.len();
    lemma_run_variant(init, dt, tail);
    if end < input.len() {
        lemma_push_variant(ran, dt, input[end]);
    }
    assert(ran.handler is Barcode);
    assert(init.handler == (HandlerModel::Barcode {
        kind: crate::barcode::BarcodeType::Unknown,
        kind_id: 0,
        encoding: crate::barcode::EncodingFunction::Unknown,
        capacity: 0,
        has_capacity: false,
        accept_data: false,
        raw_params: Seq::empty(),
    }));
    lemma_barcode_raw(init, dt, tail);
    let settled = if end < input.len() {
        spec_push(ran, dt, input[end]).0
    } else {
        ran
    };
    match ran.handler {
        HandlerModel::Barcode { encoding, raw_params, accept_data, .. } => {
            if end < input.len() {
                assert(!spec_push(ran, dt, input[end]).1);
                assert(accept_data);
                if encoding == crate::barcode::EncodingFunction::NulTerminated {
                    assert(ran.data.len() > 0 && ran.data.last() == 0);
                    assert(settled.data == ran.data.drop_last());
                    assert(raw_params + settled.data + seq![0u8] =~= tail);
                    if settled.data.len() > 0 {
                        assert(settled.data.last() == ran.data[ran.data.len() - 2]);
                        assert(settled.data.last() != 0);
                    }
                    assert(finalize_state(settled) == settled);
                } else {
                    assert(settled == ran);
                    assert(finalize_state(settled) == settled);
                }
            } else {
                if encoding == crate::barcode::EncodingFunction::NulTerminated && accept_data
                    && ran.data.len() > 0 && ran.data.last() == 0 {
                    assert(finalize_state(settled).data == ran.data.drop_last());
                    assert(raw_params + finalize_state(settled).data + seq![0u8] =~= tail);
                } else {
                    assert(finalize_state(settled) == settled);
                }
            }
        },
        _ => {},
    }
}

/// Maximal dispatch of a command is a fact about the commands before
/// it and the command itself: appending later commands keeps it.
proof fn lemma_maximality_stable(
    defs: Seq<CommandDef>,
    input: Seq<u8>,
    a: Seq<Command>,
    b: Seq<Command>,
    k: int,
)
    requires
        0 <= k < a.len(),
        k < b.len(),
        a.subrange(0, k) == b.subrange(0, k),
        a[k] == b[k],
        dispatched_maximally(defs, input, a, k),
    ensures
        dispatched_maximally(defs, input, b, k),
{
    assert(start_of(a, k) == start_of(b, k));
    if a[k].prefix@.len() > 0 {
        let j0 = choose|j: int|
            #[trigger] is_dispatch_choice(defs, input, start_of(a, k), j) && defs[j].prefix@
                == a[k].prefix@;
        assert(is_dispatch_choice(defs, input, start_of(b, k), j0) && defs[j0].prefix@ == b[
            k].prefix@);
    } else {
        assert forall|j: int|
            0 <= j < defs.len() implies !prefix_matches_at(
            input,
            start_of(b, k),
            (#[trigger] defs[j]).prefix@,
        ) by {
            assert(!prefix_matches_at(input, start_of(a, k), defs[j].prefix@));
        }
    }
}

/// Parses a whole byte stream into commands. The result begins and ends
/// with the synthetic stream markers; between them, every byte of the
/// input stands in the raw record of exactly one command, in order
/// (byte conservation), and each dispatched command carries the longest
/// catalog prefix that matched where it began (prefix maximality).
pub fn parse_esc_pos(defs: &Vec<CommandDef>, input: &Vec<u8>) -> (out: Vec<Command>)
    requires
        catalog_wf(defs@),
    ensures
        out@.len() >= 2,
        out@[0].handler == Handler::Simple(SimpleOp::BeginPrintOp),
        out@.last().handler == Handler::Simple(SimpleOp::EndPrintOp),
        raws_concat(out@) == input@,
        forall|j: int|
            is_dispatch_choice(defs@, input@, 0, j) ==> out@.len() >= 3 && out@[1].prefix@
                == defs@[j].prefix@,
        forall|k: int|
            1 <= k < out@.len() - 1 ==> dispatched_maximally(defs@, input@, out@, k),
        forall|k: int|
            1 <= k < out@.len() - 1 ==> command_state_coherent(defs@, input@, out@, k),
{
    let mut out: Vec<Command> = Vec::new();
    out.push(begin_print_command());
    proof {
        let s = out@;
        assert(s.drop_last() =~= Seq::<Command>::empty());
        assert(raws_concat(s.drop_last()) == Seq::<u8>::empty());
        assert(s.last().raw@ == Seq::<u8>::empty());
        assert(raws_concat(s) =~= input@.subrange(0, 0));
    }
    let mut i: usize = 0;
    while i < input.len()
        invariant
            catalog_wf(defs@),
            i <= input@.len(),
            out@.len() >= 1,
            out@[0].handler == Handler::Simple(SimpleOp::BeginPrintOp),
            raws_concat(out@) == input@.subrange(0, i as int),
            i == 0 ==> out@.len() == 1,
            i > 0 ==> out@.len() >= 2,
            forall|j: int|
                is_dispatch_choice(defs@, input@, 0, j) && i > 0 ==> out@[1].prefix@ == defs@[
                    j].prefix@,
            forall|k: int| 1 <= k < out@.len() ==> dispatched_maximally(defs@, input@, out@, k),
            forall|k: int|
                1 <= k < out@.len() ==> command_state_coherent(defs@, input@, out@, k),
        decreases input@.len() - i,
    {
        let ghost out_pre = out@;
        let ghost i0 = i as int;
        match match_at(defs, input, i) {
            Some(j) => {
                let mut cmd = command(&defs[j]);
                let plen = defs[j].prefix.len();
                let ghost init = CmdState {
                    handler: fresh_model(defs@[j as int].handler_kind),
                    data: Seq::empty(),
                };
                let ghost dt = defs@[j as int].data_type;
                let ghost body_start = i0 + plen;
                proof {
                    assert(defs@[j as int].prefix@ == input@.subrange(i as int, i + plen));
                    assert(plen >= 1);
                    assert(cmd.data@ =~= Seq::<u8>::empty());
                    assert(cmd_state(cmd) == init);
                }
                i += plen;
                proof {
                    assert(cmd.raw@ =~= input@.subrange(i0, i as int));
                    assert(input@.subrange(body_start, i as int) =~= Seq::<u8>::empty());
                }
                while i < input.len()
                    invariant_except_break
                        cmd_state(cmd) == run_state(
                            init,
                            dt,
                            input@.subrange(body_start, i as int),
                        ),
                        steps_accepted(init, dt, input@.subrange(body_start, i as int)),
                    invariant
                        0 <= i0 < i <= input@.len(),
                        body_start == i0 + defs@[j as int].prefix@.len(),
                        body_start <= i,
                        cmd.raw@ == input@.subrange(i0, i as int),
                        cmd.prefix@ == defs@[j as int].prefix@,
                        cmd.kind == defs@[j as int].kind,
                        cmd.data_type == defs@[j as int].data_type,
                        dt == defs@[j as int].data_type,
                    ensures
                        0 <= i0 < i <= input@.len(),
                        body_start <= i,
                        cmd.raw@ == input@.subrange(i0, i as int),
                        cmd.prefix@ == defs@[j as int].prefix@,
                        cmd.kind == defs@[j as int].kind,
                        cmd.data_type == defs@[j as int].data_type,
                        steps_accepted(init, dt, input@.subrange(body_start, i as int)),
                        i == input@.len() ==> cmd_state(cmd) == run_state(
                            init,
                            dt,
                            input@.subrange(body_start, i as int),
                        ),
                        i < input@.len() ==> cmd_state(cmd) == spec_push(
                            run_state(init, dt, input@.subrange(body_start, i as int)),
                            dt,
                            input@[i as int],
                        ).0 && !spec_push(
                            run_state(init, dt, input@.subrange(body_start, i as int)),
                            dt,
                            input@[i as int],
                        ).1,
                    decreases input@.len() - i,
                {
                    let ghost tail_pre = input@.subrange(body_start, i as int);
                    let accepted = cmd.push(input[i]);
                    if !accepted {
                        break;
                    }
                    i += 1;
                    proof {
                        assert(cmd.raw@ =~= input@.subrange(i0, i as int));
                        assert(input@.subrange(body_start, i as int).drop_last() =~= tail_pre);
                        assert(input@.subrange(body_start, i as int).last() == input@[i - 1]);
                    }
                }
                let ghost settled = cmd_state(cmd);
                cmd.finalize();
                proof {
                    assert(cmd_state(cmd) == finalize_state(settled));
                }
                out.push(cmd);
                proof {
                    assert(out@.drop_last() =~= out_pre);
                    assert(raws_concat(out@) =~= input@.subrange(0, i as int));
                    assert forall|k: int| 1 <= k < out@.len() implies dispatched_maximally(
                        defs@,
                        input@,
                        out@,
                        k,
                    ) by {
                        assert(out@.subrange(0, k) =~= if k < out@.len() - 1 {
                            out_pre.subrange(0, k)
                        } else {
                            out_pre
                        });
                        if k == out@.len() - 1 {
                            assert(out_pre.subrange(0, out_pre.len() as int) =~= out_pre);
                            assert(start_of(out@, k) == i0);
                            assert(out@[k].prefix@ == defs@[j as int].prefix@);
                            assert(defs@[j as int].prefix@.len() >= 1);
                            assert(is_dispatch_choice(defs@, input@, start_of(out@, k), j as int)
                                && defs@[j as int].prefix@ == out@[k].prefix@);
                        } else {
                            assert(out@[k] == out_pre[k]);
                            lemma_maximality_stable(defs@, input@, out_pre, out@, k);
                        }
                    }
                    assert forall|k: int| 1 <= k < out@.len() implies command_state_coherent(
                        defs@,
                        input@,
                        out@,
                        k,
                    ) by {
                        assert(out@.subrange(0, k) =~= if k < out@.len() - 1 {
                            out_pre.subrange(0, k)
                        } else {
                            out_pre
                        });
                        if k == out@.len() - 1 {
                            assert(out_pre.subrange(0, out_pre.len() as int) =~= out_pre);
                            assert(start_of(out@, k) == i0);
                            let c = out@[k];
                            assert(c.raw@.len() == i - i0);
                            assert(c.raw@.skip(c.prefix@.len() as int) =~= input@.subrange(
                                body_start,
                                i as int,
                            ));
                            assert(coherent_with(defs@, input@, i0, c, j as int));
                        } else {
                            assert(out@[k] == out_pre[k]);
                            lemma_coherence_stable(defs@, input@, out_pre, out@, k);
                        }
                    }
                    if i0 == 0 {
                        assert(out@.len() == 2);
                        assert(out@[1] == out@.last());
                        assert(out@[1].prefix@ == defs@[j as int].prefix@);
                        assert forall|j2: int|
                            is_dispatch_choice(defs@, input@, 0, j2) implies out@[1].prefix@
                            == defs@[j2].prefix@ by {
                            let p1 = defs@[j as int].prefix@;
                            let p2 = defs@[j2].prefix@;
                            assert(p2.len() <= p1.len());
                            assert(p1.len() <= p2.len());
                            assert(p1 == input@.subrange(0, p1.len() as int));
                            assert(p2 == input@.subrange(0, p2.len() as int));
                        }
                    }
                }
            },
            None => {
                let mut cmd = text_command();
                cmd.data.push(input[i]);
                cmd.raw.push(input[i]);
                i += 1;
                proof {
                    assert(cmd.raw@ =~= input@.subrange(i0, i as int));
                }
                while i < input.len()
                    invariant
                        catalog_wf(defs@),
                        0 <= i0 < i <= input@.len(),
                        cmd.raw@ == input@.subrange(i0, i as int),
                        cmd.prefix@ == Seq::<u8>::empty(),
                        cmd.handler is TextContent,
                        cmd.data@ == cmd.raw@,
                    decreases input@.len() - i,
                {
                    if is_prefix_start(defs, input[i]) {
                        break;
                    }
                    cmd.data.push(input[i]);
                    cmd.raw.push(input[i]);
                    i += 1;
                    proof {
                        assert(cmd.raw@ =~= input@.subrange(i0, i as int));
                    }
                }
                cmd.finalize();
                out.push(cmd);
                proof {
                    assert(out@.drop_last() =~= out_pre);
                    assert(raws_concat(out@) =~= input@.subrange(0, i as int));
                    assert forall|k: int| 1 <= k < out@.len() implies dispatched_maximally(
                        defs@,
                        input@,
                        out@,
                        k,
                    ) by {
                        assert(out@.subrange(0, k) =~= if k < out@.len() - 1 {
                            out_pre.subrange(0, k)
                        } else {
                            out_pre
                        });
                        if k == out@.len() - 1 {
                            assert(out_pre.subrange(0, out_pre.len() as int) =~= out_pre);
                            assert(start_of(out@, k) == i0);
                            assert(out@[k].prefix@.len() == 0);
                            assert forall|j: int|
                                0 <= j < defs@.len() implies !prefix_matches_at(
                                input@,
                                start_of(out@, k),
                                (#[trigger] defs@[j]).prefix@,
                            ) by {
                                assert(!prefix_matches_at(input@, i0, defs@[j].prefix@));
                            }
                        } else {
                            assert(out@[k] == out_pre[k]);
                            lemma_maximality_stable(defs@, input@, out_pre, out@, k);
                        }
                    }
                    assert forall|k: int| 1 <= k < out@.len() implies command_state_coherent(
                        defs@,
                        input@,
                        out@,
                        k,
                    ) by {
                        assert(out@.subrange(0, k) =~= if k < out@.len() - 1 {
                            out_pre.subrange(0, k)
                        } else {
                            out_pre
                        });
                        if k == out@.len() - 1 {
                            assert(out@[k].prefix@.len() == 0);
                            assert(out@[k].data@ == out@[k].raw@);
                        } else {
                            assert(out@[k] == out_pre[k]);
                            lemma_coherence_stable(defs@, input@, out_pre, out@, k);
                        }
                    }
                    if i0 == 0 {
                        assert forall|j2: int| !is_dispatch_choice(defs@, input@, 0, j2) by {}
                    }
                }
            },
        }
    }
    let ghost body = out@;
    out.push(end_print_command());
    proof {
        assert(out@.drop_last() =~= body);
        assert(out@[0] == body[0]);
        assert(out@.last().raw@ == Seq::<u8>::empty());
        assert(input@.subrange(0, input@.len() as int) =~= input@);
        assert(raws_concat(out@) =~= input@);
        assert forall|k: int| 1 <= k < out@.len() - 1 implies dispatched_maximally(
            defs@,
            input@,
            out@,
            k,
        ) by {
            assert(out@.subrange(0, k) =~= body.subrange(0, k));
            assert(out@[k] == body[k]);
            lemma_maximality_stable(defs@, input@, body, out@, k);
        }
        assert forall|k: int| 1 <= k < out@.len() - 1 implies command_state_coherent(
            defs@,
            input@,
            out@,
            k,
        ) by {
            assert(out@.subrange(0, k) =~= body.subrange(0, k));
            assert(out@[k] == body[k]);
            lemma_coherence_stable(defs@, input@, body, out@, k);
        }
        assert forall|j: int|
            is_dispatch_choice(defs@, input@, 0, j) implies out@.len() >= 3 && out@[1].prefix@
            == defs@[j].prefix@ by {
            assert(input@.len() > 0) by {
                assert(defs@[j].prefix@.len() >= 1);
            }
            assert(body.len() >= 2);
            assert(out@[1] == body[1]);
        }
    }
    out
}

} // verus!
