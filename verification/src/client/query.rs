//! Replies to the queries that terminal programs send.
//!
//! Programs ask the terminal what it is (device attributes), where its
//! cursor is and what its background color is, and may wait for an answer.

use crate::client::stream::{CSI_OPEN, ESC};
use crate::text::{decimal, decimal_value, lemma_decimal_is_read_back, push_decimal};
use vstd::prelude::*;

verus! {

/// `]`, the second byte of an OSC sequence.
pub const OSC_OPEN: u8 = 0x5d;

/// The BEL byte, which may end an OSC sequence.
pub const BEL: u8 = 0x07;

/// `\`, the second byte of the string terminator `ESC \`.
pub const ST_FINAL: u8 = 0x5c;

/// `ESC ] 11 ; ?`: asks for the background color.
pub open spec fn background_query() -> Seq<u8> {
    seq![0x1bu8, 0x5d, 0x31, 0x31, 0x3b, 0x3f]
}

/// `ESC ] 11 ; rgb:2b2b/2b2b/2b2b ESC \`: tells the background color.
pub open spec fn background_reply() -> Seq<u8> {
    seq![
        0x1bu8, 0x5d, 0x31, 0x31, 0x3b, 0x72, 0x67, 0x62, 0x3a,
        0x32, 0x62, 0x32, 0x62, 0x2f, 0x32, 0x62, 0x32, 0x62, 0x2f, 0x32, 0x62, 0x32, 0x62,
        0x1b, 0x5c,
    ]
}

/// `CSI ? 1 ; 2 c`: the primary device attributes.
pub open spec fn primary_attributes() -> Seq<u8> {
    seq![0x1bu8, 0x5b, 0x3f, 0x31, 0x3b, 0x32, 0x63]
}

/// `CSI > 0 ; 1 ; 0 c`: the secondary device attributes.
pub open spec fn secondary_attributes() -> Seq<u8> {
    seq![0x1bu8, 0x5b, 0x3e, 0x30, 0x3b, 0x31, 0x3b, 0x30, 0x63]
}

/// `CSI row ; col R`: the cursor position, counted from 1.
pub open spec fn cursor_report(row: nat, col: nat) -> Seq<u8> {
    seq![0x1bu8, 0x5b] + decimal(row + 1) + seq![0x3bu8] + decimal(col + 1) + seq![0x52u8]
}

/// Whether `b` may stand among the parameters of a CSI sequence: a digit,
/// `;`, `>` or `?`.
pub open spec fn is_parameter(b: u8) -> bool {
    0x30 <= b <= 0x39 || b == 0x3b || b == 0x3e || b == 0x3f
}

/// The first position from `k` on that does not hold a parameter byte.
pub open spec fn parameters_end(s: Seq<u8>, k: int) -> int
    decreases s.len() - k,
{
    if 0 <= k < s.len() && is_parameter(s[k]) {
        parameters_end(s, k + 1)
    } else {
        k
    }
}

/// Whether an OSC sequence ends at position `k`: with BEL or with `ESC \`.
pub open spec fn osc_ends_at(s: Seq<u8>, k: int) -> bool {
    s[k] == BEL || (s[k] == ESC && k + 1 < s.len() && s[k + 1] == ST_FINAL)
}

/// The first position from `k` on at which an OSC sequence ends, or the end
/// of `s` where it does not.
pub open spec fn osc_end(s: Seq<u8>, k: int) -> int
    decreases s.len() - k,
{
    if 0 <= k < s.len() && !osc_ends_at(s, k) {
        osc_end(s, k + 1)
    } else {
        k
    }
}

/// The reply to the CSI sequence with the given parameters and final byte.
pub open spec fn csi_reply(parameters: Seq<u8>, last: u8, row: nat, col: nat) -> Seq<u8> {
    if last == 0x63 && (parameters.len() == 0 || parameters == seq![0x30u8]) {
        primary_attributes()
    } else if last == 0x63 && parameters.contains(0x3eu8) {
        secondary_attributes()
    } else if last == 0x6e && parameters == seq![0x36u8] {
        cursor_report(row, col)
    } else {
        Seq::empty()
    }
}

/// All replies to the queries in `s`, in their order. A sequence that `s`
/// does not hold to its end gets no reply.
pub open spec fn replies(s: Seq<u8>, row: nat, col: nat) -> Seq<u8>
    decreases s.len(),
    via replies_decreases
{
    if s.len() == 0 {
        Seq::empty()
    } else if s[0] == ESC && s.len() > 2 && s[1] == OSC_OPEN {
        let k = osc_end(s, 3);
        if k < s.len() {
            (if background_query().is_prefix_of(s.take(k)) {
                background_reply()
            } else {
                Seq::empty()
            }) + replies(s.skip(k + 1), row, col)
        } else {
            Seq::empty()
        }
    } else if s[0] == ESC && s.len() > 1 && s[1] == CSI_OPEN && parameters_end(s, 2) < s.len() {
        let k = parameters_end(s, 2);
        csi_reply(s.subrange(2, k), s[k], row, col) + replies(s.skip(k + 1), row, col)
    } else {
        replies(s.skip(1), row, col)
    }
}

proof fn lemma_parameters_end(s: Seq<u8>, k: int)
    requires
        0 <= k,
    ensures
        k <= parameters_end(s, k),
        k <= s.len() ==> parameters_end(s, k) <= s.len(),
    decreases s.len() - k,
{
    if k < s.len() && is_parameter(s[k]) {
        lemma_parameters_end(s, k + 1);
    }
}

proof fn lemma_osc_end(s: Seq<u8>, k: int)
    requires
        0 <= k,
    ensures
        k <= osc_end(s, k),
    decreases s.len() - k,
{
    if k < s.len() && !osc_ends_at(s, k) {
        lemma_osc_end(s, k + 1);
    }
}

#[via_fn]
proof fn replies_decreases(s: Seq<u8>, row: nat, col: nat) {
    lemma_parameters_end(s, 2);
    lemma_osc_end(s, 3);
}

/// Appends the reply to a CSI sequence.
fn push_csi_reply(
    out: &mut Vec<u8>,
    bytes: &[u8],
    from: usize,
    to: usize,
    row: usize,
    col: usize,
)
    requires
        from <= to < bytes@.len(),
        row < usize::MAX,
        col < usize::MAX,
    ensures
        final(out)@ == old(out)@ + csi_reply(
            bytes@.subrange(from as int, to as int),
            bytes@[to as int],
            row as nat,
            col as nat,
        ),
{
    let ghost parameters = bytes@.subrange(from as int, to as int);
    let mut greater: bool = false;
    let mut k: usize = from;
    while k < to
        invariant
            from <= k <= to < bytes@.len(),
            parameters == bytes@.subrange(from as int, to as int),
            greater <==> exists|j: int| from <= j < k && #[trigger] bytes@[j] == 0x3e,
        decreases to - k,
    {
        if bytes[k] == 0x3e {
            greater = true;
        }
        k += 1;
    }
    assert(greater == parameters.contains(0x3eu8)) by {
        if greater {
            let j = choose|j: int| from <= j < to && #[trigger] bytes@[j] == 0x3e;
            assert(parameters[j - from] == 0x3e);
        }
        if parameters.contains(0x3eu8) {
            let j = choose|j: int| 0 <= j < parameters.len() && parameters[j] == 0x3e;
            assert(bytes@[from + j] == 0x3e);
        }
    }
    let last: u8 = bytes[to];
    let n: usize = to - from;
    assert(n == 1 ==> parameters =~= seq![bytes@[from as int]]);
    assert(n == 1 ==> parameters[0] == bytes@[from as int]);
    let zero: bool = n == 1 && bytes[from] == 0x30;
    let six: bool = n == 1 && bytes[from] == 0x36;
    assert(zero == (parameters == seq![0x30u8]));
    assert(six == (parameters == seq![0x36u8]));
    if last == 0x63 && (n == 0 || zero) {
        let reply: [u8; 7] = [0x1b, 0x5b, 0x3f, 0x31, 0x3b, 0x32, 0x63];
        out.extend_from_slice(reply.as_slice());
        assert(out@ =~= old(out)@ + primary_attributes());
    } else if last == 0x63 && greater {
        let reply: [u8; 9] = [0x1b, 0x5b, 0x3e, 0x30, 0x3b, 0x31, 0x3b, 0x30, 0x63];
        out.extend_from_slice(reply.as_slice());
        assert(out@ =~= old(out)@ + secondary_attributes());
    } else if last == 0x6e && six {
        out.push(0x1b);
        out.push(0x5b);
        push_decimal(out, row + 1);
        out.push(0x3b);
        push_decimal(out, col + 1);
        out.push(0x52);
        assert(out@ =~= old(out)@ + cursor_report(row as nat, col as nat));
    } else {
        assert(out@ =~= old(out)@ + Seq::<u8>::empty());
    }
}

/// Whether `ESC ] 11 ; ?` stands at position `from`, not reaching beyond `to`.
fn asks_for_background(bytes: &[u8], from: usize, to: usize) -> (asks: bool)
    requires
        from <= to <= bytes@.len(),
    ensures
        asks == background_query().is_prefix_of(bytes@.subrange(from as int, to as int)),
{
    let ghost part = bytes@.subrange(from as int, to as int);
    if to - from < 6 {
        return false;
    }
    let asks: bool = bytes[from] == 0x1b && bytes[from + 1] == 0x5d && bytes[from + 2] == 0x31
        && bytes[from + 3] == 0x31 && bytes[from + 4] == 0x3b && bytes[from + 5] == 0x3f;
    proof {
        let q = background_query();
        if asks {
            assert(q =~= part.subrange(0, 6));
        }
        if q.is_prefix_of(part) {
            assert(q =~= part.subrange(0, 6));
            assert(forall|j: int| 0 <= j < 6 ==> q[j] == bytes@[from + j]);
            assert(q[0] == bytes@[from as int]);
            assert(q[1] == bytes@[from + 1]);
            assert(q[2] == bytes@[from + 2]);
            assert(q[3] == bytes@[from + 3]);
            assert(q[4] == bytes@[from + 4]);
            assert(q[5] == bytes@[from + 5]);
        }
    }
    asks
}

/// Collects the replies to all queries in a chunk of terminal output; `row`
/// and `col` are the cursor position, counted from 0.
pub fn collect_query_replies(bytes: &[u8], row: usize, col: usize) -> (out: Vec<u8>)
    requires
        row < usize::MAX,
        col < usize::MAX,
    ensures
        out@ == replies(bytes@, row as nat, col as nat),
{
    let mut out: Vec<u8> = Vec::new();
    let n: usize = bytes.len();
    let mut i: usize = 0;
    assert(bytes@.skip(0) =~= bytes@);
    while i < n
        invariant
            i <= n,
            n == bytes@.len(),
            row < usize::MAX,
            col < usize::MAX,
            replies(bytes@, row as nat, col as nat) =~= out@ + replies(
                bytes@.skip(i as int),
                row as nat,
                col as nat,
            ),
        decreases n - i,
    {
        let ghost rest = bytes@.skip(i as int);
        let ghost done = out@;
        assert(rest[0] == bytes@[i as int]);
        if bytes[i] == ESC && n - i > 2 && bytes[i + 1] == OSC_OPEN {
            assert(rest[1] == bytes@[i + 1]);
            let mut k: usize = i + 3;
            while k < n && !(bytes[k] == BEL || (bytes[k] == ESC && n - k > 1 && bytes[k + 1]
                == ST_FINAL))
                invariant
                    n == bytes@.len(),
                    i + 3 <= k <= n,
                    rest == bytes@.skip(i as int),
                    osc_end(rest, 3) == osc_end(rest, k - i),
                decreases n - k,
            {
                assert(rest[k - i] == bytes@[k as int]);
                assert(k + 1 < n ==> rest[k - i + 1] == bytes@[k + 1]);
                k += 1;
            }
            if k < n {
                assert(rest[k - i] == bytes@[k as int]);
                assert(k + 1 < n ==> rest[k - i + 1] == bytes@[k + 1]);
                assert(osc_end(rest, 3) == k - i);
                assert(rest.take(k - i) =~= bytes@.subrange(i as int, k as int));
                if asks_for_background(bytes, i, k) {
                    let reply: [u8; 25] = [
                        0x1b, 0x5d, 0x31, 0x31, 0x3b, 0x72, 0x67, 0x62, 0x3a,
                        0x32, 0x62, 0x32, 0x62, 0x2f, 0x32, 0x62, 0x32, 0x62, 0x2f, 0x32, 0x62, 0x32, 0x62,
                        0x1b, 0x5c,
                    ];
                    out.extend_from_slice(reply.as_slice());
                    assert(out@ =~= done + background_reply());
                }
                assert(rest.skip(k - i + 1) =~= bytes@.skip(k + 1));
                i = k + 1;
            } else {
                assert(replies(rest, row as nat, col as nat) =~= Seq::<u8>::empty());
                assert(bytes@.skip(n as int) =~= Seq::<u8>::empty());
                i = n;
            }
        } else if bytes[i] == ESC && n - i > 1 && bytes[i + 1] == CSI_OPEN {
            assert(rest[1] == bytes@[i + 1]);
            let mut k: usize = i + 2;
            while k < n && ((0x30 <= bytes[k] && bytes[k] <= 0x39) || bytes[k] == 0x3b || bytes[k]
                == 0x3e || bytes[k] == 0x3f)
                invariant
                    n == bytes@.len(),
                    i + 2 <= k <= n,
                    rest == bytes@.skip(i as int),
                    parameters_end(rest, 2) == parameters_end(rest, k - i),
                decreases n - k,
            {
                assert(rest[k - i] == bytes@[k as int]);
                k += 1;
            }
            if k < n {
                assert(rest[k - i] == bytes@[k as int]);
                assert(parameters_end(rest, 2) == k - i);
                assert(rest.subrange(2, k - i) =~= bytes@.subrange(i + 2, k as int));
                push_csi_reply(&mut out, bytes, i + 2, k, row, col);
                assert(rest.skip(k - i + 1) =~= bytes@.skip(k + 1));
                i = k + 1;
            } else {
                assert(parameters_end(rest, 2) == rest.len());
                assert(rest.skip(1) =~= bytes@.skip(i + 1));
                i += 1;
            }
        } else {
            assert(rest.skip(1) =~= bytes@.skip(i + 1));
            i += 1;
        }
    }
    assert(bytes@.skip(n as int) =~= Seq::<u8>::empty());
    out
}

/// Output without an escape byte asks for nothing.
pub proof fn lemma_plain_text_gets_no_reply(s: Seq<u8>, row: nat, col: nat)
    requires
        !s.contains(ESC),
    ensures
        replies(s, row, col) == Seq::<u8>::empty(),
    decreases s.len(),
{
    if s.len() > 0 {
        assert(s[0] != ESC);
        assert(!s.skip(1).contains(ESC)) by {
            if s.skip(1).contains(ESC) {
                let k = choose|k: int| 0 <= k < s.skip(1).len() && s.skip(1)[k] == ESC;
                assert(s[k + 1] == ESC);
            }
        }
        lemma_plain_text_gets_no_reply(s.skip(1), row, col);
    }
}

/// A CSI sequence with parameters `parameters` and final byte `last`.
pub open spec fn csi(parameters: Seq<u8>, last: u8) -> Seq<u8> {
    seq![ESC, CSI_OPEN] + parameters + seq![last]
}

proof fn lemma_parameters_end_is(s: Seq<u8>, from: int, to: int)
    requires
        0 <= from <= to < s.len(),
        forall|k: int| from <= k < to ==> is_parameter(#[trigger] s[k]),
        !is_parameter(s[to]),
    ensures
        parameters_end(s, from) == to,
    decreases to - from,
{
    if from < to {
        assert(is_parameter(s[from]));
        lemma_parameters_end_is(s, from + 1, to);
    }
}

/// A complete CSI sequence is answered by itself, and what follows it is
/// answered as if it stood alone: several queries in one chunk get their
/// replies one after the other.
pub proof fn lemma_csi_queries_are_answered_in_turn(
    parameters: Seq<u8>,
    last: u8,
    rest: Seq<u8>,
    row: nat,
    col: nat,
)
    requires
        forall|k: int| 0 <= k < parameters.len() ==> is_parameter(#[trigger] parameters[k]),
        !is_parameter(last),
    ensures
        replies(csi(parameters, last) + rest, row, col) == csi_reply(parameters, last, row, col)
            + replies(rest, row, col),
{
    let s = csi(parameters, last) + rest;
    let k = 2 + parameters.len() as int;
    assert(s[0] == ESC && s[1] == CSI_OPEN && s[k] == last);
    assert forall|j: int| 2 <= j < k implies is_parameter(#[trigger] s[j]) by {
        assert(s[j] == parameters[j - 2]);
    }
    lemma_parameters_end_is(s, 2, k);
    assert(s.subrange(2, k) =~= parameters);
    assert(s.skip(k + 1) =~= rest);
}

/// A background color query is answered, whether it ends in BEL or in
/// `ESC \`, and what follows it is answered as if it stood alone.
pub proof fn lemma_background_query_is_answered(rest: Seq<u8>, row: nat, col: nat)
    ensures
        replies(background_query() + seq![BEL] + rest, row, col) == background_reply() + replies(
            rest,
            row,
            col,
        ),
        replies(background_query() + seq![ESC, ST_FINAL] + rest, row, col) == background_reply()
            + replies(rest, row, col),
{
    reveal_with_fuel(osc_end, 5);
    let b = background_query() + seq![BEL] + rest;
    assert(b[3] == 0x31 && b[4] == 0x3b && b[5] == 0x3f && b[6] == BEL);
    assert(osc_end(b, 3) == 6);
    assert(b.take(6) =~= background_query());
    assert(b.take(6) =~= b.take(6).subrange(0, 6));
    assert(b.skip(7) =~= rest);
    let s = background_query() + seq![ESC, ST_FINAL] + rest;
    assert(s[3] == 0x31 && s[4] == 0x3b && s[5] == 0x3f && s[6] == ESC && s[7] == ST_FINAL);
    assert(osc_end(s, 3) == 6);
    assert(s.take(6) =~= background_query());
    assert(s.take(6) =~= s.take(6).subrange(0, 6));
    let tail = s.skip(7);
    assert(tail[0] == ST_FINAL);
    assert(tail.skip(1) =~= rest);
    assert(replies(tail, row, col) == replies(rest, row, col));
}

/// A byte that is not an escape byte and does not belong to a sequence asks
/// for nothing.
pub proof fn lemma_plain_bytes_are_skipped(b: u8, rest: Seq<u8>, row: nat, col: nat)
    requires
        b != 0x1b,
    ensures
        replies(seq![b] + rest, row, col) == replies(rest, row, col),
{
    let s = seq![b] + rest;
    assert(s[0] == b);
    assert(s.skip(1) =~= rest);
}

/// An escape byte that does not open an OSC or a CSI sequence asks for
/// nothing, and what follows it is answered as if it stood alone.
pub proof fn lemma_other_escapes_are_skipped(rest: Seq<u8>, row: nat, col: nat)
    requires
        rest.len() > 0 ==> rest[0] != 0x5d && rest[0] != 0x5b,
    ensures
        replies(seq![0x1bu8] + rest, row, col) == replies(rest, row, col),
{
    let s = seq![0x1bu8] + rest;
    assert(s.len() > 1 ==> s[1] == rest[0]);
    assert(s.skip(1) =~= rest);
}

/// Whether `body` does not end before its last byte when it stands in an OSC
/// sequence: it holds no BEL and no `ESC \`. (Its first byte never ends it.)
pub open spec fn osc_body(body: Seq<u8>) -> bool {
    &&& body.len() > 0
    &&& forall|k: int| 1 <= k < body.len() ==> #[trigger] body[k] != 0x07
    &&& forall|k: int| 1 <= k < body.len() - 1 && #[trigger] body[k] == 0x1b ==> body[k + 1] != 0x5c
}

proof fn lemma_osc_end_is(s: Seq<u8>, from: int, to: int)
    requires
        0 <= from <= to < s.len(),
        forall|k: int| from <= k < to ==> !osc_ends_at(s, k),
        osc_ends_at(s, to),
    ensures
        osc_end(s, from) == to,
    decreases to - from,
{
    if from < to {
        assert(!osc_ends_at(s, from));
        lemma_osc_end_is(s, from + 1, to);
    }
}

/// A complete OSC sequence is answered when it starts with `11;?`, and else
/// passed over; what follows it is answered as if it stood alone. Both hold
/// whether it ends in BEL or in `ESC \`.
pub proof fn lemma_osc_sequences_are_passed_over(body: Seq<u8>, rest: Seq<u8>, row: nat, col: nat)
    requires
        osc_body(body),
    ensures
        ({
            let asks = body.len() >= 4 && body.take(4) == seq![0x31u8, 0x31, 0x3b, 0x3f];
            let reply = if asks {
                seq![
                    0x1bu8, 0x5d, 0x31, 0x31, 0x3b, 0x72, 0x67, 0x62, 0x3a,
                    0x32, 0x62, 0x32, 0x62, 0x2f, 0x32, 0x62, 0x32, 0x62, 0x2f, 0x32, 0x62, 0x32, 0x62,
                    0x1b, 0x5c,
                ]
            } else {
                Seq::empty()
            };
            &&& replies(seq![0x1bu8, 0x5d] + body + seq![0x07u8] + rest, row, col) == reply
                + replies(rest, row, col)
            &&& replies(seq![0x1bu8, 0x5d] + body + seq![0x1bu8, 0x5c] + rest, row, col) == reply
                + replies(rest, row, col)
        }),
{
    lemma_osc_sequence_with_end(body, seq![0x07u8], rest, row, col);
    lemma_osc_sequence_with_end(body, seq![0x1bu8, 0x5c], rest, row, col);
}

proof fn lemma_osc_sequence_with_end(body: Seq<u8>, end: Seq<u8>, rest: Seq<u8>, row: nat, col: nat)
    requires
        osc_body(body),
        end == seq![0x07u8] || end == seq![0x1bu8, 0x5c],
    ensures
        replies(seq![0x1bu8, 0x5d] + body + end + rest, row, col) == (if body.len() >= 4 && body.take(4)
            == seq![0x31u8, 0x31, 0x3b, 0x3f] {
            seq![
                0x1bu8, 0x5d, 0x31, 0x31, 0x3b, 0x72, 0x67, 0x62, 0x3a,
                0x32, 0x62, 0x32, 0x62, 0x2f, 0x32, 0x62, 0x32, 0x62, 0x2f, 0x32, 0x62, 0x32, 0x62,
                0x1b, 0x5c,
            ]
        } else {
            Seq::empty()
        }) + replies(rest, row, col),
{
    let s = seq![0x1bu8, 0x5d] + body + end + rest;
    let to = 2 + body.len() as int;
    assert(s[0] == 0x1b && s[1] == 0x5d && s[to] == end[0]);
    assert(end.len() == 2 ==> s[to + 1] == end[1]);
    assert forall|k: int| 3 <= k < to implies !osc_ends_at(s, k) by {
        assert(s[k] == body[k - 2]);
        if k + 1 < to {
            assert(s[k + 1] == body[k - 1]);
        }
    }
    lemma_osc_end_is(s, 3, to);
    let part = s.take(to);
    let q = background_query();
    assert(part =~= seq![0x1bu8, 0x5d] + body);
    if body.len() >= 4 {
        assert(body.take(4) =~= seq![body[0], body[1], body[2], body[3]]);
        assert(part.subrange(0, 6) =~= seq![0x1bu8, 0x5d, body[0], body[1], body[2], body[3]]);
        if q == part.subrange(0, 6) {
            assert(q[2] == body[0] && q[3] == body[1] && q[4] == body[2] && q[5] == body[3]);
            assert(body.take(4) =~= seq![0x31u8, 0x31, 0x3b, 0x3f]);
        }
        if body.take(4) == seq![0x31u8, 0x31, 0x3b, 0x3f] {
            assert(body.take(4)[0] == 0x31 && body.take(4)[1] == 0x31 && body.take(4)[2] == 0x3b
                && body.take(4)[3] == 0x3f);
            assert(q =~= part.subrange(0, 6));
        }
    }
    let tail = s.skip(to + 1);
    if end.len() == 1 {
        assert(tail =~= rest);
    } else {
        assert(tail =~= seq![0x5cu8] + rest);
        lemma_plain_bytes_are_skipped(0x5c, rest, row, col);
    }
}

/// An OSC sequence that does not end takes the rest of the chunk with it.
pub proof fn lemma_unfinished_osc_gets_no_reply(body: Seq<u8>, row: nat, col: nat)
    requires
        osc_body(body),
    ensures
        replies(seq![0x1bu8, 0x5d] + body, row, col) == Seq::<u8>::empty(),
{
    let s = seq![0x1bu8, 0x5d] + body;
    assert(s[0] == 0x1b && s[1] == 0x5d);
    assert forall|k: int| 3 <= k < s.len() implies !osc_ends_at(s, k) by {
        assert(s[k] == body[k - 2]);
        if k + 1 < s.len() {
            assert(s[k + 1] == body[k - 1]);
        }
    }
    lemma_osc_does_not_end(s, 3);
}

proof fn lemma_osc_does_not_end(s: Seq<u8>, from: int)
    requires
        0 <= from,
        forall|k: int| from <= k < s.len() ==> !osc_ends_at(s, k),
    ensures
        osc_end(s, from) >= s.len(),
    decreases s.len() - from,
{
    if from < s.len() {
        assert(!osc_ends_at(s, from));
        lemma_osc_does_not_end(s, from + 1);
    }
}

/// The device queries and their replies: `CSI c` and `CSI 0 c` are told what
/// the terminal is, `CSI c` with a `>` its version, and `CSI 6 n` where the
/// cursor is. Every other CSI sequence is passed over. What follows is
/// answered as if it stood alone.
pub proof fn lemma_device_queries_are_answered(
    parameters: Seq<u8>,
    last: u8,
    rest: Seq<u8>,
    row: nat,
    col: nat,
)
    requires
        forall|k: int|
            0 <= k < parameters.len() ==> '0' <= (#[trigger] parameters[k] as char) <= '9' || parameters[k]
                == 0x3b || parameters[k] == 0x3e || parameters[k] == 0x3f,
        !('0' <= (last as char) <= '9'),
        last != 0x3b && last != 0x3e && last != 0x3f,
    ensures
        replies(seq![0x1bu8, 0x5b] + parameters + seq![last] + rest, row, col) == (if last as char
            == 'c' && (parameters == Seq::<u8>::empty() || parameters == seq![0x30u8]) {
            seq![0x1bu8, 0x5b, 0x3f, 0x31, 0x3b, 0x32, 0x63]
        } else if last as char == 'c' && exists|k: int|
            0 <= k < parameters.len() && #[trigger] parameters[k] == 0x3e {
            seq![0x1bu8, 0x5b, 0x3e, 0x30, 0x3b, 0x31, 0x3b, 0x30, 0x63]
        } else if last as char == 'n' && parameters == seq![0x36u8] {
            cursor_report(row, col)
        } else {
            Seq::empty()
        }) + replies(rest, row, col),
{
    assert forall|k: int| 0 <= k < parameters.len() implies is_parameter(
        #[trigger] parameters[k],
    ) by {}
    lemma_csi_queries_are_answered_in_turn(parameters, last, rest, row, col);
    if parameters.len() == 0 {
        assert(parameters =~= Seq::<u8>::empty());
    }
    assert(csi(parameters, last) == seq![0x1bu8, 0x5b] + parameters + seq![last]);
}

/// A CSI sequence that does not end gets no reply.
pub proof fn lemma_unfinished_csi_gets_no_reply(parameters: Seq<u8>, row: nat, col: nat)
    requires
        forall|k: int|
            0 <= k < parameters.len() ==> '0' <= (#[trigger] parameters[k] as char) <= '9' || parameters[k]
                == 0x3b || parameters[k] == 0x3e || parameters[k] == 0x3f,
    ensures
        replies(seq![0x1bu8, 0x5b] + parameters, row, col) == Seq::<u8>::empty(),
{
    let s = seq![0x1bu8, 0x5b] + parameters;
    assert(s[0] == 0x1b && s[1] == 0x5b);
    assert forall|k: int| 2 <= k < s.len() implies is_parameter(#[trigger] s[k]) by {
        assert(s[k] == parameters[k - 2]);
    }
    lemma_parameters_do_not_end(s, 2);
    let tail = s.skip(1);
    assert forall|k: int| 0 <= k < tail.len() implies tail[k] != 0x1b by {
        assert(tail[k] == s[k + 1]);
        if k >= 1 {
            assert(is_parameter(s[k + 1]));
        }
    }
    lemma_plain_text_gets_no_reply(tail, row, col);
}

proof fn lemma_parameters_do_not_end(s: Seq<u8>, from: int)
    requires
        0 <= from,
        forall|k: int| from <= k < s.len() ==> is_parameter(#[trigger] s[k]),
    ensures
        parameters_end(s, from) >= s.len(),
    decreases s.len() - from,
{
    if from < s.len() {
        assert(is_parameter(s[from]));
        lemma_parameters_do_not_end(s, from + 1);
    }
}

/// The cursor report tells where the cursor is: its two numbers are the row
/// and the column, counted from 1.
pub proof fn lemma_cursor_report_is_read_back(row: nat, col: nat)
    ensures
        exists|r: Seq<u8>, c: Seq<u8>|
            {
                &&& cursor_report(row, col) == (seq![0x1bu8, 0x5b] + r + seq![0x3bu8] + c
                    + seq![0x52u8])
                &&& #[trigger] decimal_value(r) == row + 1
                &&& #[trigger] decimal_value(c) == col + 1
                &&& !r.contains(0x3b)
                &&& !c.contains(0x3b)
            },
{
    let (r, c) = (decimal(row + 1), decimal(col + 1));
    lemma_decimal_is_read_back(row + 1);
    lemma_decimal_is_read_back(col + 1);
    assert(cursor_report(row, col) =~= seq![0x1bu8, 0x5b] + r + seq![0x3bu8] + c + seq![0x52u8]);
}

} // verus!
