//! Rewriting of the cursor save/restore sequences in the PTY output.
//!
//! The screen emulator implements `ESC 7` / `ESC 8` but ignores the CSI
//! spellings `CSI s` / `CSI u`, so the latter are rewritten into the former
//! before the bytes reach it. A sequence may straddle two chunks; the bytes
//! that could still become one are held back and put in front of the next
//! chunk.

use vstd::prelude::*;

verus! {

/// The escape byte that starts every control sequence.
pub const ESC: u8 = 0x1b;

/// `[`, the second byte of a CSI sequence.
pub const CSI_OPEN: u8 = 0x5b;

/// `s`, the final byte of `CSI s`.
pub const SAVE_FINAL: u8 = 0x73;

/// `u`, the final byte of `CSI u`.
pub const RESTORE_FINAL: u8 = 0x75;

/// `7`, the final byte of `ESC 7`.
pub const DECSC_FINAL: u8 = 0x37;

/// `8`, the final byte of `ESC 8`.
pub const DECRC_FINAL: u8 = 0x38;

/// Whether a `CSI s` or `CSI u` sequence starts at position `i` of `s`.
pub open spec fn save_restore_at(s: Seq<u8>, i: int) -> bool {
    &&& 0 <= i
    &&& i + 2 < s.len()
    &&& s[i] == ESC
    &&& s[i + 1] == CSI_OPEN
    &&& (s[i + 2] == SAVE_FINAL || s[i + 2] == RESTORE_FINAL)
}

/// `s` with every `CSI s` replaced by `ESC 7` and every `CSI u` by `ESC 8`.
pub open spec fn rewritten(s: Seq<u8>) -> Seq<u8>
    decreases s.len(),
{
    if s.len() == 0 {
        Seq::empty()
    } else if save_restore_at(s, 0) {
        seq![ESC, if s[2] == SAVE_FINAL { DECSC_FINAL } else { DECRC_FINAL }] + rewritten(s.skip(3))
    } else {
        seq![s[0]] + rewritten(s.skip(1))
    }
}

/// How many bytes at the end of `s` may be the start of a `CSI s` / `CSI u`.
pub open spec fn held_back_len(s: Seq<u8>) -> int {
    if s.len() >= 2 && s[s.len() - 2] == ESC && s[s.len() - 1] == CSI_OPEN {
        2
    } else if s.len() >= 1 && s[s.len() - 1] == ESC {
        1
    } else {
        0
    }
}

/// The part of `s` that can be rewritten without seeing what follows.
pub open spec fn complete_part(s: Seq<u8>) -> Seq<u8> {
    s.take(s.len() - held_back_len(s))
}

/// The part of `s` that has to wait for what follows.
pub open spec fn held_back(s: Seq<u8>) -> Seq<u8> {
    s.skip(s.len() - held_back_len(s))
}

/// What reaches the emulator when `bytes` arrive behind the held back `carry`.
pub open spec fn normalized(carry: Seq<u8>, bytes: Seq<u8>) -> Seq<u8> {
    rewritten(complete_part(carry + bytes))
}

/// What is held back when `bytes` arrive behind the held back `carry`.
pub open spec fn carried(carry: Seq<u8>, bytes: Seq<u8>) -> Seq<u8> {
    held_back(carry + bytes)
}

/// Rewrites `CSI s` / `CSI u` into `ESC 7` / `ESC 8` in the stream formed by
/// `carry` followed by `bytes`, and leaves in `carry` the bytes at its end
/// that may yet become one of the two.
pub fn normalize_save_restore(bytes: &[u8], carry: &mut Vec<u8>) -> (out: Vec<u8>)
    ensures
        out@ == normalized(old(carry)@, bytes@),
        final(carry)@ == carried(old(carry)@, bytes@),
{
    let ghost feed0 = carry@ + bytes@;
    let mut feed: Vec<u8> = Vec::new();
    feed.append(carry);
    feed.extend_from_slice(bytes);
    assert(feed@ =~= feed0);
    let n: usize = feed.len();
    let carry_from: usize = if n >= 2 && feed[n - 2] == ESC && feed[n - 1] == CSI_OPEN {
        n - 2
    } else if n >= 1 && feed[n - 1] == ESC {
        n - 1
    } else {
        n
    };
    let ghost body = complete_part(feed@);
    assert(body.len() == carry_from);
    let mut out: Vec<u8> = Vec::new();
    let mut i: usize = 0;
    assert(body.skip(0) =~= body);
    while i < carry_from
        invariant
            i <= carry_from <= n,
            n == feed@.len(),
            carry_from == n - held_back_len(feed@),
            body == complete_part(feed@),
            rewritten(body) == out@ + rewritten(body.skip(i as int)),
        decreases carry_from - i,
    {
        let ghost rest = body.skip(i as int);
        assert(rest[0] == feed@[i as int]);
        if n - i > 2 && feed[i] == ESC && feed[i + 1] == CSI_OPEN && (feed[i + 2] == SAVE_FINAL
            || feed[i + 2] == RESTORE_FINAL) {
            assert(save_restore_at(rest, 0));
            assert(rest.skip(3) =~= body.skip(i + 3));
            out.push(ESC);
            out.push(
                if feed[i + 2] == SAVE_FINAL {
                    DECSC_FINAL
                } else {
                    DECRC_FINAL
                },
            );
            i += 3;
        } else {
            assert(!save_restore_at(rest, 0));
            assert(rest.skip(1) =~= body.skip(i + 1));
            out.push(feed[i]);
            i += 1;
        }
        assert(rewritten(body) =~= out@ + rewritten(body.skip(i as int)));
    }
    assert(body.skip(carry_from as int) =~= Seq::<u8>::empty());
    while i < n
        invariant
            carry_from <= i <= n,
            n == feed@.len(),
            carry@ == feed@.subrange(carry_from as int, i as int),
        decreases n - i,
    {
        carry.push(feed[i]);
        assert(feed@.subrange(carry_from as int, i + 1) =~= feed@.subrange(
            carry_from as int,
            i as int,
        ).push(feed@[i as int]));
        i += 1;
    }
    assert(carry@ =~= held_back(feed@));
    out
}

/// The first byte is never changed by the rewriting.
proof fn lemma_rewritten_head(s: Seq<u8>)
    requires
        s.len() > 0,
    ensures
        rewritten(s).len() > 0,
        rewritten(s)[0] == s[0],
{
}

/// Rewriting splits at any place that no sequence straddles.
proof fn lemma_rewritten_concat(x: Seq<u8>, y: Seq<u8>)
    requires
        forall|i: int|
            x.len() - 2 <= i < x.len() ==> !#[trigger] save_restore_at(x + y, i),
    ensures
        rewritten(x + y) == rewritten(x) + rewritten(y),
    decreases x.len(),
{
    if x.len() == 0 {
        assert(x + y =~= y);
        assert(rewritten(x) + rewritten(y) =~= rewritten(y));
    } else {
        let step: int = if save_restore_at(x, 0) {
            3
        } else {
            1
        };
        let w = x + y;
        assert(save_restore_at(x, 0) == save_restore_at(w, 0)) by {
            if x.len() < 3 {
                assert(!save_restore_at(w, 0));
            }
        }
        assert(w.skip(step) =~= x.skip(step) + y);
        assert forall|i: int| x.skip(step).len() - 2 <= i < x.skip(step).len() implies
            !#[trigger] save_restore_at(x.skip(step) + y, i) by {
            assert(!save_restore_at(w, i + step));
        }
        lemma_rewritten_concat(x.skip(step), y);
        assert(rewritten(w) =~= rewritten(x) + rewritten(y));
    }
}

/// Splitting the stream into chunks changes nothing: two chunks feed the
/// emulator the same bytes, and hold back the same tail, as their
/// concatenation does.
pub proof fn lemma_chunking_is_invisible(carry: Seq<u8>, a: Seq<u8>, b: Seq<u8>)
    ensures
        normalized(carry, a) + normalized(carried(carry, a), b) == normalized(carry, a + b),
        carried(carried(carry, a), b) == carried(carry, a + b),
{
    let f1 = carry + a;
    let x = complete_part(f1);
    let t = held_back(f1);
    let f2 = t + b;
    let y = complete_part(f2);
    let f = carry + (a + b);
    assert(f =~= x + f2);
    assert(f1 =~= x + t);
    if f2.len() == 0 {
        assert(held_back_len(f1) == 0);
        assert(b.len() == 0);
        assert(f =~= f1);
    } else if f2.len() == 1 && t.len() == 0 {
        assert(f1[f1.len() - 1] == f[f.len() - 2] || f1.len() == 0);
    }
    assert(held_back_len(f) == held_back_len(f2));
    assert(held_back(f) =~= held_back(f2));
    assert(complete_part(f) =~= x + y);
    assert forall|i: int| x.len() - 2 <= i < x.len() implies !#[trigger] save_restore_at(
        x + y,
        i,
    ) by {
        if save_restore_at(x + y, i) {
            if t.len() > 0 {
                assert(y.len() > 0);
                assert(y[0] == t[0] == ESC);
            } else {
                assert(f1 =~= x);
            }
        }
    }
    lemma_rewritten_concat(x, y);
}

/// No `CSI s` / `CSI u` is left in what was rewritten.
pub proof fn lemma_no_save_restore_left(s: Seq<u8>, i: int)
    ensures
        !save_restore_at(rewritten(s), i),
    decreases s.len(),
{
    let r = rewritten(s);
    if s.len() > 0 && save_restore_at(r, i) {
        if save_restore_at(s, 0) {
            lemma_no_save_restore_left(s.skip(3), i - 2);
            assert(r.skip(2) =~= rewritten(s.skip(3)));
            assert(i >= 2) by {
                if i == 1 {
                    assert(r[1] == DECSC_FINAL || r[1] == DECRC_FINAL);
                }
            }
            assert(save_restore_at(rewritten(s.skip(3)), i - 2));
        } else if i > 0 {
            lemma_no_save_restore_left(s.skip(1), i - 1);
            assert(r.skip(1) =~= rewritten(s.skip(1)));
            assert(save_restore_at(rewritten(s.skip(1)), i - 1));
        } else {
            let s1 = s.skip(1);
            assert(r.skip(1) =~= rewritten(s1));
            assert(s1.len() > 0);
            lemma_rewritten_head(s1);
            assert(s1[0] == CSI_OPEN);
            let s2 = s1.skip(1);
            assert(rewritten(s1).skip(1) =~= rewritten(s2));
            assert(rewritten(s1)[1] == r[2]);
            assert(s2.len() > 0);
            lemma_rewritten_head(s2);
            assert(s2[0] == s[2]);
            assert(save_restore_at(s, 0));
        }
    }
}

/// A stream without `CSI s` / `CSI u` passes through unchanged.
pub proof fn lemma_other_sequences_are_untouched(s: Seq<u8>)
    requires
        forall|i: int| !#[trigger] save_restore_at(s, i),
    ensures
        rewritten(s) == s,
    decreases s.len(),
{
    if s.len() > 0 {
        assert(!save_restore_at(s, 0));
        assert forall|i: int| !#[trigger] save_restore_at(s.skip(1), i) by {
            assert(!save_restore_at(s, i + 1));
        }
        lemma_other_sequences_are_untouched(s.skip(1));
        assert(rewritten(s) =~= s);
    }
}

/// Wherever `CSI s` or `CSI u` stands, it is replaced by `ESC 7` or `ESC 8`,
/// and what stands before and behind it is rewritten as if it stood alone.
pub proof fn lemma_every_save_and_restore_is_replaced(x: Seq<u8>, y: Seq<u8>)
    ensures
        rewritten(x + seq![0x1bu8, 0x5b, 0x73] + y) == rewritten(x) + seq![0x1bu8, 0x37] + rewritten(
            y,
        ),
        rewritten(x + seq![0x1bu8, 0x5b, 0x75] + y) == rewritten(x) + seq![0x1bu8, 0x38] + rewritten(
            y,
        ),
{
    lemma_sequence_is_replaced(x, 0x73, y);
    lemma_sequence_is_replaced(x, 0x75, y);
}

proof fn lemma_sequence_is_replaced(x: Seq<u8>, last: u8, y: Seq<u8>)
    requires
        last == 0x73 || last == 0x75,
    ensures
        rewritten(x + seq![0x1bu8, 0x5b, last] + y) == rewritten(x) + seq![
            0x1bu8,
            if last == 0x73 { 0x37u8 } else { 0x38u8 },
        ] + rewritten(y),
{
    let tail = seq![0x1bu8, 0x5b, last] + y;
    assert(x + seq![0x1bu8, 0x5b, last] + y =~= x + tail);
    assert(tail[0] == 0x1b && tail[1] == 0x5b && tail[2] == last);
    assert forall|i: int| x.len() - 2 <= i < x.len() implies !#[trigger] save_restore_at(
        x + tail,
        i,
    ) by {
        assert((x + tail)[x.len() as int] == 0x1b);
    }
    lemma_rewritten_concat(x, tail);
    assert(tail.skip(3) =~= y);
    assert(rewritten(x + tail) =~= rewritten(x) + seq![
        0x1bu8,
        if last == 0x73 { 0x37u8 } else { 0x38u8 },
    ] + rewritten(y));
}

/// Output that holds neither `CSI s` nor `CSI u` reaches the emulator as it is.
pub proof fn lemma_everything_else_passes_through(s: Seq<u8>)
    requires
        forall|i: int|
            0 <= i < s.len() - 2 && #[trigger] s[i] == 0x1b && s[i + 1] == 0x5b ==> s[i + 2] != 0x73
                && s[i + 2] != 0x75,
    ensures
        rewritten(s) == s,
{
    assert forall|i: int| !#[trigger] save_restore_at(s, i) by {}
    lemma_other_sequences_are_untouched(s);
}

/// Held back are only an escape byte, or one and `[`, at the very end of the
/// output: nothing that can already be told from the start of a sequence.
pub proof fn lemma_only_the_start_of_a_sequence_is_held_back(carry: Seq<u8>, bytes: Seq<u8>)
    ensures
        ({
            let all = carry + bytes;
            let n = all.len() as int;
            carried(carry, bytes) == if n >= 1 && all[n - 1] == 0x1b {
                seq![0x1bu8]
            } else if n >= 2 && all[n - 1] == 0x5b && all[n - 2] == 0x1b {
                seq![0x1bu8, 0x5b]
            } else {
                Seq::empty()
            }
        }),
{
    let all = carry + bytes;
    let n = all.len() as int;
    let held = carried(carry, bytes);
    if n >= 1 && all[n - 1] == 0x1b {
        assert(held =~= seq![0x1bu8]);
    } else if n >= 2 && all[n - 1] == 0x5b && all[n - 2] == 0x1b {
        assert(held =~= seq![0x1bu8, 0x5b]);
    } else {
        assert(held =~= Seq::<u8>::empty());
    }
}

/// Nothing gets lost: what reaches the emulator and what is held back make up
/// the rewritten output.
pub proof fn lemma_no_output_is_lost(carry: Seq<u8>, bytes: Seq<u8>)
    ensures
        normalized(carry, bytes) + carried(carry, bytes) == rewritten(carry + bytes),
{
    let all = carry + bytes;
    let x = complete_part(all);
    let t = held_back(all);
    assert(all =~= x + t);
    lemma_rewritten_concat(x, t);
    assert(rewritten(t) =~= t) by {
        reveal_with_fuel(rewritten, 4);
        if t.len() == 2 {
            assert(t.skip(1).skip(1) =~= Seq::<u8>::empty());
        } else if t.len() == 1 {
            assert(t.skip(1) =~= Seq::<u8>::empty());
        }
    }
}

} // verus!
