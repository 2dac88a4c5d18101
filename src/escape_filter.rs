use vstd::prelude::*;

verus! {

/// The escape byte that starts every escape sequence.
pub const ESC: u8 = 0x1b;

/// The final bytes of the control sequences handed to the console: SGR (`m`),
/// mode set and reset (`h`, `l`), cursor moves (`A`, `B`, `C`, `D`), next and
/// previous line (`E`, `F`), column (`G`), position (`H`, `f`), row (`d`),
/// erase in display and in line (`J`, `K`), cursor save and restore (`s`,
/// `u`). Scroll margins, scrolling, and inserting or deleting characters or
/// lines are left out: the console does unchecked arithmetic there.
pub open spec fn is_allowed_final(b: u8) -> bool {
    b == 0x6d || b == 0x68 || b == 0x6c || b == 0x41 || b == 0x42 || b == 0x43 || b == 0x44
        || b == 0x45 || b == 0x46 || b == 0x47 || b == 0x48 || b == 0x66 || b == 0x64 || b == 0x4a
        || b == 0x4b || b == 0x73 || b == 0x75
}

/// A parameter byte: a digit, `;` or `?`.
pub open spec fn is_param_byte(b: u8) -> bool {
    (0x30 <= b <= 0x39) || b == 0x3b || b == 0x3f
}

/// `ESC [`, parameter bytes, and an allowed final byte. A cursor move down or
/// forward (`B`, `C`), which the console adds to the cursor unchecked, has at
/// most 18 parameter bytes, so its count stays below `10^18`.
pub open spec fn is_safe_csi(t: Seq<u8>) -> bool {
    &&& t.len() >= 3
    &&& t[0] == ESC
    &&& t[1] == 0x5b
    &&& is_allowed_final(t.last())
    &&& forall|k: int| 2 <= k < t.len() - 1 ==> is_param_byte(#[trigger] t[k])
    &&& (t.last() == 0x42 || t.last() == 0x43) ==> t.len() <= 21
}

/// `ESC 7` (save the cursor), `ESC 8` (restore it) or `ESC M` (reverse index).
pub open spec fn is_safe_esc(t: Seq<u8>) -> bool {
    t.len() == 2 && t[0] == ESC && (t[1] == 0x37 || t[1] == 0x38 || t[1] == 0x4d)
}

/// A sequence handed to the console whole.
pub open spec fn is_safe_sequence(t: Seq<u8>) -> bool {
    is_safe_csi(t) || is_safe_esc(t)
}

/// A single byte other than `ESC`, or an admitted sequence.
pub open spec fn is_safe_token(t: Seq<u8>) -> bool {
    (t.len() == 1 && t[0] != ESC) || is_safe_sequence(t)
}

pub open spec fn join_tokens(ts: Seq<Seq<u8>>) -> Seq<u8>
    decreases ts.len(),
{
    if ts.len() == 0 {
        Seq::empty()
    } else {
        join_tokens(ts.drop_last()) + ts.last()
    }
}

/// A byte stream made of safe tokens only: the console never leaves its
/// ground state but for a whole allowed control sequence.
pub open spec fn console_safe(s: Seq<u8>) -> bool {
    exists|ts: Seq<Seq<u8>>|
        join_tokens(ts) == s && forall|i: int| 0 <= i < ts.len() ==> is_safe_token(#[trigger] ts[i])
}

pub proof fn lemma_empty_is_safe()
    ensures
        console_safe(Seq::empty()),
{
    let ts = Seq::<Seq<u8>>::empty();
    assert(join_tokens(ts) == Seq::<u8>::empty());
}

pub proof fn lemma_append_safe(s: Seq<u8>, t: Seq<u8>)
    requires
        console_safe(s),
        is_safe_token(t),
    ensures
        console_safe(s + t),
{
    let ts = choose|ts: Seq<Seq<u8>>|
        join_tokens(ts) == s && forall|i: int| 0 <= i < ts.len() ==> is_safe_token(#[trigger] ts[i]);
    let ts2 = ts.push(t);
    assert(ts2.drop_last() =~= ts);
    assert(join_tokens(ts2) == s + t);
    assert(forall|i: int| 0 <= i < ts2.len() ==> is_safe_token(#[trigger] ts2[i]));
}

/// Concatenated safe streams are safe.
pub proof fn lemma_concat_safe(s: Seq<u8>, t: Seq<u8>)
    requires
        console_safe(s),
        console_safe(t),
    ensures
        console_safe(s + t),
{
    let tt = choose|ts: Seq<Seq<u8>>|
        join_tokens(ts) == t && forall|i: int| 0 <= i < ts.len() ==> is_safe_token(#[trigger] ts[i]);
    lemma_concat_tokens(s, tt);
}

proof fn lemma_concat_tokens(s: Seq<u8>, tt: Seq<Seq<u8>>)
    requires
        console_safe(s),
        forall|i: int| 0 <= i < tt.len() ==> is_safe_token(#[trigger] tt[i]),
    ensures
        console_safe(s + join_tokens(tt)),
    decreases tt.len(),
{
    if tt.len() == 0 {
        assert(s + join_tokens(tt) =~= s);
    } else {
        lemma_concat_tokens(s, tt.drop_last());
        assert(tt.drop_last().len() < tt.len());
        lemma_append_safe(s + join_tokens(tt.drop_last()), tt.last());
        assert(s + join_tokens(tt) =~= (s + join_tokens(tt.drop_last())) + tt.last());
    }
}

/// How a sequence that starts `ESC intro` ends: a control sequence (`[`) at
/// its final byte, a string (`]`, `P`, `X`, `^`, `_`) at `BEL` or `ESC \`,
/// any other escape at its first byte from `0x30` to `0x7e`.
pub open spec fn kind_of(intro: u8) -> u8 {
    if intro == 0x5b {
        0
    } else if intro == 0x5d || intro == 0x50 || intro == 0x58 || intro == 0x5e || intro == 0x5f {
        1
    } else {
        2
    }
}

/// The byte at `k` ends a sequence of `kind`, or cuts it off: a control byte
/// or `ESC` cuts off a control sequence or an escape; `CAN`, `SUB` or an `ESC`
/// that starts no `ESC \` cuts off a string.
pub open spec fn is_stop(s: Seq<u8>, k: int, kind: u8) -> bool {
    let b = s[k];
    if kind == 1 {
        b == 0x07 || b == 0x18 || b == 0x1a || b == ESC
    } else if kind == 0 {
        (0x40 <= b <= 0x7e) || b < 0x20 || b == ESC
    } else {
        (0x30 <= b <= 0x7e) || b < 0x20 || b == ESC
    }
}

/// The stop byte at `m` cuts the sequence off; it then starts what follows.
pub open spec fn cut_off(s: Seq<u8>, m: int, kind: u8) -> bool {
    let b = s[m];
    if kind == 1 {
        b == 0x18 || b == 0x1a || (b == ESC && s[m + 1] != 0x5c)
    } else {
        b < 0x20 || b == ESC
    }
}

/// The number of bytes from `k` before the end byte of a sequence of `kind`.
pub open spec fn skip_len(s: Seq<u8>, k: int, kind: u8) -> nat
    decreases s.len() - k,
{
    if k < 0 || k >= s.len() || is_stop(s, k, kind) {
        0
    } else {
        1 + skip_len(s, k + 1, kind)
    }
}

/// What is kept of `s` from `i` on, and the incomplete sequence at its end
/// held back for more bytes: bytes other than `ESC` are kept, allowed control
/// sequences are kept whole, and every other escape sequence is dropped.
pub open spec fn filter_from(s: Seq<u8>, i: int) -> (Seq<u8>, Seq<u8>)
    decreases s.len() - i,
{
    if i < 0 || i >= s.len() {
        (Seq::empty(), Seq::empty())
    } else if s[i] != ESC {
        let r = filter_from(s, i + 1);
        (seq![s[i]] + r.0, r.1)
    } else if i + 1 >= s.len() {
        (Seq::empty(), s.subrange(i, s.len() as int))
    } else {
        let kind = kind_of(s[i + 1]);
        let start = if kind == 2 { i + 1 } else { i + 2 };
        let m = start + skip_len(s, start, kind);
        if m >= s.len() || (kind == 1 && s[m] == ESC && m + 1 >= s.len()) {
            (Seq::empty(), s.subrange(i, s.len() as int))
        } else if cut_off(s, m, kind) {
            filter_from(s, m)
        } else {
            let last = if kind == 1 && s[m] == ESC { m + 1 } else { m };
            let t = s.subrange(i, last + 1);
            let r = filter_from(s, last + 1);
            if is_safe_sequence(t) {
                (t + r.0, r.1)
            } else {
                r
            }
        }
    }
}

proof fn lemma_skip_len_bound(s: Seq<u8>, k: int, kind: u8)
    requires
        0 <= k <= s.len(),
    ensures
        k + skip_len(s, k, kind) <= s.len(),
        k + skip_len(s, k, kind) < s.len() ==> is_stop(s, k + skip_len(s, k, kind), kind),
    decreases s.len() - k,
{
    if k < s.len() && !is_stop(s, k, kind) {
        lemma_skip_len_bound(s, k + 1, kind);
    }
}

fn kind_code(intro: u8) -> (r: u8)
    ensures
        r == kind_of(intro),
{
    if intro == 0x5b {
        0
    } else if intro == 0x5d || intro == 0x50 || intro == 0x58 || intro == 0x5e || intro == 0x5f {
        1
    } else {
        2
    }
}

fn stops_here(s: &Vec<u8>, k: usize, kind: u8) -> (r: bool)
    requires
        k < s@.len(),
    ensures
        r == is_stop(s@, k as int, kind),
{
    let b = s[k];
    if kind == 1 {
        b == 0x07 || b == 0x18 || b == 0x1a || b == ESC
    } else if kind == 0 {
        (0x40 <= b && b <= 0x7e) || b < 0x20 || b == ESC
    } else {
        (0x30 <= b && b <= 0x7e) || b < 0x20 || b == ESC
    }
}

fn cuts_off(s: &Vec<u8>, m: usize, kind: u8) -> (r: bool)
    requires
        m < s@.len(),
        kind == 1 && s@[m as int] == ESC ==> m + 1 < s@.len(),
    ensures
        r == cut_off(s@, m as int, kind),
{
    let n = s.len();
    let b = s[m];
    if kind == 1 {
        b == 0x18 || b == 0x1a || (b == ESC && n - m > 1 && s[m + 1] != 0x5c)
    } else {
        b < 0x20 || b == ESC
    }
}

/// The index of the end byte of a sequence of `kind` searched from `k`, or
/// the length of `s` where there is none yet.
fn find_end(s: &Vec<u8>, k: usize, kind: u8) -> (m: usize)
    requires
        k <= s@.len(),
    ensures
        m == k + skip_len(s@, k as int, kind),
{
    let mut j = k;
    while j < s.len() && !stops_here(s, j, kind)
        invariant
            k <= j <= s@.len(),
            skip_len(s@, k as int, kind) == (j - k) + skip_len(s@, j as int, kind),
        decreases s@.len() - j,
    {
        j += 1;
    }
    j
}

fn is_safe_sequence_at(s: &Vec<u8>, i: usize, last: usize) -> (r: bool)
    requires
        i < last < s@.len(),
    ensures
        r == is_safe_sequence(s@.subrange(i as int, last + 1)),
{
    let ghost t = s@.subrange(i as int, last + 1);
    if s[i] != ESC {
        return false;
    }
    if last - i == 1 {
        let b = s[last];
        return b == 0x37 || b == 0x38 || b == 0x4d;
    }
    if s[i + 1] != 0x5b {
        return false;
    }
    let f = s[last];
    if !(f == 0x6d || f == 0x68 || f == 0x6c || f == 0x41 || f == 0x42 || f == 0x43 || f == 0x44
        || f == 0x45 || f == 0x46 || f == 0x47 || f == 0x48 || f == 0x66 || f == 0x64 || f == 0x4a
        || f == 0x4b || f == 0x73 || f == 0x75) {
        return false;
    }
    if (f == 0x42 || f == 0x43) && last - i > 20 {
        return false;
    }
    let mut k = i + 2;
    while k < last
        invariant
            i + 2 <= k <= last < s@.len(),
            t == s@.subrange(i as int, last + 1),
            forall|j: int| 2 <= j < k - i ==> is_param_byte(#[trigger] t[j]),
        decreases last - k,
    {
        let b = s[k];
        if !((0x30 <= b && b <= 0x39) || b == 0x3b || b == 0x3f) {
            assert(t[k - i] == b);
            return false;
        }
        k += 1;
    }
    true
}

/// Splits `s` into what may be handed to the console and the incomplete
/// sequence at its end that waits for more bytes.
pub fn split_safe(s: &Vec<u8>) -> (r: (Vec<u8>, Vec<u8>))
    ensures
        r.0@ == filter_from(s@, 0).0,
        r.1@ == filter_from(s@, 0).1,
        console_safe(r.0@),
{
    let n = s.len();
    let mut kept: Vec<u8> = Vec::new();
    let mut i: usize = 0;
    let mut held_from: usize = n;
    proof {
        lemma_empty_is_safe();
    }
    while i < n && held_from == n
        invariant
            n == s@.len(),
            i <= n,
            held_from <= n,
            console_safe(kept@),
            held_from == n ==> kept@ + filter_from(s@, i as int).0 == filter_from(s@, 0).0
                && filter_from(s@, i as int).1 == filter_from(s@, 0).1,
            held_from < n ==> kept@ == filter_from(s@, 0).0 && filter_from(s@, 0).1 == s@.subrange(
                held_from as int,
                n as int,
            ),
        decreases n - i, (held_from == n) as int,
    {
        let b = s[i];
        if b != ESC {
            proof {
                lemma_append_safe(kept@, seq![b]);
                assert(filter_from(s@, i as int).0 == seq![b] + filter_from(s@, i + 1).0);
            }
            let ghost before = kept@;
            kept.push(b);
            assert(kept@ =~= before + seq![b]);
            assert(kept@ + filter_from(s@, i + 1).0 =~= filter_from(s@, 0).0);
            i += 1;
        } else if i + 1 >= n {
            held_from = i;
            assert(kept@ + Seq::<u8>::empty() =~= kept@);
        } else {
            let kind = kind_code(s[i + 1]);
            let start = if kind == 2 { i + 1 } else { i + 2 };
            proof {
                lemma_skip_len_bound(s@, start as int, kind);
            }
            let m = find_end(s, start, kind);
            if m >= n || (kind == 1 && s[m] == ESC && m + 1 >= n) {
                held_from = i;
                assert(kept@ + Seq::<u8>::empty() =~= kept@);
            } else if cuts_off(s, m, kind) {
                i = m;
            } else {
                let last = if kind == 1 && s[m] == ESC { m + 1 } else { m };
                let ghost t = s@.subrange(i as int, last + 1);
                if is_safe_sequence_at(s, i, last) {
                    let ghost before = kept@;
                    let mut k = i;
                    while k <= last
                        invariant
                            i <= k <= last + 1,
                            last < n == s@.len(),
                            kept@ == before + s@.subrange(i as int, k as int),
                        decreases last + 1 - k,
                    {
                        kept.push(s[k]);
                        assert(s@.subrange(i as int, k + 1) =~= s@.subrange(i as int, k as int).push(
                            s@[k as int],
                        ));
                        k += 1;
                    }
                    proof {
                        lemma_append_safe(before, t);
                    }
                    assert(kept@ == before + t);
                    assert(kept@ + filter_from(s@, last + 1).0 =~= before + filter_from(s@, i as int).0);
                }
                i = last + 1;
            }
        }
    }
    let mut held: Vec<u8> = Vec::new();
    let mut k = held_from;
    while k < n
        invariant
            held_from <= k <= n == s@.len(),
            held@ == s@.subrange(held_from as int, k as int),
        decreases n - k,
    {
        held.push(s[k]);
        assert(s@.subrange(held_from as int, k + 1) =~= s@.subrange(held_from as int, k as int).push(
            s@[k as int],
        ));
        k += 1;
    }
    proof {
        if held_from == n {
            assert(filter_from(s@, n as int).0 == Seq::<u8>::empty());
            assert(kept@ + Seq::<u8>::empty() =~= kept@);
        }
    }
    (kept, held)
}

} // verus!
