//! Plain text helpers shared by the renderer, the row source adapter and
//! the stub generator: padding, character runs, whitespace trimming and
//! delimiter splitting, each specified over character sequences.

use vstd::prelude::*;

verus! {

/// Relies on `String::push`: appends exactly one character.
#[verifier::external_body]
pub(crate) fn push_char(s: &mut String, c: char)
    ensures
        final(s)@ == old(s)@.push(c),
{
    s.push(c);
}

/// `n` copies of `c` in a row.
pub open spec fn repeat_char(c: char, n: nat) -> Seq<char>
    decreases n,
{
    if n == 0 {
        Seq::empty()
    } else {
        repeat_char(c, (n - 1) as nat).push(c)
    }
}

pub proof fn lemma_repeat_char_len(c: char, n: nat)
    ensures
        repeat_char(c, n).len() == n,
    decreases n,
{
    if n > 0 {
        lemma_repeat_char_len(c, (n - 1) as nat);
    }
}

/// `s` right-aligned in a field of width `w`: padded on the left with
/// spaces up to `w`, or unchanged if it is already at least that wide.
pub open spec fn pad_to(s: Seq<char>, w: nat) -> Seq<char> {
    if s.len() >= w {
        s
    } else {
        repeat_char(' ', (w - s.len()) as nat) + s
    }
}

/// `s` left-aligned in a field of width `w`: padded on the right with
/// spaces up to `w`, or unchanged if it is already at least that wide.
pub open spec fn pad_end_to(s: Seq<char>, w: nat) -> Seq<char> {
    if s.len() >= w {
        s
    } else {
        s + repeat_char(' ', (w - s.len()) as nat)
    }
}

/// A string of `n` copies of `c`.
pub fn char_run(c: char, n: usize) -> (r: String)
    ensures
        r@ == repeat_char(c, n as nat),
{
    let mut r = String::new();
    let mut k: usize = 0;
    while k < n
        invariant
            k <= n,
            r@ == repeat_char(c, k as nat),
        decreases n - k,
    {
        push_char(&mut r, c);
        k = k + 1;
    }
    r
}

/// Append `n` copies of `c` to `out`.
pub fn push_run(out: &mut String, c: char, n: usize)
    ensures
        final(out)@ == old(out)@ + repeat_char(c, n as nat),
{
    let mut k: usize = 0;
    while k < n
        invariant
            k <= n,
            out@ == old(out)@ + repeat_char(c, k as nat),
        decreases n - k,
    {
        proof {
            assert(old(out)@ + repeat_char(c, k as nat).push(c) =~= (old(out)@
                + repeat_char(c, k as nat)).push(c));
        }
        push_char(out, c);
        k = k + 1;
    }
    proof {
        assert(old(out)@ + repeat_char(c, 0) =~= old(out)@);
    }
}

/// Append `s` right-aligned in a field of width `w`.
pub fn push_padded(out: &mut String, s: &str, w: usize)
    ensures
        final(out)@ == old(out)@ + pad_to(s@, w as nat),
{
    let n = s.unicode_len();
    let pad: usize = if w > n {
        w - n
    } else {
        0
    };
    push_run(out, ' ', pad);
    out.append(s);
    proof {
        if s@.len() >= w as nat {
            assert(old(out)@ + repeat_char(' ', 0) + s@ =~= old(out)@ + pad_to(s@, w as nat));
        } else {
            assert(old(out)@ + repeat_char(' ', pad as nat) + s@ =~= old(out)@ + pad_to(
                s@,
                w as nat,
            ));
        }
    }
}

/// Append `s` left-aligned in a field of width `w`.
pub fn push_padded_end(out: &mut String, s: &str, w: usize)
    ensures
        final(out)@ == old(out)@ + pad_end_to(s@, w as nat),
{
    let n = s.unicode_len();
    out.append(s);
    let pad: usize = if w > n {
        w - n
    } else {
        0
    };
    push_run(out, ' ', pad);
    proof {
        if s@.len() >= w as nat {
            assert(old(out)@ + s@ + repeat_char(' ', 0) =~= old(out)@ + pad_end_to(s@, w as nat));
        } else {
            assert(old(out)@ + s@ + repeat_char(' ', pad as nat) =~= old(out)@ + pad_end_to(
                s@,
                w as nat,
            ));
        }
    }
}

/// A white-space character, by the Unicode `White_Space` property.
pub open spec fn is_ws(c: char) -> bool {
    c == ' ' || c == '\t' || c == '\n' || c == '\r' || c == '\u{b}' || c == '\u{c}' || c
        == '\u{85}' || c == '\u{a0}' || c == '\u{1680}' || ('\u{2000}' <= c && c <= '\u{200a}') || c
        == '\u{2028}' || c == '\u{2029}' || c == '\u{202f}' || c == '\u{205f}' || c == '\u{3000}'
}

fn is_ws_char(c: char) -> (b: bool)
    ensures
        b == is_ws(c),
{
    c == ' ' || c == '\t' || c == '\n' || c == '\r' || c == '\u{b}' || c == '\u{c}' || c
        == '\u{85}' || c == '\u{a0}' || c == '\u{1680}' || ('\u{2000}' <= c && c <= '\u{200a}') || c
        == '\u{2028}' || c == '\u{2029}' || c == '\u{202f}' || c == '\u{205f}' || c == '\u{3000}'
}

/// `s` with leading white space removed.
pub open spec fn trim_start_spec(s: Seq<char>) -> Seq<char>
    decreases s.len(),
{
    if s.len() > 0 && is_ws(s[0]) {
        trim_start_spec(s.drop_first())
    } else {
        s
    }
}

/// `s` with trailing white space removed.
pub open spec fn trim_end_spec(s: Seq<char>) -> Seq<char>
    decreases s.len(),
{
    if s.len() > 0 && is_ws(s.last()) {
        trim_end_spec(s.drop_last())
    } else {
        s
    }
}

/// `s` with white space removed at both ends.
pub open spec fn trim_spec(s: Seq<char>) -> Seq<char> {
    trim_end_spec(trim_start_spec(s))
}

proof fn lemma_trim_start_at(s: Seq<char>, a: int)
    requires
        0 <= a <= s.len(),
        forall|k: int| 0 <= k < a ==> is_ws(#[trigger] s[k]),
        a == s.len() || !is_ws(s[a]),
    ensures
        trim_start_spec(s) == s.subrange(a, s.len() as int),
    decreases a,
{
    if a == 0 {
        assert(s.subrange(0, s.len() as int) =~= s);
    } else {
        let t = s.drop_first();
        lemma_trim_start_at(t, a - 1);
        assert(t.subrange(a - 1, t.len() as int) =~= s.subrange(a, s.len() as int));
    }
}

proof fn lemma_trim_end_at(s: Seq<char>, b: int)
    requires
        0 <= b <= s.len(),
        forall|k: int| b <= k < s.len() ==> is_ws(#[trigger] s[k]),
        b == 0 || !is_ws(s[b - 1]),
    ensures
        trim_end_spec(s) == s.subrange(0, b),
    decreases s.len() - b,
{
    if b == s.len() {
        assert(s.subrange(0, b) =~= s);
    } else {
        let t = s.drop_last();
        lemma_trim_end_at(t, b);
        assert(t.subrange(0, b) =~= s.subrange(0, b));
    }
}

fn ws_end(s: &str, from: usize) -> (e: usize)
    requires
        from as int <= s@.len(),
    ensures
        from <= e,
        e as int <= s@.len(),
        forall|k: int| from <= k < e ==> is_ws(#[trigger] s@[k]),
        e as int == s@.len() || !is_ws(s@[e as int]),
    decreases s@.len() - from as int,
{
    let len = s.unicode_len();
    if from < len && is_ws_char(s.get_char(from)) {
        ws_end(s, from + 1)
    } else {
        from
    }
}

/// `s` with white space removed at both ends, as an owned string.
pub fn trim_ws(s: &str) -> (r: String)
    ensures
        r@ == trim_spec(s@),
{
    let len = s.unicode_len();
    let a = ws_end(s, 0);
    let mut b: usize = len;
    while b > a && is_ws_char(s.get_char(b - 1))
        invariant
            a <= b,
            b as int <= s@.len(),
            len == s@.len(),
            a as int <= s@.len(),
            forall|k: int| b <= k < s@.len() ==> is_ws(#[trigger] s@[k]),
        decreases b,
    {
        b = b - 1;
    }
    let r = s.substring_char(a, b);
    proof {
        lemma_trim_start_at(s@, a as int);
        let t = s@.subrange(a as int, s@.len() as int);
        lemma_trim_end_at(t, b - a);
        assert(t.subrange(0, b - a) =~= s@.subrange(a as int, b as int));
    }
    String::from_str(r)
}

/// The fields of `s` between occurrences of the delimiter `d`: always at
/// least one field, and one more than there are delimiters.
pub open spec fn split_at_delim(s: Seq<char>, d: char) -> Seq<Seq<char>>
    decreases s.len(),
{
    if s.len() == 0 {
        seq![Seq::<char>::empty()]
    } else if s[0] == d {
        seq![Seq::<char>::empty()] + split_at_delim(s.drop_first(), d)
    } else {
        let rest = split_at_delim(s.drop_first(), d);
        seq![seq![s[0]] + rest[0]] + rest.drop_first()
    }
}

pub proof fn lemma_split_nonempty(s: Seq<char>, d: char)
    ensures
        split_at_delim(s, d).len() >= 1,
    decreases s.len(),
{
    if s.len() > 0 {
        lemma_split_nonempty(s.drop_first(), d);
    }
}

/// The first field of the split, extended in front by `p`, then the rest.
pub open spec fn prepend_head(p: Seq<char>, parts: Seq<Seq<char>>) -> Seq<Seq<char>>
    recommends
        parts.len() >= 1,
{
    seq![p + parts[0]] + parts.drop_first()
}

/// Split `s` into the fields between occurrences of `d`.
pub fn split_line(s: &str, d: char) -> (r: Vec<String>)
    ensures
        r@.map_values(|t: String| t@) == split_at_delim(s@, d),
{
    let len = s.unicode_len();
    let mut out: Vec<String> = Vec::new();
    let mut cur: String = String::new();
    let mut i: usize = 0;
    proof {
        lemma_split_nonempty(s@, d);
        assert(s@.skip(0) =~= s@);
        let parts = split_at_delim(s@, d);
        assert(Seq::<char>::empty() + parts[0] =~= parts[0]);
        assert(prepend_head(Seq::<char>::empty(), parts) =~= parts);
        assert(out@.map_values(|t: String| t@) =~= Seq::<Seq<char>>::empty());
        assert(Seq::<Seq<char>>::empty() + parts =~= parts);
    }
    while i < len
        invariant
            i <= len,
            len == s@.len(),
            split_at_delim(s@.skip(i as int), d).len() >= 1,
            split_at_delim(s@, d) == out@.map_values(|t: String| t@) + prepend_head(
                cur@,
                split_at_delim(s@.skip(i as int), d),
            ),
        decreases len - i,
    {
        let c = s.get_char(i);
        let ghost tail = s@.skip(i as int);
        let ghost rest = split_at_delim(s@.skip(i + 1), d);
        proof {
            assert(tail.len() > 0);
            assert(tail[0] == s@[i as int]);
            assert(tail.drop_first() =~= s@.skip(i + 1));
            lemma_split_nonempty(s@.skip(i + 1), d);
        }
        if c == d {
            let done = cur;
            cur = String::new();
            let ghost out0 = out@;
            out.push(done);
            proof {
                assert(split_at_delim(tail, d) == seq![Seq::<char>::empty()] + rest);
                assert(prepend_head(done@, split_at_delim(tail, d)) =~= seq![done@] + rest);
                assert(Seq::<char>::empty() + rest[0] =~= rest[0]);
                assert(prepend_head(cur@, rest) =~= rest);
                assert(out@.map_values(|t: String| t@) =~= out0.map_values(|t: String| t@)
                    + seq![done@]);
                assert(out0.map_values(|t: String| t@) + (seq![done@] + rest) =~= out@.map_values(
                    |t: String| t@,
                ) + prepend_head(cur@, rest));
            }
        } else {
            let ghost cur0 = cur@;
            push_char(&mut cur, c);
            proof {
                assert(split_at_delim(tail, d) == seq![seq![tail[0]] + rest[0]]
                    + rest.drop_first());
                assert(cur0 + (seq![c] + rest[0]) =~= cur@ + rest[0]);
                assert(prepend_head(cur0, split_at_delim(tail, d)) =~= prepend_head(cur@, rest));
            }
        }
        i = i + 1;
    }
    proof {
        assert(s@.skip(i as int) =~= Seq::<char>::empty());
        assert(split_at_delim(s@.skip(i as int), d) == seq![Seq::<char>::empty()]);
        assert(cur@ + Seq::<char>::empty() =~= cur@);
        assert(prepend_head(cur@, seq![Seq::<char>::empty()]) =~= seq![cur@]);
    }
    let ghost outv = out@;
    out.push(cur);
    proof {
        assert(out@.map_values(|t: String| t@) =~= outv.map_values(|t: String| t@) + seq![cur@]);
    }
    out
}

} // verus!
