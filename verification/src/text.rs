//! Text operations on Unicode strings, modelled on their character sequences.
use vstd::prelude::*;
use vstd::utf8::*;

verus! {

broadcast use vstd::seq::group_seq_axioms;

// ---------------------------------------------------------------------------
// Whitespace and trimming
// ---------------------------------------------------------------------------

/// The characters that carry the Unicode `White_Space` property.
pub open spec fn white_space(c: char) -> bool {
    ||| ('\u{9}' <= c && c <= '\u{d}')
    ||| c == ' '
    ||| c == '\u{85}'
    ||| c == '\u{a0}'
    ||| c == '\u{1680}'
    ||| ('\u{2000}' <= c && c <= '\u{200a}')
    ||| c == '\u{2028}'
    ||| c == '\u{2029}'
    ||| c == '\u{202f}'
    ||| c == '\u{205f}'
    ||| c == '\u{3000}'
}

/// `s` without its leading whitespace.
pub open spec fn trim_front(s: Seq<char>) -> Seq<char>
    decreases s.len(),
{
    if s.len() > 0 && white_space(s[0]) {
        trim_front(s.drop_first())
    } else {
        s
    }
}

/// `s` without its trailing whitespace.
pub open spec fn trim_back(s: Seq<char>) -> Seq<char>
    decreases s.len(),
{
    if s.len() > 0 && white_space(s.last()) {
        trim_back(s.drop_last())
    } else {
        s
    }
}

/// `s` without leading and trailing whitespace.
pub open spec fn trim(s: Seq<char>) -> Seq<char> {
    trim_back(trim_front(s))
}

/// Whether `c` has the Unicode `White_Space` property.
pub fn is_white_space(c: char) -> (b: bool)
    ensures
        b == white_space(c),
{
    ('\u{9}' <= c && c <= '\u{d}') || c == ' ' || c == '\u{85}' || c == '\u{a0}' || c
        == '\u{1680}' || ('\u{2000}' <= c && c <= '\u{200a}') || c == '\u{2028}' || c
        == '\u{2029}' || c == '\u{202f}' || c == '\u{205f}' || c == '\u{3000}'
}

/// The characters of `s`, in order.
pub fn chars_of(s: &str) -> (v: Vec<char>)
    ensures
        v@ == s@,
{
    let mut v: Vec<char> = Vec::new();
    for c in it: s.chars()
        invariant
            v@ == it.seq().take(it.index() as int),
            it.seq() == s@,
    {
        v.push(c);
    }
    v
}

proof fn lemma_trim_front_skip(s: Seq<char>, i: int)
    requires
        0 <= i <= s.len(),
        forall|k: int| 0 <= k < i ==> white_space(#[trigger] s[k]),
    ensures
        trim_front(s) == trim_front(s.subrange(i, s.len() as int)),
    decreases i,
{
    if i > 0 {
        assert(s.drop_first().subrange(i - 1, s.drop_first().len() as int) =~= s.subrange(
            i,
            s.len() as int,
        ));
        lemma_trim_front_skip(s.drop_first(), i - 1);
    } else {
        assert(s.subrange(0, s.len() as int) =~= s);
    }
}

proof fn lemma_trim_back_cut(s: Seq<char>, j: int)
    requires
        0 <= j <= s.len(),
        forall|k: int| j <= k < s.len() ==> white_space(#[trigger] s[k]),
    ensures
        trim_back(s) == trim_back(s.subrange(0, j)),
    decreases s.len() - j,
{
    if j < s.len() {
        assert(s.drop_last().subrange(0, j) =~= s.subrange(0, j));
        lemma_trim_back_cut(s.drop_last(), j);
    } else {
        assert(s.subrange(0, j) =~= s);
    }
}

/// The bounds `(start, end)` of the trimmed part of `v`: `trim(v@)` is `v@[start..end]`.
pub fn trim_bounds(v: &Vec<char>) -> (r: (usize, usize))
    ensures
        r.0 <= r.1 <= v@.len(),
        r.0 == v@.len() - trim_front(v@).len(),
        r.1 == r.0 + trim(v@).len(),
        trim(v@) == v@.subrange(r.0 as int, r.1 as int),
{
    let n = v.len();
    let mut i: usize = 0;
    while i < n && is_white_space(v[i])
        invariant
            i <= n == v@.len(),
            forall|k: int| 0 <= k < i ==> white_space(#[trigger] v@[k]),
        decreases n - i,
    {
        i = i + 1;
    }
    proof {
        lemma_trim_front_skip(v@, i as int);
        let rest = v@.subrange(i as int, n as int);
        assert(rest.len() == 0 || !white_space(rest[0]));
        assert(trim_front(rest) == rest);
    }
    let mut j: usize = n;
    while j > i && is_white_space(v[j - 1])
        invariant
            i <= j <= n == v@.len(),
            forall|k: int| j <= k < n ==> white_space(#[trigger] v@[k]),
        decreases j,
    {
        j = j - 1;
    }
    proof {
        let rest = v@.subrange(i as int, n as int);
        assert forall|k: int| (j - i) <= k < rest.len() implies white_space(#[trigger] rest[k]) by {
            assert(rest[k] == v@[k + i]);
        }
        lemma_trim_back_cut(rest, j - i);
        let cut = rest.subrange(0, j - i);
        assert(cut =~= v@.subrange(i as int, j as int));
        assert(cut.len() == 0 || !white_space(cut.last()));
        assert(trim_back(cut) == cut);
    }
    (i, j)
}

/// `s` with leading and trailing whitespace removed.
pub fn trim_str(s: &str) -> (t: String)
    ensures
        t@ == trim(s@),
{
    let v = chars_of(s);
    let (i, j) = trim_bounds(&v);
    s.substring_char(i, j).to_owned()
}


// ---------------------------------------------------------------------------
// Lines
// ---------------------------------------------------------------------------

/// The index of the first `'\n'` in `s`, or `s.len()` when there is none.
pub open spec fn line_break(s: Seq<char>) -> int
    decreases s.len(),
{
    if s.len() == 0 {
        0
    } else if s[0] == '\n' {
        0
    } else {
        1 + line_break(s.drop_first())
    }
}

/// `line` without one trailing carriage return.
pub open spec fn strip_cr(line: Seq<char>) -> Seq<char> {
    if line.len() > 0 && line.last() == '\r' {
        line.drop_last()
    } else {
        line
    }
}

/// The lines of `s`: the pieces between `'\n'` characters, each without a
/// `'\r'` that stood just before its `'\n'`; a final `'\n'` starts no new line.
pub open spec fn lines(s: Seq<char>) -> Seq<Seq<char>>
    decreases s.len(),
{
    if s.len() == 0 {
        seq![]
    } else {
        let k = line_break(s);
        if k < 0 || k >= s.len() {
            seq![s]
        } else {
            seq![strip_cr(s.take(k))] + lines(s.skip(k + 1))
        }
    }
}

/// The first `n` elements of `s`, or all of `s` when it has fewer.
pub open spec fn take_at_most<A>(s: Seq<A>, n: int) -> Seq<A> {
    if n < s.len() {
        s.take(n)
    } else {
        s
    }
}

/// The pieces of `parts` with `sep` between each two neighbours.
pub open spec fn join(parts: Seq<Seq<char>>, sep: Seq<char>) -> Seq<char>
    decreases parts.len(),
{
    if parts.len() == 0 {
        seq![]
    } else if parts.len() == 1 {
        parts[0]
    } else {
        join(parts.drop_last(), sep) + sep + parts.last()
    }
}

/// `line_break` is a position inside `s` (or its end), and it is the first newline.
pub proof fn lemma_line_break(s: Seq<char>)
    ensures
        0 <= line_break(s) <= s.len(),
        line_break(s) < s.len() ==> s[line_break(s)] == '\n',
        forall|i: int| 0 <= i < line_break(s) ==> s[i] != '\n',
    decreases s.len(),
{
    if s.len() > 0 && s[0] != '\n' {
        lemma_line_break(s.drop_first());
        assert forall|i: int| 0 <= i < line_break(s) implies s[i] != '\n' by {
            if i > 0 {
                assert(s[i] == s.drop_first()[i - 1]);
            }
        }
    }
}

/// The index of the first `'\n'` at or after `from`, or `v.len()`.
fn find_newline(v: &Vec<char>, from: usize) -> (k: usize)
    requires
        from <= v@.len(),
    ensures
        from <= k <= v@.len(),
        k - from == line_break(v@.skip(from as int)),
{
    let n = v.len();
    let mut k = from;
    while k < n && v[k] != '\n'
        invariant
            from <= k <= n == v@.len(),
            line_break(v@.skip(from as int)) == (k - from) + line_break(v@.skip(k as int)),
        decreases n - k,
    {
        assert(v@.skip(k as int).drop_first() =~= v@.skip(k + 1));
        k = k + 1;
    }
    k
}

/// Unfolds `lines` once, at position `pos` of `s`, for a break found at `k`.
proof fn lemma_lines_step(s: Seq<char>, pos: int, k: int)
    requires
        0 <= pos < s.len(),
        pos <= k <= s.len(),
        k - pos == line_break(s.skip(pos)),
    ensures
        k < s.len() ==> lines(s.skip(pos)) == seq![strip_cr(s.subrange(pos, k))] + lines(
            s.skip(k + 1),
        ),
        k == s.len() ==> lines(s.skip(pos)) == seq![s.skip(pos)],
{
    let r = s.skip(pos);
    if k < s.len() {
        assert(r.take(k - pos) =~= s.subrange(pos, k));
        assert(r.skip(k - pos + 1) =~= s.skip(k + 1));
    }
}

/// The first `max_lines` lines of `content`, joined with `'\n'`.
pub fn first_lines(content: &str, max_lines: usize) -> (out: String)
    ensures
        out@ == join(take_at_most(lines(content@), max_lines as int), seq!['\n']),
{
    let v = chars_of(content);
    let n = v.len();
    let mut out = String::new();
    let mut pos: usize = 0;
    let mut count: usize = 0;
    let ghost mut taken: Seq<Seq<char>> = seq![];
    proof {
        reveal_strlit("\n");
        assert(v@.skip(0) =~= v@);
        assert(taken + lines(v@) =~= lines(v@));
    }
    while pos < n && count < max_lines
        invariant
            pos <= n == v@.len(),
            v@ == content@,
            count <= max_lines,
            taken.len() == count,
            lines(v@) == taken + lines(v@.skip(pos as int)),
            out@ == join(taken, seq!['\n']),
            "\n"@ == seq!['\n'],
        decreases n - pos,
    {
        let k = find_newline(&v, pos);
        proof {
            lemma_lines_step(v@, pos as int, k as int);
        }
        let mut end = k;
        if k < n && k > pos && v[k - 1] == '\r' {
            end = k - 1;
        }
        let line = content.substring_char(pos, end);
        proof {
            if k < n {
                let full = v@.subrange(pos as int, k as int);
                assert(strip_cr(full) =~= line@);
            } else {
                assert(v@.skip(pos as int) =~= line@);
            }
        }
        if count > 0 {
            out.append("\n");
        }
        out.append(line);
        proof {
            let old_taken = taken;
            taken = taken.push(line@);
            assert(taken.drop_last() =~= old_taken);
            if k < n {
                assert(lines(v@) =~= taken + lines(v@.skip(k + 1)));
            } else {
                assert(v@.skip(n as int) =~= Seq::<char>::empty());
                assert(lines(v@) =~= taken + lines(v@.skip(n as int)));
            }
        }
        pos = if k < n { k + 1 } else { n };
        count = count + 1;
    }
    proof {
        if pos >= n {
            assert(v@.skip(pos as int) =~= Seq::<char>::empty());
            assert(lines(v@) =~= taken);
        }
        if pos < n {
            assert((taken + lines(v@.skip(pos as int))).take(count as int) =~= taken);
        }
        assert(take_at_most(lines(v@), max_lines as int) =~= taken);
    }
    out
}

// ---------------------------------------------------------------------------
// Byte-length prefixes
// ---------------------------------------------------------------------------

/// Whether the first `n` bytes of the UTF-8 encoding of `s` end on a character
/// boundary (or `s` is no longer than `n` bytes).
pub open spec fn fits_at_char_boundary(s: Seq<char>, n: nat) -> bool {
    encode_utf8(s).len() <= n || is_char_boundary(encode_utf8(s), n as int)
}

/// The characters encoded by the first `n` bytes of `s` (all of `s` when it is no
/// longer than `n` bytes).
pub open spec fn byte_prefix(s: Seq<char>, n: nat) -> Seq<char> {
    if encode_utf8(s).len() <= n {
        s
    } else {
        decode_utf8(encode_utf8(s).subrange(0, n as int))
    }
}

/// The part of `s` held in its first `n` bytes, as `&s[..s.len().min(n)]`.
pub fn prefix_within_bytes(s: &str, n: usize) -> (r: &str)
    requires
        fits_at_char_boundary(s@, n as nat),
    ensures
        r@ == byte_prefix(s@, n as nat),
{
    proof {
        broadcast use encode_utf8_valid_utf8, encode_utf8_decode_utf8;
    }
    if s.is_char_boundary(n) {
        let (head, _tail) = s.split_at(n);
        proof {
            let bytes = encode_utf8(s@);
            assert(head@ == decode_utf8(encode_utf8(head@)));
            if bytes.len() <= n {
                reveal_with_fuel(is_char_boundary, 1);
                assert(n <= bytes.len());
                assert(bytes.subrange(0, n as int) =~= bytes);
            }
        }
        head
    } else {
        s
    }
}


// ---------------------------------------------------------------------------
// Laws
// ---------------------------------------------------------------------------

/// Trimming twice trims no more than trimming once, and what is left neither starts
/// nor ends with whitespace.
pub proof fn lemma_trim_idempotent(s: Seq<char>)
    ensures
        trim(trim(s)) == trim(s),
        trim(s).len() > 0 ==> !white_space(trim(s)[0]) && !white_space(trim(s).last()),
{
    lemma_trim_front_shape(s);
    lemma_trim_back_shape(trim_front(s));
    let t = trim(s);
    if t.len() > 0 {
        assert(t[0] == trim_front(s)[0]);
    }
    lemma_trim_front_shape(t);
    assert(trim_front(t) == t);
}

proof fn lemma_trim_front_shape(s: Seq<char>)
    ensures
        trim_front(s).len() > 0 ==> !white_space(trim_front(s)[0]),
        trim_front(s).len() <= s.len(),
        trim_front(s) == s.subrange(s.len() - trim_front(s).len(), s.len() as int),
    decreases s.len(),
{
    if s.len() > 0 && white_space(s[0]) {
        lemma_trim_front_shape(s.drop_first());
        assert(s.drop_first().subrange(
            s.drop_first().len() - trim_front(s).len(),
            s.drop_first().len() as int,
        ) =~= s.subrange(s.len() - trim_front(s).len(), s.len() as int));
    } else {
        assert(s.subrange(0, s.len() as int) =~= s);
    }
}

/// The trimmed text is a contiguous piece of the text.
pub proof fn lemma_trim_piece_bounds(s: Seq<char>)
    ensures
        exists|a: int, b: int| 0 <= a <= b <= s.len() && trim(s) == s.subrange(a, b),
{
    lemma_trim_front_shape(s);
    let f = trim_front(s);
    lemma_trim_back_shape(f);
    let a = s.len() - f.len();
    let b = a + trim(s).len();
    assert(trim(s) =~= s.subrange(a, b));
}

proof fn lemma_trim_back_shape(s: Seq<char>)
    ensures
        trim_back(s).len() > 0 ==> !white_space(trim_back(s).last()),
        trim_back(s).len() <= s.len(),
        trim_back(s) == s.subrange(0, trim_back(s).len() as int),
        s.len() > 0 && !white_space(s[0]) ==> trim_back(s).len() > 0 && trim_back(s)[0] == s[0],
    decreases s.len(),
{
    if s.len() > 0 && white_space(s.last()) {
        lemma_trim_back_shape(s.drop_last());
        assert(s.drop_last().subrange(0, trim_back(s).len() as int) =~= s.subrange(
            0,
            trim_back(s).len() as int,
        ));
    } else {
        assert(s.subrange(0, s.len() as int) =~= s);
    }
}

/// Taking at most `n` elements keeps the first `min(n, len)` elements, in order.
pub proof fn lemma_take_at_most<A>(s: Seq<A>, n: int)
    requires
        n >= 0,
    ensures
        take_at_most(s, n).len() == (if n < s.len() { n } else { s.len() as int }),
        forall|i: int| 0 <= i < take_at_most(s, n).len() ==> #[trigger] take_at_most(s, n)[i]
            == s[i],
{
}

/// A non-empty text without a line end is a single line; the empty text has none; a
/// line end ends a line without starting another when nothing follows it.
pub proof fn lemma_lines_basic(s: Seq<char>)
    ensures
        lines(Seq::<char>::empty()) == Seq::<Seq<char>>::empty(),
        (s.len() > 0 && !has_char(s, '\n')) ==> lines(s) == seq![s],
        (!has_char(s, '\n') && !has_char(s, '\r')) ==> lines(s.push('\n')) == seq![s],
{
    lemma_line_break(s);
    if !has_char(s, '\n') {
        if s.len() > 0 && line_break(s) < s.len() {
            assert(s[line_break(s)] == '\n');
        }
        let t = s.push('\n');
        lemma_line_break(t);
        assert forall|i: int| 0 <= i < s.len() implies t[i] != '\n' by {
            assert(t[i] == s[i]);
        }
        let lb = line_break(t);
        assert(t[s.len() as int] == '\n');
        if lb < s.len() {
            assert(t[lb] == s[lb]);
        }
        assert(lb == s.len());
        assert(t.take(s.len() as int) =~= s);
        assert(t.skip(s.len() + 1 as int) =~= Seq::<char>::empty());
        if (!has_char(s, '\r')) {
            if s.len() > 0 && s.last() == '\r' {
                assert(s[s.len() - 1] == '\r');
            }
            assert(strip_cr(s) == s);
        }
        assert(!has_char(s, '\r') ==> seq![strip_cr(s)] + Seq::<Seq<char>>::empty() =~= seq![s]);
    }
}

/// The first `n` bytes of a text, cut at a character boundary, hold the beginning of
/// the text: a prefix whose encoding is exactly `n` bytes long, or the whole text
/// when it has no more than `n` bytes.
pub proof fn lemma_byte_prefix(s: Seq<char>, n: nat)
    requires
        fits_at_char_boundary(s, n),
    ensures
        byte_prefix(s, n).is_prefix_of(s),
        encode_utf8(s).len() <= n ==> byte_prefix(s, n) == s,
        encode_utf8(s).len() > n ==> encode_utf8(byte_prefix(s, n)).len() == n,
{
    broadcast use encode_utf8_valid_utf8, encode_utf8_decode_utf8;

    let bytes = encode_utf8(s);
    if bytes.len() > n {
        let head = bytes.subrange(0, n as int);
        let tail = bytes.subrange(n as int, bytes.len() as int);
        decode_utf8_split(bytes, n as int);
        valid_utf8_split(bytes, n as int);
        decode_utf8_encode_utf8(head);
        let p = decode_utf8(head);
        assert(s == p + decode_utf8(tail));
        assert(s.subrange(0, p.len() as int) =~= p);
    } else {
        assert(s.subrange(0, s.len() as int) =~= s);
    }
}

proof fn lemma_join_prepend(a: Seq<char>, rest: Seq<Seq<char>>, sep: Seq<char>)
    requires
        rest.len() > 0,
    ensures
        join(seq![a] + rest, sep) == a + sep + join(rest, sep),
    decreases rest.len(),
{
    let all = seq![a] + rest;
    if rest.len() == 1 {
        assert(all.drop_last() =~= seq![a]);
        assert(all.last() == rest[0]);
        assert(join(seq![a], sep) == a);
        assert(join(rest, sep) == rest[0]);
    } else {
        assert(all.drop_last() =~= seq![a] + rest.drop_last());
        lemma_join_prepend(a, rest.drop_last(), sep);
        assert(all.last() == rest.last());
        let j = join(rest.drop_last(), sep);
        assert(join(all, sep) == (a + sep + j) + sep + rest.last());
        assert(join(rest, sep) == j + sep + rest.last());
        assert((a + sep + j) + sep + rest.last() =~= a + sep + (j + sep + rest.last()));
    }
}

/// Whether `c` occurs in `s`.
pub open spec fn has_char(s: Seq<char>, c: char) -> bool {
    exists|i: int| 0 <= i < s.len() && s[i] == c
}

proof fn lemma_lines_nonempty(s: Seq<char>)
    ensures
        s.len() > 0 <==> lines(s).len() > 0,
{
    lemma_line_break(s);
}

/// For a text without carriage returns, the first `k` lines joined with `'\n'` are
/// the beginning of the text; all of its lines joined give the text back, unless it
/// ends with a line end.
pub proof fn lemma_lines_join(s: Seq<char>, k: int)
    requires
        !has_char(s, '\r'),
        k >= 1,
    ensures
        join(take_at_most(lines(s), k), seq!['\n']).is_prefix_of(s),
        (s.len() == 0 || s.last() != '\n') ==> join(lines(s), seq!['\n']) == s,
    decreases s.len(),
{
    let nl = seq!['\n'];
    lemma_line_break(s);
    if s.len() == 0 {
        assert(join(take_at_most(lines(s), k), nl) =~= Seq::<char>::empty());
    } else {
        let b = line_break(s);
        if b == s.len() {
            assert(take_at_most(lines(s), k) =~= seq![s]);
            assert(s.subrange(0, s.len() as int) =~= s);
        } else {
            let a = s.take(b);
            let r = s.skip(b + 1);
            assert(strip_cr(a) == a) by {
                if a.len() > 0 && a.last() == '\r' {
                    assert(s[b - 1] == '\r');
                }
            }
            assert(lines(s) == seq![a] + lines(r));
            assert(s =~= a + nl + r);
            assert(!has_char(r, '\r')) by {
                if has_char(r, '\r') {
                    let i = choose|i: int| 0 <= i < r.len() && r[i] == '\r';
                    assert(s[b + 1 + i] == '\r');
                }
            }
            lemma_lines_nonempty(r);
            if r.len() == 0 {
                assert(lines(r) =~= Seq::<Seq<char>>::empty());
                assert(take_at_most(lines(s), k) =~= seq![a]);
                assert(s.subrange(0, a.len() as int) =~= a);
            } else {
                lemma_lines_join(r, 1);
                if k == 1 {
                    assert(take_at_most(lines(s), k) =~= seq![a]);
                    assert(s.subrange(0, a.len() as int) =~= a);
                } else {
                    lemma_lines_join(r, k - 1);
                    assert(take_at_most(lines(s), k) =~= seq![a] + take_at_most(lines(r), k - 1));
                    lemma_lines_nonempty(r);
                    lemma_join_prepend(a, take_at_most(lines(r), k - 1), nl);
                    let jr = join(take_at_most(lines(r), k - 1), nl);
                    assert(r.subrange(0, jr.len() as int) =~= jr);
                    assert(s.subrange(0, (a + nl + jr).len() as int) =~= a + nl + jr);
                }
                lemma_join_prepend(a, lines(r), nl);
                if s.last() != '\n' {
                    assert(r.last() == s.last());
                }
            }
        }
    }
}

} // verus!
