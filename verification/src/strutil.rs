//! String utilities shared across the library: ordering, prefix and
//! substring tests, and trimming.

use vstd::prelude::*;

verus! {

/// Lexicographic order on character sequences, comparing code points.
pub open spec fn lex_le(a: Seq<char>, b: Seq<char>) -> bool
    decreases a.len(),
{
    if a.len() == 0 {
        true
    } else if b.len() == 0 {
        false
    } else if (a[0] as u32) < (b[0] as u32) {
        true
    } else if (a[0] as u32) > (b[0] as u32) {
        false
    } else {
        lex_le(a.skip(1), b.skip(1))
    }
}

/// Compares two strings lexicographically by code point.
pub fn str_le(a: &str, b: &str) -> (r: bool)
    ensures
        r == lex_le(a@, b@),
{
    let a_len: usize = a.unicode_len();
    let b_len: usize = b.unicode_len();
    let mut i: usize = 0;
    proof {
        assert(a@.skip(0) =~= a@);
        assert(b@.skip(0) =~= b@);
    }
    loop
        invariant
            i <= a_len,
            i <= b_len,
            a_len == a@.len(),
            b_len == b@.len(),
            lex_le(a@, b@) == lex_le(a@.skip(i as int), b@.skip(i as int)),
        decreases a_len - i,
    {
        if i == a_len {
            proof {
                assert(a@.skip(i as int).len() == 0);
            }
            return true;
        }
        if i == b_len {
            proof {
                assert(b@.skip(i as int).len() == 0);
                assert(a@.skip(i as int).len() > 0);
            }
            return false;
        }
        let ca = a.get_char(i);
        let cb = b.get_char(i);
        proof {
            assert(a@.skip(i as int)[0] == a@[i as int]);
            assert(b@.skip(i as int)[0] == b@[i as int]);
            assert(a@.skip(i as int).skip(1) =~= a@.skip(i + 1));
            assert(b@.skip(i as int).skip(1) =~= b@.skip(i + 1));
        }
        if (ca as u32) < (cb as u32) {
            return true;
        }
        if (ca as u32) > (cb as u32) {
            return false;
        }
        i = i + 1;
    }
}

/// Lexicographic order is total: any two sequences are comparable.
pub proof fn lemma_lex_le_total(a: Seq<char>, b: Seq<char>)
    ensures
        lex_le(a, b) || lex_le(b, a),
    decreases a.len(),
{
    if a.len() == 0 || b.len() == 0 {
    } else if (a[0] as u32) == (b[0] as u32) {
        lemma_lex_le_total(a.skip(1), b.skip(1));
    }
}

/// Compares two strings for equality of their character sequences.
pub fn str_eq(a: &str, b: &str) -> (r: bool)
    ensures
        r == (a@ == b@),
{
    let a_len: usize = a.unicode_len();
    let b_len: usize = b.unicode_len();
    if a_len != b_len {
        return false;
    }
    let mut i: usize = 0;
    while i < a_len
        invariant
            i <= a_len,
            a_len == a@.len(),
            a_len == b@.len(),
            forall|j: int| 0 <= j < i ==> a@[j] == b@[j],
        decreases a_len - i,
    {
        if a.get_char(i) != b.get_char(i) {
            return false;
        }
        i = i + 1;
    }
    proof {
        assert(a@ =~= b@);
    }
    true
}

/// Whether `p` is a prefix of `s`.
pub open spec fn spec_starts_with(s: Seq<char>, p: Seq<char>) -> bool {
    p.len() <= s.len() && s.subrange(0, p.len() as int) == p
}

/// Tests whether `s` starts with the prefix `p`.
pub fn starts_with(s: &str, p: &str) -> (r: bool)
    ensures
        r == spec_starts_with(s@, p@),
{
    let s_len: usize = s.unicode_len();
    let p_len: usize = p.unicode_len();
    if p_len > s_len {
        return false;
    }
    let mut i: usize = 0;
    while i < p_len
        invariant
            i <= p_len <= s_len,
            s_len == s@.len(),
            p_len == p@.len(),
            forall|j: int| 0 <= j < i ==> s@[j] == p@[j],
        decreases p_len - i,
    {
        if s.get_char(i) != p.get_char(i) {
            proof {
                assert(s@.subrange(0, p@.len() as int)[i as int] != p@[i as int]);
            }
            return false;
        }
        i = i + 1;
    }
    proof {
        assert(s@.subrange(0, p@.len() as int) =~= p@);
    }
    true
}

/// Whether `n` occurs as a contiguous subsequence of `s`.
pub open spec fn spec_contains_sub(s: Seq<char>, n: Seq<char>) -> bool {
    exists|i: int|
        0 <= i && i + n.len() <= s.len() && #[trigger] s.subrange(i, i + n.len() as int) == n
}

/// Tests whether `s` contains `n` as a substring.
pub fn contains_sub(s: &str, n: &str) -> (r: bool)
    ensures
        r == spec_contains_sub(s@, n@),
{
    let s_len: usize = s.unicode_len();
    let n_len: usize = n.unicode_len();
    if n_len > s_len {
        return false;
    }
    if n_len == 0 {
        proof {
            assert(s@.subrange(0, 0 + n@.len() as int) =~= n@);
        }
        return true;
    }
    let mut i: usize = 0;
    while i <= s_len - n_len
        invariant
            s_len == s@.len(),
            n_len == n@.len(),
            n_len <= s_len,
            1 <= n_len,
            i <= s_len - n_len + 1,
            forall|k: int| 0 <= k < i ==> #[trigger] s@.subrange(k, k + n@.len() as int) != n@,
        decreases s_len - n_len + 1 - i,
    {
        let mut j: usize = 0;
        let mut matched = true;
        while j < n_len
            invariant
                j <= n_len,
                i + n_len <= s_len,
                s_len == s@.len(),
                n_len == n@.len(),
                matched ==> forall|k: int| 0 <= k < j ==> s@[i + k] == n@[k],
                !matched ==> s@.subrange(i as int, i + n@.len() as int) != n@,
            ensures
                matched ==> forall|k: int| 0 <= k < n@.len() ==> s@[i + k] == n@[k],
                !matched ==> s@.subrange(i as int, i + n@.len() as int) != n@,
            decreases n_len - j,
        {
            if s.get_char(i + j) != n.get_char(j) {
                matched = false;
                proof {
                    assert(s@.subrange(i as int, i + n@.len() as int)[j as int] != n@[j as int]);
                }
                break;
            }
            j = j + 1;
        }
        if matched {
            proof {
                assert(s@.subrange(i as int, i + n@.len() as int) =~= n@);
            }
            return true;
        }
        proof {
            assert(s@.subrange(i as int, i + n@.len() as int) != n@);
        }
        i = i + 1;
    }
    proof {
        assert forall|k: int| 0 <= k && k + n@.len() <= s@.len() implies #[trigger] s@.subrange(
            k,
            k + n@.len() as int,
        ) != n@ by {
            assert(k < i);
        }
    }
    false
}

/// An ASCII whitespace character: space, tab, line feed or carriage return.
pub open spec fn is_ascii_space(c: char) -> bool {
    c == ' ' || c == '\t' || c == '\n' || c == '\r'
}

/// `s` with leading whitespace removed.
pub open spec fn spec_trim_start(s: Seq<char>) -> Seq<char>
    decreases s.len(),
{
    if s.len() > 0 && is_ascii_space(s[0]) {
        spec_trim_start(s.skip(1))
    } else {
        s
    }
}

/// `s` with trailing whitespace removed.
pub open spec fn spec_trim_end(s: Seq<char>) -> Seq<char>
    decreases s.len(),
{
    if s.len() > 0 && is_ascii_space(s[s.len() - 1]) {
        spec_trim_end(s.take(s.len() - 1))
    } else {
        s
    }
}

/// `s` with leading and trailing ASCII whitespace removed.
pub open spec fn spec_trim(s: Seq<char>) -> Seq<char> {
    spec_trim_end(spec_trim_start(s))
}

fn is_space_char(c: char) -> (r: bool)
    ensures
        r == is_ascii_space(c),
{
    c == ' ' || c == '\t' || c == '\n' || c == '\r'
}

/// Removes leading and trailing ASCII whitespace.
pub fn trim(s: &str) -> (r: String)
    ensures
        r@ == spec_trim(s@),
{
    let len: usize = s.unicode_len();
    let mut lo: usize = 0;
    proof {
        assert(s@.skip(0) =~= s@);
    }
    while lo < len && is_space_char(s.get_char(lo))
        invariant
            lo <= len,
            len == s@.len(),
            spec_trim_start(s@) == spec_trim_start(s@.skip(lo as int)),
        decreases len - lo,
    {
        proof {
            assert(s@.skip(lo as int)[0] == s@[lo as int]);
            assert(s@.skip(lo as int).skip(1) =~= s@.skip(lo + 1));
        }
        lo = lo + 1;
    }
    proof {
        if lo < len {
            assert(s@.skip(lo as int)[0] == s@[lo as int]);
        }
        assert(spec_trim_start(s@.skip(lo as int)) == s@.skip(lo as int));
    }
    let mut hi: usize = len;
    proof {
        assert(s@.skip(lo as int).take((len - lo) as int) =~= s@.skip(lo as int));
    }
    while hi > lo && is_space_char(s.get_char(hi - 1))
        invariant
            lo <= hi <= len,
            len == s@.len(),
            spec_trim_start(s@) == s@.skip(lo as int),
            spec_trim_end(s@.skip(lo as int)) == spec_trim_end(
                s@.skip(lo as int).take(hi - lo as int),
            ),
        decreases hi,
    {
        proof {
            let t = s@.skip(lo as int).take(hi - lo as int);
            assert(t[t.len() - 1] == s@[hi - 1]);
            assert(t.take(t.len() - 1) =~= s@.skip(lo as int).take(hi - 1 - lo as int));
        }
        hi = hi - 1;
    }
    proof {
        let t = s@.skip(lo as int).take(hi - lo as int);
        if hi > lo {
            assert(t[t.len() - 1] == s@[hi - 1]);
        }
        assert(spec_trim_end(t) == t);
        assert(t =~= s@.subrange(lo as int, hi as int));
    }
    s.substring_char(lo, hi).to_owned()
}

/// The lowercase form of an ASCII capital letter; any other character is
/// kept as it is.
pub open spec fn lower_char(c: char) -> char {
    if c == 'A' {
        'a'
    } else if c == 'B' {
        'b'
    } else if c == 'C' {
        'c'
    } else if c == 'D' {
        'd'
    } else if c == 'E' {
        'e'
    } else if c == 'F' {
        'f'
    } else if c == 'G' {
        'g'
    } else if c == 'H' {
        'h'
    } else if c == 'I' {
        'i'
    } else if c == 'J' {
        'j'
    } else if c == 'K' {
        'k'
    } else if c == 'L' {
        'l'
    } else if c == 'M' {
        'm'
    } else if c == 'N' {
        'n'
    } else if c == 'O' {
        'o'
    } else if c == 'P' {
        'p'
    } else if c == 'Q' {
        'q'
    } else if c == 'R' {
        'r'
    } else if c == 'S' {
        's'
    } else if c == 'T' {
        't'
    } else if c == 'U' {
        'u'
    } else if c == 'V' {
        'v'
    } else if c == 'W' {
        'w'
    } else if c == 'X' {
        'x'
    } else if c == 'Y' {
        'y'
    } else if c == 'Z' {
        'z'
    } else {
        c
    }
}

/// `s` with every ASCII capital letter lowered.
pub open spec fn spec_ascii_lower(s: Seq<char>) -> Seq<char>
    decreases s.len(),
{
    if s.len() == 0 {
        Seq::empty()
    } else {
        spec_ascii_lower(s.drop_last()).push(lower_char(s.last()))
    }
}

fn lower_ascii_str(c: char) -> (r: Option<&'static str>)
    ensures
        (r is Some) <==> c != lower_char(c),
        r is Some ==> r->Some_0@ == seq![lower_char(c)],
{
    let r = match c {
        'A' => Some("a"),
        'B' => Some("b"),
        'C' => Some("c"),
        'D' => Some("d"),
        'E' => Some("e"),
        'F' => Some("f"),
        'G' => Some("g"),
        'H' => Some("h"),
        'I' => Some("i"),
        'J' => Some("j"),
        'K' => Some("k"),
        'L' => Some("l"),
        'M' => Some("m"),
        'N' => Some("n"),
        'O' => Some("o"),
        'P' => Some("p"),
        'Q' => Some("q"),
        'R' => Some("r"),
        'S' => Some("s"),
        'T' => Some("t"),
        'U' => Some("u"),
        'V' => Some("v"),
        'W' => Some("w"),
        'X' => Some("x"),
        'Y' => Some("y"),
        'Z' => Some("z"),
        _ => None,
    };
    proof {
        reveal_strlit("a");
        reveal_strlit("b");
        reveal_strlit("c");
        reveal_strlit("d");
        reveal_strlit("e");
        reveal_strlit("f");
        reveal_strlit("g");
        reveal_strlit("h");
        reveal_strlit("i");
        reveal_strlit("j");
        reveal_strlit("k");
        reveal_strlit("l");
        reveal_strlit("m");
        reveal_strlit("n");
        reveal_strlit("o");
        reveal_strlit("p");
        reveal_strlit("q");
        reveal_strlit("r");
        reveal_strlit("s");
        reveal_strlit("t");
        reveal_strlit("u");
        reveal_strlit("v");
        reveal_strlit("w");
        reveal_strlit("x");
        reveal_strlit("y");
        reveal_strlit("z");
        if r is Some {
            assert(r->Some_0@ =~= seq![lower_char(c)]);
        }
    }
    r
}

/// Lowers every ASCII capital letter of `s`.
pub fn ascii_lower(s: &str) -> (r: String)
    ensures
        r@ == spec_ascii_lower(s@),
{
    let len: usize = s.unicode_len();
    let mut out = String::new();
    let mut i: usize = 0;
    proof {
        assert(s@.take(0) =~= Seq::<char>::empty());
        assert(out@ =~= spec_ascii_lower(s@.take(0)));
    }
    while i < len
        invariant
            i <= len,
            len == s@.len(),
            out@ == spec_ascii_lower(s@.take(i as int)),
        decreases len - i,
    {
        proof {
            assert(s@.take(i + 1).drop_last() =~= s@.take(i as int));
            assert(s@.take(i + 1).last() == s@[i as int]);
        }
        let c = s.get_char(i);
        match lower_ascii_str(c) {
            Some(l) => {
                out.append(l);
                proof {
                    assert(out@ =~= spec_ascii_lower(s@.take(i + 1)));
                }
            },
            None => {
                let piece = s.substring_char(i, i + 1);
                proof {
                    assert(piece@ =~= seq![s@[i as int]]);
                }
                out.append(piece);
                proof {
                    assert(out@ =~= spec_ascii_lower(s@.take(i + 1)));
                }
            },
        }
        i = i + 1;
    }
    proof {
        assert(s@.take(len as int) =~= s@);
    }
    out
}

/// `s` with every trailing occurrence of `c` removed.
pub open spec fn spec_trim_end_char(s: Seq<char>, c: char) -> Seq<char>
    decreases s.len(),
{
    if s.len() > 0 && s[s.len() - 1] == c {
        spec_trim_end_char(s.take(s.len() - 1), c)
    } else {
        s
    }
}

/// Removes every trailing occurrence of `c`.
pub fn trim_end_char(s: &str, c: char) -> (r: String)
    ensures
        r@ == spec_trim_end_char(s@, c),
{
    let len: usize = s.unicode_len();
    let mut hi: usize = len;
    proof {
        assert(s@.take(len as int) =~= s@);
    }
    while hi > 0 && s.get_char(hi - 1) == c
        invariant
            hi <= len,
            len == s@.len(),
            spec_trim_end_char(s@, c) == spec_trim_end_char(s@.take(hi as int), c),
        decreases hi,
    {
        proof {
            let t = s@.take(hi as int);
            assert(t[t.len() - 1] == s@[hi - 1]);
            assert(t.take(t.len() - 1) =~= s@.take(hi - 1));
        }
        hi = hi - 1;
    }
    proof {
        let t = s@.take(hi as int);
        if hi > 0 {
            assert(t[t.len() - 1] == s@[hi - 1]);
        }
        assert(spec_trim_end_char(t, c) == t);
        assert(t =~= s@.subrange(0, hi as int));
    }
    s.substring_char(0, hi).to_owned()
}

/// The tokens of `s` between occurrences of the separator `sep`, in order.
/// A sequence with no separator yields one token; adjacent separators yield
/// empty tokens, as `str::split` does.
pub open spec fn spec_split(s: Seq<char>, sep: char) -> Seq<Seq<char>>
    decreases s.len(),
{
    if s.len() == 0 {
        seq![Seq::<char>::empty()]
    } else if s[0] == sep {
        seq![Seq::<char>::empty()] + spec_split(s.skip(1), sep)
    } else {
        let rest = spec_split(s.skip(1), sep);
        seq![seq![s[0]] + rest[0]] + rest.skip(1)
    }
}

/// Splitting always yields at least one token.
pub proof fn lemma_split_len(s: Seq<char>, sep: char)
    ensures
        spec_split(s, sep).len() >= 1,
    decreases s.len(),
{
    if s.len() > 0 {
        lemma_split_len(s.skip(1), sep);
    }
}

/// The first token of `toks` extended on the left with `p`.
pub open spec fn prepend_first(p: Seq<char>, toks: Seq<Seq<char>>) -> Seq<Seq<char>>
    recommends
        toks.len() >= 1,
{
    seq![p + toks[0]] + toks.skip(1)
}

/// Splits `s` on the separator character `sep`.
pub fn split_on(s: &str, sep: char) -> (r: Vec<String>)
    ensures
        r.deep_view() == spec_split(s@, sep),
{
    let len: usize = s.unicode_len();
    let mut out: Vec<String> = Vec::new();
    let mut start: usize = 0;
    let mut i: usize = 0;
    proof {
        assert(s@.skip(0) =~= s@);
        assert(s@.subrange(0, 0) =~= Seq::<char>::empty());
        lemma_split_len(s@, sep);
        assert(prepend_first(Seq::<char>::empty(), spec_split(s@, sep)) =~= spec_split(s@, sep));
    }
    while i < len
        invariant
            start <= i <= len,
            len == s@.len(),
            spec_split(s@, sep) =~= out.deep_view() + prepend_first(
                s@.subrange(start as int, i as int),
                spec_split(s@.skip(i as int), sep),
            ),
        decreases len - i,
    {
        let c = s.get_char(i);
        proof {
            assert(s@.skip(i as int)[0] == s@[i as int]);
            assert(s@.skip(i as int).skip(1) =~= s@.skip(i + 1));
            lemma_split_len(s@.skip(i + 1), sep);
        }
        if c == sep {
            let tok = s.substring_char(start, i).to_owned();
            proof {
                let toks = spec_split(s@.skip(i + 1), sep);
                assert(spec_split(s@.skip(i as int), sep) =~= seq![Seq::<char>::empty()] + toks);
                assert(prepend_first(
                    s@.subrange(start as int, i as int),
                    seq![Seq::<char>::empty()] + toks,
                ) =~= seq![s@.subrange(start as int, i as int)] + toks);
                assert(s@.subrange(i + 1, i + 1) =~= Seq::<char>::empty());
                assert(prepend_first(Seq::<char>::empty(), toks) =~= toks);
                assert(out.deep_view().push(tok@) =~= out.deep_view() + seq![
                    s@.subrange(start as int, i as int),
                ]);
            }
            out.push(tok);
            start = i + 1;
        } else {
            proof {
                let toks = spec_split(s@.skip(i + 1), sep);
                assert(spec_split(s@.skip(i as int), sep) =~= prepend_first(
                    seq![s@[i as int]],
                    toks,
                ));
                assert(s@.subrange(start as int, i as int) + (seq![s@[i as int]] + toks[0])
                    =~= s@.subrange(start as int, i + 1) + toks[0]);
                assert(prepend_first(
                    s@.subrange(start as int, i as int),
                    prepend_first(seq![s@[i as int]], toks),
                ) =~~= prepend_first(s@.subrange(start as int, i + 1), toks));
            }
        }
        i = i + 1;
    }
    let tok = s.substring_char(start, len).to_owned();
    proof {
        assert(s@.skip(len as int).len() == 0);
        assert(spec_split(s@.skip(len as int), sep) =~= seq![Seq::<char>::empty()]);
        assert(prepend_first(s@.subrange(start as int, len as int), seq![Seq::<char>::empty()])
            =~= seq![s@.subrange(start as int, len as int)]);
        assert(out.deep_view().push(tok@) =~= out.deep_view() + seq![
            s@.subrange(start as int, len as int),
        ]);
    }
    out.push(tok);
    out
}

/// Lexicographic order is transitive.
pub proof fn lemma_lex_le_trans(a: Seq<char>, b: Seq<char>, c: Seq<char>)
    requires
        lex_le(a, b),
        lex_le(b, c),
    ensures
        lex_le(a, c),
    decreases a.len(),
{
    if a.len() == 0 {
    } else if b.len() == 0 {
    } else if c.len() == 0 {
    } else {
        if (a[0] as u32) == (b[0] as u32) && (b[0] as u32) == (c[0] as u32) {
            lemma_lex_le_trans(a.skip(1), b.skip(1), c.skip(1));
        }
    }
}

} // verus!
