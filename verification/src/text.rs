//! Character-sequence utilities shared by the parsers.
//!
//! Strings are reasoned about through their view, the sequence of their
//! `char`s.
use vstd::prelude::*;

verus! {

/// `String::push` appends one character.
pub assume_specification[ String::push ](s: &mut String, ch: char)
    ensures
        final(s)@ == old(s)@.push(ch),
;

/// `p` occurs in `s` starting at index `i`.
pub open spec fn matches_at(s: Seq<char>, p: Seq<char>, i: int) -> bool {
    0 <= i && i + p.len() <= s.len() && s.subrange(i, i + p.len()) == p
}

/// `p` occurs somewhere in `s` (the empty pattern occurs everywhere).
pub open spec fn contains_seq(s: Seq<char>, p: Seq<char>) -> bool {
    exists|i: int| matches_at(s, p, i)
}

/// `s` begins with `p`.
pub open spec fn starts_with_seq(s: Seq<char>, p: Seq<char>) -> bool {
    matches_at(s, p, 0)
}

/// The characters of a string slice, in order.
pub fn chars_of(s: &str) -> (v: Vec<char>)
    ensures
        v@ == s@,
{
    let n = s.unicode_len();
    let mut v: Vec<char> = Vec::new();
    let mut i: usize = 0;
    while i < n
        invariant
            n == s@.len(),
            i <= n,
            v@ == s@.take(i as int),
        decreases n - i,
    {
        v.push(s.get_char(i));
        i = i + 1;
        assert(v@ =~= s@.take(i as int));
    }
    assert(s@.take(n as int) =~= s@);
    v
}

/// A string made of the given characters.
pub fn string_of(v: &[char]) -> (s: String)
    ensures
        s@ == v@,
{
    let mut s = String::new();
    let mut i: usize = 0;
    while i < v.len()
        invariant
            i <= v@.len(),
            s@ == v@.take(i as int),
        decreases v@.len() - i,
    {
        s.push(v[i]);
        i = i + 1;
        assert(s@ =~= v@.take(i as int));
    }
    assert(v@.take(v@.len() as int) =~= v@);
    s
}

/// Whether `p` occurs in `s` at index `i`.
pub fn matches_at_exec(s: &[char], p: &[char], i: usize) -> (b: bool)
    ensures
        b == matches_at(s@, p@, i as int),
{
    if i > s.len() || p.len() > s.len() - i {
        return false;
    }
    let mut j: usize = 0;
    while j < p.len()
        invariant
            i + p@.len() <= s@.len(),
            s@.len() == s.len(),
            p@.len() == p.len(),
            j <= p@.len(),
            forall|k: int| 0 <= k < j ==> s@[i + k] == p@[k],
        decreases p@.len() - j,
    {
        if s[i + j] != p[j] {
            assert(s@.subrange(i as int, i + p@.len())[j as int] != p@[j as int]);
            return false;
        }
        j = j + 1;
    }
    assert(s@.subrange(i as int, i + p@.len()) =~= p@);
    true
}

/// Whether `p` occurs anywhere in `s`.
pub fn contains_exec(s: &[char], p: &[char]) -> (b: bool)
    ensures
        b == contains_seq(s@, p@),
{
    if p.len() > s.len() {
        assert forall|i: int| !matches_at(s@, p@, i) by {}
        return false;
    }
    let last = s.len() - p.len();
    let mut i: usize = 0;
    while i < last
        invariant
            last == s@.len() - p@.len(),
            i <= last,
            forall|k: int| 0 <= k < i ==> !matches_at(s@, p@, k),
        decreases last - i,
    {
        if matches_at_exec(s, p, i) {
            return true;
        }
        i = i + 1;
    }
    if matches_at_exec(s, p, last) {
        return true;
    }
    assert forall|k: int| !matches_at(s@, p@, k) by {
        if 0 <= k < i {
        }
    }
    false
}

/// The pieces of `s` between non-overlapping occurrences of `sep`, found from
/// the left, with `cur` as the beginning of the first piece.
pub open spec fn split_from(s: Seq<char>, sep: Seq<char>, cur: Seq<char>) -> Seq<Seq<char>>
    decreases s.len(),
{
    if s.len() == 0 {
        seq![cur]
    } else if sep.len() > 0 && starts_with_seq(s, sep) {
        seq![cur] + split_from(s.skip(sep.len() as int), sep, Seq::empty())
    } else {
        split_from(s.skip(1), sep, cur.push(s[0]))
    }
}

/// `s` cut at every non-overlapping occurrence of `sep`, searched from the
/// left, as `str::split` does with a non-empty pattern.
pub open spec fn split_seq(s: Seq<char>, sep: Seq<char>) -> Seq<Seq<char>> {
    split_from(s, sep, Seq::empty())
}

/// The pieces joined with `sep` between two neighbours.
pub open spec fn join_seq(pieces: Seq<Seq<char>>, sep: Seq<char>) -> Seq<char>
    decreases pieces.len(),
{
    if pieces.len() == 0 {
        Seq::empty()
    } else if pieces.len() == 1 {
        pieces[0]
    } else {
        pieces[0] + sep + join_seq(pieces.drop_first(), sep)
    }
}

/// The pieces written one after the other.
pub open spec fn concat_seq(pieces: Seq<Seq<char>>) -> Seq<char>
    decreases pieces.len(),
{
    if pieces.len() == 0 {
        Seq::empty()
    } else {
        concat_seq(pieces.drop_last()) + pieces.last()
    }
}

/// Every non-overlapping occurrence of `pat` in `s`, searched from the left,
/// replaced by `rep`, as `str::replace` does with a non-empty pattern.
pub open spec fn replace_seq(s: Seq<char>, pat: Seq<char>, rep: Seq<char>) -> Seq<char>
    decreases s.len(),
{
    if s.len() == 0 {
        Seq::empty()
    } else if pat.len() > 0 && starts_with_seq(s, pat) {
        rep + replace_seq(s.skip(pat.len() as int), pat, rep)
    } else {
        seq![s[0]] + replace_seq(s.skip(1), pat, rep)
    }
}

/// The characters with the Unicode `White_Space` property, the set that
/// `char::is_whitespace` and the `trim` family of `str` use.
pub open spec fn is_white_space(c: char) -> bool {
    ||| ('\t' <= c && c <= '\r')
    ||| c == ' '
    ||| c == '\u{85}'
    ||| c == '\u{a0}'
    ||| c == '\u{1680}'
    ||| ('\u{2000}' <= c && c <= '\u{200a}')
    ||| c == '\u{2028}'
    ||| c == '\u{2029}'
    ||| c == '\u{202f}'
    ||| c == '\u{205f}'
    ||| c == '\u{3000}'
}

/// Every character of `s` is white space (so `s.trim()` is empty).
pub open spec fn all_white_space(s: Seq<char>) -> bool {
    forall|i: int| 0 <= i < s.len() ==> is_white_space(#[trigger] s[i])
}

/// `s` without its leading white space, as `str::trim_start` returns it.
pub open spec fn trim_start_seq(s: Seq<char>) -> Seq<char>
    decreases s.len(),
{
    if s.len() > 0 && is_white_space(s[0]) {
        trim_start_seq(s.skip(1))
    } else {
        s
    }
}

/// The character of the decimal digit `d`.
pub open spec fn digit_char(d: nat) -> char {
    ((48 + d) as u8) as char
}

/// The decimal numeral of `n`, without leading zeros.
pub open spec fn decimal_seq(n: nat) -> Seq<char>
    decreases n,
{
    if n < 10 {
        seq![digit_char(n)]
    } else {
        decimal_seq(n / 10).push(digit_char(n % 10))
    }
}

/// A piece cut by `split_from` is always produced: the result is never empty.
pub proof fn lemma_split_from_nonempty(s: Seq<char>, sep: Seq<char>, cur: Seq<char>)
    ensures
        split_from(s, sep, cur).len() >= 1,
    decreases s.len(),
{
    if s.len() == 0 {
    } else if sep.len() > 0 && starts_with_seq(s, sep) {
        lemma_split_from_nonempty(s.skip(sep.len() as int), sep, Seq::empty());
    } else {
        lemma_split_from_nonempty(s.skip(1), sep, cur.push(s[0]));
    }
}

/// Joining after one more piece adds the separator and that piece.
pub proof fn lemma_join_push(pieces: Seq<Seq<char>>, sep: Seq<char>, x: Seq<char>)
    requires
        pieces.len() >= 1,
    ensures
        join_seq(pieces.push(x), sep) == join_seq(pieces, sep) + sep + x,
    decreases pieces.len(),
{
    if pieces.len() == 1 {
        let px = pieces.push(x);
        assert(px.drop_first() =~= seq![x]);
        assert(px.len() == 2);
        assert(px[0] == pieces[0]);
        assert(join_seq(seq![x], sep) == x);
        assert(join_seq(px, sep) == pieces[0] + sep + join_seq(px.drop_first(), sep));
    } else {
        lemma_join_push(pieces.drop_first(), sep, x);
        assert(pieces.push(x).drop_first() =~= pieces.drop_first().push(x));
        assert(join_seq(pieces.push(x), sep) =~= pieces[0] + sep + join_seq(pieces.drop_first().push(x), sep));
        assert(join_seq(pieces.push(x), sep) =~= join_seq(pieces, sep) + sep + x);
    }
}

proof fn lemma_join_split_from(s: Seq<char>, sep: Seq<char>, cur: Seq<char>)
    requires
        sep.len() > 0,
    ensures
        join_seq(split_from(s, sep, cur), sep) == cur + s,
    decreases s.len(),
{
    if s.len() == 0 {
        assert(cur + s =~= cur);
    } else if starts_with_seq(s, sep) {
        let rest = s.skip(sep.len() as int);
        lemma_join_split_from(rest, sep, Seq::empty());
        lemma_split_from_nonempty(rest, sep, Seq::empty());
        let r = split_from(rest, sep, Seq::empty());
        let all = seq![cur] + r;
        assert(all.drop_first() =~= r);
        assert(all[0] == cur);
        assert(Seq::<char>::empty() + rest =~= rest);
        assert(s =~= sep + rest);
        assert(join_seq(all, sep) == cur + sep + join_seq(r, sep));
        assert(cur + sep + rest =~= cur + s);
    } else {
        lemma_join_split_from(s.skip(1), sep, cur.push(s[0]));
        assert(cur.push(s[0]) + s.skip(1) =~= cur + s);
    }
}

/// Splitting at a non-empty separator and joining the pieces again with it
/// gives back the text that was split.
pub proof fn lemma_join_split(s: Seq<char>, sep: Seq<char>)
    requires
        sep.len() > 0,
    ensures
        join_seq(split_seq(s, sep), sep) == s,
{
    lemma_join_split_from(s, sep, Seq::empty());
    assert(Seq::<char>::empty() + s =~= s);
}

/// Splitting cuts at most one piece more than there are separators, and each
/// separator takes `sep.len()` characters.
pub proof fn lemma_split_count(s: Seq<char>, sep: Seq<char>, cur: Seq<char>)
    requires
        sep.len() > 0,
    ensures
        (split_from(s, sep, cur).len() - 1) * sep.len() <= s.len(),
    decreases s.len(),
{
    if s.len() == 0 {
        assert(split_from(s, sep, cur).len() == 1);
        assert((1 - 1) * sep.len() == 0) by (nonlinear_arith);
    } else if starts_with_seq(s, sep) {
        lemma_split_count(s.skip(sep.len() as int), sep, Seq::empty());
        let k = split_from(s.skip(sep.len() as int), sep, Seq::empty()).len() as int;
        let m = sep.len() as int;
        assert(split_from(s, sep, cur).len() == k + 1);
        assert(s.skip(m).len() == s.len() - m);
        assert((k - 1) * m <= s.len() - m);
        assert(k * m == (k - 1) * m + m) by (nonlinear_arith);
        assert((split_from(s, sep, cur).len() - 1) * m == k * m);
    } else {
        lemma_split_count(s.skip(1), sep, cur.push(s[0]));
        assert(split_from(s, sep, cur) == split_from(s.skip(1), sep, cur.push(s[0])));
    }
}

/// `s` cut at every non-overlapping occurrence of the non-empty `sep`.
pub fn split_chars(s: &[char], sep: &[char]) -> (pieces: Vec<String>)
    requires
        sep@.len() > 0,
    ensures
        pieces.deep_view() == split_seq(s@, sep@),
{
    let mut pieces: Vec<String> = Vec::new();
    let mut cur: Vec<char> = Vec::new();
    let mut i: usize = 0;
    assert(s@.skip(0) =~= s@);
    assert(pieces.deep_view() + split_from(s@.skip(0), sep@, cur@) =~= split_seq(s@, sep@));
    while i < s.len()
        invariant
            sep@.len() > 0,
            i <= s@.len(),
            pieces.deep_view() + split_from(s@.skip(i as int), sep@, cur@) == split_seq(s@, sep@),
        decreases s@.len() - i,
    {
        let ghost rest = s@.skip(i as int);
        let ghost before = pieces.deep_view();
        if matches_at_exec(s, sep, i) {
            assert(rest.subrange(0, sep@.len() as int) =~= s@.subrange(i as int, i + sep@.len()));
            assert(rest.skip(sep@.len() as int) =~= s@.skip(i + sep@.len()));
            let piece = string_of(cur.as_slice());
            pieces.push(piece);
            assert(pieces.deep_view() =~= before.push(cur@));
            cur = Vec::new();
            i = i + sep.len();
            assert(before + (seq![piece@] + split_from(s@.skip(i as int), sep@, Seq::empty()))
                =~= pieces.deep_view() + split_from(s@.skip(i as int), sep@, cur@));
        } else {
            assert(!starts_with_seq(rest, sep@)) by {
                if starts_with_seq(rest, sep@) {
                    assert(rest.subrange(0, sep@.len() as int) =~= s@.subrange(i as int, i + sep@.len()));
                }
            }
            assert(rest.skip(1) =~= s@.skip(i + 1));
            assert(rest[0] == s@[i as int]);
            cur.push(s[i]);
            i = i + 1;
        }
    }
    assert(s@.skip(i as int).len() == 0);
    let last = string_of(cur.as_slice());
    let ghost before = pieces.deep_view();
    pieces.push(last);
    assert(pieces.deep_view() =~= before + seq![cur@]);
    pieces
}

/// `s` cut at every non-overlapping occurrence of the non-empty `sep`.
pub fn split_str(s: &str, sep: &str) -> (pieces: Vec<String>)
    requires
        sep@.len() > 0,
    ensures
        pieces.deep_view() == split_seq(s@, sep@),
{
    let sc = chars_of(s);
    let pc = chars_of(sep);
    split_chars(sc.as_slice(), pc.as_slice())
}

/// The pieces `from..` written one after the other.
pub fn concat_from(pieces: &Vec<String>, from: usize) -> (r: String)
    requires
        from <= pieces@.len(),
    ensures
        r@ == concat_seq(pieces.deep_view().skip(from as int)),
{
    let ghost dv = pieces.deep_view();
    let mut r = String::new();
    let mut i: usize = from;
    assert(dv.subrange(from as int, from as int) =~= Seq::<Seq<char>>::empty());
    while i < pieces.len()
        invariant
            dv == pieces.deep_view(),
            from <= i <= pieces@.len(),
            r@ == concat_seq(dv.subrange(from as int, i as int)),
        decreases pieces@.len() - i,
    {
        r.append(pieces[i].as_str());
        i = i + 1;
        assert(dv.subrange(from as int, i as int).drop_last() =~= dv.subrange(from as int, i - 1));
    }
    assert(dv.subrange(from as int, i as int) =~= dv.skip(from as int));
    r
}

/// Every non-overlapping occurrence of the non-empty `pat` in `s` replaced by
/// `rep`.
pub fn replace_chars(s: &[char], pat: &[char], rep: &str) -> (r: String)
    requires
        pat@.len() > 0,
    ensures
        r@ == replace_seq(s@, pat@, rep@),
{
    let mut r = String::new();
    let mut i: usize = 0;
    assert(s@.skip(0) =~= s@);
    assert(r@ + replace_seq(s@.skip(0), pat@, rep@) =~= replace_seq(s@, pat@, rep@));
    while i < s.len()
        invariant
            pat@.len() > 0,
            i <= s@.len(),
            r@ + replace_seq(s@.skip(i as int), pat@, rep@) == replace_seq(s@, pat@, rep@),
        decreases s@.len() - i,
    {
        let ghost rest = s@.skip(i as int);
        let ghost before = r@;
        if matches_at_exec(s, pat, i) {
            assert(rest.subrange(0, pat@.len() as int) =~= s@.subrange(i as int, i + pat@.len()));
            assert(rest.skip(pat@.len() as int) =~= s@.skip(i + pat@.len()));
            r.append(rep);
            i = i + pat.len();
            assert(before + (rep@ + replace_seq(s@.skip(i as int), pat@, rep@))
                =~= r@ + replace_seq(s@.skip(i as int), pat@, rep@));
        } else {
            assert(!starts_with_seq(rest, pat@)) by {
                if starts_with_seq(rest, pat@) {
                    assert(rest.subrange(0, pat@.len() as int) =~= s@.subrange(i as int, i + pat@.len()));
                }
            }
            assert(rest.skip(1) =~= s@.skip(i + 1));
            r.push(s[i]);
            i = i + 1;
            assert(before + (seq![rest[0]] + replace_seq(s@.skip(i as int), pat@, rep@))
                =~= r@ + replace_seq(s@.skip(i as int), pat@, rep@));
        }
    }
    assert(r@ + replace_seq(s@.skip(i as int), pat@, rep@) =~= r@);
    r
}

/// Whether `c` is Unicode white space.
pub fn is_white_space_exec(c: char) -> (b: bool)
    ensures
        b == is_white_space(c),
{
    ('\t' <= c && c <= '\r') || c == ' ' || c == '\u{85}' || c == '\u{a0}' || c == '\u{1680}'
        || ('\u{2000}' <= c && c <= '\u{200a}') || c == '\u{2028}' || c == '\u{2029}'
        || c == '\u{202f}' || c == '\u{205f}' || c == '\u{3000}'
}

/// Whether every character of `s` is white space.
pub fn all_white_space_exec(s: &str) -> (b: bool)
    ensures
        b == all_white_space(s@),
{
    let v = chars_of(s);
    let mut i: usize = 0;
    while i < v.len()
        invariant
            v@ == s@,
            i <= v@.len(),
            forall|k: int| 0 <= k < i ==> is_white_space(#[trigger] v@[k]),
        decreases v@.len() - i,
    {
        if !is_white_space_exec(v[i]) {
            return false;
        }
        i = i + 1;
    }
    true
}

/// `s` without its leading white space.
pub fn trim_start_exec(s: &str) -> (r: String)
    ensures
        r@ == trim_start_seq(s@),
{
    let v = chars_of(s);
    let mut i: usize = 0;
    assert(s@.skip(0) =~= s@);
    while i < v.len() && is_white_space_exec(v[i])
        invariant
            v@ == s@,
            i <= v@.len(),
            trim_start_seq(s@) == trim_start_seq(s@.skip(i as int)),
        decreases v@.len() - i,
    {
        assert(s@.skip(i as int).skip(1) =~= s@.skip(i + 1));
        i = i + 1;
    }
    let tail = v.as_slice().split_at(i).1;
    assert(tail@ =~= s@.skip(i as int));
    string_of(tail)
}

/// Appends the decimal numeral of `n` to `out`.
pub fn push_decimal(out: &mut String, n: usize)
    ensures
        final(out)@ == old(out)@ + decimal_seq(n as nat),
    decreases n,
{
    if n >= 10 {
        push_decimal(out, n / 10);
    }
    let d: u8 = (n % 10) as u8;
    let c: char = (48u8 + d) as char;
    out.push(c);
    assert(c == digit_char((n % 10) as nat));
    if n >= 10 {
        assert(decimal_seq(n as nat) == decimal_seq((n / 10) as nat).push(digit_char((n % 10) as nat)));
        assert(out@ =~= old(out)@ + decimal_seq(n as nat));
    } else {
        assert(out@ =~= old(out)@ + decimal_seq(n as nat));
    }
}

/// The pieces joined with `sep` between two neighbours.
pub fn join_strings(pieces: &Vec<String>, sep: &str) -> (r: String)
    ensures
        r@ == join_seq(pieces.deep_view(), sep@),
{
    let ghost dv = pieces.deep_view();
    if pieces.len() == 0 {
        return String::new();
    }
    let mut r = String::new();
    r.append(pieces[0].as_str());
    let mut i: usize = 1;
    assert(dv.take(1) =~= seq![dv[0]]);
    while i < pieces.len()
        invariant
            dv == pieces.deep_view(),
            1 <= i <= pieces@.len(),
            r@ == join_seq(dv.take(i as int), sep@),
        decreases pieces@.len() - i,
    {
        proof {
            lemma_join_push(dv.take(i as int), sep@, dv[i as int]);
            assert(dv.take(i as int).push(dv[i as int]) =~= dv.take(i + 1));
        }
        r.append(sep);
        r.append(pieces[i].as_str());
        i = i + 1;
    }
    assert(dv.take(i as int) =~= dv);
    r
}

} // verus!
