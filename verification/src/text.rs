//! Text helpers: decimal rendering of integers.

use vstd::prelude::*;

verus! {

/// The ASCII digit for `d` (taken modulo nothing: callers pass `d < 10`).
pub open spec fn digit_char(d: nat) -> char {
    if d == 0 { '0' }
    else if d == 1 { '1' }
    else if d == 2 { '2' }
    else if d == 3 { '3' }
    else if d == 4 { '4' }
    else if d == 5 { '5' }
    else if d == 6 { '6' }
    else if d == 7 { '7' }
    else if d == 8 { '8' }
    else { '9' }
}

/// The decimal representation of `n`, most significant digit first, with no
/// leading zeros (`0` is written `"0"`).
pub open spec fn decimal(n: nat) -> Seq<char>
    decreases n,
{
    if n < 10 {
        seq![digit_char(n)]
    } else {
        decimal(n / 10).push(digit_char(n % 10))
    }
}

/// The one-character text of a digit.
fn digit_text(d: u64) -> (r: &'static str)
    requires
        d < 10,
    ensures
        r@ == seq![digit_char(d as nat)],
{
    if d == 0 {
        proof { reveal_strlit("0"); }
        assert("0"@ =~= seq!['0']);
        "0"
    } else if d == 1 {
        proof { reveal_strlit("1"); }
        assert("1"@ =~= seq!['1']);
        "1"
    } else if d == 2 {
        proof { reveal_strlit("2"); }
        assert("2"@ =~= seq!['2']);
        "2"
    } else if d == 3 {
        proof { reveal_strlit("3"); }
        assert("3"@ =~= seq!['3']);
        "3"
    } else if d == 4 {
        proof { reveal_strlit("4"); }
        assert("4"@ =~= seq!['4']);
        "4"
    } else if d == 5 {
        proof { reveal_strlit("5"); }
        assert("5"@ =~= seq!['5']);
        "5"
    } else if d == 6 {
        proof { reveal_strlit("6"); }
        assert("6"@ =~= seq!['6']);
        "6"
    } else if d == 7 {
        proof { reveal_strlit("7"); }
        assert("7"@ =~= seq!['7']);
        "7"
    } else if d == 8 {
        proof { reveal_strlit("8"); }
        assert("8"@ =~= seq!['8']);
        "8"
    } else {
        proof { reveal_strlit("9"); }
        assert("9"@ =~= seq!['9']);
        "9"
    }
}

/// Renders `n` in decimal.
pub fn decimal_text(n: u64) -> (r: String)
    ensures
        r@ == decimal(n as nat),
    decreases n,
{
    if n < 10 {
        String::from_str(digit_text(n))
    } else {
        let mut s = decimal_text(n / 10);
        s.append(digit_text(n % 10));
        s
    }
}

/// The characters of `s`, in order.
pub fn chars_of(s: &str) -> (r: Vec<char>)
    ensures
        r@ == s@,
{
    let mut r: Vec<char> = Vec::new();
    for c in it: s.chars()
        invariant
            r@ == it.seq().take(it.index() as int),
    {
        r.push(c);
    }
    r
}

/// The Unicode `White_Space` property, the set of characters that
/// `char::is_whitespace` and `str::trim` treat as white space.
pub open spec fn white_space(c: char) -> bool {
    let u = c as u32;
    ||| 0x09 <= u <= 0x0D
    ||| u == 0x20
    ||| u == 0x85
    ||| u == 0xA0
    ||| u == 0x1680
    ||| 0x2000 <= u <= 0x200A
    ||| u == 0x2028
    ||| u == 0x2029
    ||| u == 0x202F
    ||| u == 0x205F
    ||| u == 0x3000
}

/// Whether `c` has the Unicode `White_Space` property.
pub fn is_white_space(c: char) -> (r: bool)
    ensures
        r == white_space(c),
{
    let u = c as u32;
    (0x09 <= u && u <= 0x0D) || u == 0x20 || u == 0x85 || u == 0xA0 || u == 0x1680 || (0x2000
        <= u && u <= 0x200A) || u == 0x2028 || u == 0x2029 || u == 0x202F || u == 0x205F || u
        == 0x3000
}

/// `s` without its leading white space.
pub open spec fn trim_start(s: Seq<char>) -> Seq<char>
    decreases s.len(),
{
    if s.len() > 0 && white_space(s[0]) {
        trim_start(s.subrange(1, s.len() as int))
    } else {
        s
    }
}

/// `s` without its trailing white space.
pub open spec fn trim_end(s: Seq<char>) -> Seq<char>
    decreases s.len(),
{
    if s.len() > 0 && white_space(s.last()) {
        trim_end(s.drop_last())
    } else {
        s
    }
}

/// `s` without leading and trailing white space, as `str::trim` gives it.
pub open spec fn trim(s: Seq<char>) -> Seq<char> {
    trim_end(trim_start(s))
}

/// `s` with leading and trailing white space removed.
pub fn trim_text(s: &str) -> (r: String)
    ensures
        r@ == trim(s@),
{
    let chars = chars_of(s);
    let n = chars.len();
    let ghost cs = s@;
    let mut i: usize = 0;
    assert(cs.subrange(0, n as int) =~= cs);
    while i < n && is_white_space(chars[i])
        invariant
            0 <= i <= n,
            n == cs.len(),
            chars@ == cs,
            trim_start(cs) == trim_start(cs.subrange(i as int, n as int)),
        decreases n - i,
    {
        assert(cs.subrange(i as int, n as int).subrange(1, n - i) =~= cs.subrange(i + 1, n as int));
        i = i + 1;
    }
    let ghost t = cs.subrange(i as int, n as int);
    assert(trim_start(t) == t);
    let mut j: usize = n;
    while j > i && is_white_space(chars[j - 1])
        invariant
            i <= j <= n,
            n == cs.len(),
            chars@ == cs,
            t == cs.subrange(i as int, n as int),
            trim_end(t) == trim_end(cs.subrange(i as int, j as int)),
        decreases j - i,
    {
        assert(cs.subrange(i as int, j as int).drop_last() =~= cs.subrange(i as int, j - 1));
        j = j - 1;
    }
    let ghost u = cs.subrange(i as int, j as int);
    assert(trim_end(u) == u);
    String::from_str(s.substring_char(i, j))
}

/// Whether `s` is empty or all white space.
pub fn is_blank(s: &str) -> (r: bool)
    ensures
        r == (trim(s@).len() == 0),
{
    let t = trim_text(s);
    t.as_str().is_empty()
}

/// The pieces of `s` between commas, as `str::split(',')` yields them:
/// a string without commas is one piece, and every comma starts a new one.
pub open spec fn split_commas(s: Seq<char>) -> Seq<Seq<char>>
    decreases s.len(),
{
    if s.len() == 0 {
        seq![Seq::empty()]
    } else {
        let init = split_commas(s.drop_last());
        if s.last() == ',' {
            init.push(Seq::empty())
        } else {
            init.update(init.len() - 1, init.last().push(s.last()))
        }
    }
}

/// The trimmed pieces that are not empty, in order.
pub open spec fn nonblank_trimmed(pieces: Seq<Seq<char>>) -> Seq<Seq<char>>
    decreases pieces.len(),
{
    if pieces.len() == 0 {
        Seq::empty()
    } else {
        let init = nonblank_trimmed(pieces.drop_last());
        let t = trim(pieces.last());
        if t.len() > 0 {
            init.push(t)
        } else {
            init
        }
    }
}

/// The identifiers in a comma separated list: each piece trimmed, empty
/// pieces dropped.
pub open spec fn ids_in(s: Seq<char>) -> Seq<Seq<char>> {
    nonblank_trimmed(split_commas(s))
}

proof fn lemma_split_commas_nonempty(s: Seq<char>)
    ensures
        split_commas(s).len() >= 1,
    decreases s.len(),
{
    if s.len() > 0 {
        lemma_split_commas_nonempty(s.drop_last());
    }
}

/// Parses a comma separated list into its trimmed, non-empty items.
pub fn parse_ids(s: &str) -> (r: Vec<String>)
    ensures
        r.deep_view() == ids_in(s@),
{
    let chars = chars_of(s);
    let n = chars.len();
    let ghost cs = s@;
    let mut r: Vec<String> = Vec::new();
    let mut seg_start: usize = 0;
    let ghost mut done: Seq<Seq<char>> = Seq::empty();
    assert(cs.take(0) =~= Seq::<char>::empty());
    assert(cs.subrange(0, 0) =~= Seq::<char>::empty());
    assert(done.push(cs.subrange(0, 0)) =~= seq![Seq::<char>::empty()]);
    for i in 0..n
        invariant
            n == cs.len(),
            cs == s@,
            chars@ == cs,
            seg_start <= i,
            split_commas(cs.take(i as int)) == done.push(cs.subrange(seg_start as int, i as int)),
            r.deep_view() == nonblank_trimmed(done),
    {
        let ghost pre = cs.take(i as int);
        assert(cs.take(i + 1).drop_last() =~= pre);
        assert(cs.take(i + 1).last() == cs[i as int]);
        proof { lemma_split_commas_nonempty(pre); }
        if chars[i] == ',' {
            let piece = trim_text(s.substring_char(seg_start, i));
            proof {
                assert(done.push(cs.subrange(seg_start as int, i as int)).drop_last() =~= done);
                done = done.push(cs.subrange(seg_start as int, i as int));
            }
            if !piece.as_str().is_empty() {
                let ghost before = r.deep_view();
                r.push(piece);
                assert(r.deep_view() =~= before.push(piece@));
            }
            seg_start = i + 1;
            assert(cs.subrange(seg_start as int, i + 1) =~= Seq::<char>::empty());
        } else {
            assert(cs.subrange(seg_start as int, i as int).push(cs[i as int]) =~= cs.subrange(
                seg_start as int,
                i + 1,
            ));
        }
    }
    let piece = trim_text(s.substring_char(seg_start, n));
    assert(cs.take(n as int) =~= cs);
    proof {
        let all = done.push(cs.subrange(seg_start as int, n as int));
        assert(all.drop_last() =~= done);
    }
    if !piece.as_str().is_empty() {
        let ghost before = r.deep_view();
        r.push(piece);
        assert(r.deep_view() =~= before.push(piece@));
    }
    r
}

proof fn lemma_trim_start_shape(s: Seq<char>) -> (k: int)
    ensures
        0 <= k <= s.len(),
        trim_start(s) == s.subrange(k, s.len() as int),
        k < s.len() ==> !white_space(s[k]),
    decreases s.len(),
{
    if s.len() > 0 && white_space(s[0]) {
        let t = s.subrange(1, s.len() as int);
        let k1 = lemma_trim_start_shape(t);
        assert(t.subrange(k1, t.len() as int) =~= s.subrange(k1 + 1, s.len() as int));
        k1 + 1
    } else {
        assert(s.subrange(0, s.len() as int) =~= s);
        0
    }
}

proof fn lemma_trim_end_shape(s: Seq<char>) -> (k: int)
    ensures
        0 <= k <= s.len(),
        trim_end(s) == s.subrange(0, k),
        k > 0 ==> !white_space(s[k - 1]),
    decreases s.len(),
{
    if s.len() > 0 && white_space(s.last()) {
        let t = s.drop_last();
        let k1 = lemma_trim_end_shape(t);
        assert(t.subrange(0, k1) =~= s.subrange(0, k1));
        k1
    } else {
        assert(s.subrange(0, s.len() as int) =~= s);
        s.len() as int
    }
}

/// A trimmed text is a contiguous part of the given text that neither starts
/// nor ends with white space.
pub proof fn lemma_trim_shape(s: Seq<char>)
    ensures
        trim(s).len() > 0 ==> !white_space(trim(s)[0]) && !white_space(trim(s).last()),
        forall|k: int| 0 <= k < trim(s).len() ==> s.contains(#[trigger] trim(s)[k]),
        trim(trim(s)) == trim(s),
{
    let a = lemma_trim_start_shape(s);
    let t = trim_start(s);
    let b = lemma_trim_end_shape(t);
    let u = trim(s);
    assert forall|k: int| 0 <= k < u.len() implies s.contains(#[trigger] u[k]) by {
        assert(u[k] == s[a + k]);
    }
    // Trimming again removes nothing.
    let a2 = lemma_trim_start_shape(u);
    if u.len() > 0 {
        assert(u[0] == t[0]);
        assert(a2 == 0);
    }
    assert(u.subrange(a2, u.len() as int) =~= u);
    let b2 = lemma_trim_end_shape(trim_start(u));
    if u.len() > 0 {
        assert(b2 == u.len());
    }
    assert(u.subrange(0, b2) =~= u);
}

proof fn lemma_split_commas_no_commas(s: Seq<char>)
    ensures
        forall|i: int| 0 <= i < split_commas(s).len() ==> !(#[trigger] split_commas(s)[i]).contains(','),
    decreases s.len(),
{
    if s.len() > 0 {
        let init = split_commas(s.drop_last());
        lemma_split_commas_no_commas(s.drop_last());
        lemma_split_commas_nonempty(s.drop_last());
        if s.last() != ',' {
            let p = init.last().push(s.last());
            assert forall|i: int| 0 <= i < split_commas(s).len() implies !(
            #[trigger] split_commas(s)[i]).contains(',') by {
                if i == init.len() - 1 {
                    if p.contains(',') {
                        let k = choose|k: int| 0 <= k < p.len() && p[k] == ',';
                        if k < init.last().len() {
                            assert(init.last().contains(','));
                        }
                    }
                }
            }
        } else {
            assert forall|i: int| 0 <= i < split_commas(s).len() implies !(
            #[trigger] split_commas(s)[i]).contains(',') by {
                if i == init.len() {
                    assert(split_commas(s)[i] =~= Seq::<char>::empty());
                }
            }
        }
    }
}

proof fn lemma_nonblank_trimmed_clean(pieces: Seq<Seq<char>>)
    requires
        forall|i: int| 0 <= i < pieces.len() ==> !(#[trigger] pieces[i]).contains(','),
    ensures
        forall|i: int|
            0 <= i < nonblank_trimmed(pieces).len() ==> {
                let id = #[trigger] nonblank_trimmed(pieces)[i];
                &&& id.len() > 0
                &&& !id.contains(',')
                &&& trim(id) == id
            },
    decreases pieces.len(),
{
    if pieces.len() > 0 {
        let init = pieces.drop_last();
        assert forall|i: int| 0 <= i < init.len() implies !(#[trigger] init[i]).contains(',') by {
            assert(init[i] == pieces[i]);
        }
        lemma_nonblank_trimmed_clean(init);
        let last = pieces.last();
        assert(!pieces[pieces.len() - 1].contains(','));
        lemma_trim_shape(last);
        let t = trim(last);
        if t.contains(',') {
            let k = choose|k: int| 0 <= k < t.len() && t[k] == ',';
            assert(last.contains(t[k]));
        }
        let r = nonblank_trimmed(pieces);
        let ir = nonblank_trimmed(init);
        assert forall|i: int| 0 <= i < r.len() implies {
            let id = #[trigger] r[i];
            &&& id.len() > 0
            &&& !id.contains(',')
            &&& trim(id) == id
        } by {
            if i < ir.len() {
                assert(r[i] == ir[i]);
            } else {
                assert(r[i] == t);
            }
        }
    }
}

/// Every identifier that `parse_ids` yields is non-empty, holds no comma,
/// and is already trimmed.
pub proof fn lemma_ids_are_clean(s: Seq<char>)
    ensures
        forall|i: int|
            0 <= i < ids_in(s).len() ==> {
                let id = #[trigger] ids_in(s)[i];
                &&& id.len() > 0
                &&& !id.contains(',')
                &&& trim(id) == id
            },
{
    lemma_split_commas_no_commas(s);
    lemma_nonblank_trimmed_clean(split_commas(s));
}

/// Whether two texts are equal.
pub fn text_eq(a: &str, b: &str) -> (r: bool)
    ensures
        r == (a@ == b@),
{
    let x = chars_of(a);
    let y = chars_of(b);
    if x.len() != y.len() {
        return false;
    }
    for i in 0..x.len()
        invariant
            x@ == a@,
            y@ == b@,
            x@.len() == y@.len(),
            forall|k: int| 0 <= k < i ==> x@[k] == y@[k],
    {
        if x[i] != y[i] {
            return false;
        }
    }
    assert(x@ =~= y@);
    true
}

/// Whether `s` begins with `prefix`.
pub fn starts_with(s: &str, prefix: &str) -> (r: bool)
    ensures
        r == has_prefix(s@, prefix@),
{
    let x = chars_of(s);
    let p = chars_of(prefix);
    if p.len() > x.len() {
        return false;
    }
    for i in 0..p.len()
        invariant
            x@ == s@,
            p@ == prefix@,
            p@.len() <= x@.len(),
            forall|k: int| 0 <= k < i ==> x@[k] == p@[k],
    {
        if x[i] != p[i] {
            return false;
        }
    }
    assert(s@.subrange(0, prefix@.len() as int) =~= prefix@);
    true
}

/// Whether `s` ends with `suffix`.
pub fn ends_with(s: &str, suffix: &str) -> (r: bool)
    ensures
        r == has_suffix(s@, suffix@),
{
    let x = chars_of(s);
    let p = chars_of(suffix);
    if p.len() > x.len() {
        return false;
    }
    let off = x.len() - p.len();
    let plen = p.len();
    for i in 0..plen
        invariant
            plen == p@.len(),
            x@.len() <= usize::MAX,
            x@ == s@,
            p@ == suffix@,
            p@.len() <= x@.len(),
            off == x@.len() - p@.len(),
            forall|k: int| 0 <= k < i ==> x@[off + k] == p@[k],
    {
        if x[off + i] != p[i] {
            assert(s@.subrange(off as int, s@.len() as int)[i as int] == x@[off + i]);
            return false;
        }
    }
    assert(s@.subrange(off as int, s@.len() as int) =~= suffix@);
    true
}

/// `s` begins with `p`.
pub open spec fn has_prefix(s: Seq<char>, p: Seq<char>) -> bool {
    p.len() <= s.len() && s.subrange(0, p.len() as int) == p
}

/// `s` ends with `p`.
pub open spec fn has_suffix(s: Seq<char>, p: Seq<char>) -> bool {
    p.len() <= s.len() && s.subrange(s.len() - p.len(), s.len() as int) == p
}

} // verus!
